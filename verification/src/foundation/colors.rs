//! The theme's colour slots and font weights that components pick from. The
//! colours themselves belong to the theme; components decide which slot
//! each part of them takes.
use vstd::prelude::*;

verus! {

/// A colour slot of the theme.
#[derive(Debug, Clone, Copy, PartialEq, Eq, Structural)]
pub enum ThemeColor {
    /// No colour at all.
    Transparent,
    Primary,
    Secondary,
    SecondaryForeground,
    SecondaryBackground,
    Accent,
    AccentForeground,
    AccentBackground,
    Warning,
    WarningForeground,
    WarningBackground,
    Danger,
    DangerForeground,
    DangerBackground,
    Border,
    Hover,
    Surface,
    SidebarHover,
    SidebarSurface,
    SidebarPrimary,
    SidebarSecondary,
}

/// The weight of a component's text.
#[derive(Debug, Clone, Copy, PartialEq, Eq, Structural)]
pub enum FontWeight {
    Normal,
    Semibold,
    Bold,
}

} // verus!
