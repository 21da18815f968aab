//! Buttons: their size on screen, and whether they react.
use crate::foundation::{FontWeight, Size, ThemeColor, Variant, WithSize, WithVariant};
use vstd::prelude::*;

verus! {

/// The colours and weight a button is drawn with.
#[derive(Debug, Clone, Copy, PartialEq, Eq, Structural)]
pub struct ButtonPalette {
    pub background: ThemeColor,
    pub foreground: ThemeColor,
    pub border: ThemeColor,
    pub ring: ThemeColor,
    pub weight: FontWeight,
}

/// A solid button: filled with `background`, no border, a primary focus
/// ring, semibold text.
pub open spec fn solid_palette(background: ThemeColor, foreground: ThemeColor) -> ButtonPalette {
    ButtonPalette {
        background,
        foreground,
        border: ThemeColor::Transparent,
        ring: ThemeColor::Primary,
        weight: FontWeight::Semibold,
    }
}

/// The palette of a button of `variant`: the four coloured variants are
/// solid in their colour; an outlined button is transparent with a border
/// and primary text; a ghost button is transparent, borderless, with
/// secondary text and ring and normal weight.
pub open spec fn button_palette_spec(variant: Variant) -> ButtonPalette {
    match variant {
        Variant::Secondary => solid_palette(ThemeColor::Secondary, ThemeColor::SecondaryForeground),
        Variant::Accent => solid_palette(ThemeColor::Accent, ThemeColor::AccentForeground),
        Variant::Warning => solid_palette(ThemeColor::Warning, ThemeColor::WarningForeground),
        Variant::Danger => solid_palette(ThemeColor::Danger, ThemeColor::DangerForeground),
        Variant::Outline => ButtonPalette {
            background: ThemeColor::Transparent,
            foreground: ThemeColor::Primary,
            border: ThemeColor::Border,
            ring: ThemeColor::Primary,
            weight: FontWeight::Semibold,
        },
        Variant::Ghosted => ButtonPalette {
            background: ThemeColor::Transparent,
            foreground: ThemeColor::Secondary,
            border: ThemeColor::Transparent,
            ring: ThemeColor::Secondary,
            weight: FontWeight::Normal,
        },
    }
}

fn solid(background: ThemeColor, foreground: ThemeColor) -> (r: ButtonPalette)
    ensures
        r == solid_palette(background, foreground),
{
    ButtonPalette {
        background,
        foreground,
        border: ThemeColor::Transparent,
        ring: ThemeColor::Primary,
        weight: FontWeight::Semibold,
    }
}

/// A button: its looks, whether it shows an icon in place of a label, and
/// whether it is busy or switched off.
pub struct Button {
    pub variant: Variant,
    pub size: Size,
    pub has_icon: bool,
    pub loading: bool,
    pub disabled: bool,
}

impl Button {
    /// An outlined, medium button with a label.
    pub fn new() -> (r: Self)
        ensures
            r.variant == Variant::Outline,
            r.size == Size::Medium,
            !r.has_icon,
            !r.loading,
            !r.disabled,
    {
        Button {
            variant: Variant::Outline,
            size: Size::Medium,
            has_icon: false,
            loading: false,
            disabled: false,
        }
    }

    /// A button that shows an icon.
    pub fn icon() -> (r: Self)
        ensures
            r.variant == Variant::Outline,
            r.size == Size::Medium,
            r.has_icon,
            !r.loading,
            !r.disabled,
    {
        Button { has_icon: true, ..Self::new() }
    }

    /// Show a spinner in place of the content; the button stops reacting.
    pub fn loading(self) -> (r: Self)
        ensures
            r == (Button { loading: true, ..self }),
    {
        Button { loading: true, ..self }
    }

    /// Dim the button; it stops reacting.
    pub fn disabled(self) -> (r: Self)
        ensures
            r == (Button { disabled: true, ..self }),
    {
        Button { disabled: true, ..self }
    }

    /// The height, in sixteenths of a rem: a ghost button is one rem tall,
    /// the others 2, 2.375 or 2.625 rem by size.
    pub open spec fn height_spec(&self) -> u32 {
        if self.variant == Variant::Ghosted {
            16
        } else {
            match self.size {
                Size::Small => 32u32,
                Size::Medium => 38u32,
                Size::Large => 42u32,
            }
        }
    }

    /// The padding left and right of a label, in sixteenths of a rem: a
    /// quarter rem for a ghost button, 0.75, 1.125 or 1.25 rem by size.
    pub open spec fn padding_spec(&self) -> u32 {
        if self.variant == Variant::Ghosted {
            4
        } else {
            match self.size {
                Size::Small => 12u32,
                Size::Medium => 18u32,
                Size::Large => 20u32,
            }
        }
    }

    /// The height, in sixteenths of a rem.
    pub fn height(&self) -> (r: u32)
        ensures
            r == self.height_spec(),
    {
        if self.variant == Variant::Ghosted {
            return 16;
        }
        match self.size {
            Size::Small => 32,
            Size::Medium => 38,
            Size::Large => 42,
        }
    }

    /// The padding left and right of a label, in sixteenths of a rem.
    pub fn padding(&self) -> (r: u32)
        ensures
            r == self.padding_spec(),
    {
        if self.variant == Variant::Ghosted {
            return 4;
        }
        match self.size {
            Size::Small => 12,
            Size::Medium => 18,
            Size::Large => 20,
        }
    }

    /// The colours and weight the button is drawn with.
    pub fn palette(&self) -> (r: ButtonPalette)
        ensures
            r == button_palette_spec(self.variant),
    {
        match self.variant {
            Variant::Secondary => solid(ThemeColor::Secondary, ThemeColor::SecondaryForeground),
            Variant::Accent => solid(ThemeColor::Accent, ThemeColor::AccentForeground),
            Variant::Warning => solid(ThemeColor::Warning, ThemeColor::WarningForeground),
            Variant::Danger => solid(ThemeColor::Danger, ThemeColor::DangerForeground),
            Variant::Outline => ButtonPalette {
                background: ThemeColor::Transparent,
                foreground: ThemeColor::Primary,
                border: ThemeColor::Border,
                ring: ThemeColor::Primary,
                weight: FontWeight::Semibold,
            },
            Variant::Ghosted => ButtonPalette {
                background: ThemeColor::Transparent,
                foreground: ThemeColor::Secondary,
                border: ThemeColor::Transparent,
                ring: ThemeColor::Secondary,
                weight: FontWeight::Normal,
            },
        }
    }

    /// Whether the button reacts to the pointer and to clicks.
    pub fn is_interactive(&self) -> (r: bool)
        ensures
            r == (!self.disabled && !self.loading),
    {
        !self.disabled && !self.loading
    }

    /// The horizontal room: an icon button is at least as wide as it is
    /// tall (`Ok`), a label gets the padding on each side (`Err`).
    pub fn width_rule(&self) -> (r: Result<u32, u32>)
        ensures
            self.has_icon ==> r == Ok::<u32, u32>(self.height_spec()),
            !self.has_icon ==> r == Err::<u32, u32>(self.padding_spec()),
    {
        if self.has_icon {
            Ok(self.height())
        } else {
            Err(self.padding())
        }
    }
}

impl WithVariant for Button {
    fn variant(self, variant: Variant) -> (r: Self)
        ensures
            r == (Button { variant, ..self }),
    {
        Button { variant, ..self }
    }
}

impl WithSize for Button {
    fn size(self, size: Size) -> (r: Self)
        ensures
            r == (Button { size, ..self }),
    {
        Button { size, ..self }
    }
}

} // verus!
