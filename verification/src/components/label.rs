//! Labels: short coloured texts, filled or not, with an optional status dot.
use crate::foundation::{ThemeColor, Variant, WithVariant};
use vstd::prelude::*;

verus! {

/// A label: its text, variant, whether it is filled, and its status dot
/// (`Some(pulse)` when shown, pulsing or steady).
pub struct Label {
    pub text: String,
    pub variant: Variant,
    pub filled: bool,
    pub status_dot: Option<bool>,
}

/// The colours a label is drawn with: an optional background, and the text's.
#[derive(Debug, Clone, Copy, PartialEq, Eq, Structural)]
pub struct LabelPalette {
    pub background: Option<ThemeColor>,
    pub foreground: ThemeColor,
}

/// The colour of a label's text and dot: its variant's colour, secondary for
/// an outlined or ghost label.
pub open spec fn label_accent_spec(variant: Variant) -> ThemeColor {
    match variant {
        Variant::Secondary => ThemeColor::Secondary,
        Variant::Accent => ThemeColor::Accent,
        Variant::Warning => ThemeColor::Warning,
        Variant::Danger => ThemeColor::Danger,
        Variant::Outline | Variant::Ghosted => ThemeColor::Secondary,
    }
}

/// The background of a label: only a filled label of one of the four
/// coloured variants has one, in that variant's background colour.
pub open spec fn label_background_spec(variant: Variant, filled: bool) -> Option<ThemeColor> {
    if !filled {
        None
    } else {
        match variant {
            Variant::Secondary => Some(ThemeColor::SecondaryBackground),
            Variant::Accent => Some(ThemeColor::AccentBackground),
            Variant::Warning => Some(ThemeColor::WarningBackground),
            Variant::Danger => Some(ThemeColor::DangerBackground),
            Variant::Outline | Variant::Ghosted => None,
        }
    }
}

impl Label {
    /// An outlined label with `text`, not filled, without a dot.
    pub fn new(text: String) -> (r: Self)
        ensures
            r.text == text,
            r.variant == Variant::Outline,
            !r.filled,
            r.status_dot is None,
    {
        Label { text, variant: Variant::Outline, filled: false, status_dot: None }
    }

    /// Fill the label's background.
    pub fn filled(self) -> (r: Self)
        ensures
            r == (Label { filled: true, ..self }),
    {
        Label { filled: true, ..self }
    }

    /// Show a status dot before the text, pulsing when `pulse` holds.
    pub fn status_dot(self, pulse: bool) -> (r: Self)
        ensures
            r == (Label { status_dot: Some(pulse), ..self }),
    {
        Label { status_dot: Some(pulse), ..self }
    }

    /// The colour of a label's text and dot for `variant`.
    pub fn accent(variant: Variant) -> (r: ThemeColor)
        ensures
            r == label_accent_spec(variant),
    {
        match variant {
            Variant::Secondary => ThemeColor::Secondary,
            Variant::Accent => ThemeColor::Accent,
            Variant::Warning => ThemeColor::Warning,
            Variant::Danger => ThemeColor::Danger,
            Variant::Outline | Variant::Ghosted => ThemeColor::Secondary,
        }
    }

    /// The colours of a label of `variant`, filled or not, whose text takes `accent`.
    pub fn palette(variant: Variant, filled: bool, accent: ThemeColor) -> (r: LabelPalette)
        ensures
            r == (LabelPalette { background: label_background_spec(variant, filled), foreground: accent }),
    {
        let background = if !filled {
            None
        } else {
            match variant {
                Variant::Secondary => Some(ThemeColor::SecondaryBackground),
                Variant::Accent => Some(ThemeColor::AccentBackground),
                Variant::Warning => Some(ThemeColor::WarningBackground),
                Variant::Danger => Some(ThemeColor::DangerBackground),
                Variant::Outline | Variant::Ghosted => None,
            }
        };
        LabelPalette { background, foreground: accent }
    }

    /// The colours this label is drawn with.
    pub fn colors(&self) -> (r: LabelPalette)
        ensures
            r == (LabelPalette {
                background: label_background_spec(self.variant, self.filled),
                foreground: label_accent_spec(self.variant),
            }),
    {
        Self::palette(self.variant, self.filled, Self::accent(self.variant))
    }
}

impl WithVariant for Label {
    fn variant(self, variant: Variant) -> (r: Self)
        ensures
            r == (Label { variant, ..self }),
    {
        Label { variant, ..self }
    }
}

} // verus!
