//! The variants of the older components.
use vstd::prelude::*;

verus! {

/// The colour scheme of a component.
#[derive(Debug, Clone, Copy, PartialEq, Eq, Structural)]
pub enum Variant {
    Primary,
    Secondary,
    Accent,
    Warning,
    Destructive,
    Outline,
}

/// Builder methods that set a component's [`Variant`].
pub trait WithVariant: Sized {
    fn variant(self, variant: Variant) -> Self;

    fn variant_primary(self) -> (r: Self)
        ensures
            call_ensures(Self::variant, (self, Variant::Primary), r),
    {
        self.variant(Variant::Primary)
    }

    fn variant_secondary(self) -> (r: Self)
        ensures
            call_ensures(Self::variant, (self, Variant::Secondary), r),
    {
        self.variant(Variant::Secondary)
    }

    fn variant_accent(self) -> (r: Self)
        ensures
            call_ensures(Self::variant, (self, Variant::Accent), r),
    {
        self.variant(Variant::Accent)
    }

    fn variant_warning(self) -> (r: Self)
        ensures
            call_ensures(Self::variant, (self, Variant::Warning), r),
    {
        self.variant(Variant::Warning)
    }

    fn variant_destructive(self) -> (r: Self)
        ensures
            call_ensures(Self::variant, (self, Variant::Destructive), r),
    {
        self.variant(Variant::Destructive)
    }

    fn variant_outline(self) -> (r: Self)
        ensures
            call_ensures(Self::variant, (self, Variant::Outline), r),
    {
        self.variant(Variant::Outline)
    }
}

} // verus!
