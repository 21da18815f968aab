//! Sizes and variants of the first components.
use vstd::prelude::*;

verus! {

/// The size of a component.
#[derive(Debug, Clone, Copy, PartialEq, Eq, Structural)]
pub enum Size {
    Medium,
    Large,
}

/// Builder methods that set a component's [`Size`].
pub trait WithSize: Sized {
    fn size(self, size: Size) -> Self;

    fn size_md(self) -> (r: Self)
        ensures
            call_ensures(Self::size, (self, Size::Medium), r),
    {
        self.size(Size::Medium)
    }

    fn size_lg(self) -> (r: Self)
        ensures
            call_ensures(Self::size, (self, Size::Large), r),
    {
        self.size(Size::Large)
    }
}

/// The colour scheme of a component.
#[derive(Debug, Clone, Copy, PartialEq, Eq, Structural)]
pub enum Variant {
    Primary,
    Accent,
    Ghosted,
}

/// Builder methods that set a component's [`Variant`].
pub trait WithVariant: Sized {
    fn variant(self, variant: Variant) -> Self;

    fn variant_primary(self) -> (r: Self)
        ensures
            call_ensures(Self::variant, (self, Variant::Primary), r),
    {
        self.variant(Variant::Primary)
    }

    fn variant_accent(self) -> (r: Self)
        ensures
            call_ensures(Self::variant, (self, Variant::Accent), r),
    {
        self.variant(Variant::Accent)
    }

    fn variant_ghost(self) -> (r: Self)
        ensures
            call_ensures(Self::variant, (self, Variant::Ghosted), r),
    {
        self.variant(Variant::Ghosted)
    }
}

} // verus!
