//! Variants, sizes and corner radii of components.
use vstd::prelude::*;

verus! {

/// The colour scheme of a component; outlined unless set.
#[derive(Debug, Clone, Copy, PartialEq, Eq, Structural)]
pub enum Variant {
    Secondary,
    Accent,
    Warning,
    Danger,
    Outline,
    Ghosted,
}

impl Default for Variant {
    fn default() -> (r: Self)
        ensures
            r == Variant::Outline,
    {
        Variant::Outline
    }
}

/// Builder methods that set a component's [`Variant`].
pub trait WithVariant: Sized {
    fn variant(self, variant: Variant) -> Self;

    fn variant_secondary(self) -> (r: Self)
        ensures
            call_ensures(Self::variant, (self, Variant::Secondary), r),
    {
        self.variant(Variant::Secondary)
    }

    fn variant_accent(self) -> (r: Self)
        ensures
            call_ensures(Self::variant, (self, Variant::Accent), r),
    {
        self.variant(Variant::Accent)
    }

    fn variant_warning(self) -> (r: Self)
        ensures
            call_ensures(Self::variant, (self, Variant::Warning), r),
    {
        self.variant(Variant::Warning)
    }

    fn variant_danger(self) -> (r: Self)
        ensures
            call_ensures(Self::variant, (self, Variant::Danger), r),
    {
        self.variant(Variant::Danger)
    }

    fn variant_outline(self) -> (r: Self)
        ensures
            call_ensures(Self::variant, (self, Variant::Outline), r),
    {
        self.variant(Variant::Outline)
    }

    fn variant_ghost(self) -> (r: Self)
        ensures
            call_ensures(Self::variant, (self, Variant::Ghosted), r),
    {
        self.variant(Variant::Ghosted)
    }
}

/// The size of a component; medium unless set.
#[derive(Debug, Clone, Copy, PartialEq, Eq, Structural)]
pub enum Size {
    Small,
    Medium,
    Large,
}

impl Default for Size {
    fn default() -> (r: Self)
        ensures
            r == Size::Medium,
    {
        Size::Medium
    }
}

/// Builder methods that set a component's [`Size`].
pub trait WithSize: Sized {
    fn size(self, size: Size) -> Self;

    fn size_sm(self) -> (r: Self)
        ensures
            call_ensures(Self::size, (self, Size::Small), r),
    {
        self.size(Size::Small)
    }

    fn size_md(self) -> (r: Self)
        ensures
            call_ensures(Self::size, (self, Size::Medium), r),
    {
        self.size(Size::Medium)
    }

    fn size_lg(self) -> (r: Self)
        ensures
            call_ensures(Self::size, (self, Size::Large), r),
    {
        self.size(Size::Large)
    }
}

/// The rounding of a component's corners; medium unless set.
#[derive(Debug, Clone, Copy, PartialEq, Eq, Structural)]
pub enum Radius {
    Medium,
    Pill,
}

impl Default for Radius {
    fn default() -> (r: Self)
        ensures
            r == Radius::Medium,
    {
        Radius::Medium
    }
}

/// Builder methods that set a component's [`Radius`].
pub trait WithRadius: Sized {
    fn radius(self, radius: Radius) -> Self;

    fn radius_md(self) -> (r: Self)
        ensures
            call_ensures(Self::radius, (self, Radius::Medium), r),
    {
        self.radius(Radius::Medium)
    }

    fn radius_pill(self) -> (r: Self)
        ensures
            call_ensures(Self::radius, (self, Radius::Pill), r),
    {
        self.radius(Radius::Pill)
    }
}

} // verus!
