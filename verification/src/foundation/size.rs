//! The two sizes of the older components.
use vstd::prelude::*;

verus! {

/// The size of a component.
#[derive(Debug, Clone, Copy, PartialEq, Eq, Structural)]
pub enum Size {
    Medium,
    Large,
}

/// Builder methods that set a component's [`Size`].
pub trait WithSize: Sized {
    fn size(self, size: Size) -> Self;

    fn size_md(self) -> (r: Self)
        ensures
            call_ensures(Self::size, (self, Size::Medium), r),
    {
        self.size(Size::Medium)
    }

    fn size_lg(self) -> (r: Self)
        ensures
            call_ensures(Self::size, (self, Size::Large), r),
    {
        self.size(Size::Large)
    }
}

} // verus!
