//! The looks that components share: variants, sizes and corner radii, and
//! the builder methods that set them.
pub mod colors;
pub mod looks;
pub mod size;
pub mod variant;

pub use colors::{FontWeight, ThemeColor};
pub use looks::{Radius, Size, Variant, WithRadius, WithSize, WithVariant};
