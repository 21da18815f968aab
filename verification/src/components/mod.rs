//! The interface components and the logic they decide by.
pub mod grid;
pub mod index_rail;
pub mod input;
pub mod scrollbar;
pub mod tooltip;
pub mod title_bar;
pub mod sidebar;
pub mod button;
pub mod dialog;
pub mod icon;
pub mod label;
