//! A single-line text field: text operations, undo history and editing state.
pub mod history;
pub mod state;
pub mod text_ops;
pub mod cursor;
pub mod field;
