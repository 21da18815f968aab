//! Thrustr: verified logic of a desktop game launcher's interface kit and
//! of its store plugins.
pub mod components;
pub mod unicode;
pub mod legacy_games;
pub mod epic_games;
pub mod foundation;
pub mod traits;
pub mod clock;
pub mod portal;
pub mod commit_lint;
pub mod decorations;
