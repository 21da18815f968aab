//! The Legacy Games storefront: its web API, and the decisions its plugin
//! takes when it signs in and lists the games.
pub mod api;
pub mod error;
pub mod plugin;
