//! The Epic Games storefront: where its sign-in and sign-out pages are.
pub mod endpoints;
pub mod plugin;
