//! The Legacy Games web API: endpoints, replies and the merging of product lists.
pub mod client;
pub mod endpoints;
pub mod error;
pub mod models;
