//! A registry of modpacks: records that pair a remote URL with a local path,
//! kept in a single configuration document.

pub mod config;
pub mod error;
pub mod laws;
pub mod registry;
pub mod store;
pub mod text;
