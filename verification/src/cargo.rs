//! The Cargo (crates.io) ecosystem.

pub mod index;
pub mod names;
pub mod version;
