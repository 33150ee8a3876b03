//! The Debian (`Packages`) ecosystem.

pub mod deps;
pub mod index;
pub mod version;
