//! The Alpine (`APKINDEX`) ecosystem.

pub mod deps;
pub mod index;
pub mod parse;
pub mod version;
