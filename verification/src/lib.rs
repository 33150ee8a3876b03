//! Dependency resolution across several package ecosystems at once.

pub mod alpine;
pub mod babel;
pub mod canonical;
pub mod cargo;
pub mod constraints;
pub mod debian;
pub mod error;
pub mod index;
pub mod opam;
pub mod order;
pub mod platform;
pub mod range;
pub mod router;
pub mod text;
