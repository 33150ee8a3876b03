//! The OPAM ecosystem: versions, dependency formulas and their compilation
//! into plain package constraints.

pub mod context;
pub mod deps;
pub mod index;
pub mod parse;
pub mod version;
