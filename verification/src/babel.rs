//! The unified layer: packages, versions and version sets that span all
//! ecosystems, and the index that answers for all of them.

pub mod deps;
pub mod index;
pub mod version;
