//! Identity and mapping-store substrate for bridging two content-addressable
//! version-control object stores.
//!
//! The crate provides fixed-length raw object identifiers with hex text forms,
//! typed (kind-branded) identifiers, a classified reference union whose variant
//! is chosen by a file mode, abbreviated (prefix) identifiers, and a notes-tree
//! mapping store from one identifier namespace to another with lazy
//! initialization, dirty tracking and snapshot commits.

pub mod git;
pub mod notes;
pub mod objects;
pub mod oid;
