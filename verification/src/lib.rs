//! Profile graph duplication and validation engine for 3D-printer vendor
//! configuration trees: renaming profile trees under a new identity while
//! rewriting every internal cross-reference, and statically checking a tree
//! for referential integrity, required fields and identifier patterns.

pub mod analysis;
pub mod collision;
pub mod duplicate;
pub mod json;
pub mod parse;
pub mod profiles;
pub mod rewrite;
pub mod ser;
pub mod strings;
pub mod validate;
