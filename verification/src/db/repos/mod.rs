//! Pure parts of the repositories: row decoding, query construction and the
//! decisions taken between database calls.

pub mod files;
pub mod fragments;
pub mod keyword;
pub mod notes;
pub mod tag_closure;
pub mod tag_resolve;
pub mod tag_tree;
pub mod tags;
