//! Database-side logic: content hashing, timestamps, the indexing decision,
//! schema upgrade planning and the pure parts of the repositories.

pub mod hash;
pub mod repos;
pub mod schema;
pub mod scheduler;
pub mod time;
pub mod validation;

pub use hash::content_hash;
