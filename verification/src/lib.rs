//! Verified core of a note-taking and spaced-repetition knowledge base.
use vstd::prelude::*;

pub mod cli;
pub mod common;
pub mod db;
pub mod distribute;
pub mod domain;
pub mod error;
pub mod reviewer;
pub mod text;

pub use error::AppError;

verus! {
} // verus!
