//! Retrieval results.
use vstd::prelude::*;

use super::{FragmentId, NoteId};

verus! {

/// A hit returned by retrieval (vector, full-text or hybrid).
#[derive(Debug, Clone)]
pub struct SearchHit {
    pub fragment_id: FragmentId,
    pub note_id: NoteId,
    pub fragment_index: i64,
    pub text: String,
    pub note_title: Option<String>,
    pub note_path: Option<String>,
    /// Highlighted snippet, when available.
    pub snippet: Option<String>,
}

} // verus!
