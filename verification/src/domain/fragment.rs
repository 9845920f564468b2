//! Fragment: a slice of a note's text used for search and retrieval.
use vstd::prelude::*;

use super::{NoteId, SectionId};

verus! {

/// Identifier of a fragment.
#[derive(Debug, Clone, Copy, PartialEq, Eq, Hash, Structural)]
pub struct FragmentId(pub i64);

impl From<i64> for FragmentId {
    fn from(v: i64) -> (r: Self) {
        FragmentId(v)
    }
}

impl vstd::std_specs::convert::FromSpecImpl<i64> for FragmentId {
    open spec fn obeys_from_spec() -> bool {
        true
    }

    open spec fn from_spec(v: i64) -> Self {
        FragmentId(v)
    }
}

/// A chunk of a note's text, with its embedding.
#[derive(Debug, Clone)]
pub struct Fragment {
    pub id: FragmentId,
    pub note_id: NoteId,
    pub section_id: Option<SectionId>,
    /// Position of the fragment within its note (0-based).
    pub fragment_index: i64,
    /// Text without markdown formatting.
    pub text_clean: String,
    /// BLAKE3 hash of `text_clean`.
    pub clean_hash: String,
    pub token_count: Option<i64>,
    /// Little-endian `f32` embedding bytes.
    pub embedding: Option<Vec<u8>>,
}

/// Row inserted for a fragment while indexing a note.
#[derive(Debug, Clone)]
pub struct FragmentInsertRow {
    pub fragment_index: i64,
    pub text_clean: String,
    pub clean_hash: String,
    pub token_count: Option<i64>,
    /// Little-endian `f32` embedding bytes; empty when not computed yet.
    pub embedding: Vec<u8>,
}

/// Payload for creating a fragment.
#[derive(Debug, Clone)]
pub struct NewFragment {
    pub note_id: NoteId,
    pub section_id: Option<SectionId>,
    pub fragment_index: i64,
    pub text_clean: String,
    pub clean_hash: String,
    pub token_count: Option<i64>,
    pub embedding: Option<Vec<u8>>,
}

} // verus!
