//! Types of the pipeline that distributes a draft into existing notes.
use vstd::prelude::*;

use super::{NoteId, SectionId};

verus! {

/// A cohesive block of a draft with a suggested title.
#[derive(Debug, Clone)]
pub struct TopicChunk {
    pub text: String,
    pub suggested_title: String,
}

/// A block of markdown bounded by its headings.
#[derive(Debug)]
pub struct RawBlock {
    /// Byte range of the block in the source.
    pub range: std::ops::Range<usize>,
    pub text: String,
    /// Whether the block starts with an H1 or H2 heading.
    pub is_heading_h1_h2: bool,
    pub heading_title: Option<String>,
}

/// What to do with one chunk of a draft.
#[derive(Debug, Clone)]
pub enum DistributeAction {
    /// Append the chunk to an existing note, optionally under a section.
    Append { target_note_id: NoteId, target_section_id: Option<SectionId> },
    /// Create a new child note.
    CreateChild { parent_note_id: Option<NoteId>, new_note_title: String },
    /// Merge with another chunk of the same draft (0-based index).
    MergeWithChunk { chunk_index: usize },
    /// Discard the chunk.
    Skip,
}

} // verus!
