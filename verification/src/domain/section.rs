//! Section: a contiguous block of a note, usually bounded by headings.
use vstd::prelude::*;

use super::NoteId;

verus! {

/// Identifier of a section.
#[derive(Debug, Clone, Copy, PartialEq, Eq, Hash, Structural)]
pub struct SectionId(pub i64);

impl From<i64> for SectionId {
    fn from(v: i64) -> (r: Self) {
        SectionId(v)
    }
}

impl vstd::std_specs::convert::FromSpecImpl<i64> for SectionId {
    open spec fn obeys_from_spec() -> bool {
        true
    }

    open spec fn from_spec(v: i64) -> Self {
        SectionId(v)
    }
}

/// A section extracted from a note, with byte offsets into the note's raw content.
#[derive(Debug, Clone)]
pub struct Section {
    pub id: SectionId,
    pub note_id: NoteId,
    pub section_index: i64,
    /// Raw markdown text of the section.
    pub text_raw: String,
    /// Heading text, when the section starts with a heading.
    pub heading: Option<String>,
    /// Heading level (1 to 6), when the section starts with a heading.
    pub heading_level: Option<i64>,
    pub raw_hash: String,
    pub clean_hash: String,
    pub content_offset_start: i64,
    pub content_offset_end: i64,
}

/// Payload for creating a section.
#[derive(Debug, Clone)]
pub struct NewSection {
    pub note_id: NoteId,
    pub section_index: i64,
    pub text_raw: String,
    pub heading: Option<String>,
    pub heading_level: Option<i64>,
    pub raw_hash: String,
    pub clean_hash: String,
    pub content_offset_start: i64,
    pub content_offset_end: i64,
}

} // verus!
