//! Pure parts of the note repository.
use vstd::prelude::*;

use super::files::{revision_patch, revision_patch_of};
use crate::db::hash::{blake3_hex, content_hash};
use crate::domain::note::NoteId;
use crate::text::str_eq;

verus! {

/// A note as listed by `get_all`.
#[derive(Debug, Clone)]
pub struct NoteListItem {
    pub note_id: NoteId,
    pub title: String,
    pub is_deleted: bool,
    pub embedding_model: Option<String>,
    pub indexing_version: Option<String>,
}

/// What changes when a note's content is replaced: the revision patch to
/// record (if any) and the new content hash. The note also becomes stale.
#[derive(Debug, Clone)]
pub struct NoteContentUpdate {
    pub patch: Option<String>,
    pub content_hash: String,
}

/// Plans the replacement of a note's content `old` by `new`; `None` when the
/// content does not change, in which case nothing is written.
pub fn plan_content_update(old: &str, new: &str) -> (r: Option<NoteContentUpdate>)
    ensures
        old@ == new@ <==> r is None,
        r matches Some(u) ==> u.content_hash@ == blake3_hex(new@) && match u.patch {
            Some(p) => revision_patch_of(old@, new@) == Some(p@),
            None => revision_patch_of(old@, new@) is None,
        },
{
    if str_eq(old, new) {
        return None;
    }
    let patch = revision_patch(old, new);
    let hash = content_hash(new);
    Some(NoteContentUpdate { patch, content_hash: hash })
}

} // verus!
