//! Note: a user-authored document, the main unit of knowledge.
use vstd::prelude::*;

use super::Timestamp;
use crate::db::hash::{blake3_hex, content_hash};
use crate::text::str_eq;

verus! {

/// Identifier of a note.
#[derive(Debug, Clone, Copy, PartialEq, Eq, Hash, Structural)]
pub struct NoteId(pub i64);

impl From<i64> for NoteId {
    fn from(v: i64) -> (r: Self) {
        NoteId(v)
    }
}

impl vstd::std_specs::convert::FromSpecImpl<i64> for NoteId {
    open spec fn obeys_from_spec() -> bool {
        true
    }

    open spec fn from_spec(v: i64) -> Self {
        NoteId(v)
    }
}

/// Status of background indexing (fragmenting and embedding).
#[derive(Debug, Clone, Copy, PartialEq, Eq, Structural)]
pub enum IndexingStatus {
    /// Waiting to be indexed.
    Pending,
    /// Being processed.
    Indexing,
    /// Indexed and searchable.
    Indexed,
    /// Indexing failed.
    Failed,
    /// Content changed since the last indexing.
    Stale,
}

impl IndexingStatus {
    /// The stored name of the status.
    pub open spec fn name(self) -> Seq<char> {
        match self {
            IndexingStatus::Pending => "pending"@,
            IndexingStatus::Indexing => "indexing"@,
            IndexingStatus::Indexed => "indexed"@,
            IndexingStatus::Failed => "failed"@,
            IndexingStatus::Stale => "stale"@,
        }
    }

    /// The status whose stored name is `s`, if any.
    pub open spec fn from_name(s: Seq<char>) -> Option<IndexingStatus> {
        if s == "pending"@ {
            Some(IndexingStatus::Pending)
        } else if s == "indexing"@ {
            Some(IndexingStatus::Indexing)
        } else if s == "indexed"@ {
            Some(IndexingStatus::Indexed)
        } else if s == "failed"@ {
            Some(IndexingStatus::Failed)
        } else if s == "stale"@ {
            Some(IndexingStatus::Stale)
        } else {
            None
        }
    }

    pub fn as_str(&self) -> (r: &'static str)
        ensures
            r@ == self.name(),
    {
        match self {
            IndexingStatus::Pending => "pending",
            IndexingStatus::Indexing => "indexing",
            IndexingStatus::Indexed => "indexed",
            IndexingStatus::Failed => "failed",
            IndexingStatus::Stale => "stale",
        }
    }

    pub fn parse(s: &str) -> (r: Option<Self>)
        ensures
            r == Self::from_name(s@),
    {
        if str_eq(s, "pending") {
            Some(IndexingStatus::Pending)
        } else if str_eq(s, "indexing") {
            Some(IndexingStatus::Indexing)
        } else if str_eq(s, "indexed") {
            Some(IndexingStatus::Indexed)
        } else if str_eq(s, "failed") {
            Some(IndexingStatus::Failed)
        } else if str_eq(s, "stale") {
            Some(IndexingStatus::Stale)
        } else {
            None
        }
    }
}

/// Parsing the stored name of a status gives the status back, and a name parses
/// only to the value stored under that very name.
pub proof fn lemma_indexing_status_round_trip(s: IndexingStatus)
    ensures
        IndexingStatus::from_name(s.name()) == Some(s),
        forall|name: Seq<char>| #[trigger] IndexingStatus::from_name(name) matches Some(x) ==> x.name() == name,
{
    reveal_strlit("pending");
    reveal_strlit("indexing");
    reveal_strlit("indexed");
    reveal_strlit("failed");
    reveal_strlit("stale");
    assert("pending"@.len() == 7 && "pending"@[0] == 'p');
    assert("indexing"@.len() == 8 && "indexing"@[0] == 'i');
    assert("indexed"@.len() == 7 && "indexed"@[0] == 'i');
    assert("failed"@.len() == 6 && "failed"@[0] == 'f');
    assert("stale"@.len() == 5 && "stale"@[0] == 's');
}

/// The lifecycle status of a note.
#[derive(Debug, Clone, Copy, PartialEq, Eq, Structural)]
pub enum NoteLifecycle {
    /// Work-in-progress draft, not indexed.
    Draft,
    /// Regular note.
    Active,
    /// Hidden from normal views and not indexed.
    Archived,
    /// Soft-deleted.
    Deleted,
}

impl NoteLifecycle {
    /// The stored name of the lifecycle state.
    pub open spec fn name(self) -> Seq<char> {
        match self {
            NoteLifecycle::Draft => "draft"@,
            NoteLifecycle::Active => "active"@,
            NoteLifecycle::Archived => "archived"@,
            NoteLifecycle::Deleted => "deleted"@,
        }
    }

    /// The lifecycle state whose stored name is `s`, if any.
    pub open spec fn from_name(s: Seq<char>) -> Option<NoteLifecycle> {
        if s == "draft"@ {
            Some(NoteLifecycle::Draft)
        } else if s == "active"@ {
            Some(NoteLifecycle::Active)
        } else if s == "archived"@ {
            Some(NoteLifecycle::Archived)
        } else if s == "deleted"@ {
            Some(NoteLifecycle::Deleted)
        } else {
            None
        }
    }

    pub fn as_str(&self) -> (r: &'static str)
        ensures
            r@ == self.name(),
    {
        match self {
            NoteLifecycle::Draft => "draft",
            NoteLifecycle::Active => "active",
            NoteLifecycle::Archived => "archived",
            NoteLifecycle::Deleted => "deleted",
        }
    }

    pub fn parse(s: &str) -> (r: Option<Self>)
        ensures
            r == Self::from_name(s@),
    {
        if str_eq(s, "draft") {
            Some(NoteLifecycle::Draft)
        } else if str_eq(s, "active") {
            Some(NoteLifecycle::Active)
        } else if str_eq(s, "archived") {
            Some(NoteLifecycle::Archived)
        } else if str_eq(s, "deleted") {
            Some(NoteLifecycle::Deleted)
        } else {
            None
        }
    }
}

/// Parsing the stored name of a lifecycle state gives the state back, and a name parses
/// only to the value stored under that very name.
pub proof fn lemma_note_lifecycle_round_trip(l: NoteLifecycle)
    ensures
        NoteLifecycle::from_name(l.name()) == Some(l),
        forall|name: Seq<char>| #[trigger] NoteLifecycle::from_name(name) matches Some(x) ==> x.name() == name,
{
    reveal_strlit("draft");
    reveal_strlit("active");
    reveal_strlit("archived");
    reveal_strlit("deleted");
    assert("draft"@.len() == 5 && "draft"@[0] == 'd');
    assert("active"@.len() == 6 && "active"@[0] == 'a');
    assert("archived"@.len() == 8 && "archived"@[0] == 'a');
    assert("deleted"@.len() == 7 && "deleted"@[0] == 'd');
}

/// A user-authored document.
///
/// `mastery_bits` holds the IEEE-754 bit pattern of the `f32` mastery level;
/// the library only carries it.
#[derive(Debug, Clone)]
pub struct Note {
    pub id: NoteId,
    pub title: String,
    /// Raw markdown content.
    pub content: String,
    /// BLAKE3 hash of `content`, used for change detection.
    pub content_hash: String,
    pub parent_note_id: Option<NoteId>,
    /// Materialized path from the root note down to this note.
    pub path_cached: String,
    pub sort_order: i64,
    pub icon: Option<String>,
    pub indexing_status: IndexingStatus,
    pub indexing_error: Option<String>,
    pub indexed_at: Option<Timestamp>,
    pub embedding_model: Option<String>,
    pub embedding_dimension: Option<i64>,
    pub indexing_version: Option<String>,
    pub lifecycle: NoteLifecycle,
    pub is_pinned: bool,
    pub is_favorite: bool,
    pub mastery_bits: Option<u32>,
    pub last_studied: Option<Timestamp>,
    pub created_at: Timestamp,
    pub updated_at: Timestamp,
}

impl Note {
    /// The stored hash is the hash of the stored content.
    pub open spec fn hash_matches_content(&self) -> bool {
        self.content_hash@ == blake3_hex(self.content@)
    }

    /// Creates a note pending indexing, with its content hash computed.
    pub fn new(
        id: NoteId,
        title: String,
        content: String,
        parent_note_id: Option<NoteId>,
        path_cached: String,
        sort_order: i64,
        icon: Option<String>,
        lifecycle: NoteLifecycle,
        is_pinned: bool,
        is_favorite: bool,
        created_at: Timestamp,
    ) -> (r: Self)
        ensures
            r.id == id,
            r.title == title,
            r.content == content,
            r.content_hash@ == blake3_hex(content@),
            r.parent_note_id == parent_note_id,
            r.path_cached == path_cached,
            r.sort_order == sort_order,
            r.icon == icon,
            r.indexing_status == IndexingStatus::Pending,
            r.indexing_error is None,
            r.indexed_at is None,
            r.embedding_model is None,
            r.embedding_dimension is None,
            r.indexing_version is None,
            r.lifecycle == lifecycle,
            r.is_pinned == is_pinned,
            r.is_favorite == is_favorite,
            r.mastery_bits is None,
            r.last_studied is None,
            r.created_at == created_at,
            r.updated_at == created_at,
            r.hash_matches_content(),
    {
        let content_hash = content_hash(content.as_str());
        Note {
            id,
            title,
            content,
            content_hash,
            parent_note_id,
            path_cached,
            sort_order,
            icon,
            indexing_status: IndexingStatus::Pending,
            indexing_error: None,
            indexed_at: None,
            embedding_model: None,
            embedding_dimension: None,
            indexing_version: None,
            lifecycle,
            is_pinned,
            is_favorite,
            mastery_bits: None,
            last_studied: None,
            created_at,
            updated_at: created_at,
        }
    }

    /// Replaces the content when its hash differs from the stored hash, and
    /// then marks the note stale; always records `updated_at`.
    pub fn update_content(&mut self, new_content: String, updated_at: Timestamp)
        ensures
            content_replaced(*old(self), *final(self), new_content@, updated_at),
            old(self).content_hash@ != blake3_hex(new_content@) ==> final(self).content
                == new_content,
    {
        let new_hash = content_hash(new_content.as_str());
        if !(self.content_hash == new_hash) {
            self.content = new_content;
            self.content_hash = new_hash;
            self.indexing_status = IndexingStatus::Stale;
        }
        self.updated_at = updated_at;
    }

    /// Active notes feed search, retrieval and card generation.
    pub fn is_indexable(&self) -> (r: bool)
        ensures
            r == (self.lifecycle == NoteLifecycle::Active),
    {
        self.lifecycle == NoteLifecycle::Active
    }

    /// Notes shown in the study tree: neither deleted nor drafts.
    pub fn is_visible_in_tree(&self) -> (r: bool)
        ensures
            r == (self.lifecycle != NoteLifecycle::Deleted && self.lifecycle != NoteLifecycle::Draft),
    {
        self.lifecycle != NoteLifecycle::Deleted && self.lifecycle != NoteLifecycle::Draft
    }

    /// Drafts can be distributed into other notes.
    pub fn is_distributable(&self) -> (r: bool)
        ensures
            r == (self.lifecycle == NoteLifecycle::Draft),
    {
        self.lifecycle == NoteLifecycle::Draft
    }

    /// The light-weight view of the note used in lists and trees.
    pub fn summary(&self) -> (r: NoteSummary)
        ensures
            r.id == self.id,
            r.title@ == self.title@,
            r.icon == self.icon,
            r.parent_note_id == self.parent_note_id,
            r.path_cached@ == self.path_cached@,
            r.lifecycle == self.lifecycle,
            r.is_pinned == self.is_pinned,
            r.mastery_bits == self.mastery_bits,
            r.last_studied == self.last_studied,
            r.updated_at == self.updated_at,
    {
        let icon = match &self.icon {
            Some(i) => Some(i.clone()),
            None => None,
        };
        NoteSummary {
            id: self.id,
            title: self.title.clone(),
            icon,
            parent_note_id: self.parent_note_id,
            path_cached: self.path_cached.clone(),
            lifecycle: self.lifecycle,
            is_pinned: self.is_pinned,
            mastery_bits: self.mastery_bits,
            last_studied: self.last_studied,
            updated_at: self.updated_at,
        }
    }
}

/// `after` is `before` with its content replaced by `new_content` at time
/// `at`: when the hash of the new content differs from the stored hash, the
/// content and hash are replaced and the note becomes stale; otherwise they
/// stay. The timestamp is always recorded and every other field stays.
pub open spec fn content_replaced(before: Note, after: Note, new_content: Seq<char>, at: Timestamp) -> bool {
    let changed = before.content_hash@ != blake3_hex(new_content);
    &&& after.content@ == (if changed { new_content } else { before.content@ })
    &&& after.content_hash@ == (if changed { blake3_hex(new_content) } else { before.content_hash@ })
    &&& after.indexing_status == (if changed { IndexingStatus::Stale } else { before.indexing_status })
    &&& !changed ==> after.content == before.content && after.content_hash == before.content_hash
    &&& after.updated_at == at
    &&& after.id == before.id
    &&& after.title == before.title
    &&& after.parent_note_id == before.parent_note_id
    &&& after.path_cached == before.path_cached
    &&& after.sort_order == before.sort_order
    &&& after.icon == before.icon
    &&& after.indexing_error == before.indexing_error
    &&& after.indexed_at == before.indexed_at
    &&& after.embedding_model == before.embedding_model
    &&& after.embedding_dimension == before.embedding_dimension
    &&& after.indexing_version == before.indexing_version
    &&& after.lifecycle == before.lifecycle
    &&& after.is_pinned == before.is_pinned
    &&& after.is_favorite == before.is_favorite
    &&& after.mastery_bits == before.mastery_bits
    &&& after.last_studied == before.last_studied
    &&& after.created_at == before.created_at
}

/// After a replacement the stored hash is the hash of the new content, and a
/// note whose hash matched its content still does; replacing the content a
/// second time with the same text changes nothing but the timestamp.
pub proof fn lemma_content_replacement_laws(
    n: Note,
    m: Note,
    k: Note,
    c: Seq<char>,
    t1: Timestamp,
    t2: Timestamp,
)
    requires
        content_replaced(n, m, c, t1),
        content_replaced(m, k, c, t2),
    ensures
        n.hash_matches_content() ==> m.hash_matches_content(),
        m.content_hash@ == blake3_hex(c),
        k.content@ == m.content@,
        k.content_hash@ == m.content_hash@,
        k.indexing_status == m.indexing_status,
        k.updated_at == t2,
{
}

/// What lists and trees show of a note.
#[derive(Debug, Clone)]
pub struct NoteSummary {
    pub id: NoteId,
    pub title: String,
    pub icon: Option<String>,
    pub parent_note_id: Option<NoteId>,
    pub path_cached: String,
    pub lifecycle: NoteLifecycle,
    pub is_pinned: bool,
    /// IEEE-754 bit pattern of the `f32` mastery level.
    pub mastery_bits: Option<u32>,
    pub last_studied: Option<Timestamp>,
    pub updated_at: Timestamp,
}

/// Input for creating a note; the repository assigns id and timestamps.
#[derive(Debug, Clone)]
pub struct NewNote {
    pub title: String,
    pub content: String,
    pub parent_note_id: Option<NoteId>,
    pub path_cached: Option<String>,
    pub sort_order: Option<i64>,
    pub icon: Option<String>,
    pub lifecycle: Option<NoteLifecycle>,
    pub is_pinned: bool,
    pub is_favorite: bool,
}

impl Default for NewNote {
    fn default() -> (r: Self)
        ensures
            r.title@ == Seq::<char>::empty(),
            r.content@ == Seq::<char>::empty(),
            r.parent_note_id is None,
            r.path_cached is None,
            r.sort_order is None,
            r.icon is None,
            r.lifecycle is None,
            !r.is_pinned,
            !r.is_favorite,
    {
        NewNote {
            title: String::new(),
            content: String::new(),
            parent_note_id: None,
            path_cached: None,
            sort_order: None,
            icon: None,
            lifecycle: None,
            is_pinned: false,
            is_favorite: false,
        }
    }
}

/// A stored revision of a note's content: a patch from the previous content.
#[derive(Debug, Clone)]
pub struct NoteRevision {
    pub revision_id: i64,
    pub note_id: NoteId,
    /// Unified diff turning the previous content into this one.
    pub patch: String,
    pub created_at: Timestamp,
}

} // verus!
