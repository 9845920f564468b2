//! Domain types describing the knowledge base: notes, their sections and
//! fragments, flashcards, review schedules and hierarchical tags.

pub mod card;
pub mod chunk;
pub mod distribute;
pub mod file;
pub mod fragment;
pub mod language;
pub mod note;
pub mod schedule;
pub mod search;
pub mod section;
pub mod tag;

pub use card::{Card, CardId, CardLifecycle, CardType, NewCard, RenderedCard};
pub use distribute::{DistributeAction, RawBlock, TopicChunk};
pub use fragment::{Fragment, FragmentId, NewFragment};
pub use note::{IndexingStatus, NewNote, Note, NoteId, NoteLifecycle, NoteRevision, NoteSummary};
pub use schedule::{NewSchedule, Rating, ReviewTarget, ReviewTargetType, ScheduleId, SchedulerState};
pub use search::SearchHit;
pub use section::{NewSection, Section, SectionId};
pub use tag::{FragmentTagRelation, NewTag, Tag, TagId, TagSource};

use vstd::prelude::*;

verus! {

/// Unix timestamp in seconds.
pub type Timestamp = i64;

} // verus!
