//! Schedule: a spaced-repetition record whose target is a card or a note.
use vstd::prelude::*;

use super::{CardId, NoteId, Timestamp};
use crate::text::str_eq;

verus! {

/// Identifier of a schedule.
#[derive(Debug, Clone, Copy, PartialEq, Eq, Hash, Structural)]
pub struct ScheduleId(pub i64);

impl From<i64> for ScheduleId {
    fn from(v: i64) -> (r: Self) {
        ScheduleId(v)
    }
}

impl vstd::std_specs::convert::FromSpecImpl<i64> for ScheduleId {
    open spec fn obeys_from_spec() -> bool {
        true
    }

    open spec fn from_spec(v: i64) -> Self {
        ScheduleId(v)
    }
}

/// Kind of entity a schedule reviews, stored beside the target id.
#[derive(Debug, Clone, Copy, PartialEq, Eq, Structural)]
pub enum ReviewTargetType {
    Card,
    Note,
}

impl ReviewTargetType {
    /// The stored name of the target kind.
    pub open spec fn name(self) -> Seq<char> {
        match self {
            ReviewTargetType::Card => "card"@,
            ReviewTargetType::Note => "note"@,
        }
    }

    /// The target kind whose stored name is `s`, if any.
    pub open spec fn from_name(s: Seq<char>) -> Option<ReviewTargetType> {
        if s == "card"@ {
            Some(ReviewTargetType::Card)
        } else if s == "note"@ {
            Some(ReviewTargetType::Note)
        } else {
            None
        }
    }

    pub fn as_str(&self) -> (r: &'static str)
        ensures
            r@ == self.name(),
    {
        match self {
            ReviewTargetType::Card => "card",
            ReviewTargetType::Note => "note",
        }
    }

    pub fn parse(s: &str) -> (r: Option<Self>)
        ensures
            r == Self::from_name(s@),
    {
        if str_eq(s, "card") {
            Some(ReviewTargetType::Card)
        } else if str_eq(s, "note") {
            Some(ReviewTargetType::Note)
        } else {
            None
        }
    }
}

/// Parsing the stored name of a target kind gives the kind back, and a name parses
/// only to the value stored under that very name.
pub proof fn lemma_review_target_type_round_trip(t: ReviewTargetType)
    ensures
        ReviewTargetType::from_name(t.name()) == Some(t),
        forall|name: Seq<char>| #[trigger] ReviewTargetType::from_name(name) matches Some(x) ==> x.name() == name,
{
    reveal_strlit("card");
    reveal_strlit("note");
    assert("card"@.len() == 4 && "card"@[0] == 'c');
    assert("note"@.len() == 4 && "note"@[0] == 'n');
}

/// A typed reference to either a card or a note.
#[derive(Debug, Clone, Copy, PartialEq, Eq, Structural)]
pub enum ReviewTarget {
    Card(CardId),
    Note(NoteId),
}

impl ReviewTarget {
    /// The kind of the target.
    pub open spec fn kind(self) -> ReviewTargetType {
        match self {
            ReviewTarget::Card(_) => ReviewTargetType::Card,
            ReviewTarget::Note(_) => ReviewTargetType::Note,
        }
    }

    /// The raw id of the target.
    pub open spec fn raw_id(self) -> i64 {
        match self {
            ReviewTarget::Card(c) => c.0,
            ReviewTarget::Note(n) => n.0,
        }
    }

    /// The target of the given kind and raw id.
    pub open spec fn of_parts(t: ReviewTargetType, id: i64) -> ReviewTarget {
        match t {
            ReviewTargetType::Card => ReviewTarget::Card(CardId(id)),
            ReviewTargetType::Note => ReviewTarget::Note(NoteId(id)),
        }
    }

    pub fn target_type(&self) -> (r: ReviewTargetType)
        ensures
            r == self.kind(),
    {
        match self {
            ReviewTarget::Card(_) => ReviewTargetType::Card,
            ReviewTarget::Note(_) => ReviewTargetType::Note,
        }
    }

    pub fn target_id(&self) -> (r: i64)
        ensures
            r == self.raw_id(),
    {
        match self {
            ReviewTarget::Card(c) => c.0,
            ReviewTarget::Note(n) => n.0,
        }
    }

    pub fn from_parts(t: ReviewTargetType, id: i64) -> (r: Self)
        ensures
            r == Self::of_parts(t, id),
    {
        match t {
            ReviewTargetType::Card => ReviewTarget::Card(CardId(id)),
            ReviewTargetType::Note => ReviewTarget::Note(NoteId(id)),
        }
    }
}

/// Splitting a target into kind and id and joining them again gives the
/// target back, and joining then splitting gives the parts back.
pub proof fn lemma_review_target_parts(target: ReviewTarget, t: ReviewTargetType, id: i64)
    ensures
        ReviewTarget::of_parts(target.kind(), target.raw_id()) == target,
        ReviewTarget::of_parts(t, id).kind() == t,
        ReviewTarget::of_parts(t, id).raw_id() == id,
{
}

/// Builds a schedule's target from its stored columns; an unknown kind name
/// is read as a card.
pub fn target_from_columns(target_type: &str, target_id: i64) -> (r: ReviewTarget)
    ensures
        r == ReviewTarget::of_parts(
            match ReviewTargetType::from_name(target_type@) {
                Some(t) => t,
                None => ReviewTargetType::Card,
            },
            target_id,
        ),
{
    let t = match ReviewTargetType::parse(target_type) {
        Some(t) => t,
        None => ReviewTargetType::Card,
    };
    ReviewTarget::from_parts(t, target_id)
}

/// FSRS lifecycle state.
#[derive(Debug, Clone, Copy, PartialEq, Eq, Structural)]
pub enum SchedulerState {
    /// Never reviewed.
    New,
    /// In the initial learning steps.
    Learning,
    /// Stable review phase.
    Review,
    /// Lapsed and being relearned.
    Relearning,
}

impl SchedulerState {
    /// The stored name of the state.
    pub open spec fn name(self) -> Seq<char> {
        match self {
            SchedulerState::New => "new"@,
            SchedulerState::Learning => "learning"@,
            SchedulerState::Review => "review"@,
            SchedulerState::Relearning => "relearning"@,
        }
    }

    /// The state whose stored name is `s`, if any.
    pub open spec fn from_name(s: Seq<char>) -> Option<SchedulerState> {
        if s == "new"@ {
            Some(SchedulerState::New)
        } else if s == "learning"@ {
            Some(SchedulerState::Learning)
        } else if s == "review"@ {
            Some(SchedulerState::Review)
        } else if s == "relearning"@ {
            Some(SchedulerState::Relearning)
        } else {
            None
        }
    }

    pub fn as_str(&self) -> (r: &'static str)
        ensures
            r@ == self.name(),
    {
        match self {
            SchedulerState::New => "new",
            SchedulerState::Learning => "learning",
            SchedulerState::Review => "review",
            SchedulerState::Relearning => "relearning",
        }
    }

    pub fn parse(s: &str) -> (r: Option<Self>)
        ensures
            r == Self::from_name(s@),
    {
        if str_eq(s, "new") {
            Some(SchedulerState::New)
        } else if str_eq(s, "learning") {
            Some(SchedulerState::Learning)
        } else if str_eq(s, "review") {
            Some(SchedulerState::Review)
        } else if str_eq(s, "relearning") {
            Some(SchedulerState::Relearning)
        } else {
            None
        }
    }
}

/// Parsing the stored name of a scheduler state gives the state back, and a name parses
/// only to the value stored under that very name.
pub proof fn lemma_scheduler_state_round_trip(s: SchedulerState)
    ensures
        SchedulerState::from_name(s.name()) == Some(s),
        forall|name: Seq<char>| #[trigger] SchedulerState::from_name(name) matches Some(x) ==> x.name() == name,
{
    reveal_strlit("new");
    reveal_strlit("learning");
    reveal_strlit("review");
    reveal_strlit("relearning");
    assert("new"@.len() == 3 && "new"@[0] == 'n');
    assert("learning"@.len() == 8 && "learning"@[0] == 'l');
    assert("review"@.len() == 6 && "review"@[0] == 'r');
    assert("relearning"@.len() == 10 && "relearning"@[0] == 'r');
}

/// Reads a stored scheduler state; an unknown name is read as `New`.
pub fn state_from_column(state: &str) -> (r: SchedulerState)
    ensures
        r == match SchedulerState::from_name(state@) {
            Some(s) => s,
            None => SchedulerState::New,
        },
{
    match SchedulerState::parse(state) {
        Some(s) => s,
        None => SchedulerState::New,
    }
}

/// The user's rating of a recall: Again=1, Hard=2, Good=3, Easy=4.
#[derive(Debug, Clone, Copy, PartialEq, Eq, Structural)]
pub enum Rating {
    /// Failed to recall.
    Again,
    /// Recalled with significant effort.
    Hard,
    /// Recalled with reasonable effort.
    Good,
    /// Recalled effortlessly.
    Easy,
}

impl Rating {
    /// The numeric code of the rating.
    pub open spec fn code(self) -> i32 {
        match self {
            Rating::Again => 1,
            Rating::Hard => 2,
            Rating::Good => 3,
            Rating::Easy => 4,
        }
    }

    /// The rating with numeric code `v`, if any.
    pub open spec fn from_code(v: i32) -> Option<Rating> {
        if v == 1 {
            Some(Rating::Again)
        } else if v == 2 {
            Some(Rating::Hard)
        } else if v == 3 {
            Some(Rating::Good)
        } else if v == 4 {
            Some(Rating::Easy)
        } else {
            None
        }
    }

    pub fn as_i32(self) -> (r: i32)
        ensures
            r == self.code(),
    {
        match self {
            Rating::Again => 1,
            Rating::Hard => 2,
            Rating::Good => 3,
            Rating::Easy => 4,
        }
    }

    pub fn from_i32(v: i32) -> (r: Option<Self>)
        ensures
            r == Self::from_code(v),
    {
        if v == 1 {
            Some(Rating::Again)
        } else if v == 2 {
            Some(Rating::Hard)
        } else if v == 3 {
            Some(Rating::Good)
        } else if v == 4 {
            Some(Rating::Easy)
        } else {
            None
        }
    }
}

/// Decoding the code of a rating gives the rating back, and exactly the codes
/// 1 to 4 decode.
pub proof fn lemma_rating_round_trip(r: Rating, v: i32)
    ensures
        Rating::from_code(r.code()) == Some(r),
        1 <= r.code() <= 4,
        Rating::from_code(v) is Some <==> 1 <= v <= 4,
        Rating::from_code(v) matches Some(x) ==> x.code() == v,
{
}

/// Reads a stored rating code; an unknown code is read as `Again`.
pub fn rating_from_column(v: i32) -> (r: Rating)
    ensures
        r == match Rating::from_code(v) {
            Some(x) => x,
            None => Rating::Again,
        },
{
    match Rating::from_i32(v) {
        Some(x) => x,
        None => Rating::Again,
    }
}

/// Payload for creating a schedule.
#[derive(Debug, Clone)]
pub struct NewSchedule {
    pub target: ReviewTarget,
    /// When the item first becomes due; `None` means due now.
    pub initial_due: Option<Timestamp>,
}

} // verus!
