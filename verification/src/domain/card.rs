//! Card: a unit of memorization (front/back pair) derived from a section.
//!
//! Cards carry no scheduling state; that lives in a `Schedule` that targets
//! the card.
use vstd::prelude::*;

use super::section::Section;
use super::{NoteId, SectionId, Timestamp};
use crate::text::str_eq;

verus! {

/// Identifier of a card.
#[derive(Debug, Clone, Copy, PartialEq, Eq, Hash, Structural)]
pub struct CardId(pub i64);

impl From<i64> for CardId {
    fn from(v: i64) -> (r: Self) {
        CardId(v)
    }
}

impl vstd::std_specs::convert::FromSpecImpl<i64> for CardId {
    open spec fn obeys_from_spec() -> bool {
        true
    }

    open spec fn from_spec(v: i64) -> Self {
        CardId(v)
    }
}

/// What kind of card this is; drives how it is rendered.
#[derive(Debug, Clone, Copy, PartialEq, Eq, Structural)]
pub enum CardType {
    /// Front is the section heading, back is the section body.
    Heading,
    /// Question and answer given explicitly.
    Qa,
    /// Cloze deletion.
    Cloze,
    /// Manual front/back card.
    Manual,
}

impl CardType {
    /// The stored name of the card type.
    pub open spec fn name(self) -> Seq<char> {
        match self {
            CardType::Heading => "heading"@,
            CardType::Qa => "qa"@,
            CardType::Cloze => "cloze"@,
            CardType::Manual => "manual"@,
        }
    }

    /// The card type whose stored name is `s`, if any.
    pub open spec fn from_name(s: Seq<char>) -> Option<CardType> {
        if s == "heading"@ {
            Some(CardType::Heading)
        } else if s == "qa"@ {
            Some(CardType::Qa)
        } else if s == "cloze"@ {
            Some(CardType::Cloze)
        } else if s == "manual"@ {
            Some(CardType::Manual)
        } else {
            None
        }
    }

    pub fn as_str(&self) -> (r: &'static str)
        ensures
            r@ == self.name(),
    {
        match self {
            CardType::Heading => "heading",
            CardType::Qa => "qa",
            CardType::Cloze => "cloze",
            CardType::Manual => "manual",
        }
    }

    pub fn parse(s: &str) -> (r: Option<Self>)
        ensures
            r == Self::from_name(s@),
    {
        if str_eq(s, "heading") {
            Some(CardType::Heading)
        } else if str_eq(s, "qa") {
            Some(CardType::Qa)
        } else if str_eq(s, "cloze") {
            Some(CardType::Cloze)
        } else if str_eq(s, "manual") {
            Some(CardType::Manual)
        } else {
            None
        }
    }
}

/// Parsing the stored name of a card type gives the type back, and a name parses
/// only to the value stored under that very name.
pub proof fn lemma_card_type_round_trip(t: CardType)
    ensures
        CardType::from_name(t.name()) == Some(t),
        forall|name: Seq<char>| #[trigger] CardType::from_name(name) matches Some(x) ==> x.name() == name,
{
    reveal_strlit("heading");
    reveal_strlit("qa");
    reveal_strlit("cloze");
    reveal_strlit("manual");
    assert("heading"@.len() == 7 && "heading"@[0] == 'h');
    assert("qa"@.len() == 2 && "qa"@[0] == 'q');
    assert("cloze"@.len() == 5 && "cloze"@[0] == 'c');
    assert("manual"@.len() == 6 && "manual"@[0] == 'm');
}

/// Lifecycle of a card relative to its source section.
#[derive(Debug, Clone, Copy, PartialEq, Eq, Structural)]
pub enum CardLifecycle {
    Fresh,
    Stale,
    Orphaned,
    Suspended,
}

impl CardLifecycle {
    /// The stored name of the lifecycle state.
    pub open spec fn name(self) -> Seq<char> {
        match self {
            CardLifecycle::Fresh => "fresh"@,
            CardLifecycle::Stale => "stale"@,
            CardLifecycle::Orphaned => "orphaned"@,
            CardLifecycle::Suspended => "suspended"@,
        }
    }

    /// The lifecycle state whose stored name is `s`, if any.
    pub open spec fn from_name(s: Seq<char>) -> Option<CardLifecycle> {
        if s == "fresh"@ {
            Some(CardLifecycle::Fresh)
        } else if s == "stale"@ {
            Some(CardLifecycle::Stale)
        } else if s == "orphaned"@ {
            Some(CardLifecycle::Orphaned)
        } else if s == "suspended"@ {
            Some(CardLifecycle::Suspended)
        } else {
            None
        }
    }

    pub fn as_str(&self) -> (r: &'static str)
        ensures
            r@ == self.name(),
    {
        match self {
            CardLifecycle::Fresh => "fresh",
            CardLifecycle::Stale => "stale",
            CardLifecycle::Orphaned => "orphaned",
            CardLifecycle::Suspended => "suspended",
        }
    }

    pub fn parse(s: &str) -> (r: Option<Self>)
        ensures
            r == Self::from_name(s@),
    {
        if str_eq(s, "fresh") {
            Some(CardLifecycle::Fresh)
        } else if str_eq(s, "stale") {
            Some(CardLifecycle::Stale)
        } else if str_eq(s, "orphaned") {
            Some(CardLifecycle::Orphaned)
        } else if str_eq(s, "suspended") {
            Some(CardLifecycle::Suspended)
        } else {
            None
        }
    }
}

/// Parsing the stored name of a card lifecycle state gives the state back, and a name parses
/// only to the value stored under that very name.
pub proof fn lemma_card_lifecycle_round_trip(l: CardLifecycle)
    ensures
        CardLifecycle::from_name(l.name()) == Some(l),
        forall|name: Seq<char>| #[trigger] CardLifecycle::from_name(name) matches Some(x) ==> x.name() == name,
{
    reveal_strlit("fresh");
    reveal_strlit("stale");
    reveal_strlit("orphaned");
    reveal_strlit("suspended");
    assert("fresh"@.len() == 5 && "fresh"@[0] == 'f');
    assert("stale"@.len() == 5 && "stale"@[0] == 's');
    assert("orphaned"@.len() == 8 && "orphaned"@[0] == 'o');
    assert("suspended"@.len() == 9 && "suspended"@[0] == 's');
}

/// A flashcard derived from a note section.
#[derive(Debug, Clone)]
pub struct Card {
    pub id: CardId,
    pub note_id: NoteId,
    /// `None` when the source section is gone.
    pub section_id: Option<SectionId>,
    pub card_type: CardType,
    /// Front text overriding the default.
    pub custom_front: Option<String>,
    /// Back text overriding the default.
    pub custom_back: Option<String>,
    pub cloze_mask: Option<String>,
    pub status: CardLifecycle,
    /// Section text at the time of generation, used when the section is gone.
    pub last_section_snapshot: Option<String>,
    pub generated_by: Option<String>,
    pub source_raw_hash_at_creation: Option<String>,
    pub created_at: Timestamp,
    pub updated_at: Timestamp,
}

/// A card ready for display, with front and back resolved.
#[derive(Debug, Clone)]
pub struct RenderedCard {
    pub card_id: CardId,
    pub front: String,
    pub back: String,
    pub card_type: CardType,
    pub note_id: NoteId,
    pub note_title: String,
    pub note_path: String,
}

/// The text of a string option, or the empty text.
pub open spec fn text_or_empty(o: Option<String>) -> Seq<char> {
    match o {
        Some(t) => t@,
        None => Seq::empty(),
    }
}

/// The text a card shows from its source: the section's raw text when the
/// section exists, else the stored snapshot, else nothing.
pub open spec fn source_text(card: Card, section: Option<Section>) -> Seq<char> {
    match section {
        Some(s) => s.text_raw@,
        None => text_or_empty(card.last_section_snapshot),
    }
}

/// The heading a card shows from its source.
pub open spec fn source_heading(section: Option<Section>) -> Seq<char> {
    match section {
        Some(s) => match s.heading {
            Some(h) => h@,
            None => "Untitled Section"@,
        },
        None => "Orphaned Section"@,
    }
}

/// The text a cloze mask leaves visible. Masks are not applied yet, so the
/// text is shown whole.
pub open spec fn cloze_masked(text: Seq<char>, mask: Option<String>) -> Seq<char> {
    text
}

/// The front a card renders to.
pub open spec fn rendered_front(card: Card, section: Option<Section>) -> Seq<char> {
    match card.card_type {
        CardType::Heading => match card.custom_front {
            Some(f) => f@,
            None => source_heading(section),
        },
        CardType::Qa | CardType::Manual => text_or_empty(card.custom_front),
        CardType::Cloze => cloze_masked(source_text(card, section), card.cloze_mask),
    }
}

/// The back a card renders to.
pub open spec fn rendered_back(card: Card, section: Option<Section>) -> Seq<char> {
    match card.card_type {
        CardType::Heading => match card.custom_back {
            Some(b) => b@,
            None => source_text(card, section),
        },
        CardType::Qa | CardType::Manual => text_or_empty(card.custom_back),
        CardType::Cloze => source_text(card, section),
    }
}

/// A card shows the text of its source section, and once that section is
/// gone it shows the snapshot stored with the card instead (nothing when
/// there is none): the back of a cloze card, and of a heading card without
/// its own back, is the live section's raw text or else the snapshot; a
/// cloze front shows the same text (masks are not applied). Rendering with
/// no section is rendering with a section whose raw text is the snapshot.
pub proof fn lemma_render_falls_back_to_snapshot(card: Card, section: Option<Section>, stand_in: Section)
    ensures
        ({
            let shows_source = card.card_type == CardType::Cloze || (card.card_type
                == CardType::Heading && card.custom_back is None);
            let snapshot = match card.last_section_snapshot {
                Some(t) => t@,
                None => Seq::<char>::empty(),
            };
            &&& shows_source ==> rendered_back(card, section) == match section {
                Some(s) => s.text_raw@,
                None => snapshot,
            }
            &&& card.card_type == CardType::Cloze ==> rendered_front(card, section) == rendered_back(
                card,
                section,
            )
            &&& (shows_source && stand_in.text_raw@ == snapshot) ==> rendered_back(card, None)
                == rendered_back(card, Some(stand_in))
        }),
{
}

fn clone_text(o: &Option<String>) -> (r: String)
    ensures
        r@ == text_or_empty(*o),
{
    match o {
        Some(t) => t.clone(),
        None => String::new(),
    }
}

impl Card {
    /// Resolves the card's front and back from its overrides and its source
    /// section (or the stored snapshot when the section is gone).
    pub fn render(
        &self,
        section_opt: Option<&Section>,
        note_id: NoteId,
        note_title: String,
        note_path: String,
    ) -> (r: RenderedCard)
        ensures
            ({
                let section = match section_opt {
                    Some(s) => Some(*s),
                    None => None,
                };
                &&& r.front@ == rendered_front(*self, section)
                &&& r.back@ == rendered_back(*self, section)
            }),
            r.card_id == self.id,
            r.card_type == self.card_type,
            r.note_id == note_id,
            r.note_title == note_title,
            r.note_path == note_path,
    {
        let section_text = match section_opt {
            Some(s) => s.text_raw.clone(),
            None => clone_text(&self.last_section_snapshot),
        };
        let section_heading = match section_opt {
            Some(s) => match &s.heading {
                Some(h) => h.clone(),
                None => "Untitled Section".to_owned(),
            },
            None => "Orphaned Section".to_owned(),
        };
        match self.card_type {
            CardType::Heading => {
                let front = match &self.custom_front {
                    Some(f) => f.clone(),
                    None => section_heading,
                };
                let back = match &self.custom_back {
                    Some(b) => b.clone(),
                    None => section_text,
                };
                RenderedCard {
                    card_id: self.id,
                    front,
                    back,
                    card_type: self.card_type,
                    note_id,
                    note_title,
                    note_path,
                }
            },
            CardType::Qa | CardType::Manual => RenderedCard {
                card_id: self.id,
                front: clone_text(&self.custom_front),
                back: clone_text(&self.custom_back),
                card_type: self.card_type,
                note_id,
                note_title,
                note_path,
            },
            CardType::Cloze => {
                let mask = match &self.cloze_mask {
                    Some(m) => Some(m.as_str()),
                    None => None,
                };
                let masked = apply_cloze_mask(section_text.as_str(), mask);
                RenderedCard {
                    card_id: self.id,
                    front: masked,
                    back: section_text,
                    card_type: self.card_type,
                    note_id,
                    note_title,
                    note_path,
                }
            },
        }
    }
}

/// Applies a cloze mask to `text`. Masks are not interpreted yet: the text
/// comes back whole whatever the mask.
pub fn apply_cloze_mask(text: &str, mask_json: Option<&str>) -> (r: String)
    ensures
        r@ == text@,
{
    text.to_owned()
}

/// Builds a card from its stored columns. Unknown type names fall back to
/// `Heading` and unknown status names to `Fresh`.
pub fn row_to_card(
    card_id: i64,
    note_id: i64,
    chunk_id: Option<i64>,
    card_type: &str,
    custom_front: Option<String>,
    custom_back: Option<String>,
    cloze_mask: Option<String>,
    status: &str,
    last_section_snapshot: Option<String>,
    generated_by: Option<String>,
    source_raw_hash_at_creation: Option<String>,
    created_at: Timestamp,
    updated_at: Timestamp,
) -> (r: Card)
    ensures
        r.id == CardId(card_id),
        r.note_id == NoteId(note_id),
        r.section_id == match chunk_id {
            Some(c) => Some(SectionId(c)),
            None => None::<SectionId>,
        },
        r.card_type == match CardType::from_name(card_type@) {
            Some(t) => t,
            None => CardType::Heading,
        },
        r.status == match CardLifecycle::from_name(status@) {
            Some(s) => s,
            None => CardLifecycle::Fresh,
        },
        r.custom_front == custom_front,
        r.custom_back == custom_back,
        r.cloze_mask == cloze_mask,
        r.last_section_snapshot == last_section_snapshot,
        r.generated_by == generated_by,
        r.source_raw_hash_at_creation == source_raw_hash_at_creation,
        r.created_at == created_at,
        r.updated_at == updated_at,
{
    let section_id = match chunk_id {
        Some(c) => Some(SectionId(c)),
        None => None,
    };
    let card_type = match CardType::parse(card_type) {
        Some(t) => t,
        None => CardType::Heading,
    };
    let status = match CardLifecycle::parse(status) {
        Some(s) => s,
        None => CardLifecycle::Fresh,
    };
    Card {
        id: CardId(card_id),
        note_id: NoteId(note_id),
        section_id,
        card_type,
        custom_front,
        custom_back,
        cloze_mask,
        status,
        last_section_snapshot,
        generated_by,
        source_raw_hash_at_creation,
        created_at,
        updated_at,
    }
}

/// Payload for creating a card.
#[derive(Debug, Clone)]
pub struct NewCard {
    pub note_id: NoteId,
    pub section_id: SectionId,
    pub card_type: CardType,
    pub custom_front: Option<String>,
    pub custom_back: Option<String>,
    pub cloze_mask: Option<String>,
    pub generated_by: Option<String>,
    pub source_raw_hash_at_creation: Option<String>,
}

} // verus!
