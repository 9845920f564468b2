use scribo::domain::card::{apply_cloze_mask, row_to_card, Card, CardId, CardLifecycle, CardType};
use scribo::domain::language::Lang;
use scribo::domain::note::{IndexingStatus, NewNote, Note, NoteId, NoteLifecycle};
use scribo::domain::schedule::{
    rating_from_column, state_from_column, target_from_columns, Rating, ReviewTarget,
    ReviewTargetType, SchedulerState,
};
use scribo::domain::section::{Section, SectionId};
use scribo::domain::tag::{NewTag, Tag, TagSource};

#[test]
fn indexing_status_serde_matches_as_str() {
    for s in [
        IndexingStatus::Pending,
        IndexingStatus::Indexing,
        IndexingStatus::Indexed,
        IndexingStatus::Failed,
        IndexingStatus::Stale,
    ] {
        assert_eq!(IndexingStatus::parse(s.as_str()), Some(s));
    }
    assert_eq!(IndexingStatus::Pending.as_str(), "pending");
    assert_eq!(IndexingStatus::Stale.as_str(), "stale");
}

#[test]
fn note_lifecycle_serde() {
    for l in [
        NoteLifecycle::Draft,
        NoteLifecycle::Active,
        NoteLifecycle::Archived,
        NoteLifecycle::Deleted,
    ] {
        assert_eq!(NoteLifecycle::parse(l.as_str()), Some(l));
    }
    assert_eq!(NoteLifecycle::Archived.as_str(), "archived");
}

#[test]
fn unknown_names_do_not_parse() {
    assert_eq!(IndexingStatus::parse("Pending"), None);
    assert_eq!(NoteLifecycle::parse(""), None);
    assert_eq!(CardType::parse("basic"), None);
    assert_eq!(CardLifecycle::parse("fresh "), None);
    assert_eq!(ReviewTargetType::parse("section"), None);
    assert_eq!(SchedulerState::parse("NEW"), None);
}

#[test]
fn card_enums_round_trip() {
    for t in [CardType::Heading, CardType::Qa, CardType::Cloze, CardType::Manual] {
        assert_eq!(CardType::parse(t.as_str()), Some(t));
    }
    for l in [
        CardLifecycle::Fresh,
        CardLifecycle::Stale,
        CardLifecycle::Orphaned,
        CardLifecycle::Suspended,
    ] {
        assert_eq!(CardLifecycle::parse(l.as_str()), Some(l));
    }
    assert_eq!(CardType::Qa.as_str(), "qa");
    assert_eq!(CardLifecycle::Suspended.as_str(), "suspended");
}

#[test]
fn schedule_enums_round_trip() {
    for s in [
        SchedulerState::New,
        SchedulerState::Learning,
        SchedulerState::Review,
        SchedulerState::Relearning,
    ] {
        assert_eq!(SchedulerState::parse(s.as_str()), Some(s));
    }
    assert_eq!(ReviewTargetType::parse("card"), Some(ReviewTargetType::Card));
    assert_eq!(ReviewTargetType::Note.as_str(), "note");
    assert_eq!(state_from_column("review"), SchedulerState::Review);
    assert_eq!(state_from_column("bogus"), SchedulerState::New);
}

#[test]
fn rating_codes() {
    assert_eq!(Rating::Again.as_i32(), 1);
    assert_eq!(Rating::Hard.as_i32(), 2);
    assert_eq!(Rating::Good.as_i32(), 3);
    assert_eq!(Rating::Easy.as_i32(), 4);
    for r in [Rating::Again, Rating::Hard, Rating::Good, Rating::Easy] {
        assert_eq!(Rating::from_i32(r.as_i32()), Some(r));
    }
    assert_eq!(Rating::from_i32(0), None);
    assert_eq!(Rating::from_i32(5), None);
    assert_eq!(rating_from_column(3), Rating::Good);
    assert_eq!(rating_from_column(9), Rating::Again);
}

#[test]
fn review_target_parts() {
    let t = ReviewTarget::Card(CardId(7));
    assert_eq!(t.target_type(), ReviewTargetType::Card);
    assert_eq!(t.target_id(), 7);
    assert_eq!(ReviewTarget::from_parts(t.target_type(), t.target_id()), t);
    let n = ReviewTarget::from_parts(ReviewTargetType::Note, 42);
    assert_eq!(n, ReviewTarget::Note(NoteId(42)));
    assert_eq!(target_from_columns("note", 3), ReviewTarget::Note(NoteId(3)));
    assert_eq!(target_from_columns("weird", 3), ReviewTarget::Card(CardId(3)));
}

fn section(heading: Option<&str>, text: &str) -> Section {
    Section {
        id: SectionId(5),
        note_id: NoteId(1),
        section_index: 0,
        text_raw: text.to_string(),
        heading: heading.map(|h| h.to_string()),
        heading_level: Some(2),
        raw_hash: String::new(),
        clean_hash: String::new(),
        content_offset_start: 0,
        content_offset_end: 0,
    }
}

fn card(card_type: CardType) -> Card {
    Card {
        id: CardId(9),
        note_id: NoteId(1),
        section_id: Some(SectionId(5)),
        card_type,
        custom_front: None,
        custom_back: None,
        cloze_mask: None,
        status: CardLifecycle::Fresh,
        last_section_snapshot: Some("snapshot body".to_string()),
        generated_by: None,
        source_raw_hash_at_creation: None,
        created_at: 0,
        updated_at: 0,
    }
}

#[test]
fn render_heading_card() {
    let c = card(CardType::Heading);
    let s = section(Some("Limits"), "A limit is ...");
    let r = c.render(Some(&s), NoteId(1), "Calculus".to_string(), "math/calc".to_string());
    assert_eq!(r.card_id, CardId(9));
    assert_eq!(r.front, "Limits");
    assert_eq!(r.back, "A limit is ...");
    assert_eq!(r.note_title, "Calculus");
    assert_eq!(r.note_path, "math/calc");

    let untitled = section(None, "body");
    let r = c.render(Some(&untitled), NoteId(1), String::new(), String::new());
    assert_eq!(r.front, "Untitled Section");

    let r = c.render(None, NoteId(1), String::new(), String::new());
    assert_eq!(r.front, "Orphaned Section");
    assert_eq!(r.back, "snapshot body");

    let mut custom = card(CardType::Heading);
    custom.custom_front = Some("Q?".to_string());
    custom.custom_back = Some("A!".to_string());
    let r = custom.render(Some(&s), NoteId(1), String::new(), String::new());
    assert_eq!(r.front, "Q?");
    assert_eq!(r.back, "A!");
}

#[test]
fn render_qa_and_cloze_cards() {
    let s = section(Some("Limits"), "A limit is ...");
    let mut qa = card(CardType::Qa);
    qa.custom_front = Some("What is a limit?".to_string());
    let r = qa.render(Some(&s), NoteId(1), String::new(), String::new());
    assert_eq!(r.front, "What is a limit?");
    assert_eq!(r.back, "");
    assert_eq!(r.card_type, CardType::Qa);

    let mut cloze = card(CardType::Cloze);
    cloze.cloze_mask = Some("[1,2]".to_string());
    let r = cloze.render(Some(&s), NoteId(1), String::new(), String::new());
    assert_eq!(r.front, "A limit is ...");
    assert_eq!(r.back, "A limit is ...");

    let mut orphan = card(CardType::Manual);
    orphan.last_section_snapshot = None;
    let r = orphan.render(None, NoteId(1), String::new(), String::new());
    assert_eq!(r.front, "");
    assert_eq!(r.back, "");

    assert_eq!(apply_cloze_mask("text", Some("{}")), "text");
    assert_eq!(apply_cloze_mask("text", None), "text");
}

#[test]
fn card_rows_fall_back_to_defaults() {
    let c = row_to_card(
        1, 2, None, "nonsense", None, None, None, "gone", None, None, None, 10, 11,
    );
    assert_eq!(c.card_type, CardType::Heading);
    assert_eq!(c.status, CardLifecycle::Fresh);
    assert_eq!(c.section_id, None);
    let c = row_to_card(
        1,
        2,
        Some(3),
        "cloze",
        Some("f".to_string()),
        None,
        None,
        "suspended",
        None,
        None,
        None,
        10,
        11,
    );
    assert_eq!(c.card_type, CardType::Cloze);
    assert_eq!(c.status, CardLifecycle::Suspended);
    assert_eq!(c.section_id, Some(SectionId(3)));
    assert_eq!(c.custom_front.as_deref(), Some("f"));
    assert_eq!(c.updated_at, 11);
}

#[test]
fn tag_path_and_depth() {
    assert_eq!(Tag::compute_path(None, "math"), "math");
    assert_eq!(Tag::compute_path(Some(""), "math"), "math");
    assert_eq!(Tag::compute_path(Some("math"), "calculus"), "math/calculus");
    assert_eq!(Tag::compute_depth(None), 0);
    assert_eq!(Tag::compute_depth(Some(2)), 3);
}

#[test]
fn tag_source_names() {
    assert_eq!(TagSource::Manual.as_str(), "manual");
    assert_eq!(TagSource::parse("ai"), Ok(TagSource::Ai));
    assert_eq!(TagSource::parse("inherited"), Ok(TagSource::Inherited));
    assert_eq!(TagSource::parse("robot"), Err("Unknown tag source: robot".to_string()));
}

#[test]
fn defaults() {
    assert_eq!(Lang::default(), Lang::Auto);
    let n = NewNote::default();
    assert!(n.title.is_empty() && n.lifecycle.is_none() && !n.is_pinned);
    let t = NewTag::default();
    assert!(t.name.is_empty() && t.parent_tag_id.is_none());
}

fn sample_note() -> Note {
    Note::new(
        NoteId(3),
        "Title".to_string(),
        "hello".to_string(),
        None,
        "Title".to_string(),
        0,
        None,
        NoteLifecycle::Active,
        false,
        true,
        100,
    )
}

#[test]
fn note_new_hashes_content() {
    let n = sample_note();
    assert_eq!(n.content_hash, scribo::db::content_hash("hello"));
    assert_eq!(n.indexing_status, IndexingStatus::Pending);
    assert_eq!(n.updated_at, 100);
    assert!(n.is_indexable());
    assert!(n.is_visible_in_tree());
    assert!(!n.is_distributable());
    let s = n.summary();
    assert_eq!(s.title, "Title");
    assert_eq!(s.lifecycle, NoteLifecycle::Active);
}

#[test]
fn note_update_content_marks_stale_only_on_change() {
    let mut n = sample_note();
    n.indexing_status = IndexingStatus::Indexed;
    n.update_content("hello".to_string(), 200);
    assert_eq!(n.indexing_status, IndexingStatus::Indexed);
    assert_eq!(n.updated_at, 200);
    n.update_content("hello world".to_string(), 300);
    assert_eq!(n.content, "hello world");
    assert_eq!(n.content_hash, scribo::db::content_hash("hello world"));
    assert_eq!(n.indexing_status, IndexingStatus::Stale);
    assert_eq!(n.updated_at, 300);
}

#[test]
fn note_visibility_by_lifecycle() {
    let mut n = sample_note();
    n.lifecycle = NoteLifecycle::Draft;
    assert!(!n.is_visible_in_tree());
    assert!(n.is_distributable());
    assert!(!n.is_indexable());
    n.lifecycle = NoteLifecycle::Archived;
    assert!(n.is_visible_in_tree());
    n.lifecycle = NoteLifecycle::Deleted;
    assert!(!n.is_visible_in_tree());
}

#[test]
fn id_conversions() {
    assert_eq!(CardId::from(4), CardId(4));
    assert_eq!(NoteId::from(5), NoteId(5));
    assert_eq!(SectionId::from(6), SectionId(6));
}
