use scribo::distribute::{cache_misses, fill_cache_misses};
use scribo::domain::card::row_to_card;
use scribo::domain::note::NoteId;
use scribo::domain::section::{Section, SectionId};
use scribo::reviewer::{card_source_text, generated_question, recall_question_prompt};

#[test]
fn cache_misses_are_the_empty_entries() {
    let cached = vec![Some(vec![1u8]), None, Some(vec![2u8]), None];
    assert_eq!(cache_misses(&cached), vec![1, 3]);
    assert!(cache_misses(&[]).is_empty());
}

#[test]
fn filling_every_miss_leaves_no_gap() {
    let cached = vec![None, Some(vec![7u8, 7]), None];
    let misses = cache_misses(&cached);
    let filled = fill_cache_misses(cached, &misses, vec![vec![1u8], vec![3u8]]);
    assert_eq!(filled, vec![Some(vec![1u8]), Some(vec![7u8, 7]), Some(vec![3u8])]);
    assert!(filled.iter().all(|e| e.is_some()));
}

#[test]
fn partial_fill_keeps_later_misses_empty() {
    let filled = fill_cache_misses(vec![None, None], &[1, 0], vec![vec![9u8]]);
    assert_eq!(filled, vec![None, Some(vec![9u8])]);
}

#[test]
fn recall_prompt_quotes_the_text() {
    let fence = "`".repeat(3);
    let expected = format!(
        "Based on the following text, generate a single, concise active recall question. \
         The question should be direct and test the reader's understanding of the core concepts in the text.\n\n\
         Text:\n{f}\nPhotosynthesis makes sugar.\n{f}\n\n\
         Output only the question and nothing else. Do not include any greeting, markdown formatting (like bolding), or introductory phrases.",
        f = fence
    );
    assert_eq!(recall_question_prompt("Photosynthesis makes sugar."), expected);
}

#[test]
fn reply_is_trimmed_to_the_question() {
    assert_eq!(generated_question("  What makes sugar?\n"), "What makes sugar?");
    assert_eq!(generated_question("\n\t "), "");
}

#[test]
fn card_text_prefers_the_section() {
    let card = row_to_card(
        1, 2, Some(3), "heading", None, None, None, "fresh",
        Some("snapshot".to_string()), None, None, 0, 0,
    );
    let section = Section {
        id: SectionId(3),
        note_id: NoteId(2),
        section_index: 0,
        text_raw: "## Heading\nbody".to_string(),
        heading: Some("Heading".to_string()),
        heading_level: Some(2),
        raw_hash: String::new(),
        clean_hash: String::new(),
        content_offset_start: 0,
        content_offset_end: 0,
    };
    assert_eq!(card_source_text(&card, Some(&section)), "## Heading\nbody");
    assert_eq!(card_source_text(&card, None), "snapshot");
    let bare = row_to_card(1, 2, None, "qa", None, None, None, "fresh", None, None, None, 0, 0);
    assert_eq!(card_source_text(&bare, None), "");
}
