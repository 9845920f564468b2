use scribo::common::constants::get_stopwords;
use scribo::common::lang::{detect_language, is_english, lang_to_iso639_1, pick_dominant_language};
use scribo::db::content_hash;
use scribo::db::repos::files::{previous_content, renamed_file_name, revision_patch, file_name_or};
use scribo::db::repos::fragments::{embedding_dim, rows_to_insert};
use scribo::db::repos::notes::plan_content_update;
use scribo::db::schema::{
    integrity_verdict, parse_schema_version, pending_migrations, schema_upgrade_path,
};
use scribo::db::time::{now_ms, now_seconds};
use scribo::db::validation::{evaluate_indexing_need, StoredFileState, ValidationResult};
use scribo::domain::fragment::FragmentInsertRow;
use scribo::AppError;

#[test]
fn content_hash_is_blake3_hex() {
    assert_eq!(
        content_hash(""),
        "af1349b9f5f9a1a6a0404dea36dcc9499bcb25c9adc112b7cc9a93cae41f3262"
    );
    let h = content_hash("hello");
    assert_eq!(h.len(), 64);
    assert_ne!(h, content_hash("hello!"));
}

#[test]
fn clocks_are_after_2020() {
    assert!(now_seconds() > 1_577_836_800);
    assert!(now_ms() > 1_577_836_800_000);
}

fn stored(status: Option<&str>, hash: &str, mtime: Option<i64>) -> StoredFileState {
    StoredFileState {
        file_id: 8,
        file_hash: Some(hash.to_string()),
        embedding_model: Some("m".to_string()),
        chunking_version: Some("1".to_string()),
        status: status.map(|s| s.to_string()),
        mtime,
    }
}

#[test]
fn indexing_need_decisions() {
    let none = evaluate_indexing_need(None, "h", "m", "1", None);
    assert_eq!(none, ValidationResult { should_index: true, existing_file_id: None });
    let failed = stored(Some("failed"), "h", Some(5));
    assert_eq!(
        evaluate_indexing_need(Some(&failed), "h", "m", "1", Some(5)),
        ValidationResult { should_index: true, existing_file_id: Some(8) }
    );
    let ok = stored(Some("indexed"), "h", Some(5));
    assert!(!evaluate_indexing_need(Some(&ok), "h", "m", "1", Some(5)).should_index);
    assert!(!evaluate_indexing_need(Some(&ok), "h", "m", "1", Some(6)).should_index);
    assert!(!evaluate_indexing_need(Some(&ok), "h", "m", "1", None).should_index);
    assert!(evaluate_indexing_need(Some(&ok), "other", "m", "1", Some(5)).should_index);
    assert!(evaluate_indexing_need(Some(&ok), "h", "m2", "1", Some(5)).should_index);
    assert!(evaluate_indexing_need(Some(&ok), "h", "m", "2", None).should_index);
}

#[test]
fn migration_plans() {
    assert_eq!(pending_migrations(0), (1..=11).collect::<Vec<i32>>());
    assert_eq!(pending_migrations(-3), (1..=11).collect::<Vec<i32>>());
    assert_eq!(pending_migrations(5), vec![6, 7, 8, 9, 10, 11]);
    assert_eq!(pending_migrations(11), Vec::<i32>::new());
    assert_eq!(pending_migrations(40), Vec::<i32>::new());
}

#[test]
fn schema_version_parsing() {
    assert_eq!(parse_schema_version(None), Ok(0));
    assert_eq!(parse_schema_version(Some("7")), Ok(7));
    assert_eq!(
        parse_schema_version(Some("x7")),
        Err(AppError::Other("Invalid schema_version: invalid digit found in string".to_string()))
    );
}

#[test]
fn schema_upgrade_paths() {
    assert_eq!(schema_upgrade_path("1"), Ok(vec![11, 12, 13, 14, 15]));
    assert_eq!(schema_upgrade_path("13"), Ok(vec![14, 15]));
    assert_eq!(schema_upgrade_path("15"), Ok(vec![]));
    assert_eq!(
        schema_upgrade_path("7"),
        Err(AppError::Other("Unsupported database version: got 7, expected 15".to_string()))
    );
}

#[test]
fn integrity_check_verdicts() {
    assert_eq!(integrity_verdict(Some("ok")), Ok(()));
    assert_eq!(integrity_verdict(None), Ok(()));
    assert_eq!(
        integrity_verdict(Some("*** in database main ***")),
        Err(AppError::Other("Database corruption detected! Integrity check failed.".to_string()))
    );
    assert_eq!(AppError::NotInitialized.message(), "Database not initialized");
}

#[test]
fn file_names_of_paths() {
    assert_eq!(renamed_file_name("notes/sub/a.md"), "a.md");
    assert_eq!(renamed_file_name("/"), "/");
    assert_eq!(file_name_or("dir/..", "unknown"), "unknown");
}

#[test]
fn revision_patches() {
    let old = previous_content(&[Some("Line one of text".to_string())]);
    assert_eq!(old, "Line one of text");
    let patch = revision_patch(&old, "Line one of text\nLine two is added").unwrap();
    assert!(patch.contains("+Line two is added"));
    assert!(revision_patch("same", "same").is_none());
    assert_eq!(
        previous_content(&[Some("a".to_string()), None, Some("b".to_string())]),
        "a\n\n\n\nb"
    );
}

#[test]
fn note_content_updates() {
    assert!(plan_content_update("x", "x").is_none());
    let u = plan_content_update("x", "y").unwrap();
    assert_eq!(u.content_hash, content_hash("y"));
    assert!(u.patch.unwrap().contains("+y"));
}

fn row(hash: &str) -> FragmentInsertRow {
    FragmentInsertRow {
        fragment_index: 0,
        text_clean: String::new(),
        clean_hash: hash.to_string(),
        token_count: None,
        embedding: vec![],
    }
}

#[test]
fn duplicate_fragments_are_skipped() {
    let rows = vec![row("a"), row("b"), row("a"), row("c"), row("b")];
    assert_eq!(rows_to_insert(&rows), vec![0, 1, 3]);
    assert_eq!(rows_to_insert(&[]), Vec::<usize>::new());
    assert_eq!(embedding_dim(4096), 1024);
    assert_eq!(embedding_dim(7), 1);
}

#[test]
fn language_codes() {
    assert_eq!(lang_to_iso639_1("eng"), "en");
    assert_eq!(lang_to_iso639_1("rus"), "ru");
    assert_eq!(lang_to_iso639_1("cmn"), "zh");
    assert_eq!(lang_to_iso639_1("tgl"), "en");
}

#[test]
fn detects_languages() {
    let en = "There is no reason not to learn Esperanto, it is a fine language.";
    let ru = "Мой дядя самых честных правил, когда не в шутку занемог.";
    assert_eq!(detect_language(en).as_deref(), Some("en"));
    assert_eq!(detect_language(ru).as_deref(), Some("ru"));
    assert!(is_english(en));
    assert!(!is_english(ru));
    assert_eq!(detect_language(""), None);
    assert!(!is_english(""));
}

#[test]
fn dominant_language_by_votes() {
    let ru = "Мой дядя самых честных правил, когда не в шутку занемог.".to_string();
    let en = "There is no reason not to learn Esperanto, it is a fine language.".to_string();
    assert_eq!(pick_dominant_language(&[]), "en");
    assert_eq!(pick_dominant_language(&["short".to_string()]), "en");
    assert_eq!(pick_dominant_language(&[ru.clone(), en.clone(), ru.clone()]), "ru");
    assert_eq!(pick_dominant_language(&[en.clone(), ru.clone(), en.clone(), "  hi  ".to_string()]), "en");
}

#[test]
fn stopword_set() {
    let words = get_stopwords();
    for w in ["the", "and", "что", "такое", "объясни"] {
        assert!(words.iter().any(|x| x == w), "missing {w}");
    }
    let mut sorted = words.clone();
    sorted.sort();
    sorted.dedup();
    assert_eq!(sorted.len(), words.len());
    assert!(words.iter().all(|w| *w == w.to_lowercase()));
}
