use scribo::cli::{confirms, distribute_llm_choice, hit_preview, query_llm_choice, LlmChoice};
use scribo::db::content_hash;
use scribo::db::scheduler::{
    file_index_action, reindex_step, FileIndexAction, IndexCommand, ReindexStep,
};
use scribo::db::validation::ValidationResult;

fn s(x: &str) -> Option<String> {
    Some(x.to_string())
}

fn fields(c: &LlmChoice) -> (String, String, Option<String>, Option<String>, Option<u32>) {
    (c.backend.clone(), c.model.clone(), c.api_key.clone(), c.base_url.clone(), c.max_tokens)
}

#[test]
fn local_model_wins_for_distribution() {
    let c = distribute_llm_choice(s("qwen-7b"), s("or"), s("oa"), s("gm")).unwrap();
    assert_eq!(fields(&c), ("local".into(), "qwen-7b".into(), None, None, Some(2048)));
    assert_eq!(c.response_format.as_deref(), Some("json"));
}

#[test]
fn api_keys_are_tried_in_order() {
    let c = distribute_llm_choice(None, s("or"), s("oa"), None).unwrap();
    assert_eq!(
        fields(&c),
        (
            "openai".into(),
            "google/gemini-2.5-flash".into(),
            s("or"),
            s("https://openrouter.ai/api/v1"),
            None
        )
    );
    let c = distribute_llm_choice(None, None, s("oa"), s("gm")).unwrap();
    assert_eq!(fields(&c), ("openai".into(), "gpt-4o-mini".into(), s("oa"), None, None));
    let c = distribute_llm_choice(None, None, None, s("gm")).unwrap();
    assert_eq!(fields(&c), ("gemini".into(), "gemini-1.5-flash".into(), s("gm"), None, None));
    assert!(distribute_llm_choice(None, None, None, None).is_none());
}

#[test]
fn query_uses_a_model_only_when_asked() {
    assert!(query_llm_choice(false, s("m"), s("k")).is_none());
    let c = query_llm_choice(true, None, s("k")).unwrap();
    assert_eq!(c.model, "google/gemini-2.5-flash");
    assert!(query_llm_choice(true, None, None).is_none());
    assert_eq!(query_llm_choice(true, s("m"), None).unwrap().backend, "local");
}

#[test]
fn confirmation_answers() {
    assert!(confirms("y\n"));
    assert!(confirms("  YES "));
    assert!(!confirms("yep"));
    assert!(!confirms(""));
    assert!(!confirms("n"));
}

#[test]
fn queue_hashes_file_content() {
    let cmd = IndexCommand::IndexFile {
        file_path: "/v/a.md".into(),
        content: "hello".into(),
        chunking_version: "2".into(),
        model: "m".into(),
    };
    match reindex_step(cmd) {
        ReindexStep::CheckFile { file_path, file_hash, model, chunking_version } => {
            assert_eq!(file_path, "/v/a.md");
            assert_eq!(file_hash, content_hash("hello"));
            assert_eq!(model, "m");
            assert_eq!(chunking_version, "2");
        }
        _ => panic!("expected a file check"),
    }
    assert!(matches!(reindex_step(IndexCommand::Shutdown), ReindexStep::Stop));
    let dir = IndexCommand::IndexDirectory {
        dir_path: std::path::PathBuf::from("/v"),
        chunking_version: "2".into(),
        model: "m".into(),
    };
    match reindex_step(dir) {
        ReindexStep::ScanDirectory { dir_path } => assert_eq!(dir_path, std::path::PathBuf::from("/v")),
        _ => panic!("expected a directory scan"),
    }
}

#[test]
fn queue_persists_only_files_that_need_it() {
    let need = ValidationResult { should_index: true, existing_file_id: None };
    match file_index_action("/vault/notes/a.md", need) {
        FileIndexAction::Persist { file_name, embedding_dim } => {
            assert_eq!(file_name, "a.md");
            assert_eq!(embedding_dim, 1536);
        }
        FileIndexAction::Skip => panic!("expected persist"),
    }
    match file_index_action("/", need) {
        FileIndexAction::Persist { file_name, .. } => assert_eq!(file_name, "unknown"),
        FileIndexAction::Skip => panic!("expected persist"),
    }
    let skip = ValidationResult { should_index: false, existing_file_id: Some(3) };
    assert!(matches!(file_index_action("/vault/a.md", skip), FileIndexAction::Skip));
}

#[test]
fn previews_are_one_trimmed_line_of_at_most_180_chars() {
    assert_eq!(hit_preview(Some("  first line\nsecond line \n")), "first line second line");
    assert_eq!(hit_preview(None), "");
    let long = "й".repeat(200);
    assert_eq!(hit_preview(Some(&long)), "й".repeat(180));
}
