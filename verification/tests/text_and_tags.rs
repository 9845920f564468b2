use scribo::db::repos::keyword::{clean_fts_query, fts_query_plan, get_fts_query_tokens};
use scribo::db::repos::tags::{
    autocomplete_pattern, check_move_target, check_not_descendant, extract_raw_tags, slugify,
    tag_path_segments, tag_placement,
};
use scribo::domain::tag::TagId;
use scribo::text::{join_strings, str_eq, trim};
use scribo::AppError;

#[test]
fn trims_and_joins() {
    assert_eq!(trim("  a b \n"), "a b");
    assert_eq!(trim("   "), "");
    assert!(str_eq("abc", "abc"));
    assert!(!str_eq("abc", "abd"));
    let parts = vec!["a".to_string(), "b".to_string(), "c".to_string()];
    assert_eq!(join_strings(&parts, ", "), "a, b, c");
    assert_eq!(join_strings(&[], ", "), "");
}

#[test]
fn slugify_trims_and_lowercases() {
    assert_eq!(slugify("Data Science"), "data-science");
    assert_eq!(slugify("  Data \t  Science "), "data-science");
    assert_eq!(slugify("Machine  Learning Basics"), "machine-learning-basics");
    assert_eq!(slugify("math"), "math");
    assert_eq!(slugify("ÉCOLE"), "école");
}

#[test]
fn extracts_inline_tags() {
    assert_eq!(extract_raw_tags("see #math/calculus and #AI_ml!"), vec!["math/calculus", "AI_ml"]);
    assert_eq!(extract_raw_tags("# heading ## x #a#b"), vec!["a", "b"]);
    assert_eq!(extract_raw_tags("no tags here"), Vec::<String>::new());
    assert_eq!(extract_raw_tags("#"), Vec::<String>::new());
    assert_eq!(extract_raw_tags("#тег #ok"), vec!["ok"]);
}

#[test]
fn splits_tag_paths() {
    let segs = tag_path_segments("Math/ Calculus //Limits ");
    let names: Vec<&str> = segs.iter().map(|s| s.name.as_str()).collect();
    let slugs: Vec<&str> = segs.iter().map(|s| s.slug.as_str()).collect();
    assert_eq!(names, vec!["Math", "Calculus", "Limits"]);
    assert_eq!(slugs, vec!["math", "calculus", "limits"]);
    assert!(tag_path_segments("/").is_empty());
    assert!(tag_path_segments("").is_empty());
}

#[test]
fn places_tags_in_the_tree() {
    assert_eq!(tag_placement(None, "math"), (0, "math".to_string()));
    assert_eq!(tag_placement(Some((1, "science/math")), "calculus"), (2, "science/math/calculus".to_string()));
}

#[test]
fn refuses_cyclic_moves() {
    assert_eq!(
        check_move_target(TagId(3), Some(TagId(3))),
        Err(AppError::Other("Cannot move tag to itself".to_string()))
    );
    assert_eq!(check_move_target(TagId(3), Some(TagId(4))), Ok(()));
    assert_eq!(check_move_target(TagId(3), None), Ok(()));
    assert_eq!(
        check_not_descendant(true),
        Err(AppError::Other("Cycle detected: cannot move tag to its own descendant".to_string()))
    );
    assert_eq!(check_not_descendant(false), Ok(()));
}

#[test]
fn autocomplete_prefix_pattern() {
    assert_eq!(autocomplete_pattern("Ma"), "ma%");
}

#[test]
fn fts_tokens_drop_stopwords() {
    assert_eq!(get_fts_query_tokens("What is Rust?"), vec!["\"rust\""]);
    assert_eq!(get_fts_query_tokens("что такое нейросеть"), vec!["\"нейросеть\""]);
    assert_eq!(get_fts_query_tokens("Borrow-checker rules"), vec!["\"borrow\"", "\"checker\"", "\"rules\""]);
}

#[test]
fn fts_tokens_fall_back_when_all_are_stopwords() {
    assert_eq!(get_fts_query_tokens("The And"), vec!["\"The\"", "\"And\""]);
    assert_eq!(get_fts_query_tokens("?!"), Vec::<String>::new());
}

#[test]
fn fts_query_strings() {
    assert_eq!(clean_fts_query("rust borrow checker"), "\"rust\" OR \"borrow\" OR \"checker\"");
    let plan = fts_query_plan("rust borrow").unwrap();
    assert_eq!(plan.and_query, "\"rust\" AND \"borrow\"");
    assert_eq!(plan.or_query.as_deref(), Some("\"rust\" OR \"borrow\""));
    let single = fts_query_plan("rust").unwrap();
    assert_eq!(single.and_query, "\"rust\"");
    assert!(single.or_query.is_none());
    assert!(fts_query_plan("  ").is_none());
}

fn tag_row(id: i64, parent: Option<i64>, slug: &str) -> scribo::db::repos::tag_tree::TagRow {
    scribo::db::repos::tag_tree::TagRow { tag_id: id, parent_tag_id: parent, slug: slug.to_string() }
}

#[test]
fn subtree_paths_follow_the_moved_tag() {
    // 1 is the moved tag, now at depth 1 with path "science/math";
    // 2 and 4 are below it (4 listed before its parent 2), 3 is elsewhere.
    let rows = vec![
        tag_row(4, Some(2), "limits"),
        tag_row(2, Some(1), "calculus"),
        tag_row(3, None, "art"),
        tag_row(5, Some(1), "algebra"),
    ];
    let r = scribo::db::repos::tag_tree::descendant_placements(&rows, 1, 1, "science/math");
    let got: Vec<Option<(i64, String)>> =
        r.into_iter().map(|p| p.map(|p| (p.depth, p.path))).collect();
    assert_eq!(
        got,
        vec![
            Some((3, "science/math/calculus/limits".to_string())),
            Some((2, "science/math/calculus".to_string())),
            None,
            Some((2, "science/math/algebra".to_string())),
        ]
    );
}

fn crow(a: i64, d: i64, k: i64) -> scribo::db::repos::tag_closure::ClosureRow {
    scribo::db::repos::tag_closure::ClosureRow { ancestor_id: a, descendant_id: d, depth: k }
}

fn triples(v: &[scribo::db::repos::tag_closure::ClosureRow]) -> Vec<(i64, i64, i64)> {
    let mut t: Vec<(i64, i64, i64)> = v.iter().map(|r| (r.ancestor_id, r.descendant_id, r.depth)).collect();
    t.sort();
    t.dedup();
    t
}

#[test]
fn creating_a_tag_links_it_to_its_parents_ancestors() {
    // 1 <- 2 ; create 3 under 2
    let closure = vec![crow(1, 1, 0), crow(2, 2, 0), crow(1, 2, 1)];
    let added = scribo::db::repos::tag_closure::creation_closure_rows(3, Some(2), &closure);
    assert_eq!(triples(&added), vec![(1, 3, 2), (2, 3, 1), (3, 3, 0)]);
    let root = scribo::db::repos::tag_closure::creation_closure_rows(9, None, &closure);
    assert_eq!(triples(&root), vec![(9, 9, 0)]);
}

#[test]
fn moving_a_subtree_relinks_its_ancestors() {
    // 1 <- 2 <- 3, and 4 is a root; move 2 (with 3) under 4.
    let closure = vec![
        crow(1, 1, 0), crow(2, 2, 0), crow(3, 3, 0), crow(4, 4, 0),
        crow(1, 2, 1), crow(1, 3, 2), crow(2, 3, 1),
    ];
    let moved = scribo::db::repos::tag_closure::moved_closure(2, Some(4), &closure);
    assert_eq!(
        triples(&moved),
        vec![(1, 1, 0), (2, 2, 0), (2, 3, 1), (3, 3, 0), (4, 2, 1), (4, 3, 2), (4, 4, 0)]
    );
    let to_root = scribo::db::repos::tag_closure::moved_closure(2, None, &closure);
    assert_eq!(triples(&to_root), vec![(1, 1, 0), (2, 2, 0), (2, 3, 1), (3, 3, 0), (4, 4, 0)]);
}

#[test]
fn resolving_tags_twice_creates_nothing_new() {
    use_resolve();
}

fn use_resolve() {
    let existing = vec![tag_row(1, None, "math")];
    let text = "see #Math/Calculus and #art, again #math/calculus";
    let (ids, created) = scribo::db::repos::tag_resolve::resolve_tags(&existing, text, 10);
    assert_eq!(ids, vec![10, 11, 10]);
    let made: Vec<(i64, Option<i64>, String, String)> =
        created.iter().map(|c| (c.tag_id, c.parent_tag_id, c.name.clone(), c.slug.clone())).collect();
    assert_eq!(
        made,
        vec![
            (10, Some(1), "Calculus".to_string(), "calculus".to_string()),
            (11, None, "art".to_string(), "art".to_string()),
        ]
    );
    let mut after = existing.clone();
    for c in &created {
        after.push(tag_row(c.tag_id, c.parent_tag_id, &c.slug));
    }
    let (ids2, created2) = scribo::db::repos::tag_resolve::resolve_tags(&after, text, 50);
    assert_eq!(ids2, ids);
    assert!(created2.is_empty());
}
