//! Pure parts of the file repository: file names of paths, and the revision
//! recorded when a file's content changes.
use vstd::prelude::*;

use crate::text::{join_seqs, join_strings, str_eq, views};

verus! {

/// The last component of `path` as `std::path::Path::file_name` returns it.
pub uninterp spec fn path_file_name(path: Seq<char>) -> Option<Seq<char>>;

/// Calls `Path::file_name` on `path`; the name of a `&str` path is valid
/// UTF-8, so converting it back to a string is one for one.
#[verifier::external_body]
fn file_name_of(path: &str) -> (r: Option<String>)
    ensures
        match r {
            Some(n) => path_file_name(path@) == Some(n@),
            None => path_file_name(path@) is None,
        },
{
    std::path::Path::new(path).file_name().map(|n| n.to_string_lossy().into_owned())
}

/// The file name of `path`, or `fallback` when the path has none.
pub fn file_name_or(path: &str, fallback: &str) -> (r: String)
    ensures
        r@ == match path_file_name(path@) {
            Some(n) => n,
            None => fallback@,
        },
{
    match file_name_of(path) {
        Some(n) => n,
        None => fallback.to_owned(),
    }
}

/// The name stored for a file moved to `new_path`: its file name, or the
/// whole path when it has none.
pub fn renamed_file_name(new_path: &str) -> (r: String)
    ensures
        r@ == match path_file_name(new_path@) {
            Some(n) => n,
            None => new_path@,
        },
{
    file_name_or(new_path, new_path)
}

/// The text of each stored chunk, empty for a chunk without text.
pub open spec fn chunk_texts(chunks: Seq<Option<String>>) -> Seq<Seq<char>> {
    chunks.map_values(|c: Option<String>| match c {
        Some(t) => t@,
        None => Seq::<char>::empty(),
    })
}

/// The content of a file rebuilt from its chunks: their texts in order,
/// separated by blank lines.
pub fn previous_content(chunks: &[Option<String>]) -> (r: String)
    ensures
        r@ == join_seqs(chunk_texts(chunks@), "\n\n"@),
{
    let mut texts: Vec<String> = Vec::new();
    let n = chunks.len();
    let mut i: usize = 0;
    while i < n
        invariant
            n == chunks@.len(),
            i <= n,
            views(texts@) == chunk_texts(chunks@).take(i as int),
        decreases n - i,
    {
        let t = match &chunks[i] {
            Some(t) => t.clone(),
            None => String::new(),
        };
        let ghost before = texts@;
        texts.push(t);
        proof {
            assert(texts@ == before.push(t));
            assert(views(before).len() == i);
            assert(before.len() == i);
            assert(chunk_texts(chunks@)[i as int] == t@);
            assert forall|k: int| 0 <= k < i + 1 implies views(texts@)[k] == chunk_texts(
                chunks@,
            ).take(i + 1)[k] by {
                if k < i {
                    assert(texts@[k] == before[k]);
                    assert(views(before)[k] == chunk_texts(chunks@).take(i as int)[k]);
                } else {
                    assert(texts@[k] == t);
                }
            }
            assert(views(texts@) =~= chunk_texts(chunks@).take(i + 1));
        }
        i = i + 1;
    }
    assert(chunk_texts(chunks@).take(n as int) =~= chunk_texts(chunks@));
    join_strings(texts.as_slice(), "\n\n")
}

/// The unified diff `diffy::create_patch` computes from `old` to `new`,
/// rendered with its `Display`.
pub uninterp spec fn unified_diff(old: Seq<char>, new: Seq<char>) -> Seq<char>;

/// Calls `diffy::create_patch` and renders the patch as text.
#[verifier::external_body]
fn diff_text(old: &str, new: &str) -> (r: String)
    ensures
        r@ == unified_diff(old@, new@),
{
    diffy::create_patch(old, new).to_string()
}

/// The patch to record when content changes from `old` to `new`: none when
/// the content is unchanged or the rendered patch is empty.
pub open spec fn revision_patch_of(old: Seq<char>, new: Seq<char>) -> Option<Seq<char>> {
    if old == new || unified_diff(old, new).len() == 0 {
        None
    } else {
        Some(unified_diff(old, new))
    }
}

/// Computes the patch to record for a change of content from `old` to `new`.
pub fn revision_patch(old: &str, new: &str) -> (r: Option<String>)
    ensures
        match r {
            Some(p) => revision_patch_of(old@, new@) == Some(p@),
            None => revision_patch_of(old@, new@) is None,
        },
{
    if str_eq(old, new) {
        return None;
    }
    let patch = diff_text(old, new);
    if patch.as_str().is_empty() {
        None
    } else {
        Some(patch)
    }
}

/// Unchanged content never records a revision.
pub proof fn lemma_unchanged_content_records_nothing(content: Seq<char>)
    ensures
        revision_patch_of(content, content) is None,
{
}

} // verus!
