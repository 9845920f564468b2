//! Tag syntax and the tag-tree decisions of the tag repository.
//!
//! Tags are written inline as `#name` or `#parent/child`: a `#` followed by
//! one or more ASCII letters, digits, `_`, `-` or `/`.
use vstd::prelude::*;

use crate::domain::tag::TagId;
use crate::error::AppError;
use crate::text::{
    chars_of, is_whitespace_char, lowercase, push_all, string_from_chars, to_lowercase, trim,
    trim_chars, views,
};

verus! {

/// `s` with each run of whitespace replaced by one `-`.
pub open spec fn hyphenate_whitespace(s: Seq<char>) -> Seq<char>
    decreases s.len(),
{
    if s.len() == 0 {
        Seq::empty()
    } else if is_whitespace_char(s.last()) {
        if s.len() > 1 && is_whitespace_char(s[s.len() - 2]) {
            hyphenate_whitespace(s.drop_last())
        } else {
            hyphenate_whitespace(s.drop_last()).push('-')
        }
    } else {
        hyphenate_whitespace(s.drop_last()).push(s.last())
    }
}

/// URL-friendly form of a tag name: trimmed, lowercased, and each inner run
/// of whitespace replaced by `-` ("Data Science" gives "data-science").
pub open spec fn slug_of(name: Seq<char>) -> Seq<char> {
    hyphenate_whitespace(lowercase(trim_chars(name)))
}

/// Replaces each run of whitespace in `s` by one `-`.
fn hyphenate(s: &str) -> (r: String)
    ensures
        r@ == hyphenate_whitespace(s@),
{
    let cs = chars_of(s);
    let n = cs.len();
    let mut out: Vec<char> = Vec::new();
    let mut prev_space = false;
    let mut i: usize = 0;
    assert(cs@.take(0) =~= Seq::<char>::empty());
    while i < n
        invariant
            n == cs@.len(),
            cs@ == s@,
            i <= n,
            out@ == hyphenate_whitespace(cs@.take(i as int)),
            i > 0 ==> prev_space == is_whitespace_char(cs@[i - 1]),
        decreases n - i,
    {
        let c = cs[i];
        let sp = crate::text::char_is_whitespace(c);
        let ghost t = cs@.take(i + 1);
        assert(t.drop_last() =~= cs@.take(i as int));
        assert(t.last() == c);
        if i > 0 {
            assert(t[t.len() - 2] == cs@[i - 1]);
        }
        if sp {
            if i == 0 || !prev_space {
                out.push('-');
            }
        } else {
            out.push(c);
        }
        prev_space = sp;
        i = i + 1;
    }
    assert(cs@.take(n as int) =~= cs@);
    string_from_chars(out.as_slice())
}

/// The slug of a tag name: the name trimmed of whitespace, lowercased, and
/// with each inner run of whitespace replaced by `-`.
pub fn slugify(name: &str) -> (r: String)
    ensures
        r@ == slug_of(name@),
{
    let t = trim(name);
    let lower = to_lowercase(t.as_str());
    hyphenate(lower.as_str())
}

/// Characters allowed in an inline tag after the `#`.
pub open spec fn is_tag_char(c: char) -> bool {
    ('a' <= c && c <= 'z') || ('A' <= c && c <= 'Z') || ('0' <= c && c <= '9') || c == '_' || c
        == '-' || c == '/'
}

fn tag_char(c: char) -> (r: bool)
    ensures
        r == is_tag_char(c),
{
    ('a' <= c && c <= 'z') || ('A' <= c && c <= 'Z') || ('0' <= c && c <= '9') || c == '_' || c
        == '-' || c == '/'
}

/// Length of the run of tag characters at the start of `s`.
pub open spec fn tag_run_len(s: Seq<char>) -> nat
    decreases s.len(),
{
    if s.len() > 0 && is_tag_char(s[0]) {
        1 + tag_run_len(s.drop_first())
    } else {
        0
    }
}

/// A run of tag characters is no longer than the text it starts.
pub proof fn lemma_tag_run_len_bound(s: Seq<char>)
    ensures
        tag_run_len(s) <= s.len(),
    decreases s.len(),
{
    if s.len() > 0 && is_tag_char(s[0]) {
        lemma_tag_run_len_bound(s.drop_first());
    }
}

proof fn lemma_tag_run_len_exact(s: Seq<char>, m: int)
    requires
        0 <= m <= s.len(),
        forall|k: int| 0 <= k < m ==> is_tag_char(#[trigger] s[k]),
        m == s.len() || !is_tag_char(s[m]),
    ensures
        tag_run_len(s) == m,
    decreases m,
{
    if m > 0 {
        assert(is_tag_char(s[0]));
        let t = s.drop_first();
        assert forall|k: int| 0 <= k < m - 1 implies is_tag_char(#[trigger] t[k]) by {
            assert(t[k] == s[k + 1]);
        }
        if m - 1 < t.len() {
            assert(t[m - 1] == s[m]);
        }
        lemma_tag_run_len_exact(t, m - 1);
    }
}

/// The tags written in `s`, left to right: each `#` followed by a non-empty
/// run of tag characters yields that run; scanning resumes after the run.
pub open spec fn raw_tags(s: Seq<char>) -> Seq<Seq<char>>
    decreases s.len(),
{
    if s.len() == 0 {
        Seq::empty()
    } else if s[0] == '#' && tag_run_len(s.drop_first()) > 0 {
        let n = tag_run_len(s.drop_first()) as int;
        proof {
            lemma_tag_run_len_bound(s.drop_first());
        }
        seq![s.subrange(1, 1 + n)] + raw_tags(s.skip(1 + n))
    } else {
        raw_tags(s.drop_first())
    }
}

fn chars_in_range(v: &[char], lo: usize, hi: usize) -> (r: String)
    requires
        lo <= hi <= v@.len(),
    ensures
        r@ == v@.subrange(lo as int, hi as int),
{
    let mut out = String::new();
    let mut k = lo;
    while k < hi
        invariant
            lo <= k <= hi <= v@.len(),
            out@ == v@.subrange(lo as int, k as int),
        decreases hi - k,
    {
        crate::text::push_char(&mut out, v[k]);
        k = k + 1;
        assert(out@ =~= v@.subrange(lo as int, k as int));
    }
    out
}

/// Extracts the inline tags of `input` (`#math/calculus` yields `math/calculus`).
pub fn extract_raw_tags(input: &str) -> (r: Vec<String>)
    ensures
        views(r@) == raw_tags(input@),
{
    let cs = chars_of(input);
    let n = cs.len();
    let mut out: Vec<String> = Vec::new();
    let mut i: usize = 0;
    assert(cs@.skip(0) =~= cs@);
    assert(views(out@) + raw_tags(cs@) =~= raw_tags(cs@));
    while i < n
        invariant
            n == cs@.len(),
            cs@ == input@,
            i <= n,
            views(out@) + raw_tags(cs@.skip(i as int)) == raw_tags(cs@),
        decreases n - i,
    {
        let ghost s = cs@.skip(i as int);
        assert(s.drop_first() =~= cs@.skip(i + 1));
        if cs[i] == '#' {
            let mut j: usize = i + 1;
            while j < n && tag_char(cs[j])
                invariant
                    n == cs@.len(),
                    i < j <= n,
                    forall|k: int| i + 1 <= k < j ==> is_tag_char(#[trigger] cs@[k]),
                decreases n - j,
            {
                j = j + 1;
            }
            proof {
                let t = cs@.skip(i + 1);
                assert forall|k: int| 0 <= k < j - i - 1 implies is_tag_char(#[trigger] t[k]) by {
                    assert(t[k] == cs@[i + 1 + k]);
                }
                if j < n {
                    assert(t[j - i - 1] == cs@[j as int]);
                }
                lemma_tag_run_len_exact(t, j - i - 1);
            }
            if j > i + 1 {
                let tag = chars_in_range(cs.as_slice(), i + 1, j);
                let ghost before = out@;
                out.push(tag);
                proof {
                    assert(s.subrange(1, (j - i) as int) =~= cs@.subrange(i + 1, j as int));
                    assert(s.skip((j - i) as int) =~= cs@.skip(j as int));
                    assert(views(out@) =~= views(before).push(cs@.subrange(i + 1, j as int)));
                    assert(views(out@) + raw_tags(cs@.skip(j as int)) =~= views(before) + (seq![
                        cs@.subrange(i + 1, j as int)] + raw_tags(cs@.skip(j as int))));
                }
                i = j;
            } else {
                i = i + 1;
            }
        } else {
            i = i + 1;
        }
    }
    proof {
        assert(cs@.skip(n as int) =~= Seq::<char>::empty());
        assert(views(out@) + Seq::<Seq<char>>::empty() =~= views(out@));
    }
    out
}

/// Whether `c` may appear in a written tag: an ASCII letter or digit, `_`,
/// `-` or `/` (the pattern `#[a-zA-Z0-9_/-]+`).
pub open spec fn written_tag_char(c: char) -> bool {
    ||| ('a' <= c && c <= 'z')
    ||| ('A' <= c && c <= 'Z')
    ||| ('0' <= c && c <= '9')
    ||| c == '_'
    ||| c == '-'
    ||| c == '/'
}

/// A `#` followed by a run of ASCII letters, digits, `_`, `-` or `/` yields
/// that whole run as one tag, and scanning goes on after it: for any text
/// `rest` that does not continue the run, the tags of `#w` + `rest` are `w`
/// followed by the tags of `rest`.
pub proof fn lemma_hash_run_is_one_tag(w: Seq<char>, rest: Seq<char>)
    requires
        w.len() > 0,
        forall|i: int| 0 <= i < w.len() ==> written_tag_char(#[trigger] w[i]),
        rest.len() > 0 ==> !written_tag_char(rest[0]),
    ensures
        raw_tags(seq!['#'] + w + rest) == seq![w] + raw_tags(rest),
{
    let s = seq!['#'] + w + rest;
    let t = s.drop_first();
    assert(t =~= w + rest);
    let n = w.len() as int;
    assert forall|k: int| 0 <= k < n implies is_tag_char(#[trigger] t[k]) by {
        assert(t[k] == w[k]);
        assert(written_tag_char(w[k]));
    }
    if n < t.len() {
        assert(t[n] == rest[0]);
    }
    lemma_tag_run_len_exact(t, n);
    assert(s[0] == '#');
    assert(s.subrange(1, 1 + n) =~= w);
    assert(s.skip(1 + n) =~= rest);
}

/// Every extracted tag is non-empty and made of tag characters only.
pub proof fn lemma_raw_tags_well_formed(s: Seq<char>)
    ensures
        forall|k: int|
            0 <= k < raw_tags(s).len() ==> {
                &&& (#[trigger] raw_tags(s)[k]).len() > 0
                &&& forall|m: int| 0 <= m < raw_tags(s)[k].len() ==> is_tag_char(raw_tags(s)[k][m])
            },
    decreases s.len(),
{
    if s.len() == 0 {
    } else if s[0] == '#' && tag_run_len(s.drop_first()) > 0 {
        let n = tag_run_len(s.drop_first()) as int;
        lemma_tag_run_len_bound(s.drop_first());
        lemma_run_is_tag_chars(s.drop_first());
        lemma_raw_tags_well_formed(s.skip(1 + n));
        let head = s.subrange(1, 1 + n);
        assert forall|m: int| 0 <= m < head.len() implies is_tag_char(head[m]) by {
            assert(head[m] == s.drop_first()[m]);
        }
        let rs = raw_tags(s);
        assert(rs == seq![head] + raw_tags(s.skip(1 + n)));
        assert forall|k: int| 0 <= k < rs.len() implies {
            &&& (#[trigger] rs[k]).len() > 0
            &&& forall|m: int| 0 <= m < rs[k].len() ==> is_tag_char(rs[k][m])
        } by {
            if k > 0 {
                assert(rs[k] == raw_tags(s.skip(1 + n))[k - 1]);
            }
        }
    } else {
        lemma_raw_tags_well_formed(s.drop_first());
        assert(raw_tags(s) == raw_tags(s.drop_first()));
    }
}

proof fn lemma_run_is_tag_chars(s: Seq<char>)
    ensures
        forall|m: int| 0 <= m < tag_run_len(s) ==> is_tag_char(#[trigger] s[m]),
    decreases s.len(),
{
    if s.len() > 0 && is_tag_char(s[0]) {
        lemma_run_is_tag_chars(s.drop_first());
        lemma_tag_run_len_bound(s);
        assert forall|m: int| 0 <= m < tag_run_len(s) implies is_tag_char(#[trigger] s[m]) by {
            if m > 0 {
                assert(s[m] == s.drop_first()[m - 1]);
            }
        }
    }
}

/// The pieces of `s` between occurrences of `sep`, as `str::split` yields
/// them (an empty string yields one empty piece).
pub open spec fn split_on(s: Seq<char>, sep: char) -> Seq<Seq<char>>
    decreases s.len(),
{
    if s.len() == 0 {
        seq![Seq::empty()]
    } else {
        let init = split_on(s.drop_last(), sep);
        if s.last() == sep {
            init.push(Seq::empty())
        } else {
            init.update(init.len() - 1, init.last().push(s.last()))
        }
    }
}

proof fn lemma_split_on_nonempty(s: Seq<char>, sep: char)
    ensures
        split_on(s, sep).len() >= 1,
    decreases s.len(),
{
    if s.len() > 0 {
        lemma_split_on_nonempty(s.drop_last(), sep);
    }
}

/// The trimmed pieces of `parts` that are not empty, in order.
pub open spec fn nonempty_trimmed(parts: Seq<Seq<char>>) -> Seq<Seq<char>>
    decreases parts.len(),
{
    if parts.len() == 0 {
        Seq::empty()
    } else {
        let init = nonempty_trimmed(parts.drop_last());
        let t = trim_chars(parts.last());
        if t.len() == 0 {
            init
        } else {
            init.push(t)
        }
    }
}

/// The path segments of a written tag: the `/`-separated pieces, trimmed,
/// with empty pieces dropped.
pub open spec fn tag_segments(raw: Seq<char>) -> Seq<Seq<char>> {
    nonempty_trimmed(split_on(raw, '/'))
}

/// One level of a tag path: the name as written (trimmed) and its slug.
#[derive(Debug, Clone)]
pub struct TagSegment {
    pub name: String,
    pub slug: String,
}

/// The levels of the tag path `raw`, from the root down, each with the name
/// used when the level has to be created and the slug used to find it.
pub fn tag_path_segments(raw: &str) -> (r: Vec<TagSegment>)
    ensures
        r@.len() == tag_segments(raw@).len(),
        forall|k: int|
            0 <= k < r@.len() ==> (#[trigger] r@[k]).name@ == tag_segments(raw@)[k] && r@[k].slug@
                == slug_of(tag_segments(raw@)[k]),
{
    let cs = chars_of(raw);
    let n = cs.len();
    let mut out: Vec<TagSegment> = Vec::new();
    let mut cur: Vec<char> = Vec::new();
    let mut i: usize = 0;
    proof {
        assert(cs@.take(0) =~= Seq::<char>::empty());
        assert(split_on(cs@.take(0), '/').drop_last() =~= Seq::<Seq<char>>::empty());
    }
    while i < n
        invariant
            n == cs@.len(),
            cs@ == raw@,
            i <= n,
            segments_so_far(split_on(cs@.take(i as int), '/'), cur@, out@),
        decreases n - i,
    {
        let ghost parts = split_on(cs@.take(i as int), '/');
        proof {
            lemma_split_on_nonempty(cs@.take(i as int), '/');
            assert(cs@.take(i + 1).drop_last() =~= cs@.take(i as int));
            assert(cs@.take(i + 1).last() == cs@[i as int]);
        }
        if cs[i] == '/' {
            finish_segment(&mut out, &cur, Ghost(parts));
            cur = Vec::new();
            proof {
                let next = split_on(cs@.take(i + 1), '/');
                assert(next == parts.push(Seq::empty()));
                assert(next.drop_last() =~= parts);
            }
        } else {
            let c = cs[i];
            cur.push(c);
            proof {
                let next = split_on(cs@.take(i + 1), '/');
                assert(next == parts.update(parts.len() - 1, parts.last().push(c)));
                assert(next.drop_last() =~= parts.drop_last());
            }
        }
        i = i + 1;
    }
    let ghost parts = split_on(cs@.take(n as int), '/');
    proof {
        lemma_split_on_nonempty(cs@.take(n as int), '/');
        assert(cs@.take(n as int) =~= raw@);
    }
    finish_segment(&mut out, &cur, Ghost(parts));
    out
}

/// `out` holds the segments of the completed pieces of `parts`, and `cur` is
/// the piece still being read.
spec fn segments_so_far(parts: Seq<Seq<char>>, cur: Seq<char>, out: Seq<TagSegment>) -> bool {
    let done = nonempty_trimmed(parts.drop_last());
    &&& parts.len() >= 1
    &&& parts.last() == cur
    &&& done.len() == out.len()
    &&& forall|k: int|
        0 <= k < out.len() ==> (#[trigger] out[k]).name@ == done[k] && out[k].slug@ == slug_of(
            done[k],
        )
}

/// Appends the segment of the completed piece `cur`, if it is not blank.
fn finish_segment(out: &mut Vec<TagSegment>, cur: &Vec<char>, Ghost(parts): Ghost<Seq<Seq<char>>>)
    requires
        segments_so_far(parts, cur@, old(out)@),
    ensures
        ({
            let done = nonempty_trimmed(parts);
            &&& done.len() == final(out)@.len()
            &&& forall|k: int|
                0 <= k < final(out)@.len() ==> (#[trigger] final(out)@[k]).name@ == done[k]
                    && final(out)@[k].slug@ == slug_of(done[k])
        }),
{
    let piece = string_from_chars(cur.as_slice());
    let name = trim(piece.as_str());
    proof {
        assert(parts.drop_last().push(cur@) =~= parts);
        assert(parts.drop_last() =~= parts.drop_last());
    }
    if !name.as_str().is_empty() {
        proof {
            lemma_trim_idempotent(cur@);
        }
        let slug = slugify(name.as_str());
        out.push(TagSegment { name, slug });
    }
}

proof fn lemma_trim_start_idempotent(s: Seq<char>)
    ensures
        crate::text::trim_start_chars(crate::text::trim_start_chars(s))
            == crate::text::trim_start_chars(s),
    decreases s.len(),
{
    if s.len() > 0 && is_whitespace_char(s[0]) {
        lemma_trim_start_idempotent(s.drop_first());
    }
}

proof fn lemma_trim_start_result(s: Seq<char>)
    ensures
        crate::text::trim_start_chars(s).len() == 0 || !is_whitespace_char(
            crate::text::trim_start_chars(s)[0],
        ),
    decreases s.len(),
{
    if s.len() > 0 && is_whitespace_char(s[0]) {
        lemma_trim_start_result(s.drop_first());
    }
}

proof fn lemma_trim_end_keeps_start(s: Seq<char>)
    requires
        s.len() == 0 || !is_whitespace_char(s[0]),
    ensures
        crate::text::trim_end_chars(s).len() == 0 || !is_whitespace_char(
            crate::text::trim_end_chars(s)[0],
        ),
        crate::text::trim_end_chars(s).len() == 0 || crate::text::trim_end_chars(s)[0] == s[0],
    decreases s.len(),
{
    if s.len() > 0 && is_whitespace_char(s.last()) {
        let t = s.drop_last();
        if t.len() > 0 {
            assert(t[0] == s[0]);
        }
        lemma_trim_end_keeps_start(t);
    }
}

proof fn lemma_trim_end_idempotent(s: Seq<char>)
    ensures
        crate::text::trim_end_chars(crate::text::trim_end_chars(s))
            == crate::text::trim_end_chars(s),
    decreases s.len(),
{
    if s.len() > 0 && is_whitespace_char(s.last()) {
        lemma_trim_end_idempotent(s.drop_last());
    }
}

/// Trimming twice trims nothing more.
pub proof fn lemma_trim_idempotent(s: Seq<char>)
    ensures
        trim_chars(trim_chars(s)) == trim_chars(s),
{
    let a = crate::text::trim_start_chars(s);
    let b = crate::text::trim_end_chars(a);
    lemma_trim_start_idempotent(s);
    lemma_trim_start_result(s);
    lemma_trim_end_keeps_start(a);
    assert(crate::text::trim_start_chars(b) == b);
    lemma_trim_end_idempotent(a);
}

/// Depth and path of a tag placed under `parent` (its depth and path), or
/// at the root: depth 0 and the slug as path.
pub fn tag_placement(parent: Option<(i64, &str)>, slug: &str) -> (r: (i64, String))
    requires
        parent matches Some(p) ==> p.0 < i64::MAX,
    ensures
        match parent {
            None => r.0 == 0 && r.1@ == slug@,
            Some(p) => r.0 == p.0 + 1 && r.1@ == p.1@ + "/"@ + slug@,
        },
{
    match parent {
        None => (0, slug.to_owned()),
        Some((d, p)) => {
            let mut path = p.to_owned();
            push_all(&mut path, "/");
            push_all(&mut path, slug);
            (d + 1, path)
        },
    }
}

/// Refuses to make a tag its own parent.
pub fn check_move_target(tag_id: TagId, new_parent_id: Option<TagId>) -> (r: Result<(), AppError>)
    ensures
        match new_parent_id {
            Some(p) if p.0 == tag_id.0 => r matches Err(AppError::Other(m)) && m@
                == "Cannot move tag to itself"@,
            _ => r is Ok,
        },
{
    match new_parent_id {
        Some(p) => {
            if p.0 == tag_id.0 {
                Err(AppError::Other("Cannot move tag to itself".to_owned()))
            } else {
                Ok(())
            }
        },
        None => Ok(()),
    }
}

/// Refuses to move a tag under one of its own descendants.
pub fn check_not_descendant(new_parent_is_descendant: bool) -> (r: Result<(), AppError>)
    ensures
        new_parent_is_descendant ==> (r matches Err(AppError::Other(m)) && m@
            == "Cycle detected: cannot move tag to its own descendant"@),
        !new_parent_is_descendant ==> r is Ok,
{
    if new_parent_is_descendant {
        Err(AppError::Other("Cycle detected: cannot move tag to its own descendant".to_owned()))
    } else {
        Ok(())
    }
}

/// The `LIKE` pattern matching paths and slugs that start with `prefix`.
pub fn autocomplete_pattern(prefix: &str) -> (r: String)
    ensures
        r@ == lowercase(prefix@) + "%"@,
{
    let mut p = to_lowercase(prefix);
    push_all(&mut p, "%");
    p
}

/// A tag suggested by autocompletion.
#[derive(Debug, Clone)]
pub struct AutocompleteTagResult {
    pub tag_id: TagId,
    pub name: String,
    pub path_cached: String,
    pub depth: i64,
}

} // verus!
