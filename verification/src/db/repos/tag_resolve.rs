//! Resolving the inline tags of a text against the tag table: each level of
//! each written tag path is found by (parent, slug) or created, and the leaf
//! of each path is returned. Resolving the same text twice creates nothing
//! the second time and gives the same tags.
use vstd::prelude::*;

use super::tag_tree::TagRow;
use super::tags::{extract_raw_tags, raw_tags, slug_of, tag_path_segments, tag_segments};
use crate::text::views;

verus! {

/// A tag of the table as resolution sees it: id, parent, slug.
pub type TagKey = (i64, Option<i64>, Seq<char>);

/// The keys of the rows of a tag table.
pub open spec fn tag_keys(rows: Seq<TagRow>) -> Seq<TagKey> {
    rows.map_values(|r: TagRow| (r.tag_id, r.parent_tag_id, r.slug@))
}

/// Index of the first tag of `rows` with this parent and slug.
pub open spec fn lookup(rows: Seq<TagKey>, parent: Option<i64>, slug: Seq<char>) -> Option<int>
    decreases rows.len(),
{
    if rows.len() == 0 {
        None
    } else {
        match lookup(rows.drop_last(), parent, slug) {
            Some(i) => Some(i),
            None => if rows.last().1 == parent && rows.last().2 == slug {
                Some(rows.len() - 1)
            } else {
                None
            },
        }
    }
}

/// Resolves the levels `segs` (slugs) of one tag path below `parent`,
/// creating missing levels with ids from `next` on: the table afterwards,
/// the leaf (`parent` itself for an empty path), and the next free id.
pub open spec fn resolve_path(
    rows: Seq<TagKey>,
    segs: Seq<Seq<char>>,
    parent: Option<i64>,
    next: int,
) -> (Seq<TagKey>, Option<i64>, int)
    decreases segs.len(),
{
    if segs.len() == 0 {
        (rows, parent, next)
    } else {
        match lookup(rows, parent, segs[0]) {
            Some(i) => resolve_path(rows, segs.drop_first(), Some(rows[i].0), next),
            None => resolve_path(
                rows.push((next as i64, parent, segs[0])),
                segs.drop_first(),
                Some(next as i64),
                next + 1,
            ),
        }
    }
}

/// Resolves the tag paths `paths` in order: the table afterwards, the leaf of
/// each non-empty path, and the next free id.
pub open spec fn resolve_all(rows: Seq<TagKey>, paths: Seq<Seq<Seq<char>>>, next: int) -> (
    Seq<TagKey>,
    Seq<i64>,
    int,
)
    decreases paths.len(),
{
    if paths.len() == 0 {
        (rows, Seq::empty(), next)
    } else {
        let (r1, leaf, n1) = resolve_path(rows, paths[0], None, next);
        let (r2, ids, n2) = resolve_all(r1, paths.drop_first(), n1);
        (
            r2,
            match leaf {
                Some(l) => seq![l] + ids,
                None => ids,
            },
            n2,
        )
    }
}

/// The tag paths written in `text`: for each inline tag, the slugs of its
/// levels.
pub open spec fn written_paths(text: Seq<char>) -> Seq<Seq<Seq<char>>> {
    raw_tags(text).map_values(|t: Seq<char>| tag_segments(t).map_values(|s: Seq<char>| slug_of(s)))
}

/// Whether `a` is a prefix of `b`.
pub open spec fn prefix_of(a: Seq<TagKey>, b: Seq<TagKey>) -> bool {
    a.len() <= b.len() && b.take(a.len() as int) == a
}

proof fn lemma_lookup_none(rows: Seq<TagKey>, parent: Option<i64>, slug: Seq<char>)
    ensures
        lookup(rows, parent, slug) matches Some(i) ==> 0 <= i < rows.len() && rows[i].1 == parent
            && rows[i].2 == slug && forall|j: int|
            0 <= j < i ==> !(rows[j].1 == parent && rows[j].2 == slug),
        lookup(rows, parent, slug) is None ==> forall|i: int|
            0 <= i < rows.len() ==> !(rows[i].1 == parent && rows[i].2 == slug),
    decreases rows.len(),
{
    if rows.len() > 0 {
        let init = rows.drop_last();
        lemma_lookup_none(init, parent, slug);
        assert forall|i: int| 0 <= i < init.len() implies rows[i] == init[i] by {}
        if let Some(i) = lookup(init, parent, slug) {
            assert(rows[i] == init[i]);
            assert forall|j: int| 0 <= j < i implies !(rows[j].1 == parent && rows[j].2 == slug) by {
                assert(rows[j] == init[j]);
            }
        }
    }
}

proof fn lemma_lookup_prefix(a: Seq<TagKey>, b: Seq<TagKey>, parent: Option<i64>, slug: Seq<char>)
    requires
        prefix_of(a, b),
        lookup(a, parent, slug) is Some,
    ensures
        lookup(b, parent, slug) == lookup(a, parent, slug),
    decreases b.len(),
{
    if b.len() > a.len() {
        assert(prefix_of(a, b.drop_last())) by {
            assert(b.drop_last().take(a.len() as int) =~= b.take(a.len() as int));
        }
        lemma_lookup_prefix(a, b.drop_last(), parent, slug);
    } else {
        assert(b.take(a.len() as int) =~= b);
    }
}

proof fn lemma_prefix_trans(a: Seq<TagKey>, b: Seq<TagKey>, c: Seq<TagKey>)
    requires
        prefix_of(a, b),
        prefix_of(b, c),
    ensures
        prefix_of(a, c),
{
    assert(c.take(a.len() as int) =~= c.take(b.len() as int).take(a.len() as int));
}

proof fn lemma_resolve_path_grows(
    rows: Seq<TagKey>,
    segs: Seq<Seq<char>>,
    parent: Option<i64>,
    next: int,
)
    ensures
        prefix_of(rows, resolve_path(rows, segs, parent, next).0),
        next <= resolve_path(rows, segs, parent, next).2,
    decreases segs.len(),
{
    assert(rows.take(rows.len() as int) =~= rows);
    if segs.len() > 0 {
        match lookup(rows, parent, segs[0]) {
            Some(i) => {
                lemma_resolve_path_grows(rows, segs.drop_first(), Some(rows[i].0), next);
            },
            None => {
                let r1 = rows.push((next as i64, parent, segs[0]));
                lemma_resolve_path_grows(r1, segs.drop_first(), Some(next as i64), next + 1);
                assert(prefix_of(rows, r1)) by {
                    assert(r1.take(rows.len() as int) =~= rows);
                }
                lemma_prefix_trans(rows, r1, resolve_path(rows, segs, parent, next).0);
            },
        }
    }
}

proof fn lemma_resolve_path_again(
    rows: Seq<TagKey>,
    big: Seq<TagKey>,
    segs: Seq<Seq<char>>,
    parent: Option<i64>,
    next: int,
    m: int,
)
    requires
        prefix_of(resolve_path(rows, segs, parent, next).0, big),
    ensures
        resolve_path(big, segs, parent, m) == (big, resolve_path(rows, segs, parent, next).1, m),
    decreases segs.len(),
{
    lemma_resolve_path_grows(rows, segs, parent, next);
    if segs.len() > 0 {
        lemma_prefix_trans(rows, resolve_path(rows, segs, parent, next).0, big);
        lemma_lookup_none(rows, parent, segs[0]);
        match lookup(rows, parent, segs[0]) {
            Some(i) => {
                lemma_lookup_prefix(rows, big, parent, segs[0]);
                assert(big[i] == rows[i]);
                lemma_resolve_path_again(rows, big, segs.drop_first(), Some(rows[i].0), next, m);
            },
            None => {
                let r1 = rows.push((next as i64, parent, segs[0]));
                lemma_resolve_path_grows(r1, segs.drop_first(), Some(next as i64), next + 1);
                lemma_prefix_trans(r1, resolve_path(rows, segs, parent, next).0, big);
                assert(lookup(r1, parent, segs[0]) == Some(rows.len() as int)) by {
                    assert(r1.drop_last() =~= rows);
                }
                lemma_lookup_prefix(r1, big, parent, segs[0]);
                assert(big[rows.len() as int] == r1[rows.len() as int]);
                lemma_resolve_path_again(
                    r1,
                    big,
                    segs.drop_first(),
                    Some(next as i64),
                    next + 1,
                    m,
                );
            },
        }
    } else {
        assert(big.take(big.len() as int) =~= big);
    }
}

proof fn lemma_resolve_all_grows(rows: Seq<TagKey>, paths: Seq<Seq<Seq<char>>>, next: int)
    ensures
        prefix_of(rows, resolve_all(rows, paths, next).0),
        next <= resolve_all(rows, paths, next).2,
    decreases paths.len(),
{
    assert(rows.take(rows.len() as int) =~= rows);
    if paths.len() > 0 {
        let (r1, leaf, n1) = resolve_path(rows, paths[0], None, next);
        lemma_resolve_path_grows(rows, paths[0], None, next);
        lemma_resolve_all_grows(r1, paths.drop_first(), n1);
        lemma_prefix_trans(rows, r1, resolve_all(rows, paths, next).0);
    }
}

proof fn lemma_resolve_all_again(
    rows: Seq<TagKey>,
    big: Seq<TagKey>,
    paths: Seq<Seq<Seq<char>>>,
    next: int,
    m: int,
)
    requires
        prefix_of(resolve_all(rows, paths, next).0, big),
    ensures
        resolve_all(big, paths, m) == (big, resolve_all(rows, paths, next).1, m),
    decreases paths.len(),
{
    if paths.len() > 0 {
        let (r1, leaf, n1) = resolve_path(rows, paths[0], None, next);
        lemma_resolve_all_grows(r1, paths.drop_first(), n1);
        lemma_prefix_trans(r1, resolve_all(rows, paths, next).0, big);
        lemma_resolve_path_again(rows, big, paths[0], None, next, m);
        lemma_resolve_all_again(r1, big, paths.drop_first(), n1, m);
    }
}

/// Resolving the same tag paths a second time, against the table the first
/// resolution left, creates no tag and gives the same tags, whatever ids
/// would have been free.
pub proof fn lemma_resolution_idempotent(
    rows: Seq<TagKey>,
    paths: Seq<Seq<Seq<char>>>,
    next: int,
    next_again: int,
)
    ensures
        ({
            let (after, ids, _n) = resolve_all(rows, paths, next);
            resolve_all(after, paths, next_again) == (after, ids, next_again)
        }),
{
    let after = resolve_all(rows, paths, next).0;
    assert(after.take(after.len() as int) =~= after);
    lemma_resolve_all_again(rows, after, paths, next, next_again);
}

/// A tag created by resolution.
#[derive(Debug, Clone)]
pub struct CreatedTag {
    pub tag_id: i64,
    pub parent_tag_id: Option<i64>,
    /// The level's name as written, trimmed.
    pub name: String,
    pub slug: String,
}

/// The keys of created tags.
pub open spec fn created_keys(c: Seq<CreatedTag>) -> Seq<TagKey> {
    c.map_values(|t: CreatedTag| (t.tag_id, t.parent_tag_id, t.slug@))
}

fn copy_row(r: &TagRow) -> (c: TagRow)
    ensures
        c.tag_id == r.tag_id,
        c.parent_tag_id == r.parent_tag_id,
        c.slug@ == r.slug@,
{
    TagRow { tag_id: r.tag_id, parent_tag_id: r.parent_tag_id, slug: r.slug.clone() }
}

/// The first row of `table` with this parent and slug.
fn find_tag(table: &Vec<TagRow>, parent: Option<i64>, slug: &str) -> (r: Option<usize>)
    ensures
        r matches Some(j) ==> j < table@.len() && lookup(tag_keys(table@), parent, slug@) == Some(
            j as int,
        ),
        r is None ==> lookup(tag_keys(table@), parent, slug@) is None,
{
    let ghost keys = tag_keys(table@);
    proof {
        lemma_lookup_none(keys, parent, slug@);
    }
    let n = table.len();
    let mut j: usize = 0;
    while j < n
        invariant
            n == table@.len(),
            keys == tag_keys(table@),
            j <= n,
            forall|m: int| 0 <= m < j ==> !(keys[m].1 == parent && keys[m].2 == slug@),
        decreases n - j,
    {
        let same_parent = match (table[j].parent_tag_id, parent) {
            (Some(a), Some(b)) => a == b,
            (None, None) => true,
            _ => false,
        };
        assert(keys[j as int] == (table@[j as int].tag_id, table@[j as int].parent_tag_id, table@[
            j as int].slug@));
        if same_parent && crate::text::str_eq(table[j].slug.as_str(), slug) {
            assert(keys[j as int].1 == parent && keys[j as int].2 == slug@);
            proof {
                lemma_lookup_none(keys, parent, slug@);
                let i = lookup(keys, parent, slug@)->0;
                assert(lookup(keys, parent, slug@) is Some) by {
                    if lookup(keys, parent, slug@) is None {
                        assert(!(keys[j as int].1 == parent && keys[j as int].2 == slug@));
                    }
                }
                if i < j {
                    assert(!(keys[i].1 == parent && keys[i].2 == slug@));
                }
            }
            return Some(j);
        }
        assert(!(keys[j as int].1 == parent && keys[j as int].2 == slug@));
        j = j + 1;
    }
    proof {
        lemma_lookup_none(keys, parent, slug@);
    }
    None
}

/// Resolves the inline tags of `input` against the tag table `existing`,
/// creating missing levels with ids from `next_id` on: the leaf tag of each
/// written path, in order, and the tags created, in order of creation.
pub fn resolve_tags(existing: &[TagRow], input: &str, next_id: i64) -> (r: (
    Vec<i64>,
    Vec<CreatedTag>,
))
    requires
        resolve_all(tag_keys(existing@), written_paths(input@), next_id as int).2 <= i64::MAX,
    ensures
        ({
            let (after, ids, _n) = resolve_all(
                tag_keys(existing@),
                written_paths(input@),
                next_id as int,
            );
            &&& r.0@ == ids
            &&& tag_keys(existing@) + created_keys(r.1@) == after
            &&& forall|k: int| 0 <= k < r.1@.len() ==> (#[trigger] r.1@[k]).slug@ == slug_of(
                r.1@[k].name@,
            )
        }),
{
    let ghost k0 = tag_keys(existing@);
    let ghost paths = written_paths(input@);
    let ghost total = resolve_all(k0, paths, next_id as int);
    let mut table: Vec<TagRow> = Vec::new();
    let mut e: usize = 0;
    while e < existing.len()
        invariant
            e <= existing@.len(),
            tag_keys(table@) == tag_keys(existing@.take(e as int)),
        decreases existing@.len() - e,
    {
        let row = copy_row(&existing[e]);
        let ghost before = table@;
        table.push(row);
        e = e + 1;
        proof {
            let a = tag_keys(table@);
            let b = tag_keys(existing@.take(e as int));
            assert(tag_keys(before) =~= tag_keys(existing@.take(e - 1)));
            assert forall|m: int| 0 <= m < a.len() implies a[m] == b[m] by {
                if m < e - 1 {
                    assert(a[m] == tag_keys(before)[m]);
                    assert(b[m] == tag_keys(existing@.take(e - 1))[m]);
                }
            }
            assert(a =~= b);
        }
    }
    assert(existing@.take(existing@.len() as int) =~= existing@);
    let raws = extract_raw_tags(input);
    let mut ids: Vec<i64> = Vec::new();
    let mut created: Vec<CreatedTag> = Vec::new();
    let mut next: i64 = next_id;
    let np = raws.len();
    assert(paths.subrange(0, paths.len() as int) =~= paths);
    assert(created_keys(created@) =~= Seq::<TagKey>::empty());
    assert(k0 + created_keys(created@) =~= k0);
    let mut k: usize = 0;
    while k < np
        invariant
            np == raws@.len(),
            views(raws@) == raw_tags(input@),
            paths == written_paths(input@),
            paths.len() == np,
            k <= np,
            k0 == tag_keys(existing@),
            tag_keys(table@) == k0 + created_keys(created@),
            forall|m: int| 0 <= m < created@.len() ==> (#[trigger] created@[m]).slug@ == slug_of(
                created@[m].name@,
            ),
            total == resolve_all(k0, paths, next_id as int),
            total.2 <= i64::MAX,
            ({
                let (r2, rest, n2) = resolve_all(
                    tag_keys(table@),
                    paths.subrange(k as int, np as int),
                    next as int,
                );
                &&& r2 == total.0
                &&& ids@ + rest == total.1
                &&& n2 == total.2
            }),
        decreases np - k,
    {
        let segments = tag_path_segments(raws[k].as_str());
        let ghost segs = paths[k as int];
        proof {
            assert(raws@[k as int]@ == raw_tags(input@)[k as int]);
            assert(segs == tag_segments(raws@[k as int]@).map_values(|s: Seq<char>| slug_of(s)));
            let sub = paths.subrange(k as int, np as int);
            assert(sub[0] == segs);
            assert(sub.drop_first() =~= paths.subrange(k + 1, np as int));
        }
        let ghost start_keys = tag_keys(table@);
        let ghost start_next = next as int;
        let ns = segments.len();
        let mut parent: Option<i64> = None;
        let mut i: usize = 0;
        assert(segs.subrange(0, segs.len() as int) =~= segs);
        while i < ns
            invariant
                ns == segments@.len(),
                ns == segs.len(),
                forall|j: int| 0 <= j < ns ==> (#[trigger] segments@[j]).slug@ == segs[j]
                    && segments@[j].slug@ == slug_of(segments@[j].name@),
                i <= ns,
                k0 == tag_keys(existing@),
                tag_keys(table@) == k0 + created_keys(created@),
                forall|m: int|
                    0 <= m < created@.len() ==> (#[trigger] created@[m]).slug@ == slug_of(
                        created@[m].name@,
                    ),
                total.2 <= i64::MAX,
                ({
                    let (r1, leaf, n1) = resolve_path(start_keys, segs, None, start_next);
                    let (r2, rest, n2) = resolve_all(r1, paths.subrange(k + 1, np as int), n1);
                    &&& r2 == total.0
                    &&& ids@ + (match leaf {
                        Some(l) => seq![l] + rest,
                        None => rest,
                    }) == total.1
                    &&& n2 == total.2
                }),
                resolve_path(start_keys, segs, None, start_next) == resolve_path(
                    tag_keys(table@),
                    segs.subrange(i as int, ns as int),
                    parent,
                    next as int,
                ),
            decreases ns - i,
        {
            let ghost cur = tag_keys(table@);
            let ghost sub = segs.subrange(i as int, ns as int);
            proof {
                assert(sub[0] == segs[i as int]);
                assert(sub.drop_first() =~= segs.subrange(i + 1, ns as int));
            }
            let seg_slug = segments[i].slug.as_str();
            match find_tag(&table, parent, seg_slug) {
                Some(j) => {
                    proof {
                        assert(cur[j as int].0 == table@[j as int].tag_id);
                        assert(sub.len() > 0);
                        assert(resolve_path(cur, sub, parent, next as int) == resolve_path(
                            cur,
                            sub.drop_first(),
                            Some(cur[j as int].0),
                            next as int,
                        ));
                    }
                    parent = Some(table[j].tag_id);
                },
                None => {
                    proof {
                        let cur2 = cur.push((next as i64, parent, segs[i as int]));
                        let (r1, leaf, n1) = resolve_path(start_keys, segs, None, start_next);
                        lemma_resolve_path_grows(
                            cur2,
                            segs.subrange(i + 1, ns as int),
                            Some(next as i64),
                            next + 1,
                        );
                        lemma_resolve_all_grows(r1, paths.subrange(k + 1, np as int), n1);
                    }
                    let ghost before = created@;
                    let new_row = TagRow {
                        tag_id: next,
                        parent_tag_id: parent,
                        slug: segments[i].slug.clone(),
                    };
                    table.push(new_row);
                    created.push(
                        CreatedTag {
                            tag_id: next,
                            parent_tag_id: parent,
                            name: segments[i].name.clone(),
                            slug: segments[i].slug.clone(),
                        },
                    );
                    proof {
                        assert(created_keys(created@) =~= created_keys(before).push(
                            (next, parent, segs[i as int]),
                        ));
                        assert(tag_keys(table@) =~= cur.push((next, parent, segs[i as int])));
                        assert(tag_keys(table@) =~= k0 + created_keys(created@));
                    }
                    parent = Some(next);
                    next = next + 1;
                },
            }
            i = i + 1;
        }
        proof {
            let (r1, leaf, n1) = resolve_path(start_keys, segs, None, start_next);
            assert(segs.subrange(ns as int, ns as int) =~= Seq::<Seq<char>>::empty());
            assert(r1 == tag_keys(table@) && leaf == parent && n1 == next as int);
        }
        match parent {
            Some(l) => {
                let ghost before = ids@;
                ids.push(l);
                proof {
                    let (r1, leaf, n1) = resolve_path(start_keys, segs, None, start_next);
                    let (r2, rest, n2) = resolve_all(r1, paths.subrange(k + 1, np as int), n1);
                    assert(ids@ + rest =~= before + (seq![l] + rest));
                }
            },
            None => {},
        }
        k = k + 1;
    }
    proof {
        assert(paths.subrange(np as int, np as int) =~= Seq::<Seq<Seq<char>>>::empty());
        assert(ids@ + Seq::<i64>::empty() =~= ids@);
    }
    (ids, created)
}

} // verus!
