//! Recomputing the cached depth and path of the tags below a tag whose own
//! depth or path changed (after a rename or a move).
//!
//! The tag tree keeps, for every tag with a parent, depth = parent's depth + 1
//! and path = parent's path, `/`, own slug. `descendant_placements` restores
//! that for every tag reachable from the changed tag.
use vstd::prelude::*;

use crate::text::push_all;

verus! {

/// A tag as the recomputation sees it.
#[derive(Debug, Clone)]
pub struct TagRow {
    pub tag_id: i64,
    pub parent_tag_id: Option<i64>,
    pub slug: String,
}

/// The new depth and path of a tag.
#[derive(Debug, Clone)]
pub struct Placement {
    pub depth: i64,
    pub path: String,
}

/// Depth of a placement (0 when there is none).
pub open spec fn depth_of(o: Option<Placement>) -> i64 {
    match o {
        Some(p) => p.depth,
        None => 0,
    }
}

/// Path of a placement (empty when there is none).
pub open spec fn path_of(o: Option<Placement>) -> Seq<char> {
    match o {
        Some(p) => p.path@,
        None => Seq::empty(),
    }
}

/// Number of rows that received a placement.
pub open spec fn count_placed(s: Seq<Option<Placement>>) -> nat
    decreases s.len(),
{
    if s.len() == 0 {
        0
    } else {
        count_placed(s.drop_last()) + if s.last() is Some {
            1nat
        } else {
            0nat
        }
    }
}

/// Whether row `j` holds a placement and is the parent of row `i`.
pub open spec fn placed_parent(
    rows: Seq<TagRow>,
    out: Seq<Option<Placement>>,
    i: int,
    j: int,
) -> bool {
    &&& 0 <= j < rows.len()
    &&& out[j] is Some
    &&& rows[i].parent_tag_id == Some(rows[j].tag_id)
}

/// Whether the placement of row `i` follows the tree rule: under the changed
/// tag `root` (depth `root_depth`, path `root_path`), or under a placed parent.
pub open spec fn follows_parent(
    rows: Seq<TagRow>,
    out: Seq<Option<Placement>>,
    i: int,
    root: i64,
    root_depth: i64,
    root_path: Seq<char>,
) -> bool {
    let d = depth_of(out[i]);
    let p = path_of(out[i]);
    ||| rows[i].parent_tag_id == Some(root) && d == root_depth + 1 && p == root_path + "/"@
        + rows[i].slug@
    ||| exists|j: int|
        #[trigger] placed_parent(rows, out, i, j) && d == depth_of(out[j]) + 1 && p == path_of(out[j])
            + "/"@ + rows[i].slug@
}

/// Whether row `i` hangs under the changed tag or under a placed row.
pub open spec fn placeable(
    rows: Seq<TagRow>,
    out: Seq<Option<Placement>>,
    i: int,
    root: i64,
) -> bool {
    rows[i].parent_tag_id == Some(root) || exists|j: int| #[trigger] placed_parent(rows, out, i, j)
}

/// Whether row `i` hangs `m` levels below the changed tag `root`, through
/// a chain of rows of `rows`.
pub open spec fn hangs_below(rows: Seq<TagRow>, root: i64, i: int, m: nat) -> bool
    decreases m,
{
    if m == 0 {
        false
    } else if m == 1 {
        rows[i].parent_tag_id == Some(root)
    } else {
        exists|j: int|
            0 <= j < rows.len() && rows[i].parent_tag_id == Some(#[trigger] rows[j].tag_id)
                && hangs_below(rows, root, j, (m - 1) as nat)
    }
}

/// Whether the depth of every tag below `root` fits in `i64`.
pub open spec fn depths_fit(rows: Seq<TagRow>, root: i64, root_depth: i64) -> bool {
    forall|i: int, m: nat|
        0 <= i < rows.len() && #[trigger] hangs_below(rows, root, i, m) ==> root_depth + m
            <= i64::MAX
}

/// Whether placed row `i` sits at the depth of some chain below `root`.
pub open spec fn depth_from_chain(
    rows: Seq<TagRow>,
    out: Seq<Option<Placement>>,
    root: i64,
    root_depth: i64,
    i: int,
) -> bool {
    exists|m: nat| #[trigger] hangs_below(rows, root, i, m) && depth_of(out[i]) == root_depth + m
}

proof fn lemma_count_placed_update(s: Seq<Option<Placement>>, i: int, v: Placement)
    requires
        0 <= i < s.len(),
        s[i] is None,
    ensures
        count_placed(s.update(i, Some(v))) == count_placed(s) + 1,
    decreases s.len(),
{
    let t = s.update(i, Some(v));
    if i == s.len() - 1 {
        assert(t.drop_last() =~= s.drop_last());
    } else {
        lemma_count_placed_update(s.drop_last(), i, v);
        assert(t.drop_last() =~= s.drop_last().update(i, Some(v)));
    }
}

proof fn lemma_count_placed_bound(s: Seq<Option<Placement>>, i: int)
    ensures
        count_placed(s) <= s.len(),
        0 <= i < s.len() && s[i] is None ==> count_placed(s) < s.len(),
    decreases s.len(),
{
    if s.len() > 0 {
        lemma_count_placed_bound(s.drop_last(), i);
    }
}

/// The placed row of `out` that is the parent of row `i`, if any.
fn find_placed_parent(rows: &[TagRow], out: &Vec<Option<Placement>>, i: usize) -> (r: Option<
    usize,
>)
    requires
        i < rows@.len(),
        out@.len() == rows@.len(),
    ensures
        match r {
            Some(j) => placed_parent(rows@, out@, i as int, j as int),
            None => forall|j: int| !(#[trigger] placed_parent(rows@, out@, i as int, j)),
        },
{
    let n = rows.len();
    let mut j: usize = 0;
    while j < n
        invariant
            n == rows@.len(),
            out@.len() == n,
            i < n,
            j <= n,
            forall|k: int| 0 <= k < j ==> !(#[trigger] placed_parent(rows@, out@, i as int, k)),
        decreases n - j,
    {
        if out[j].is_some() {
            let matches_parent = match rows[i].parent_tag_id {
                Some(p) => p == rows[j].tag_id,
                None => false,
            };
            if matches_parent {
                return Some(j);
            }
        }
        j = j + 1;
    }
    None
}

/// New depth and path of every tag below the changed tag `root`, whose depth
/// is now `root_depth` and whose path is now `root_path`: `r[i]` is the
/// placement of `rows[i]`, `None` for a row not below `root`. Every placement
/// follows the tree rule (depth one more than its parent's, path its
/// parent's path, `/`, its slug), and no row left unplaced hangs under
/// `root` or under a placed row, so the whole subtree is covered.
pub fn descendant_placements(rows: &[TagRow], root: i64, root_depth: i64, root_path: &str) -> (r:
    Vec<Option<Placement>>)
    requires
        depths_fit(rows@, root, root_depth),
    ensures
        r@.len() == rows@.len(),
        forall|i: int|
            0 <= i < rows@.len() && (#[trigger] r@[i]) is Some ==> follows_parent(
                rows@,
                r@,
                i,
                root,
                root_depth,
                root_path@,
            ),
        forall|i: int|
            0 <= i < rows@.len() && (#[trigger] r@[i]) is None ==> !placeable(rows@, r@, i, root),
{
    let n = rows.len();
    let mut out: Vec<Option<Placement>> = Vec::new();
    let mut k: usize = 0;
    while k < n
        invariant
            n == rows@.len(),
            k <= n,
            out@.len() == k,
            count_placed(out@) == 0,
            forall|m: int| 0 <= m < k ==> (#[trigger] out@[m]) is None,
        decreases n - k,
    {
        let ghost before = out@;
        out.push(None);
        assert(out@.drop_last() =~= before);
        k = k + 1;
    }
    let mut placed: usize = 0;
    let mut done = false;
    while !done
        invariant
            n == rows@.len(),
            depths_fit(rows@, root, root_depth),
            out@.len() == n,
            placed == count_placed(out@),
            placed <= n,
            forall|m: int|
                0 <= m < n && (#[trigger] out@[m]) is Some ==> follows_parent(
                    rows@,
                    out@,
                    m,
                    root,
                    root_depth,
                    root_path@,
                ),
            forall|m: int|
                0 <= m < n && (#[trigger] out@[m]) is Some ==> depth_from_chain(
                    rows@,
                    out@,
                    root,
                    root_depth,
                    m,
                ),
            done ==> forall|m: int|
                0 <= m < n && (#[trigger] out@[m]) is None ==> !placeable(rows@, out@, m, root),
        decreases (if done {
            0
        } else {
            n - placed + 1
        }),
    {
        let ghost start = out@;
        let ghost start_placed = placed;
        let mut changed = false;
        let mut i: usize = 0;
        while i < n
            invariant
                n == rows@.len(),
                depths_fit(rows@, root, root_depth),
                out@.len() == n,
                placed == count_placed(out@),
                placed <= n,
                i <= n,
                start_placed <= placed,
                changed ==> start_placed < placed,
                !changed ==> out@ == start,
                forall|m: int|
                    0 <= m < n && (#[trigger] out@[m]) is Some ==> follows_parent(
                        rows@,
                        out@,
                        m,
                        root,
                        root_depth,
                        root_path@,
                    ),
                forall|m: int|
                    0 <= m < n && (#[trigger] out@[m]) is Some ==> depth_from_chain(
                        rows@,
                        out@,
                        root,
                        root_depth,
                        m,
                    ),
                !changed ==> forall|m: int|
                    0 <= m < i && (#[trigger] out@[m]) is None ==> !placeable(
                        rows@,
                        out@,
                        m,
                        root,
                    ),
            decreases n - i,
        {
            if out[i].is_none() {
                proof {
                    lemma_count_placed_bound(out@, i as int);
                }
                let under_root = match rows[i].parent_tag_id {
                    Some(p) => p == root,
                    None => false,
                };
                let target: Option<Placement> = if under_root {
                    proof {
                        assert(hangs_below(rows@, root, i as int, 1));
                    }
                    let mut path = root_path.to_owned();
                    push_all(&mut path, "/");
                    push_all(&mut path, rows[i].slug.as_str());
                    Some(Placement { depth: root_depth + 1, path })
                } else {
                    match find_placed_parent(rows, &out, i) {
                        Some(j) => {
                            let (pd, mut path) = match &out[j] {
                                Some(pl) => (pl.depth, pl.path.clone()),
                                None => (0, String::new()),
                            };
                            proof {
                                assert(depth_from_chain(rows@, out@, root, root_depth, j as int));
                                let mj = choose|mj: nat|
                                    #[trigger] hangs_below(rows@, root, j as int, mj) && depth_of(
                                        out@[j as int],
                                    ) == root_depth + mj;
                                assert(mj > 0);
                                assert(hangs_below(rows@, root, i as int, mj + 1));
                            }
                            push_all(&mut path, "/");
                            push_all(&mut path, rows[i].slug.as_str());
                            Some(Placement { depth: pd + 1, path })
                        },
                        None => None,
                    }
                };
                match target {
                    Some(v) => {
                        let ghost o = out@;
                        proof {
                            lemma_count_placed_update(o, i as int, v);
                            let o2 = o.update(i as int, Some(v));
                            assert forall|m: int|
                                0 <= m < n && (#[trigger] o2[m]) is Some implies follows_parent(
                                rows@,
                                o2,
                                m,
                                root,
                                root_depth,
                                root_path@,
                            ) by {
                                if m == i {
                                    if !under_root {
                                        let j = choose|j: int| placed_parent(rows@, o, i as int, j)
                                            && v.depth == depth_of(o[j]) + 1 && v.path@ == path_of(o[j]) + "/"@
                                            + rows@[i as int].slug@;
                                        assert(o2[j] == o[j]);
                                        assert(placed_parent(rows@, o2, i as int, j));
                                    }
                                } else {
                                    assert(o2[m] == o[m]);
                                    assert(follows_parent(rows@, o, m, root, root_depth, root_path@));
                                    if !(rows@[m].parent_tag_id == Some(root) && depth_of(o[m])
                                        == root_depth + 1 && path_of(o[m]) == root_path@ + "/"@
                                        + rows@[m].slug@) {
                                        let j = choose|j: int| #[trigger]
                                            placed_parent(rows@, o, m, j) && depth_of(o[m]) == depth_of(o[j])
                                            + 1 && path_of(o[m]) == path_of(o[j]) + "/"@ + rows@[m].slug@;
                                        assert(j != i);
                                        assert(o2[j] == o[j]);
                                        assert(placed_parent(rows@, o2, m, j));
                                    }
                                }
                            }
                        }
                        proof {
                            let o2 = o.update(i as int, Some(v));
                            assert forall|m: int|
                                0 <= m < n && (#[trigger] o2[m]) is Some implies depth_from_chain(
                                rows@,
                                o2,
                                root,
                                root_depth,
                                m,
                            ) by {
                                if m == i {
                                    if under_root {
                                        assert(hangs_below(rows@, root, i as int, 1));
                                    } else {
                                        let j = choose|j: int| placed_parent(rows@, o, i as int, j)
                                            && v.depth == depth_of(o[j]) + 1;
                                        assert(depth_from_chain(rows@, o, root, root_depth, j));
                                        let mj = choose|mj: nat|
                                            #[trigger] hangs_below(rows@, root, j, mj) && depth_of(o[j])
                                                == root_depth + mj;
                                        assert(mj > 0);
                                        assert(hangs_below(rows@, root, i as int, mj + 1));
                                    }
                                } else {
                                    assert(o2[m] == o[m]);
                                    assert(depth_from_chain(rows@, o, root, root_depth, m));
                                    let mm = choose|mm: nat|
                                        #[trigger] hangs_below(rows@, root, m, mm) && depth_of(o[m])
                                            == root_depth + mm;
                                    assert(hangs_below(rows@, root, m, mm) && depth_of(o2[m])
                                        == root_depth + mm);
                                }
                            }
                        }
                        out.set(i, Some(v));
                        placed = placed + 1;
                        changed = true;
                    },
                    None => {},
                }
            }
            i = i + 1;
        }
        if !changed {
            done = true;
        }
    }
    out
}

} // verus!
