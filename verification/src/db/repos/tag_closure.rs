//! The closure table of the tag tree: one row (ancestor, descendant,
//! distance) for every tag and each of its ancestors, itself included at
//! distance 0. Creating a tag adds its rows and moving a tag relinks its
//! subtree; the laws below show that both keep the table equal to the
//! ancestor relation of the tree.
use vstd::prelude::*;

use super::tag_tree::TagRow;

verus! {

/// One row of the closure table.
#[derive(Debug, Clone, Copy)]
pub struct ClosureRow {
    pub ancestor_id: i64,
    pub descendant_id: i64,
    pub depth: i64,
}

/// Whether some row of `rows` has id `d`.
pub open spec fn has_tag(rows: Seq<TagRow>, d: i64) -> bool {
    exists|i: int| 0 <= i < rows.len() && #[trigger] rows[i].tag_id == d
}

/// Whether no two rows share an id.
pub open spec fn ids_unique(rows: Seq<TagRow>) -> bool {
    forall|i: int, j: int| 0 <= i < j < rows.len() ==> rows[i].tag_id != rows[j].tag_id
}

/// The parent of tag `d` in `rows` (`None` for a root or a missing tag).
pub open spec fn parent_in(rows: Seq<TagRow>, d: i64) -> Option<i64> {
    if has_tag(rows, d) {
        rows[choose|i: int| 0 <= i < rows.len() && #[trigger] rows[i].tag_id == d].parent_tag_id
    } else {
        None
    }
}

/// Whether `a` is the ancestor of tag `d` at distance `k` in the tree
/// `rows` (every tag is its own ancestor at distance 0).
pub open spec fn ancestor_at(rows: Seq<TagRow>, a: i64, d: i64, k: nat) -> bool
    decreases k,
{
    if k == 0 {
        has_tag(rows, d) && a == d
    } else {
        match parent_in(rows, d) {
            Some(p) => ancestor_at(rows, a, p, (k - 1) as nat),
            None => false,
        }
    }
}

/// Whether the closure table holds the row (`a`, `d`, `k`).
pub open spec fn closure_has(closure: Seq<ClosureRow>, a: i64, d: i64, k: int) -> bool {
    exists|j: int|
        0 <= j < closure.len() && #[trigger] closure[j].ancestor_id == a && closure[j].descendant_id
            == d && closure[j].depth == k
}

/// Whether the closure table is exactly the ancestor relation of `rows`.
pub open spec fn closure_exact(rows: Seq<TagRow>, closure: Seq<ClosureRow>) -> bool {
    forall|a: i64, d: i64, k: int|
        #![trigger closure_has(closure, a, d, k)]
        #![trigger ancestor_at(rows, a, d, k as nat)]
        closure_has(closure, a, d, k) <==> (k >= 0 && ancestor_at(rows, a, d, k as nat))
}

/// The row giving a new tag `new_id` the ancestor of its parent's row `r`,
/// one step further away.
pub open spec fn lifted(r: ClosureRow, new_id: i64) -> ClosureRow {
    ClosureRow { ancestor_id: r.ancestor_id, descendant_id: new_id, depth: (r.depth + 1) as i64 }
}

/// The rows a new tag `new_id` under `parent` adds to the closure table
/// `closure`: itself at distance 0, and each ancestor of the parent one
/// step further than from the parent.
pub open spec fn is_creation_row(
    closure: Seq<ClosureRow>,
    new_id: i64,
    parent: Option<i64>,
    x: ClosureRow,
) -> bool {
    ||| x == (ClosureRow { ancestor_id: new_id, descendant_id: new_id, depth: 0 })
    ||| parent matches Some(p) && exists|j: int|
        0 <= j < closure.len() && (#[trigger] closure[j]).descendant_id == p && x == lifted(
            closure[j],
            new_id,
        )
}

/// The closure rows to insert for a new tag `new_id` under `parent`, given
/// the closure table (only its rows for the parent matter).
pub fn creation_closure_rows(new_id: i64, parent: Option<i64>, closure: &[ClosureRow]) -> (r: Vec<
    ClosureRow,
>)
    requires
        forall|j: int| 0 <= j < closure@.len() ==> (#[trigger] closure@[j]).depth < i64::MAX,
    ensures
        r@[0] == (ClosureRow { ancestor_id: new_id, descendant_id: new_id, depth: 0 }),
        forall|x: ClosureRow| r@.contains(x) <==> is_creation_row(closure@, new_id, parent, x),
{
    let mut out: Vec<ClosureRow> = Vec::new();
    out.push(ClosureRow { ancestor_id: new_id, descendant_id: new_id, depth: 0 });
    let n = closure.len();
    let mut j: usize = 0;
    proof {
        let self_row = ClosureRow { ancestor_id: new_id, descendant_id: new_id, depth: 0 };
        assert forall|x: ClosureRow|
            out@.contains(x) <==> (x == self_row || (parent matches Some(p) && exists|m: int|
                0 <= m < 0 && (#[trigger] closure@[m]).descendant_id == p && x == lifted(
                    closure@[m],
                    new_id,
                ))) by {
            if x == self_row {
                assert(out@[0] == x);
            }
            if out@.contains(x) {
                let k = choose|k: int| 0 <= k < out@.len() && out@[k] == x;
                assert(k == 0);
            }
        }
    }
    while j < n
        invariant
            n == closure@.len(),
            j <= n,
            forall|m: int| 0 <= m < n ==> (#[trigger] closure@[m]).depth < i64::MAX,
            out@.len() >= 1,
            out@[0] == (ClosureRow { ancestor_id: new_id, descendant_id: new_id, depth: 0 }),
            forall|x: ClosureRow|
                out@.contains(x) <==> (x == (ClosureRow {
                    ancestor_id: new_id,
                    descendant_id: new_id,
                    depth: 0,
                }) || (parent matches Some(p) && exists|m: int|
                    0 <= m < j && (#[trigger] closure@[m]).descendant_id == p && x == lifted(
                        closure@[m],
                        new_id,
                    ))),
        decreases n - j,
    {
        let row = closure[j];
        let under = match parent {
            Some(p) => row.descendant_id == p,
            None => false,
        };
        let ghost before = out@;
        if under {
            out.push(
                ClosureRow { ancestor_id: row.ancestor_id, descendant_id: new_id, depth: row.depth + 1 },
            );
        }
        proof {
            assert forall|x: ClosureRow|
                out@.contains(x) <==> (x == (ClosureRow {
                    ancestor_id: new_id,
                    descendant_id: new_id,
                    depth: 0,
                }) || (parent matches Some(p) && exists|m: int|
                    0 <= m < j + 1 && (#[trigger] closure@[m]).descendant_id == p && x == lifted(
                        closure@[m],
                        new_id,
                    ))) by {
                if out@.contains(x) {
                    let k = choose|k: int| 0 <= k < out@.len() && out@[k] == x;
                    if k < before.len() {
                        assert(before[k] == x);
                        assert(before.contains(x));
                    }
                }
                if before.contains(x) {
                    let k = choose|k: int| 0 <= k < before.len() && before[k] == x;
                    assert(out@[k] == x);
                }
                if under && x == lifted(closure@[j as int], new_id) {
                    assert(out@[before.len() as int] == x);
                }
            }
        }
        j = j + 1;
    }
    out
}

proof fn lemma_other_tags_unchanged(rows: Seq<TagRow>, new_row: TagRow, d: i64)
    requires
        ids_unique(rows),
        !has_tag(rows, new_row.tag_id),
        d != new_row.tag_id,
    ensures
        has_tag(rows.push(new_row), d) == has_tag(rows, d),
        parent_in(rows.push(new_row), d) == parent_in(rows, d),
{
    let r2 = rows.push(new_row);
    if has_tag(rows, d) {
        let i = choose|i: int| 0 <= i < rows.len() && #[trigger] rows[i].tag_id == d;
        assert(r2[i].tag_id == d);
        let i2 = choose|i: int| 0 <= i < r2.len() && #[trigger] r2[i].tag_id == d;
        assert(i2 < rows.len());
        if i2 != i {
            if i2 < i {
                assert(rows[i2].tag_id != rows[i].tag_id);
            } else {
                assert(rows[i].tag_id != rows[i2].tag_id);
            }
        }
    }
    if has_tag(r2, d) {
        let i2 = choose|i: int| 0 <= i < r2.len() && #[trigger] r2[i].tag_id == d;
        assert(rows[i2].tag_id == d);
    }
}

proof fn lemma_ancestors_unchanged(rows: Seq<TagRow>, new_row: TagRow, a: i64, d: i64, k: nat)
    requires
        ids_unique(rows),
        !has_tag(rows, new_row.tag_id),
        forall|i: int| 0 <= i < rows.len() ==> (#[trigger] rows[i]).parent_tag_id != Some(
            new_row.tag_id,
        ),
        d != new_row.tag_id,
    ensures
        ancestor_at(rows.push(new_row), a, d, k) == ancestor_at(rows, a, d, k),
    decreases k,
{
    lemma_other_tags_unchanged(rows, new_row, d);
    if k > 0 {
        if let Some(p) = parent_in(rows, d) {
            let i = choose|i: int| 0 <= i < rows.len() && #[trigger] rows[i].tag_id == d;
            assert(rows[i].parent_tag_id == Some(p));
            lemma_ancestors_unchanged(rows, new_row, a, p, (k - 1) as nat);
        }
    }
}

/// Creating a tag keeps the closure table exact: when the table is the
/// ancestor relation of the tree, the table with the creation rows added is
/// the ancestor relation of the tree with the new tag, whose id is fresh and
/// whose parent, if any, exists.
pub proof fn lemma_creation_keeps_closure_exact(
    rows: Seq<TagRow>,
    closure: Seq<ClosureRow>,
    new_row: TagRow,
    added: Seq<ClosureRow>,
)
    requires
        ids_unique(rows),
        closure_exact(rows, closure),
        forall|j: int| 0 <= j < closure.len() ==> (#[trigger] closure[j]).depth < i64::MAX,
        !has_tag(rows, new_row.tag_id),
        forall|i: int| 0 <= i < rows.len() ==> (#[trigger] rows[i]).parent_tag_id != Some(
            new_row.tag_id,
        ),
        new_row.parent_tag_id matches Some(p) ==> has_tag(rows, p),
        forall|x: ClosureRow|
            added.contains(x) <==> is_creation_row(closure, new_row.tag_id, new_row.parent_tag_id, x),
    ensures
        ids_unique(rows.push(new_row)),
        closure_exact(rows.push(new_row), closure + added),
{
    let r2 = rows.push(new_row);
    let c2 = closure + added;
    let nid = new_row.tag_id;
    assert forall|i: int, j: int| 0 <= i < j < r2.len() implies r2[i].tag_id != r2[j].tag_id by {
        if j == rows.len() {
            assert(rows[i].tag_id == r2[i].tag_id);
        }
    }
    assert(r2[rows.len() as int].tag_id == nid);
    assert(has_tag(r2, nid));
    assert(parent_in(r2, nid) == new_row.parent_tag_id) by {
        let i2 = choose|i: int| 0 <= i < r2.len() && #[trigger] r2[i].tag_id == nid;
        if i2 < rows.len() {
            assert(rows[i2].tag_id == nid);
        }
    }
    assert forall|a: i64, d: i64, k: int|
        #![trigger closure_has(c2, a, d, k)]
        #![trigger ancestor_at(r2, a, d, k as nat)]
        closure_has(c2, a, d, k) <==> (k >= 0 && ancestor_at(r2, a, d, k as nat)) by {
        // rows of the combined table
        if closure_has(c2, a, d, k) {
            let j = choose|j: int|
                0 <= j < c2.len() && #[trigger] c2[j].ancestor_id == a && c2[j].descendant_id == d
                    && c2[j].depth == k;
            if j < closure.len() {
                assert(closure[j] == c2[j]);
                assert(closure_has(closure, a, d, k));
            } else {
                assert(added[j - closure.len()] == c2[j]);
                assert(added.contains(c2[j]));
            }
        }
        if d != nid {
            if k >= 0 {
                lemma_ancestors_unchanged(rows, new_row, a, d, k as nat);
            }
            // added rows all describe the new tag
            if closure_has(c2, a, d, k) {
                let j = choose|j: int|
                    0 <= j < c2.len() && #[trigger] c2[j].ancestor_id == a && c2[j].descendant_id
                        == d && c2[j].depth == k;
                if j >= closure.len() {
                    assert(added.contains(c2[j]));
                    assert(is_creation_row(closure, nid, new_row.parent_tag_id, c2[j]));
                }
            }
            if closure_has(closure, a, d, k) {
                let j = choose|j: int|
                    0 <= j < closure.len() && #[trigger] closure[j].ancestor_id == a
                        && closure[j].descendant_id == d && closure[j].depth == k;
                assert(c2[j] == closure[j]);
                assert(c2[j].ancestor_id == a && c2[j].descendant_id == d && c2[j].depth == k);
            }
        } else {
            // the new tag is nobody's row in the old table
            assert(!closure_has(closure, a, nid, k)) by {
                if closure_has(closure, a, nid, k) {
                    assert(ancestor_at(rows, a, nid, k as nat));
                }
            }
            if k == 0 && a == nid {
                let x = ClosureRow { ancestor_id: nid, descendant_id: nid, depth: 0 };
                assert(added.contains(x));
                let m = choose|m: int| 0 <= m < added.len() && added[m] == x;
                assert(c2[closure.len() + m] == x);
                assert(c2[closure.len() + m].ancestor_id == a && c2[closure.len() + m].descendant_id
                    == d && c2[closure.len() + m].depth == k);
            }
            if k > 0 {
                if let Some(p) = new_row.parent_tag_id {
                    lemma_ancestors_unchanged(rows, new_row, a, p, (k - 1) as nat);
                    if ancestor_at(rows, a, p, (k - 1) as nat) {
                        assert(closure_has(closure, a, p, k - 1));
                        let j = choose|j: int|
                            0 <= j < closure.len() && #[trigger] closure[j].ancestor_id == a
                                && closure[j].descendant_id == p && closure[j].depth == k - 1;
                        let x = lifted(closure[j], nid);
                        assert(is_creation_row(closure, nid, new_row.parent_tag_id, x));
                        assert(added.contains(x));
                        let m = choose|m: int| 0 <= m < added.len() && added[m] == x;
                        assert(c2[closure.len() + m] == x);
                        assert(c2[closure.len() + m].ancestor_id == a && c2[closure.len()
                            + m].descendant_id == d && c2[closure.len() + m].depth == k);
                    }
                }
            }
            if closure_has(c2, a, nid, k) {
                let j = choose|j: int|
                    0 <= j < c2.len() && #[trigger] c2[j].ancestor_id == a && c2[j].descendant_id
                        == nid && c2[j].depth == k;
                assert(j >= closure.len());
                let x = c2[j];
                assert(added[j - closure.len()] == x);
                assert(added.contains(x));
                assert(is_creation_row(closure, nid, new_row.parent_tag_id, x));
                if x != (ClosureRow { ancestor_id: nid, descendant_id: nid, depth: 0 }) {
                    let p = new_row.parent_tag_id->0;
                    let jj = choose|jj: int|
                        0 <= jj < closure.len() && (#[trigger] closure[jj]).descendant_id == p
                            && x == lifted(closure[jj], nid);
                    assert(closure_has(closure, a, p, closure[jj].depth as int));
                    lemma_ancestors_unchanged(rows, new_row, a, p, closure[jj].depth as nat);
                }
            }
        }
    }
}

/// Whether tag `d` is in the subtree of `t` according to the closure table.
pub open spec fn in_subtree(closure: Seq<ClosureRow>, t: i64, d: i64) -> bool {
    exists|j: int|
        0 <= j < closure.len() && #[trigger] closure[j].ancestor_id == t && closure[j].descendant_id
            == d
}

/// Whether a closure row survives moving tag `t`: rows linking the moved
/// subtree to an ancestor outside it are dropped.
pub open spec fn kept_on_move(closure: Seq<ClosureRow>, t: i64, x: ClosureRow) -> bool {
    !(in_subtree(closure, t, x.descendant_id) && !in_subtree(closure, t, x.ancestor_id))
}

/// The row joining an ancestor row `up` of the new parent and a row `down`
/// of the moved subtree.
pub open spec fn bridge(up: ClosureRow, down: ClosureRow) -> ClosureRow {
    ClosureRow {
        ancestor_id: up.ancestor_id,
        descendant_id: down.descendant_id,
        depth: (up.depth + down.depth + 1) as i64,
    }
}

/// Whether `x` links an ancestor of the new parent `np` (itself included)
/// to a tag of the moved subtree of `t`.
pub open spec fn bridged_on_move(
    closure: Seq<ClosureRow>,
    t: i64,
    np: Option<i64>,
    x: ClosureRow,
) -> bool {
    np matches Some(p) && exists|j1: int, j2: int|
        0 <= j1 < closure.len() && 0 <= j2 < closure.len() && (#[trigger] closure[j1]).descendant_id
            == p && (#[trigger] closure[j2]).ancestor_id == t && x == bridge(closure[j1], closure[j2])
}

/// Largest distance a closure row may hold, so that joined distances fit.
pub const MAX_CLOSURE_DEPTH: i64 = 0x3fff_ffff_ffff_ffff;

fn subtree_has(closure: &[ClosureRow], t: i64, d: i64) -> (r: bool)
    ensures
        r == in_subtree(closure@, t, d),
{
    let n = closure.len();
    let mut j: usize = 0;
    while j < n
        invariant
            n == closure@.len(),
            j <= n,
            forall|m: int|
                0 <= m < j ==> !(#[trigger] closure@[m].ancestor_id == t && closure@[m].descendant_id
                    == d),
        decreases n - j,
    {
        if closure[j].ancestor_id == t && closure[j].descendant_id == d {
            return true;
        }
        j = j + 1;
    }
    false
}

/// Whether `x` joins an ancestor row among the first `j1` rows of
/// `closure` (a row ending at the new parent `p`) with a row of the subtree
/// of `t`.
#[verifier::opaque]
spec fn bridged_upto(closure: Seq<ClosureRow>, t: i64, p: i64, j1: int, x: ClosureRow) -> bool {
    exists|a: int, b: int|
        0 <= a < j1 && 0 <= b < closure.len() && (#[trigger] closure[a]).descendant_id == p
            && (#[trigger] closure[b]).ancestor_id == t && x == bridge(closure[a], closure[b])
}

/// Whether `x` joins row `a` of `closure` (a row ending at `p`) with one of
/// the first `j2` rows, when that row starts at `t`.
#[verifier::opaque]
spec fn bridged_row(closure: Seq<ClosureRow>, t: i64, p: i64, a: int, j2: int, x: ClosureRow) -> bool {
    closure[a].descendant_id == p && exists|b: int|
        0 <= b < j2 && (#[trigger] closure[b]).ancestor_id == t && x == bridge(closure[a], closure[b])
}

proof fn lemma_bridged_step(closure: Seq<ClosureRow>, t: i64, p: i64, j1: int, x: ClosureRow)
    requires
        0 <= j1 < closure.len(),
    ensures
        bridged_upto(closure, t, p, j1 + 1, x) <==> (bridged_upto(closure, t, p, j1, x) || bridged_row(
            closure,
            t,
            p,
            j1,
            closure.len() as int,
            x,
        )),
{
    reveal(bridged_upto);
    reveal(bridged_row);
    if bridged_upto(closure, t, p, j1 + 1, x) {
        let (a, b) = choose|a: int, b: int|
            0 <= a < j1 + 1 && 0 <= b < closure.len() && (#[trigger] closure[a]).descendant_id == p
                && (#[trigger] closure[b]).ancestor_id == t && x == bridge(closure[a], closure[b]);
        if a < j1 {
            assert(bridged_upto(closure, t, p, j1, x));
        } else {
            assert(closure[b].ancestor_id == t);
        }
    }
    if bridged_row(closure, t, p, j1, closure.len() as int, x) {
        let b = choose|b: int|
            0 <= b < closure.len() && (#[trigger] closure[b]).ancestor_id == t && x == bridge(
                closure[j1],
                closure[b],
            );
        assert(closure[j1].descendant_id == p);
    }
}

proof fn lemma_bridged_row_step(
    closure: Seq<ClosureRow>,
    t: i64,
    p: i64,
    a: int,
    j2: int,
    x: ClosureRow,
)
    requires
        0 <= j2 < closure.len(),
    ensures
        bridged_row(closure, t, p, a, j2 + 1, x) <==> (bridged_row(closure, t, p, a, j2, x) || (
        closure[a].descendant_id == p && closure[j2].ancestor_id == t && x == bridge(
            closure[a],
            closure[j2],
        ))),
{
    reveal(bridged_row);
    if bridged_row(closure, t, p, a, j2 + 1, x) {
        let b = choose|b: int|
            0 <= b < j2 + 1 && (#[trigger] closure[b]).ancestor_id == t && x == bridge(
                closure[a],
                closure[b],
            );
        if b < j2 {
            assert(bridged_row(closure, t, p, a, j2, x));
        }
    }
}

/// The closure table after moving tag `t` under `new_parent` (or to the
/// root): the rows linking the moved subtree to its former ancestors are
/// dropped, and every ancestor of the new parent is linked to every tag of
/// the subtree.
pub fn moved_closure(t: i64, new_parent: Option<i64>, closure: &[ClosureRow]) -> (r: Vec<ClosureRow>)
    requires
        forall|j: int|
            0 <= j < closure@.len() ==> 0 <= (#[trigger] closure@[j]).depth <= MAX_CLOSURE_DEPTH,
    ensures
        forall|x: ClosureRow|
            r@.contains(x) <==> ((closure@.contains(x) && kept_on_move(closure@, t, x))
                || bridged_on_move(closure@, t, new_parent, x)),
{
    let n = closure.len();
    let mut out: Vec<ClosureRow> = Vec::new();
    let mut j: usize = 0;
    while j < n
        invariant
            n == closure@.len(),
            j <= n,
            forall|x: ClosureRow|
                out@.contains(x) <==> (exists|m: int|
                    0 <= m < j && #[trigger] closure@[m] == x && kept_on_move(closure@, t, x)),
        decreases n - j,
    {
        let x = closure[j];
        let keep = !(subtree_has(closure, t, x.descendant_id) && !subtree_has(
            closure,
            t,
            x.ancestor_id,
        ));
        let ghost before = out@;
        if keep {
            out.push(x);
        }
        proof {
            assert forall|y: ClosureRow|
                out@.contains(y) <==> (exists|m: int|
                    0 <= m < j + 1 && #[trigger] closure@[m] == y && kept_on_move(closure@, t, y)) by {
                if out@.contains(y) {
                    let k = choose|k: int| 0 <= k < out@.len() && out@[k] == y;
                    if k < before.len() {
                        assert(before[k] == y);
                        assert(before.contains(y));
                    }
                }
                if exists|m: int|
                    0 <= m < j + 1 && #[trigger] closure@[m] == y && kept_on_move(closure@, t, y) {
                    let m = choose|m: int|
                        0 <= m < j + 1 && #[trigger] closure@[m] == y && kept_on_move(closure@, t, y);
                    if m < j {
                        assert(before.contains(y));
                        let k = choose|k: int| 0 <= k < before.len() && before[k] == y;
                        assert(out@[k] == y);
                    } else {
                        assert(out@[before.len() as int] == y);
                    }
                }
            }
        }
        j = j + 1;
    }
    let ghost kept = out@;
    proof {
        assert forall|x: ClosureRow|
            kept.contains(x) <==> (closure@.contains(x) && kept_on_move(closure@, t, x)) by {
            if closure@.contains(x) && kept_on_move(closure@, t, x) {
                let m = choose|m: int| 0 <= m < closure@.len() && closure@[m] == x;
                assert(closure@[m] == x);
            }
        }
    }
    match new_parent {
        None => {},
        Some(p) => {
            proof {
                assert forall|x: ClosureRow| !bridged_upto(closure@, t, p, 0, x) by {
                    reveal(bridged_upto);
                }
            }
            let mut j1: usize = 0;
            while j1 < n
                invariant
                    n == closure@.len(),
                    j1 <= n,
                    forall|m: int|
                        0 <= m < n ==> 0 <= (#[trigger] closure@[m]).depth <= MAX_CLOSURE_DEPTH,
                    forall|x: ClosureRow|
                        #[trigger] out@.contains(x) <==> (kept.contains(x) || bridged_upto(
                            closure@,
                            t,
                            p,
                            j1 as int,
                            x,
                        )),
                decreases n - j1,
            {
                let up = closure[j1];
                proof {
                    assert forall|x: ClosureRow|
                        !bridged_row(closure@, t, p, j1 as int, 0, x) by {
                        reveal(bridged_row);
                    }
                }
                let mut j2: usize = 0;
                while j2 < n
                    invariant
                        n == closure@.len(),
                        j1 < n,
                        j2 <= n,
                        up == closure@[j1 as int],
                        forall|m: int|
                            0 <= m < n ==> 0 <= (#[trigger] closure@[m]).depth
                                <= MAX_CLOSURE_DEPTH,
                        forall|x: ClosureRow|
                            #[trigger] out@.contains(x) <==> (kept.contains(x) || bridged_upto(
                                closure@,
                                t,
                                p,
                                j1 as int,
                                x,
                            ) || bridged_row(closure@, t, p, j1 as int, j2 as int, x)),
                    decreases n - j2,
                {
                    let down = closure[j2];
                    let ghost before = out@;
                    let joins = up.descendant_id == p && down.ancestor_id == t;
                    if joins {
                        out.push(
                            ClosureRow {
                                ancestor_id: up.ancestor_id,
                                descendant_id: down.descendant_id,
                                depth: up.depth + down.depth + 1,
                            },
                        );
                    }
                    proof {
                        let new_row = bridge(up, down);
                        assert forall|x: ClosureRow|
                            #[trigger] out@.contains(x) <==> (kept.contains(x) || bridged_upto(
                                closure@,
                                t,
                                p,
                                j1 as int,
                                x,
                            ) || bridged_row(closure@, t, p, j1 as int, j2 + 1, x)) by {
                            lemma_bridged_row_step(closure@, t, p, j1 as int, j2 as int, x);
                            if out@.contains(x) {
                                let k = choose|k: int| 0 <= k < out@.len() && out@[k] == x;
                                if k < before.len() {
                                    assert(before[k] == x);
                                    assert(before.contains(x));
                                } else {
                                    assert(x == new_row);
                                }
                            }
                            if before.contains(x) {
                                let k = choose|k: int| 0 <= k < before.len() && before[k] == x;
                                assert(out@[k] == x);
                            }
                            if joins && x == new_row {
                                assert(out@[before.len() as int] == x);
                            }
                        }
                    }
                    j2 = j2 + 1;
                }
                proof {
                    assert forall|x: ClosureRow|
                        #[trigger] out@.contains(x) <==> (kept.contains(x) || bridged_upto(
                            closure@,
                            t,
                            p,
                            j1 + 1,
                            x,
                        )) by {
                        lemma_bridged_step(closure@, t, p, j1 as int, x);
                    }
                }
                j1 = j1 + 1;
            }
            proof {
                assert forall|x: ClosureRow|
                    bridged_upto(closure@, t, p, n as int, x) <==> bridged_on_move(
                        closure@,
                        t,
                        new_parent,
                        x,
                    ) by {
                    reveal(bridged_upto);
                }
            }
        },
    }
    out
}

/// The tree after tag `t` takes `np` as its parent.
pub open spec fn reparented(rows: Seq<TagRow>, t: i64, np: Option<i64>) -> Seq<TagRow> {
    rows.map_values(
        |r: TagRow|
            if r.tag_id == t {
                TagRow { tag_id: r.tag_id, parent_tag_id: np, slug: r.slug }
            } else {
                r
            },
    )
}

/// Whether no tag is its own proper ancestor.
pub open spec fn acyclic(rows: Seq<TagRow>) -> bool {
    forall|d: i64, k: nat| k > 0 ==> !#[trigger] ancestor_at(rows, d, d, k)
}

/// Whether `d` is `t` or below it.
pub open spec fn below(rows: Seq<TagRow>, t: i64, d: i64) -> bool {
    exists|k: nat| #[trigger] ancestor_at(rows, t, d, k)
}

proof fn lemma_reparented_parent(rows: Seq<TagRow>, t: i64, np: Option<i64>, d: i64)
    requires
        ids_unique(rows),
    ensures
        ids_unique(reparented(rows, t, np)),
        has_tag(reparented(rows, t, np), d) == has_tag(rows, d),
        parent_in(reparented(rows, t, np), d) == (if d == t && has_tag(rows, d) {
            np
        } else {
            parent_in(rows, d)
        }),
{
    let r2 = reparented(rows, t, np);
    assert forall|i: int| 0 <= i < rows.len() implies #[trigger] r2[i].tag_id == rows[i].tag_id by {}
    if has_tag(rows, d) {
        let i = choose|i: int| 0 <= i < rows.len() && #[trigger] rows[i].tag_id == d;
        assert(r2[i].tag_id == d);
        let i2 = choose|i: int| 0 <= i < r2.len() && #[trigger] r2[i].tag_id == d;
        assert(rows[i2].tag_id == d);
        if i2 != i {
            if i2 < i {
                assert(rows[i2].tag_id != rows[i].tag_id);
            } else {
                assert(rows[i].tag_id != rows[i2].tag_id);
            }
        }
    }
    if has_tag(r2, d) {
        let i2 = choose|i: int| 0 <= i < r2.len() && #[trigger] r2[i].tag_id == d;
        assert(rows[i2].tag_id == d);
    }
}

proof fn lemma_compose(rows: Seq<TagRow>, x: i64, y: i64, z: i64, k1: nat, k2: nat)
    requires
        ancestor_at(rows, x, y, k1),
        ancestor_at(rows, y, z, k2),
    ensures
        ancestor_at(rows, x, z, k1 + k2),
    decreases k2,
{
    if k2 > 0 {
        let w = parent_in(rows, z)->0;
        lemma_compose(rows, x, y, w, k1, (k2 - 1) as nat);
        assert(((k1 + k2) - 1) as nat == k1 + (k2 - 1) as nat);
    }
}

proof fn lemma_outside_unchanged(
    rows: Seq<TagRow>,
    t: i64,
    np: Option<i64>,
    a: i64,
    d: i64,
    k: nat,
)
    requires
        ids_unique(rows),
        !below(rows, t, d),
    ensures
        ancestor_at(reparented(rows, t, np), a, d, k) == ancestor_at(rows, a, d, k),
    decreases k,
{
    lemma_reparented_parent(rows, t, np, d);
    if has_tag(rows, d) && d == t {
        assert(ancestor_at(rows, t, d, 0));
    }
    if k > 0 {
        if let Some(q) = parent_in(rows, d) {
            assert(!below(rows, t, q)) by {
                if below(rows, t, q) {
                    let m = choose|m: nat| #[trigger] ancestor_at(rows, t, q, m);
                    assert(ancestor_at(rows, t, d, m + 1));
                }
            }
            lemma_outside_unchanged(rows, t, np, a, q, (k - 1) as nat);
        }
    }
}

/// The ancestors of tag `d` at distance `k` after the move.
pub open spec fn moved_ancestor(
    rows: Seq<TagRow>,
    t: i64,
    np: Option<i64>,
    a: i64,
    d: i64,
    k: nat,
) -> bool {
    ||| ancestor_at(rows, a, d, k) && !(below(rows, t, d) && !below(rows, t, a))
    ||| np matches Some(p) && exists|ka: nat, kd: nat|
        #[trigger] ancestor_at(rows, a, p, ka) && #[trigger] ancestor_at(rows, t, d, kd) && k == ka
            + kd + 1
}

proof fn lemma_move_ancestors(
    rows: Seq<TagRow>,
    t: i64,
    np: Option<i64>,
    a: i64,
    d: i64,
    k: nat,
)
    requires
        ids_unique(rows),
        acyclic(rows),
        has_tag(rows, t),
        np matches Some(p) ==> has_tag(rows, p) && !below(rows, t, p),
    ensures
        ancestor_at(reparented(rows, t, np), a, d, k) == moved_ancestor(rows, t, np, a, d, k),
    decreases k,
{
    let r2 = reparented(rows, t, np);
    lemma_reparented_parent(rows, t, np, d);
    assert(ancestor_at(rows, t, t, 0));
    if k == 0 {
        if let Some(p) = np {
            if exists|ka: nat, kd: nat|
                #[trigger] ancestor_at(rows, a, p, ka) && #[trigger] ancestor_at(rows, t, d, kd) && k
                    == ka + kd + 1 {
                assert(false);
            }
        }
    } else if d == t {
        // the first disjunct would close a cycle through `t`
        assert(!(ancestor_at(rows, a, t, k) && below(rows, t, a))) by {
            if ancestor_at(rows, a, t, k) && below(rows, t, a) {
                let m = choose|m: nat| #[trigger] ancestor_at(rows, t, a, m);
                lemma_compose(rows, t, a, t, m, k);
                assert(ancestor_at(rows, t, t, m + k));
            }
        }
        if let Some(p) = np {
            lemma_outside_unchanged(rows, t, np, a, p, (k - 1) as nat);
            if ancestor_at(rows, a, p, (k - 1) as nat) {
                assert(ancestor_at(rows, t, d, 0));
                assert(k == (k - 1) as nat + 0 + 1);
            }
            if exists|ka: nat, kd: nat|
                #[trigger] ancestor_at(rows, a, p, ka) && #[trigger] ancestor_at(rows, t, d, kd) && k
                    == ka + kd + 1 {
                let (ka, kd) = choose|ka: nat, kd: nat|
                    #[trigger] ancestor_at(rows, a, p, ka) && #[trigger] ancestor_at(rows, t, d, kd)
                        && k == ka + kd + 1;
                if kd > 0 {
                    assert(ancestor_at(rows, t, t, kd));
                }
                assert(ka == (k - 1) as nat);
            }
        }
    } else {
        match parent_in(rows, d) {
            None => {
                if let Some(p) = np {
                    if exists|ka: nat, kd: nat|
                        #[trigger] ancestor_at(rows, a, p, ka) && #[trigger] ancestor_at(
                            rows,
                            t,
                            d,
                            kd,
                        ) && k == ka + kd + 1 {
                        let (ka, kd) = choose|ka: nat, kd: nat|
                            #[trigger] ancestor_at(rows, a, p, ka) && #[trigger] ancestor_at(
                                rows,
                                t,
                                d,
                                kd,
                            ) && k == ka + kd + 1;
                        assert(kd > 0);
                    }
                }
            },
            Some(q) => {
                lemma_move_ancestors(rows, t, np, a, q, (k - 1) as nat);
                // below(d) iff below(q)
                if below(rows, t, d) {
                    let m = choose|m: nat| #[trigger] ancestor_at(rows, t, d, m);
                    assert(m > 0);
                    assert(ancestor_at(rows, t, q, (m - 1) as nat));
                }
                if below(rows, t, q) {
                    let m = choose|m: nat| #[trigger] ancestor_at(rows, t, q, m);
                    assert(ancestor_at(rows, t, d, m + 1));
                }
                if let Some(p) = np {
                    if exists|ka: nat, kd: nat|
                        #[trigger] ancestor_at(rows, a, p, ka) && #[trigger] ancestor_at(
                            rows,
                            t,
                            d,
                            kd,
                        ) && k == ka + kd + 1 {
                        let (ka, kd) = choose|ka: nat, kd: nat|
                            #[trigger] ancestor_at(rows, a, p, ka) && #[trigger] ancestor_at(
                                rows,
                                t,
                                d,
                                kd,
                            ) && k == ka + kd + 1;
                        assert(kd > 0);
                        assert(ancestor_at(rows, t, q, (kd - 1) as nat));
                        assert((k - 1) as nat == ka + (kd - 1) as nat + 1);
                    }
                    if exists|ka: nat, kd: nat|
                        #[trigger] ancestor_at(rows, a, p, ka) && #[trigger] ancestor_at(
                            rows,
                            t,
                            q,
                            kd,
                        ) && (k - 1) as nat == ka + kd + 1 {
                        let (ka, kd) = choose|ka: nat, kd: nat|
                            #[trigger] ancestor_at(rows, a, p, ka) && #[trigger] ancestor_at(
                                rows,
                                t,
                                q,
                                kd,
                            ) && (k - 1) as nat == ka + kd + 1;
                        assert(ancestor_at(rows, t, d, kd + 1));
                        assert(k == ka + (kd + 1) + 1);
                    }
                }
            },
        }
    }
}

/// Moving a tag keeps the closure table exact: when the table is the
/// ancestor relation of an acyclic tree and the tag moves under a tag that
/// exists outside its own subtree (or to the root), the table `moved_closure`
/// computes is the ancestor relation of the tree with the tag's parent
/// replaced.
pub proof fn lemma_move_keeps_closure_exact(
    rows: Seq<TagRow>,
    closure: Seq<ClosureRow>,
    t: i64,
    np: Option<i64>,
    moved: Seq<ClosureRow>,
)
    requires
        ids_unique(rows),
        acyclic(rows),
        closure_exact(rows, closure),
        forall|j: int| 0 <= j < closure.len() ==> 0 <= (#[trigger] closure[j]).depth <= MAX_CLOSURE_DEPTH,
        has_tag(rows, t),
        np matches Some(p) ==> has_tag(rows, p) && !below(rows, t, p),
        forall|x: ClosureRow|
            moved.contains(x) <==> ((closure.contains(x) && kept_on_move(closure, t, x))
                || bridged_on_move(closure, t, np, x)),
    ensures
        ids_unique(reparented(rows, t, np)),
        closure_exact(reparented(rows, t, np), moved),
{
    let r2 = reparented(rows, t, np);
    lemma_reparented_parent(rows, t, np, t);
    // subtree membership read from the table is `below`
    assert forall|x: i64| in_subtree(closure, t, x) == below(rows, t, x) by {
        if in_subtree(closure, t, x) {
            let j = choose|j: int|
                0 <= j < closure.len() && #[trigger] closure[j].ancestor_id == t
                    && closure[j].descendant_id == x;
            assert(closure_has(closure, t, x, closure[j].depth as int));
            assert(ancestor_at(rows, t, x, closure[j].depth as nat));
        }
        if below(rows, t, x) {
            let m = choose|m: nat| #[trigger] ancestor_at(rows, t, x, m);
            assert(closure_has(closure, t, x, m as int));
            let j = choose|j: int|
                0 <= j < closure.len() && #[trigger] closure[j].ancestor_id == t
                    && closure[j].descendant_id == x && closure[j].depth == m as int;
        }
    }
    assert forall|a: i64, d: i64, k: int|
        #![trigger closure_has(moved, a, d, k)]
        #![trigger ancestor_at(r2, a, d, k as nat)]
        closure_has(moved, a, d, k) <==> (k >= 0 && ancestor_at(r2, a, d, k as nat)) by {
        let x = ClosureRow { ancestor_id: a, descendant_id: d, depth: k as i64 };
        if k >= 0 {
            lemma_move_ancestors(rows, t, np, a, d, k as nat);
        }
        if closure_has(moved, a, d, k) {
            let j = choose|j: int|
                0 <= j < moved.len() && #[trigger] moved[j].ancestor_id == a
                    && moved[j].descendant_id == d && moved[j].depth == k;
            let y = moved[j];
            assert(moved.contains(y));
            if closure.contains(y) && kept_on_move(closure, t, y) {
                let i = choose|i: int| 0 <= i < closure.len() && closure[i] == y;
                assert(closure_has(closure, a, d, k));
            } else {
                let p = np->0;
                let (j1, j2) = choose|j1: int, j2: int|
                    0 <= j1 < closure.len() && 0 <= j2 < closure.len() && (#[trigger] closure[j1]).descendant_id
                        == p && (#[trigger] closure[j2]).ancestor_id == t && y == bridge(closure[j1], closure[j2]);
                let ka = closure[j1].depth;
                let kd = closure[j2].depth;
                assert(closure_has(closure, a, p, ka as int));
                assert(closure_has(closure, t, d, kd as int));
                assert(ancestor_at(rows, a, p, ka as nat));
                assert(ancestor_at(rows, t, d, kd as nat));
                assert(k == ka + kd + 1);
                assert(k as nat == ka as nat + kd as nat + 1);
            }
        }
        if k >= 0 && ancestor_at(r2, a, d, k as nat) {
            if ancestor_at(rows, a, d, k as nat) && !(below(rows, t, d) && !below(rows, t, a)) {
                assert(closure_has(closure, a, d, k));
                let i = choose|i: int|
                    0 <= i < closure.len() && #[trigger] closure[i].ancestor_id == a
                        && closure[i].descendant_id == d && closure[i].depth == k;
                assert(closure[i] == x);
                assert(closure.contains(x));
                assert(kept_on_move(closure, t, x));
                assert(moved.contains(x));
                let m = choose|m: int| 0 <= m < moved.len() && moved[m] == x;
                assert(moved[m].ancestor_id == a && moved[m].descendant_id == d && moved[m].depth == k);
            } else {
                let p = np->0;
                let (ka, kd) = choose|ka: nat, kd: nat|
                    #[trigger] ancestor_at(rows, a, p, ka) && #[trigger] ancestor_at(rows, t, d, kd)
                        && k == ka + kd + 1;
                assert(closure_has(closure, a, p, ka as int));
                assert(closure_has(closure, t, d, kd as int));
                let j1 = choose|j1: int|
                    0 <= j1 < closure.len() && #[trigger] closure[j1].ancestor_id == a
                        && closure[j1].descendant_id == p && closure[j1].depth == ka as int;
                let j2 = choose|j2: int|
                    0 <= j2 < closure.len() && #[trigger] closure[j2].ancestor_id == t
                        && closure[j2].descendant_id == d && closure[j2].depth == kd as int;
                assert(bridge(closure[j1], closure[j2]) == x);
                assert(bridged_on_move(closure, t, np, x));
                assert(moved.contains(x));
                let m = choose|m: int| 0 <= m < moved.len() && moved[m] == x;
                assert(moved[m].ancestor_id == a && moved[m].descendant_id == d && moved[m].depth == k);
            }
        }
    }
}

} // verus!
