//! Pure parts of the fragment repository.
use vstd::prelude::*;

use crate::domain::fragment::{Fragment, FragmentInsertRow};

verus! {

/// A fragment with its note's title and path.
#[derive(Debug, Clone)]
pub struct FragmentWithNote {
    pub fragment: Fragment,
    pub note_path: Option<String>,
    pub note_title: String,
}

/// Whether `rows[i]` is the first row of `rows` with its clean hash.
pub open spec fn first_with_hash(rows: Seq<FragmentInsertRow>, i: int) -> bool {
    forall|j: int| 0 <= j < i ==> rows[j].clean_hash@ != rows[i].clean_hash@
}

/// Indices of the rows of a batch that are inserted: the first row of each
/// clean hash, in order; later rows with a hash already seen are skipped.
pub fn rows_to_insert(rows: &[FragmentInsertRow]) -> (r: Vec<usize>)
    ensures
        forall|a: int, b: int| 0 <= a < b < r@.len() ==> r@[a] < r@[b],
        forall|k: int| 0 <= k < r@.len() ==> (#[trigger] r@[k]) < rows@.len(),
        forall|i: int|
            0 <= i < rows@.len() ==> (r@.contains(i as usize) <==> first_with_hash(rows@, i)),
{
    let n = rows.len();
    let mut out: Vec<usize> = Vec::new();
    let mut i: usize = 0;
    while i < n
        invariant
            n == rows@.len(),
            i <= n,
            forall|a: int, b: int| 0 <= a < b < out@.len() ==> out@[a] < out@[b],
            forall|k: int| 0 <= k < out@.len() ==> (#[trigger] out@[k]) < i,
            forall|m: int| 0 <= m < i ==> (out@.contains(m as usize) <==> first_with_hash(rows@, m)),
        decreases n - i,
    {
        let mut seen = false;
        let mut j: usize = 0;
        while j < i
            invariant
                n == rows@.len(),
                i < n,
                j <= i,
                seen <==> exists|m: int| 0 <= m < j && rows@[m].clean_hash@ == rows@[i as int].clean_hash@,
            decreases i - j,
        {
            if rows[j].clean_hash == rows[i].clean_hash {
                seen = true;
            }
            j = j + 1;
        }
        let ghost before = out@;
        if !seen {
            out.push(i);
        }
        proof {
            assert forall|m: int| 0 <= m < i + 1 implies (out@.contains(m as usize) <==> first_with_hash(rows@, m)) by {
                if m < i {
                    if out@.contains(m as usize) {
                        let k = choose|k: int| 0 <= k < out@.len() && out@[k] == m as usize;
                        if k < before.len() {
                            assert(before[k] == m as usize);
                        }
                    }
                    if before.contains(m as usize) {
                        let k = choose|k: int| 0 <= k < before.len() && before[k] == m as usize;
                        assert(out@[k] == m as usize);
                    }
                } else {
                    if !seen {
                        assert(out@[before.len() as int] == i);
                    } else {
                        let w = choose|w: int| 0 <= w < i && rows@[w].clean_hash@ == rows@[i as int].clean_hash@;
                        if out@.contains(m as usize) {
                            let k = choose|k: int| 0 <= k < out@.len() && out@[k] == m as usize;
                            assert(before[k] < i);
                        }
                    }
                }
            }
        }
        i = i + 1;
    }
    out
}

proof fn lemma_first_occurrence(rows: Seq<FragmentInsertRow>, i: int)
    requires
        0 <= i < rows.len(),
    ensures
        exists|j: int|
            0 <= j <= i && first_with_hash(rows, j) && #[trigger] rows[j].clean_hash@
                == rows[i].clean_hash@,
    decreases i,
{
    if !first_with_hash(rows, i) {
        let j0 = choose|j: int| 0 <= j < i && rows[j].clean_hash@ == rows[i].clean_hash@;
        lemma_first_occurrence(rows, j0);
        let j = choose|j: int|
            0 <= j <= j0 && first_with_hash(rows, j) && #[trigger] rows[j].clean_hash@
                == rows[j0].clean_hash@;
        assert(rows[j].clean_hash@ == rows[i].clean_hash@);
    } else {
        assert(rows[i].clean_hash@ == rows[i].clean_hash@);
    }
}

/// The rows kept from a batch carry pairwise different clean hashes, and
/// every clean hash of the batch is carried by a kept row.
pub proof fn lemma_kept_rows_cover_batch_once(rows: Seq<FragmentInsertRow>, kept: Seq<usize>)
    requires
        rows.len() <= usize::MAX,
        forall|k: int| 0 <= k < kept.len() ==> (#[trigger] kept[k]) < rows.len(),
        forall|i: int| 0 <= i < rows.len() ==> (kept.contains(i as usize) <==> first_with_hash(rows, i)),
    ensures
        forall|a: int, b: int|
            0 <= a < kept.len() && 0 <= b < kept.len() && kept[a] != kept[b] ==> rows[kept[a] as int].clean_hash@
                != rows[kept[b] as int].clean_hash@,
        forall|i: int|
            0 <= i < rows.len() ==> exists|k: int|
                0 <= k < kept.len() && rows[#[trigger] kept[k] as int].clean_hash@ == (
                #[trigger] rows[i]).clean_hash@,
{
    assert forall|a: int, b: int|
        0 <= a < kept.len() && 0 <= b < kept.len() && kept[a] != kept[b] implies rows[kept[a] as int].clean_hash@
            != rows[kept[b] as int].clean_hash@ by {
        let x = kept[a] as int;
        let y = kept[b] as int;
        assert(kept.contains(x as usize));
        assert(kept.contains(y as usize));
        assert(first_with_hash(rows, x));
        assert(first_with_hash(rows, y));
    }
    assert forall|i: int| 0 <= i < rows.len() implies exists|k: int|
        0 <= k < kept.len() && rows[#[trigger] kept[k] as int].clean_hash@ == (
        #[trigger] rows[i]).clean_hash@ by {
        lemma_first_occurrence(rows, i);
        let j = choose|j: int|
            0 <= j <= i && first_with_hash(rows, j) && #[trigger] rows[j].clean_hash@
                == rows[i].clean_hash@;
        assert(kept.contains(j as usize));
        let k = choose|k: int| 0 <= k < kept.len() && kept[k] == j as usize;
        assert(rows[kept[k] as int].clean_hash@ == rows[i].clean_hash@);
    }
}

/// Number of `f32` values in an embedding of `len` bytes.
pub fn embedding_dim(len: usize) -> (r: usize)
    ensures
        r == len / 4,
{
    len / 4
}

} // verus!
