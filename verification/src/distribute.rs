//! Embedding bookkeeping of the draft distribution pipeline: which fragments
//! need a freshly computed embedding, and where the computed ones go.
use vstd::prelude::*;

verus! {

/// Indices of the fragments whose embedding was not found in the cache,
/// in order.
pub fn cache_misses(cached: &[Option<Vec<u8>>]) -> (r: Vec<usize>)
    ensures
        forall|a: int, b: int| 0 <= a < b < r@.len() ==> r@[a] < r@[b],
        forall|k: int| 0 <= k < r@.len() ==> (#[trigger] r@[k]) < cached@.len(),
        forall|i: int|
            0 <= i < cached@.len() ==> (r@.contains(i as usize) <==> cached@[i] is None),
{
    let n = cached.len();
    let mut out: Vec<usize> = Vec::new();
    let mut i: usize = 0;
    while i < n
        invariant
            n == cached@.len(),
            i <= n,
            forall|a: int, b: int| 0 <= a < b < out@.len() ==> out@[a] < out@[b],
            forall|k: int| 0 <= k < out@.len() ==> (#[trigger] out@[k]) < i,
            forall|m: int| 0 <= m < i ==> (out@.contains(m as usize) <==> cached@[m] is None),
        decreases n - i,
    {
        let ghost before = out@;
        if cached[i].is_none() {
            out.push(i);
        }
        proof {
            assert forall|m: int| 0 <= m < i + 1 implies (out@.contains(m as usize) <==> cached@[m] is None) by {
                if out@.contains(m as usize) {
                    let k = choose|k: int| 0 <= k < out@.len() && out@[k] == m as usize;
                    if k < before.len() {
                        assert(before[k] == m as usize);
                    }
                }
                if m < i && before.contains(m as usize) {
                    let k = choose|k: int| 0 <= k < before.len() && before[k] == m as usize;
                    assert(out@[k] == m as usize);
                }
                if m == i && cached@[m] is None {
                    assert(out@[before.len() as int] == i);
                }
            }
        }
        i = i + 1;
    }
    out
}

/// The embeddings after filling the cache misses: the `k`-th computed
/// embedding goes to the fragment `misses[k]`; other fragments keep what the
/// cache gave.
pub open spec fn filled_embeddings(
    cached: Seq<Option<Vec<u8>>>,
    misses: Seq<usize>,
    computed: Seq<Vec<u8>>,
) -> Seq<Option<Seq<u8>>>
    decreases computed.len(),
{
    if computed.len() == 0 {
        cached.map_values(|c: Option<Vec<u8>>| match c {
            Some(v) => Some(v@),
            None => None,
        })
    } else {
        let k = computed.len() - 1;
        filled_embeddings(cached, misses, computed.drop_last()).update(
            misses[k] as int,
            Some(computed[k]@),
        )
    }
}

/// An entry stays empty after filling only where the cache had nothing and
/// no computed embedding was aimed at it; the length never changes.
pub proof fn lemma_filled_entry(
    cached: Seq<Option<Vec<u8>>>,
    misses: Seq<usize>,
    computed: Seq<Vec<u8>>,
    i: int,
)
    requires
        computed.len() <= misses.len(),
        forall|k: int| 0 <= k < misses.len() ==> (#[trigger] misses[k]) < cached.len(),
        0 <= i < cached.len(),
    ensures
        filled_embeddings(cached, misses, computed).len() == cached.len(),
        filled_embeddings(cached, misses, computed)[i] is None ==> (cached[i] is None && forall|k: int|
            0 <= k < computed.len() ==> misses[k] != i),
    decreases computed.len(),
{
    if computed.len() > 0 {
        lemma_filled_entry(cached, misses, computed.drop_last(), i);
    }
}

/// Filling covers every cache miss: when an embedding was computed for each
/// index that missed the cache, every fragment ends up with an embedding.
pub proof fn lemma_fill_covers_misses(
    cached: Seq<Option<Vec<u8>>>,
    misses: Seq<usize>,
    computed: Seq<Vec<u8>>,
)
    requires
        computed.len() == misses.len(),
        forall|k: int| 0 <= k < misses.len() ==> (#[trigger] misses[k]) < cached.len(),
        forall|i: int|
            0 <= i < cached.len() && (#[trigger] cached[i]) is None ==> exists|k: int|
                0 <= k < misses.len() && misses[k] == i,
    ensures
        filled_embeddings(cached, misses, computed).len() == cached.len(),
        forall|i: int|
            0 <= i < cached.len() ==> (#[trigger] filled_embeddings(cached, misses, computed)[i]) is Some,
{
    assert forall|i: int|
        0 <= i < cached.len() implies (#[trigger] filled_embeddings(cached, misses, computed)[i]) is Some by {
        lemma_filled_entry(cached, misses, computed, i);
        if cached[i] is None {
            let k = choose|k: int| 0 <= k < misses.len() && misses[k] == i;
            assert(misses[k] == i);
        }
    }
    if cached.len() > 0 {
        lemma_filled_entry(cached, misses, computed, 0);
    } else {
        lemma_filled_len(cached, misses, computed);
    }
}

proof fn lemma_filled_len(cached: Seq<Option<Vec<u8>>>, misses: Seq<usize>, computed: Seq<Vec<u8>>)
    requires
        computed.len() <= misses.len(),
        forall|k: int| 0 <= k < misses.len() ==> (#[trigger] misses[k]) < cached.len(),
    ensures
        filled_embeddings(cached, misses, computed).len() == cached.len(),
    decreases computed.len(),
{
    if computed.len() > 0 {
        lemma_filled_len(cached, misses, computed.drop_last());
    }
}

/// The view of a sequence of optional embeddings.
pub open spec fn embedding_views(v: Seq<Option<Vec<u8>>>) -> Seq<Option<Seq<u8>>> {
    v.map_values(|c: Option<Vec<u8>>| match c {
        Some(e) => Some(e@),
        None => None,
    })
}

/// Places the computed embeddings at the fragments that missed the cache.
pub fn fill_cache_misses(
    cached: Vec<Option<Vec<u8>>>,
    misses: &[usize],
    computed: Vec<Vec<u8>>,
) -> (r: Vec<Option<Vec<u8>>>)
    requires
        computed@.len() <= misses@.len(),
        forall|k: int| 0 <= k < misses@.len() ==> (#[trigger] misses@[k]) < cached@.len(),
    ensures
        embedding_views(r@) == filled_embeddings(cached@, misses@, computed@),
{
    let mut out = cached;
    let ghost start = out@;
    let n = computed.len();
    let mut k: usize = 0;
    assert(computed@.take(0) =~= Seq::<Vec<u8>>::empty());
    assert(embedding_views(out@) =~= filled_embeddings(start, misses@, computed@.take(0)));
    let ghost all = computed@;
    while k < n
        invariant
            n == all.len(),
            k <= n,
            n <= misses@.len(),
            forall|j: int| 0 <= j < misses@.len() ==> (#[trigger] misses@[j]) < start.len(),
            out@.len() == start.len(),
            computed@ == all,
            embedding_views(out@) == filled_embeddings(start, misses@, all.take(k as int)),
        decreases n - k,
    {
        let e = computed[k].clone();
        let idx = misses[k];
        out.set(idx, Some(e));
        proof {
            assert(all.take(k + 1).drop_last() =~= all.take(k as int));
            assert(e@ == all[k as int]@);
            assert(embedding_views(out@) =~= filled_embeddings(start, misses@, all.take(k + 1)));
        }
        k = k + 1;
    }
    assert(all.take(n as int) =~= all);
    out
}

} // verus!
