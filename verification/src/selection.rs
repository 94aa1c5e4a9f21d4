//! Choosing distinct indices into the holder list from candidate indices.
//!
//! Each round proposes a candidate. A candidate that was already chosen in
//! this draw is replaced by the lowest index not chosen yet, so a draw never
//! samples a holder twice and always ends.

use vstd::prelude::*;

verus! {

/// The lowest index from `from` up to `pool` that `used` does not hold, or
/// `pool` if every one of them is used.
pub open spec fn first_unused(used: Seq<usize>, from: usize, pool: usize) -> usize
    decreases pool - from,
{
    if from >= pool {
        pool
    } else if !used.contains(from) {
        from
    } else {
        first_unused(used, (from + 1) as usize, pool)
    }
}

/// The index a round settles on: its candidate, unless that was chosen
/// before; then the lowest index not chosen yet.
pub open spec fn resolved(used: Seq<usize>, candidate: usize, pool: usize) -> usize {
    if used.contains(candidate) {
        first_unused(used, 0, pool)
    } else {
        candidate
    }
}

/// The indices chosen by a run of rounds, one per candidate, in order.
pub open spec fn picks(candidates: Seq<usize>, pool: usize) -> Seq<usize>
    decreases candidates.len(),
{
    if candidates.len() == 0 {
        Seq::empty()
    } else {
        let before = picks(candidates.drop_last(), pool);
        before.push(resolved(before, candidates.last(), pool))
    }
}

/// Every candidate is an index into a pool of `pool` entries, and there are
/// no more candidates than entries.
pub open spec fn candidates_fit(candidates: Seq<usize>, pool: usize) -> bool {
    &&& candidates.len() <= pool
    &&& forall|i: int| 0 <= i < candidates.len() ==> #[trigger] candidates[i] < pool
}

/// The indices are pairwise different and all below `pool`.
pub open spec fn distinct_below(indices: Seq<usize>, pool: usize) -> bool {
    &&& forall|i: int| 0 <= i < indices.len() ==> #[trigger] indices[i] < pool
    &&& forall|i: int, j: int|
        0 <= i < j < indices.len() ==> #[trigger] indices[i] != #[trigger] indices[j]
}

/// There are exactly `pool` indices below `pool`.
proof fn lemma_count_below(pool: usize)
    ensures
        Set::new(|j: usize| j < pool).finite(),
        Set::new(|j: usize| j < pool).len() == pool,
    decreases pool,
{
    let all = Set::new(|j: usize| j < pool);
    if pool == 0 {
        assert(all =~= Set::<usize>::empty());
    } else {
        let fewer = (pool - 1) as usize;
        lemma_count_below(fewer);
        assert(all =~= Set::new(|j: usize| j < fewer).insert(fewer));
    }
}

/// Fewer used indices than entries leave an entry unused.
pub proof fn lemma_some_unused(used: Seq<usize>, pool: usize)
    requires
        used.len() < pool,
    ensures
        exists|j: usize| j < pool && !used.contains(j),
{
    if forall|j: usize| j < pool ==> used.contains(j) {
        // Then the `pool` indices below `pool` all stand in `used`, which
        // has fewer entries than that.
        let all = Set::new(|j: usize| j < pool);
        lemma_count_below(pool);
        vstd::seq_lib::seq_to_set_is_finite(used);
        used.lemma_cardinality_of_set();
        assert(all.subset_of(used.to_set()));
        vstd::set_lib::lemma_len_subset(all, used.to_set());
    }
}

/// What `first_unused` finds: an index that is not used, with only used
/// indices between `from` and it.
pub proof fn lemma_first_unused(used: Seq<usize>, from: usize, pool: usize)
    requires
        from <= pool,
    ensures
        from <= first_unused(used, from, pool) <= pool,
        forall|j: usize| from <= j < first_unused(used, from, pool) ==> used.contains(j),
        first_unused(used, from, pool) < pool ==> !used.contains(first_unused(used, from, pool)),
    decreases pool - from,
{
    if from < pool && used.contains(from) {
        lemma_first_unused(used, (from + 1) as usize, pool);
    }
}

/// A round that starts with fewer chosen indices than entries settles on an
/// entry that was not chosen before.
pub proof fn lemma_resolved_fresh(used: Seq<usize>, candidate: usize, pool: usize)
    requires
        used.len() < pool,
        candidate < pool,
    ensures
        resolved(used, candidate, pool) < pool,
        !used.contains(resolved(used, candidate, pool)),
{
    lemma_some_unused(used, pool);
    lemma_first_unused(used, 0, pool);
}

/// One index is chosen per candidate, and while the candidates fit the pool
/// the chosen indices are pairwise different entries of it.
pub proof fn lemma_picks_distinct(candidates: Seq<usize>, pool: usize)
    ensures
        picks(candidates, pool).len() == candidates.len(),
        candidates_fit(candidates, pool) ==> distinct_below(picks(candidates, pool), pool),
    decreases candidates.len(),
{
    if candidates.len() > 0 {
        let earlier = candidates.drop_last();
        let before = picks(earlier, pool);
        lemma_picks_distinct(earlier, pool);
        if candidates_fit(candidates, pool) {
            assert(candidates_fit(earlier, pool)) by {
                assert forall|i: int| 0 <= i < earlier.len() implies #[trigger] earlier[i]
                    < pool by {
                    assert(earlier[i] == candidates[i]);
                }
            }
            lemma_resolved_fresh(before, candidates.last(), pool);
            let chosen = picks(candidates, pool);
            assert forall|i: int, j: int| 0 <= i < j < chosen.len() implies #[trigger] chosen[i]
                != #[trigger] chosen[j] by {
                if j == before.len() {
                    assert(before.contains(before[i]));
                }
            }
        }
    }
}

/// Whether `used` holds `index`.
pub fn is_used(used: &Vec<usize>, index: usize) -> (found: bool)
    ensures
        found == used@.contains(index),
{
    let mut i: usize = 0;
    while i < used.len()
        invariant
            i <= used@.len(),
            forall|j: int| 0 <= j < i ==> used@[j] != index,
        decreases used@.len() - i,
    {
        if used[i] == index {
            return true;
        }
        i += 1;
    }
    false
}

/// Settles one round: the candidate if it is still free, else the lowest
/// free index, or `pool` when none is left.
pub fn resolve_index(used: &Vec<usize>, candidate: usize, pool: usize) -> (index: usize)
    ensures
        index == resolved(used@, candidate, pool),
        used@.len() < pool && candidate < pool ==> index < pool && !used@.contains(index),
{
    proof {
        if used@.len() < pool && candidate < pool {
            lemma_resolved_fresh(used@, candidate, pool);
        }
    }
    if !is_used(used, candidate) {
        return candidate;
    }
    let mut next: usize = 0;
    while next < pool
        invariant
            next <= pool,
            used@.contains(candidate),
            first_unused(used@, 0, pool) == first_unused(used@, next, pool),
        decreases pool - next,
    {
        if !is_used(used, next) {
            return next;
        }
        next += 1;
    }
    pool
}

/// Chooses one index per candidate, in order.
///
/// While the candidates fit the pool, the chosen indices are pairwise
/// different entries of it.
pub fn select_indices(candidates: &Vec<usize>, pool: usize) -> (chosen: Vec<usize>)
    ensures
        chosen@ == picks(candidates@, pool),
        chosen@.len() == candidates@.len(),
        candidates_fit(candidates@, pool) ==> distinct_below(chosen@, pool),
{
    proof {
        lemma_picks_distinct(candidates@, pool);
    }
    let mut chosen: Vec<usize> = Vec::new();
    let mut round: usize = 0;
    while round < candidates.len()
        invariant
            round <= candidates@.len(),
            chosen@ == picks(candidates@.take(round as int), pool),
        decreases candidates@.len() - round,
    {
        let index = resolve_index(&chosen, candidates[round], pool);
        proof {
            assert(candidates@.take(round + 1).drop_last() == candidates@.take(round as int));
        }
        chosen.push(index);
        round += 1;
    }
    proof {
        assert(candidates@.take(round as int) == candidates@);
    }
    chosen
}

} // verus!
