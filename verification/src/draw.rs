//! The weekly draw: prune the ledger, sample up to four holders, and make the
//! richest of the sample the winner of the coming epoch.

use crate::entropy::{candidate_index, candidate_of, draw_digest, round_digest};
use crate::identity::Identity;
use crate::selection::{candidates_fit, distinct_below, lemma_picks_distinct, picks, select_indices};
use crate::state::{
    distinct_wallets, ledger_ok, positive_balances, Holder, LotteryState, SolottoState,
    EPOCH_SECONDS,
};
use vstd::prelude::*;

verus! {

/// How many holders a draw samples at most.
pub const SAMPLE_SIZE: usize = 4;

/// The test an entry must pass to stay in the ledger.
pub open spec fn holds_tokens() -> spec_fn(Holder) -> bool {
    |holder: Holder| holder.1 > 0
}

/// The list without its zero-balance entries, order kept.
pub open spec fn pruned(holders: Seq<Holder>) -> Seq<Holder> {
    holders.filter(holds_tokens())
}

/// How many holders a draw samples from a pool: four, or all of a smaller
/// pool.
pub open spec fn sample_size(pool: usize) -> nat {
    if pool < SAMPLE_SIZE {
        pool as nat
    } else {
        SAMPLE_SIZE as nat
    }
}

/// The candidate index of each round of a draw over `pool` holders.
pub open spec fn draw_candidates(entropy: u64, time: i64, pool: usize) -> Seq<usize> {
    Seq::new(
        sample_size(pool),
        |round: int| candidate_of(round_digest(entropy, round as u8, time), pool),
    )
}

/// The holders at the chosen indices, in the order they were chosen.
pub open spec fn sample_of(holders: Seq<Holder>, indices: Seq<usize>) -> Seq<Holder> {
    Seq::new(indices.len(), |i: int| holders[indices[i] as int])
}

/// Position of the first entry of the sample that has the highest balance.
pub open spec fn leader_of(sample: Seq<Holder>) -> int
    decreases sample.len(),
{
    if sample.len() <= 1 {
        0
    } else {
        let before = leader_of(sample.drop_last());
        if sample.last().1 > sample[before].1 {
            sample.len() - 1
        } else {
            before
        }
    }
}

/// `at` is the first entry of the sample with the highest balance: none has
/// more, and every earlier one has less.
pub open spec fn is_leader(sample: Seq<Holder>, at: int) -> bool {
    &&& 0 <= at < sample.len()
    &&& forall|i: int| 0 <= i < sample.len() ==> (#[trigger] sample[i]).1 <= sample[at].1
    &&& forall|i: int| 0 <= i < at ==> (#[trigger] sample[i]).1 < sample[at].1
}

/// The winner of a draw over `holders` with the given candidates: the
/// richest of the sampled holders, the earliest sampled among equals; nobody
/// if nothing is sampled.
pub open spec fn winner_among(holders: Seq<Holder>, candidates: Seq<usize>) -> Option<Identity> {
    if candidates.len() == 0 {
        None
    } else {
        let sample = sample_of(holders, picks(candidates, holders.len() as usize));
        Some(sample[leader_of(sample)].0)
    }
}

impl LotteryState {
    /// The record after a draw at `time` with the given candidates: the
    /// ledger pruned, the winner replaced, the epoch restarted.
    pub open spec fn drawn(self, time: int, candidates: Seq<usize>) -> LotteryState {
        let kept = pruned(self.holders);
        LotteryState {
            holders: kept,
            current_winner: winner_among(kept, candidates),
            last_draw_time: time,
            next_draw_time: time + EPOCH_SECONDS,
            ..self
        }
    }

    /// The record after a draw at `time` seeded with `entropy`.
    pub open spec fn drawn_at(self, time: i64, entropy: u64) -> LotteryState {
        self.drawn(
            time as int,
            draw_candidates(entropy, time, pruned(self.holders).len() as usize),
        )
    }
}

/// Pruning leaves only positive balances, takes its entries from the list it
/// was given, keeps wallets distinct, and changes nothing in a list without
/// zero balances.
pub proof fn lemma_pruned(holders: Seq<Holder>)
    ensures
        positive_balances(pruned(holders)),
        pruned(holders).len() <= holders.len(),
        forall|i: int|
            0 <= i < pruned(holders).len() ==> holders.contains(#[trigger] pruned(holders)[i]),
        distinct_wallets(holders) ==> distinct_wallets(pruned(holders)),
        positive_balances(holders) ==> pruned(holders) == holders,
    decreases holders.len(),
{
    reveal(Seq::filter);
    if holders.len() > 0 {
        let earlier = holders.drop_last();
        let kept = pruned(earlier);
        let after = pruned(holders);
        lemma_pruned(earlier);
        assert forall|i: int| 0 <= i < after.len() implies holders.contains(
            #[trigger] after[i],
        ) by {
            if i < kept.len() {
                let j = choose|j: int| 0 <= j < earlier.len() && earlier[j] == kept[i];
                assert(holders[j] == after[i]);
            } else {
                assert(holders[holders.len() - 1] == after[i]);
            }
        }
        if distinct_wallets(holders) {
            assert forall|i: int, j: int| 0 <= i < j < after.len() implies (#[trigger] after[i]).0
                != (#[trigger] after[j]).0 by {
                if j >= kept.len() {
                    let k = choose|k: int| 0 <= k < earlier.len() && earlier[k] == kept[i];
                    assert(holders[k] == after[i]);
                    assert(holders[holders.len() - 1] == after[j]);
                }
            }
        }
    }
}

/// The leader of a sample that is not empty is its first entry with the
/// highest balance.
pub proof fn lemma_leader(sample: Seq<Holder>)
    requires
        sample.len() > 0,
    ensures
        is_leader(sample, leader_of(sample)),
    decreases sample.len(),
{
    if sample.len() > 1 {
        let earlier = sample.drop_last();
        lemma_leader(earlier);
        let before = leader_of(earlier);
        let at = leader_of(sample);
        assert forall|i: int| 0 <= i < sample.len() implies (#[trigger] sample[i]).1
            <= sample[at].1 by {
            if i < earlier.len() {
                assert(earlier[i] == sample[i]);
            }
        }
        assert forall|i: int| 0 <= i < at implies (#[trigger] sample[i]).1 < sample[at].1 by {
            assert(earlier[i] == sample[i]);
        }
    }
}

/// A draw restarts the epoch: the last draw is now, the next one exactly one
/// epoch later, whoever wins.
pub proof fn lemma_draw_restarts_epoch(state: LotteryState, time: i64, entropy: u64)
    ensures
        state.drawn_at(time, entropy).last_draw_time == time,
        state.drawn_at(time, entropy).next_draw_time - state.drawn_at(
            time,
            entropy,
        ).last_draw_time == EPOCH_SECONDS,
        state.drawn_at(time, entropy).next_draw_time > state.drawn_at(
            time,
            entropy,
        ).last_draw_time,
{
}

/// A draw leaves a clean ledger behind if no wallet was listed twice before
/// it, and then the whole record is well formed.
pub proof fn lemma_draw_keeps_record(state: LotteryState, time: i64, entropy: u64)
    ensures
        positive_balances(state.drawn_at(time, entropy).holders),
        distinct_wallets(state.holders) ==> state.drawn_at(time, entropy).well_formed(),
        ledger_ok(state.holders) ==> state.drawn_at(time, entropy).holders == state.holders,
{
    lemma_pruned(state.holders);
}

/// The candidates of a draw over a pool that is not empty fit the pool:
/// one per round, at most four, each an index into the pool.
pub proof fn lemma_draw_candidates_fit(entropy: u64, time: i64, pool: usize)
    requires
        pool > 0,
    ensures
        candidates_fit(draw_candidates(entropy, time, pool), pool),
        1 <= draw_candidates(entropy, time, pool).len() <= 4,
        draw_candidates(entropy, time, pool).len() == sample_size(pool),
{
    let candidates = draw_candidates(entropy, time, pool);
    assert forall|i: int| 0 <= i < candidates.len() implies #[trigger] candidates[i] < pool by {
        let digest = round_digest(entropy, i as u8, time);
        assert(candidates[i] == candidate_of(digest, pool));
    }
}

/// A draw over a pool that is not empty samples four holders, or all of a
/// smaller pool, and none of them twice.
pub proof fn lemma_draw_sample_distinct(entropy: u64, time: i64, pool: usize)
    requires
        pool > 0,
    ensures
        picks(draw_candidates(entropy, time, pool), pool).len() == sample_size(pool),
        distinct_below(picks(draw_candidates(entropy, time, pool), pool), pool),
{
    lemma_draw_candidates_fit(entropy, time, pool);
    lemma_picks_distinct(draw_candidates(entropy, time, pool), pool);
}

/// The winner is one of the sampled holders and no sampled holder has a
/// higher balance; the sample holds no holder twice.
pub proof fn lemma_winner_leads_sample(holders: Seq<Holder>, candidates: Seq<usize>)
    requires
        holders.len() <= usize::MAX,
        candidates.len() > 0,
        candidates_fit(candidates, holders.len() as usize),
    ensures
        ({
            let chosen = picks(candidates, holders.len() as usize);
            let at = leader_of(sample_of(holders, chosen));
            &&& chosen.len() == candidates.len()
            &&& distinct_below(chosen, holders.len() as usize)
            &&& 0 <= at < chosen.len()
            &&& winner_among(holders, candidates) == Some(holders[chosen[at] as int].0)
            &&& forall|j: int|
                0 <= j < chosen.len() ==> holders[#[trigger] chosen[j] as int].1
                    <= holders[chosen[at] as int].1
        }),
{
    let chosen = picks(candidates, holders.len() as usize);
    let sample = sample_of(holders, chosen);
    lemma_picks_distinct(candidates, holders.len() as usize);
    lemma_leader(sample);
    let at = leader_of(sample);
    assert forall|j: int| 0 <= j < chosen.len() implies holders[#[trigger] chosen[j] as int].1
        <= holders[chosen[at] as int].1 by {
        assert(sample[j] == holders[chosen[j] as int]);
    }
}

/// After a draw there is a winner exactly when a holder is left, and the
/// winner is then a listed holder who leads a sample of up to four holders.
pub proof fn lemma_draw_winner_is_sampled(state: LotteryState, time: i64, entropy: u64)
    requires
        state.holders.len() <= usize::MAX,
    ensures
        ({
            let after = state.drawn_at(time, entropy);
            let pool = after.holders.len() as usize;
            let chosen = picks(draw_candidates(entropy, time, pool), pool);
            &&& after.current_winner is Some <==> after.holders.len() > 0
            &&& after.current_winner is Some ==> exists|at: int|
                #![trigger chosen[at]]
                {
                    &&& 0 <= at < chosen.len() <= 4
                    &&& distinct_below(chosen, pool)
                    &&& after.current_winner == Some(after.holders[chosen[at] as int].0)
                    &&& forall|j: int|
                        0 <= j < chosen.len() ==> after.holders[#[trigger] chosen[j] as int].1
                            <= after.holders[chosen[at] as int].1
                }
        }),
{
    lemma_pruned(state.holders);
    let after = state.drawn_at(time, entropy);
    let pool = after.holders.len() as usize;
    if pool > 0 {
        let candidates = draw_candidates(entropy, time, pool);
        lemma_draw_candidates_fit(entropy, time, pool);
        lemma_winner_leads_sample(after.holders, candidates);
        let chosen = picks(candidates, pool);
        let at = leader_of(sample_of(after.holders, chosen));
        assert(after.current_winner == Some(after.holders[chosen[at] as int].0));
    }
}

/// A holder who is alone in the ledger wins the draw, whatever the entropy
/// and the time.
pub proof fn lemma_single_holder_wins(state: LotteryState, time: i64, entropy: u64)
    requires
        pruned(state.holders).len() == 1,
    ensures
        state.drawn_at(time, entropy).current_winner == Some(pruned(state.holders)[0].0),
{
    lemma_draw_candidates_fit(entropy, time, 1);
    lemma_winner_leads_sample(pruned(state.holders), draw_candidates(entropy, time, 1));
}

/// `order` ranks the sample: it lists every position of the sample, by
/// descending balance, and equal balances in the order they were sampled.
pub open spec fn ranks_sample(sample: Seq<Holder>, order: Seq<int>) -> bool {
    &&& order.len() == sample.len()
    &&& forall|i: int| 0 <= i < order.len() ==> 0 <= #[trigger] order[i] < sample.len()
    &&& forall|at: int| 0 <= at < sample.len() ==> #[trigger] order.contains(at)
    &&& forall|i: int, j: int|
        0 <= i < j < order.len() ==> sample[#[trigger] order[i]].1 >= sample[#[trigger] order[j]].1
    &&& forall|i: int, j: int|
        0 <= i < j < order.len() && sample[#[trigger] order[i]].1 == sample[#[trigger] order[j]].1
            ==> order[i] < order[j]
}

/// Sorting the sample by descending balance, equal balances left in the
/// order they were sampled, puts the leader first.
pub proof fn lemma_leader_heads_ranking(sample: Seq<Holder>, order: Seq<int>)
    requires
        sample.len() > 0,
        ranks_sample(sample, order),
    ensures
        order[0] == leader_of(sample),
{
    lemma_leader(sample);
    let at = leader_of(sample);
    assert(order.contains(at));
    let i = choose|i: int| 0 <= i < order.len() && order[i] == at;
    if i > 0 {
        // The head has at least the leader's balance, so exactly that; being
        // ranked before the leader it was sampled earlier, which no holder
        // with the leader's balance was.
        assert(sample[order[0]].1 == sample[at].1);
        assert(order[0] < at);
    }
}

/// Drops every entry with a zero balance, keeping the order of the rest.
pub fn prune_holders(holders: &mut Vec<Holder>)
    ensures
        final(holders)@ == pruned(old(holders)@),
        positive_balances(final(holders)@),
        distinct_wallets(old(holders)@) ==> distinct_wallets(final(holders)@),
        positive_balances(old(holders)@) ==> final(holders)@ == old(holders)@,
{
    proof {
        lemma_pruned(holders@);
    }
    let mut kept: Vec<Holder> = Vec::new();
    let mut i: usize = 0;
    while i < holders.len()
        invariant
            i <= holders@.len(),
            kept@ == pruned(holders@.take(i as int)),
        decreases holders@.len() - i,
    {
        let holder = holders[i];
        proof {
            assert(holders@.take(i + 1) == holders@.take(i as int).push(holder));
            holders@.take(i as int).lemma_filter_push(holder, holds_tokens());
        }
        if holder.1 > 0 {
            kept.push(holder);
        }
        i += 1;
    }
    proof {
        assert(holders@.take(i as int) == holders@);
    }
    *holders = kept;
}

/// Finds the first entry of the sample with the highest balance.
pub fn leading_holder(sample: &Vec<Holder>) -> (at: usize)
    requires
        sample@.len() > 0,
    ensures
        at == leader_of(sample@),
        is_leader(sample@, at as int),
{
    proof {
        lemma_leader(sample@);
    }
    let mut at: usize = 0;
    let mut i: usize = 1;
    while i < sample.len()
        invariant
            1 <= i <= sample@.len(),
            at < i,
            at == leader_of(sample@.take(i as int)),
        decreases sample@.len() - i,
    {
        proof {
            assert(sample@.take(i + 1).drop_last() == sample@.take(i as int));
        }
        if sample[i].1 > sample[at].1 {
            at = i;
        }
        i += 1;
    }
    proof {
        assert(sample@.take(i as int) == sample@);
    }
    at
}

/// Runs the rounds of a draw on the given candidates and names the winner:
/// the richest of the sampled holders, the earliest sampled among equals.
///
/// The winner is one of the sampled holders, no sampled holder has a higher
/// balance, and no holder is sampled twice.
pub fn pick_winner(holders: &Vec<Holder>, candidates: &Vec<usize>) -> (winner: Option<Identity>)
    requires
        candidates_fit(candidates@, holders@.len() as usize),
    ensures
        winner == winner_among(holders@, candidates@),
        winner is Some <==> candidates@.len() > 0,
        winner is Some ==> exists|i: int|
            #![trigger picks(candidates@, holders@.len() as usize)[i]]
            {
                let chosen = picks(candidates@, holders@.len() as usize);
                &&& 0 <= i < chosen.len()
                &&& holders@[chosen[i] as int].0 == winner->Some_0
                &&& forall|j: int|
                    0 <= j < chosen.len() ==> holders@[#[trigger] chosen[j] as int].1
                        <= holders@[chosen[i] as int].1
            },
{
    if candidates.len() == 0 {
        return None;
    }
    let chosen = select_indices(candidates, holders.len());
    let mut sample: Vec<Holder> = Vec::new();
    let mut i: usize = 0;
    while i < chosen.len()
        invariant
            i <= chosen@.len(),
            distinct_below(chosen@, holders@.len() as usize),
            sample@ == sample_of(holders@, chosen@.take(i as int)),
        decreases chosen@.len() - i,
    {
        sample.push(holders[chosen[i]]);
        i += 1;
    }
    proof {
        assert(chosen@.take(i as int) == chosen@);
    }
    let at = leading_holder(&sample);
    proof {
        assert forall|j: int| 0 <= j < chosen@.len() implies holders@[#[trigger] chosen@[j] as int].1
            <= holders@[chosen@[at as int] as int].1 by {
            assert(sample@[j] == holders@[chosen@[j] as int]);
        }
    }
    Some(sample[at].0)
}

/// Runs a draw at `current_time`, seeded with `entropy_seed`.
///
/// Zero-balance entries are dropped first. If no holder is left the winner
/// is cleared. Otherwise four rounds (fewer for a smaller pool) each hash
/// the seed, the round number and the time into a candidate index; the
/// chosen holders form the sample and its richest member becomes the winner.
/// In both cases the next draw falls due one epoch after `current_time`.
pub fn draw_winner(solotto: &mut SolottoState, current_time: i64, entropy_seed: u64)
    requires
        current_time + EPOCH_SECONDS <= i64::MAX,
    ensures
        final(solotto)@ == old(solotto)@.drawn_at(current_time, entropy_seed),
        final(solotto).last_draw_time == current_time,
        final(solotto).next_draw_time - final(solotto).last_draw_time == EPOCH_SECONDS,
        positive_balances(final(solotto)@.holders),
        final(solotto).current_winner is None <==> final(solotto)@.holders.len() == 0,
        distinct_wallets(old(solotto)@.holders) ==> final(solotto).well_formed(),
        ledger_ok(old(solotto)@.holders) ==> final(solotto)@.holders == old(solotto)@.holders,
{
    prune_holders(&mut solotto.holders);
    let pool: usize = solotto.holders.len();
    if pool == 0 {
        solotto.last_draw_time = current_time;
        solotto.next_draw_time = current_time + EPOCH_SECONDS;
        solotto.current_winner = None;
        return;
    }
    let rounds: usize = if pool < SAMPLE_SIZE {
        pool
    } else {
        SAMPLE_SIZE
    };
    let mut candidates: Vec<usize> = Vec::new();
    let mut round: usize = 0;
    while round < rounds
        invariant
            round <= rounds,
            rounds == sample_size(pool),
            pool > 0,
            candidates@ == draw_candidates(entropy_seed, current_time, pool).take(round as int),
        decreases rounds - round,
    {
        let digest = draw_digest(entropy_seed, round as u8, current_time);
        let candidate = candidate_index(&digest, pool);
        candidates.push(candidate);
        round += 1;
        assert(candidates@ =~= draw_candidates(entropy_seed, current_time, pool).take(
            round as int,
        ));
    }
    proof {
        assert(candidates@ =~= draw_candidates(entropy_seed, current_time, pool));
    }
    let winner = pick_winner(&solotto.holders, &candidates);
    solotto.current_winner = winner;
    solotto.last_draw_time = current_time;
    solotto.next_draw_time = current_time + EPOCH_SECONDS;
}

} // verus!
