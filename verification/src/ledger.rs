//! The holder ledger: which wallets hold a positive balance, kept in step
//! with the balances reported after transfers.

use crate::identity::Identity;
use crate::state::{distinct_wallets, ledger_ok, positive_balances, Holder, LotteryState, SolottoState};
use vstd::prelude::*;

verus! {

/// Index of the first entry for `wallet` at or after `from`, or the length
/// of the list if there is none.
pub open spec fn position_from(holders: Seq<Holder>, wallet: Identity, from: int) -> int
    decreases holders.len() - from,
{
    if from >= holders.len() {
        holders.len() as int
    } else if holders[from].0 == wallet {
        from
    } else {
        position_from(holders, wallet, from + 1)
    }
}

/// Index of the first entry for `wallet`, or the length of the list if the
/// wallet is not listed.
pub open spec fn position_of(holders: Seq<Holder>, wallet: Identity) -> int {
    position_from(holders, wallet, 0)
}

/// Whether `wallet` is listed.
pub open spec fn is_listed(holders: Seq<Holder>, wallet: Identity) -> bool {
    exists|i: int| 0 <= i < holders.len() && (#[trigger] holders[i]).0 == wallet
}

/// The balance the ledger holds for `wallet`: zero if it is not listed.
pub open spec fn balance_of(holders: Seq<Holder>, wallet: Identity) -> nat {
    let at = position_of(holders, wallet);
    if at < holders.len() {
        holders[at].1 as nat
    } else {
        0
    }
}

/// The list after `wallet` reports `balance`: a listed wallet has its first
/// entry overwritten, or removed when the balance is zero; an unlisted one
/// is appended unless the balance is zero.
pub open spec fn recorded(holders: Seq<Holder>, wallet: Identity, balance: u64) -> Seq<Holder> {
    let at = position_of(holders, wallet);
    if at < holders.len() {
        if balance > 0 {
            holders.update(at, (wallet, balance))
        } else {
            holders.remove(at)
        }
    } else if balance > 0 {
        holders.push((wallet, balance))
    } else {
        holders
    }
}

impl LotteryState {
    /// The record after `wallet` reports `balance`: only the ledger changes.
    pub open spec fn recorded(self, wallet: Identity, balance: u64) -> LotteryState {
        LotteryState { holders: recorded(self.holders, wallet, balance), ..self }
    }
}

/// What `position_from` finds: the first entry for the wallet from `from`
/// on, with no entry for it in between.
pub proof fn lemma_position_from(holders: Seq<Holder>, wallet: Identity, from: int)
    requires
        0 <= from <= holders.len(),
    ensures
        from <= position_from(holders, wallet, from) <= holders.len(),
        forall|j: int|
            from <= j < position_from(holders, wallet, from) ==> (#[trigger] holders[j]).0
                != wallet,
        position_from(holders, wallet, from) < holders.len() ==> holders[position_from(
            holders,
            wallet,
            from,
        )].0 == wallet,
    decreases holders.len() - from,
{
    if from < holders.len() && holders[from].0 != wallet {
        lemma_position_from(holders, wallet, from + 1);
    }
}

/// A wallet is listed exactly when its position lies inside the list.
pub proof fn lemma_position_listed(holders: Seq<Holder>, wallet: Identity)
    ensures
        is_listed(holders, wallet) <==> position_of(holders, wallet) < holders.len(),
        0 <= position_of(holders, wallet) <= holders.len(),
{
    lemma_position_from(holders, wallet, 0);
}

/// Finds the first entry for `wallet`.
pub fn holder_position(holders: &Vec<Holder>, wallet: &Identity) -> (found: Option<usize>)
    ensures
        match found {
            Some(index) => index < holders@.len() && index == position_of(holders@, *wallet),
            None => position_of(holders@, *wallet) == holders@.len(),
        },
        found is Some <==> is_listed(holders@, *wallet),
{
    proof {
        lemma_position_listed(holders@, *wallet);
    }
    let mut index: usize = 0;
    while index < holders.len()
        invariant
            index <= holders@.len(),
            position_of(holders@, *wallet) == position_from(holders@, *wallet, index as int),
        decreases holders@.len() - index,
    {
        if holders[index].0 == *wallet {
            return Some(index);
        }
        index += 1;
    }
    None
}

/// Records the balance that `holder` now has.
///
/// A positive balance overwrites the wallet's entry or appends a new one; a
/// zero balance removes the entry, and does nothing for an unlisted wallet.
/// Nothing but the ledger changes, and a clean ledger stays clean.
pub fn update_holder(solotto: &mut SolottoState, holder: Identity, balance: u64)
    ensures
        final(solotto)@ == old(solotto)@.recorded(holder, balance),
        ledger_ok(old(solotto)@.holders) ==> ledger_ok(final(solotto)@.holders),
        old(solotto).well_formed() ==> final(solotto).well_formed(),
        balance == 0 && !is_listed(old(solotto)@.holders, holder)
            ==> final(solotto)@ == old(solotto)@,
{
    proof {
        lemma_recorded_keeps_ledger(solotto@.holders, holder, balance);
        lemma_position_from(solotto@.holders, holder, 0);
        lemma_position_listed(solotto@.holders, holder);
    }
    match holder_position(&solotto.holders, &holder) {
        Some(index) => {
            if balance > 0 {
                solotto.holders[index].1 = balance;
                assert(solotto.holders@ =~= old(solotto).holders@.update(
                    index as int,
                    (holder, balance),
                ));
            } else {
                solotto.holders.remove(index);
            }
        },
        None => {
            if balance > 0 {
                solotto.holders.push((holder, balance));
            }
        },
    }
}

/// Recording a balance keeps the ledger invariant: no wallet comes to be
/// listed twice, and no zero balance is stored.
pub proof fn lemma_recorded_keeps_ledger(holders: Seq<Holder>, wallet: Identity, balance: u64)
    ensures
        distinct_wallets(holders) ==> distinct_wallets(recorded(holders, wallet, balance)),
        positive_balances(holders) ==> positive_balances(recorded(holders, wallet, balance)),
        ledger_ok(holders) ==> ledger_ok(recorded(holders, wallet, balance)),
{
    lemma_position_from(holders, wallet, 0);
}

/// The list after a run of reports, each a wallet and its balance, taken in
/// order.
pub open spec fn recorded_all(holders: Seq<Holder>, reports: Seq<Holder>) -> Seq<Holder>
    decreases reports.len(),
{
    if reports.len() == 0 {
        holders
    } else {
        recorded(recorded_all(holders, reports.drop_last()), reports.last().0, reports.last().1)
    }
}

/// Whatever reports come in, and in whatever order, a clean ledger stays
/// clean: no wallet listed twice, no balance of zero.
pub proof fn lemma_reports_keep_ledger(holders: Seq<Holder>, reports: Seq<Holder>)
    requires
        ledger_ok(holders),
    ensures
        ledger_ok(recorded_all(holders, reports)),
    decreases reports.len(),
{
    if reports.len() > 0 {
        lemma_reports_keep_ledger(holders, reports.drop_last());
        lemma_recorded_keeps_ledger(
            recorded_all(holders, reports.drop_last()),
            reports.last().0,
            reports.last().1,
        );
    }
}

/// A ledger that starts empty is clean after any run of reports.
pub proof fn lemma_reports_from_empty(reports: Seq<Holder>)
    ensures
        ledger_ok(recorded_all(Seq::empty(), reports)),
{
    lemma_reports_keep_ledger(Seq::empty(), reports);
}

/// Reporting a balance of zero for a wallet that is not listed leaves the
/// list as it was.
pub proof fn lemma_zero_report_of_unlisted(holders: Seq<Holder>, wallet: Identity)
    requires
        !is_listed(holders, wallet),
    ensures
        recorded(holders, wallet, 0) == holders,
{
    lemma_position_listed(holders, wallet);
}

/// In a list without repeated wallets, a wallet's position is the one place
/// where it stands.
pub proof fn lemma_position_unique(holders: Seq<Holder>, wallet: Identity, at: int)
    requires
        distinct_wallets(holders),
        0 <= at < holders.len(),
        holders[at].0 == wallet,
    ensures
        position_of(holders, wallet) == at,
{
    lemma_position_from(holders, wallet, 0);
}

/// After a report the ledger holds the reported balance for that wallet and
/// the balance it held before for every other wallet.
pub proof fn lemma_recorded_balance(
    holders: Seq<Holder>,
    wallet: Identity,
    balance: u64,
    other: Identity,
)
    requires
        distinct_wallets(holders),
    ensures
        balance_of(recorded(holders, wallet, balance), wallet) == balance,
        is_listed(recorded(holders, wallet, balance), wallet) <==> balance > 0,
        other != wallet ==> balance_of(recorded(holders, wallet, balance), other) == balance_of(
            holders,
            other,
        ),
        other != wallet ==> (is_listed(recorded(holders, wallet, balance), other) <==> is_listed(
            holders,
            other,
        )),
{
    let after = recorded(holders, wallet, balance);
    let at = position_of(holders, wallet);
    lemma_position_from(holders, wallet, 0);
    lemma_recorded_keeps_ledger(holders, wallet, balance);
    lemma_position_listed(after, wallet);
    lemma_position_listed(after, other);
    lemma_position_listed(holders, other);
    lemma_position_from(after, wallet, 0);
    lemma_position_from(after, other, 0);
    lemma_position_from(holders, other, 0);
    if balance > 0 {
        let stands = if at < holders.len() {
            at
        } else {
            holders.len() as int
        };
        lemma_position_unique(after, wallet, stands);
    }
    let was = position_of(holders, other);
    if other != wallet && was < holders.len() {
        let now = if at < holders.len() && balance == 0 && was > at {
            was - 1
        } else {
            was
        };
        lemma_position_unique(after, other, now);
    }
}

} // verus!
