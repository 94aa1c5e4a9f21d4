//! The fee split applied to every transfer: one percent to the current
//! winner, one percent to the authority, the rest to the recipient.

use vstd::prelude::*;

verus! {

/// Each fee is the transferred amount divided by this, rounded down.
pub const FEE_DIVISOR: u64 = 100;

/// One fee on `amount`: one percent, rounded down.
pub open spec fn fee_of(amount: int) -> int {
    amount / 100
}

/// What remains of `amount` once both fees are taken.
pub open spec fn net_of(amount: int) -> int {
    amount - fee_of(amount) - fee_of(amount)
}

/// The three parts a transferred amount is divided into.
#[derive(Clone, Copy, Debug, PartialEq, Eq, Structural)]
pub struct FeeSplit {
    pub net_amount: u64,
    pub winner_fee: u64,
    pub authority_fee: u64,
}

/// The split neither makes nor loses value: the net amount and the two fees
/// add up to the amount. Both fees together never exceed it, and below 100
/// there is no fee at all.
pub proof fn lemma_split_conserves(amount: int)
    requires
        0 <= amount,
    ensures
        net_of(amount) + fee_of(amount) + fee_of(amount) == amount,
        0 <= fee_of(amount) <= amount,
        0 <= net_of(amount) <= amount,
        amount < 100 ==> fee_of(amount) == 0 && net_of(amount) == amount,
{
}

/// Divides `amount` into the net amount and the two one-percent fees.
///
/// The parts always add up to `amount`; below 100 both fees are zero.
pub fn split_transfer(amount: u64) -> (split: FeeSplit)
    ensures
        split.winner_fee == fee_of(amount as int),
        split.authority_fee == fee_of(amount as int),
        split.net_amount == net_of(amount as int),
        split.net_amount + split.winner_fee + split.authority_fee == amount,
        split.winner_fee <= amount,
        split.authority_fee <= amount,
        amount < 100 ==> split.winner_fee == 0 && split.authority_fee == 0 && split.net_amount
            == amount,
{
    proof {
        lemma_split_conserves(amount as int);
    }
    let winner_fee: u64 = match amount.checked_div(FEE_DIVISOR) {
        Some(fee) => fee,
        None => 0,
    };
    let authority_fee: u64 = match amount.checked_div(FEE_DIVISOR) {
        Some(fee) => fee,
        None => 0,
    };
    let after_winner: u64 = match amount.checked_sub(winner_fee) {
        Some(rest) => rest,
        None => amount,
    };
    let net_amount: u64 = match after_winner.checked_sub(authority_fee) {
        Some(rest) => rest,
        None => after_winner,
    };
    FeeSplit { net_amount, winner_fee, authority_fee }
}

/// Where a fee is sent.
#[derive(Clone, Copy, Debug, PartialEq, Eq, Structural)]
pub enum FeeRoute {
    /// The fee is zero: nothing is sent.
    NotDue,
    /// To the receiving account designated for the fee.
    Designated,
    /// Back to the recipient of the transfer.
    Recipient,
}

/// The transfers one processed transaction consists of.
#[derive(Clone, Copy, Debug, PartialEq, Eq, Structural)]
pub struct TransferPlan {
    /// What the recipient receives as the transfer itself.
    pub net_amount: u64,
    /// The winner's one percent.
    pub winner_fee: u64,
    /// Where the winner's fee goes.
    pub winner_route: FeeRoute,
    /// The authority's one percent.
    pub authority_fee: u64,
    /// Where the authority's fee goes.
    pub authority_route: FeeRoute,
}

/// Route of the winner fee: to the winner's account if a winner exists and
/// the account was supplied, else to the recipient; nowhere if it is zero.
pub open spec fn winner_route_of(fee: u64, has_winner: bool, has_account: bool) -> FeeRoute {
    if fee == 0 {
        FeeRoute::NotDue
    } else if has_winner && has_account {
        FeeRoute::Designated
    } else {
        FeeRoute::Recipient
    }
}

/// Route of the authority fee: to the authority's account if it was
/// supplied, else to the recipient; nowhere if it is zero.
pub open spec fn authority_route_of(fee: u64, has_account: bool) -> FeeRoute {
    if fee == 0 {
        FeeRoute::NotDue
    } else if has_account {
        FeeRoute::Designated
    } else {
        FeeRoute::Recipient
    }
}

/// The plan for a transfer of `amount`.
pub open spec fn plan_of(
    amount: u64,
    has_winner: bool,
    has_winner_account: bool,
    has_authority_account: bool,
) -> TransferPlan {
    TransferPlan {
        net_amount: net_of(amount as int) as u64,
        winner_fee: fee_of(amount as int) as u64,
        winner_route: winner_route_of(fee_of(amount as int) as u64, has_winner, has_winner_account),
        authority_fee: fee_of(amount as int) as u64,
        authority_route: authority_route_of(fee_of(amount as int) as u64, has_authority_account),
    }
}

/// A running total after `fee` is added: unchanged when the sum would not
/// fit in 64 bits.
pub open spec fn tallied(total: nat, fee: nat) -> nat {
    if total + fee <= u64::MAX {
        total + fee
    } else {
        total
    }
}

/// A running total after a fee took the given route: only a fee sent to its
/// designated account is counted.
pub open spec fn tallied_on(total: nat, fee: u64, route: FeeRoute) -> nat {
    if route == FeeRoute::Designated {
        tallied(total, fee as nat)
    } else {
        total
    }
}

/// Splits `amount` and decides where each fee goes.
///
/// The three amounts add up to `amount`, and no fee is dropped: a fee that
/// is due goes to its designated account or to the recipient.
pub fn plan_transfer(
    amount: u64,
    has_winner: bool,
    has_winner_account: bool,
    has_authority_account: bool,
) -> (plan: TransferPlan)
    ensures
        plan == plan_of(amount, has_winner, has_winner_account, has_authority_account),
        plan.net_amount + plan.winner_fee + plan.authority_fee == amount,
        plan.winner_route == FeeRoute::NotDue <==> plan.winner_fee == 0,
        plan.authority_route == FeeRoute::NotDue <==> plan.authority_fee == 0,
{
    let split = split_transfer(amount);
    let winner_route = if split.winner_fee == 0 {
        FeeRoute::NotDue
    } else if has_winner && has_winner_account {
        FeeRoute::Designated
    } else {
        FeeRoute::Recipient
    };
    let authority_route = if split.authority_fee == 0 {
        FeeRoute::NotDue
    } else if has_authority_account {
        FeeRoute::Designated
    } else {
        FeeRoute::Recipient
    };
    TransferPlan {
        net_amount: split.net_amount,
        winner_fee: split.winner_fee,
        winner_route,
        authority_fee: split.authority_fee,
        authority_route,
    }
}

/// Adds `fee` to a running total; the total keeps its value when the sum
/// would not fit.
pub fn tally(total: u64, fee: u64) -> (sum: u64)
    ensures
        sum == tallied(total as nat, fee as nat),
        sum >= total,
{
    match total.checked_add(fee) {
        Some(sum) => sum,
        None => total,
    }
}

} // verus!
