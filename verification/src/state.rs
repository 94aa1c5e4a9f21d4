//! The lottery record and its mathematical model.

use crate::identity::Identity;
use vstd::prelude::*;

verus! {

/// Seconds between two draws: seven days.
pub const EPOCH_SECONDS: i64 = 604800;

/// One ledger entry: a wallet and the balance last reported for it.
pub type Holder = (Identity, u64);

/// The single persistent record of the lottery.
#[derive(Clone, Debug, PartialEq, Eq)]
pub struct SolottoState {
    /// Who may force a draw.
    pub authority: Identity,
    /// The wallet that receives the authority fee.
    pub authority_wallet: Identity,
    /// The token this lottery runs on.
    pub mint: Identity,
    /// When the last draw happened, in seconds.
    pub last_draw_time: i64,
    /// When the next draw is due, in seconds.
    pub next_draw_time: i64,
    /// Every wallet known to hold a positive balance, in order of arrival.
    pub holders: Vec<Holder>,
    /// The wallet that receives the winner fee until the next draw.
    pub current_winner: Option<Identity>,
    /// Total of the fees paid out to winners.
    pub winner_fees_distributed: u64,
    /// Total of the fees paid out to the authority.
    pub authority_fees_distributed: u64,
    /// Address bump of the record.
    pub bump: u8,
}

/// What can go wrong in an operation on the record.
#[derive(Clone, Copy, Debug, PartialEq, Eq, Structural)]
pub enum SolottoError {
    /// The requester is not the authority of the record.
    NotAuthorized,
}

impl SolottoError {
    /// The text shown to the caller for this error.
    pub fn message(&self) -> (text: &'static str)
        ensures
            text@ == "Not authorized to perform this action"@,
    {
        match self {
            SolottoError::NotAuthorized => "Not authorized to perform this action",
        }
    }
}

/// The record as a mathematical value: times and counters are unbounded
/// integers, the holder list is a sequence.
pub struct LotteryState {
    pub authority: Identity,
    pub authority_wallet: Identity,
    pub mint: Identity,
    pub last_draw_time: int,
    pub next_draw_time: int,
    pub holders: Seq<Holder>,
    pub current_winner: Option<Identity>,
    pub winner_fees_distributed: nat,
    pub authority_fees_distributed: nat,
    pub bump: u8,
}

impl View for SolottoState {
    type V = LotteryState;

    open spec fn view(&self) -> LotteryState {
        LotteryState {
            authority: self.authority,
            authority_wallet: self.authority_wallet,
            mint: self.mint,
            last_draw_time: self.last_draw_time as int,
            next_draw_time: self.next_draw_time as int,
            holders: self.holders@,
            current_winner: self.current_winner,
            winner_fees_distributed: self.winner_fees_distributed as nat,
            authority_fees_distributed: self.authority_fees_distributed as nat,
            bump: self.bump,
        }
    }
}

/// No wallet occurs twice in the list.
pub open spec fn distinct_wallets(holders: Seq<Holder>) -> bool {
    forall|i: int, j: int|
        0 <= i < j < holders.len() ==> (#[trigger] holders[i]).0 != (#[trigger] holders[j]).0
}

/// Every listed balance is positive.
pub open spec fn positive_balances(holders: Seq<Holder>) -> bool {
    forall|i: int| 0 <= i < holders.len() ==> (#[trigger] holders[i]).1 > 0
}

/// The ledger invariant: no wallet twice, no balance of zero.
pub open spec fn ledger_ok(holders: Seq<Holder>) -> bool {
    distinct_wallets(holders) && positive_balances(holders)
}

impl LotteryState {
    /// The invariant of the record: a clean ledger, and the next draw due
    /// exactly one epoch after the last.
    pub open spec fn well_formed(self) -> bool {
        &&& ledger_ok(self.holders)
        &&& self.next_draw_time == self.last_draw_time + EPOCH_SECONDS
    }
}

impl SolottoState {
    /// The invariant of the record, stated on its model.
    pub open spec fn well_formed(&self) -> bool {
        self@.well_formed()
    }
}

} // verus!
