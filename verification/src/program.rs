//! The operations on the record: creation, processing a transfer, a
//! holder's own balance report, and the draw forced by the authority.
//!
//! Each operation takes the values its caller has read from the accounts,
//! the clock and the entropy source, and leaves moving tokens to the caller.

use crate::draw::{draw_winner, lemma_draw_keeps_record};
use crate::fees::{plan_of, plan_transfer, tallied_on, tally, FeeRoute, TransferPlan};
use crate::identity::Identity;
use crate::ledger::{is_listed, lemma_recorded_keeps_ledger, update_holder};
use crate::state::{ledger_ok, LotteryState, SolottoError, SolottoState, EPOCH_SECONDS};
use vstd::prelude::*;

verus! {

/// What creating the record reads from its accounts.
#[derive(Clone, Copy, Debug, PartialEq, Eq)]
pub struct Initialize {
    /// The signer that creates the record and becomes its authority.
    pub authority: Identity,
    /// The token the lottery runs on.
    pub mint: Identity,
    /// Address bump of the record.
    pub bump: u8,
}

/// What processing a transfer reads from its accounts.
#[derive(Clone, Copy, Debug, PartialEq, Eq)]
pub struct ProcessTransfer {
    /// The sending wallet.
    pub from: Identity,
    /// The balance reported for the sender.
    pub from_balance: u64,
    /// The receiving wallet.
    pub to: Identity,
    /// The balance reported for the recipient.
    pub to_balance: u64,
    /// Whether the winner's receiving account was supplied.
    pub has_winner_account: bool,
    /// Whether the authority's receiving account was supplied.
    pub has_authority_account: bool,
}

/// What a holder's balance report reads from its accounts.
#[derive(Clone, Copy, Debug, PartialEq, Eq)]
pub struct UpdateHolderBalance {
    /// The reporting wallet.
    pub holder: Identity,
    /// The balance of its token account.
    pub balance: u64,
}

/// What a forced draw reads from its accounts.
#[derive(Clone, Copy, Debug, PartialEq, Eq)]
pub struct ForceDraw {
    /// The signer asking for the draw.
    pub authority: Identity,
}

impl LotteryState {
    /// The record right after its creation at `now`.
    pub open spec fn created(accounts: Initialize, now: int) -> LotteryState {
        LotteryState {
            authority: accounts.authority,
            authority_wallet: accounts.authority,
            mint: accounts.mint,
            last_draw_time: now,
            next_draw_time: now + EPOCH_SECONDS,
            holders: Seq::empty(),
            current_winner: None,
            winner_fees_distributed: 0,
            authority_fees_distributed: 0,
            bump: accounts.bump,
        }
    }

    /// The plan for a transfer of `amount` under this record.
    pub open spec fn plan(self, accounts: ProcessTransfer, amount: u64) -> TransferPlan {
        plan_of(
            amount,
            self.current_winner is Some,
            accounts.has_winner_account,
            accounts.has_authority_account,
        )
    }

    /// The record with the fees of `plan` added to the running totals.
    pub open spec fn settled(self, plan: TransferPlan) -> LotteryState {
        LotteryState {
            winner_fees_distributed: tallied_on(
                self.winner_fees_distributed,
                plan.winner_fee,
                plan.winner_route,
            ),
            authority_fees_distributed: tallied_on(
                self.authority_fees_distributed,
                plan.authority_fee,
                plan.authority_route,
            ),
            ..self
        }
    }

    /// Whether the epoch has elapsed at `time`, so that a draw is due.
    pub open spec fn draw_due(self, time: int) -> bool {
        time >= self.next_draw_time
    }

    /// Whether `requester` may force a draw: only the authority may.
    pub open spec fn may_force_draw(self, requester: Identity) -> bool {
        requester == self.authority
    }

    /// The record with a draw run at `time` if one is due by then.
    pub open spec fn drawn_if_due(self, time: i64, entropy: u64) -> LotteryState {
        if self.draw_due(time as int) {
            self.drawn_at(time, entropy)
        } else {
            self
        }
    }

    /// The record after a transfer of `amount` was processed at `time`: fees
    /// tallied, both parties' balances recorded, and a draw run if due.
    pub open spec fn transferred(
        self,
        accounts: ProcessTransfer,
        amount: u64,
        time: i64,
        entropy: u64,
    ) -> LotteryState {
        self.settled(self.plan(accounts, amount)).recorded(
            accounts.from,
            accounts.from_balance,
        ).recorded(accounts.to, accounts.to_balance).drawn_if_due(time, entropy)
    }
}

/// Processing a transfer keeps a well-formed record well formed, never lowers
/// a running total, and leaves the next draw in the future.
pub proof fn lemma_transfer_keeps_record(
    state: LotteryState,
    accounts: ProcessTransfer,
    amount: u64,
    time: i64,
    entropy: u64,
)
    requires
        state.well_formed(),
    ensures
        state.transferred(accounts, amount, time, entropy).well_formed(),
        state.transferred(accounts, amount, time, entropy).winner_fees_distributed
            >= state.winner_fees_distributed,
        state.transferred(accounts, amount, time, entropy).authority_fees_distributed
            >= state.authority_fees_distributed,
        state.transferred(accounts, amount, time, entropy).next_draw_time > time,
{
    let settled = state.settled(state.plan(accounts, amount));
    let sent = settled.recorded(accounts.from, accounts.from_balance);
    let received = sent.recorded(accounts.to, accounts.to_balance);
    lemma_recorded_keeps_ledger(settled.holders, accounts.from, accounts.from_balance);
    lemma_recorded_keeps_ledger(sent.holders, accounts.to, accounts.to_balance);
    lemma_draw_keeps_record(received, time, entropy);
}

/// Creates the record at time `now`: the signer is authority and fee
/// recipient, the ledger is empty, nobody has won yet, and the first draw is
/// due one epoch from now.
pub fn initialize(accounts: &Initialize, now: i64) -> (solotto: SolottoState)
    requires
        now + EPOCH_SECONDS <= i64::MAX,
    ensures
        solotto@ == LotteryState::created(*accounts, now as int),
        solotto.well_formed(),
{
    SolottoState {
        authority: accounts.authority,
        authority_wallet: accounts.authority,
        mint: accounts.mint,
        last_draw_time: now,
        next_draw_time: now + EPOCH_SECONDS,
        holders: Vec::new(),
        current_winner: None,
        winner_fees_distributed: 0,
        authority_fees_distributed: 0,
        bump: accounts.bump,
    }
}

/// Whether the epoch has elapsed at `current_time`, so that a draw is due.
pub fn draw_is_due(solotto: &SolottoState, current_time: i64) -> (due: bool)
    ensures
        due == solotto@.draw_due(current_time as int),
{
    current_time >= solotto.next_draw_time
}

/// Processes a transfer of `amount` at `current_time`.
///
/// Returns the three transfers the caller has to carry out. On the record,
/// each fee that goes to its designated account is added to its running
/// total, the reported balances of sender and recipient are recorded, and a
/// draw is run if the epoch has elapsed.
pub fn process_transfer(
    solotto: &mut SolottoState,
    accounts: &ProcessTransfer,
    amount: u64,
    current_time: i64,
    entropy_seed: u64,
) -> (plan: TransferPlan)
    requires
        old(solotto)@.draw_due(current_time as int) ==> current_time + EPOCH_SECONDS <= i64::MAX,
    ensures
        plan == old(solotto)@.plan(*accounts, amount),
        plan.net_amount + plan.winner_fee + plan.authority_fee == amount,
        final(solotto)@ == old(solotto)@.transferred(
            *accounts,
            amount,
            current_time,
            entropy_seed,
        ),
        final(solotto).winner_fees_distributed >= old(solotto).winner_fees_distributed,
        final(solotto).authority_fees_distributed >= old(solotto).authority_fees_distributed,
        final(solotto).next_draw_time > current_time,
        old(solotto).well_formed() ==> final(solotto).well_formed(),
{
    let plan = plan_transfer(
        amount,
        solotto.current_winner.is_some(),
        accounts.has_winner_account,
        accounts.has_authority_account,
    );
    match plan.winner_route {
        FeeRoute::Designated => {
            solotto.winner_fees_distributed = tally(
                solotto.winner_fees_distributed,
                plan.winner_fee,
            );
        },
        _ => {},
    }
    match plan.authority_route {
        FeeRoute::Designated => {
            solotto.authority_fees_distributed = tally(
                solotto.authority_fees_distributed,
                plan.authority_fee,
            );
        },
        _ => {},
    }
    update_holder(solotto, accounts.from, accounts.from_balance);
    update_holder(solotto, accounts.to, accounts.to_balance);
    if draw_is_due(solotto, current_time) {
        draw_winner(solotto, current_time, entropy_seed);
    }
    plan
}

/// Records the balance a holder reports for its own wallet.
pub fn update_holder_balance(solotto: &mut SolottoState, accounts: &UpdateHolderBalance)
    ensures
        final(solotto)@ == old(solotto)@.recorded(accounts.holder, accounts.balance),
        ledger_ok(old(solotto)@.holders) ==> ledger_ok(final(solotto)@.holders),
        old(solotto).well_formed() ==> final(solotto).well_formed(),
        accounts.balance == 0 && !is_listed(old(solotto)@.holders, accounts.holder)
            ==> final(solotto)@ == old(solotto)@,
{
    update_holder(solotto, accounts.holder, accounts.balance);
}

/// Decides whether a forced draw may go ahead: it may for the authority of
/// the record, and for nobody else.
pub fn authorize_draw(solotto: &SolottoState, accounts: &ForceDraw) -> (result: Result<
    (),
    SolottoError,
>)
    ensures
        result is Ok <==> solotto@.may_force_draw(accounts.authority),
        result is Err ==> result == Err::<(), SolottoError>(SolottoError::NotAuthorized),
{
    if solotto.authority != accounts.authority {
        return Err(SolottoError::NotAuthorized);
    }
    Ok(())
}

/// Runs a draw at once, if the requester is the authority of the record.
///
/// Anyone else is turned away and the record stays as it was.
pub fn force_draw(
    solotto: &mut SolottoState,
    accounts: &ForceDraw,
    current_time: i64,
    entropy_seed: u64,
) -> (result: Result<(), SolottoError>)
    requires
        old(solotto)@.may_force_draw(accounts.authority) ==> current_time + EPOCH_SECONDS
            <= i64::MAX,
    ensures
        result is Ok <==> old(solotto)@.may_force_draw(accounts.authority),
        result is Err ==> result == Err::<(), SolottoError>(SolottoError::NotAuthorized)
            && *final(solotto) == *old(solotto),
        result is Ok ==> final(solotto)@ == old(solotto)@.drawn_at(current_time, entropy_seed)
            && final(solotto).last_draw_time == current_time && final(solotto).next_draw_time
            == current_time + EPOCH_SECONDS,
        old(solotto).well_formed() ==> final(solotto).well_formed(),
{
    match authorize_draw(solotto, accounts) {
        Err(refusal) => Err(refusal),
        Ok(()) => {
            draw_winner(solotto, current_time, entropy_seed);
            Ok(())
        },
    }
}

} // verus!
