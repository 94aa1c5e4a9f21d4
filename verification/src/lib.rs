//! Holder ledger and weekly draw of a fee-skimming token lottery.

pub mod draw;
pub mod entropy;
pub mod fees;
pub mod identity;
pub mod ledger;
pub mod program;
pub mod selection;
pub mod state;

pub use program::{
    authorize_draw, draw_is_due, force_draw, initialize, process_transfer, update_holder_balance,
    ForceDraw, Initialize, ProcessTransfer, UpdateHolderBalance,
};
pub use state::{SolottoError, SolottoState};
