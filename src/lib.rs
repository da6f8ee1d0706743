//! Hash time-locked escrows for atomic swaps between two ledgers.
//!
//! A maker and a resolver (the taker) lock funds on either ledger under the same
//! hashlock. Revealing the secret within the staged time windows completes both sides;
//! past the last window each side can be cancelled and its funds return.

pub mod guarantees;
pub mod identity;
pub mod ledger;
pub mod pallet;
pub mod registry;
pub mod types;

pub use crate::ledger::{AccountData, Balances, LedgerError};
pub use crate::pallet::{Config, Pallet};
pub use crate::registry::Registry;
pub use crate::types::{
    AccountId, Balance, BlockNumber, Error, Event, HoldReason, Htlc, HtlcStatus, HtlcType,
    Immutables, IntentStatus, StoredSwapIntent, SwapIntent, Timelocks, H160, H256,
};
