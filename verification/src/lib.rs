//! A role-gated price feed for a catalogue of tokens.
//!
//! Whitelisted submitters push price observations; an observation is
//! committed to the current-value store and the append-only time series
//! unless it deviates from the last committed value by more than the
//! configured threshold fraction, in which case it is parked for manual
//! admin review instead. The engine is the [`contract`] module: every
//! command and query is specified against the mathematical view of the
//! state ([`state::StateView`]) and verified to realize exactly its
//! transition; [`laws`] states the feed's guarantees over those
//! transitions.
//!
//! Prices, thresholds and deviations are fixed-point decimals carried as
//! `u128` counts of atomic units, [`DECIMAL_ONE`] atomics to the whole
//! unit.

pub mod contract;
pub mod error;
pub mod helpers;
pub mod history;
pub mod laws;
pub mod msg;
pub mod state;
pub mod store;

pub use crate::contract::{execute, instantiate, query};
pub use crate::error::ContractError;
pub use crate::msg::{
    AllPricesResponse, ConfigResponse, ExecuteMsg, InstantiateMsg, PendingUpdatesResponse,
    PriceHistoryResponse, QueryMsg, TokenPriceResponse, WhitelistedUpdatersResponse,
};

use vstd::prelude::*;

verus! {

/// One whole unit in the fixed-point decimal encoding used for prices and
/// threshold fractions: values carry 18 fractional digits, so a price `p`
/// stands for the rational number `p / 1_000_000_000_000_000_000`.
pub const DECIMAL_ONE: u128 = 1_000_000_000_000_000_000;

} // verus!
