//! Command, query and response types.
//!
//! Prices, thresholds and deviations are fixed-point decimals carried as
//! their number of atomic units, with [`crate::DECIMAL_ONE`] atomics to the
//! whole unit.

use vstd::prelude::*;

verus! {

/// Parameters accepted at initialization. `owner` defaults to the
/// initializing caller and `admin` to the owner.
#[derive(Debug)]
pub struct InstantiateMsg {
    pub owner: Option<String>,
    pub admin: Option<String>,
    pub price_deviation_threshold: u128,
    pub whitelisted_updaters: Vec<String>,
    pub supported_tokens: Vec<String>,
}

/// A committed price: value in atomics and the time of the last commit.
#[derive(Debug, Clone, Copy, PartialEq, Eq, Structural)]
pub struct TokenPrice {
    pub usd: u128,
    pub last_updated: u64,
}

/// A batch of price observations, one per token.
#[derive(Debug)]
pub struct PriceData {
    pub prices: Vec<(String, TokenPriceInfo)>,
}

/// One submitted price observation.
#[derive(Debug, Clone, Copy, PartialEq, Eq, Structural)]
pub struct TokenPriceInfo {
    pub usd: u128,
}

/// The mutating commands.
#[derive(Debug)]
pub enum ExecuteMsg {
    UpdateOwner { new_owner: String },
    UpdateAdmin { new_admin: String },
    SetDeviationThreshold { threshold: u128 },
    AddWhitelistedUpdater { updater: String },
    RemoveWhitelistedUpdater { updater: String },
    AddSupportedToken { token_id: String },
    RemoveSupportedToken { token_id: String },
    UpdatePrices { price_data: PriceData },
    UpdateSinglePrice { token_id: String, price_info: TokenPriceInfo },
    ApprovePrice { token_id: String, price: u128 },
    RejectPrice { token_id: String },
}

/// The read-only queries.
#[derive(Debug)]
pub enum QueryMsg {
    Config {},
    TokenPrice { token_id: String },
    AllPrices {},
    PriceHistory { token_id: String, start_time: Option<u64>, end_time: Option<u64>, limit: Option<u32> },
    PendingUpdates {},
    SupportedTokens {},
    WhitelistedUpdaters {},
}

/// How a single submitted observation was resolved.
#[derive(Debug, Clone, Copy, PartialEq, Eq, Structural)]
pub enum PriceUpdateStatus {
    /// The observation was committed to the current-price store and history.
    Updated,
    /// The observation deviated beyond the threshold and was parked for
    /// review; `deviation` is the computed deviation fraction in atomics.
    PendingApproval { deviation: u128 },
}

/// What a successful command reports back.
#[derive(Debug)]
pub enum ExecuteOutcome {
    /// A configuration or registry command completed.
    Done,
    /// A single-price submission, with its resolution.
    SinglePrice(PriceUpdateStatus),
    /// A batch submission, with each token's resolution in batch order.
    Batch(Vec<(String, PriceUpdateStatus)>),
}

#[derive(Debug)]
pub struct ConfigResponse {
    pub owner: String,
    pub admin: String,
    pub price_deviation_threshold: u128,
}

#[derive(Debug)]
pub struct TokenPriceResponse {
    pub token_id: String,
    pub price: u128,
    pub last_updated: u64,
}

#[derive(Debug)]
pub struct AllPricesResponse {
    pub prices: Vec<(String, TokenPrice)>,
}

/// One point of a token's time series.
#[derive(Debug, Clone, Copy, PartialEq, Eq, Structural)]
pub struct PriceHistoryEntry {
    pub price: u128,
    pub timestamp: u64,
}

#[derive(Debug)]
pub struct PriceHistoryResponse {
    pub token_id: String,
    pub history: Vec<PriceHistoryEntry>,
}

/// A submission parked for manual review. At most one exists per token; a
/// fresh over-threshold submission overwrites it.
#[derive(Debug, PartialEq, Eq)]
pub struct PendingUpdate {
    pub token_id: String,
    pub current_price: u128,
    pub new_price: u128,
    pub percent_change: u128,
    pub requested_at: u64,
}

/// The mathematical image of a `PendingUpdate`.
pub struct PendingView {
    pub token_id: Seq<char>,
    pub current_price: u128,
    pub new_price: u128,
    pub percent_change: u128,
    pub requested_at: u64,
}

impl View for PendingUpdate {
    type V = PendingView;

    open spec fn view(&self) -> PendingView {
        PendingView {
            token_id: self.token_id@,
            current_price: self.current_price,
            new_price: self.new_price,
            percent_change: self.percent_change,
            requested_at: self.requested_at,
        }
    }
}

#[derive(Debug)]
pub struct PendingUpdatesResponse {
    pub updates: Vec<PendingUpdate>,
}

#[derive(Debug)]
pub struct WhitelistedUpdatersResponse {
    pub updaters: Vec<String>,
}

#[derive(Debug)]
pub struct SupportedTokensResponse {
    pub tokens: Vec<String>,
}

/// The data a successful query returns, one variant per `QueryMsg` variant.
#[derive(Debug)]
pub enum QueryResponse {
    Config(ConfigResponse),
    TokenPrice(TokenPriceResponse),
    AllPrices(AllPricesResponse),
    PriceHistory(PriceHistoryResponse),
    PendingUpdates(PendingUpdatesResponse),
    SupportedTokens(SupportedTokensResponse),
    WhitelistedUpdaters(WhitelistedUpdatersResponse),
}

impl View for TokenPrice {
    type V = TokenPrice;

    open spec fn view(&self) -> TokenPrice {
        *self
    }
}

impl View for TokenPriceInfo {
    type V = TokenPriceInfo;

    open spec fn view(&self) -> TokenPriceInfo {
        *self
    }
}

} // verus!
