//! The oracle's state and its mathematical view.

use vstd::prelude::*;

use crate::DECIMAL_ONE;
use crate::msg::{PendingUpdate, PendingView, PriceHistoryEntry, TokenPrice};
use crate::store::{assoc_map, keys_distinct};

verus! {

/// The oracle's configuration: who owns it, who administers it, and the
/// maximal deviation fraction (in atomics) tolerated before a submission is
/// parked for review.
#[derive(Debug)]
pub struct Config {
    pub owner: String,
    pub admin: String,
    pub price_deviation_threshold: u128,
}

/// A registry entry for one token. Removal flips `supported` to false
/// rather than deleting the entry, so historical keys stay valid.
#[derive(Debug, Clone, Copy, PartialEq, Eq, Structural)]
pub struct TokenInfo {
    pub supported: bool,
}

impl View for TokenInfo {
    type V = TokenInfo;

    open spec fn view(&self) -> TokenInfo {
        *self
    }
}

/// The whole state of the oracle. Every store is an association list with
/// pairwise-distinct keys; [`OracleState::view`] abstracts each to a map.
#[derive(Debug)]
pub struct OracleState {
    pub config: Config,
    pub whitelisted_updaters: Vec<(String, bool)>,
    pub tokens: Vec<(String, TokenInfo)>,
    pub prices: Vec<(String, TokenPrice)>,
    pub pending_updates: Vec<(String, PendingUpdate)>,
    pub price_history: Vec<(String, Vec<PriceHistoryEntry>)>,
}

/// The mathematical view of the state: maps from token identifiers (as
/// character sequences) to what each store holds.
#[verifier::ext_equal]
pub struct StateView {
    pub owner: Seq<char>,
    pub admin: Seq<char>,
    pub threshold: u128,
    pub updaters: Map<Seq<char>, bool>,
    pub tokens: Map<Seq<char>, TokenInfo>,
    pub prices: Map<Seq<char>, TokenPrice>,
    pub pending: Map<Seq<char>, PendingView>,
    pub history: Map<Seq<char>, Seq<PriceHistoryEntry>>,
}

impl View for OracleState {
    type V = StateView;

    open spec fn view(&self) -> StateView {
        StateView {
            owner: self.config.owner@,
            admin: self.config.admin@,
            threshold: self.config.price_deviation_threshold,
            updaters: assoc_map(self.whitelisted_updaters@),
            tokens: assoc_map(self.tokens@),
            prices: assoc_map(self.prices@),
            pending: assoc_map(self.pending_updates@),
            history: assoc_map(self.price_history@),
        }
    }
}

/// The caller is the configured owner.
pub open spec fn spec_is_owner(v: StateView, addr: Seq<char>) -> bool {
    addr == v.owner
}

/// The caller holds admin capability: the owner implicitly does.
pub open spec fn spec_is_admin(v: StateView, addr: Seq<char>) -> bool {
    addr == v.admin || addr == v.owner
}

/// The caller may submit prices: admins and the owner implicitly may,
/// besides the explicitly whitelisted updaters.
pub open spec fn spec_is_whitelisted(v: StateView, addr: Seq<char>) -> bool {
    spec_is_admin(v, addr) || (v.updaters.contains_key(addr) && v.updaters[addr])
}

/// The token is registered and currently marked supported.
pub open spec fn spec_supported(v: StateView, token: Seq<char>) -> bool {
    v.tokens.contains_key(token) && v.tokens[token].supported
}

/// Timestamps of a token's time series are strictly increasing: two commits
/// at the same instant overwrite one entry.
pub open spec fn hist_sorted(s: Seq<PriceHistoryEntry>) -> bool {
    forall|i: int, j: int| 0 <= i < j < s.len() ==> s[i].timestamp < s[j].timestamp
}

/// Invariants of the abstract state: the threshold fraction lies in its
/// range, a current price or pending update exists only for a supported
/// token, a pending update records the token it is stored under, and every
/// time series is ordered.
pub open spec fn view_inv(v: StateView) -> bool {
    &&& 0 < v.threshold <= DECIMAL_ONE
    &&& forall|k: Seq<char>| #[trigger] v.prices.contains_key(k) ==> spec_supported(v, k)
    &&& forall|k: Seq<char>| #[trigger] v.pending.contains_key(k) ==> spec_supported(v, k)
    &&& forall|k: Seq<char>| #[trigger] v.pending.contains_key(k) ==> v.pending[k].token_id == k
    &&& forall|k: Seq<char>| #[trigger] v.history.contains_key(k) ==> hist_sorted(v.history[k])
}

impl OracleState {
    /// Well-formedness: distinct keys in every store, and the abstract
    /// invariants.
    pub open spec fn wf(&self) -> bool {
        &&& keys_distinct(self.whitelisted_updaters@)
        &&& keys_distinct(self.tokens@)
        &&& keys_distinct(self.prices@)
        &&& keys_distinct(self.pending_updates@)
        &&& keys_distinct(self.price_history@)
        &&& view_inv(self@)
    }
}

} // verus!
