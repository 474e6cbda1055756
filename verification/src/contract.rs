//! The command-processing engine: initialization, the mutating commands and
//! the read-only queries.
//!
//! Each command has a specification-level transition function describing
//! the state it leads to, or the error it fails with; the executable
//! command is proved to realize exactly that transition. An error is
//! terminal: the state is left as it was.

use vstd::prelude::*;

use crate::DECIMAL_ONE;
use crate::error::{ContractError, ErrorView};
use crate::helpers::{
    calculate_price_deviation, deviation_fits, is_admin, is_owner, is_token_supported,
    is_whitelisted, spec_deviation, validate_threshold,
};
use crate::history::{hist_put, lemma_hist_put_sorted};
use crate::msg::{
    AllPricesResponse, ConfigResponse, ExecuteMsg, ExecuteOutcome, InstantiateMsg, PendingUpdate,
    PendingUpdatesResponse, PendingView, PriceData, PriceHistoryEntry, PriceHistoryResponse,
    PriceUpdateStatus, QueryMsg, QueryResponse, SupportedTokensResponse, TokenPrice,
    TokenPriceInfo, TokenPriceResponse, WhitelistedUpdatersResponse,
};
use crate::state::{
    spec_is_admin, spec_is_owner, spec_is_whitelisted, spec_supported, Config, OracleState,
    StateView, TokenInfo,
};
use crate::store::{assoc_get, assoc_map, assoc_remove, assoc_upsert};

verus! {

/// The whitelist described by a list of addresses: each listed address is
/// flagged as an updater.
pub open spec fn spec_flag_map(s: Seq<String>) -> Map<Seq<char>, bool>
    decreases s.len(),
{
    if s.len() == 0 {
        Map::empty()
    } else {
        spec_flag_map(s.drop_last()).insert(s.last()@, true)
    }
}

/// The registry described by a list of token identifiers: each listed token
/// is supported.
pub open spec fn spec_token_map(s: Seq<String>) -> Map<Seq<char>, TokenInfo>
    decreases s.len(),
{
    if s.len() == 0 {
        Map::empty()
    } else {
        spec_token_map(s.drop_last()).insert(s.last()@, TokenInfo { supported: true })
    }
}

/// The state initialization builds: owner defaults to the initializing
/// caller, admin to the owner, and the stores hold only what the message
/// names.
pub open spec fn spec_init_view(msg: InstantiateMsg, sender: Seq<char>) -> StateView {
    let owner = match msg.owner {
        Some(o) => o@,
        None => sender,
    };
    let admin = match msg.admin {
        Some(a) => a@,
        None => owner,
    };
    StateView {
        owner,
        admin,
        threshold: msg.price_deviation_threshold,
        updaters: spec_flag_map(msg.whitelisted_updaters@),
        tokens: spec_token_map(msg.supported_tokens@),
        prices: Map::empty(),
        pending: Map::empty(),
        history: Map::empty(),
    }
}

/// Only the owner may hand ownership on.
pub open spec fn spec_update_owner(v: StateView, sender: Seq<char>, new_owner: Seq<char>) -> Result<
    StateView,
    ErrorView,
> {
    if !spec_is_owner(v, sender) {
        Err(ErrorView::Unauthorized)
    } else {
        Ok(StateView { owner: new_owner, ..v })
    }
}

/// Only the owner may appoint the admin.
pub open spec fn spec_update_admin(v: StateView, sender: Seq<char>, new_admin: Seq<char>) -> Result<
    StateView,
    ErrorView,
> {
    if !spec_is_owner(v, sender) {
        Err(ErrorView::Unauthorized)
    } else {
        Ok(StateView { admin: new_admin, ..v })
    }
}

/// An admin may move the threshold anywhere inside `(0, 1]`.
pub open spec fn spec_set_deviation_threshold(v: StateView, sender: Seq<char>, threshold: u128)
    -> Result<StateView, ErrorView> {
    if !spec_is_admin(v, sender) {
        Err(ErrorView::Unauthorized)
    } else if threshold == 0 || threshold > DECIMAL_ONE {
        Err(ErrorView::InvalidThreshold("Threshold must be between 0 and 100 percent"@))
    } else {
        Ok(StateView { threshold, ..v })
    }
}

/// An admin may whitelist an updater not yet flagged.
pub open spec fn spec_add_whitelisted_updater(v: StateView, sender: Seq<char>, updater: Seq<char>)
    -> Result<StateView, ErrorView> {
    if !spec_is_admin(v, sender) {
        Err(ErrorView::Unauthorized)
    } else if v.updaters.contains_key(updater) && v.updaters[updater] {
        Err(ErrorView::UpdaterAlreadyWhitelisted(updater))
    } else {
        Ok(StateView { updaters: v.updaters.insert(updater, true), ..v })
    }
}

/// An admin may strike a flagged updater from the whitelist.
pub open spec fn spec_remove_whitelisted_updater(
    v: StateView,
    sender: Seq<char>,
    updater: Seq<char>,
) -> Result<StateView, ErrorView> {
    if !spec_is_admin(v, sender) {
        Err(ErrorView::Unauthorized)
    } else if !(v.updaters.contains_key(updater) && v.updaters[updater]) {
        Err(ErrorView::UpdaterNotWhitelisted(updater))
    } else {
        Ok(StateView { updaters: v.updaters.remove(updater), ..v })
    }
}

/// An admin may register a token that is not currently supported; a
/// previously removed token becomes supported again.
pub open spec fn spec_add_supported_token(v: StateView, sender: Seq<char>, token: Seq<char>)
    -> Result<StateView, ErrorView> {
    if !spec_is_admin(v, sender) {
        Err(ErrorView::Unauthorized)
    } else if spec_supported(v, token) {
        Err(ErrorView::TokenAlreadySupported(token))
    } else {
        Ok(StateView { tokens: v.tokens.insert(token, TokenInfo { supported: true }), ..v })
    }
}

/// An admin may remove a supported token: the registry entry is kept but
/// unflagged (a soft delete), the token's current price and pending update
/// are purged, and its history is retained.
pub open spec fn spec_remove_supported_token(v: StateView, sender: Seq<char>, token: Seq<char>)
    -> Result<StateView, ErrorView> {
    if !spec_is_admin(v, sender) {
        Err(ErrorView::Unauthorized)
    } else if !spec_supported(v, token) {
        Err(ErrorView::TokenNotSupported(token))
    } else {
        Ok(
            StateView {
                tokens: v.tokens.insert(token, TokenInfo { supported: false }),
                prices: v.prices.remove(token),
                pending: v.pending.remove(token),
                ..v
            },
        )
    }
}

/// A token's stored time series, empty when none was recorded yet.
pub open spec fn spec_hist_of(v: StateView, token: Seq<char>) -> Seq<PriceHistoryEntry> {
    if v.history.contains_key(token) {
        v.history[token]
    } else {
        Seq::empty()
    }
}

/// Commit an observation: the current price becomes `usd` at `now` and the
/// time series gains (or overwrites) the entry at `now`. Any pending update
/// for the token is deliberately left as it is.
pub open spec fn spec_commit(v: StateView, token: Seq<char>, usd: u128, now: u64) -> StateView {
    StateView {
        prices: v.prices.insert(token, TokenPrice { usd, last_updated: now }),
        history: v.history.insert(token, hist_put(spec_hist_of(v, token), now, usd)),
        ..v
    }
}

/// Evaluate one observation for a supported token. A first-ever observation
/// commits unconditionally; one within the threshold commits; one beyond it
/// leaves price and history untouched and replaces the token's pending
/// update.
pub open spec fn spec_apply_observation(v: StateView, token: Seq<char>, usd: u128, now: u64) -> (
    StateView,
    PriceUpdateStatus,
) {
    if v.prices.contains_key(token) && spec_deviation(v.prices[token].usd, usd)
        > v.threshold as int {
        let dev = spec_deviation(v.prices[token].usd, usd) as u128;
        (
            StateView {
                pending: v.pending.insert(
                    token,
                    PendingView {
                        token_id: token,
                        current_price: v.prices[token].usd,
                        new_price: usd,
                        percent_change: dev,
                        requested_at: now,
                    },
                ),
                ..v
            },
            PriceUpdateStatus::PendingApproval { deviation: dev },
        )
    } else {
        (spec_commit(v, token, usd, now), PriceUpdateStatus::Updated)
    }
}

/// A single-price submission: whitelisted callers only, supported tokens
/// only, then the observation is evaluated.
pub open spec fn spec_update_single_price(
    v: StateView,
    sender: Seq<char>,
    token: Seq<char>,
    usd: u128,
    now: u64,
) -> Result<(StateView, PriceUpdateStatus), ErrorView> {
    if !spec_is_whitelisted(v, sender) {
        Err(ErrorView::Unauthorized)
    } else if !spec_supported(v, token) {
        Err(ErrorView::TokenNotSupported(token))
    } else {
        Ok(spec_apply_observation(v, token, usd, now))
    }
}

/// The first token of the batch that is not supported, in batch order.
pub open spec fn spec_first_unsupported(v: StateView, items: Seq<(String, TokenPriceInfo)>)
    -> Option<Seq<char>>
    decreases items.len(),
{
    if items.len() == 0 {
        None
    } else if !spec_supported(v, items.first().0@) {
        Some(items.first().0@)
    } else {
        spec_first_unsupported(v, items.drop_first())
    }
}

/// Evaluate a batch of observations in order, threading the state and
/// recording each token's resolution.
pub open spec fn spec_apply_batch(v: StateView, items: Seq<(String, TokenPriceInfo)>, now: u64)
    -> (StateView, Seq<PriceUpdateStatus>)
    decreases items.len(),
{
    if items.len() == 0 {
        (v, Seq::empty())
    } else {
        let (v1, st) = spec_apply_observation(v, items.first().0@, items.first().1.usd, now);
        let (v2, rest) = spec_apply_batch(v1, items.drop_first(), now);
        (v2, seq![st] + rest)
    }
}

/// A batch submission: authorization is checked once; if any token is
/// unsupported the whole call fails and nothing is kept; otherwise every
/// item is evaluated as a single submission would be.
pub open spec fn spec_update_prices(
    v: StateView,
    sender: Seq<char>,
    items: Seq<(String, TokenPriceInfo)>,
    now: u64,
) -> Result<(StateView, Seq<PriceUpdateStatus>), ErrorView> {
    if !spec_is_whitelisted(v, sender) {
        Err(ErrorView::Unauthorized)
    } else {
        match spec_first_unsupported(v, items) {
            Some(t) => Err(ErrorView::TokenNotSupported(t)),
            None => Ok(spec_apply_batch(v, items, now)),
        }
    }
}

/// An admin resolves a pending update by committing the price of their
/// choice — which may differ from the submitted one — and clearing the
/// pending entry.
pub open spec fn spec_approve_price(
    v: StateView,
    sender: Seq<char>,
    token: Seq<char>,
    price: u128,
    now: u64,
) -> Result<StateView, ErrorView> {
    if !spec_is_admin(v, sender) {
        Err(ErrorView::Unauthorized)
    } else if !spec_supported(v, token) {
        Err(ErrorView::TokenNotSupported(token))
    } else if !v.pending.contains_key(token) {
        Err(ErrorView::NoPendingUpdate(token))
    } else {
        let c = spec_commit(v, token, price, now);
        Ok(StateView { pending: v.pending.remove(token), ..c })
    }
}

/// An admin discards a pending update; the committed price is untouched.
pub open spec fn spec_reject_price(v: StateView, sender: Seq<char>, token: Seq<char>) -> Result<
    StateView,
    ErrorView,
> {
    if !spec_is_admin(v, sender) {
        Err(ErrorView::Unauthorized)
    } else if !v.pending.contains_key(token) {
        Err(ErrorView::NoPendingUpdate(token))
    } else {
        Ok(StateView { pending: v.pending.remove(token), ..v })
    }
}

/// Build the initial state. Fails exactly when the threshold fraction lies
/// outside `(0, 1]`.
pub fn instantiate(msg: InstantiateMsg, sender: &String) -> (r: Result<OracleState, ContractError>)
    ensures
        match r {
            Ok(st) => {
                &&& 0 < msg.price_deviation_threshold <= DECIMAL_ONE
                &&& st.wf()
                &&& st@ == spec_init_view(msg, sender@)
            },
            Err(e) => {
                &&& !(0 < msg.price_deviation_threshold <= DECIMAL_ONE)
                &&& e@ == ErrorView::InvalidThreshold(
                    "Threshold must be between 0 and 100 percent"@,
                )
            },
        },
{
    let InstantiateMsg {
        owner: m_owner,
        admin: m_admin,
        price_deviation_threshold,
        whitelisted_updaters,
        supported_tokens,
    } = msg;
    let owner = match m_owner {
        Some(o) => o,
        None => sender.clone(),
    };
    let admin = match m_admin {
        Some(a) => a,
        None => owner.clone(),
    };
    if let Err(e) = validate_threshold(price_deviation_threshold) {
        return Err(e);
    }

    let mut wl: Vec<(String, bool)> = Vec::new();
    let n = whitelisted_updaters.len();
    let mut i: usize = 0;
    proof {
        assert(assoc_map(wl@) =~= spec_flag_map(whitelisted_updaters@.subrange(0, 0)));
    }
    while i < n
        invariant
            n == whitelisted_updaters@.len(),
            i <= n,
            crate::store::keys_distinct(wl@),
            assoc_map(wl@) == spec_flag_map(whitelisted_updaters@.subrange(0, i as int)),
        decreases n - i,
    {
        assoc_upsert(&mut wl, whitelisted_updaters[i].clone(), true);
        proof {
            let pre = whitelisted_updaters@.subrange(0, i as int);
            let cur = whitelisted_updaters@.subrange(0, i + 1);
            assert(cur.drop_last() =~= pre);
            assert(cur.last() == whitelisted_updaters@[i as int]);
        }
        i = i + 1;
    }
    proof {
        assert(whitelisted_updaters@.subrange(0, n as int) =~= whitelisted_updaters@);
    }

    let mut toks: Vec<(String, TokenInfo)> = Vec::new();
    let tn = supported_tokens.len();
    let mut j: usize = 0;
    proof {
        assert(assoc_map(toks@) =~= spec_token_map(supported_tokens@.subrange(0, 0)));
    }
    while j < tn
        invariant
            tn == supported_tokens@.len(),
            j <= tn,
            crate::store::keys_distinct(toks@),
            assoc_map(toks@) == spec_token_map(supported_tokens@.subrange(0, j as int)),
        decreases tn - j,
    {
        assoc_upsert(&mut toks, supported_tokens[j].clone(), TokenInfo { supported: true });
        proof {
            let pre = supported_tokens@.subrange(0, j as int);
            let cur = supported_tokens@.subrange(0, j + 1);
            assert(cur.drop_last() =~= pre);
            assert(cur.last() == supported_tokens@[j as int]);
        }
        j = j + 1;
    }
    proof {
        assert(supported_tokens@.subrange(0, tn as int) =~= supported_tokens@);
    }

    let st = OracleState {
        config: Config { owner, admin, price_deviation_threshold },
        whitelisted_updaters: wl,
        tokens: toks,
        prices: Vec::new(),
        pending_updates: Vec::new(),
        price_history: Vec::new(),
    };
    proof {
        assert(assoc_map(st.prices@) =~= Map::<Seq<char>, TokenPrice>::empty());
        assert(assoc_map(st.pending_updates@) =~= Map::<Seq<char>, PendingView>::empty());
        assert(assoc_map(st.price_history@) =~= Map::<Seq<char>, Seq<PriceHistoryEntry>>::empty());
    }
    Ok(st)
}

/// Hand ownership to `new_owner`.
pub fn execute_update_owner(state: &mut OracleState, sender: &String, new_owner: String) -> (r:
    Result<(), ContractError>)
    requires
        old(state).wf(),
    ensures
        final(state).wf(),
        match spec_update_owner(old(state)@, sender@, new_owner@) {
            Ok(v2) => r is Ok && final(state)@ == v2,
            Err(e) => r matches Err(ce) && ce@ == e && final(state)@ == old(state)@,
        },
{
    if !is_owner(state, sender) {
        return Err(ContractError::Unauthorized {});
    }
    state.config.owner = new_owner;
    Ok(())
}

/// Appoint `new_admin` as admin.
pub fn execute_update_admin(state: &mut OracleState, sender: &String, new_admin: String) -> (r:
    Result<(), ContractError>)
    requires
        old(state).wf(),
    ensures
        final(state).wf(),
        match spec_update_admin(old(state)@, sender@, new_admin@) {
            Ok(v2) => r is Ok && final(state)@ == v2,
            Err(e) => r matches Err(ce) && ce@ == e && final(state)@ == old(state)@,
        },
{
    if !is_owner(state, sender) {
        return Err(ContractError::Unauthorized {});
    }
    state.config.admin = new_admin;
    Ok(())
}

/// Move the deviation threshold.
pub fn execute_set_deviation_threshold(state: &mut OracleState, sender: &String, threshold: u128)
    -> (r: Result<(), ContractError>)
    requires
        old(state).wf(),
    ensures
        final(state).wf(),
        match spec_set_deviation_threshold(old(state)@, sender@, threshold) {
            Ok(v2) => r is Ok && final(state)@ == v2,
            Err(e) => r matches Err(ce) && ce@ == e && final(state)@ == old(state)@,
        },
{
    if !is_admin(state, sender) {
        return Err(ContractError::Unauthorized {});
    }
    if let Err(e) = validate_threshold(threshold) {
        return Err(e);
    }
    state.config.price_deviation_threshold = threshold;
    Ok(())
}

/// Grant `updater` submission capability.
pub fn execute_add_whitelisted_updater(state: &mut OracleState, sender: &String, updater: String)
    -> (r: Result<(), ContractError>)
    requires
        old(state).wf(),
    ensures
        final(state).wf(),
        match spec_add_whitelisted_updater(old(state)@, sender@, updater@) {
            Ok(v2) => r is Ok && final(state)@ == v2,
            Err(e) => r matches Err(ce) && ce@ == e && final(state)@ == old(state)@,
        },
{
    if !is_admin(state, sender) {
        return Err(ContractError::Unauthorized {});
    }
    let already = match assoc_get(&state.whitelisted_updaters, &updater) {
        Some(f) => *f,
        None => false,
    };
    if already {
        return Err(ContractError::UpdaterAlreadyWhitelisted(updater));
    }
    assoc_upsert(&mut state.whitelisted_updaters, updater, true);
    Ok(())
}

/// Withdraw `updater`'s submission capability.
pub fn execute_remove_whitelisted_updater(state: &mut OracleState, sender: &String, updater: String)
    -> (r: Result<(), ContractError>)
    requires
        old(state).wf(),
    ensures
        final(state).wf(),
        match spec_remove_whitelisted_updater(old(state)@, sender@, updater@) {
            Ok(v2) => r is Ok && final(state)@ == v2,
            Err(e) => r matches Err(ce) && ce@ == e && final(state)@ == old(state)@,
        },
{
    if !is_admin(state, sender) {
        return Err(ContractError::Unauthorized {});
    }
    let listed = match assoc_get(&state.whitelisted_updaters, &updater) {
        Some(f) => *f,
        None => false,
    };
    if !listed {
        return Err(ContractError::UpdaterNotWhitelisted(updater));
    }
    assoc_remove(&mut state.whitelisted_updaters, &updater);
    Ok(())
}

/// Register `token_id` as supported.
pub fn execute_add_supported_token(state: &mut OracleState, sender: &String, token_id: String)
    -> (r: Result<(), ContractError>)
    requires
        old(state).wf(),
    ensures
        final(state).wf(),
        match spec_add_supported_token(old(state)@, sender@, token_id@) {
            Ok(v2) => r is Ok && final(state)@ == v2,
            Err(e) => r matches Err(ce) && ce@ == e && final(state)@ == old(state)@,
        },
{
    if !is_admin(state, sender) {
        return Err(ContractError::Unauthorized {});
    }
    if is_token_supported(state, &token_id) {
        return Err(ContractError::TokenAlreadySupported(token_id));
    }
    assoc_upsert(&mut state.tokens, token_id, TokenInfo { supported: true });
    Ok(())
}

/// Mark `token_id` unsupported and purge its current price and pending
/// update; the token's history is retained.
pub fn execute_remove_supported_token(state: &mut OracleState, sender: &String, token_id: String)
    -> (r: Result<(), ContractError>)
    requires
        old(state).wf(),
    ensures
        final(state).wf(),
        match spec_remove_supported_token(old(state)@, sender@, token_id@) {
            Ok(v2) => r is Ok && final(state)@ == v2,
            Err(e) => r matches Err(ce) && ce@ == e && final(state)@ == old(state)@,
        },
{
    if !is_admin(state, sender) {
        return Err(ContractError::Unauthorized {});
    }
    if !is_token_supported(state, &token_id) {
        return Err(ContractError::TokenNotSupported(token_id));
    }
    assoc_upsert(&mut state.tokens, token_id.clone(), TokenInfo { supported: false });
    assoc_remove(&mut state.prices, &token_id);
    assoc_remove(&mut state.pending_updates, &token_id);
    Ok(())
}

/// When the token has a committed price, the deviation of the observation
/// from it is representable; vacuous otherwise. The executable deviation
/// computation is partial, so commands that may reach it ask their caller
/// for this.
pub open spec fn obs_fits(v: StateView, token: Seq<char>, usd: u128) -> bool {
    v.prices.contains_key(token) ==> deviation_fits(v.prices[token].usd, usd)
}

/// Commit an observation for a supported token: overwrite the current
/// price and place the entry in the token's time series.
fn commit_price(state: &mut OracleState, token_id: &String, usd: u128, now: u64)
    requires
        old(state).wf(),
        spec_supported(old(state)@, token_id@),
    ensures
        final(state).wf(),
        final(state)@ == spec_commit(old(state)@, token_id@, usd, now),
{
    let hist = match assoc_get(&state.price_history, token_id) {
        Some(v) => {
            proof {
                assert(old(state)@.history.contains_key(token_id@));
                assert(old(state)@.history[token_id@] == v@);
            }
            crate::history::hist_with(v, now, usd)
        },
        None => {
            let mut nv: Vec<PriceHistoryEntry> = Vec::new();
            nv.push(PriceHistoryEntry { price: usd, timestamp: now });
            proof {
                assert(nv@ =~= hist_put(Seq::<PriceHistoryEntry>::empty(), now, usd));
                lemma_hist_put_sorted(Seq::<PriceHistoryEntry>::empty(), now, usd);
            }
            nv
        },
    };
    let ghost hview = hist@;
    assoc_upsert(&mut state.prices, token_id.clone(), TokenPrice { usd, last_updated: now });
    assoc_upsert(&mut state.price_history, token_id.clone(), hist);
    proof {
        let v1 = old(state)@;
        let v2 = state@;
        assert(v2.tokens == v1.tokens);
        assert forall|kk: Seq<char>| #[trigger] v2.prices.contains_key(kk) implies spec_supported(
            v2,
            kk,
        ) by {
            if kk != token_id@ {
                assert(v1.prices.contains_key(kk));
            }
        }
        assert forall|kk: Seq<char>| #[trigger] v2.pending.contains_key(kk) implies spec_supported(
            v2,
            kk,
        ) && v2.pending[kk].token_id == kk by {
            assert(v1.pending.contains_key(kk));
        }
        assert forall|kk: Seq<char>| #[trigger] v2.history.contains_key(kk) implies
            crate::state::hist_sorted(v2.history[kk]) by {
            if kk != token_id@ {
                assert(v1.history.contains_key(kk));
                assert(v2.history[kk] == v1.history[kk]);
            } else {
                assert(v2.history[kk] == hview);
            }
        }
    }
}

/// Evaluate one observation for a supported token against the live state.
fn apply_observation(state: &mut OracleState, token_id: &String, usd: u128, now: u64) -> (st:
    PriceUpdateStatus)
    requires
        old(state).wf(),
        spec_supported(old(state)@, token_id@),
        obs_fits(old(state)@, token_id@, usd),
    ensures
        final(state).wf(),
        (final(state)@, st) == spec_apply_observation(old(state)@, token_id@, usd, now),
{
    let current: Option<TokenPrice> = match assoc_get(&state.prices, token_id) {
        Some(p) => Some(*p),
        None => None,
    };
    if let Some(cp) = current {
        let deviation = calculate_price_deviation(cp.usd, usd);
        if deviation > state.config.price_deviation_threshold {
            let pu = PendingUpdate {
                token_id: token_id.clone(),
                current_price: cp.usd,
                new_price: usd,
                percent_change: deviation,
                requested_at: now,
            };
            assoc_upsert(&mut state.pending_updates, token_id.clone(), pu);
            return PriceUpdateStatus::PendingApproval { deviation };
        }
    }
    commit_price(state, token_id, usd, now);
    PriceUpdateStatus::Updated
}

/// Submit one price observation.
pub fn execute_update_single_price(
    state: &mut OracleState,
    now: u64,
    sender: &String,
    token_id: String,
    price_info: TokenPriceInfo,
) -> (r: Result<PriceUpdateStatus, ContractError>)
    requires
        old(state).wf(),
        spec_is_whitelisted(old(state)@, sender@) && spec_supported(old(state)@, token_id@)
            ==> obs_fits(old(state)@, token_id@, price_info.usd),
    ensures
        final(state).wf(),
        match spec_update_single_price(old(state)@, sender@, token_id@, price_info.usd, now) {
            Ok((v2, st)) => r == Ok::<_, ContractError>(st) && final(state)@ == v2,
            Err(e) => r matches Err(ce) && ce@ == e && final(state)@ == old(state)@,
        },
{
    if !is_whitelisted(state, sender) {
        return Err(ContractError::Unauthorized {});
    }
    if !is_token_supported(state, &token_id) {
        return Err(ContractError::TokenNotSupported(token_id));
    }
    let st = apply_observation(state, &token_id, price_info.usd, now);
    Ok(st)
}

/// When every entry of the prefix is supported and entry `i` is not, entry
/// `i`'s token is the batch's first unsupported one.
proof fn lemma_first_unsupported_at(v: StateView, items: Seq<(String, TokenPriceInfo)>, i: int)
    requires
        0 <= i < items.len(),
        forall|j: int| 0 <= j < i ==> spec_supported(v, #[trigger] items[j].0@),
        !spec_supported(v, items[i].0@),
    ensures
        spec_first_unsupported(v, items) == Some(items[i].0@),
    decreases i,
{
    if i == 0 {
    } else {
        assert(items.drop_first()[i - 1] == items[i]);
        assert forall|j: int| 0 <= j < i - 1 implies spec_supported(
            v,
            #[trigger] items.drop_first()[j].0@,
        ) by {
            assert(items.drop_first()[j] == items[j + 1]);
        }
        lemma_first_unsupported_at(v, items.drop_first(), i - 1);
    }
}

/// When every entry is supported, the batch has no unsupported token.
proof fn lemma_first_unsupported_none(v: StateView, items: Seq<(String, TokenPriceInfo)>)
    requires
        forall|j: int| 0 <= j < items.len() ==> spec_supported(v, #[trigger] items[j].0@),
    ensures
        spec_first_unsupported(v, items) is None,
    decreases items.len(),
{
    if items.len() > 0 {
        assert forall|j: int| 0 <= j < items.drop_first().len() implies spec_supported(
            v,
            #[trigger] items.drop_first()[j].0@,
        ) by {
            assert(items.drop_first()[j] == items[j + 1]);
        }
        lemma_first_unsupported_none(v, items.drop_first());
    }
}

/// Submit a batch of price observations, one per token. If any token is
/// unsupported, the whole call fails and no mutation of any item is kept.
pub fn execute_update_prices(
    state: &mut OracleState,
    now: u64,
    sender: &String,
    price_data: PriceData,
) -> (r: Result<Vec<(String, PriceUpdateStatus)>, ContractError>)
    requires
        old(state).wf(),
        crate::store::keys_distinct(price_data.prices@),
        spec_is_whitelisted(old(state)@, sender@) && spec_first_unsupported(
            old(state)@,
            price_data.prices@,
        ) is None ==> forall|j: int|
            0 <= j < price_data.prices@.len() ==> obs_fits(
                old(state)@,
                #[trigger] price_data.prices@[j].0@,
                price_data.prices@[j].1.usd,
            ),
    ensures
        final(state).wf(),
        match spec_update_prices(old(state)@, sender@, price_data.prices@, now) {
            Ok((v2, sts)) => final(state)@ == v2 && (r matches Ok(out) && out@.len()
                == price_data.prices@.len() && forall|j: int|
                0 <= j < out@.len() ==> (#[trigger] out@[j]).0@ == price_data.prices@[j].0@
                    && out@[j].1 == sts[j]),
            Err(e) => r matches Err(ce) && ce@ == e && final(state)@ == old(state)@,
        },
{
    if !is_whitelisted(state, sender) {
        return Err(ContractError::Unauthorized {});
    }
    let items = price_data.prices;
    let n = items.len();
    let ghost v0 = state@;

    let mut i: usize = 0;
    while i < n
        invariant
            state.wf(),
            state@ == v0,
            v0 == old(state)@,
            items@ == price_data.prices@,
            spec_is_whitelisted(v0, sender@),
            n == items@.len(),
            i <= n,
            forall|j: int| 0 <= j < i ==> spec_supported(v0, #[trigger] items@[j].0@),
        decreases n - i,
    {
        if !is_token_supported(state, &items[i].0) {
            proof {
                lemma_first_unsupported_at(v0, items@, i as int);
            }
            return Err(ContractError::TokenNotSupported(items[i].0.clone()));
        }
        i = i + 1;
    }
    proof {
        lemma_first_unsupported_none(v0, items@);
    }

    let ghost full = spec_apply_batch(v0, items@, now);
    let mut out: Vec<(String, PriceUpdateStatus)> = Vec::new();
    let mut k: usize = 0;
    proof {
        assert(items@.skip(0) =~= items@);
    }
    while k < n
        invariant
            state.wf(),
            v0 == old(state)@,
            items@ == price_data.prices@,
            spec_is_whitelisted(v0, sender@),
            spec_first_unsupported(v0, items@) is None,
            n == items@.len(),
            k <= n,
            out@.len() == k,
            crate::store::keys_distinct(items@),
            full == spec_apply_batch(v0, items@, now),
            spec_apply_batch(state@, items@.skip(k as int), now).0 == full.0,
            out@.map_values(|p: (String, PriceUpdateStatus)| p.1) + spec_apply_batch(
                state@,
                items@.skip(k as int),
                now,
            ).1 == full.1,
            forall|j: int| 0 <= j < k ==> (#[trigger] out@[j]).0@ == items@[j].0@,
            forall|j: int|
                k <= j < n ==> spec_supported(state@, #[trigger] items@[j].0@) && obs_fits(
                    state@,
                    items@[j].0@,
                    items@[j].1.usd,
                ),
        decreases n - k,
    {
        let ghost pre = state@;
        let ghost tail = items@.skip(k as int);
        let ghost out0 = out@;
        let st = apply_observation(state, &items[k].0, items[k].1.usd, now);
        out.push((items[k].0.clone(), st));
        proof {
            assert(tail.first() == items@[k as int]);
            assert(tail.drop_first() =~= items@.skip(k + 1));
            assert(out@.map_values(|p: (String, PriceUpdateStatus)| p.1) =~= out0.map_values(
                |p: (String, PriceUpdateStatus)| p.1,
            ).push(st));
            assert(out0.map_values(|p: (String, PriceUpdateStatus)| p.1).push(st)
                + spec_apply_batch(state@, items@.skip(k + 1), now).1 =~= out0.map_values(
                |p: (String, PriceUpdateStatus)| p.1,
            ) + (seq![st] + spec_apply_batch(state@, items@.skip(k + 1), now).1));
            assert forall|j: int| k + 1 <= j < n implies spec_supported(
                state@,
                #[trigger] items@[j].0@,
            ) && obs_fits(state@, items@[j].0@, items@[j].1.usd) by {
                assert(items@[j].0@ != items@[k as int].0@);
                assert(spec_supported(pre, items@[j].0@) && obs_fits(
                    pre,
                    items@[j].0@,
                    items@[j].1.usd,
                ));
            }
        }
        k = k + 1;
    }
    proof {
        assert(items@.skip(n as int) =~= Seq::<(String, TokenPriceInfo)>::empty());
        assert(out@.map_values(|p: (String, PriceUpdateStatus)| p.1) + Seq::<
            PriceUpdateStatus,
        >::empty() =~= out@.map_values(|p: (String, PriceUpdateStatus)| p.1));
    }
    Ok(out)
}

/// Resolve a token's pending update by committing the admin's price and
/// clearing the pending entry.
pub fn execute_approve_price(
    state: &mut OracleState,
    now: u64,
    sender: &String,
    token_id: String,
    price: u128,
) -> (r: Result<(), ContractError>)
    requires
        old(state).wf(),
    ensures
        final(state).wf(),
        match spec_approve_price(old(state)@, sender@, token_id@, price, now) {
            Ok(v2) => r is Ok && final(state)@ == v2,
            Err(e) => r matches Err(ce) && ce@ == e && final(state)@ == old(state)@,
        },
{
    if !is_admin(state, sender) {
        return Err(ContractError::Unauthorized {});
    }
    if !is_token_supported(state, &token_id) {
        return Err(ContractError::TokenNotSupported(token_id));
    }
    if !crate::store::has_key(&state.pending_updates, &token_id) {
        return Err(ContractError::NoPendingUpdate(token_id));
    }
    commit_price(state, &token_id, price, now);
    assoc_remove(&mut state.pending_updates, &token_id);
    Ok(())
}

/// Discard a token's pending update; the committed price is untouched.
pub fn execute_reject_price(state: &mut OracleState, sender: &String, token_id: String) -> (r:
    Result<(), ContractError>)
    requires
        old(state).wf(),
    ensures
        final(state).wf(),
        match spec_reject_price(old(state)@, sender@, token_id@) {
            Ok(v2) => r is Ok && final(state)@ == v2,
            Err(e) => r matches Err(ce) && ce@ == e && final(state)@ == old(state)@,
        },
{
    if !is_admin(state, sender) {
        return Err(ContractError::Unauthorized {});
    }
    if !crate::store::has_key(&state.pending_updates, &token_id) {
        return Err(ContractError::NoPendingUpdate(token_id));
    }
    assoc_remove(&mut state.pending_updates, &token_id);
    Ok(())
}

/// What each price command demands of its inputs so that the deviation it
/// may compute is representable; commands that compute none demand nothing.
pub open spec fn execute_fits(v: StateView, sender: Seq<char>, msg: ExecuteMsg) -> bool {
    match msg {
        ExecuteMsg::UpdateSinglePrice { token_id, price_info } => spec_is_whitelisted(v, sender)
            && spec_supported(v, token_id@) ==> obs_fits(v, token_id@, price_info.usd),
        ExecuteMsg::UpdatePrices { price_data } => crate::store::keys_distinct(price_data.prices@)
            && (spec_is_whitelisted(v, sender) && spec_first_unsupported(v, price_data.prices@)
                is None ==> forall|j: int|
                0 <= j < price_data.prices@.len() ==> obs_fits(
                    v,
                    (#[trigger] price_data.prices@[j]).0@,
                    price_data.prices@[j].1.usd,
                )),
        _ => true,
    }
}

/// Process one mutating command from `sender` at time `now`. The command
/// either succeeds, leaving the state the corresponding transition
/// prescribes, or fails with the prescribed error and leaves the state
/// untouched.
pub fn execute(state: &mut OracleState, now: u64, sender: &String, msg: ExecuteMsg) -> (r: Result<
    ExecuteOutcome,
    ContractError,
>)
    requires
        old(state).wf(),
        execute_fits(old(state)@, sender@, msg),
    ensures
        final(state).wf(),
        match msg {
            ExecuteMsg::UpdateOwner { new_owner } => match spec_update_owner(
                old(state)@,
                sender@,
                new_owner@,
            ) {
                Ok(v2) => r matches Ok(ExecuteOutcome::Done) && final(state)@ == v2,
                Err(e) => r matches Err(ce) && ce@ == e && final(state)@ == old(state)@,
            },
            ExecuteMsg::UpdateAdmin { new_admin } => match spec_update_admin(
                old(state)@,
                sender@,
                new_admin@,
            ) {
                Ok(v2) => r matches Ok(ExecuteOutcome::Done) && final(state)@ == v2,
                Err(e) => r matches Err(ce) && ce@ == e && final(state)@ == old(state)@,
            },
            ExecuteMsg::SetDeviationThreshold { threshold } => match spec_set_deviation_threshold(
                old(state)@,
                sender@,
                threshold,
            ) {
                Ok(v2) => r matches Ok(ExecuteOutcome::Done) && final(state)@ == v2,
                Err(e) => r matches Err(ce) && ce@ == e && final(state)@ == old(state)@,
            },
            ExecuteMsg::AddWhitelistedUpdater { updater } => match spec_add_whitelisted_updater(
                old(state)@,
                sender@,
                updater@,
            ) {
                Ok(v2) => r matches Ok(ExecuteOutcome::Done) && final(state)@ == v2,
                Err(e) => r matches Err(ce) && ce@ == e && final(state)@ == old(state)@,
            },
            ExecuteMsg::RemoveWhitelistedUpdater { updater } => match spec_remove_whitelisted_updater(
                old(state)@,
                sender@,
                updater@,
            ) {
                Ok(v2) => r matches Ok(ExecuteOutcome::Done) && final(state)@ == v2,
                Err(e) => r matches Err(ce) && ce@ == e && final(state)@ == old(state)@,
            },
            ExecuteMsg::AddSupportedToken { token_id } => match spec_add_supported_token(
                old(state)@,
                sender@,
                token_id@,
            ) {
                Ok(v2) => r matches Ok(ExecuteOutcome::Done) && final(state)@ == v2,
                Err(e) => r matches Err(ce) && ce@ == e && final(state)@ == old(state)@,
            },
            ExecuteMsg::RemoveSupportedToken { token_id } => match spec_remove_supported_token(
                old(state)@,
                sender@,
                token_id@,
            ) {
                Ok(v2) => r matches Ok(ExecuteOutcome::Done) && final(state)@ == v2,
                Err(e) => r matches Err(ce) && ce@ == e && final(state)@ == old(state)@,
            },
            ExecuteMsg::UpdatePrices { price_data } => match spec_update_prices(
                old(state)@,
                sender@,
                price_data.prices@,
                now,
            ) {
                Ok((v2, sts)) => final(state)@ == v2 && (r matches Ok(ExecuteOutcome::Batch(out))
                    && out@.len() == price_data.prices@.len() && forall|j: int|
                    0 <= j < out@.len() ==> (#[trigger] out@[j]).0@ == price_data.prices@[j].0@
                        && out@[j].1 == sts[j]),
                Err(e) => r matches Err(ce) && ce@ == e && final(state)@ == old(state)@,
            },
            ExecuteMsg::UpdateSinglePrice { token_id, price_info } => match spec_update_single_price(
                old(state)@,
                sender@,
                token_id@,
                price_info.usd,
                now,
            ) {
                Ok((v2, st)) => r matches Ok(ExecuteOutcome::SinglePrice(s2)) && s2 == st
                    && final(state)@ == v2,
                Err(e) => r matches Err(ce) && ce@ == e && final(state)@ == old(state)@,
            },
            ExecuteMsg::ApprovePrice { token_id, price } => match spec_approve_price(
                old(state)@,
                sender@,
                token_id@,
                price,
                now,
            ) {
                Ok(v2) => r matches Ok(ExecuteOutcome::Done) && final(state)@ == v2,
                Err(e) => r matches Err(ce) && ce@ == e && final(state)@ == old(state)@,
            },
            ExecuteMsg::RejectPrice { token_id } => match spec_reject_price(
                old(state)@,
                sender@,
                token_id@,
            ) {
                Ok(v2) => r matches Ok(ExecuteOutcome::Done) && final(state)@ == v2,
                Err(e) => r matches Err(ce) && ce@ == e && final(state)@ == old(state)@,
            },
        },
{
    match msg {
        ExecuteMsg::UpdateOwner { new_owner } => match execute_update_owner(
            state,
            sender,
            new_owner,
        ) {
            Ok(()) => Ok(ExecuteOutcome::Done),
            Err(e) => Err(e),
        },
        ExecuteMsg::UpdateAdmin { new_admin } => match execute_update_admin(
            state,
            sender,
            new_admin,
        ) {
            Ok(()) => Ok(ExecuteOutcome::Done),
            Err(e) => Err(e),
        },
        ExecuteMsg::SetDeviationThreshold { threshold } => match execute_set_deviation_threshold(
            state,
            sender,
            threshold,
        ) {
            Ok(()) => Ok(ExecuteOutcome::Done),
            Err(e) => Err(e),
        },
        ExecuteMsg::AddWhitelistedUpdater { updater } => match execute_add_whitelisted_updater(
            state,
            sender,
            updater,
        ) {
            Ok(()) => Ok(ExecuteOutcome::Done),
            Err(e) => Err(e),
        },
        ExecuteMsg::RemoveWhitelistedUpdater { updater } => match execute_remove_whitelisted_updater(
            state,
            sender,
            updater,
        ) {
            Ok(()) => Ok(ExecuteOutcome::Done),
            Err(e) => Err(e),
        },
        ExecuteMsg::AddSupportedToken { token_id } => match execute_add_supported_token(
            state,
            sender,
            token_id,
        ) {
            Ok(()) => Ok(ExecuteOutcome::Done),
            Err(e) => Err(e),
        },
        ExecuteMsg::RemoveSupportedToken { token_id } => match execute_remove_supported_token(
            state,
            sender,
            token_id,
        ) {
            Ok(()) => Ok(ExecuteOutcome::Done),
            Err(e) => Err(e),
        },
        ExecuteMsg::UpdatePrices { price_data } => match execute_update_prices(
            state,
            now,
            sender,
            price_data,
        ) {
            Ok(out) => Ok(ExecuteOutcome::Batch(out)),
            Err(e) => Err(e),
        },
        ExecuteMsg::UpdateSinglePrice { token_id, price_info } => match execute_update_single_price(
            state,
            now,
            sender,
            token_id,
            price_info,
        ) {
            Ok(st) => Ok(ExecuteOutcome::SinglePrice(st)),
            Err(e) => Err(e),
        },
        ExecuteMsg::ApprovePrice { token_id, price } => match execute_approve_price(
            state,
            now,
            sender,
            token_id,
            price,
        ) {
            Ok(()) => Ok(ExecuteOutcome::Done),
            Err(e) => Err(e),
        },
        ExecuteMsg::RejectPrice { token_id } => match execute_reject_price(state, sender, token_id) {
            Ok(()) => Ok(ExecuteOutcome::Done),
            Err(e) => Err(e),
        },
    }
}

/// The configuration projection is faithful.
pub open spec fn config_resp_ok(v: StateView, c: ConfigResponse) -> bool {
    &&& c.owner@ == v.owner
    &&& c.admin@ == v.admin
    &&& c.price_deviation_threshold == v.threshold
}

/// A price lookup answer carries the token's committed record.
pub open spec fn token_price_resp_ok(v: StateView, token: Seq<char>, resp: TokenPriceResponse)
    -> bool {
    &&& spec_supported(v, token)
    &&& v.prices.contains_key(token)
    &&& resp.token_id@ == token
    &&& resp.price == v.prices[token].usd
    &&& resp.last_updated == v.prices[token].last_updated
}

/// A price lookup distinguishes an unsupported token from a supported one
/// that has no committed price yet.
pub open spec fn token_price_err(v: StateView, token: Seq<char>, e: ErrorView) -> bool {
    if !spec_supported(v, token) {
        e == ErrorView::TokenNotSupported(token)
    } else {
        !v.prices.contains_key(token) && e == ErrorView::NoPriceData(token)
    }
}

/// The full price listing is exactly the current-price store.
pub open spec fn all_prices_resp_ok(v: StateView, resp: AllPricesResponse) -> bool {
    &&& crate::store::keys_distinct(resp.prices@)
    &&& assoc_map(resp.prices@) == v.prices
}

/// The largest page a query may ask for, and the default when it asks for
/// none.
pub open spec fn spec_limit(limit: Option<u32>) -> int {
    let l: int = match limit {
        Some(l) => l as int,
        None => 100,
    };
    if l > 1000 {
        1000
    } else {
        l
    }
}

/// A history answer holds exactly the in-window page of the token's series.
pub open spec fn history_resp_ok(
    v: StateView,
    token: Seq<char>,
    start_time: Option<u64>,
    end_time: Option<u64>,
    limit: Option<u32>,
    resp: PriceHistoryResponse,
) -> bool {
    &&& spec_supported(v, token)
    &&& resp.token_id@ == token
    &&& resp.history@ == crate::history::history_page(
        spec_hist_of(v, token),
        start_time,
        end_time,
        spec_limit(limit),
    )
}

/// The pending listing holds each parked update exactly once.
pub open spec fn pending_resp_ok(v: StateView, resp: PendingUpdatesResponse) -> bool {
    &&& forall|j: int|
        0 <= j < resp.updates@.len() ==> v.pending.contains_key(
            (#[trigger] resp.updates@[j])@.token_id,
        ) && v.pending[resp.updates@[j]@.token_id] == resp.updates@[j]@
    &&& forall|k: Seq<char>|
        #[trigger] v.pending.contains_key(k) ==> exists|j: int|
            0 <= j < resp.updates@.len() && (#[trigger] resp.updates@[j])@.token_id == k
    &&& forall|j1: int, j2: int|
        0 <= j1 < j2 < resp.updates@.len() ==> resp.updates@[j1]@.token_id
            != resp.updates@[j2]@.token_id
}

/// The token listing holds each currently supported token exactly once.
pub open spec fn supported_resp_ok(v: StateView, resp: SupportedTokensResponse) -> bool {
    &&& forall|j: int|
        0 <= j < resp.tokens@.len() ==> spec_supported(v, (#[trigger] resp.tokens@[j])@)
    &&& forall|k: Seq<char>|
        #[trigger] spec_supported(v, k) ==> exists|j: int|
            0 <= j < resp.tokens@.len() && (#[trigger] resp.tokens@[j])@ == k
    &&& forall|j1: int, j2: int|
        0 <= j1 < j2 < resp.tokens@.len() ==> resp.tokens@[j1]@ != resp.tokens@[j2]@
}

/// The updater listing holds each whitelist entry's address exactly once.
pub open spec fn updaters_resp_ok(v: StateView, resp: WhitelistedUpdatersResponse) -> bool {
    &&& forall|j: int|
        0 <= j < resp.updaters@.len() ==> v.updaters.contains_key((#[trigger] resp.updaters@[j])@)
    &&& forall|k: Seq<char>|
        #[trigger] v.updaters.contains_key(k) ==> exists|j: int|
            0 <= j < resp.updaters@.len() && (#[trigger] resp.updaters@[j])@ == k
    &&& forall|j1: int, j2: int|
        0 <= j1 < j2 < resp.updaters@.len() ==> resp.updaters@[j1]@ != resp.updaters@[j2]@
}

/// Project the configuration.
pub fn query_config(state: &OracleState) -> (r: ConfigResponse)
    ensures
        config_resp_ok(state@, r),
{
    ConfigResponse {
        owner: state.config.owner.clone(),
        admin: state.config.admin.clone(),
        price_deviation_threshold: state.config.price_deviation_threshold,
    }
}

/// Look up a token's committed price.
pub fn query_token_price(state: &OracleState, token_id: String) -> (r: Result<
    TokenPriceResponse,
    ContractError,
>)
    requires
        state.wf(),
    ensures
        match r {
            Ok(resp) => token_price_resp_ok(state@, token_id@, resp),
            Err(e) => token_price_err(state@, token_id@, e@),
        },
{
    if !is_token_supported(state, &token_id) {
        return Err(ContractError::TokenNotSupported(token_id));
    }
    match assoc_get(&state.prices, &token_id) {
        Some(p) => {
            let tp = *p;
            Ok(TokenPriceResponse { token_id, price: tp.usd, last_updated: tp.last_updated })
        },
        None => Err(ContractError::NoPriceData(token_id)),
    }
}

/// List every token's committed price.
pub fn query_all_prices(state: &OracleState) -> (r: AllPricesResponse)
    requires
        state.wf(),
    ensures
        all_prices_resp_ok(state@, r),
{
    let mut out: Vec<(String, TokenPrice)> = Vec::new();
    let n = state.prices.len();
    let mut i: usize = 0;
    while i < n
        invariant
            n == state.prices@.len(),
            i <= n,
            out@.len() == i,
            forall|j: int|
                0 <= j < i ==> (#[trigger] out@[j]).0@ == state.prices@[j].0@ && out@[j].1
                    == state.prices@[j].1,
        decreases n - i,
    {
        let key = state.prices[i].0.clone();
        let val = state.prices[i].1;
        out.push((key, val));
        i = i + 1;
    }
    proof {
        crate::store::lemma_entries_equiv(out@, state.prices@);
    }
    AllPricesResponse { prices: out }
}

/// Retrieve the in-window page of a token's time series, newest first.
pub fn query_price_history(
    state: &OracleState,
    token_id: String,
    start_time: Option<u64>,
    end_time: Option<u64>,
    limit: Option<u32>,
) -> (r: Result<PriceHistoryResponse, ContractError>)
    requires
        state.wf(),
    ensures
        match r {
            Ok(resp) => history_resp_ok(state@, token_id@, start_time, end_time, limit, resp),
            Err(e) => !spec_supported(state@, token_id@) && e@ == ErrorView::TokenNotSupported(
                token_id@,
            ),
        },
{
    if !is_token_supported(state, &token_id) {
        return Err(ContractError::TokenNotSupported(token_id));
    }
    let cap: u32 = match limit {
        Some(l) => if l > 1000 {
            1000
        } else {
            l
        },
        None => 100,
    };
    let history = match assoc_get(&state.price_history, &token_id) {
        Some(h) => crate::history::collect_page(h, start_time, end_time, cap as usize),
        None => {
            proof {
                let empty = Seq::<PriceHistoryEntry>::empty();
                assert(crate::history::window_filter(empty, start_time, end_time) =~= empty);
                assert(empty.reverse() =~= empty);
            }
            Vec::new()
        },
    };
    Ok(PriceHistoryResponse { token_id, history })
}

/// List the updates parked for review.
pub fn query_pending_updates(state: &OracleState) -> (r: PendingUpdatesResponse)
    requires
        state.wf(),
    ensures
        pending_resp_ok(state@, r),
{
    let mut out: Vec<PendingUpdate> = Vec::new();
    let n = state.pending_updates.len();
    let mut i: usize = 0;
    while i < n
        invariant
            n == state.pending_updates@.len(),
            i <= n,
            out@.len() == i,
            forall|j: int| 0 <= j < i ==> (#[trigger] out@[j])@ == state.pending_updates@[j].1@,
        decreases n - i,
    {
        let e = &state.pending_updates[i].1;
        out.push(
            PendingUpdate {
                token_id: e.token_id.clone(),
                current_price: e.current_price,
                new_price: e.new_price,
                percent_change: e.percent_change,
                requested_at: e.requested_at,
            },
        );
        i = i + 1;
    }
    let resp = PendingUpdatesResponse { updates: out };
    proof {
        let s = state.pending_updates@;
        let v = state@;
        assert forall|j: int| 0 <= j < resp.updates@.len() implies v.pending.contains_key(
            (#[trigger] resp.updates@[j])@.token_id,
        ) && v.pending[resp.updates@[j]@.token_id] == resp.updates@[j]@ by {
            crate::store::lemma_entry_in_map(s, j);
            assert(resp.updates@[j]@ == s[j].1@);
        }
        assert forall|k: Seq<char>| #[trigger] v.pending.contains_key(k) implies exists|j: int|
            0 <= j < resp.updates@.len() && (#[trigger] resp.updates@[j])@.token_id == k by {
            crate::store::lemma_map_in_entries(s, k);
            let i0 = choose|i0: int|
                0 <= i0 < s.len() && s[i0].0@ == k && s[i0].1@ == crate::store::assoc_find(s, k)->0;
            crate::store::lemma_entry_in_map(s, i0);
            assert((resp.updates@[i0])@.token_id == k);
        }
        assert forall|j1: int, j2: int| 0 <= j1 < j2 < resp.updates@.len() implies resp.updates@[j1]@.token_id
            != resp.updates@[j2]@.token_id by {
            crate::store::lemma_entry_in_map(s, j1);
            crate::store::lemma_entry_in_map(s, j2);
            assert(s[j1].0@ != s[j2].0@);
            assert(resp.updates@[j1]@ == s[j1].1@ && resp.updates@[j2]@ == s[j2].1@);
        }
    }
    resp
}

/// List the tokens currently marked supported.
pub fn query_supported_tokens(state: &OracleState) -> (r: SupportedTokensResponse)
    requires
        state.wf(),
    ensures
        supported_resp_ok(state@, r),
{
    let mut out: Vec<String> = Vec::new();
    let n = state.tokens.len();
    let mut i: usize = 0;
    while i < n
        invariant
            state.wf(),
            n == state.tokens@.len(),
            i <= n,
            forall|m: int| 0 <= m < out@.len() ==> spec_supported(state@, (#[trigger] out@[m])@),
            forall|m: int|
                0 <= m < out@.len() ==> exists|j: int|
                    0 <= j < i && (#[trigger] out@[m])@ == state.tokens@[j].0@,
            forall|j: int|
                0 <= j < i && (#[trigger] state.tokens@[j]).1.supported ==> exists|m: int|
                    0 <= m < out@.len() && (#[trigger] out@[m])@ == state.tokens@[j].0@,
            forall|m1: int, m2: int| 0 <= m1 < m2 < out@.len() ==> out@[m1]@ != out@[m2]@,
        decreases n - i,
    {
        let ghost s = state.tokens@;
        let ghost out0 = out@;
        if state.tokens[i].1.supported {
            out.push(state.tokens[i].0.clone());
            proof {
                crate::store::lemma_entry_in_map(s, i as int);
                assert forall|m1: int, m2: int| 0 <= m1 < m2 < out@.len() implies out@[m1]@
                    != out@[m2]@ by {
                    if m2 == out@.len() - 1 {
                        let j = choose|j: int| 0 <= j < i && (out0[m1])@ == s[j].0@;
                        assert(s[j].0@ != s[i as int].0@);
                        assert((out@[m1])@ == (out0[m1])@);
                    }
                }
                assert forall|j: int|
                    0 <= j < i + 1 && (#[trigger] s[j]).1.supported implies exists|m: int|
                    0 <= m < out@.len() && (#[trigger] out@[m])@ == s[j].0@ by {
                    if j < i {
                        let m = choose|m: int| 0 <= m < out0.len() && (#[trigger] out0[m])@
                            == s[j].0@;
                        assert((out@[m])@ == s[j].0@);
                    } else {
                        assert((out@[out@.len() - 1])@ == s[j].0@);
                    }
                }
            }
        }
        i = i + 1;
    }
    let resp = SupportedTokensResponse { tokens: out };
    proof {
        let s = state.tokens@;
        let v = state@;
        assert forall|j: int| 0 <= j < resp.tokens@.len() implies spec_supported(
            v,
            (#[trigger] resp.tokens@[j])@,
        ) by {
            assert((resp.tokens@[j])@ == (out@[j])@);
        }
        assert forall|k: Seq<char>| #[trigger] spec_supported(v, k) implies exists|j: int|
            0 <= j < resp.tokens@.len() && (#[trigger] resp.tokens@[j])@ == k by {
            crate::store::lemma_map_in_entries(s, k);
            let i0 = choose|i0: int|
                0 <= i0 < s.len() && s[i0].0@ == k && s[i0].1@ == crate::store::assoc_find(s, k)->0;
            crate::store::lemma_entry_in_map(s, i0);
            assert(s[i0].1.supported);
            let m = choose|m: int| 0 <= m < out@.len() && (#[trigger] out@[m])@ == s[i0].0@;
            assert((resp.tokens@[m])@ == k);
        }
        assert forall|j1: int, j2: int| 0 <= j1 < j2 < resp.tokens@.len() implies resp.tokens@[j1]@
            != resp.tokens@[j2]@ by {
            assert((out@[j1])@ != (out@[j2])@);
        }
    }
    resp
}

/// List the whitelisted updater addresses.
pub fn query_whitelisted_updaters(state: &OracleState) -> (r: WhitelistedUpdatersResponse)
    requires
        state.wf(),
    ensures
        updaters_resp_ok(state@, r),
{
    let mut out: Vec<String> = Vec::new();
    let n = state.whitelisted_updaters.len();
    let mut i: usize = 0;
    while i < n
        invariant
            n == state.whitelisted_updaters@.len(),
            i <= n,
            out@.len() == i,
            forall|j: int| 0 <= j < i ==> (#[trigger] out@[j])@ == state.whitelisted_updaters@[j].0@,
        decreases n - i,
    {
        out.push(state.whitelisted_updaters[i].0.clone());
        i = i + 1;
    }
    let resp = WhitelistedUpdatersResponse { updaters: out };
    proof {
        let s = state.whitelisted_updaters@;
        let v = state@;
        assert forall|j: int| 0 <= j < resp.updaters@.len() implies v.updaters.contains_key(
            (#[trigger] resp.updaters@[j])@,
        ) by {
            crate::store::lemma_entry_in_map(s, j);
            assert((resp.updaters@[j])@ == s[j].0@);
        }
        assert forall|k: Seq<char>| #[trigger] v.updaters.contains_key(k) implies exists|j: int|
            0 <= j < resp.updaters@.len() && (#[trigger] resp.updaters@[j])@ == k by {
            crate::store::lemma_map_in_entries(s, k);
            let i0 = choose|i0: int|
                0 <= i0 < s.len() && s[i0].0@ == k && s[i0].1@ == crate::store::assoc_find(s, k)->0;
            assert((resp.updaters@[i0])@ == k);
        }
        assert forall|j1: int, j2: int| 0 <= j1 < j2 < resp.updaters@.len() implies
            resp.updaters@[j1]@ != resp.updaters@[j2]@ by {
            assert((out@[j1])@ == s[j1].0@ && (out@[j2])@ == s[j2].0@);
        }
    }
    resp
}

/// Answer one read-only query; no query mutates the state.
pub fn query(state: &OracleState, msg: QueryMsg) -> (r: Result<QueryResponse, ContractError>)
    requires
        state.wf(),
    ensures
        match msg {
            QueryMsg::Config {} => r matches Ok(QueryResponse::Config(c)) && config_resp_ok(
                state@,
                c,
            ),
            QueryMsg::TokenPrice { token_id } => match r {
                Ok(resp) => resp matches QueryResponse::TokenPrice(tp) && token_price_resp_ok(
                    state@,
                    token_id@,
                    tp,
                ),
                Err(e) => token_price_err(state@, token_id@, e@),
            },
            QueryMsg::AllPrices {} => r matches Ok(QueryResponse::AllPrices(a))
                && all_prices_resp_ok(state@, a),
            QueryMsg::PriceHistory { token_id, start_time, end_time, limit } => match r {
                Ok(resp) => resp matches QueryResponse::PriceHistory(h) && history_resp_ok(
                    state@,
                    token_id@,
                    start_time,
                    end_time,
                    limit,
                    h,
                ),
                Err(e) => !spec_supported(state@, token_id@) && e@ == ErrorView::TokenNotSupported(
                    token_id@,
                ),
            },
            QueryMsg::PendingUpdates {} => r matches Ok(QueryResponse::PendingUpdates(p))
                && pending_resp_ok(state@, p),
            QueryMsg::SupportedTokens {} => r matches Ok(QueryResponse::SupportedTokens(t))
                && supported_resp_ok(state@, t),
            QueryMsg::WhitelistedUpdaters {} => r matches Ok(QueryResponse::WhitelistedUpdaters(w))
                && updaters_resp_ok(state@, w),
        },
{
    match msg {
        QueryMsg::Config {} => Ok(QueryResponse::Config(query_config(state))),
        QueryMsg::TokenPrice { token_id } => match query_token_price(state, token_id) {
            Ok(resp) => Ok(QueryResponse::TokenPrice(resp)),
            Err(e) => Err(e),
        },
        QueryMsg::AllPrices {} => Ok(QueryResponse::AllPrices(query_all_prices(state))),
        QueryMsg::PriceHistory { token_id, start_time, end_time, limit } => match query_price_history(
            state,
            token_id,
            start_time,
            end_time,
            limit,
        ) {
            Ok(resp) => Ok(QueryResponse::PriceHistory(resp)),
            Err(e) => Err(e),
        },
        QueryMsg::PendingUpdates {} => Ok(
            QueryResponse::PendingUpdates(query_pending_updates(state)),
        ),
        QueryMsg::SupportedTokens {} => Ok(
            QueryResponse::SupportedTokens(query_supported_tokens(state)),
        ),
        QueryMsg::WhitelistedUpdaters {} => Ok(
            QueryResponse::WhitelistedUpdaters(query_whitelisted_updaters(state)),
        ),
    }
}

} // verus!
