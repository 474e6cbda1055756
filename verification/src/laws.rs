//! The laws of the price feed, stated over the transition functions that
//! the executable commands are proved to realize.

use vstd::prelude::*;

use crate::contract::{
    spec_add_supported_token, spec_approve_price, spec_first_unsupported, spec_hist_of,
    spec_reject_price, spec_remove_supported_token, spec_update_prices, spec_update_single_price,
};
use crate::helpers::{deviation_fits, spec_deviation};
use crate::history::{
    hist_put, history_page, in_window, lemma_hist_put_entry, lemma_window_filter_props,
    window_filter,
};
use crate::msg::{PriceHistoryEntry, PriceUpdateStatus, TokenPrice, TokenPriceInfo};
use crate::state::{
    hist_sorted, spec_is_admin, spec_is_whitelisted, spec_supported, view_inv, StateView,
};

verus! {

/// A token's first-ever submission commits, whatever its magnitude: the
/// committed price becomes the submitted one and the series gains the
/// entry at the call time.
pub proof fn law_first_submission_commits(
    v: StateView,
    sender: Seq<char>,
    token: Seq<char>,
    usd: u128,
    now: u64,
)
    requires
        spec_is_whitelisted(v, sender),
        spec_supported(v, token),
        !v.prices.contains_key(token),
    ensures
        spec_update_single_price(v, sender, token, usd, now) matches Ok((v2, st)) && {
            &&& st == PriceUpdateStatus::Updated
            &&& v2.prices[token] == TokenPrice { usd, last_updated: now }
            &&& v2.history[token] == hist_put(spec_hist_of(v, token), now, usd)
            &&& v2.pending == v.pending
        },
{
}

/// A submission whose deviation from the committed price stays within the
/// threshold commits: the price becomes the new value and exactly one
/// series entry is placed at the call time (overwriting an entry already at
/// that instant). A pending update the token may carry is left untouched.
pub proof fn law_within_threshold_commits(
    v: StateView,
    sender: Seq<char>,
    token: Seq<char>,
    usd: u128,
    now: u64,
)
    requires
        view_inv(v),
        spec_is_whitelisted(v, sender),
        spec_supported(v, token),
        v.prices.contains_key(token),
        spec_deviation(v.prices[token].usd, usd) <= v.threshold as int,
    ensures
        spec_update_single_price(v, sender, token, usd, now) matches Ok((v2, st)) && {
            &&& st == PriceUpdateStatus::Updated
            &&& v2.prices[token] == TokenPrice { usd, last_updated: now }
            &&& v2.history[token].contains(PriceHistoryEntry { price: usd, timestamp: now })
            &&& (!(exists|i: int|
                0 <= i < spec_hist_of(v, token).len() && (#[trigger] spec_hist_of(v, token)[i]).timestamp
                    == now) ==> v2.history[token].len() == spec_hist_of(v, token).len() + 1)
            &&& ((exists|i: int|
                0 <= i < spec_hist_of(v, token).len() && (#[trigger] spec_hist_of(v, token)[i]).timestamp
                    == now) ==> v2.history[token].len() == spec_hist_of(v, token).len())
            &&& v2.pending == v.pending
        },
{
    if v.history.contains_key(token) {
        assert(hist_sorted(v.history[token]));
    }
    lemma_hist_put_entry(spec_hist_of(v, token), now, usd);
}

/// A submission whose deviation exceeds the threshold changes neither the
/// committed price nor the series; afterwards the token carries exactly one
/// pending update, holding the old price, the new price, the computed
/// deviation and the call time.
pub proof fn law_beyond_threshold_defers(
    v: StateView,
    sender: Seq<char>,
    token: Seq<char>,
    usd: u128,
    now: u64,
)
    requires
        spec_is_whitelisted(v, sender),
        spec_supported(v, token),
        v.prices.contains_key(token),
        deviation_fits(v.prices[token].usd, usd),
        spec_deviation(v.prices[token].usd, usd) > v.threshold as int,
    ensures
        spec_update_single_price(v, sender, token, usd, now) matches Ok((v2, st)) && {
            &&& v2.prices == v.prices
            &&& v2.history == v.history
            &&& v2.pending.contains_key(token)
            &&& v2.pending[token].current_price == v.prices[token].usd
            &&& v2.pending[token].new_price == usd
            &&& v2.pending[token].percent_change as int == spec_deviation(v.prices[token].usd, usd)
            &&& v2.pending[token].requested_at == now
            &&& forall|k: Seq<char>|
                k != token ==> v2.pending.contains_key(k) == v.pending.contains_key(k) && (
                v.pending.contains_key(k) ==> v2.pending[k] == v.pending[k])
            &&& st == PriceUpdateStatus::PendingApproval {
                deviation: spec_deviation(v.prices[token].usd, usd) as u128,
            }
        },
{
    assert(0 <= spec_deviation(v.prices[token].usd, usd) <= u128::MAX as int);
}

/// Approval commits the admin's price — whatever the pending record asked
/// for — and clears the pending entry.
pub proof fn law_approve_commits_admin_price(
    v: StateView,
    sender: Seq<char>,
    token: Seq<char>,
    price: u128,
    now: u64,
)
    requires
        spec_is_admin(v, sender),
        spec_supported(v, token),
        v.pending.contains_key(token),
    ensures
        spec_approve_price(v, sender, token, price, now) matches Ok(v2) && {
            &&& v2.prices[token] == TokenPrice { usd: price, last_updated: now }
            &&& !v2.pending.contains_key(token)
        },
{
}

/// Rejection clears the pending entry and changes no committed price and no
/// series.
pub proof fn law_reject_preserves_price(v: StateView, sender: Seq<char>, token: Seq<char>)
    requires
        spec_is_admin(v, sender),
        v.pending.contains_key(token),
    ensures
        spec_reject_price(v, sender, token) matches Ok(v2) && {
            &&& v2.prices == v.prices
            &&& v2.history == v.history
            &&& !v2.pending.contains_key(token)
        },
{
}

/// Removing a token and registering it again leaves it supported, with its
/// earlier committed price and pending update gone for good and its series
/// retained.
pub proof fn law_remove_then_add_purges(v: StateView, sender: Seq<char>, token: Seq<char>)
    requires
        spec_is_admin(v, sender),
        spec_supported(v, token),
    ensures
        spec_remove_supported_token(v, sender, token) matches Ok(v1)
            && spec_add_supported_token(v1, sender, token) matches Ok(v2) && {
            &&& spec_supported(v2, token)
            &&& !v2.prices.contains_key(token)
            &&& !v2.pending.contains_key(token)
            &&& v2.history == v.history
        },
{
}

/// A batch naming one unsupported token fails as a whole; by the command's
/// contract, an error keeps every store exactly as it was, so no item of
/// the batch commits anything.
pub proof fn law_batch_all_or_nothing(
    v: StateView,
    sender: Seq<char>,
    items: Seq<(String, TokenPriceInfo)>,
    now: u64,
)
    requires
        spec_first_unsupported(v, items) is Some,
    ensures
        spec_update_prices(v, sender, items, now) is Err,
        spec_is_whitelisted(v, sender) ==> spec_update_prices(v, sender, items, now)
            == Err::<(StateView, Seq<PriceUpdateStatus>), _>(
            crate::error::ErrorView::TokenNotSupported(spec_first_unsupported(v, items)->0),
        ),
{
}

/// A history page holds only entries inside the inclusive window, each
/// taken from the series, runs newest-first, and is truncated to the cap —
/// after ordering, so it favours the most recent entries in range.
pub proof fn law_history_page_windowed(
    s: Seq<PriceHistoryEntry>,
    start: Option<u64>,
    end: Option<u64>,
    cap: int,
)
    requires
        hist_sorted(s),
        cap >= 0,
    ensures
        history_page(s, start, end, cap).len() == (if cap >= window_filter(s, start, end).len() {
            window_filter(s, start, end).len() as int
        } else {
            cap
        }),
        forall|i: int|
            0 <= i < history_page(s, start, end, cap).len() ==> in_window(
                #[trigger] history_page(s, start, end, cap)[i],
                start,
                end,
            ) && s.contains(history_page(s, start, end, cap)[i]),
        forall|i: int, j: int|
            0 <= i < j < history_page(s, start, end, cap).len() ==> history_page(
                s,
                start,
                end,
                cap,
            )[i].timestamp > history_page(s, start, end, cap)[j].timestamp,
{
    lemma_window_filter_props(s, start, end);
    let f = window_filter(s, start, end);
    let r = f.reverse();
    let p = history_page(s, start, end, cap);
    assert(r.len() == f.len());
    assert forall|i: int| 0 <= i < p.len() implies in_window(#[trigger] p[i], start, end)
        && s.contains(p[i]) by {
        assert(p[i] == r[i]);
        assert(r[i] == f[f.len() - 1 - i]);
    }
    assert forall|i: int, j: int| 0 <= i < j < p.len() implies p[i].timestamp > p[j].timestamp by {
        assert(p[i] == r[i] && p[j] == r[j]);
        assert(r[i] == f[f.len() - 1 - i] && r[j] == f[f.len() - 1 - j]);
        assert(f[f.len() - 1 - j].timestamp < f[f.len() - 1 - i].timestamp);
    }
}

} // verus!

