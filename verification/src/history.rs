//! The append-only per-token time series and its bounded range query.
//!
//! A token's series is a vector of entries with strictly increasing
//! timestamps. A commit at an already-present timestamp overwrites that
//! entry (last write wins); otherwise the entry is placed at its ordered
//! position. The range query walks the series newest-first, keeps the
//! entries inside the inclusive `[start, end]` window and truncates to the
//! requested count.

use vstd::prelude::*;

use crate::msg::PriceHistoryEntry;
use crate::state::hist_sorted;

verus! {

/// The series after committing `price` at time `ts`: the entry at `ts` is
/// overwritten if present, inserted in timestamp order otherwise.
pub open spec fn hist_put(s: Seq<PriceHistoryEntry>, ts: u64, price: u128) -> Seq<
    PriceHistoryEntry,
>
    decreases s.len(),
{
    let e = PriceHistoryEntry { price, timestamp: ts };
    if s.len() == 0 {
        seq![e]
    } else if s.last().timestamp < ts {
        s.push(e)
    } else if s.last().timestamp == ts {
        s.update(s.len() - 1, e)
    } else {
        hist_put(s.drop_last(), ts, price).push(s.last())
    }
}

/// `hist_put` keeps the series ordered, and its newest timestamp is the
/// larger of the inserted one and the previous newest.
pub proof fn lemma_hist_put_sorted(s: Seq<PriceHistoryEntry>, ts: u64, price: u128)
    requires
        hist_sorted(s),
    ensures
        hist_sorted(hist_put(s, ts, price)),
        hist_put(s, ts, price).len() >= 1,
        hist_put(s, ts, price).last().timestamp == (if s.len() > 0 && s.last().timestamp > ts {
            s.last().timestamp
        } else {
            ts
        }),
    decreases s.len(),
{
    let e = PriceHistoryEntry { price, timestamp: ts };
    let r = hist_put(s, ts, price);
    if s.len() == 0 {
    } else if s.last().timestamp < ts {
        assert forall|i: int, j: int| 0 <= i < j < r.len() implies r[i].timestamp
            < r[j].timestamp by {
            if j < r.len() - 1 {
                assert(s[i].timestamp < s[j].timestamp);
            } else if i < r.len() - 1 {
                assert(i < s.len());
                if i < s.len() - 1 {
                    assert(s[i].timestamp < s[s.len() - 1].timestamp);
                }
            }
        }
    } else if s.last().timestamp == ts {
        assert forall|i: int, j: int| 0 <= i < j < r.len() implies r[i].timestamp
            < r[j].timestamp by {
            assert(s[i].timestamp < s[j].timestamp);
        }
    } else {
        let s0 = s.drop_last();
        assert(hist_sorted(s0)) by {
            assert forall|i: int, j: int| 0 <= i < j < s0.len() implies s0[i].timestamp
                < s0[j].timestamp by {
                assert(s[i].timestamp < s[j].timestamp);
            }
        }
        lemma_hist_put_sorted(s0, ts, price);
        let r0 = hist_put(s0, ts, price);
        assert(r == r0.push(s.last()));
        assert forall|i: int| 0 <= i < r0.len() implies r0[i].timestamp < s.last().timestamp by {
            if i < r0.len() - 1 {
                assert(r0[i].timestamp < r0.last().timestamp);
            }
            if s0.len() > 0 {
                assert(s0.last().timestamp == s[s.len() - 2].timestamp);
                assert(s[s.len() - 2].timestamp < s.last().timestamp);
            }
        }
        assert forall|i: int, j: int| 0 <= i < j < r.len() implies r[i].timestamp
            < r[j].timestamp by {
            if j < r.len() - 1 {
                assert(r0[i].timestamp < r0[j].timestamp);
            }
        }
    }
}

/// A commit places exactly one entry: the series then holds the committed
/// entry, grew by one when no entry carried the timestamp yet, and kept its
/// length when one did (last write wins).
pub proof fn lemma_hist_put_entry(s: Seq<PriceHistoryEntry>, ts: u64, price: u128)
    requires
        hist_sorted(s),
    ensures
        hist_put(s, ts, price).contains(PriceHistoryEntry { price, timestamp: ts }),
        (exists|i: int| 0 <= i < s.len() && (#[trigger] s[i]).timestamp == ts) ==> hist_put(
            s,
            ts,
            price,
        ).len() == s.len(),
        !(exists|i: int| 0 <= i < s.len() && (#[trigger] s[i]).timestamp == ts) ==> hist_put(
            s,
            ts,
            price,
        ).len() == s.len() + 1,
    decreases s.len(),
{
    let e = PriceHistoryEntry { price, timestamp: ts };
    let r = hist_put(s, ts, price);
    if s.len() == 0 {
        assert(r[0] == e);
    } else if s.last().timestamp < ts {
        assert(r[s.len() as int] == e);
        assert forall|i: int| 0 <= i < s.len() implies (#[trigger] s[i]).timestamp != ts by {
            if i < s.len() - 1 {
                assert(s[i].timestamp < s[s.len() - 1].timestamp);
            }
        }
    } else if s.last().timestamp == ts {
        assert(r[s.len() - 1] == e);
        assert(s[s.len() - 1].timestamp == ts);
    } else {
        let s0 = s.drop_last();
        assert(hist_sorted(s0)) by {
            assert forall|i: int, j: int| 0 <= i < j < s0.len() implies s0[i].timestamp
                < s0[j].timestamp by {
                assert(s[i].timestamp < s[j].timestamp);
            }
        }
        lemma_hist_put_entry(s0, ts, price);
        let r0 = hist_put(s0, ts, price);
        assert(r == r0.push(s.last()));
        let w = choose|w: int| 0 <= w < r0.len() && r0[w] == e;
        assert(r[w] == e);
        if exists|i: int| 0 <= i < s.len() && (#[trigger] s[i]).timestamp == ts {
            let i = choose|i: int| 0 <= i < s.len() && (#[trigger] s[i]).timestamp == ts;
            assert(i < s.len() - 1);
            assert(s0[i].timestamp == ts);
        } else {
            assert forall|i: int| 0 <= i < s0.len() implies (#[trigger] s0[i]).timestamp != ts by {
                assert(s[i].timestamp != ts);
            }
        }
    }
}

/// Every page entry lies inside the window, comes from the series, and the
/// page runs newest-first; its length is the window's size capped at `cap`.
pub proof fn lemma_window_filter_props(
    s: Seq<PriceHistoryEntry>,
    start: Option<u64>,
    end: Option<u64>,
)
    requires
        hist_sorted(s),
    ensures
        forall|i: int|
            0 <= i < window_filter(s, start, end).len() ==> in_window(
                #[trigger] window_filter(s, start, end)[i],
                start,
                end,
            ) && s.contains(window_filter(s, start, end)[i]),
        forall|i: int, j: int|
            0 <= i < j < window_filter(s, start, end).len() ==> window_filter(
                s,
                start,
                end,
            )[i].timestamp < window_filter(s, start, end)[j].timestamp,
    decreases s.len(),
{
    let f = window_filter(s, start, end);
    if s.len() == 0 {
    } else {
        let s0 = s.drop_first();
        assert(hist_sorted(s0)) by {
            assert forall|i: int, j: int| 0 <= i < j < s0.len() implies s0[i].timestamp
                < s0[j].timestamp by {
                assert(s[i + 1].timestamp < s[j + 1].timestamp);
            }
        }
        lemma_window_filter_props(s0, start, end);
        let f0 = window_filter(s0, start, end);
        assert forall|i: int| 0 <= i < f0.len() implies s.contains(#[trigger] f0[i]) by {
            let m = choose|m: int| 0 <= m < s0.len() && s0[m] == f0[i];
            assert(s[m + 1] == f0[i]);
        }
        if in_window(s.first(), start, end) {
            assert(f == seq![s.first()] + f0);
            assert(f[0] == s.first());
            assert(s.contains(s.first())) by {
                assert(s[0] == s.first());
            }
            assert forall|i: int, j: int| 0 <= i < j < f.len() implies f[i].timestamp
                < f[j].timestamp by {
                if i == 0 {
                    let m = choose|m: int| 0 <= m < s0.len() && s0[m] == f0[j - 1];
                    assert(f[j] == f0[j - 1]);
                    assert(s0[m] == s[m + 1]);
                    assert(s[0].timestamp < s[m + 1].timestamp);
                } else {
                    assert(f[i] == f0[i - 1] && f[j] == f0[j - 1]);
                }
            }
        }
    }
}

/// Splitting lemma: entries newer than `ts` at the tail are carried over
/// unchanged, and the insertion happens in the older prefix.
proof fn lemma_hist_put_split(s: Seq<PriceHistoryEntry>, ts: u64, price: u128, i: int)
    requires
        hist_sorted(s),
        0 <= i <= s.len(),
        forall|j: int| i <= j < s.len() ==> s[j].timestamp > ts,
    ensures
        hist_put(s, ts, price) == hist_put(s.subrange(0, i), ts, price) + s.subrange(
            i,
            s.len() as int,
        ),
    decreases s.len() - i,
{
    if i == s.len() {
        assert(s.subrange(0, i) == s);
        assert(hist_put(s, ts, price) + s.subrange(i, s.len() as int) =~= hist_put(s, ts, price));
    } else {
        lemma_hist_put_split(s, ts, price, i + 1);
        let p = s.subrange(0, i + 1);
        assert(p.last() == s[i]);
        assert(p.drop_last() =~= s.subrange(0, i));
        assert(hist_put(p, ts, price) == hist_put(s.subrange(0, i), ts, price).push(s[i]));
        assert(hist_put(s.subrange(0, i), ts, price).push(s[i]) + s.subrange(i + 1, s.len() as int)
            =~= hist_put(s.subrange(0, i), ts, price) + s.subrange(i, s.len() as int));
    }
}

/// A copy of the series with `price` committed at `ts`.
pub fn hist_with(h: &Vec<PriceHistoryEntry>, ts: u64, price: u128) -> (r: Vec<PriceHistoryEntry>)
    requires
        hist_sorted(h@),
    ensures
        r@ == hist_put(h@, ts, price),
        hist_sorted(r@),
{
    let e = PriceHistoryEntry { price, timestamp: ts };
    let n = h.len();
    let mut out: Vec<PriceHistoryEntry> = Vec::new();
    let mut k: usize = 0;
    while k < n
        invariant
            n == h@.len(),
            k <= n,
            out@ == h@.subrange(0, k as int),
        decreases n - k,
    {
        out.push(h[k]);
        proof {
            assert(out@ =~= h@.subrange(0, k + 1));
        }
        k = k + 1;
    }
    assert(out@ == h@);
    let mut i: usize = n;
    while i > 0 && out[i - 1].timestamp > ts
        invariant
            i <= n,
            n == out@.len(),
            out@ == h@,
            forall|j: int| i <= j < n ==> out@[j].timestamp > ts,
        decreases i,
    {
        i = i - 1;
    }
    proof {
        lemma_hist_put_split(h@, ts, price, i as int);
    }
    let ghost prefix = h@.subrange(0, i as int);
    let ghost suffix = h@.subrange(i as int, n as int);
    if i > 0 && out[i - 1].timestamp == ts {
        out[i - 1] = e;
        proof {
            assert(prefix.len() > 0 && prefix.last() == h@[i - 1]);
            assert(hist_put(prefix, ts, price) == prefix.update(i - 1, e));
            assert(out@ =~= prefix.update(i - 1, e) + suffix);
        }
    } else {
        out.insert(i, e);
        proof {
            if i > 0 {
                assert(prefix.last() == h@[i - 1]);
            }
            assert(hist_put(prefix, ts, price) == prefix.push(e));
            assert(out@ =~= prefix.push(e) + suffix);
        }
    }
    proof {
        lemma_hist_put_sorted(h@, ts, price);
    }
    out
}

/// Whether an entry lies inside the inclusive query window; an absent bound
/// is unbounded on that side.
pub open spec fn in_window(e: PriceHistoryEntry, start: Option<u64>, end: Option<u64>) -> bool {
    &&& (start matches Some(s) ==> e.timestamp >= s)
    &&& (end matches Some(x) ==> e.timestamp <= x)
}

/// The subsequence of entries inside the window, oldest first.
pub open spec fn window_filter(
    s: Seq<PriceHistoryEntry>,
    start: Option<u64>,
    end: Option<u64>,
) -> Seq<PriceHistoryEntry>
    decreases s.len(),
{
    if s.len() == 0 {
        Seq::empty()
    } else if in_window(s.first(), start, end) {
        seq![s.first()] + window_filter(s.drop_first(), start, end)
    } else {
        window_filter(s.drop_first(), start, end)
    }
}

/// `window_filter` distributes over concatenation.
proof fn lemma_window_filter_concat(
    a: Seq<PriceHistoryEntry>,
    b: Seq<PriceHistoryEntry>,
    start: Option<u64>,
    end: Option<u64>,
)
    ensures
        window_filter(a + b, start, end) == window_filter(a, start, end) + window_filter(
            b,
            start,
            end,
        ),
    decreases a.len(),
{
    if a.len() == 0 {
        assert(a + b =~= b);
        assert(window_filter(a, start, end) + window_filter(b, start, end) =~= window_filter(
            b,
            start,
            end,
        ));
    } else {
        assert((a + b).first() == a.first());
        assert((a + b).drop_first() =~= a.drop_first() + b);
        lemma_window_filter_concat(a.drop_first(), b, start, end);
        if in_window(a.first(), start, end) {
            assert(seq![a.first()] + (window_filter(a.drop_first(), start, end) + window_filter(
                b,
                start,
                end,
            )) =~= (seq![a.first()] + window_filter(a.drop_first(), start, end)) + window_filter(
                b,
                start,
                end,
            ));
        }
    }
}

/// The page a history query returns: the in-window entries, newest first,
/// truncated to `cap`.
pub open spec fn history_page(
    s: Seq<PriceHistoryEntry>,
    start: Option<u64>,
    end: Option<u64>,
    cap: int,
) -> Seq<PriceHistoryEntry> {
    let f = window_filter(s, start, end).reverse();
    if cap >= f.len() {
        f
    } else {
        f.take(cap)
    }
}

/// Walk the series newest-first, collecting in-window entries until `cap`
/// entries are gathered.
pub fn collect_page(h: &Vec<PriceHistoryEntry>, start: Option<u64>, end: Option<u64>, cap: usize)
    -> (r: Vec<PriceHistoryEntry>)
    ensures
        r@ == history_page(h@, start, end, cap as int),
{
    let n = h.len();
    let mut out: Vec<PriceHistoryEntry> = Vec::new();
    let mut i: usize = n;
    while i > 0 && out.len() < cap
        invariant
            i <= n,
            n == h@.len(),
            out@.len() <= cap,
            out@ == window_filter(h@.subrange(i as int, n as int), start, end).reverse(),
        decreases i,
    {
        let e = h[i - 1];
        let ghost tail = h@.subrange(i as int, n as int);
        let ghost tail2 = h@.subrange(i - 1, n as int);
        proof {
            assert(tail2.first() == h@[i - 1]);
            assert(tail2.drop_first() =~= tail);
            if in_window(e, start, end) {
                assert(window_filter(tail2, start, end).reverse() =~= window_filter(
                    tail,
                    start,
                    end,
                ).reverse().push(e));
            }
        }
        let in_lo = match start {
            Some(s) => e.timestamp >= s,
            None => true,
        };
        let in_hi = match end {
            Some(x) => e.timestamp <= x,
            None => true,
        };
        if in_lo && in_hi {
            out.push(e);
        }
        i = i - 1;
    }
    proof {
        let whole = window_filter(h@, start, end).reverse();
        let pre = h@.subrange(0, i as int);
        let tail = h@.subrange(i as int, n as int);
        assert(h@ =~= pre + tail);
        lemma_window_filter_concat(pre, tail, start, end);
        assert(whole =~= window_filter(tail, start, end).reverse() + window_filter(
            pre,
            start,
            end,
        ).reverse());
        if i == 0 {
            assert(window_filter(pre, start, end) =~= Seq::<PriceHistoryEntry>::empty());
            assert(whole =~= out@);
            assert(out@ == history_page(h@, start, end, cap as int));
        } else {
            assert(out@.len() == cap);
            assert(whole.take(cap as int) =~= out@);
            assert(out@ == history_page(h@, start, end, cap as int));
        }
    }
    out
}

} // verus!
