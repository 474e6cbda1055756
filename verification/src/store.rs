//! Association lists keyed by strings, with a finite-map view.
//!
//! Every store of the oracle (registry, prices, pending updates, whitelist,
//! history) is a vector of key/value entries with pairwise-distinct keys.
//! `assoc_map` abstracts such a vector to a `Map` from key characters to
//! value views, and the executable operations below are specified against
//! that abstraction.

use vstd::prelude::*;

verus! {

/// Lookup by key, scanning entries from index `i` on; the result is the
/// value view of the first entry whose key reads `k`.
pub open spec fn assoc_find_from<V: View>(s: Seq<(String, V)>, i: int, k: Seq<char>) -> Option<
    V::V,
>
    decreases s.len() - i,
{
    if i < 0 || i >= s.len() {
        None
    } else if s[i].0@ == k {
        Some(s[i].1@)
    } else {
        assoc_find_from(s, i + 1, k)
    }
}

/// Lookup by key over the whole list.
pub open spec fn assoc_find<V: View>(s: Seq<(String, V)>, k: Seq<char>) -> Option<V::V> {
    assoc_find_from(s, 0, k)
}

/// No two entries share a key.
pub open spec fn keys_distinct<V: View>(s: Seq<(String, V)>) -> bool {
    forall|i: int, j: int| 0 <= i < j < s.len() ==> s[i].0@ != s[j].0@
}

/// The finite map that an association list stands for.
pub open spec fn assoc_map<V: View>(s: Seq<(String, V)>) -> Map<Seq<char>, V::V> {
    Map::new(|k: Seq<char>| assoc_find(s, k) is Some, |k: Seq<char>| assoc_find(s, k)->0)
}

/// An entry at index `i` is found by any scan that starts at or before `i`,
/// provided no entry between the scan start and `i` shares its key.
proof fn lemma_find_hit<V: View>(s: Seq<(String, V)>, j: int, i: int, k: Seq<char>)
    requires
        keys_distinct(s),
        0 <= j <= i < s.len(),
        s[i].0@ == k,
    ensures
        assoc_find_from(s, j, k) == Some(s[i].1@),
    decreases i - j,
{
    if j < i {
        lemma_find_hit(s, j + 1, i, k);
    }
}

/// A key matched by no entry is not found.
proof fn lemma_find_miss<V: View>(s: Seq<(String, V)>, j: int, k: Seq<char>)
    requires
        0 <= j <= s.len(),
        forall|i: int| j <= i < s.len() ==> s[i].0@ != k,
    ensures
        assoc_find_from(s, j, k) is None,
    decreases s.len() - j,
{
    if j < s.len() {
        lemma_find_miss(s, j + 1, k);
    }
}

/// Replacing the value at index `i` (keeping the key's characters) rewrites
/// the lookup at that key and no other.
proof fn lemma_find_update<V: View>(s: Seq<(String, V)>, i: int, e: (String, V), j: int, k: Seq<char>)
    requires
        keys_distinct(s),
        0 <= i < s.len(),
        e.0@ == s[i].0@,
        0 <= j <= s.len(),
    ensures
        assoc_find_from(s.update(i, e), j, k) == (if j <= i && k == s[i].0@ {
            Some(e.1@)
        } else {
            assoc_find_from(s, j, k)
        }),
    decreases s.len() - j,
{
    if j < s.len() {
        lemma_find_update(s, i, e, j + 1, k);
    }
}

/// Appending an entry with a fresh key adds that key's lookup and keeps all
/// others.
proof fn lemma_find_push<V: View>(s: Seq<(String, V)>, e: (String, V), j: int, k: Seq<char>)
    requires
        forall|i: int| 0 <= i < s.len() ==> s[i].0@ != e.0@,
        0 <= j <= s.len(),
    ensures
        assoc_find_from(s.push(e), j, k) == (if k == e.0@ {
            Some(e.1@)
        } else {
            assoc_find_from(s, j, k)
        }),
    decreases s.len() - j,
{
    if j < s.len() {
        assert(s.push(e)[j] == s[j]);
        lemma_find_push(s, e, j + 1, k);
    } else {
        assert(s.push(e)[j] == e);
        assert(assoc_find_from(s.push(e), j + 1, k) is None);
    }
}

/// Removing the entry at index `i` drops that key's lookup and keeps all
/// others.
proof fn lemma_find_remove<V: View>(s: Seq<(String, V)>, i: int, j: int, k: Seq<char>)
    requires
        keys_distinct(s),
        0 <= i < s.len(),
        0 <= j <= s.len() - 1,
    ensures
        assoc_find_from(s.remove(i), j, k) == (if j <= i && k == s[i].0@ {
            None
        } else if j <= i {
            assoc_find_from(s, j, k)
        } else {
            assoc_find_from(s, j + 1, k)
        }),
    decreases s.len() - j,
{
    let s2 = s.remove(i);
    assert(s2.len() == s.len() - 1);
    if j < s.len() - 1 {
        lemma_find_remove(s, i, j + 1, k);
        if j < i {
            assert(s2[j] == s[j]);
        } else {
            assert(s2[j] == s[j + 1]);
        }
        if j == i && k == s[i].0@ {
            assert forall|m: int| j + 2 <= m < s.len() implies s[m].0@ != k by {
                assert(s[i].0@ != s[m].0@);
            }
            lemma_find_miss(s, j + 2, k);
        }
        if i <= j {
            assert(assoc_find_from(s, j + 1, k) == (if s[j + 1].0@ == k {
                Some(s[j + 1].1@)
            } else {
                assoc_find_from(s, j + 2, k)
            }));
        }
    } else {
        assert(assoc_find_from(s, j + 1, k) is None);
    }
}

/// The index of the entry with the given key, if one exists.
pub fn key_index<V: View>(s: &Vec<(String, V)>, key: &String) -> (r: Option<usize>)
    ensures
        match r {
            Some(i) => i < s@.len() && s@[i as int].0@ == key@,
            None => forall|i: int| 0 <= i < s@.len() ==> s@[i].0@ != key@,
        },
{
    let n = s.len();
    let mut i: usize = 0;
    while i < n
        invariant
            n == s@.len(),
            i <= n,
            forall|j: int| 0 <= j < i ==> s@[j].0@ != key@,
        decreases n - i,
    {
        if s[i].0 == *key {
            return Some(i);
        }
        i = i + 1;
    }
    None
}

/// Whether the list holds an entry for the given key.
pub fn has_key<V: View>(s: &Vec<(String, V)>, key: &String) -> (r: bool)
    requires
        keys_distinct(s@),
    ensures
        r == (assoc_find(s@, key@) is Some),
        r == assoc_map(s@).contains_key(key@),
{
    match key_index(s, key) {
        Some(i) => {
            proof {
                lemma_find_hit(s@, 0, i as int, key@);
            }
            true
        },
        None => {
            proof {
                lemma_find_miss(s@, 0, key@);
            }
            false
        },
    }
}

/// A borrow of the value stored under the given key, if any.
pub fn assoc_get<'a, V: View>(s: &'a Vec<(String, V)>, key: &String) -> (r: Option<&'a V>)
    requires
        keys_distinct(s@),
    ensures
        match r {
            Some(v) => assoc_find(s@, key@) == Some(v@) && assoc_map(s@).contains_key(key@)
                && assoc_map(s@)[key@] == v@,
            None => assoc_find(s@, key@) is None && !assoc_map(s@).contains_key(key@),
        },
{
    match key_index(s, key) {
        Some(i) => {
            proof {
                lemma_find_hit(s@, 0, i as int, key@);
            }
            Some(&s[i].1)
        },
        None => {
            proof {
                lemma_find_miss(s@, 0, key@);
            }
            None
        },
    }
}

/// Store `val` under `key`, overwriting an existing entry for that key.
pub fn assoc_upsert<V: View>(s: &mut Vec<(String, V)>, key: String, val: V)
    requires
        keys_distinct(old(s)@),
    ensures
        keys_distinct(final(s)@),
        assoc_map(final(s)@) == assoc_map(old(s)@).insert(key@, val@),
        assoc_find(final(s)@, key@) == Some(val@),
        forall|k: Seq<char>| k != key@ ==> #[trigger] assoc_find(final(s)@, k) == assoc_find(
            old(s)@,
            k,
        ),
{
    let ghost s0 = s@;
    match key_index(s, &key) {
        Some(i) => {
            let ghost e = (key, val);
            s[i] = (key, val);
            proof {
                assert forall|m: int, l: int| 0 <= m < l < s@.len() implies s@[m].0@ != s@[l].0@ by {
                    assert(s@[m].0@ == s0[m].0@ && s@[l].0@ == s0[l].0@);
                }
                assert forall|k: Seq<char>| true implies assoc_find(s@, k) == (if k == key@ {
                    Some(val@)
                } else {
                    assoc_find(s0, k)
                }) by {
                    lemma_find_update(s0, i as int, e, 0, k);
                }
            }
        },
        None => {
            let ghost e = (key, val);
            s.push((key, val));
            proof {
                assert forall|k: Seq<char>| true implies assoc_find(s@, k) == (if k == key@ {
                    Some(val@)
                } else {
                    assoc_find(s0, k)
                }) by {
                    lemma_find_push(s0, e, 0, k);
                }
                assert forall|m: int, l: int| 0 <= m < l < s@.len() implies s@[m].0@ != s@[l].0@ by {
                    if l < s0.len() {
                        assert(s@[m].0@ == s0[m].0@ && s@[l].0@ == s0[l].0@);
                    } else {
                        assert(s@[m].0@ == s0[m].0@ && s@[l].0@ == key@);
                    }
                }
            }
        },
    }
    proof {
        assert(assoc_map(s@) =~= assoc_map(s0).insert(key@, val@));
    }
}

/// Delete the entry under `key`, if any.
pub fn assoc_remove<V: View>(s: &mut Vec<(String, V)>, key: &String)
    requires
        keys_distinct(old(s)@),
    ensures
        keys_distinct(final(s)@),
        assoc_map(final(s)@) == assoc_map(old(s)@).remove(key@),
        assoc_find(final(s)@, key@) is None,
        forall|k: Seq<char>| k != key@ ==> #[trigger] assoc_find(final(s)@, k) == assoc_find(
            old(s)@,
            k,
        ),
{
    let ghost s0 = s@;
    match key_index(s, key) {
        Some(i) => {
            s.remove(i);
            proof {
                assert forall|k: Seq<char>| true implies assoc_find(s@, k) == (if k == key@ {
                    None::<V::V>
                } else {
                    assoc_find(s0, k)
                }) by {
                    lemma_find_remove(s0, i as int, 0, k);
                }
                assert forall|m: int, l: int| 0 <= m < l < s@.len() implies s@[m].0@ != s@[l].0@ by {
                    let m0 = if m < i { m } else { m + 1 };
                    let l0 = if l < i { l } else { l + 1 };
                    assert(s@[m].0@ == s0[m0].0@ && s@[l].0@ == s0[l0].0@);
                }
            }
        },
        None => {
            proof {
                lemma_find_miss(s@, 0, key@);
            }
        },
    }
    proof {
        assert(assoc_map(s@) =~= assoc_map(s0).remove(key@));
    }
}

/// Every stored key is in the map, at the stored value.
pub proof fn lemma_entry_in_map<V: View>(s: Seq<(String, V)>, i: int)
    requires
        keys_distinct(s),
        0 <= i < s.len(),
    ensures
        assoc_find(s, s[i].0@) == Some(s[i].1@),
        assoc_map(s).contains_key(s[i].0@),
        assoc_map(s)[s[i].0@] == s[i].1@,
{
    lemma_find_hit(s, 0, i, s[i].0@);
}

/// Every key in the map is the key of some stored entry.
pub proof fn lemma_map_in_entries<V: View>(s: Seq<(String, V)>, k: Seq<char>)
    requires
        assoc_find(s, k) is Some,
    ensures
        exists|i: int| 0 <= i < s.len() && s[i].0@ == k && s[i].1@ == assoc_find(s, k)->0,
{
    if !(exists|i: int| 0 <= i < s.len() && s[i].0@ == k && s[i].1@ == assoc_find(s, k)->0) {
        assert forall|i: int| 0 <= i < s.len() implies s[i].0@ != k by {
            if s[i].0@ == k {
                lemma_find_first_hit(s, 0, k);
            }
        }
        lemma_find_miss(s, 0, k);
    }
}

/// Two association lists whose entries agree pairwise on key and value
/// views describe the same map.
pub proof fn lemma_entries_equiv<V: View>(a: Seq<(String, V)>, b: Seq<(String, V)>)
    requires
        a.len() == b.len(),
        forall|i: int| 0 <= i < a.len() ==> (#[trigger] a[i]).0@ == b[i].0@ && a[i].1@ == b[i].1@,
    ensures
        forall|k: Seq<char>| #[trigger] assoc_find(a, k) == assoc_find(b, k),
        assoc_map(a) == assoc_map(b),
        keys_distinct(a) <==> keys_distinct(b),
{
    assert forall|k: Seq<char>| #[trigger] assoc_find(a, k) == assoc_find(b, k) by {
        lemma_equiv_find(a, b, 0, k);
    }
    assert(assoc_map(a) =~= assoc_map(b));
    if keys_distinct(a) {
        assert forall|i: int, j: int| 0 <= i < j < b.len() implies b[i].0@ != b[j].0@ by {
            assert(a[i].0@ != a[j].0@);
        }
    }
    if keys_distinct(b) {
        assert forall|i: int, j: int| 0 <= i < j < a.len() implies a[i].0@ != a[j].0@ by {
            assert(b[i].0@ != b[j].0@);
        }
    }
}

/// Scans over pairwise view-equal lists agree.
proof fn lemma_equiv_find<V: View>(a: Seq<(String, V)>, b: Seq<(String, V)>, j: int, k: Seq<char>)
    requires
        a.len() == b.len(),
        forall|i: int| 0 <= i < a.len() ==> (#[trigger] a[i]).0@ == b[i].0@ && a[i].1@ == b[i].1@,
        0 <= j <= a.len(),
    ensures
        assoc_find_from(a, j, k) == assoc_find_from(b, j, k),
    decreases a.len() - j,
{
    if j < a.len() {
        lemma_equiv_find(a, b, j + 1, k);
    }
}

/// A successful scan from `j` finds some entry at or after `j` whose key and
/// value view match the result.
proof fn lemma_find_first_hit<V: View>(s: Seq<(String, V)>, j: int, k: Seq<char>)
    requires
        0 <= j <= s.len(),
        assoc_find_from(s, j, k) is Some,
    ensures
        exists|i: int| j <= i < s.len() && s[i].0@ == k && s[i].1@ == assoc_find_from(s, j, k)->0,
    decreases s.len() - j,
{
    if j < s.len() && s[j].0@ != k {
        lemma_find_first_hit(s, j + 1, k);
    }
}

} // verus!
