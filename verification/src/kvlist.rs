//! Association lists as finite maps.
//!
//! The ledger stores its balance and allowance tables as vectors of
//! key-value pairs with pairwise distinct keys. This module interprets such
//! a sequence of pairs as a `Map` and proves how the interpretation reacts
//! to the three things the executable code does to a table: read an entry,
//! overwrite an entry in place, and append a fresh entry.

use vstd::prelude::*;

verus! {

/// The keys of the entries are pairwise distinct.
pub open spec fn uniq_keys<K, V>(s: Seq<(K, V)>) -> bool {
    forall|i: int, j: int|
        0 <= i < j < s.len() ==> (#[trigger] s[i]).0 != (#[trigger] s[j]).0
}

/// The map an association list stands for: later entries win, though with
/// `uniq_keys` there is never a contest.
pub open spec fn map_of<K, V>(s: Seq<(K, V)>) -> Map<K, V>
    decreases s.len(),
{
    if s.len() == 0 {
        Map::empty()
    } else {
        map_of(s.drop_last()).insert(s.last().0, s.last().1)
    }
}

/// Every entry's key is in the map.
pub proof fn lemma_map_of_contains<K, V>(s: Seq<(K, V)>, i: int)
    requires
        0 <= i < s.len(),
    ensures
        map_of(s).contains_key(s[i].0),
    decreases s.len(),
{
    if i < s.len() - 1 {
        lemma_map_of_contains(s.drop_last(), i);
    }
}

/// A key under which no entry stands is not in the map.
pub proof fn lemma_map_of_absent<K, V>(s: Seq<(K, V)>, k: K)
    requires
        forall|i: int| 0 <= i < s.len() ==> (#[trigger] s[i]).0 != k,
    ensures
        !map_of(s).contains_key(k),
    decreases s.len(),
{
    if s.len() > 0 {
        lemma_map_of_absent(s.drop_last(), k);
    }
}

/// With distinct keys, an entry gives its key's value in the map.
pub proof fn lemma_map_of_index<K, V>(s: Seq<(K, V)>, i: int)
    requires
        uniq_keys(s),
        0 <= i < s.len(),
    ensures
        map_of(s).contains_key(s[i].0),
        map_of(s)[s[i].0] == s[i].1,
    decreases s.len(),
{
    lemma_map_of_contains(s, i);
    if i < s.len() - 1 {
        lemma_map_of_index(s.drop_last(), i);
        assert(s[i].0 != s.last().0);
    }
}

/// Overwriting one entry in place, keeping its key, is an insert on the map.
pub proof fn lemma_map_of_update<K, V>(s: Seq<(K, V)>, i: int, k: K, v: V)
    requires
        uniq_keys(s),
        0 <= i < s.len(),
        s[i].0 == k,
    ensures
        map_of(s.update(i, (k, v))) =~= map_of(s).insert(k, v),
        uniq_keys(s.update(i, (k, v))),
    decreases s.len(),
{
    let t = s.update(i, (k, v));
    assert forall|a: int, b: int| 0 <= a < b < t.len() implies (#[trigger] t[a]).0 != (
    #[trigger] t[b]).0 by {
        assert(t[a].0 == s[a].0 && t[b].0 == s[b].0);
    }
    if i == s.len() - 1 {
        assert(t.drop_last() =~= s.drop_last());
        assert(map_of(t) =~= map_of(s.drop_last()).insert(k, v));
        assert(map_of(s).insert(k, v) =~= map_of(s.drop_last()).insert(k, s[i].1).insert(k, v));
    } else {
        assert(t.drop_last() =~= s.drop_last().update(i, (k, v)));
        lemma_map_of_update(s.drop_last(), i, k, v);
        assert(s[i].0 != s.last().0);
        assert(t.last() == s.last());
        assert(map_of(t) =~= map_of(s.drop_last()).insert(k, v).insert(s.last().0, s.last().1));
    }
}

/// Appending an entry under a fresh key is an insert on the map, and keeps
/// the keys distinct.
pub proof fn lemma_map_of_push<K, V>(s: Seq<(K, V)>, k: K, v: V)
    requires
        forall|i: int| 0 <= i < s.len() ==> (#[trigger] s[i]).0 != k,
        uniq_keys(s),
    ensures
        map_of(s.push((k, v))) =~= map_of(s).insert(k, v),
        uniq_keys(s.push((k, v))),
    decreases s.len(),
{
    let t = s.push((k, v));
    assert(t.drop_last() =~= s);
    assert forall|a: int, b: int| 0 <= a < b < t.len() implies (#[trigger] t[a]).0 != (
    #[trigger] t[b]).0 by {
        if b < t.len() - 1 {
            assert(t[a].0 == s[a].0 && t[b].0 == s[b].0);
        } else {
            assert(t[a].0 == s[a].0 && t[b].0 == k);
        }
    }
}

} // verus!
