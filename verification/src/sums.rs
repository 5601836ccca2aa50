//! Summation over the values of a finite map.
//!
//! The conservation law of the ledger is stated as "the sum of all balances
//! equals the total supply". This module gives that sum a meaning for an
//! arbitrary finite `Map<u64, u64>` and proves how it changes under `remove`
//! and `insert`, which is all the ledger's transitions ever do to a balance
//! map.

use vstd::prelude::*;

verus! {

/// The sum of all values of a finite map, as an unbounded integer.
///
/// For a map with an infinite domain the result is left at zero; the ledger
/// only ever builds finite maps.
pub open spec fn sum_map(m: Map<u64, u64>) -> int
    decreases m.dom().len(),
{
    if m.dom().finite() && m.dom().len() > 0 {
        let k = m.dom().choose();
        m[k] + sum_map(m.remove(k))
    } else {
        0
    }
}

/// The empty map sums to zero.
pub proof fn lemma_sum_empty()
    ensures
        sum_map(Map::<u64, u64>::empty()) == 0,
{
    assert(Map::<u64, u64>::empty().dom() =~= Set::<u64>::empty());
}

/// Taking any one key out of a finite map takes exactly its value out of the
/// sum, no matter which key the recursion in `sum_map` happens to pick.
pub proof fn lemma_sum_remove(m: Map<u64, u64>, k: u64)
    requires
        m.dom().finite(),
        m.contains_key(k),
    ensures
        sum_map(m) == m[k] + sum_map(m.remove(k)),
    decreases m.dom().len(),
{
    let c = m.dom().choose();
    assert(m.dom().contains(c));
    if c == k {
        assert(m.remove(c) =~= m.remove(k));
    } else {
        lemma_sum_remove(m.remove(c), k);
        lemma_sum_remove(m.remove(k), c);
        assert(m.remove(c).remove(k) =~= m.remove(k).remove(c));
    }
}

/// Inserting a value replaces the key's old contribution to the sum (zero if
/// the key was absent) by the new value.
pub proof fn lemma_sum_insert(m: Map<u64, u64>, k: u64, v: u64)
    requires
        m.dom().finite(),
    ensures
        sum_map(m.insert(k, v)) == sum_map(m) + v - (if m.contains_key(k) {
            m[k] as int
        } else {
            0
        }),
{
    lemma_sum_remove(m.insert(k, v), k);
    if m.contains_key(k) {
        lemma_sum_remove(m, k);
        assert(m.insert(k, v).remove(k) =~= m.remove(k));
    } else {
        assert(m.insert(k, v).remove(k) =~= m);
    }
}

} // verus!
