//! The global laws of the ledger, proved once over the transition
//! functions of [`crate::state`].
//!
//! Each law is a public proof function; its doc comment states the law in
//! words. Because every executable operation is proved to follow its
//! transition exactly, each law carries over to the running code.

use vstd::prelude::*;

use crate::state::Error;
use crate::state::LedgerView;
use crate::state::get_or_zero;
use crate::state::step_approve;
use crate::state::step_initialize;
use crate::state::step_transfer;
use crate::state::step_transfer_from;
use crate::sums::lemma_sum_empty;
use crate::sums::lemma_sum_insert;
use crate::sums::sum_map;

verus! {

/// `initialize` preserves well-formedness. In particular a successful run
/// starts from an empty balance table and credits the owner with the whole
/// supply, so the balances sum to the total supply from that moment on.
pub proof fn lemma_initialize_preserves_wf(v: LedgerView, caller: u64)
    requires
        v.wf(),
    ensures
        step_initialize(v, caller).1.wf(),
{
    let next = step_initialize(v, caller).1;
    if step_initialize(v, caller).0 is Ok {
        lemma_sum_empty();
        lemma_sum_insert(v.balances, v.owner, v.total_supply);
        assert(sum_map(next.balances) == v.total_supply);
    }
}

/// Conservation: the shared transfer primitive preserves well-formedness.
/// A successful transfer only moves value, so once initialized the sum of
/// all balances stays exactly the total supply.
pub proof fn lemma_transfer_preserves_wf(v: LedgerView, from: u64, to: u64, amount: u64)
    requires
        v.wf(),
    ensures
        step_transfer(v, from, to, amount).1.wf(),
{
    let next = step_transfer(v, from, to, amount).1;
    if step_transfer(v, from, to, amount).0 is Ok {
        let debited = v.balances.insert(from, (v.balances[from] - amount) as u64);
        lemma_sum_insert(v.balances, from, (v.balances[from] - amount) as u64);
        lemma_sum_insert(debited, to, (get_or_zero(debited, to) + amount) as u64);
        assert(v.initialized);
        assert(sum_map(next.balances) == sum_map(v.balances));
    }
}

/// `approve` preserves well-formedness: it never touches a balance.
pub proof fn lemma_approve_preserves_wf(v: LedgerView, caller: u64, spender: u64, amount: u64)
    requires
        v.wf(),
    ensures
        step_approve(v, caller, spender, amount).1.wf(),
{
}

/// `transfer_from` preserves well-formedness: the allowance cut touches no
/// balance, and the move itself conserves the supply.
pub proof fn lemma_transfer_from_preserves_wf(
    v: LedgerView,
    caller: u64,
    from: u64,
    to: u64,
    amount: u64,
)
    requires
        v.wf(),
    ensures
        step_transfer_from(v, caller, from, to, amount).1.wf(),
{
    if v.allowances.contains_key((from, to)) && v.allowances[(from, to)] >= amount {
        let remaining = (v.allowances[(from, to)] - amount) as u64;
        let approved = LedgerView {
            allowances: v.allowances.insert((from, to), remaining),
            events: v.events.push(
                crate::state::Event::Approval { owner: from, spender: to, amount: remaining },
            ),
            ..v
        };
        assert(approved.wf());
        lemma_transfer_preserves_wf(approved, from, to, amount);
    }
}

/// `initialize` succeeds exactly once: on an initialized ledger it always
/// fails with `AlreadyInitialized` and changes nothing, and on a fresh
/// ledger the owner's call succeeds and marks the ledger initialized, so
/// any later call falls under the first clause.
pub proof fn lemma_initialize_once(v: LedgerView, caller: u64)
    ensures
        v.initialized ==> step_initialize(v, caller).0 == Err::<(), Error>(
            Error::AlreadyInitialized,
        ) && step_initialize(v, caller).1 == v,
        !v.initialized && caller == v.owner ==> step_initialize(v, caller).0 == Ok::<(), Error>(())
            && step_initialize(v, caller).1.initialized,
{
}

/// `initialize` by anyone but the owner fails with `NotOwner` and leaves
/// the state, in particular the still empty balance table, untouched.
pub proof fn lemma_initialize_not_owner(v: LedgerView, caller: u64)
    requires
        v.wf(),
        !v.initialized,
        caller != v.owner,
    ensures
        step_initialize(v, caller).0 == Err::<(), Error>(Error::NotOwner),
        step_initialize(v, caller).1 == v,
        step_initialize(v, caller).1.balances == Map::<u64, u64>::empty(),
{
}

/// Asking for more than the sender's recorded balance fails with
/// `InsufficientBalance` and moves nothing.
pub proof fn lemma_transfer_insufficient(v: LedgerView, from: u64, to: u64, amount: u64)
    requires
        v.balances.contains_key(from),
        v.balances[from] < amount,
    ensures
        step_transfer(v, from, to, amount).0 == Err::<(), Error>(Error::InsufficientBalance),
        step_transfer(v, from, to, amount).1 == v,
{
}

/// Approvals accumulate: two successful approvals of `x` and then `y` on
/// the same pair leave the pair's allowance exactly `x + y` above where it
/// began.
pub proof fn lemma_approve_accumulates(v: LedgerView, caller: u64, spender: u64, x: u64, y: u64)
    requires
        step_approve(v, caller, spender, x).0 is Ok,
        step_approve(step_approve(v, caller, spender, x).1, caller, spender, y).0 is Ok,
    ensures
        get_or_zero(
            step_approve(step_approve(v, caller, spender, x).1, caller, spender, y).1.allowances,
            (caller, spender),
        ) == get_or_zero(v.allowances, (caller, spender)) + x + y,
{
}

/// `transfer_from` is atomic and exact: on success it cuts the `(from, to)`
/// allowance by precisely the amount and moves precisely the amount from
/// `from`'s balance to `to`'s (a move to oneself leaves the balance as it
/// was); on any failure nothing at all changes.
pub proof fn lemma_transfer_from_atomic(
    v: LedgerView,
    caller: u64,
    from: u64,
    to: u64,
    amount: u64,
)
    ensures
        step_transfer_from(v, caller, from, to, amount).0 is Err ==> step_transfer_from(
            v,
            caller,
            from,
            to,
            amount,
        ).1 == v,
        step_transfer_from(v, caller, from, to, amount).0 is Ok ==> {
            let next = step_transfer_from(v, caller, from, to, amount).1;
            &&& get_or_zero(next.allowances, (from, to)) == get_or_zero(
                v.allowances,
                (from, to),
            ) - amount
            &&& from != to ==> next.balances[from] == v.balances[from] - amount && get_or_zero(
                next.balances,
                to,
            ) == get_or_zero(v.balances, to) + amount
            &&& from == to ==> next.balances == v.balances
        },
{
    if step_transfer_from(v, caller, from, to, amount).0 is Ok {
        let next = step_transfer_from(v, caller, from, to, amount).1;
        if from == to {
            assert(next.balances =~= v.balances);
        }
    }
}

/// Arithmetic at the boundary: crediting a distinct receiver whose balance
/// cannot take the amount fails with `ArithmeticOverflow` and changes
/// nothing. (A move to oneself never overflows: the debit frees exactly
/// what the credit adds back.)
pub proof fn lemma_transfer_overflow(v: LedgerView, from: u64, to: u64, amount: u64)
    requires
        from != to,
        v.balances.contains_key(from),
        v.balances[from] >= amount,
        get_or_zero(v.balances, to) + amount > u64::MAX,
    ensures
        step_transfer(v, from, to, amount).0 == Err::<(), Error>(Error::ArithmeticOverflow),
        step_transfer(v, from, to, amount).1 == v,
{
}

} // verus!
