//! The ledger's state model: its view, its well-formedness, and the pure
//! transition function of each operation.
//!
//! Each transition takes the current view and the call's arguments and
//! returns the call's result together with the next view. A failed call
//! returns the view unchanged: every operation is all-or-nothing. The
//! executable code in [`crate::ledger`] is proved to follow these
//! transitions exactly, and the global laws over them are proved in
//! [`crate::laws`].

use vstd::prelude::*;

use crate::sums::sum_map;

verus! {

/// Why a call was refused. Every error leaves the ledger unchanged.
#[derive(Clone, Copy, Debug, PartialEq, Eq, Structural)]
pub enum Error {
    /// `initialize` has already run.
    AlreadyInitialized,
    /// `initialize` was called by an account other than the configured owner.
    NotOwner,
    /// The paying account has no balance record, not even a zero one.
    AccountNotFound,
    /// No allowance record stands under the transfer's `(from, to)` pair.
    AllowanceNotFound,
    /// The paying account holds less than the requested amount.
    InsufficientBalance,
    /// The allowance under the `(from, to)` pair is less than the amount.
    InsufficientAllowance,
    /// A balance or allowance would have exceeded the largest representable
    /// value.
    ArithmeticOverflow,
    /// A balance or allowance would have gone below zero. Every subtraction
    /// the ledger performs is guarded by a comparison first, so no operation
    /// actually returns this; the variant completes the taxonomy of checked
    /// arithmetic.
    ArithmeticUnderflow,
}

/// A record the ledger emits on the same all-or-nothing boundary as the
/// state change it reports.
#[derive(Clone, Copy, Debug, PartialEq, Eq, Structural)]
pub enum Event {
    /// `amount` moved from `from` to `to`.
    Transfer { from: u64, to: u64, amount: u64 },
    /// The allowance of `spender` on `owner`'s funds now stands at `amount`:
    /// the new total, not the change.
    Approval { owner: u64, spender: u64, amount: u64 },
}

/// The mathematical view of a ledger.
///
/// Balances and allowances are finite maps; a key's absence means "no
/// record", which only the `AccountNotFound` and `AllowanceNotFound` checks
/// distinguish from a zero value.
#[verifier::ext_equal]
pub struct LedgerView {
    /// The one account allowed to run `initialize`.
    pub owner: u64,
    /// The fixed unit count of the token, set at genesis.
    pub total_supply: u64,
    /// Descriptive name; no behavioural effect.
    pub name: Seq<u8>,
    /// Descriptive ticker; no behavioural effect.
    pub ticker: Seq<u8>,
    /// Becomes true exactly once, through `initialize`.
    pub initialized: bool,
    /// Balance of each funded account.
    pub balances: Map<u64, u64>,
    /// Allowance under each `(owner, spender)` pair that `approve` has ever
    /// touched.
    pub allowances: Map<(u64, u64), u64>,
    /// Everything emitted so far, oldest first.
    pub events: Seq<Event>,
}

/// The value under a key, taking an absent record as zero.
pub open spec fn get_or_zero<K>(m: Map<K, u64>, k: K) -> u64 {
    if m.contains_key(k) {
        m[k]
    } else {
        0
    }
}

impl LedgerView {
    /// What holds of every reachable ledger state: the maps are finite,
    /// before initialization no account has a balance record, and from
    /// initialization on the balances sum exactly to the total supply, so
    /// no operation ever creates or destroys value.
    pub open spec fn wf(self) -> bool {
        &&& self.balances.dom().finite()
        &&& self.allowances.dom().finite()
        &&& !self.initialized ==> self.balances == Map::<u64, u64>::empty()
        &&& self.initialized ==> sum_map(self.balances) == self.total_supply
    }
}

/// The transition of `initialize(caller)`: refused once run or for any
/// caller but the owner; otherwise it credits the whole supply to the owner
/// and marks the ledger initialized.
pub open spec fn step_initialize(v: LedgerView, caller: u64) -> (Result<(), Error>, LedgerView) {
    if v.initialized {
        (Err(Error::AlreadyInitialized), v)
    } else if caller != v.owner {
        (Err(Error::NotOwner), v)
    } else {
        (
            Ok(()),
            LedgerView {
                initialized: true,
                balances: v.balances.insert(v.owner, v.total_supply),
                ..v
            },
        )
    }
}

/// The shared transfer primitive: moves `amount` from `from` to `to`.
///
/// `from` must have a balance record covering the amount. The debit commits
/// before the credit is read, so moving funds to oneself leaves the balance
/// as it was; for a distinct receiver, a record is created at zero if
/// absent, and the credit is refused if it would overflow. On success a
/// `Transfer` event is appended.
pub open spec fn step_transfer(v: LedgerView, from: u64, to: u64, amount: u64) -> (
    Result<(), Error>,
    LedgerView,
) {
    if !v.balances.contains_key(from) {
        (Err(Error::AccountNotFound), v)
    } else if v.balances[from] < amount {
        (Err(Error::InsufficientBalance), v)
    } else {
        let debited = v.balances.insert(from, (v.balances[from] - amount) as u64);
        if get_or_zero(debited, to) + amount > u64::MAX {
            (Err(Error::ArithmeticOverflow), v)
        } else {
            (
                Ok(()),
                LedgerView {
                    balances: debited.insert(to, (get_or_zero(debited, to) + amount) as u64),
                    events: v.events.push(Event::Transfer { from, to, amount }),
                    ..v
                },
            )
        }
    }
}

/// The transition of `approve(caller, spender, amount)`: the caller must
/// have a balance record; the amount is then added onto the standing
/// allowance of the pair, not written over it, and the `Approval` event
/// carries the new total. The addition is refused if it would overflow.
pub open spec fn step_approve(v: LedgerView, caller: u64, spender: u64, amount: u64) -> (
    Result<(), Error>,
    LedgerView,
) {
    if !v.balances.contains_key(caller) {
        (Err(Error::AccountNotFound), v)
    } else if get_or_zero(v.allowances, (caller, spender)) + amount > u64::MAX {
        (Err(Error::ArithmeticOverflow), v)
    } else {
        let total = (get_or_zero(v.allowances, (caller, spender)) + amount) as u64;
        (
            Ok(()),
            LedgerView {
                allowances: v.allowances.insert((caller, spender), total),
                events: v.events.push(Event::Approval { owner: caller, spender, amount: total }),
                ..v
            },
        )
    }
}

/// The transition of `transfer_from(caller, from, to, amount)`.
///
/// The allowance consulted and decremented is the one under the transfer's
/// own `(from, to)` pair, so the authorization does not depend on `caller`
/// at all; the parameter is kept because the host hands it in. The
/// allowance must exist and cover the amount; it is then reduced by the
/// amount, an `Approval` event with the remainder is appended, and the
/// shared transfer primitive runs. If the primitive refuses, the whole
/// call, the allowance cut and its event included, is undone.
pub open spec fn step_transfer_from(
    v: LedgerView,
    caller: u64,
    from: u64,
    to: u64,
    amount: u64,
) -> (Result<(), Error>, LedgerView) {
    if !v.allowances.contains_key((from, to)) {
        (Err(Error::AllowanceNotFound), v)
    } else if v.allowances[(from, to)] < amount {
        (Err(Error::InsufficientAllowance), v)
    } else {
        let remaining = (v.allowances[(from, to)] - amount) as u64;
        let approved = LedgerView {
            allowances: v.allowances.insert((from, to), remaining),
            events: v.events.push(Event::Approval { owner: from, spender: to, amount: remaining }),
            ..v
        };
        let moved = step_transfer(approved, from, to, amount);
        if moved.0 is Ok {
            moved
        } else {
            (moved.0, v)
        }
    }
}

} // verus!
