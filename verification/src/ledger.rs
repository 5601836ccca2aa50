//! The executable ledger.
//!
//! [`Ledger`] owns the configuration, the balance and allowance tables and
//! the emitted events. The tables are association lists with pairwise
//! distinct keys; their meaning as maps comes from [`crate::kvlist`]. Every
//! operation is proved to follow the corresponding transition function of
//! [`crate::state`] exactly and to keep the ledger well formed.

use vstd::pervasive::VecAdditionalExecFns;
use vstd::prelude::*;

use crate::kvlist::lemma_map_of_absent;
use crate::kvlist::lemma_map_of_index;
use crate::kvlist::lemma_map_of_push;
use crate::kvlist::lemma_map_of_update;
use crate::kvlist::map_of;
use crate::kvlist::uniq_keys;
use crate::laws::lemma_initialize_preserves_wf;
use crate::laws::lemma_transfer_preserves_wf;
use crate::state::Error;
use crate::state::Event;
use crate::state::LedgerView;
use crate::state::get_or_zero;
use crate::state::step_approve;
use crate::state::step_initialize;
use crate::state::step_transfer;
use crate::state::step_transfer_from;
use crate::sums::sum_map;

verus! {

/// A fungible-token ledger: configuration, balances, allowances and the
/// events emitted so far. The host builds one at genesis with [`Ledger::new`]
/// and then applies one operation at a time.
pub struct Ledger {
    owner: u64,
    total_supply: u64,
    name: Vec<u8>,
    ticker: Vec<u8>,
    initialized: bool,
    balances: Vec<(u64, u64)>,
    allowances: Vec<((u64, u64), u64)>,
    events: Vec<Event>,
}

impl View for Ledger {
    type V = LedgerView;

    closed spec fn view(&self) -> LedgerView {
        LedgerView {
            owner: self.owner,
            total_supply: self.total_supply,
            name: self.name@,
            ticker: self.ticker@,
            initialized: self.initialized,
            balances: map_of(self.balances@),
            allowances: map_of(self.allowances@),
            events: self.events@,
        }
    }
}

/// The first entry under `key`, if any. With distinct keys it is the only
/// one.
fn find_key(entries: &Vec<(u64, u64)>, key: u64) -> (r: Option<usize>)
    ensures
        match r {
            Some(i) => i < entries@.len() && entries@[i as int].0 == key,
            None => forall|j: int| 0 <= j < entries@.len() ==> (#[trigger] entries@[j]).0 != key,
        },
{
    let mut i: usize = 0;
    while i < entries.len()
        invariant
            i <= entries@.len(),
            forall|j: int| 0 <= j < i ==> (#[trigger] entries@[j]).0 != key,
        decreases entries@.len() - i,
    {
        if entries[i].0 == key {
            return Some(i);
        }
        i = i + 1;
    }
    None
}

/// The first entry under the pair `(a, b)`, if any.
fn find_pair(entries: &Vec<((u64, u64), u64)>, a: u64, b: u64) -> (r: Option<usize>)
    ensures
        match r {
            Some(i) => i < entries@.len() && entries@[i as int].0 == (a, b),
            None => forall|j: int|
                0 <= j < entries@.len() ==> (#[trigger] entries@[j]).0 != (a, b),
        },
{
    let mut i: usize = 0;
    while i < entries.len()
        invariant
            i <= entries@.len(),
            forall|j: int| 0 <= j < i ==> (#[trigger] entries@[j]).0 != (a, b),
        decreases entries@.len() - i,
    {
        if entries[i].0.0 == a && entries[i].0.1 == b {
            return Some(i);
        }
        i = i + 1;
    }
    None
}

impl Ledger {
    /// The representation's own discipline: distinct keys in both tables,
    /// and no balance entry at all before initialization.
    pub closed spec fn rep_wf(self) -> bool {
        &&& uniq_keys(self.balances@)
        &&& uniq_keys(self.allowances@)
        &&& !self.initialized ==> self.balances@.len() == 0
    }

    /// A valid ledger: its tables are in shape and its view is well formed,
    /// which carries the conservation of the total supply. Constructors
    /// establish it and every operation preserves it.
    pub open spec fn inv(self) -> bool {
        &&& self.rep_wf()
        &&& self@.wf()
    }

    /// Conservation, stated on the running ledger itself: once
    /// initialized, the balances of a valid ledger sum exactly to the
    /// total supply. It holds after every call, since every operation
    /// preserves [`Ledger::inv`].
    pub proof fn lemma_conservation(&self)
        requires
            self.inv(),
            self@.initialized,
        ensures
            sum_map(self@.balances) == self@.total_supply,
    {
    }

    /// Builds the genesis state: the configuration as given, not yet
    /// initialized, no balances, no allowances, no events.
    pub fn new(owner: u64, total_supply: u64, name: Vec<u8>, ticker: Vec<u8>) -> (l: Ledger)
        ensures
            l.inv(),
            l@ == (LedgerView {
                owner,
                total_supply,
                name: name@,
                ticker: ticker@,
                initialized: false,
                balances: Map::<u64, u64>::empty(),
                allowances: Map::<(u64, u64), u64>::empty(),
                events: Seq::<Event>::empty(),
            }),
    {
        let l = Ledger {
            owner,
            total_supply,
            name,
            ticker,
            initialized: false,
            balances: Vec::new(),
            allowances: Vec::new(),
            events: Vec::new(),
        };
        proof {
            assert(map_of(l.balances@) =~= Map::<u64, u64>::empty());
            assert(map_of(l.allowances@) =~= Map::<(u64, u64), u64>::empty());
        }
        l
    }

    /// Whether `initialize` has run.
    pub fn is_initialized(&self) -> (r: bool)
        ensures
            r == self@.initialized,
    {
        self.initialized
    }

    /// The account allowed to run `initialize`.
    pub fn owner(&self) -> (r: u64)
        ensures
            r == self@.owner,
    {
        self.owner
    }

    /// The fixed unit count of the token.
    pub fn total_supply(&self) -> (r: u64)
        ensures
            r == self@.total_supply,
    {
        self.total_supply
    }

    /// The token's descriptive name.
    pub fn name(&self) -> (r: &Vec<u8>)
        ensures
            r@ == self@.name,
    {
        &self.name
    }

    /// The token's descriptive ticker.
    pub fn ticker(&self) -> (r: &Vec<u8>)
        ensures
            r@ == self@.ticker,
    {
        &self.ticker
    }

    /// Everything emitted so far, oldest first.
    pub fn events(&self) -> (r: &Vec<Event>)
        ensures
            r@ == self@.events,
    {
        &self.events
    }

    /// The balance of `account`, zero when it has no record.
    pub fn balance_of(&self, account: u64) -> (r: u64)
        requires
            self.inv(),
        ensures
            r == get_or_zero(self@.balances, account),
    {
        match find_key(&self.balances, account) {
            Some(i) => {
                proof {
                    lemma_map_of_index(self.balances@, i as int);
                }
                self.balances[i].1
            },
            None => {
                proof {
                    lemma_map_of_absent(self.balances@, account);
                }
                0
            },
        }
    }

    /// Runs `initialize(caller)`: exactly once, and only by the owner, it
    /// credits the whole supply to the owner and marks the ledger
    /// initialized; any other call fails and changes nothing.
    pub fn initialize(&mut self, caller: u64) -> (r: Result<(), Error>)
        requires
            old(self).inv(),
        ensures
            final(self).inv(),
            r == step_initialize(old(self)@, caller).0,
            final(self)@ == step_initialize(old(self)@, caller).1,
    {
        if self.initialized {
            return Err(Error::AlreadyInitialized);
        }
        if caller != self.owner {
            return Err(Error::NotOwner);
        }
        let owner = self.owner;
        let supply = self.total_supply;
        proof {
            lemma_map_of_push(self.balances@, owner, supply);
        }
        self.balances.push((owner, supply));
        self.initialized = true;
        proof {
            assert(self@ =~= step_initialize(old(self)@, caller).1);
            lemma_initialize_preserves_wf(old(self)@, caller);
        }
        Ok(())
    }

    /// The shared transfer primitive: moves `amount` from `from` to `to`,
    /// exactly as [`step_transfer`] says, touching nothing on failure and
    /// never touching the allowance table at all.
    fn move_balance(&mut self, from: u64, to: u64, amount: u64) -> (r: Result<(), Error>)
        requires
            old(self).inv(),
        ensures
            final(self).inv(),
            r == step_transfer(old(self)@, from, to, amount).0,
            final(self)@ == step_transfer(old(self)@, from, to, amount).1,
            final(self).allowances@ == old(self).allowances@,
            r is Err ==> final(self).balances@ == old(self).balances@ && final(self).events@ == old(
                self,
            ).events@,
    {
        let from_idx = match find_key(&self.balances, from) {
            None => {
                proof {
                    lemma_map_of_absent(self.balances@, from);
                }
                return Err(Error::AccountNotFound);
            },
            Some(i) => i,
        };
        proof {
            lemma_map_of_index(self.balances@, from_idx as int);
        }
        let from_bal = self.balances[from_idx].1;
        if from_bal < amount {
            return Err(Error::InsufficientBalance);
        }
        let debited_bal = from_bal - amount;
        let mut to_found: bool = false;
        let mut to_idx: usize = 0;
        let mut base: u64 = 0;
        if to == from {
            to_found = true;
            to_idx = from_idx;
            base = debited_bal;
        } else {
            match find_key(&self.balances, to) {
                Some(j) => {
                    proof {
                        lemma_map_of_index(self.balances@, j as int);
                    }
                    to_found = true;
                    to_idx = j;
                    base = self.balances[j].1;
                },
                None => {
                    proof {
                        lemma_map_of_absent(self.balances@, to);
                    }
                },
            }
        }
        proof {
            let debited = old(self)@.balances.insert(from, debited_bal);
            assert(base == get_or_zero(debited, to));
        }
        if base > u64::MAX - amount {
            return Err(Error::ArithmeticOverflow);
        }
        proof {
            lemma_map_of_update(self.balances@, from_idx as int, from, debited_bal);
        }
        self.balances.set(from_idx, (from, debited_bal));
        if to_found {
            proof {
                if to == from {
                    lemma_map_of_index(self.balances@, to_idx as int);
                }
                lemma_map_of_update(self.balances@, to_idx as int, to, (base + amount) as u64);
            }
            self.balances.set(to_idx, (to, base + amount));
        } else {
            proof {
                lemma_map_of_push(self.balances@, to, (base + amount) as u64);
            }
            self.balances.push((to, base + amount));
        }
        self.events.push(Event::Transfer { from, to, amount });
        proof {
            assert(self@ =~= step_transfer(old(self)@, from, to, amount).1);
            lemma_transfer_preserves_wf(old(self)@, from, to, amount);
        }
        Ok(())
    }

    /// Runs `transfer(caller, to, amount)`: moves the amount out of the
    /// caller's own balance through the shared transfer primitive.
    pub fn transfer(&mut self, caller: u64, to: u64, amount: u64) -> (r: Result<(), Error>)
        requires
            old(self).inv(),
        ensures
            final(self).inv(),
            r == step_transfer(old(self)@, caller, to, amount).0,
            final(self)@ == step_transfer(old(self)@, caller, to, amount).1,
    {
        self.move_balance(caller, to, amount)
    }

    /// Runs `approve(caller, spender, amount)`: adds the amount onto the
    /// pair's standing allowance — it accumulates, it does not overwrite —
    /// and emits an `Approval` event carrying the new total. The caller
    /// must have a balance record, and the addition must not overflow.
    pub fn approve(&mut self, caller: u64, spender: u64, amount: u64) -> (r: Result<(), Error>)
        requires
            old(self).inv(),
        ensures
            final(self).inv(),
            r == step_approve(old(self)@, caller, spender, amount).0,
            final(self)@ == step_approve(old(self)@, caller, spender, amount).1,
    {
        match find_key(&self.balances, caller) {
            None => {
                proof {
                    lemma_map_of_absent(self.balances@, caller);
                }
                return Err(Error::AccountNotFound);
            },
            Some(i) => {
                proof {
                    lemma_map_of_index(self.balances@, i as int);
                }
            },
        }
        let cur_idx = find_pair(&self.allowances, caller, spender);
        let cur: u64 = match cur_idx {
            Some(i) => {
                proof {
                    lemma_map_of_index(self.allowances@, i as int);
                }
                self.allowances[i].1
            },
            None => {
                proof {
                    lemma_map_of_absent(self.allowances@, (caller, spender));
                }
                0
            },
        };
        if cur > u64::MAX - amount {
            return Err(Error::ArithmeticOverflow);
        }
        let total = cur + amount;
        match cur_idx {
            Some(i) => {
                proof {
                    lemma_map_of_update(self.allowances@, i as int, (caller, spender), total);
                }
                self.allowances.set(i, ((caller, spender), total));
            },
            None => {
                proof {
                    lemma_map_of_push(self.allowances@, (caller, spender), total);
                }
                self.allowances.push(((caller, spender), total));
            },
        }
        self.events.push(Event::Approval { owner: caller, spender, amount: total });
        proof {
            assert(self@ =~= step_approve(old(self)@, caller, spender, amount).1);
        }
        Ok(())
    }

    /// Runs `transfer_from(caller, from, to, amount)`: consumes `amount` of
    /// the allowance standing under the transfer's own `(from, to)` pair —
    /// the caller's identity plays no part in the check — and then moves
    /// the amount through the shared transfer primitive. The allowance cut,
    /// its `Approval` event and the move commit together or not at all.
    pub fn transfer_from(&mut self, caller: u64, from: u64, to: u64, amount: u64) -> (r: Result<
        (),
        Error,
    >)
        requires
            old(self).inv(),
        ensures
            final(self).inv(),
            r == step_transfer_from(old(self)@, caller, from, to, amount).0,
            final(self)@ == step_transfer_from(old(self)@, caller, from, to, amount).1,
    {
        let idx = match find_pair(&self.allowances, from, to) {
            None => {
                proof {
                    lemma_map_of_absent(self.allowances@, (from, to));
                }
                return Err(Error::AllowanceNotFound);
            },
            Some(i) => i,
        };
        proof {
            lemma_map_of_index(self.allowances@, idx as int);
        }
        let granted = self.allowances[idx].1;
        if granted < amount {
            return Err(Error::InsufficientAllowance);
        }
        let remaining = granted - amount;
        proof {
            lemma_map_of_update(self.allowances@, idx as int, (from, to), remaining);
        }
        self.allowances.set(idx, ((from, to), remaining));
        self.events.push(Event::Approval { owner: from, spender: to, amount: remaining });
        proof {
            assert(self.rep_wf());
            assert(self@.wf()) by {
                assert(self@.balances == old(self)@.balances);
            }
            assert(self@ =~= (LedgerView {
                allowances: old(self)@.allowances.insert((from, to), remaining),
                events: old(self)@.events.push(
                    Event::Approval { owner: from, spender: to, amount: remaining },
                ),
                ..old(self)@
            }));
        }
        let moved = self.move_balance(from, to, amount);
        match moved {
            Ok(()) => Ok(()),
            Err(e) => {
                proof {
                    lemma_map_of_update(self.allowances@, idx as int, (from, to), granted);
                }
                self.allowances.set(idx, ((from, to), granted));
                let _ = self.events.pop();
                proof {
                    assert(self.allowances@ =~= old(self).allowances@);
                    assert(self.events@ =~= old(self).events@);
                    assert(self@ =~= old(self)@);
                }
                Err(e)
            },
        }
    }

    /// The allowance standing under `(account, spender)`, zero when the
    /// pair has no record.
    pub fn allowance_of(&self, account: u64, spender: u64) -> (r: u64)
        requires
            self.inv(),
        ensures
            r == get_or_zero(self@.allowances, (account, spender)),
    {
        match find_pair(&self.allowances, account, spender) {
            Some(i) => {
                proof {
                    lemma_map_of_index(self.allowances@, i as int);
                }
                self.allowances[i].1
            },
            None => {
                proof {
                    lemma_map_of_absent(self.allowances@, (account, spender));
                }
                0
            },
        }
    }
}

} // verus!
