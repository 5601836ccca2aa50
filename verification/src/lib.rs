//! A fungible-token ledger.
//!
//! The ledger tracks account balances and delegated spending allowances and
//! enforces the bookkeeping rules of a fixed-supply token: value is created
//! only at initialization, never goes negative, and is moved only by an
//! authorized operation. Every operation is a synchronous, all-or-nothing
//! state transition on an explicit [`ledger::Ledger`] value; the surrounding
//! host is expected to serialize calls and persist the state.
//!
//! The behaviour of each operation is given by a pure transition function on
//! the ledger's mathematical view ([`state`]), the executable code is proved
//! to follow those transitions exactly ([`ledger`]), and the global laws of
//! the system, conservation of the total supply above all, are proved once
//! over the transitions themselves ([`laws`]).

pub mod kvlist;
pub mod laws;
pub mod ledger;
pub mod state;
pub mod sums;
