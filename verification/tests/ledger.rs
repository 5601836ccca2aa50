use token_ledger::ledger::Ledger;
use token_ledger::state::Error;
use token_ledger::state::Event;

const A: u64 = 1;
const B: u64 = 2;
const C: u64 = 3;
const D: u64 = 4;

fn fresh(owner: u64, total_supply: u64) -> Ledger {
    Ledger::new(owner, total_supply, b"Token".to_vec(), b"TOK".to_vec())
}

#[test]
fn genesis_accessors() {
    let l = fresh(A, 1000);
    assert!(!l.is_initialized());
    assert_eq!(l.owner(), A);
    assert_eq!(l.total_supply(), 1000);
    assert_eq!(l.name().as_slice(), b"Token");
    assert_eq!(l.ticker().as_slice(), b"TOK");
    assert_eq!(l.balance_of(A), 0);
    assert_eq!(l.allowance_of(A, B), 0);
    assert!(l.events().is_empty());
}

#[test]
fn initialize_credits_owner() {
    let mut l = fresh(A, 1000);
    assert_eq!(l.initialize(A), Ok(()));
    assert!(l.is_initialized());
    assert_eq!(l.balance_of(A), 1000);
    assert!(l.events().is_empty());
}

#[test]
fn initialize_succeeds_exactly_once() {
    let mut l = fresh(A, 1000);
    assert_eq!(l.initialize(A), Ok(()));
    assert_eq!(l.initialize(A), Err(Error::AlreadyInitialized));
    assert!(l.is_initialized());
    assert_eq!(l.balance_of(A), 1000);
    assert!(l.events().is_empty());
}

#[test]
fn initialize_rejects_non_owner() {
    let mut l = fresh(A, 1000);
    assert_eq!(l.initialize(B), Err(Error::NotOwner));
    assert!(!l.is_initialized());
    assert_eq!(l.balance_of(A), 0);
    assert_eq!(l.balance_of(B), 0);
    assert_eq!(l.initialize(A), Ok(()));
    assert_eq!(l.balance_of(A), 1000);
}

#[test]
fn transfer_moves_value() {
    let mut l = fresh(A, 1000);
    l.initialize(A).unwrap();
    assert_eq!(l.transfer(A, B, 300), Ok(()));
    assert_eq!(l.balance_of(A), 700);
    assert_eq!(l.balance_of(B), 300);
    assert_eq!(l.events().len(), 1);
    assert_eq!(l.events()[0], Event::Transfer { from: A, to: B, amount: 300 });
}

#[test]
fn transfer_insufficient_balance_changes_nothing() {
    let mut l = fresh(A, 1000);
    l.initialize(A).unwrap();
    l.transfer(A, B, 300).unwrap();
    assert_eq!(l.transfer(B, C, 301), Err(Error::InsufficientBalance));
    assert_eq!(l.balance_of(B), 300);
    assert_eq!(l.balance_of(C), 0);
    assert_eq!(l.events().len(), 1);
}

#[test]
fn transfer_from_unfunded_account_fails() {
    let mut l = fresh(A, 1000);
    l.initialize(A).unwrap();
    assert_eq!(l.transfer(B, C, 1), Err(Error::AccountNotFound));
    assert_eq!(l.balance_of(C), 0);
}

#[test]
fn transfer_to_self_keeps_balance() {
    let mut l = fresh(A, 1000);
    l.initialize(A).unwrap();
    assert_eq!(l.transfer(A, A, 400), Ok(()));
    assert_eq!(l.balance_of(A), 1000);
    assert_eq!(l.events().len(), 1);
    assert_eq!(l.events()[0], Event::Transfer { from: A, to: A, amount: 400 });
}

#[test]
fn conservation_across_transfers() {
    let mut l = fresh(A, 1000);
    l.initialize(A).unwrap();
    l.transfer(A, B, 300).unwrap();
    assert_eq!(l.balance_of(A) + l.balance_of(B), 1000);
    l.transfer(B, C, 120).unwrap();
    assert_eq!(l.balance_of(A) + l.balance_of(B) + l.balance_of(C), 1000);
    l.transfer(C, A, 120).unwrap();
    l.transfer(A, D, 7).unwrap();
    assert_eq!(
        l.balance_of(A) + l.balance_of(B) + l.balance_of(C) + l.balance_of(D),
        1000
    );
}

#[test]
fn approve_requires_balance_record() {
    let mut l = fresh(A, 1000);
    l.initialize(A).unwrap();
    assert_eq!(l.approve(B, C, 10), Err(Error::AccountNotFound));
    assert_eq!(l.allowance_of(B, C), 0);
}

#[test]
fn approve_accepts_zero_balance_record() {
    let mut l = fresh(A, 1000);
    l.initialize(A).unwrap();
    l.transfer(A, B, 5).unwrap();
    l.transfer(B, A, 5).unwrap();
    assert_eq!(l.balance_of(B), 0);
    assert_eq!(l.approve(B, C, 7), Ok(()));
    assert_eq!(l.allowance_of(B, C), 7);
}

#[test]
fn approve_accumulates() {
    let mut l = fresh(A, 1000);
    l.initialize(A).unwrap();
    l.transfer(A, B, 100).unwrap();
    assert_eq!(l.approve(B, C, 40), Ok(()));
    assert_eq!(l.approve(B, C, 2), Ok(()));
    assert_eq!(l.allowance_of(B, C), 42);
    let n = l.events().len();
    assert_eq!(l.events()[n - 2], Event::Approval { owner: B, spender: C, amount: 40 });
    assert_eq!(l.events()[n - 1], Event::Approval { owner: B, spender: C, amount: 42 });
}

#[test]
fn approve_overflow_changes_nothing() {
    let mut l = fresh(A, 1000);
    l.initialize(A).unwrap();
    assert_eq!(l.approve(A, B, u64::MAX), Ok(()));
    assert_eq!(l.approve(A, B, 1), Err(Error::ArithmeticOverflow));
    assert_eq!(l.allowance_of(A, B), u64::MAX);
    assert_eq!(l.events().len(), 1);
}

#[test]
fn transfer_from_keyed_by_from_and_to() {
    let mut l = fresh(A, 1000);
    l.initialize(A).unwrap();
    l.transfer(A, B, 300).unwrap();
    l.approve(B, C, 100).unwrap();
    assert_eq!(l.allowance_of(B, C), 100);
    // The allowance consulted is the one under (B, D), the transfer's own
    // pair; only (B, C) exists, so the call fails whoever the caller is.
    assert_eq!(l.transfer_from(C, B, D, 60), Err(Error::AllowanceNotFound));
    assert_eq!(l.balance_of(B), 300);
    assert_eq!(l.balance_of(D), 0);
    assert_eq!(l.allowance_of(B, C), 100);
}

#[test]
fn transfer_from_moves_value_and_cuts_allowance() {
    let mut l = fresh(A, 1000);
    l.initialize(A).unwrap();
    l.transfer(A, B, 300).unwrap();
    l.approve(B, D, 100).unwrap();
    assert_eq!(l.transfer_from(C, B, D, 60), Ok(()));
    assert_eq!(l.balance_of(B), 240);
    assert_eq!(l.balance_of(D), 60);
    assert_eq!(l.allowance_of(B, D), 40);
    let n = l.events().len();
    assert_eq!(l.events()[n - 2], Event::Approval { owner: B, spender: D, amount: 40 });
    assert_eq!(l.events()[n - 1], Event::Transfer { from: B, to: D, amount: 60 });
}

#[test]
fn transfer_from_insufficient_allowance() {
    let mut l = fresh(A, 1000);
    l.initialize(A).unwrap();
    l.transfer(A, B, 300).unwrap();
    l.approve(B, D, 50).unwrap();
    assert_eq!(l.transfer_from(C, B, D, 60), Err(Error::InsufficientAllowance));
    assert_eq!(l.balance_of(B), 300);
    assert_eq!(l.balance_of(D), 0);
    assert_eq!(l.allowance_of(B, D), 50);
}

#[test]
fn transfer_from_rolls_back_on_balance_failure() {
    let mut l = fresh(A, 1000);
    l.initialize(A).unwrap();
    l.transfer(A, B, 10).unwrap();
    l.approve(B, D, 100).unwrap();
    let events_before = l.events().len();
    assert_eq!(l.transfer_from(C, B, D, 60), Err(Error::InsufficientBalance));
    assert_eq!(l.balance_of(B), 10);
    assert_eq!(l.balance_of(D), 0);
    assert_eq!(l.allowance_of(B, D), 100);
    assert_eq!(l.events().len(), events_before);
}

#[test]
fn scenario_genesis_to_keyed_allowance() {
    let mut l = fresh(A, 1000);
    l.initialize(A).unwrap();
    assert_eq!(l.balance_of(A), 1000);
    l.transfer(A, B, 300).unwrap();
    assert_eq!(l.balance_of(A), 700);
    assert_eq!(l.balance_of(B), 300);
    assert_eq!(l.events()[0], Event::Transfer { from: A, to: B, amount: 300 });
    l.approve(B, C, 100).unwrap();
    assert_eq!(l.allowance_of(B, C), 100);
    assert_eq!(l.transfer_from(C, B, D, 60), Err(Error::AllowanceNotFound));
}

#[test]
fn whole_supply_can_sit_on_one_account() {
    let mut l = fresh(A, u64::MAX);
    l.initialize(A).unwrap();
    assert_eq!(l.transfer(A, B, u64::MAX), Ok(()));
    assert_eq!(l.balance_of(A), 0);
    assert_eq!(l.balance_of(B), u64::MAX);
    assert_eq!(l.transfer(B, A, u64::MAX), Ok(()));
    assert_eq!(l.balance_of(A), u64::MAX);
    assert_eq!(l.balance_of(B), 0);
}
