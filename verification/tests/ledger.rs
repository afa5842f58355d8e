use access_control::{AccountId, Error, Ledger};

fn account(name: &str) -> AccountId {
    AccountId::new(name.to_string())
}

#[test]
fn missing_account_holds_zero() {
    let ledger = Ledger::new();
    assert_eq!(ledger.get(&account("alice.near")), 0);
}

#[test]
fn credit_returns_new_balance() {
    let mut ledger = Ledger::new();
    assert_eq!(ledger.credit(&account("alice.near"), 40), Ok(40));
    assert_eq!(ledger.credit(&account("alice.near"), 2), Ok(42));
    assert_eq!(ledger.get(&account("alice.near")), 42);
    assert_eq!(ledger.get(&account("bob.near")), 0);
}

#[test]
fn credit_overflow_is_an_error_and_changes_nothing() {
    let mut ledger = Ledger::new();
    assert_eq!(ledger.credit(&account("alice.near"), u128::MAX), Ok(u128::MAX));
    assert_eq!(ledger.credit(&account("alice.near"), 1), Err(Error::Overflow));
    assert_eq!(ledger.get(&account("alice.near")), u128::MAX);
}

#[test]
fn debit_more_than_held_is_refused() {
    let mut ledger = Ledger::new();
    assert_eq!(ledger.credit(&account("alice.near"), 10), Ok(10));
    assert_eq!(ledger.debit(&account("alice.near"), 11), Err(Error::InsufficientBalance));
    assert_eq!(ledger.get(&account("alice.near")), 10);
    assert_eq!(ledger.debit(&account("alice.near"), 10), Ok(0));
    assert_eq!(ledger.get(&account("alice.near")), 0);
    assert_eq!(ledger.debit(&account("bob.near"), 1), Err(Error::InsufficientBalance));
    assert_eq!(ledger.debit(&account("bob.near"), 0), Ok(0));
}
