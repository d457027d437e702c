use gwyneth_revm::primitives::{B256, U256};
use gwyneth_revm::state::{Account, AccountStatus};

#[test]
fn account_is_empty_balance() {
    let mut account = Account::default();
    assert!(account.is_empty());

    account.info.balance = U256::from_u64(1);
    assert!(!account.is_empty());

    account.info.balance = U256::zero();
    assert!(account.is_empty());
}

#[test]
fn account_is_empty_nonce() {
    let mut account = Account::default();
    assert!(account.is_empty());

    account.info.nonce = 1;
    assert!(!account.is_empty());

    account.info.nonce = 0;
    assert!(account.is_empty());
}

#[test]
fn account_is_empty_code_hash() {
    let mut account = Account::default();
    assert!(account.is_empty());

    account.info.code_hash = [1; 32].into();
    assert!(!account.is_empty());

    account.info.code_hash = [0; 32].into();
    assert!(account.is_empty());

    account.info.code_hash = B256::keccak_empty();
    assert!(account.is_empty());
}

#[test]
fn account_state() {
    let mut account = Account::default();

    assert!(!account.is_touched());
    assert!(!account.is_selfdestructed());

    account.mark_touch();
    assert!(account.is_touched());
    assert!(!account.is_selfdestructed());

    account.mark_selfdestruct();
    assert!(account.is_touched());
    assert!(account.is_selfdestructed());

    account.unmark_selfdestruct();
    assert!(account.is_touched());
    assert!(!account.is_selfdestructed());
}

#[test]
fn account_is_cold() {
    let mut account = Account::default();

    // Account is not cold by default
    assert!(!account.status.contains(AccountStatus::Cold()));

    // When marking warm account as warm again, it should return false
    assert!(!account.mark_warm());

    // Mark account as cold
    account.mark_cold();

    // Account is cold
    assert!(account.status.contains(AccountStatus::Cold()));

    // When marking cold account as warm, it should return true
    assert!(account.mark_warm());
}
