use gwyneth_revm::bytecode::Bytecode;
use gwyneth_revm::primitives::{Address, B256, U256};
use gwyneth_revm::specification::SpecId;
use gwyneth_revm::state::{Account, AccountInfo, AccountStatus, ChainAddress, EvmStorage, EvmStorageSlot, OnChain};

fn keccak(bytes: &[u8]) -> [u8; 32] {
    alloy_primitives::keccak256(bytes).0
}

#[test]
fn empty_code_hashes_to_keccak_of_nothing() {
    let code = Bytecode::new();
    assert!(code.is_empty());
    assert_eq!(code.hash_slow(), B256::keccak_empty());
    assert_eq!(B256::keccak_empty().0, keccak(&[]));
}

#[test]
fn legacy_code_hash_is_keccak_of_bytes() {
    let code = Bytecode::new_legacy(vec![0x60, 0x01, 0x60, 0x01, 0x55]);
    assert_eq!(code.len(), 5);
    assert_eq!(code.hash_slow().0, keccak(&[0x60, 0x01, 0x60, 0x01, 0x55]));
    assert_ne!(code.hash_slow(), B256::keccak_empty());
}

#[test]
fn delegation_designation_bytes_and_hash() {
    let mut a = [0u8; 20];
    a[19] = 0x42;
    let code = Bytecode::new_eip7702(Address(a));
    assert!(code.is_eip7702());
    assert_eq!(code.len(), 23);
    let bytes = code.original_byte_vec();
    assert_eq!(&bytes[..3], &[0xef, 0x01, 0x00]);
    assert_eq!(&bytes[3..], &a);
    assert_eq!(code.hash_slow().0, keccak(&bytes));
    assert!(!Bytecode::new_raw(vec![1]).is_eip7702());
}

#[test]
fn account_info_from_bytecode() {
    let code = Bytecode::new_legacy(vec![0x00]);
    let info = AccountInfo::from_bytecode(code);
    assert_eq!(info.nonce, 1);
    assert!(info.balance.is_zero());
    assert_eq!(info.code_hash().0, keccak(&[0x00]));
    assert!(!info.is_empty());
    assert!(info.account_exists());
    assert!(!info.is_empty_code_hash());
}

#[test]
fn account_info_from_balance_and_defaults() {
    let info = AccountInfo::from_balance(U256::from_u64(5));
    assert_eq!(info.balance, U256::from_u64(5));
    assert!(info.is_empty_code_hash());
    assert!(info.has_no_code_and_nonce());
    assert!(!info.is_empty());
    let d = AccountInfo::default();
    assert!(d.is_empty());
    assert!(!d.account_exists());
}

#[test]
fn account_info_take_and_drop_code() {
    let mut info = AccountInfo::new(U256::zero(), 3, B256::zero(), Bytecode::new_legacy(vec![1, 2]));
    assert!(!info.has_no_code_and_nonce());
    let code = info.take_bytecode();
    assert_eq!(code.unwrap().original_byte_vec(), vec![1, 2]);
    assert!(info.code.is_none());
    assert!(info.take_bytecode().is_none());
    let info = AccountInfo::new(U256::zero(), 0, B256::zero(), Bytecode::new()).without_code();
    assert!(info.code.is_none());
    assert!(info.is_empty());
}

#[test]
fn account_info_equality_ignores_code() {
    let a = AccountInfo::new(U256::from_u64(1), 2, B256::zero(), Bytecode::new_legacy(vec![1]));
    let b = AccountInfo::new(U256::from_u64(1), 2, B256::zero(), Bytecode::new_legacy(vec![2]));
    assert!(a == b);
    let c = a.clone();
    assert_eq!(c.nonce, 2);
    assert_eq!(c.code.unwrap().original_byte_vec(), vec![1]);
}

#[test]
fn storage_slot_changes() {
    let mut slot = EvmStorageSlot::new(U256::from_u64(7));
    assert!(!slot.is_changed());
    assert_eq!(slot.original_value(), U256::from_u64(7));
    let changed = EvmStorageSlot::new_changed(U256::from_u64(7), U256::from_u64(8));
    assert!(changed.is_changed());
    assert_eq!(changed.present_value(), U256::from_u64(8));
    assert!(!slot.mark_warm());
    slot.mark_cold();
    assert!(slot.is_cold);
    assert!(slot.mark_warm());
    assert!(!slot.is_cold);
}

#[test]
fn storage_insert_get_and_changed_slots() {
    let mut storage = EvmStorage::new();
    assert_eq!(storage.len(), 0);
    storage.insert(U256::from_u64(1), EvmStorageSlot::new(U256::from_u64(10)));
    storage.insert(U256::from_u64(2), EvmStorageSlot::new_changed(U256::from_u64(0), U256::from_u64(3)));
    assert_eq!(storage.len(), 2);
    // Writing a key again replaces its slot.
    storage.insert(U256::from_u64(1), EvmStorageSlot::new_changed(U256::from_u64(10), U256::from_u64(11)));
    assert_eq!(storage.len(), 2);
    assert_eq!(storage.get(U256::from_u64(1)).unwrap().present_value(), U256::from_u64(11));
    assert!(storage.get(U256::from_u64(9)).is_none());
    let changed = storage.changed_slots();
    assert_eq!(changed.len(), 2);

    let mut account = Account::default();
    account.storage.insert(U256::from_u64(5), EvmStorageSlot::new(U256::from_u64(1)));
    account.storage.insert(U256::from_u64(6), EvmStorageSlot::new_changed(U256::from_u64(1), U256::from_u64(2)));
    let changed = account.changed_storage_slots();
    assert_eq!(changed.len(), 1);
    assert_eq!(changed[0].0, U256::from_u64(6));
}

#[test]
fn account_created_flag() {
    let mut account = Account::default();
    assert!(!account.is_created());
    account.mark_created();
    assert!(account.is_created());
    assert!(!account.is_touched());
    account.unmark_created();
    assert!(!account.is_created());
    account.mark_touch();
    account.unmark_touch();
    assert!(!account.is_touched());
}

#[test]
fn account_not_existing_and_state_clear() {
    let account = Account::new_not_existing();
    assert!(account.is_loaded_as_not_existing());
    assert!(account.state_clear_aware_is_empty(SpecId::FRONTIER));
    assert!(account.state_clear_aware_is_empty(SpecId::LONDON));

    let mut touched = Account::new_not_existing();
    touched.mark_touch();
    assert!(!touched.state_clear_aware_is_empty(SpecId::HOMESTEAD));
    assert!(touched.state_clear_aware_is_empty(SpecId::SPURIOUS_DRAGON));

    let mut rich = Account::from_info(AccountInfo::from_balance(U256::from_u64(1)));
    assert!(!rich.is_loaded_as_not_existing());
    assert!(!rich.state_clear_aware_is_empty(SpecId::CANCUN));
    assert!(!rich.state_clear_aware_is_empty(SpecId::FRONTIER));
    rich.info.balance = U256::zero();
    assert!(rich.state_clear_aware_is_empty(SpecId::CANCUN));
}

#[test]
fn account_status_flag_operations() {
    let mut s = AccountStatus::default();
    assert_eq!(s.bits(), 0);
    s.insert(AccountStatus::Touched());
    s.insert(AccountStatus::Cold());
    assert!(s.contains(AccountStatus::Touched()));
    assert!(s.contains(AccountStatus::Cold()));
    assert!(!s.contains(AccountStatus::Created()));
    assert_eq!(s.bits(), 0b10100);
    s.remove(AccountStatus::Touched());
    assert_eq!(s.bits(), 0b10000);
    assert!(s.contains(AccountStatus::Loaded()));
    assert_eq!(AccountStatus::SelfDestructed().bits(), 0b00010);
    assert_eq!(AccountStatus::LoadedAsNotExisting().bits(), 0b01000);
}

#[test]
fn chain_address_default_and_on_chain() {
    let d = ChainAddress::default();
    assert_eq!(d.0, 1);
    assert_eq!(d.1, Address::zero());
    let a = Address([9u8; 20]);
    assert!(a.on_chain(167) == ChainAddress(167, a));
    assert!(ChainAddress(1, a) != ChainAddress(2, a));
}

#[test]
fn u256_and_b256_basics() {
    assert!(U256::zero().is_zero());
    assert!(!U256::from_u64(1).is_zero());
    assert_eq!(U256::max_value().as_limbs(), [u64::MAX; 4]);
    assert!(B256::zero().is_zero());
    assert!(!B256::keccak_empty().is_zero());
    let b: B256 = [3u8; 32].into();
    assert_eq!(b.0, [3u8; 32]);
}
