use gwyneth_revm::bytecode::Bytecode;
use gwyneth_revm::db::State;
use gwyneth_revm::env::AccessListItem;
use gwyneth_revm::primitives::B256;
use gwyneth_revm::env::{BlockEnv, CfgEnv, Env, RecoveredAuthorization, TaikoFields, TransactTo, TxEnv};
use gwyneth_revm::gas::Gas;
use gwyneth_revm::journaled::{credit_account, journal_position, load_account, load_slot, JournaledState};
use gwyneth_revm::pre_execution::{
    apply_auth_list_to_loaded, apply_eip7702_auth_list, deduct_caller, deduct_caller_inner, deduct_loaded_caller,
    load_access_list, load_accounts, load_precompiles, PrecompileSpecId,
};
use gwyneth_revm::primitives::{Address, U256};
use gwyneth_revm::specification::SpecId;
use gwyneth_revm::state::{Account, AccountInfo, ChainAddress};
use gwyneth_revm::taiko_handler::{
    ontake_fee_split, reimburse_and_reward, reimburse_caller, reimburses, reward_beneficiary, reward_beneficiary_hekla, reward_beneficiary_ontake, reward_rule,
    taiko_handle_register, HandlerSteps, StepRule, TaikoReward,
};

fn addr(last: u8) -> Address {
    let mut a = [0u8; 20];
    a[19] = last;
    Address(a)
}

fn env(caller: ChainAddress, to: TransactTo) -> Env {
    Env {
        cfg: CfgEnv { xchain: false, allow_mocking: false, parent_chain_id: None },
        block: BlockEnv { coinbase: ChainAddress(1, addr(0xcb)), basefee: U256::from_u64(10) },
        tx: TxEnv {
            caller,
            gas_limit: 1_000,
            gas_price: U256::from_u64(2),
            transact_to: to,
            value: U256::zero(),
            data: vec![],
            chain_ids: None,
            authorization_list: None,
            access_list: vec![],
            taiko: TaikoFields { is_anchor: false, treasury: ChainAddress(1, addr(0x77)), basefee_ratio: 75 },
        },
    }
}


/// A database of accounts and storage slots, which may be made to fail.
struct MemDb {
    accounts: Vec<(ChainAddress, u64)>,
    slots: Vec<((ChainAddress, U256), U256)>,
    fail: bool,
}

impl MemDb {
    fn new(accounts: Vec<(ChainAddress, u64)>) -> MemDb {
        MemDb { accounts, slots: vec![], fail: false }
    }
}

impl State for MemDb {
    type Error = String;

    fn basic(&mut self, address: ChainAddress) -> Result<Option<AccountInfo>, String> {
        if self.fail {
            return Err("down".to_string());
        }
        Ok(self.accounts.iter().find(|(a, _)| *a == address).map(|(_, b)| AccountInfo::from_balance(U256::from_u64(*b))))
    }

    fn code_by_hash(&mut self, _chain_id: u64, _code_hash: B256) -> Result<Bytecode, String> {
        Ok(Bytecode::new())
    }

    fn storage(&mut self, address: ChainAddress, index: U256) -> Result<U256, String> {
        if self.fail {
            return Err("down".to_string());
        }
        Ok(self.slots.iter().find(|(k, _)| k.0 == address && k.1 == index).map(|(_, v)| *v).unwrap_or(U256::zero()))
    }
}

fn funded(balance: u64) -> Account {
    Account::from_info(AccountInfo::from_balance(U256::from_u64(balance)))
}

fn find<'a>(accounts: &'a [(ChainAddress, Account)], k: ChainAddress) -> &'a Account {
    &accounts.iter().find(|(a, _)| *a == k).unwrap().1
}

#[test]
fn deduct_caller_inner_charges_gas_and_bumps_nonce_of_call() {
    let caller = ChainAddress(1, addr(1));
    let e = env(caller, TransactTo::Call(ChainAddress(1, addr(2))));
    let mut acct = funded(5_000);
    deduct_caller_inner(&mut acct, &e, U256::from_u64(2), None, false);
    assert_eq!(acct.info.balance, U256::from_u64(3_000));
    assert_eq!(acct.info.nonce, 1);
    assert!(acct.is_touched());
}

#[test]
fn deduct_caller_inner_adds_blob_fee_from_cancun_and_saturates() {
    let caller = ChainAddress(1, addr(1));
    let e = env(caller, TransactTo::Create);
    let mut acct = funded(5_000);
    deduct_caller_inner(&mut acct, &e, U256::from_u64(2), Some(U256::from_u64(500)), true);
    assert_eq!(acct.info.balance, U256::from_u64(2_500));
    // A creation does not bump the nonce here.
    assert_eq!(acct.info.nonce, 0);
    let mut poor = funded(10);
    deduct_caller_inner(&mut poor, &e, U256::from_u64(2), Some(U256::zero()), true);
    assert!(poor.info.balance.is_zero());
}

#[test]
fn deduct_caller_finds_the_caller_or_fails() {
    let caller = ChainAddress(1, addr(1));
    let e = env(caller, TransactTo::Call(ChainAddress(1, addr(2))));
    let mut accounts = vec![(ChainAddress(1, addr(9)), funded(1)), (caller, funded(4_000))];
    assert!(deduct_loaded_caller(&mut accounts, &e, U256::from_u64(2), None, false).is_ok());
    assert_eq!(find(&accounts, caller).info.balance, U256::from_u64(2_000));
    assert_eq!(find(&accounts, ChainAddress(1, addr(9))).info.balance, U256::from_u64(1));

    let mut others = vec![(ChainAddress(1, addr(9)), funded(1))];
    let err = deduct_loaded_caller(&mut others, &e, U256::from_u64(2), None, false).unwrap_err();
    assert!(err.0 == caller);
    assert_eq!(others.len(), 1);
}

#[test]
fn deduct_caller_loads_the_caller_from_the_database() {
    let caller = ChainAddress(1, addr(1));
    let e = env(caller, TransactTo::Call(ChainAddress(1, addr(2))));
    let mut db = MemDb::new(vec![(caller, 5_000)]);
    let mut accounts: Vec<(ChainAddress, Account)> = vec![];
    deduct_caller(&mut accounts, &mut db, &e, U256::from_u64(2), None, false).unwrap();
    assert_eq!(accounts.len(), 1);
    assert_eq!(find(&accounts, caller).info.balance, U256::from_u64(3_000));
    assert_eq!(find(&accounts, caller).info.nonce, 1);
    // Already loaded: the journal's account is charged, not the database's.
    deduct_caller(&mut accounts, &mut db, &e, U256::from_u64(2), None, false).unwrap();
    assert_eq!(find(&accounts, caller).info.balance, U256::from_u64(1_000));

    // A caller the database does not know is loaded as not existing and charged nothing.
    let stranger = ChainAddress(1, addr(3));
    let e2 = env(stranger, TransactTo::Create);
    deduct_caller(&mut accounts, &mut db, &e2, U256::from_u64(2), None, false).unwrap();
    assert!(find(&accounts, stranger).is_loaded_as_not_existing());
    assert!(find(&accounts, stranger).info.balance.is_zero());

    let mut failing = MemDb::new(vec![]);
    failing.fail = true;
    let mut empty: Vec<(ChainAddress, Account)> = vec![];
    assert!(deduct_caller(&mut empty, &mut failing, &e, U256::from_u64(2), None, false).is_err());
    assert!(empty.is_empty());
}

fn authorization(chain: u64, delegate: Address, nonce: u64, authority: Option<Address>) -> RecoveredAuthorization {
    RecoveredAuthorization { chain_id: U256::from_u64(chain), address: delegate, nonce, authority }
}

#[test]
fn eip7702_delegates_authority_and_bumps_nonce() {
    let chain_id = 1;
    let delegate = addr(0);
    let caller = addr(1);
    let auth = Address({
        let mut a = [0u8; 20];
        a[18] = 1;
        a
    });
    let mut e = env(ChainAddress(chain_id, caller), TransactTo::Call(ChainAddress(chain_id, auth)));
    e.tx.chain_ids = Some(vec![chain_id]);
    e.tx.authorization_list = Some(vec![authorization(1, delegate, 0, Some(auth))]);
    let mut accounts = vec![(ChainAddress(chain_id, auth), Account::default())];
    let refund = apply_eip7702_auth_list(true, &e, &mut accounts, &mut MemDb::new(vec![])).unwrap();
    // The authority was empty: no refund.
    assert_eq!(refund, 0);
    let acct = find(&accounts, ChainAddress(chain_id, auth));
    let code = acct.info.code.as_ref().unwrap();
    assert!(code.is_eip7702());
    assert_eq!(code.original_byte_vec(), Bytecode::new_eip7702(delegate).original_byte_vec());
    assert_eq!(acct.info.code_hash, Bytecode::new_eip7702(delegate).hash_slow());
    assert_eq!(acct.info.nonce, 1);
    assert!(acct.is_touched());
}

#[test]
fn eip7702_refunds_existing_authorities_and_skips_the_rest() {
    let a1 = ChainAddress(1, addr(11));
    let a2 = ChainAddress(1, addr(12));
    let mut e = env(ChainAddress(1, addr(1)), TransactTo::Create);
    e.tx.chain_ids = Some(vec![1]);
    e.tx.authorization_list = Some(vec![
        // Existing account with the right nonce: refunded.
        authorization(1, addr(0xd0), 0, Some(addr(11))),
        // Unknown signer: skipped.
        authorization(1, addr(0xd0), 0, None),
        // Chain not among the transaction's: skipped.
        authorization(5, addr(0xd0), 0, Some(addr(12))),
        // Wrong nonce: skipped.
        authorization(1, addr(0xd0), 7, Some(addr(12))),
    ]);
    let mut accounts = vec![(a1, funded(100)), (a2, Account::default())];
    let refund = apply_eip7702_auth_list(true, &e, &mut accounts, &mut MemDb::new(vec![])).unwrap();
    assert_eq!(refund, 22_500);
    assert_eq!(find(&accounts, a1).info.nonce, 1);
    assert_eq!(find(&accounts, a2).info.nonce, 0);
    assert!(find(&accounts, a2).info.code.as_ref().unwrap().is_empty());
}

#[test]
fn eip7702_before_prague_or_without_list_does_nothing() {
    let a1 = ChainAddress(1, addr(11));
    let mut e = env(ChainAddress(1, addr(1)), TransactTo::Create);
    e.tx.authorization_list = Some(vec![authorization(0, addr(0xd0), 0, Some(addr(11)))]);
    let mut accounts = vec![(a1, funded(100))];
    assert_eq!(apply_eip7702_auth_list(false, &e, &mut accounts, &mut MemDb::new(vec![])).unwrap(), 0);
    assert_eq!(find(&accounts, a1).info.nonce, 0);
    e.tx.authorization_list = None;
    assert_eq!(apply_eip7702_auth_list(true, &e, &mut accounts, &mut MemDb::new(vec![])).unwrap(), 0);
}

#[test]
fn eip7702_authority_not_in_journal_is_loaded() {
    let mut e = env(ChainAddress(1, addr(1)), TransactTo::Create);
    e.tx.authorization_list = Some(vec![authorization(0, addr(0xd0), 0, Some(addr(11)))]);
    // Without the loading step the journal lacks the account.
    let mut accounts: Vec<(ChainAddress, Account)> = vec![];
    let err = apply_auth_list_to_loaded(true, &e, &mut accounts).unwrap_err();
    assert!(err.0 == ChainAddress(0, addr(11)));
    // The database has it with a balance: it is loaded, delegated and refunded.
    let mut db = MemDb::new(vec![(ChainAddress(0, addr(11)), 50)]);
    let refund = apply_eip7702_auth_list(true, &e, &mut accounts, &mut db).unwrap();
    assert_eq!(refund, 22_500);
    let acct = find(&accounts, ChainAddress(0, addr(11)));
    assert_eq!(acct.info.nonce, 1);
    assert!(acct.info.code.as_ref().unwrap().is_eip7702());
    // A failing database is the answer.
    let mut failing = MemDb::new(vec![]);
    failing.fail = true;
    let mut fresh: Vec<(ChainAddress, Account)> = vec![];
    assert!(apply_eip7702_auth_list(true, &e, &mut fresh, &mut failing).is_err());
}

#[test]
fn credit_account_adds_and_touches() {
    let k = ChainAddress(3, addr(3));
    let mut accounts = vec![(k, funded(5))];
    credit_account(&mut accounts, k, U256::from_u64(7)).unwrap();
    assert_eq!(find(&accounts, k).info.balance, U256::from_u64(12));
    assert!(find(&accounts, k).is_touched());
    credit_account(&mut accounts, k, U256::max_value()).unwrap();
    assert_eq!(find(&accounts, k).info.balance, U256::max_value());
    assert!(credit_account(&mut accounts, ChainAddress(4, addr(3)), U256::zero()).is_err());
    assert_eq!(journal_position(&accounts, k), Some(0));
    assert_eq!(journal_position(&accounts, ChainAddress(4, addr(3))), None);
}

fn spent_gas(limit: u64, cost: u64) -> Gas {
    let mut g = Gas::new(limit);
    assert!(g.record_cost(1, cost));
    g
}

#[test]
fn hekla_pays_whole_base_fee_to_treasury() {
    let e = env(ChainAddress(1, addr(1)), TransactTo::Create);
    let treasury = e.tx.taiko.treasury;
    let mut accounts = vec![(treasury, funded(0))];
    let mut gas = spent_gas(1_000, 400);
    gas.record_refund(100);
    reward_beneficiary_hekla(&mut accounts, &mut MemDb::new(vec![]), &e, &gas).unwrap();
    // basefee 10 times (400 spent - 100 refunded)
    assert_eq!(find(&accounts, treasury).info.balance, U256::from_u64(3_000));
    // A treasury the journal lacks is loaded from the database.
    let mut none: Vec<(ChainAddress, Account)> = vec![];
    reward_beneficiary_hekla(&mut none, &mut MemDb::new(vec![(treasury, 5)]), &e, &gas).unwrap();
    assert_eq!(find(&none, treasury).info.balance, U256::from_u64(3_005));
    let mut failing = MemDb::new(vec![]);
    failing.fail = true;
    let mut empty: Vec<(ChainAddress, Account)> = vec![];
    assert!(reward_beneficiary_hekla(&mut empty, &mut failing, &e, &gas).is_err());
    assert!(empty.is_empty());
}

#[test]
fn ontake_shares_base_fee() {
    let e = env(ChainAddress(1, addr(1)), TransactTo::Create);
    let treasury = e.tx.taiko.treasury;
    let coinbase = e.block.coinbase;
    let mut accounts = vec![(treasury, funded(0)), (coinbase, funded(1))];
    let gas = spent_gas(1_000, 400);
    reward_beneficiary_ontake(&mut accounts, &mut MemDb::new(vec![]), &e, &gas).unwrap();
    // total 4000; coinbase 75% = 3000, treasury 1000.
    assert_eq!(find(&accounts, treasury).info.balance, U256::from_u64(1_000));
    assert_eq!(find(&accounts, coinbase).info.balance, U256::from_u64(3_001));

    let mut only_treasury = vec![(treasury, funded(0))];
    reward_beneficiary_ontake(&mut only_treasury, &mut MemDb::new(vec![]), &e, &gas).unwrap();
    assert_eq!(find(&only_treasury, treasury).info.balance, U256::from_u64(1_000));
    // The coinbase was loaded as a new account and paid.
    assert_eq!(find(&only_treasury, coinbase).info.balance, U256::from_u64(3_000));
}

#[test]
fn ontake_split_values() {
    let (t, c) = ontake_fee_split(U256::from_u64(1_000), 75);
    assert_eq!(c, U256::from_u64(750));
    assert_eq!(t, U256::from_u64(250));
    let (t, c) = ontake_fee_split(U256::from_u64(999), 50);
    assert_eq!(c, U256::from_u64(499));
    assert_eq!(t, U256::from_u64(500));
    let (t, c) = ontake_fee_split(U256::from_u64(7), 0);
    assert_eq!(c, U256::zero());
    assert_eq!(t, U256::from_u64(7));
}

#[test]
fn taiko_anchor_is_neither_rewarded_nor_reimbursed() {
    let mut e = env(ChainAddress(1, addr(1)), TransactTo::Create);
    assert!(reimburses(&e));
    assert_eq!(reimburse_caller::<String>(&e, Ok(())), Ok(()));
    assert_eq!(reimburse_caller(&e, Err("mainnet failed".to_string())), Err("mainnet failed".to_string()));
    assert_eq!(reward_rule(&e, true), TaikoReward::Ontake);
    assert_eq!(reward_rule(&e, false), TaikoReward::Hekla);
    let treasury = e.tx.taiko.treasury;
    let gas = spent_gas(1_000, 400);
    let mut accounts = vec![(treasury, funded(0))];
    reward_beneficiary(&mut accounts, &mut MemDb::new(vec![]), &e, &gas, false, Ok(())).unwrap();
    assert_eq!(find(&accounts, treasury).info.balance, U256::from_u64(4_000));
    // An error of the mainnet reward is the answer, and nothing is credited.
    let failed = reward_beneficiary(&mut accounts, &mut MemDb::new(vec![]), &e, &gas, false, Err("no reward".to_string()));
    assert_eq!(failed, Err("no reward".to_string()));
    assert_eq!(find(&accounts, treasury).info.balance, U256::from_u64(4_000));
    e.tx.taiko.is_anchor = true;
    assert!(!reimburses(&e));
    assert_eq!(reimburse_caller(&e, Err("mainnet failed".to_string())), Ok(()));
    assert_eq!(reward_rule(&e, true), TaikoReward::Skip);
    reward_beneficiary(&mut accounts, &mut MemDb::new(vec![]), &e, &gas, true, Err("ignored".to_string())).unwrap();
    assert_eq!(accounts.len(), 1);
    assert_eq!(find(&accounts, treasury).info.balance, U256::from_u64(4_000));
}

#[test]
fn reimbursement_error_stops_the_reward() {
    let mut e = env(ChainAddress(1, addr(1)), TransactTo::Create);
    let treasury = e.tx.taiko.treasury;
    let gas = spent_gas(1_000, 400);
    let mut accounts = vec![(treasury, funded(0))];
    let r = reimburse_and_reward(&mut accounts, &mut MemDb::new(vec![]), &e, &gas, false, Err("reimburse".to_string()), Ok(()));
    assert_eq!(r, Err("reimburse".to_string()));
    assert_eq!(find(&accounts, treasury).info.balance, U256::zero());
    let r = reimburse_and_reward(&mut accounts, &mut MemDb::new(vec![]), &e, &gas, false, Ok(()), Err("reward".to_string()));
    assert_eq!(r, Err("reward".to_string()));
    assert_eq!(find(&accounts, treasury).info.balance, U256::zero());
    reimburse_and_reward(&mut accounts, &mut MemDb::new(vec![]), &e, &gas, false, Ok(()), Ok(())).unwrap();
    assert_eq!(find(&accounts, treasury).info.balance, U256::from_u64(4_000));
    e.tx.taiko.is_anchor = true;
    reimburse_and_reward(&mut accounts, &mut MemDb::new(vec![]), &e, &gas, false, Err("a".to_string()), Err("b".to_string()))
        .unwrap();
    assert_eq!(find(&accounts, treasury).info.balance, U256::from_u64(4_000));
}

#[test]
fn taiko_register_replaces_steps() {
    let mut h = HandlerSteps {
        deduct_caller: StepRule::Mainnet,
        reimburse_caller: StepRule::Mainnet,
        reward_beneficiary: StepRule::Mainnet,
    };
    taiko_handle_register(&mut h);
    assert_eq!(h.deduct_caller, StepRule::Taiko);
    assert_eq!(h.reimburse_caller, StepRule::Taiko);
    assert_eq!(h.reward_beneficiary, StepRule::Taiko);
}

#[test]
fn precompiles_by_hardfork() {
    assert_eq!(load_precompiles(SpecId::FRONTIER), PrecompileSpecId::HOMESTEAD);
    assert_eq!(load_precompiles(SpecId::PETERSBURG), PrecompileSpecId::BYZANTIUM);
    assert_eq!(load_precompiles(SpecId::MUIR_GLACIER), PrecompileSpecId::ISTANBUL);
    assert_eq!(load_precompiles(SpecId::SHANGHAI), PrecompileSpecId::BERLIN);
    assert_eq!(load_precompiles(SpecId::CANCUN), PrecompileSpecId::CANCUN);
    assert_eq!(load_precompiles(SpecId::PRAGUE_EOF), PrecompileSpecId::PRAGUE);
    assert_eq!(load_precompiles(SpecId::LATEST), PrecompileSpecId::LATEST);
}

fn journal() -> JournaledState {
    JournaledState { state: vec![], state_changes: vec![], warm_preloaded_addresses: vec![], spec_id: SpecId::FRONTIER }
}

#[test]
fn load_accounts_warms_coinbase_and_block_hash_contract() {
    let e = env(ChainAddress(1, addr(1)), TransactTo::Create);
    let bh = addr(0xbb);
    let mut j = journal();
    load_accounts(&mut j, &mut MemDb::new(vec![]), &e, SpecId::LONDON, 7, bh).unwrap();
    assert!(j.warm_preloaded_addresses.is_empty());
    assert_eq!(j.spec_id, SpecId::LONDON);

    let mut j = journal();
    load_accounts(&mut j, &mut MemDb::new(vec![]), &e, SpecId::SHANGHAI, 7, bh).unwrap();
    assert_eq!(j.warm_preloaded_addresses.len(), 1);
    assert!(j.warm_preloaded_addresses[0] == e.block.coinbase);

    let mut j = journal();
    load_accounts(&mut j, &mut MemDb::new(vec![]), &e, SpecId::PRAGUE, 7, bh).unwrap();
    assert_eq!(j.warm_preloaded_addresses.len(), 2);
    assert!(j.warm_preloaded_addresses.contains(&ChainAddress(7, bh)));
    // Loading again adds nothing twice.
    load_accounts(&mut j, &mut MemDb::new(vec![]), &e, SpecId::PRAGUE, 7, bh).unwrap();
    assert_eq!(j.warm_preloaded_addresses.len(), 2);
    assert!(j.state_changes.is_empty());
}

#[test]
fn load_accounts_loads_the_access_list() {
    let mut e = env(ChainAddress(1, addr(1)), TransactTo::Create);
    e.tx.access_list = vec![
        AccessListItem { address: addr(0x31), storage_keys: vec![U256::from_u64(1), U256::from_u64(2)] },
        AccessListItem { address: addr(0x32), storage_keys: vec![] },
    ];
    let a = ChainAddress(7, addr(0x31));
    let mut db = MemDb::new(vec![(a, 9)]);
    db.slots.push(((a, U256::from_u64(2)), U256::from_u64(42)));
    let mut j = journal();
    load_accounts(&mut j, &mut db, &e, SpecId::CANCUN, 7, addr(0xbb)).unwrap();
    assert_eq!(j.state.len(), 2);
    let acct = find(&j.state, a);
    assert_eq!(acct.info.balance, U256::from_u64(9));
    assert_eq!(acct.storage.len(), 2);
    let slot = acct.storage.get(U256::from_u64(2)).unwrap();
    assert_eq!(slot.original_value(), U256::from_u64(42));
    assert!(!slot.is_changed());
    assert!(find(&j.state, ChainAddress(7, addr(0x32))).is_loaded_as_not_existing());

    let mut failing = MemDb::new(vec![]);
    failing.fail = true;
    let mut j2 = journal();
    assert!(load_accounts(&mut j2, &mut failing, &e, SpecId::CANCUN, 7, addr(0xbb)).is_err());
}

#[test]
fn load_slot_keeps_a_loaded_slot() {
    let a = ChainAddress(2, addr(5));
    let mut db = MemDb::new(vec![(a, 1)]);
    db.slots.push(((a, U256::from_u64(3)), U256::from_u64(30)));
    let mut accounts: Vec<(ChainAddress, Account)> = vec![];
    load_account(&mut accounts, &mut db, a).unwrap();
    load_slot(&mut accounts, &mut db, a, U256::from_u64(3)).unwrap();
    assert_eq!(find(&accounts, a).storage.get(U256::from_u64(3)).unwrap().present_value(), U256::from_u64(30));
    db.slots[0].1 = U256::from_u64(31);
    load_slot(&mut accounts, &mut db, a, U256::from_u64(3)).unwrap();
    assert_eq!(find(&accounts, a).storage.get(U256::from_u64(3)).unwrap().present_value(), U256::from_u64(30));
    let list = vec![AccessListItem { address: addr(5), storage_keys: vec![U256::from_u64(3)] }];
    load_access_list(&mut accounts, &mut db, &list, 2).unwrap();
    assert_eq!(accounts.len(), 1);
}
