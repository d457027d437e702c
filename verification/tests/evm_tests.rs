use gwyneth_revm::bytecode::Bytecode;
use gwyneth_revm::create_inputs::{u256_to_be_bytes, CreateInputs, CreateScheme};
use gwyneth_revm::db::{BlockHash, DatabaseCommit, DatabaseComponentError, DatabaseComponents, State};
use gwyneth_revm::env::{AccessListItem, BlockEnv, CfgEnv, Env, TaikoFields, TransactTo, TxEnv};
use gwyneth_revm::env::RecoveredAuthorization;
use gwyneth_revm::evm::{
    PrepareError,
    loop_step, next_stage, LoopAction, LoopEvent, LoopState, TxStage,
    account_abstraction_code, execution_gas_limit, first_frame, loop_start, precompile_chain_ids,
    record_call_outcome, remember_pending_call, settle_returned_call, xcall_data, Context, Evm, FirstFrame,
    HandlerCfg, LoopStart, CALL_STACK_LIMIT,
};
use gwyneth_revm::gas::Gas;
use gwyneth_revm::journal::{JournalEntry, XCallData};
use gwyneth_revm::journaled::JournaledState;
use gwyneth_revm::primitives::{Address, B256, U256};
use gwyneth_revm::specification::SpecId;
use gwyneth_revm::state::{Account, AccountInfo, ChainAddress};
use gwyneth_revm::xcall::{CallInputs, CallScheme, CallValue};
use std::collections::HashMap;

fn addr(last: u8) -> Address {
    let mut a = [0u8; 20];
    a[19] = last;
    Address(a)
}

fn hex_addr(s: &str) -> Address {
    let mut a = [0u8; 20];
    for i in 0..20 {
        a[i] = u8::from_str_radix(&s[2 * i..2 * i + 2], 16).unwrap();
    }
    Address(a)
}

fn tx(caller: ChainAddress, to: TransactTo) -> TxEnv {
    TxEnv {
        caller,
        gas_limit: 50_000,
        gas_price: U256::from_u64(1),
        transact_to: to,
        value: U256::from_u64(3),
        data: vec![0xef, 0x00, 0x01],
        chain_ids: None,
        authorization_list: None,
        access_list: vec![],
        taiko: TaikoFields { is_anchor: false, treasury: ChainAddress(1, addr(0x77)), basefee_ratio: 0 },
    }
}

fn env(t: TxEnv) -> Env {
    Env {
        cfg: CfgEnv { xchain: false, allow_mocking: false, parent_chain_id: None },
        block: BlockEnv { coinbase: ChainAddress(1, addr(0xcb)), basefee: U256::zero() },
        tx: t,
    }
}

fn journal() -> JournaledState {
    JournaledState { state: vec![], state_changes: vec![], warm_preloaded_addresses: vec![], spec_id: SpecId::FRONTIER }
}

const AA_SENDER: &str = "e25583099ba105d9ec0a67f5ae86d90e50036425";
const SHORTCUT: &str = "9fcf7d13d10dedf17d0f24c62f0cf4ed462f65b7";

#[test]
fn loop_skips_calls_to_shortcut_target_without_xchain() {
    let cfg = CfgEnv { xchain: false, allow_mocking: false, parent_chain_id: None };
    let t = tx(ChainAddress(1, addr(1)), TransactTo::Call(ChainAddress(1, hex_addr(SHORTCUT))));
    assert!(matches!(loop_start(&cfg, &t), LoopStart::Skip));
    // With cross-chain execution on, the loop runs.
    let on = CfgEnv { xchain: true, allow_mocking: false, parent_chain_id: None };
    assert!(matches!(loop_start(&on, &t), LoopStart::Run { .. }));
    // The account abstraction sender is not skipped.
    let t = tx(ChainAddress(1, hex_addr(AA_SENDER)), TransactTo::Call(ChainAddress(1, hex_addr(SHORTCUT))));
    assert!(matches!(loop_start(&cfg, &t), LoopStart::Run { .. }));
    // Other targets are not skipped.
    let t = tx(ChainAddress(1, addr(1)), TransactTo::Call(ChainAddress(1, addr(5))));
    assert!(matches!(loop_start(&cfg, &t), LoopStart::Run { .. }));
}

#[test]
fn loop_installs_code_for_account_abstraction_sender() {
    let cfg = CfgEnv { xchain: false, allow_mocking: false, parent_chain_id: None };
    let mut t = tx(ChainAddress(9, hex_addr(AA_SENDER)), TransactTo::Create);
    t.access_list = vec![
        AccessListItem { address: addr(1), storage_keys: vec![] },
        AccessListItem { address: addr(2), storage_keys: vec![U256::from_u64(1)] },
    ];
    match loop_start(&cfg, &t) {
        LoopStart::Run { install_code_at } => {
            assert_eq!(install_code_at.len(), 2);
            assert!(install_code_at[0] == ChainAddress(9, addr(1)));
            assert!(install_code_at[1] == ChainAddress(9, addr(2)));
        }
        LoopStart::Skip => panic!("the loop should run"),
    }
    // Another sender installs nothing.
    t.caller = ChainAddress(9, addr(3));
    match loop_start(&cfg, &t) {
        LoopStart::Run { install_code_at } => assert!(install_code_at.is_empty()),
        LoopStart::Skip => panic!("the loop should run"),
    }
}

#[test]
fn account_abstraction_code_is_legacy() {
    let code = account_abstraction_code();
    assert!(!code.is_eip7702());
    assert_eq!(code.len(), 788);
    let bytes = code.original_byte_vec();
    assert_eq!(&bytes[..4], &[0x60, 0x40, 0x60, 0x80]);
    assert_eq!(&bytes[784..], &[0x08, 0x18, 0x00, 0x33]);
}

#[test]
fn first_frame_kinds() {
    let call = tx(ChainAddress(1, addr(1)), TransactTo::Call(ChainAddress(1, addr(2))));
    assert_eq!(first_frame(SpecId::PRAGUE_EOF, &call), FirstFrame::Call);
    let create = tx(ChainAddress(1, addr(1)), TransactTo::Create);
    assert_eq!(first_frame(SpecId::PRAGUE_EOF, &create), FirstFrame::EOFCreate);
    assert_eq!(first_frame(SpecId::PRAGUE, &create), FirstFrame::Create);
    let mut legacy = tx(ChainAddress(1, addr(1)), TransactTo::Create);
    legacy.data = vec![0x60, 0x00];
    assert_eq!(first_frame(SpecId::LATEST, &legacy), FirstFrame::Create);
    legacy.data = vec![0xef];
    assert_eq!(first_frame(SpecId::LATEST, &legacy), FirstFrame::Create);
}

#[test]
fn precompile_chains_default_to_caller_chain() {
    let mut t = tx(ChainAddress(42, addr(1)), TransactTo::Create);
    assert_eq!(precompile_chain_ids(&t), vec![42]);
    t.chain_ids = Some(vec![1, 167]);
    assert_eq!(precompile_chain_ids(&t), vec![1, 167]);
    assert_eq!(execution_gas_limit(&t, 21_000), 29_000);
    assert_eq!(CALL_STACK_LIMIT, 1024);
}

fn call_inputs() -> CallInputs {
    CallInputs {
        input: (0, 3),
        gas_limit: 5_000,
        target_address: ChainAddress(2, addr(2)),
        caller: ChainAddress(1, addr(1)),
        bytecode_address: ChainAddress(2, addr(3)),
        value: CallValue::Apparent(U256::from_u64(4)),
        scheme: CallScheme::DelegateCall,
        is_static: false,
        is_eof: false,
        return_memory_offset: (0, 0),
    }
}

fn call_begin(data: XCallData) -> JournalEntry {
    JournalEntry::CallBegin { depth: 1, from_chain_id: 1, to_chain_id: 2, data, delta: false }
}

#[test]
fn xcall_data_records_inputs_and_pending_output() {
    let d = xcall_data(&call_inputs(), vec![1, 2, 3]);
    assert_eq!(d.input.input, vec![1, 2, 3]);
    assert_eq!(d.input.gas_limit, 5_000);
    assert!(d.input.target_address == ChainAddress(2, addr(2)));
    assert!(d.input.bytecode_address == ChainAddress(2, addr(3)));
    assert_eq!(d.input.value, U256::from_u64(4));
    assert!(d.output.revert);
    assert!(d.output.output.is_empty());
    assert_eq!(d.output.gas, 0);
}

#[test]
fn record_call_outcome_fills_entry_and_closes_call() {
    let mut changes = vec![JournalEntry::CallEnd { depth: 0 }, call_begin(xcall_data(&call_inputs(), vec![9]))];
    let mut gas = Gas::new(1_000);
    assert!(gas.record_cost(2, 300));
    record_call_outcome(&mut changes, 1, vec![0xaa, 0xbb], &gas, false, 1);
    assert_eq!(changes.len(), 3);
    match &changes[1] {
        JournalEntry::CallBegin { depth, from_chain_id, to_chain_id, data, .. } => {
            assert_eq!(*depth, 1);
            assert_eq!(*from_chain_id, 1);
            assert_eq!(*to_chain_id, 2);
            assert_eq!(data.output.output, vec![0xaa, 0xbb]);
            assert_eq!(data.output.gas, 300);
            assert!(!data.output.revert);
            assert_eq!(data.input.input, vec![9]);
        }
        other => panic!("unexpected entry {:?}", other),
    }
    assert!(matches!(changes[2], JournalEntry::CallEnd { depth: 1 }));
    // An entry that is not a call stays as it is.
    record_call_outcome(&mut changes, 0, vec![], &gas, true, 4);
    assert!(matches!(changes[0], JournalEntry::CallEnd { depth: 0 }));
    assert!(matches!(changes[3], JournalEntry::CallEnd { depth: 4 }));
}

#[test]
fn settle_returned_call_uses_pending_entry() {
    let mut changes = vec![call_begin(xcall_data(&call_inputs(), vec![]))];
    let mut pending: HashMap<u64, usize> = HashMap::new();
    let gas = Gas::new_spent(70);
    assert!(!settle_returned_call(&pending, 2, &mut changes, vec![1], &gas, true));
    assert_eq!(changes.len(), 1);
    remember_pending_call(&mut pending, 2, 0);
    assert_eq!(pending.get(&2), Some(&0));
    assert!(settle_returned_call(&pending, 2, &mut changes, vec![1], &gas, true));
    assert_eq!(changes.len(), 2);
    match &changes[0] {
        JournalEntry::CallBegin { data, .. } => {
            assert_eq!(data.output.gas, 70);
            assert!(data.output.revert);
            assert_eq!(data.output.output, vec![1]);
        }
        other => panic!("unexpected entry {:?}", other),
    }
    assert!(matches!(changes[1], JournalEntry::CallEnd { depth: 2 }));
}

#[test]
fn begin_transaction_pushes_tx_begin() {
    let mut j = journal();
    gwyneth_revm::evm::begin_transaction(&mut j, tx(ChainAddress(1, addr(1)), TransactTo::Create));
    assert_eq!(j.state_changes.len(), 1);
    assert!(matches!(j.state_changes[0], JournalEntry::TxBegin { .. }));
}

#[test]
fn evm_accessors_and_spec_switch() {
    let ctx = Context { env: env(tx(ChainAddress(1, addr(1)), TransactTo::Create)), db: 5u32, journaled_state: journal() };
    let mut evm = Evm::new(ctx, HandlerCfg { spec_id: SpecId::CANCUN });
    assert_eq!(evm.spec_id(), SpecId::CANCUN);
    assert_eq!(evm.context.journaled_state.spec_id, SpecId::CANCUN);
    assert_eq!(evm.handler_cfg().spec_id, SpecId::CANCUN);
    assert_eq!(*evm.db(), 5);
    *evm.db_mut() = 6;
    evm.cfg_mut().xchain = true;
    assert!(evm.cfg().xchain);
    evm.tx_mut().gas_limit = 7;
    assert_eq!(evm.tx().gas_limit, 7);
    evm.block_mut().basefee = U256::from_u64(9);
    assert_eq!(evm.block().basefee, U256::from_u64(9));
    evm.modify_spec_id(SpecId::PRAGUE);
    assert_eq!(evm.spec_id(), SpecId::PRAGUE);
    let (db, env_cfg) = evm.into_db_and_env_with_handler_cfg();
    assert_eq!(db, 6);
    assert_eq!(env_cfg.handler_cfg.spec_id, SpecId::PRAGUE);
    assert_eq!(env_cfg.env.tx.gas_limit, 7);
}

#[test]
fn evm_into_context() {
    let ctx = Context { env: env(tx(ChainAddress(1, addr(1)), TransactTo::Create)), db: (), journaled_state: journal() };
    let evm = Evm::new(ctx, HandlerCfg { spec_id: SpecId::LONDON });
    let c = evm.into_context_with_handler_cfg();
    assert_eq!(c.cfg.spec_id, SpecId::LONDON);
    let evm = Evm::new(c.context, HandlerCfg { spec_id: SpecId::SHANGHAI });
    let c = evm.into_context();
    assert_eq!(c.journaled_state.spec_id, SpecId::SHANGHAI);
}

#[test]
fn create_inputs_from_transaction() {
    let t = tx(ChainAddress(1, addr(1)), TransactTo::Create);
    let c = CreateInputs::new(&t, 30_000).unwrap();
    assert!(c.caller == ChainAddress(1, addr(1)));
    assert!(matches!(c.scheme, CreateScheme::Create));
    assert_eq!(c.value, U256::from_u64(3));
    assert_eq!(c.init_code, vec![0xef, 0x00, 0x01]);
    assert_eq!(c.gas_limit, 30_000);
    assert!(CreateInputs::new_boxed(&t, 1).is_some());
    let call = tx(ChainAddress(1, addr(1)), TransactTo::Call(ChainAddress(1, addr(2))));
    assert!(CreateInputs::new(&call, 30_000).is_none());
    assert!(CreateInputs::new_boxed(&call, 30_000).is_none());
}

#[test]
fn created_address_of_create() {
    let sender = hex_addr("b20a608c624ca5003905aa834de7156c68b2e1d0");
    let mut c = CreateInputs {
        caller: ChainAddress(1, sender),
        scheme: CreateScheme::Create,
        value: U256::zero(),
        init_code: vec![],
        gas_limit: 0,
    };
    assert_eq!(c.created_address(0), hex_addr("00000000219ab540356cbb839cbe05303d7705fa"));
    assert_eq!(c.created_address(1), hex_addr("e33c6e89e69d085897f98e92b06ebd541d1daa99"));
    // A large nonce gives the address alloy computes.
    c.caller = ChainAddress(5, addr(1));
    let expected = alloy_primitives::Address::from(addr(1).0).create(0x1234_5678);
    assert_eq!(c.created_address(0x1234_5678).0, expected.0 .0);
}

#[test]
fn created_address_of_create2() {
    let sender = addr(0x11);
    let salt = U256 { l0: 5, l1: 0, l2: 0, l3: 0x0102_0304_0506_0708 };
    let c = CreateInputs {
        caller: ChainAddress(1, sender),
        scheme: CreateScheme::Create2 { salt },
        value: U256::zero(),
        init_code: vec![0x60, 0x00],
        gas_limit: 0,
    };
    let mut salt_bytes = [0u8; 32];
    salt_bytes[..8].copy_from_slice(&0x0102_0304_0506_0708u64.to_be_bytes());
    salt_bytes[31] = 5;
    assert_eq!(u256_to_be_bytes(salt), salt_bytes);
    let mut pre = vec![0xff];
    pre.extend_from_slice(&sender.0);
    pre.extend_from_slice(&salt_bytes);
    pre.extend_from_slice(&alloy_primitives::keccak256([0x60u8, 0x00]).0);
    let hash = alloy_primitives::keccak256(&pre).0;
    assert_eq!(c.created_address(0).0, hash[12..]);
}

struct MapState {
    accounts: Vec<(ChainAddress, u64)>,
    fail: bool,
}

impl State for MapState {
    type Error = String;

    fn basic(&mut self, address: ChainAddress) -> Result<Option<AccountInfo>, String> {
        if self.fail {
            return Err("state down".to_string());
        }
        Ok(self.accounts.iter().find(|(a, _)| *a == address).map(|(_, n)| AccountInfo::from_balance(U256::from_u64(*n))))
    }

    fn code_by_hash(&mut self, _chain_id: u64, _code_hash: B256) -> Result<Bytecode, String> {
        if self.fail { Err("state down".to_string()) } else { Ok(Bytecode::new()) }
    }

    fn storage(&mut self, _address: ChainAddress, index: U256) -> Result<U256, String> {
        if self.fail { Err("state down".to_string()) } else { Ok(index) }
    }
}

impl DatabaseCommit for MapState {
    fn commit(&mut self, changes: Vec<(ChainAddress, Account)>) {
        for (a, acct) in changes {
            self.accounts.push((a, acct.info.balance.as_limbs()[0]));
        }
    }
}

struct Hashes;

impl BlockHash for Hashes {
    type Error = u8;

    fn block_hash(&mut self, chain_id: u64, number: u64) -> Result<B256, u8> {
        if number == 0 {
            Err(1)
        } else {
            Ok(B256([chain_id as u8; 32]))
        }
    }
}

#[test]
fn database_components_route_and_mark_errors() {
    let mut db = DatabaseComponents { state: MapState { accounts: vec![(ChainAddress(1, addr(1)), 8)], fail: false }, block_hash: Hashes };
    let info = db.basic(ChainAddress(1, addr(1))).unwrap().unwrap();
    assert_eq!(info.balance, U256::from_u64(8));
    assert!(db.basic(ChainAddress(1, addr(2))).unwrap().is_none());
    assert_eq!(db.storage(ChainAddress(1, addr(1)), U256::from_u64(4)).unwrap(), U256::from_u64(4));
    assert!(db.code_by_hash(1, B256::zero()).unwrap().is_empty());
    assert_eq!(db.block_hash(3, 1).unwrap(), B256([3; 32]));
    assert!(matches!(db.block_hash(3, 0), Err(DatabaseComponentError::BlockHash(1))));
    db.commit(vec![(ChainAddress(1, addr(2)), Account::from_info(AccountInfo::from_balance(U256::from_u64(4))))]);
    assert_eq!(db.basic(ChainAddress(1, addr(2))).unwrap().unwrap().balance, U256::from_u64(4));
    db.state.fail = true;
    assert!(matches!(db.basic(ChainAddress(1, addr(1))), Err(DatabaseComponentError::State(_))));
    assert!(matches!(db.storage(ChainAddress(1, addr(1)), U256::zero()), Err(DatabaseComponentError::State(_))));
}

#[test]
fn loop_step_skips_shortcut_call_without_touching_log() {
    let cfg = CfgEnv { xchain: false, allow_mocking: false, parent_chain_id: None };
    let t = tx(ChainAddress(1, addr(1)), TransactTo::Call(ChainAddress(1, hex_addr(SHORTCUT))));
    let mut st = LoopState::new(vec![JournalEntry::CallEnd { depth: 9 }]);
    match loop_step(&mut st, LoopEvent::Start { cfg, tx: t }) {
        LoopAction::Finish { result, output, gas } => {
            assert_eq!(result, gwyneth_revm::xcall::InstructionResult::Return);
            assert!(output.is_empty());
            assert_eq!(gas.limit(), 0);
            assert_eq!(gas.remaining(), 0);
        }
        other => panic!("unexpected action {:?}", other),
    }
    assert_eq!(st.state_changes.len(), 1);
}

#[test]
fn loop_step_records_a_whole_transaction() {
    let cfg = CfgEnv { xchain: true, allow_mocking: false, parent_chain_id: None };
    let mut st = LoopState::new(vec![]);
    let t = tx(ChainAddress(1, addr(1)), TransactTo::Call(ChainAddress(2, addr(2))));
    assert!(matches!(loop_step(&mut st, LoopEvent::Start { cfg, tx: t }), LoopAction::Run { .. }));
    assert!(matches!(st.state_changes[0], JournalEntry::TxBegin { .. }));

    // A call that opens a frame, and one inside it that ends at once.
    let outer = match loop_step(&mut st, LoopEvent::CallAsked { inputs: call_inputs(), input: vec![1], call_depth: 1, delta: false }) {
        LoopAction::Call { entry } => entry,
        other => panic!("unexpected action {:?}", other),
    };
    assert_eq!(outer, 1);
    assert!(matches!(loop_step(&mut st, LoopEvent::FrameOpened { entry: outer, stack_len: 1 }), LoopAction::Continue));
    let inner = match loop_step(&mut st, LoopEvent::CallAsked { inputs: call_inputs(), input: vec![2], call_depth: 2, delta: true }) {
        LoopAction::Call { entry } => entry,
        other => panic!("unexpected action {:?}", other),
    };
    assert_eq!(inner, 2);
    let g = Gas::new_spent(5);
    loop_step(&mut st, LoopEvent::CallEnded { entry: inner, depth: 2, output: vec![7], gas: g, revert: false });
    let g = Gas::new_spent(40);
    loop_step(&mut st, LoopEvent::FrameReturned { depth: 1, output: vec![8], gas: g, revert: true });
    assert_eq!(st.state_changes.len(), 5);
    match &st.state_changes[1] {
        JournalEntry::CallBegin { depth, data, delta, .. } => {
            assert_eq!(*depth, 1);
            assert!(!*delta);
            assert_eq!(data.input.input, vec![1]);
            assert_eq!(data.output.output, vec![8]);
            assert_eq!(data.output.gas, 40);
            assert!(data.output.revert);
        }
        other => panic!("unexpected entry {:?}", other),
    }
    match &st.state_changes[2] {
        JournalEntry::CallBegin { depth, data, delta, .. } => {
            assert_eq!(*depth, 2);
            assert!(*delta);
            assert_eq!(data.output.output, vec![7]);
            assert_eq!(data.output.gas, 5);
            assert!(!data.output.revert);
        }
        other => panic!("unexpected entry {:?}", other),
    }
    assert!(matches!(st.state_changes[3], JournalEntry::CallEnd { depth: 2 }));
    assert!(matches!(st.state_changes[4], JournalEntry::CallEnd { depth: 1 }));
    // A return where no call is pending changes nothing.
    loop_step(&mut st, LoopEvent::FrameReturned { depth: 7, output: vec![], gas: Gas::new(0), revert: false });
    assert_eq!(st.state_changes.len(), 5);
}

#[test]
fn transaction_steps_run_in_order_and_stop_at_an_error() {
    let mut stage = TxStage::LoadAccounts;
    let mut seen = vec![stage];
    while let Some(next) = next_stage(stage, true) {
        stage = next;
        seen.push(stage);
    }
    assert_eq!(seen.len(), 11);
    assert_eq!(seen[5], TxStage::RunLoop);
    assert_eq!(seen[10], TxStage::Output);
    assert_eq!(next_stage(TxStage::DeductCaller, false), None);
}

struct EmptyDb;

impl State for EmptyDb {
    type Error = ();

    fn basic(&mut self, _address: ChainAddress) -> Result<Option<AccountInfo>, ()> {
        Ok(None)
    }

    fn code_by_hash(&mut self, _chain_id: u64, _code_hash: B256) -> Result<Bytecode, ()> {
        Ok(Bytecode::new())
    }

    fn storage(&mut self, _address: ChainAddress, _index: U256) -> Result<U256, ()> {
        Ok(U256::zero())
    }
}

#[test]
fn prepare_transaction_applies_authorization_before_first_frame() {
    let chain_id = 1;
    let delegate = addr(0);
    let caller = addr(1);
    let auth = Address({
        let mut a = [0u8; 20];
        a[18] = 1;
        a
    });
    let mut t = tx(ChainAddress(chain_id, caller), TransactTo::Call(ChainAddress(chain_id, auth)));
    t.gas_price = U256::zero();
    t.chain_ids = Some(vec![chain_id]);
    t.authorization_list = Some(vec![RecoveredAuthorization {
        chain_id: U256::from_u64(1),
        address: delegate,
        nonce: 0,
        authority: Some(auth),
    }]);
    let ctx = Context { env: env(t), db: EmptyDb, journaled_state: journal() };
    let mut evm = Evm::new(ctx, HandlerCfg { spec_id: SpecId::PRAGUE });
    let p = evm.prepare_transaction(21_000, U256::zero(), Some(U256::zero()), addr(0xbb)).unwrap();
    assert_eq!(p.gas_limit, 29_000);
    assert_eq!(p.eip7702_refund, 0);
    assert_eq!(p.first_frame, FirstFrame::Call);
    assert_eq!(p.precompile_chains, vec![chain_id]);
    let state = &evm.context.journaled_state.state;
    let auth_acc = &state.iter().find(|(a, _)| *a == ChainAddress(chain_id, auth)).unwrap().1;
    let code = auth_acc.info.code.as_ref().unwrap();
    assert_eq!(code.original_byte_vec(), Bytecode::new_eip7702(delegate).original_byte_vec());
    assert_eq!(auth_acc.info.nonce, 1);
    let caller_acc = &state.iter().find(|(a, _)| *a == ChainAddress(chain_id, caller)).unwrap().1;
    assert_eq!(caller_acc.info.nonce, 1);
}

struct FailingDb;

impl State for FailingDb {
    type Error = u8;

    fn basic(&mut self, _address: ChainAddress) -> Result<Option<AccountInfo>, u8> {
        Err(1)
    }

    fn code_by_hash(&mut self, _chain_id: u64, _code_hash: B256) -> Result<Bytecode, u8> {
        Err(2)
    }

    fn storage(&mut self, _address: ChainAddress, _index: U256) -> Result<U256, u8> {
        Err(3)
    }
}

fn prague_evm_with(t: TxEnv, preloaded: Vec<ChainAddress>) -> Evm<FailingDb> {
    let mut j = journal();
    for a in preloaded {
        j.state.push((a, Account::from_info(AccountInfo::from_balance(U256::zero()))));
    }
    Evm::new(Context { env: env(t), db: FailingDb, journaled_state: j }, HandlerCfg { spec_id: SpecId::PRAGUE })
}

#[test]
fn prepare_transaction_names_the_step_whose_load_failed() {
    let caller = ChainAddress(1, addr(1));
    let listed = ChainAddress(1, addr(2));
    let authority = ChainAddress(1, addr(3));
    let base = tx(caller, TransactTo::Call(listed));

    // The access list names an account the journal lacks.
    let mut t = base.clone();
    t.access_list = vec![AccessListItem { address: listed.1, storage_keys: vec![] }];
    let mut evm = prague_evm_with(t, vec![caller]);
    let r = evm.prepare_transaction(21_000, U256::zero(), Some(U256::zero()), addr(0xbb));
    assert!(matches!(r, Err(PrepareError::LoadAccounts(1))));

    // The caller is missing.
    let mut evm = prague_evm_with(base.clone(), vec![]);
    let r = evm.prepare_transaction(21_000, U256::zero(), Some(U256::zero()), addr(0xbb));
    assert!(matches!(r, Err(PrepareError::DeductCaller(1))));
    assert!(evm.context.journaled_state.state.is_empty());

    // An authority is missing; the caller was charged before.
    let mut t = base.clone();
    t.gas_price = U256::zero();
    t.chain_ids = Some(vec![1]);
    t.authorization_list = Some(vec![RecoveredAuthorization {
        chain_id: U256::from_u64(1),
        address: addr(0),
        nonce: 0,
        authority: Some(authority.1),
    }]);
    let mut evm = prague_evm_with(t.clone(), vec![caller]);
    let r = evm.prepare_transaction(21_000, U256::zero(), Some(U256::zero()), addr(0xbb));
    assert!(matches!(r, Err(PrepareError::ApplyAuthList(1))));
    assert_eq!(evm.context.journaled_state.state[0].1.info.nonce, 1);

    // With every account in the journal, no database call is made.
    let mut evm = prague_evm_with(t, vec![caller, authority]);
    let p = evm.prepare_transaction(21_000, U256::zero(), Some(U256::zero()), addr(0xbb)).unwrap();
    assert_eq!(p.gas_limit, 29_000);
}

#[test]
fn code_hash_of_account_without_code_is_empty_hash() {
    let info = AccountInfo::new(U256::zero(), 0, B256::zero(), Bytecode::default());
    assert_eq!(info.code_hash(), B256::keccak_empty());
    let info = AccountInfo::new(U256::zero(), 0, B256::zero(), Bytecode::new_legacy(vec![1])).without_code();
    assert_eq!(info.code_hash(), B256::keccak_empty());
    let info = AccountInfo::new(U256::zero(), 0, B256([7; 32]), Bytecode::new_legacy(vec![1]));
    assert_eq!(info.code_hash(), B256([7; 32]));
}
