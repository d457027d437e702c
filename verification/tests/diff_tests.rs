use gwyneth_revm::bytecode::Bytecode;
use gwyneth_revm::changes::{
    PlainStateReverts, PlainStorageChangeset, PlainStorageRevert, RevertToSlot, StateChangeset,
};
use gwyneth_revm::env::{TaikoFields, TransactTo, TxEnv};
use gwyneth_revm::journal::{JournalEntry, StateChanges, XCallData, XCallInput, XCallOutput};
use gwyneth_revm::primitives::{Address, B256, U256};
use gwyneth_revm::state::{AccountInfo, ChainAddress};
use gwyneth_revm::state_diff::{create_state_diff, try_create_state_diff, StateDiffEntry};

fn addr(last: u8) -> Address {
    let mut a = [0u8; 20];
    a[19] = last;
    Address(a)
}

fn tx(caller: ChainAddress, to: TransactTo) -> TxEnv {
    TxEnv {
        caller,
        gas_limit: 90_000,
        gas_price: U256::from_u64(1),
        transact_to: to,
        value: U256::from_u64(6),
        data: vec![0xab, 0xcd],
        chain_ids: None,
        authorization_list: None,
        access_list: vec![],
        taiko: TaikoFields { is_anchor: false, treasury: ChainAddress(1, addr(0x77)), basefee_ratio: 0 },
    }
}

fn xcall(caller: ChainAddress, target: ChainAddress, input: Vec<u8>) -> XCallData {
    XCallData {
        input: XCallInput {
            input,
            gas_limit: 1_000,
            bytecode_address: target,
            target_address: target,
            caller,
            value: U256::zero(),
            is_static: false,
            is_eof: false,
        },
        output: XCallOutput { revert: false, output: vec![1], gas: 10 },
    }
}

fn begin(depth: usize, data: XCallData) -> JournalEntry {
    JournalEntry::CallBegin {
        depth,
        from_chain_id: data.input.caller.0,
        to_chain_id: data.input.target_address.0,
        data,
        delta: false,
    }
}

#[test]
fn state_diff_tracks_changes_made_from_another_chain() {
    let a = ChainAddress(2, addr(0xa));
    let b = ChainAddress(2, addr(0xb));
    let c = ChainAddress(1, addr(0xc));
    let d = ChainAddress(2, addr(0xd));
    let e = ChainAddress(2, addr(0xe));
    let entries = vec![
        JournalEntry::TxBegin { tx: tx(a, TransactTo::Call(b)) },
        // Native on chain 2: ignored.
        JournalEntry::StorageChanged { address: b, key: U256::from_u64(1), new: U256::from_u64(2), had_value: U256::zero() },
        // Chain 2 calls chain 1: an output.
        begin(1, xcall(b, c, vec![7])),
        // Chain 1 calls back into chain 2.
        begin(2, xcall(c, d, vec![8])),
        JournalEntry::StorageChanged { address: d, key: U256::from_u64(7), new: U256::from_u64(9), had_value: U256::zero() },
        JournalEntry::BalanceTransfer { from: d, to: e, balance: U256::from_u64(100) },
        // A change on chain 1 is not tracked.
        JournalEntry::StorageChanged { address: c, key: U256::from_u64(3), new: U256::from_u64(3), had_value: U256::zero() },
        JournalEntry::CallEnd { depth: 2 },
        JournalEntry::CallEnd { depth: 1 },
    ];
    let diff = create_state_diff(StateChanges { entries }, 2);

    assert_eq!(diff.outputs.len(), 1);
    assert_eq!(diff.outputs[0].input.input, vec![7]);
    assert!(diff.outputs[0].input.target_address == c);

    assert_eq!(diff.entries.len(), 2);
    match &diff.entries[0] {
        StateDiffEntry::XCall { call } => {
            assert!(call.input.target_address == b);
            assert!(call.input.caller == a);
            assert_eq!(call.input.input, vec![0xab, 0xcd]);
            assert_eq!(call.input.value, U256::from_u64(6));
            assert_eq!(call.input.gas_limit, 90_000);
            assert!(!call.output.revert);
            assert!(call.output.output.is_empty());
        }
        other => panic!("unexpected entry {:?}", other),
    }
    match &diff.entries[1] {
        StateDiffEntry::Diff { accounts } => {
            assert_eq!(accounts.len(), 2);
            let da = &accounts.iter().find(|(k, _)| *k == d).unwrap().1;
            assert_eq!(da.storage().clone(), vec![(U256::from_u64(7), U256::from_u64(9))]);
            let minus_100 = U256 { l0: u64::MAX - 99, l1: u64::MAX, l2: u64::MAX, l3: u64::MAX };
            assert_eq!(da.balance_delta().bits, minus_100);
            let ea = &accounts.iter().find(|(k, _)| *k == e).unwrap().1;
            assert!(ea.storage().is_empty());
            assert_eq!(ea.balance_delta().bits, U256::from_u64(100));
        }
        other => panic!("unexpected entry {:?}", other),
    }
}

#[test]
fn state_diff_of_unrelated_chain_is_empty() {
    let a = ChainAddress(1, addr(0xa));
    let b = ChainAddress(1, addr(0xb));
    let entries = vec![
        JournalEntry::TxBegin { tx: tx(a, TransactTo::Call(b)) },
        JournalEntry::StorageChanged { address: b, key: U256::from_u64(1), new: U256::from_u64(2), had_value: U256::zero() },
        JournalEntry::AccountTouched { address: b },
    ];
    let diff = create_state_diff(StateChanges { entries }, 5);
    assert!(diff.entries.is_empty());
    assert!(diff.outputs.is_empty());
}

#[test]
fn state_diff_creation_transaction_has_no_incoming_call() {
    let a = ChainAddress(3, addr(0xa));
    let entries = vec![JournalEntry::TxBegin { tx: tx(a, TransactTo::Create) }];
    let diff = create_state_diff(StateChanges { entries }, 3);
    assert!(diff.entries.is_empty());
}

#[test]
fn changeset_filter_keeps_one_chain_in_order() {
    let mut cs = StateChangeset {
        accounts: vec![
            (ChainAddress(1, addr(1)), None),
            (ChainAddress(2, addr(2)), Some(AccountInfo::default())),
            (ChainAddress(1, addr(3)), Some(AccountInfo::default())),
        ],
        storage: vec![
            PlainStorageChangeset { address: ChainAddress(2, addr(1)), wipe_storage: false, storage: vec![] },
            PlainStorageChangeset { address: ChainAddress(1, addr(4)), wipe_storage: true, storage: vec![] },
        ],
        contracts: vec![((2, B256::zero()), Bytecode::new()), ((1, B256::keccak_empty()), Bytecode::new())],
    };
    cs.filter_for_chain(1);
    assert_eq!(cs.accounts.len(), 2);
    assert!(cs.accounts[0].0 == ChainAddress(1, addr(1)));
    assert!(cs.accounts[1].0 == ChainAddress(1, addr(3)));
    assert_eq!(cs.storage.len(), 1);
    assert!(cs.storage[0].wipe_storage);
    assert_eq!(cs.contracts.len(), 1);
    assert_eq!((cs.contracts[0].0).0, 1);
    // Filtering again changes nothing.
    cs.filter_for_chain(1);
    assert_eq!(cs.accounts.len(), 2);
}

#[test]
fn reverts_filter_each_transition() {
    let mut r = PlainStateReverts::with_capacity(4);
    assert!(r.accounts.is_empty());
    r.accounts.push(vec![(ChainAddress(1, addr(1)), None), (ChainAddress(9, addr(1)), None)]);
    r.accounts.push(vec![(ChainAddress(9, addr(2)), None)]);
    r.storage.push(vec![
        PlainStorageRevert {
            address: ChainAddress(9, addr(1)),
            wiped: false,
            storage_revert: vec![(U256::zero(), RevertToSlot::Value(U256::from_u64(3)))],
        },
        PlainStorageRevert { address: ChainAddress(1, addr(1)), wiped: true, storage_revert: vec![(U256::zero(), RevertToSlot::Destroyed)] },
    ]);
    r.filter_for_chain(9);
    assert_eq!(r.accounts.len(), 2);
    assert_eq!(r.accounts[0].len(), 1);
    assert!(r.accounts[0][0].0 == ChainAddress(9, addr(1)));
    assert_eq!(r.accounts[1].len(), 1);
    assert_eq!(r.storage[0].len(), 1);
    assert!(matches!(r.storage[0][0].storage_revert[0].1, RevertToSlot::Value(v) if v == U256::from_u64(3)));
}

fn transfer_in_xcall(balance: U256) -> Vec<JournalEntry> {
    let a = ChainAddress(1, addr(0xa));
    let d = ChainAddress(2, addr(0xd));
    let e = ChainAddress(2, addr(0xe));
    vec![
        JournalEntry::TxBegin { tx: tx(a, TransactTo::Call(a)) },
        begin(1, xcall(a, d, vec![1])),
        JournalEntry::BalanceTransfer { from: d, to: e, balance },
        JournalEntry::CallEnd { depth: 1 },
    ]
}

#[test]
fn try_state_diff_accepts_what_create_reads() {
    let diff = try_create_state_diff(StateChanges { entries: transfer_in_xcall(U256::from_u64(5)) }, 2).unwrap();
    assert_eq!(diff.entries.len(), 1);
    assert!(diff.outputs.is_empty());
    match &diff.entries[0] {
        StateDiffEntry::Diff { accounts } => {
            let ea = &accounts.iter().find(|(k, _)| *k == ChainAddress(2, addr(0xe))).unwrap().1;
            assert_eq!(ea.balance_delta().bits, U256::from_u64(5));
        }
        other => panic!("unexpected entry {:?}", other),
    }
}

#[test]
fn try_state_diff_rejects_malformed_journals() {
    let b = ChainAddress(2, addr(0xb));
    // A change on the selected chain before any transaction began.
    let entries = vec![JournalEntry::StorageChanged {
        address: b,
        key: U256::from_u64(1),
        new: U256::from_u64(2),
        had_value: U256::zero(),
    }];
    assert!(try_create_state_diff(StateChanges { entries }, 2).is_none());
    // A call that ends with no call open.
    let entries = vec![JournalEntry::CallEnd { depth: 0 }];
    assert!(try_create_state_diff(StateChanges { entries }, 2).is_none());
    // A transaction that begins inside a cross-chain call.
    let a = ChainAddress(1, addr(0xa));
    let entries = vec![
        JournalEntry::TxBegin { tx: tx(a, TransactTo::Create) },
        begin(1, xcall(a, b, vec![1])),
        JournalEntry::TxBegin { tx: tx(a, TransactTo::Create) },
    ];
    assert!(try_create_state_diff(StateChanges { entries }, 2).is_none());
    // A balance change that leaves the signed 256-bit range.
    let half = U256 { l0: 0, l1: 0, l2: 0, l3: 1u64 << 63 };
    assert!(try_create_state_diff(StateChanges { entries: transfer_in_xcall(half) }, 2).is_none());
}
