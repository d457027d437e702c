use gwyneth_revm::env::{BlockEnv, CfgEnv, Env, TaikoFields, TransactTo, TxEnv};
use gwyneth_revm::primitives::{Address, U256};
use gwyneth_revm::state::ChainAddress;

fn addr(last: u8) -> Address {
    let mut a = [0u8; 20];
    a[19] = last;
    Address(a)
}

fn sample_env(caller: ChainAddress, to: TransactTo) -> Env {
    Env {
        cfg: CfgEnv { xchain: false, allow_mocking: false, parent_chain_id: None },
        block: BlockEnv { coinbase: ChainAddress(1, addr(0xcb)), basefee: U256::from_u64(10) },
        tx: TxEnv {
            caller,
            gas_limit: 100_000,
            gas_price: U256::from_u64(2),
            transact_to: to,
            value: U256::zero(),
            data: vec![],
            chain_ids: None,
            authorization_list: None,
            access_list: vec![],
            taiko: TaikoFields { is_anchor: false, treasury: ChainAddress(1, addr(0x77)), basefee_ratio: 75 },
        },
    }
}

#[test]
fn sample_env_holds_what_it_was_given() {
    let env = sample_env(ChainAddress(5, addr(1)), TransactTo::Create);
    assert_eq!(env.tx.caller.0, 5);
    assert!(!env.tx.transact_to.is_call());
    assert!(env.tx.transact_to.to().is_none());
    let env = sample_env(ChainAddress(5, addr(1)), TransactTo::Call(ChainAddress(6, addr(2))));
    assert!(env.tx.transact_to.is_call());
    assert!(env.tx.transact_to.to() == Some(ChainAddress(6, addr(2))));
}
