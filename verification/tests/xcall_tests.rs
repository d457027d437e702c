use gwyneth_revm::gas::Gas;
use gwyneth_revm::primitives::{Address, U256};
use gwyneth_revm::specification::SpecId;
use gwyneth_revm::state::ChainAddress;
use gwyneth_revm::xcall::{
    apply_xcall_options, call, call_code, delegate_call, finish_call, local_gas_limit_u64, static_call, CallFrameInfo,
    CallScheme, CallValue, GwynethContext, GwynethInstructions, InstructionResult, XCallOptions,
};

fn addr(last: u8) -> Address {
    let mut a = [0u8; 20];
    a[19] = last;
    Address(a)
}

fn frame() -> CallFrameInfo {
    CallFrameInfo {
        chain_id: 1,
        tx_origin: ChainAddress(1, addr(0xee)),
        target_address: ChainAddress(1, addr(0xaa)),
        caller_address: ChainAddress(1, addr(0xcc)),
        call_value: U256::from_u64(9),
        is_static: false,
    }
}

fn with_options(chain_id: u64, sender: ChainAddress) -> GwynethContext {
    GwynethContext {
        xcall_options: Some(XCallOptions {
            chain_id,
            sandbox: false,
            tx_origin: ChainAddress(chain_id, addr(0xee)),
            msg_sender: sender,
            block_hash: None,
            proof: vec![],
        }),
    }
}

#[test]
fn call_without_options_stays_on_chain() {
    let mut ctx = GwynethContext { xcall_options: None };
    let t = apply_xcall_options(&mut ctx, &frame(), ChainAddress(7, addr(2)), false, false);
    assert!(t.target_address == ChainAddress(1, addr(2)));
    assert!(t.bytecode_address == ChainAddress(1, addr(2)));
    assert!(t.caller == ChainAddress(1, addr(0xaa)));
}

#[test]
fn call_with_options_goes_to_other_chain_once() {
    let sender = ChainAddress(1, addr(0x55));
    let mut ctx = with_options(167, sender);
    let t = apply_xcall_options(&mut ctx, &frame(), ChainAddress(1, addr(2)), false, false);
    assert!(t.target_address == ChainAddress(167, addr(2)));
    assert!(t.bytecode_address == ChainAddress(167, addr(2)));
    assert!(t.caller == sender);
    assert!(ctx.xcall_options.is_none());
    // The options are used up: the next call stays on the current chain.
    let t = apply_xcall_options(&mut ctx, &frame(), ChainAddress(1, addr(2)), false, false);
    assert!(t.target_address == ChainAddress(1, addr(2)));
}

#[test]
fn delegate_call_with_options_runs_remote_code_in_place() {
    let sender = ChainAddress(1, addr(0x55));
    let mut ctx = with_options(167, sender);
    let t = apply_xcall_options(&mut ctx, &frame(), ChainAddress(1, addr(2)), true, false);
    assert!(t.target_address == sender);
    assert!(t.caller == ChainAddress(1, addr(0xcc)));
    assert!(t.bytecode_address == ChainAddress(167, addr(2)));
}

#[test]
fn call_code_changes_sender_storage() {
    let mut ctx = GwynethContext { xcall_options: None };
    let p = call_code(&mut ctx, &frame(), U256::from_u64(100), ChainAddress(1, addr(2)));
    assert!(p.targets.target_address == ChainAddress(1, addr(0xaa)));
    assert!(p.targets.bytecode_address == ChainAddress(1, addr(2)));
    assert_eq!(p.local_gas_limit, 100);
    assert!(p.halt.is_none());
}

#[test]
fn call_with_value_in_static_frame_halts() {
    let mut ctx = GwynethContext { xcall_options: None };
    let mut f = frame();
    f.is_static = true;
    let p = call(&mut ctx, &f, U256::from_u64(5), ChainAddress(1, addr(2)), U256::from_u64(1));
    assert_eq!(p.halt, Some(InstructionResult::CallNotAllowedInsideStatic));
    let p = call(&mut ctx, &f, U256::from_u64(5), ChainAddress(1, addr(2)), U256::zero());
    assert!(p.halt.is_none());
}

#[test]
fn gas_limit_operand_is_clamped() {
    assert_eq!(local_gas_limit_u64(U256::from_u64(77)), 77);
    assert_eq!(local_gas_limit_u64(U256 { l0: 1, l1: 1, l2: 0, l3: 0 }), u64::MAX);
    assert_eq!(local_gas_limit_u64(U256::max_value()), u64::MAX);
}

#[test]
fn delegate_and_static_call_need_their_hardfork() {
    let mut ctx = with_options(167, ChainAddress(1, addr(0x55)));
    assert_eq!(
        delegate_call(&mut ctx, &frame(), SpecId::FRONTIER, U256::zero(), ChainAddress(1, addr(2))).unwrap_err(),
        InstructionResult::NotActivated
    );
    assert!(ctx.xcall_options.is_some());
    assert_eq!(
        static_call(&mut ctx, &frame(), SpecId::HOMESTEAD, U256::zero(), ChainAddress(1, addr(2))).unwrap_err(),
        InstructionResult::NotActivated
    );
    assert!(ctx.xcall_options.is_some());
    let p = static_call(&mut ctx, &frame(), SpecId::BYZANTIUM, U256::from_u64(3), ChainAddress(1, addr(2))).unwrap();
    assert!(p.targets.target_address == ChainAddress(167, addr(2)));
    assert!(ctx.xcall_options.is_none());
    let p = delegate_call(&mut ctx, &frame(), SpecId::HOMESTEAD, U256::from_u64(3), ChainAddress(1, addr(2))).unwrap();
    assert!(p.targets.target_address == ChainAddress(1, addr(0xaa)));
    assert_eq!(p.local_gas_limit, 3);
}

#[test]
fn finish_call_charges_gas_and_adds_stipend() {
    let f = frame();
    let mut ctx = GwynethContext { xcall_options: None };
    let t = apply_xcall_options(&mut ctx, &f, ChainAddress(1, addr(2)), false, false);
    let mut gas = Gas::new(10_000);
    let c = finish_call(CallScheme::Call, &f, &t, U256::from_u64(1), 1_000, (0, 4), (4, 32), &mut gas).unwrap();
    assert_eq!(gas.remaining(), 9_000);
    assert_eq!(c.gas_limit, 3_300);
    assert!(matches!(c.value, CallValue::Transfer(v) if v == U256::from_u64(1)));
    assert_eq!(c.input, (0, 4));
    assert_eq!(c.return_memory_offset, (4, 32));
    assert!(!c.is_static);

    let c = finish_call(CallScheme::DelegateCall, &f, &t, U256::from_u64(1), 1_000, (0, 0), (0, 0), &mut gas).unwrap();
    assert_eq!(c.gas_limit, 1_000);
    assert!(matches!(c.value, CallValue::Apparent(v) if v == U256::from_u64(9)));

    let c = finish_call(CallScheme::StaticCall, &f, &t, U256::zero(), 1_000, (0, 0), (0, 0), &mut gas).unwrap();
    assert!(c.is_static);
    assert_eq!(c.scheme, CallScheme::StaticCall);
    assert_eq!(gas.remaining(), 7_000);

    let r = finish_call(CallScheme::Call, &f, &t, U256::zero(), 7_001, (0, 0), (0, 0), &mut gas);
    assert_eq!(r.unwrap_err(), InstructionResult::OutOfGas);
    assert_eq!(gas.remaining(), 7_000);
}

#[test]
fn gwyneth_replaces_the_four_call_instructions() {
    let t = GwynethInstructions::new_mainnet();
    assert_eq!(
        t.replaced,
        vec![
            (0xF1, CallScheme::Call),
            (0xF2, CallScheme::CallCode),
            (0xF4, CallScheme::DelegateCall),
            (0xFA, CallScheme::StaticCall),
        ]
    );
}
