//! The call instructions of Gwyneth: where a call goes once the cross-chain call options
//! that the preceding call to the options precompile set are applied, and the inputs of the
//! frame it opens.
use crate::gas::{Gas, record_cost_fits, record_cost_result};
use crate::primitives::{B256, U256};
use crate::specification::SpecId;
use crate::state::ChainAddress;
use vstd::prelude::*;

verus! {

/// The options of the next cross-chain call.
#[derive(Debug)]
pub struct XCallOptions {
    /// The chain the call goes to.
    pub chain_id: u64,
    /// Whether the call runs in a sandbox.
    pub sandbox: bool,
    /// The origin the call claims.
    pub tx_origin: ChainAddress,
    /// The sender the call claims.
    pub msg_sender: ChainAddress,
    /// The block hash the call is made against.
    pub block_hash: Option<B256>,
    /// A proof for the call.
    pub proof: Vec<u8>,
}

/// The Gwyneth part of the execution context.
#[derive(Debug)]
pub struct GwynethContext {
    /// The options set by the options precompile, waiting for the next call.
    pub xcall_options: Option<XCallOptions>,
}

/// What the call instructions read of the running frame and its host.
#[derive(Clone, Copy, Debug)]
pub struct CallFrameInfo {
    /// The chain the frame runs on.
    pub chain_id: u64,
    /// The origin of the transaction.
    pub tx_origin: ChainAddress,
    /// The address whose storage the frame changes.
    pub target_address: ChainAddress,
    /// The caller of the frame.
    pub caller_address: ChainAddress,
    /// The value of the frame.
    pub call_value: U256,
    /// Whether the frame is static.
    pub is_static: bool,
}

/// Where a call goes: the code that runs, the storage it changes, and the caller it sees.
#[derive(Clone, Copy, Debug)]
pub struct CallTargets {
    pub bytecode_address: ChainAddress,
    pub target_address: ChainAddress,
    pub caller: ChainAddress,
}

/// The targets of a call to `to`: with options, a delegate call keeps the current chain for
/// the address called and runs the code of `to` on the chain of the options, and other
/// calls go to `to` on the chain of the options; without options everything stays on the
/// current chain and the sender is the running frame. The storage changed is the sender's
/// for delegate calls and call-code, else that of `to`; the caller is the frame's own
/// caller for delegate calls, else the sender.
pub open spec fn call_targets_spec(
    options: Option<(u64, ChainAddress)>,
    frame: CallFrameInfo,
    to: ChainAddress,
    delegate: bool,
    code: bool,
) -> CallTargets {
    let (opt_chain, msg_sender) = match options {
        Some(o) => o,
        None => (frame.chain_id, frame.target_address),
    };
    let to_chain = match options {
        Some(o) => if delegate { frame.chain_id } else { o.0 },
        None => frame.chain_id,
    };
    let to2 = ChainAddress(to_chain, to.1);
    CallTargets {
        target_address: if delegate || code { msg_sender } else { to2 },
        caller: if delegate { frame.caller_address } else { msg_sender },
        bytecode_address: if delegate { ChainAddress(opt_chain, to.1) } else { to2 },
    }
}

/// The chain and sender of the pending options, if any.
pub open spec fn pending(ctx: GwynethContext) -> Option<(u64, ChainAddress)> {
    match ctx.xcall_options {
        Some(o) => Some((o.chain_id, o.msg_sender)),
        None => None,
    }
}

/// Applies the pending call options to a call to `to` and consumes them; see
/// [`call_targets_spec`].
pub fn apply_xcall_options(
    ctx: &mut GwynethContext,
    frame: &CallFrameInfo,
    to: ChainAddress,
    delegate: bool,
    code: bool,
) -> (r: CallTargets)
    ensures
        r == call_targets_spec(pending(*old(ctx)), *frame, to, delegate, code),
        final(ctx).xcall_options is None,
{
    let chain_id = frame.chain_id;
    let mut taken: Option<XCallOptions> = None;
    std::mem::swap(&mut taken, &mut ctx.xcall_options);
    let (opt_chain, msg_sender, to) = match taken {
        Some(o) => {
            let to = if delegate {
                ChainAddress(chain_id, to.1)
            } else {
                ChainAddress(o.chain_id, to.1)
            };
            (o.chain_id, o.msg_sender, to)
        },
        None => (chain_id, frame.target_address, ChainAddress(chain_id, to.1)),
    };
    CallTargets {
        target_address: if delegate || code { msg_sender } else { to },
        caller: if delegate { frame.caller_address } else { msg_sender },
        bytecode_address: if delegate { ChainAddress(opt_chain, to.1) } else { to },
    }
}

/// The gas stipend a call with value gets.
pub open spec fn call_stipend() -> u64 {
    2300
}

/// The kind of a call.
#[derive(Clone, Copy, Debug, PartialEq, Eq, Structural)]
pub enum CallScheme {
    Call,
    CallCode,
    DelegateCall,
    StaticCall,
}

/// The value of a call: moved to the callee, or only seen by it.
#[derive(Clone, Copy, Debug)]
pub enum CallValue {
    Transfer(U256),
    Apparent(U256),
}

/// The results that halt an instruction or open a frame.
#[derive(Clone, Copy, Debug, PartialEq, Eq, Structural)]
pub enum InstructionResult {
    /// A call opens a new frame.
    CallOrCreate,
    /// Value may not move inside a static call.
    CallNotAllowedInsideStatic,
    /// The host failed.
    FatalExternalError,
    /// The gas ran out.
    OutOfGas,
    /// The instruction is not active in the hardfork.
    NotActivated,
    /// The frame returned normally.
    Return,
}

/// The instructions Gwyneth runs in place of those of the mainnet: each opcode with the call
/// instruction of this module that handles it.
#[derive(Debug)]
pub struct GwynethInstructions {
    pub replaced: Vec<(u8, CallScheme)>,
}

impl GwynethInstructions {
    /// The mainnet instructions with `CALL` (0xF1), `CALLCODE` (0xF2), `DELEGATECALL` (0xF4)
    /// and `STATICCALL` (0xFA) replaced by [`call`], [`call_code`], [`delegate_call`] and
    /// [`static_call`].
    pub fn new_mainnet() -> (r: GwynethInstructions)
        ensures
            r.replaced@ == seq![
                (0xF1u8, CallScheme::Call),
                (0xF2u8, CallScheme::CallCode),
                (0xF4u8, CallScheme::DelegateCall),
                (0xFAu8, CallScheme::StaticCall),
            ],
    {
        let mut replaced: Vec<(u8, CallScheme)> = Vec::new();
        replaced.push((0xF1, CallScheme::Call));
        replaced.push((0xF2, CallScheme::CallCode));
        replaced.push((0xF4, CallScheme::DelegateCall));
        replaced.push((0xFA, CallScheme::StaticCall));
        GwynethInstructions { replaced }
    }
}

/// What a `SELFDESTRUCT` found: whether the account had value, whether the target existed
/// and was cold, and whether the account had been destroyed before.
#[derive(Clone, Copy, Debug, Default, PartialEq, Eq, Hash)]
pub struct SelfDestructResult {
    pub had_value: bool,
    pub target_exists: bool,
    pub is_cold: bool,
    pub previously_destroyed: bool,
}

/// The inputs of the frame a call opens; the memory ranges of input and output are given as
/// start and length.
#[derive(Clone, Copy, Debug)]
pub struct CallInputs {
    pub input: (usize, usize),
    pub gas_limit: u64,
    pub target_address: ChainAddress,
    pub caller: ChainAddress,
    pub bytecode_address: ChainAddress,
    pub value: CallValue,
    pub scheme: CallScheme,
    pub is_static: bool,
    pub is_eof: bool,
    pub return_memory_offset: (usize, usize),
}

/// The gas limit operand as a 64-bit number: its value where it fits, else the largest one.
pub open spec fn clamp_to_u64(v: U256) -> u64 {
    if v.value() <= u64::MAX { v.value() as u64 } else { u64::MAX }
}

/// The gas limit operand of a call as a 64-bit number, the largest one where it does not fit.
pub fn local_gas_limit_u64(v: U256) -> (r: u64)
    ensures
        r == clamp_to_u64(v),
{
    proof {
        crate::primitives::lemma_u256_bounded(v);
    }
    if v.l1 == 0 && v.l2 == 0 && v.l3 == 0 {
        v.l0
    } else {
        assert(v.value() > u64::MAX) by (nonlinear_arith)
            requires
                v.value() == v.l0 + v.l1 * 0x1_0000_0000_0000_0000nat + v.l2
                    * 0x1_0000_0000_0000_0000_0000_0000_0000_0000nat + v.l3
                    * 0x1_0000_0000_0000_0000_0000_0000_0000_0000_0000_0000_0000_0000nat,
                v.l1 != 0 || v.l2 != 0 || v.l3 != 0,
        ;
        u64::MAX
    }
}

/// What a call instruction does before the memory, the account and the gas of the call are
/// looked at: where the call goes and with what gas limit operand, or the result it halts with.
#[derive(Clone, Copy, Debug)]
pub struct CallPrelude {
    pub targets: CallTargets,
    pub local_gas_limit: u64,
    pub halt: Option<InstructionResult>,
}

/// The `CALL` instruction up to the lookups: applies the options, clamps the gas limit
/// operand, and halts with `CallNotAllowedInsideStatic` where a static frame would move value.
pub fn call(
    ctx: &mut GwynethContext,
    frame: &CallFrameInfo,
    local_gas_limit: U256,
    to: ChainAddress,
    value: U256,
) -> (r: CallPrelude)
    ensures
        r.targets == call_targets_spec(pending(*old(ctx)), *frame, to, false, false),
        r.local_gas_limit == clamp_to_u64(local_gas_limit),
        r.halt == if frame.is_static && value.value() != 0 {
            Some(InstructionResult::CallNotAllowedInsideStatic)
        } else {
            None
        },
        final(ctx).xcall_options is None,
{
    let targets = apply_xcall_options(ctx, frame, to, false, false);
    let gl = local_gas_limit_u64(local_gas_limit);
    let has_transfer = !value.is_zero();
    let halt = if frame.is_static && has_transfer {
        Some(InstructionResult::CallNotAllowedInsideStatic)
    } else {
        None
    };
    CallPrelude { targets, local_gas_limit: gl, halt }
}

/// The `CALLCODE` instruction up to the lookups: applies the options as for call-code and
/// clamps the gas limit operand.
pub fn call_code(
    ctx: &mut GwynethContext,
    frame: &CallFrameInfo,
    local_gas_limit: U256,
    to: ChainAddress,
) -> (r: CallPrelude)
    ensures
        r.targets == call_targets_spec(pending(*old(ctx)), *frame, to, false, true),
        r.local_gas_limit == clamp_to_u64(local_gas_limit),
        r.halt is None,
        final(ctx).xcall_options is None,
{
    let targets = apply_xcall_options(ctx, frame, to, false, true);
    let gl = local_gas_limit_u64(local_gas_limit);
    CallPrelude { targets, local_gas_limit: gl, halt: None }
}

/// The `DELEGATECALL` instruction up to the lookups: halts with `NotActivated` before
/// Homestead, touching nothing; else applies the options as for a delegate call and clamps the
/// gas limit operand.
pub fn delegate_call(
    ctx: &mut GwynethContext,
    frame: &CallFrameInfo,
    spec_id: SpecId,
    local_gas_limit: U256,
    to: ChainAddress,
) -> (r: Result<CallPrelude, InstructionResult>)
    ensures
        spec_id.number() < SpecId::HOMESTEAD.number() ==> r == Err::<CallPrelude, InstructionResult>(
            InstructionResult::NotActivated,
        ) && *final(ctx) == *old(ctx),
        spec_id.number() >= SpecId::HOMESTEAD.number() ==> {
            &&& r is Ok
            &&& r.unwrap().targets == call_targets_spec(pending(*old(ctx)), *frame, to, true, false)
            &&& r.unwrap().local_gas_limit == clamp_to_u64(local_gas_limit)
            &&& r.unwrap().halt is None
            &&& final(ctx).xcall_options is None
        },
{
    if !spec_id.is_enabled_in(SpecId::HOMESTEAD) {
        return Err(InstructionResult::NotActivated);
    }
    let targets = apply_xcall_options(ctx, frame, to, true, false);
    let gl = local_gas_limit_u64(local_gas_limit);
    Ok(CallPrelude { targets, local_gas_limit: gl, halt: None })
}

/// The `STATICCALL` instruction up to the lookups: halts with `NotActivated` before
/// Byzantium, touching nothing; else applies the options as for a plain call and clamps the
/// gas limit operand.
pub fn static_call(
    ctx: &mut GwynethContext,
    frame: &CallFrameInfo,
    spec_id: SpecId,
    local_gas_limit: U256,
    to: ChainAddress,
) -> (r: Result<CallPrelude, InstructionResult>)
    ensures
        spec_id.number() < SpecId::BYZANTIUM.number() ==> r == Err::<CallPrelude, InstructionResult>(
            InstructionResult::NotActivated,
        ) && *final(ctx) == *old(ctx),
        spec_id.number() >= SpecId::BYZANTIUM.number() ==> {
            &&& r is Ok
            &&& r.unwrap().targets == call_targets_spec(pending(*old(ctx)), *frame, to, false, false)
            &&& r.unwrap().local_gas_limit == clamp_to_u64(local_gas_limit)
            &&& r.unwrap().halt is None
            &&& final(ctx).xcall_options is None
        },
{
    if !spec_id.is_enabled_in(SpecId::BYZANTIUM) {
        return Err(InstructionResult::NotActivated);
    }
    let targets = apply_xcall_options(ctx, frame, to, false, false);
    let gl = local_gas_limit_u64(local_gas_limit);
    Ok(CallPrelude { targets, local_gas_limit: gl, halt: None })
}

/// The gas limit of the new frame: the call gas plus the stipend where value moves (a plain
/// call or call-code with nonzero value), saturating.
pub open spec fn frame_gas_limit(scheme: CallScheme, gas_limit: u64, value: U256) -> u64 {
    if (scheme == CallScheme::Call || scheme == CallScheme::CallCode) && value.value() != 0 {
        if gas_limit + call_stipend() <= u64::MAX { (gas_limit + call_stipend()) as u64 } else { u64::MAX }
    } else {
        gas_limit
    }
}

/// The value the new frame sees: moved for a plain call and call-code, the frame's own
/// value for a delegate call, zero for a static call.
pub open spec fn frame_value(scheme: CallScheme, value: U256, frame: CallFrameInfo) -> CallValue {
    match scheme {
        CallScheme::Call => CallValue::Transfer(value),
        CallScheme::CallCode => CallValue::Transfer(value),
        CallScheme::DelegateCall => CallValue::Apparent(frame.call_value),
        CallScheme::StaticCall => CallValue::Transfer(U256 { l0: 0, l1: 0, l2: 0, l3: 0 }),
    }
}

/// The end of a call instruction, once the memory ranges, the account and the call gas are
/// known: charges the call gas on the frame's gas (halting with `OutOfGas` where it does not
/// fit) and else opens the new frame. The chain's count of used gas overflowing 64 bits is out
/// of scope.
pub fn finish_call(
    scheme: CallScheme,
    frame: &CallFrameInfo,
    targets: &CallTargets,
    value: U256,
    call_gas: u64,
    input: (usize, usize),
    return_memory_offset: (usize, usize),
    gas: &mut Gas,
) -> (r: Result<CallInputs, InstructionResult>)
    requires
        record_cost_fits(old(gas)@, frame.chain_id, call_gas),
    ensures
        (final(gas)@, r is Ok) == record_cost_result(old(gas)@, frame.chain_id, call_gas),
        r is Err ==> r == Err::<CallInputs, InstructionResult>(InstructionResult::OutOfGas),
        r matches Ok(c) ==> {
            &&& c.gas_limit == frame_gas_limit(scheme, call_gas, value)
            &&& c.target_address == targets.target_address
            &&& c.caller == targets.caller
            &&& c.bytecode_address == targets.bytecode_address
            &&& c.value == frame_value(scheme, value, *frame)
            &&& c.scheme == scheme
            &&& c.is_static == (scheme == CallScheme::StaticCall || frame.is_static)
            &&& !c.is_eof
            &&& c.input == input
            &&& c.return_memory_offset == return_memory_offset
        },
{
    if !gas.record_cost(frame.chain_id, call_gas) {
        return Err(InstructionResult::OutOfGas);
    }
    let moves_value = match scheme {
        CallScheme::Call => true,
        CallScheme::CallCode => true,
        _ => false,
    };
    let gas_limit = if moves_value && !value.is_zero() {
        call_gas.saturating_add(2300)
    } else {
        call_gas
    };
    let v = match scheme {
        CallScheme::Call => CallValue::Transfer(value),
        CallScheme::CallCode => CallValue::Transfer(value),
        CallScheme::DelegateCall => CallValue::Apparent(frame.call_value),
        CallScheme::StaticCall => CallValue::Transfer(U256::zero()),
    };
    let is_static = match scheme {
        CallScheme::StaticCall => true,
        _ => frame.is_static,
    };
    Ok(
        CallInputs {
            input,
            gas_limit,
            target_address: targets.target_address,
            caller: targets.caller,
            bytecode_address: targets.bytecode_address,
            value: v,
            scheme,
            is_static,
            is_eof: false,
            return_memory_offset,
        },
    )
}

/// Options apply to exactly one call: after any call instruction none are pending, so the
/// next call without new options stays on the current chain with the running frame as sender.
pub proof fn lemma_options_apply_once(frame: CallFrameInfo, to: ChainAddress, delegate: bool, code: bool)
    ensures
        call_targets_spec(None, frame, to, delegate, code).bytecode_address.0 == frame.chain_id,
        !delegate && !code ==> call_targets_spec(None, frame, to, delegate, code).target_address == ChainAddress(frame.chain_id, to.1),
        !delegate ==> call_targets_spec(None, frame, to, delegate, code).caller == frame.target_address,
{
}

/// A delegate call never moves the storage or the caller off the running frame: its
/// storage is the sender's and its caller the frame's own caller, and without options the
/// sender is the frame itself.
pub proof fn lemma_delegate_keeps_context(options: Option<(u64, ChainAddress)>, frame: CallFrameInfo, to: ChainAddress)
    ensures
        call_targets_spec(options, frame, to, true, false).caller == frame.caller_address,
        options is None ==> call_targets_spec(options, frame, to, true, false).target_address == frame.target_address,
        call_targets_spec(options, frame, to, true, false).bytecode_address.1 == to.1,
{
}

/// With options pending, every call but a delegate call goes to the chain of the options: the
/// code run is that of `to` there, the caller seen is the sender the options name, and the
/// storage changed is that of `to` there for a call or static call and the sender's for a
/// call-code. A delegate call runs the code of `to` on the chain of the options too, with the
/// sender's storage.
pub proof fn lemma_options_redirect_calls(
    opt_chain: u64,
    sender: ChainAddress,
    frame: CallFrameInfo,
    to: ChainAddress,
    delegate: bool,
    code: bool,
)
    ensures
        call_targets_spec(Some((opt_chain, sender)), frame, to, delegate, code).bytecode_address == ChainAddress(
            opt_chain,
            to.1,
        ),
        !delegate ==> call_targets_spec(Some((opt_chain, sender)), frame, to, delegate, code).caller == sender,
        !delegate && !code ==> call_targets_spec(Some((opt_chain, sender)), frame, to, delegate, code).target_address
            == ChainAddress(opt_chain, to.1),
        delegate || code ==> call_targets_spec(Some((opt_chain, sender)), frame, to, delegate, code).target_address == sender,
{
}

} // verus!
