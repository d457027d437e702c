//! The journal of state changes and the cross-chain calls recorded in it.
use crate::env::TxEnv;
use crate::primitives::U256;
use crate::state::ChainAddress;
use vstd::prelude::*;

verus! {

/// The input of a cross-chain call, as plain values.
pub struct XCallInputView {
    pub input: Seq<u8>,
    pub gas_limit: u64,
    pub bytecode_address: ChainAddress,
    pub target_address: ChainAddress,
    pub caller: ChainAddress,
    pub value: U256,
    pub is_static: bool,
    pub is_eof: bool,
}

/// The output of a cross-chain call, as plain values.
pub struct XCallOutputView {
    pub revert: bool,
    pub output: Seq<u8>,
    pub gas: u64,
}

/// A cross-chain call, as plain values.
pub struct XCallDataView {
    pub input: XCallInputView,
    pub output: XCallOutputView,
}

/// The input of a cross-chain call.
#[derive(Debug)]
pub struct XCallInput {
    /// The call data.
    pub input: Vec<u8>,
    /// The gas limit of the call.
    pub gas_limit: u64,
    /// The account whose code runs.
    pub bytecode_address: ChainAddress,
    /// The account whose storage the call may change.
    pub target_address: ChainAddress,
    /// The caller.
    pub caller: ChainAddress,
    /// The value of the call.
    pub value: U256,
    /// Whether the call is static.
    pub is_static: bool,
    /// Whether the call comes from EOF code.
    pub is_eof: bool,
}

/// The output of a cross-chain call.
#[derive(Debug)]
pub struct XCallOutput {
    /// Whether the call reverted.
    pub revert: bool,
    /// The returned data.
    pub output: Vec<u8>,
    /// The gas the call used.
    pub gas: u64,
}

/// A cross-chain call: its input and its output.
#[derive(Debug)]
pub struct XCallData {
    pub input: XCallInput,
    pub output: XCallOutput,
}

impl View for XCallInput {
    type V = XCallInputView;

    open spec fn view(&self) -> XCallInputView {
        XCallInputView {
            input: self.input@,
            gas_limit: self.gas_limit,
            bytecode_address: self.bytecode_address,
            target_address: self.target_address,
            caller: self.caller,
            value: self.value,
            is_static: self.is_static,
            is_eof: self.is_eof,
        }
    }
}

impl View for XCallOutput {
    type V = XCallOutputView;

    open spec fn view(&self) -> XCallOutputView {
        XCallOutputView { revert: self.revert, output: self.output@, gas: self.gas }
    }
}

impl View for XCallData {
    type V = XCallDataView;

    open spec fn view(&self) -> XCallDataView {
        XCallDataView { input: self.input@, output: self.output@ }
    }
}

impl Clone for XCallInput {
    fn clone(&self) -> (r: XCallInput)
        ensures
            r@ == self@,
    {
        XCallInput {
            input: self.input.clone(),
            gas_limit: self.gas_limit,
            bytecode_address: self.bytecode_address,
            target_address: self.target_address,
            caller: self.caller,
            value: self.value,
            is_static: self.is_static,
            is_eof: self.is_eof,
        }
    }
}

impl Clone for XCallOutput {
    fn clone(&self) -> (r: XCallOutput)
        ensures
            r@ == self@,
    {
        XCallOutput { revert: self.revert, output: self.output.clone(), gas: self.gas }
    }
}

impl Clone for XCallData {
    fn clone(&self) -> (r: XCallData)
        ensures
            r@ == self@,
    {
        XCallData { input: self.input.clone(), output: self.output.clone() }
    }
}

/// An entry of the journal: a change to the state, or a mark of the call structure.
#[derive(Debug)]
pub enum JournalEntry {
    /// An account was warmed (EIP-2929).
    AccountWarmed { address: ChainAddress },
    /// An account was destroyed and its balance moved to `target`.
    AccountDestroyed { address: ChainAddress, target: ChainAddress, was_destroyed: bool, had_balance: U256 },
    /// An account was touched.
    AccountTouched { address: ChainAddress },
    /// Balance moved between two accounts.
    BalanceTransfer { from: ChainAddress, to: ChainAddress, balance: U256 },
    /// A nonce was incremented.
    NonceChange { address: ChainAddress },
    /// An account was created.
    AccountCreated { address: ChainAddress },
    /// A storage slot changed from `had_value` to `new`.
    StorageChanged { address: ChainAddress, key: U256, new: U256, had_value: U256 },
    /// A storage slot was warmed.
    StorageWarmed { address: ChainAddress, key: U256 },
    /// A transient storage slot changed (EIP-1153).
    TransientStorageChange { address: ChainAddress, key: U256, had_value: U256 },
    /// The code of an account changed.
    CodeChange { address: ChainAddress },
    /// A call began.
    CallBegin { depth: usize, from_chain_id: u64, to_chain_id: u64, data: XCallData, delta: bool },
    /// A call ended.
    CallEnd { depth: usize },
    /// A transaction began.
    TxBegin { tx: TxEnv },
}

/// The journal of a run of transactions.
#[derive(Debug)]
pub struct StateChanges {
    /// The entries, oldest first.
    pub entries: Vec<JournalEntry>,
}

} // verus!
