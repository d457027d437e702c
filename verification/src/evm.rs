//! The EVM instance, and the decisions the transaction loop makes between the steps of
//! execution: whether the loop runs at all, which accounts get the account abstraction code,
//! where a transaction's first frame goes, and how the outcome of a call is written into its
//! journal entry.
use crate::bytecode::Bytecode;
use crate::env::{BlockEnv, CfgEnv, Env, TransactTo, TxEnv};
use crate::gas::{Gas, GasView};
use crate::journal::{JournalEntry, XCallData, XCallDataView, XCallInput, XCallInputView, XCallOutput, XCallOutputView};
use crate::assoc::keys_distinct;
use crate::journaled::{JournaledState, model_pairs, models};
use crate::db::State;
use crate::journaled::{AccountModel, journal_grows, lemma_loads_keeps, loads};
use crate::pre_execution::{
    PrecompileSpecId,
    access_list_loaded,
    access_list_present,
    applied_after_loading,
    apply_eip7702_auth_list,
    deduct_caller,
    deducted_model,
    load_accounts,
    load_precompiles,
    needed_accounts,
    needed_present,
    precompiles_of,
    preloaded_warm,
    upfront_cost,
};
use crate::primitives::{Address, U256};
use crate::specification::SpecId;
use crate::state::ChainAddress;
use crate::xcall::{CallInputs, CallValue, InstructionResult};
use std::collections::HashMap;
use vstd::prelude::*;

verus! {

broadcast use vstd::std_specs::hash::group_hash_axioms;

/// The deepest a call stack may grow.
pub const CALL_STACK_LIMIT: u64 = 1024;

/// The configuration of the handler: the hardfork it follows.
#[derive(Clone, Copy, Debug)]
pub struct HandlerCfg {
    pub spec_id: SpecId,
}

/// An environment together with the handler configuration.
#[derive(Debug)]
pub struct EnvWithHandlerCfg {
    pub env: Env,
    pub handler_cfg: HandlerCfg,
}

/// What an execution runs in: the environment, the database and the journal.
#[derive(Debug)]
pub struct Context<DB> {
    pub env: Env,
    pub db: DB,
    pub journaled_state: JournaledState,
}

/// A context together with the handler configuration.
#[derive(Debug)]
pub struct ContextWithHandlerCfg<DB> {
    pub context: Context<DB>,
    pub cfg: HandlerCfg,
}

/// An EVM instance: its context and the configuration of its handler.
#[derive(Debug)]
pub struct Evm<DB> {
    pub context: Context<DB>,
    pub handler_cfg: HandlerCfg,
}

/// An inspector that does nothing.
#[derive(Clone, Copy, Debug, Default, PartialEq, Eq, PartialOrd, Ord, Hash)]
pub struct NoOpInspector;

impl<DB> Evm<DB> {
    /// An EVM over the given context; the journal follows the handler's hardfork.
    pub fn new(context: Context<DB>, handler_cfg: HandlerCfg) -> (r: Evm<DB>)
        ensures
            r.handler_cfg == handler_cfg,
            r.context.env == context.env,
            r.context.db == context.db,
            r.context.journaled_state == (JournaledState { spec_id: handler_cfg.spec_id, ..context.journaled_state }),
    {
        let mut context = context;
        context.journaled_state.spec_id = handler_cfg.spec_id;
        Evm { context, handler_cfg }
    }

    /// The hardfork the EVM follows.
    pub fn spec_id(&self) -> (r: SpecId)
        ensures
            r == self.handler_cfg.spec_id,
    {
        self.handler_cfg.spec_id
    }

    /// The handler configuration.
    pub fn handler_cfg(&self) -> (r: &HandlerCfg)
        ensures
            *r == self.handler_cfg,
    {
        &self.handler_cfg
    }

    /// The configuration of the environment.
    pub fn cfg(&self) -> (r: &CfgEnv)
        ensures
            *r == self.context.env.cfg,
    {
        &self.context.env.cfg
    }

    /// The configuration of the environment, to change.
    pub fn cfg_mut(&mut self) -> (r: &mut CfgEnv)
        ensures
            *r == old(self).context.env.cfg,
            final(self).handler_cfg == old(self).handler_cfg,
            final(self).context.db == old(self).context.db,
            final(self).context.journaled_state == old(self).context.journaled_state,
            final(self).context.env.block == old(self).context.env.block,
            final(self).context.env.tx == old(self).context.env.tx,
            final(self).context.env.cfg == *final(r),
    {
        &mut self.context.env.cfg
    }

    /// The transaction.
    pub fn tx(&self) -> (r: &TxEnv)
        ensures
            *r == self.context.env.tx,
    {
        &self.context.env.tx
    }

    /// The transaction, to change.
    pub fn tx_mut(&mut self) -> (r: &mut TxEnv)
        ensures
            *r == old(self).context.env.tx,
            final(self).handler_cfg == old(self).handler_cfg,
            final(self).context.db == old(self).context.db,
            final(self).context.journaled_state == old(self).context.journaled_state,
            final(self).context.env.block == old(self).context.env.block,
            final(self).context.env.cfg == old(self).context.env.cfg,
            final(self).context.env.tx == *final(r),
    {
        &mut self.context.env.tx
    }

    /// The database.
    pub fn db(&self) -> (r: &DB)
        ensures
            *r == self.context.db,
    {
        &self.context.db
    }

    /// The database, to change.
    pub fn db_mut(&mut self) -> (r: &mut DB)
        ensures
            *r == old(self).context.db,
            final(self).handler_cfg == old(self).handler_cfg,
            final(self).context.env == old(self).context.env,
            final(self).context.journaled_state == old(self).context.journaled_state,
            final(self).context.db == *final(r),
    {
        &mut self.context.db
    }

    /// The block.
    pub fn block(&self) -> (r: &BlockEnv)
        ensures
            *r == self.context.env.block,
    {
        &self.context.env.block
    }

    /// The block, to change.
    pub fn block_mut(&mut self) -> (r: &mut BlockEnv)
        ensures
            *r == old(self).context.env.block,
            final(self).handler_cfg == old(self).handler_cfg,
            final(self).context.db == old(self).context.db,
            final(self).context.journaled_state == old(self).context.journaled_state,
            final(self).context.env.tx == old(self).context.env.tx,
            final(self).context.env.cfg == old(self).context.env.cfg,
            final(self).context.env.block == *final(r),
    {
        &mut self.context.env.block
    }

    /// Switches the EVM to another hardfork.
    pub fn modify_spec_id(&mut self, spec_id: SpecId)
        ensures
            final(self).handler_cfg.spec_id == spec_id,
            final(self).context == old(self).context,
    {
        self.handler_cfg.spec_id = spec_id;
    }

    /// The context, giving up the EVM.
    pub fn into_context(self) -> (r: Context<DB>)
        ensures
            r == self.context,
    {
        self.context
    }

    /// The database and the environment with the handler configuration, giving up the EVM.
    pub fn into_db_and_env_with_handler_cfg(self) -> (r: (DB, EnvWithHandlerCfg))
        ensures
            r.0 == self.context.db,
            r.1.env == self.context.env,
            r.1.handler_cfg == self.handler_cfg,
    {
        (self.context.db, EnvWithHandlerCfg { env: self.context.env, handler_cfg: self.handler_cfg })
    }

    /// The context with the handler configuration, giving up the EVM.
    pub fn into_context_with_handler_cfg(self) -> (r: ContextWithHandlerCfg<DB>)
        ensures
            r.context == self.context,
            r.cfg == self.handler_cfg,
    {
        ContextWithHandlerCfg { context: self.context, cfg: self.handler_cfg }
    }
}

/// The bytes of the sender whose transactions install the account abstraction code.
pub open spec fn account_abstraction_sender() -> Seq<u8> {
    seq![0xe2u8, 0x55, 0x83, 0x09, 0x9b, 0xa1, 0x05, 0xd9, 0xec, 0x0a, 0x67, 0xf5, 0xae, 0x86, 0xd9, 0x0e, 0x50, 0x03, 0x64, 0x25]
}

/// The bytes of the contract that transactions of other senders do not reach while
/// cross-chain execution is off.
pub open spec fn shortcut_target() -> Seq<u8> {
    seq![0x9fu8, 0xcf, 0x7d, 0x13, 0xd1, 0x0d, 0xed, 0xf1, 0x7d, 0x0f, 0x24, 0xc6, 0x2f, 0x0c, 0xf4, 0xed, 0x46, 0x2f, 0x65, 0xb7]
}

/// The sender whose transactions install the account abstraction code.
pub fn account_abstraction_sender_address() -> (r: Address)
    ensures
        r.0@ == account_abstraction_sender(),
{
    let a: [u8; 20] = [0xe2, 0x55, 0x83, 0x09, 0x9b, 0xa1, 0x05, 0xd9, 0xec, 0x0a, 0x67, 0xf5, 0xae, 0x86, 0xd9, 0x0e, 0x50, 0x03, 0x64, 0x25];
    assert(a@ == account_abstraction_sender());
    Address(a)
}

/// The contract that transactions of other senders do not reach while cross-chain execution
/// is off.
pub fn shortcut_target_address() -> (r: Address)
    ensures
        r.0@ == shortcut_target(),
{
    let a: [u8; 20] = [0x9f, 0xcf, 0x7d, 0x13, 0xd1, 0x0d, 0xed, 0xf1, 0x7d, 0x0f, 0x24, 0xc6, 0x2f, 0x0c, 0xf4, 0xed, 0x46, 0x2f, 0x65, 0xb7];
    assert(a@ == shortcut_target());
    Address(a)
}

/// Whether the loop skips a transaction: while cross-chain execution is off, a call of any
/// sender but the account abstraction sender to the shortcut target.
pub open spec fn skips_loop(cfg: CfgEnv, tx: TxEnv) -> bool {
    !cfg.xchain && tx.caller.1.0@ != account_abstraction_sender() && tx.transact_to is Call
        && tx.transact_to->Call_0.1.0@ == shortcut_target()
}

/// The addresses that get the account abstraction code: for the account abstraction sender
/// while cross-chain execution is off, each address of the access list on the sender's chain.
pub open spec fn install_targets(cfg: CfgEnv, tx: TxEnv, install_code_at: Seq<ChainAddress>) -> bool {
    if !cfg.xchain && tx.caller.1.0@ == account_abstraction_sender() {
        install_code_at.len() == tx.access_list@.len()
        && forall|i: int| 0 <= i < tx.access_list@.len()
            ==> #[trigger] install_code_at[i] == ChainAddress(tx.caller.0, tx.access_list@[i].address)
    } else {
        install_code_at.len() == 0
    }
}

/// How the transaction loop starts.
#[derive(Debug)]
pub enum LoopStart {
    /// The loop does not run: the transaction ends as a successful call with no output and
    /// no gas.
    Skip,
    /// The loop runs, after the account abstraction code is installed at each address given.
    Run { install_code_at: Vec<ChainAddress> },
}

/// How the loop starts for a transaction: while cross-chain execution is off, a call of any
/// sender but the account abstraction sender to the shortcut target is skipped; a transaction
/// of the account abstraction sender installs the code at each address of its access list, on
/// the sender's chain.
pub fn loop_start(cfg: &CfgEnv, tx: &TxEnv) -> (r: LoopStart)
    ensures
        skips_loop(*cfg, *tx) <==> r is Skip,
        r matches LoopStart::Run { install_code_at } ==> install_targets(*cfg, *tx, install_code_at@),
{
    let sender = account_abstraction_sender_address();
    let is_sender = tx.caller.1 == sender;
    proof {
        if tx.caller.1.0@ == sender.0@ {
            assert forall|i: int| 0 <= i < 20 implies tx.caller.1.0[i] == sender.0[i] by {
                assert(tx.caller.1.0@[i] == sender.0@[i]);
            }
            assert(tx.caller.1.0 =~= sender.0);
        }
    }
    if !cfg.xchain && !is_sender {
        match tx.transact_to {
            TransactTo::Call(to) => {
                let target = shortcut_target_address();
                proof {
                    if to.1.0@ == target.0@ {
                        assert forall|i: int| 0 <= i < 20 implies to.1.0[i] == target.0[i] by {
                            assert(to.1.0@[i] == target.0@[i]);
                        }
                        assert(to.1.0 =~= target.0);
                    }
                }
                if to.1 == target {
                    return LoopStart::Skip;
                }
            },
            TransactTo::Create => {},
        }
    }
    let mut install_code_at: Vec<ChainAddress> = Vec::new();
    if !cfg.xchain && is_sender {
        let mut i: usize = 0;
        while i < tx.access_list.len()
            invariant
                0 <= i <= tx.access_list@.len(),
                install_code_at@.len() == i,
                forall|j: int| 0 <= j < i ==> #[trigger] install_code_at@[j] == ChainAddress(tx.caller.0, tx.access_list@[j].address),
            decreases tx.access_list@.len() - i,
        {
            install_code_at.push(ChainAddress(tx.caller.0, tx.access_list[i].address));
            i += 1;
        }
    }
    LoopStart::Run { install_code_at }
}

/// The account abstraction code.
pub open spec fn account_abstraction_code_array() -> [u8; 788] {
    [
        0x60u8, 0x40, 0x60, 0x80, 0x81, 0x52, 0x60, 0x04, 0x80, 0x36, 0x10, 0x15, 0x61, 0x00, 0x1e, 0x57,
        0x5b, 0x50, 0x50, 0x36, 0x15, 0x61, 0x00, 0x1c, 0x57, 0x5f, 0x80, 0xfd, 0x5b, 0x00, 0x5b, 0x5f,
        0x35, 0x60, 0xe0, 0x1c, 0x63, 0xa6, 0xd0, 0xad, 0x61, 0x03, 0x61, 0x00, 0x10, 0x57, 0x60, 0x20,
        0x91, 0x82, 0x60, 0x03, 0x19, 0x36, 0x01, 0x12, 0x61, 0x02, 0x22, 0x57, 0x81, 0x35, 0x91, 0x67,
        0xff, 0xff, 0xff, 0xff, 0xff, 0xff, 0xff, 0xff, 0x91, 0x82, 0x84, 0x11, 0x61, 0x02, 0x22, 0x57,
        0x36, 0x60, 0x23, 0x85, 0x01, 0x12, 0x15, 0x61, 0x02, 0x22, 0x57, 0x83, 0x82, 0x01, 0x35, 0x93,
        0x60, 0x24, 0x93, 0x80, 0x86, 0x11, 0x61, 0x02, 0x38, 0x57, 0x85, 0x60, 0x05, 0x1b, 0x85, 0x88,
        0x61, 0x00, 0x7a, 0x81, 0x84, 0x01, 0x61, 0x02, 0x4a, 0x56, 0x5b, 0x80, 0x99, 0x81, 0x52, 0x01,
        0x91, 0x84, 0x01, 0x01, 0x92, 0x36, 0x84, 0x11, 0x61, 0x02, 0x22, 0x57, 0x86, 0x81, 0x01, 0x91,
        0x5b, 0x84, 0x83, 0x10, 0x61, 0x01, 0x79, 0x57, 0x50, 0x50, 0x50, 0x50, 0x50, 0x5f, 0x5b, 0x84,
        0x51, 0x81, 0x10, 0x15, 0x61, 0x00, 0x1c, 0x57, 0x85, 0x81, 0x60, 0x05, 0x1b, 0x86, 0x01, 0x01,
        0x51, 0x86, 0x81, 0x01, 0x90, 0x60, 0x01, 0x80, 0x60, 0xa0, 0x1b, 0x03, 0x80, 0x83, 0x51, 0x16,
        0x92, 0x5f, 0x80, 0x8b, 0x88, 0x86, 0x01, 0x96, 0x87, 0x51, 0x87, 0x51, 0x92, 0x83, 0x51, 0x93,
        0x01, 0x91, 0x5a, 0xf1, 0x3d, 0x15, 0x61, 0x01, 0x71, 0x57, 0x3d, 0x90, 0x61, 0x00, 0xec, 0x61,
        0x00, 0xe7, 0x83, 0x61, 0x02, 0x84, 0x56, 0x5b, 0x61, 0x02, 0x4a, 0x56, 0x5b, 0x91, 0x82, 0x52,
        0x3d, 0x5f, 0x8d, 0x84, 0x01, 0x3e, 0x5b, 0x15, 0x61, 0x01, 0x4c, 0x57, 0x50, 0x91, 0x7f, 0xca,
        0xf9, 0x38, 0xde, 0x11, 0xc3, 0x67, 0x27, 0x22, 0x20, 0xbf, 0xd1, 0xd2, 0xba, 0xa9, 0x9c, 0xa4,
        0x66, 0x65, 0xe7, 0xbc, 0x4d, 0x85, 0xf0, 0x0a, 0xdb, 0x51, 0xb9, 0x0f, 0xe1, 0xfa, 0x9f, 0x91,
        0x60, 0x01, 0x95, 0x94, 0x93, 0x51, 0x16, 0x92, 0x51, 0x90, 0x51, 0x90, 0x61, 0x01, 0x43, 0x87,
        0x51, 0x92, 0x83, 0x92, 0x83, 0x52, 0x88, 0x8d, 0x84, 0x01, 0x52, 0x88, 0x83, 0x01, 0x90, 0x61,
        0x02, 0xa0, 0x56, 0x5b, 0x03, 0x90, 0xa2, 0x01, 0x61, 0x00, 0x9e, 0x56, 0x5b, 0x86, 0x51, 0x62,
        0x46, 0x1b, 0xcd, 0x60, 0xe5, 0x1b, 0x81, 0x52, 0x80, 0x89, 0x01, 0x8c, 0x90, 0x52, 0x90, 0x81,
        0x90, 0x61, 0x01, 0x6d, 0x90, 0x82, 0x8c, 0x01, 0x90, 0x61, 0x02, 0xa0, 0x56, 0x5b, 0x03, 0x90,
        0xfd, 0x5b, 0x60, 0x60, 0x90, 0x61, 0x00, 0xf6, 0x56, 0x5b, 0x82, 0x35, 0x84, 0x81, 0x11, 0x61,
        0x02, 0x22, 0x57, 0x82, 0x01, 0x60, 0x60, 0x91, 0x82, 0x60, 0x23, 0x19, 0x83, 0x36, 0x03, 0x01,
        0x12, 0x61, 0x02, 0x22, 0x57, 0x87, 0x51, 0x92, 0x83, 0x01, 0x83, 0x81, 0x10, 0x87, 0x82, 0x11,
        0x17, 0x61, 0x02, 0x26, 0x57, 0x88, 0x52, 0x89, 0x82, 0x01, 0x35, 0x86, 0x81, 0x11, 0x61, 0x02,
        0x22, 0x57, 0x82, 0x01, 0x36, 0x60, 0x43, 0x82, 0x01, 0x12, 0x15, 0x61, 0x02, 0x22, 0x57, 0x60,
        0x44, 0x90, 0x80, 0x8c, 0x01, 0x35, 0x61, 0x01, 0xd1, 0x61, 0x00, 0xe7, 0x82, 0x61, 0x02, 0x84,
        0x56, 0x5b, 0x91, 0x81, 0x83, 0x52, 0x36, 0x84, 0x83, 0x83, 0x01, 0x01, 0x11, 0x61, 0x02, 0x22,
        0x57, 0x8f, 0x90, 0x91, 0x80, 0x85, 0x5f, 0x94, 0x01, 0x83, 0x86, 0x01, 0x37, 0x83, 0x01, 0x01,
        0x52, 0x84, 0x52, 0x82, 0x01, 0x35, 0x92, 0x60, 0x01, 0x60, 0x01, 0x60, 0xa0, 0x1b, 0x03, 0x84,
        0x16, 0x84, 0x03, 0x61, 0x02, 0x22, 0x57, 0x60, 0x64, 0x8d, 0x94, 0x93, 0x85, 0x94, 0x85, 0x84,
        0x01, 0x52, 0x01, 0x35, 0x89, 0x82, 0x01, 0x52, 0x81, 0x52, 0x01, 0x92, 0x01, 0x91, 0x61, 0x00,
        0x90, 0x56, 0x5b, 0x5f, 0x80, 0xfd, 0x5b, 0x8a, 0x60, 0x41, 0x8b, 0x63, 0x4e, 0x48, 0x7b, 0x71,
        0x60, 0xe0, 0x1b, 0x5f, 0x52, 0x52, 0x5f, 0xfd, 0x5b, 0x84, 0x60, 0x41, 0x85, 0x63, 0x4e, 0x48,
        0x7b, 0x71, 0x60, 0xe0, 0x1b, 0x5f, 0x52, 0x52, 0x5f, 0xfd, 0x5b, 0x60, 0x40, 0x51, 0x91, 0x90,
        0x60, 0x1f, 0x01, 0x60, 0x1f, 0x19, 0x16, 0x82, 0x01, 0x67, 0xff, 0xff, 0xff, 0xff, 0xff, 0xff,
        0xff, 0xff, 0x81, 0x11, 0x83, 0x82, 0x10, 0x17, 0x61, 0x02, 0x70, 0x57, 0x60, 0x40, 0x52, 0x56,
        0x5b, 0x63, 0x4e, 0x48, 0x7b, 0x71, 0x60, 0xe0, 0x1b, 0x5f, 0x52, 0x60, 0x41, 0x60, 0x04, 0x52,
        0x60, 0x24, 0x5f, 0xfd, 0x5b, 0x67, 0xff, 0xff, 0xff, 0xff, 0xff, 0xff, 0xff, 0xff, 0x81, 0x11,
        0x61, 0x02, 0x70, 0x57, 0x60, 0x1f, 0x01, 0x60, 0x1f, 0x19, 0x16, 0x60, 0x20, 0x01, 0x90, 0x56,
        0x5b, 0x91, 0x90, 0x82, 0x51, 0x92, 0x83, 0x82, 0x52, 0x5f, 0x5b, 0x84, 0x81, 0x10, 0x61, 0x02,
        0xca, 0x57, 0x50, 0x50, 0x82, 0x5f, 0x60, 0x20, 0x80, 0x94, 0x95, 0x84, 0x01, 0x01, 0x52, 0x60,
        0x1f, 0x80, 0x19, 0x91, 0x01, 0x16, 0x01, 0x01, 0x90, 0x56, 0x5b, 0x60, 0x20, 0x81, 0x83, 0x01,
        0x81, 0x01, 0x51, 0x84, 0x83, 0x01, 0x82, 0x01, 0x52, 0x01, 0x61, 0x02, 0xaa, 0x56, 0xfe, 0xa2,
        0x64, 0x69, 0x70, 0x66, 0x73, 0x58, 0x22, 0x12, 0x20, 0x83, 0x8c, 0xbd, 0x59, 0x49, 0x84, 0x26,
        0xde, 0xfc, 0xa8, 0x7a, 0x85, 0x3e, 0x63, 0xf8, 0x60, 0x52, 0x9c, 0x6a, 0xc3, 0x5b, 0x1d, 0x64,
        0xc5, 0x1b, 0x8d, 0xb8, 0x9a, 0x8b, 0x39, 0x82, 0x7e, 0x64, 0x73, 0x6f, 0x6c, 0x63, 0x43, 0x00,
        0x08, 0x18, 0x00, 0x33,
    ]
}

/// The account abstraction code, as legacy code.
pub fn account_abstraction_code() -> (r: Bytecode)
    ensures
        r is Legacy,
        r.original_bytes() == account_abstraction_code_array()@,
{
    let a: [u8; 788] = [
        0x60, 0x40, 0x60, 0x80, 0x81, 0x52, 0x60, 0x04, 0x80, 0x36, 0x10, 0x15, 0x61, 0x00, 0x1e, 0x57,
        0x5b, 0x50, 0x50, 0x36, 0x15, 0x61, 0x00, 0x1c, 0x57, 0x5f, 0x80, 0xfd, 0x5b, 0x00, 0x5b, 0x5f,
        0x35, 0x60, 0xe0, 0x1c, 0x63, 0xa6, 0xd0, 0xad, 0x61, 0x03, 0x61, 0x00, 0x10, 0x57, 0x60, 0x20,
        0x91, 0x82, 0x60, 0x03, 0x19, 0x36, 0x01, 0x12, 0x61, 0x02, 0x22, 0x57, 0x81, 0x35, 0x91, 0x67,
        0xff, 0xff, 0xff, 0xff, 0xff, 0xff, 0xff, 0xff, 0x91, 0x82, 0x84, 0x11, 0x61, 0x02, 0x22, 0x57,
        0x36, 0x60, 0x23, 0x85, 0x01, 0x12, 0x15, 0x61, 0x02, 0x22, 0x57, 0x83, 0x82, 0x01, 0x35, 0x93,
        0x60, 0x24, 0x93, 0x80, 0x86, 0x11, 0x61, 0x02, 0x38, 0x57, 0x85, 0x60, 0x05, 0x1b, 0x85, 0x88,
        0x61, 0x00, 0x7a, 0x81, 0x84, 0x01, 0x61, 0x02, 0x4a, 0x56, 0x5b, 0x80, 0x99, 0x81, 0x52, 0x01,
        0x91, 0x84, 0x01, 0x01, 0x92, 0x36, 0x84, 0x11, 0x61, 0x02, 0x22, 0x57, 0x86, 0x81, 0x01, 0x91,
        0x5b, 0x84, 0x83, 0x10, 0x61, 0x01, 0x79, 0x57, 0x50, 0x50, 0x50, 0x50, 0x50, 0x5f, 0x5b, 0x84,
        0x51, 0x81, 0x10, 0x15, 0x61, 0x00, 0x1c, 0x57, 0x85, 0x81, 0x60, 0x05, 0x1b, 0x86, 0x01, 0x01,
        0x51, 0x86, 0x81, 0x01, 0x90, 0x60, 0x01, 0x80, 0x60, 0xa0, 0x1b, 0x03, 0x80, 0x83, 0x51, 0x16,
        0x92, 0x5f, 0x80, 0x8b, 0x88, 0x86, 0x01, 0x96, 0x87, 0x51, 0x87, 0x51, 0x92, 0x83, 0x51, 0x93,
        0x01, 0x91, 0x5a, 0xf1, 0x3d, 0x15, 0x61, 0x01, 0x71, 0x57, 0x3d, 0x90, 0x61, 0x00, 0xec, 0x61,
        0x00, 0xe7, 0x83, 0x61, 0x02, 0x84, 0x56, 0x5b, 0x61, 0x02, 0x4a, 0x56, 0x5b, 0x91, 0x82, 0x52,
        0x3d, 0x5f, 0x8d, 0x84, 0x01, 0x3e, 0x5b, 0x15, 0x61, 0x01, 0x4c, 0x57, 0x50, 0x91, 0x7f, 0xca,
        0xf9, 0x38, 0xde, 0x11, 0xc3, 0x67, 0x27, 0x22, 0x20, 0xbf, 0xd1, 0xd2, 0xba, 0xa9, 0x9c, 0xa4,
        0x66, 0x65, 0xe7, 0xbc, 0x4d, 0x85, 0xf0, 0x0a, 0xdb, 0x51, 0xb9, 0x0f, 0xe1, 0xfa, 0x9f, 0x91,
        0x60, 0x01, 0x95, 0x94, 0x93, 0x51, 0x16, 0x92, 0x51, 0x90, 0x51, 0x90, 0x61, 0x01, 0x43, 0x87,
        0x51, 0x92, 0x83, 0x92, 0x83, 0x52, 0x88, 0x8d, 0x84, 0x01, 0x52, 0x88, 0x83, 0x01, 0x90, 0x61,
        0x02, 0xa0, 0x56, 0x5b, 0x03, 0x90, 0xa2, 0x01, 0x61, 0x00, 0x9e, 0x56, 0x5b, 0x86, 0x51, 0x62,
        0x46, 0x1b, 0xcd, 0x60, 0xe5, 0x1b, 0x81, 0x52, 0x80, 0x89, 0x01, 0x8c, 0x90, 0x52, 0x90, 0x81,
        0x90, 0x61, 0x01, 0x6d, 0x90, 0x82, 0x8c, 0x01, 0x90, 0x61, 0x02, 0xa0, 0x56, 0x5b, 0x03, 0x90,
        0xfd, 0x5b, 0x60, 0x60, 0x90, 0x61, 0x00, 0xf6, 0x56, 0x5b, 0x82, 0x35, 0x84, 0x81, 0x11, 0x61,
        0x02, 0x22, 0x57, 0x82, 0x01, 0x60, 0x60, 0x91, 0x82, 0x60, 0x23, 0x19, 0x83, 0x36, 0x03, 0x01,
        0x12, 0x61, 0x02, 0x22, 0x57, 0x87, 0x51, 0x92, 0x83, 0x01, 0x83, 0x81, 0x10, 0x87, 0x82, 0x11,
        0x17, 0x61, 0x02, 0x26, 0x57, 0x88, 0x52, 0x89, 0x82, 0x01, 0x35, 0x86, 0x81, 0x11, 0x61, 0x02,
        0x22, 0x57, 0x82, 0x01, 0x36, 0x60, 0x43, 0x82, 0x01, 0x12, 0x15, 0x61, 0x02, 0x22, 0x57, 0x60,
        0x44, 0x90, 0x80, 0x8c, 0x01, 0x35, 0x61, 0x01, 0xd1, 0x61, 0x00, 0xe7, 0x82, 0x61, 0x02, 0x84,
        0x56, 0x5b, 0x91, 0x81, 0x83, 0x52, 0x36, 0x84, 0x83, 0x83, 0x01, 0x01, 0x11, 0x61, 0x02, 0x22,
        0x57, 0x8f, 0x90, 0x91, 0x80, 0x85, 0x5f, 0x94, 0x01, 0x83, 0x86, 0x01, 0x37, 0x83, 0x01, 0x01,
        0x52, 0x84, 0x52, 0x82, 0x01, 0x35, 0x92, 0x60, 0x01, 0x60, 0x01, 0x60, 0xa0, 0x1b, 0x03, 0x84,
        0x16, 0x84, 0x03, 0x61, 0x02, 0x22, 0x57, 0x60, 0x64, 0x8d, 0x94, 0x93, 0x85, 0x94, 0x85, 0x84,
        0x01, 0x52, 0x01, 0x35, 0x89, 0x82, 0x01, 0x52, 0x81, 0x52, 0x01, 0x92, 0x01, 0x91, 0x61, 0x00,
        0x90, 0x56, 0x5b, 0x5f, 0x80, 0xfd, 0x5b, 0x8a, 0x60, 0x41, 0x8b, 0x63, 0x4e, 0x48, 0x7b, 0x71,
        0x60, 0xe0, 0x1b, 0x5f, 0x52, 0x52, 0x5f, 0xfd, 0x5b, 0x84, 0x60, 0x41, 0x85, 0x63, 0x4e, 0x48,
        0x7b, 0x71, 0x60, 0xe0, 0x1b, 0x5f, 0x52, 0x52, 0x5f, 0xfd, 0x5b, 0x60, 0x40, 0x51, 0x91, 0x90,
        0x60, 0x1f, 0x01, 0x60, 0x1f, 0x19, 0x16, 0x82, 0x01, 0x67, 0xff, 0xff, 0xff, 0xff, 0xff, 0xff,
        0xff, 0xff, 0x81, 0x11, 0x83, 0x82, 0x10, 0x17, 0x61, 0x02, 0x70, 0x57, 0x60, 0x40, 0x52, 0x56,
        0x5b, 0x63, 0x4e, 0x48, 0x7b, 0x71, 0x60, 0xe0, 0x1b, 0x5f, 0x52, 0x60, 0x41, 0x60, 0x04, 0x52,
        0x60, 0x24, 0x5f, 0xfd, 0x5b, 0x67, 0xff, 0xff, 0xff, 0xff, 0xff, 0xff, 0xff, 0xff, 0x81, 0x11,
        0x61, 0x02, 0x70, 0x57, 0x60, 0x1f, 0x01, 0x60, 0x1f, 0x19, 0x16, 0x60, 0x20, 0x01, 0x90, 0x56,
        0x5b, 0x91, 0x90, 0x82, 0x51, 0x92, 0x83, 0x82, 0x52, 0x5f, 0x5b, 0x84, 0x81, 0x10, 0x61, 0x02,
        0xca, 0x57, 0x50, 0x50, 0x82, 0x5f, 0x60, 0x20, 0x80, 0x94, 0x95, 0x84, 0x01, 0x01, 0x52, 0x60,
        0x1f, 0x80, 0x19, 0x91, 0x01, 0x16, 0x01, 0x01, 0x90, 0x56, 0x5b, 0x60, 0x20, 0x81, 0x83, 0x01,
        0x81, 0x01, 0x51, 0x84, 0x83, 0x01, 0x82, 0x01, 0x52, 0x01, 0x61, 0x02, 0xaa, 0x56, 0xfe, 0xa2,
        0x64, 0x69, 0x70, 0x66, 0x73, 0x58, 0x22, 0x12, 0x20, 0x83, 0x8c, 0xbd, 0x59, 0x49, 0x84, 0x26,
        0xde, 0xfc, 0xa8, 0x7a, 0x85, 0x3e, 0x63, 0xf8, 0x60, 0x52, 0x9c, 0x6a, 0xc3, 0x5b, 0x1d, 0x64,
        0xc5, 0x1b, 0x8d, 0xb8, 0x9a, 0x8b, 0x39, 0x82, 0x7e, 0x64, 0x73, 0x6f, 0x6c, 0x63, 0x43, 0x00,
        0x08, 0x18, 0x00, 0x33,
    ];
    assert(a == account_abstraction_code_array());
    let mut v: Vec<u8> = Vec::new();
    let mut i: usize = 0;
    while i < 788
        invariant
            0 <= i <= 788,
            v@ == a@.subrange(0, i as int),
        decreases 788 - i,
    {
        v.push(a[i]);
        i += 1;
    }
    assert(v@ == a@);
    Bytecode::new_legacy(v)
}

/// Opens the journal of a transaction with a `TxBegin` entry.
pub fn begin_transaction(journaled_state: &mut JournaledState, tx: TxEnv)
    ensures
        final(journaled_state).state_changes@ == old(journaled_state).state_changes@.push(JournalEntry::TxBegin { tx }),
        final(journaled_state).state == old(journaled_state).state,
        final(journaled_state).warm_preloaded_addresses == old(journaled_state).warm_preloaded_addresses,
        final(journaled_state).spec_id == old(journaled_state).spec_id,
{
    journaled_state.state_changes.push(JournalEntry::TxBegin { tx });
}

/// The value of a call, moved or only seen.
pub open spec fn call_value_of(v: CallValue) -> U256 {
    match v {
        CallValue::Transfer(x) => x,
        CallValue::Apparent(x) => x,
    }
}

/// The record of a call about to be made, with `input` as its call data: its output says it
/// reverted, returned nothing and used no gas, until the outcome is known.
pub fn xcall_data(inputs: &CallInputs, input: Vec<u8>) -> (r: XCallData)
    ensures
        r@.input.input == input@,
        r@.input.gas_limit == inputs.gas_limit,
        r@.input.bytecode_address == inputs.bytecode_address,
        r@.input.target_address == inputs.target_address,
        r@.input.caller == inputs.caller,
        r@.input.is_static == inputs.is_static,
        r@.input.is_eof == inputs.is_eof,
        r@.input.value == call_value_of(inputs.value),
        r@.output == (XCallOutputView { revert: true, output: Seq::empty(), gas: 0 }),
{
    let value = match inputs.value {
        CallValue::Transfer(x) => x,
        CallValue::Apparent(x) => x,
    };
    XCallData {
        input: XCallInput {
            input,
            gas_limit: inputs.gas_limit,
            bytecode_address: inputs.bytecode_address,
            target_address: inputs.target_address,
            caller: inputs.caller,
            value,
            is_static: inputs.is_static,
            is_eof: inputs.is_eof,
        },
        output: XCallOutput { revert: true, output: Vec::new(), gas: 0 },
    }
}

/// A `CallBegin` entry with the outcome of its call written in: the output, the gas used
/// and whether the call reverted; the rest of the entry stays. Any other entry stays as it is.
pub open spec fn outcome_written(before: JournalEntry, after: JournalEntry, output: Seq<u8>, gas_used: u64, revert: bool) -> bool {
    match before {
        JournalEntry::CallBegin { depth, from_chain_id, to_chain_id, data, delta } => {
            &&& after matches JournalEntry::CallBegin {
                depth: d,
                from_chain_id: f,
                to_chain_id: t,
                data: x,
                delta: dl,
            }
            &&& d == depth && f == from_chain_id && t == to_chain_id && dl == delta
            &&& x@.input == data@.input
            &&& x@.output == (XCallOutputView { revert, output, gas: gas_used })
        },
        _ => after == before,
    }
}

/// Writes the outcome of a call into its journal entry at `idx` (see [`outcome_written`]),
/// the gas used being the gas limit less the gas remaining, and closes the call with a
/// `CallEnd` entry at `depth`.
pub fn record_call_outcome(
    state_changes: &mut Vec<JournalEntry>,
    idx: usize,
    output: Vec<u8>,
    gas: &Gas,
    revert: bool,
    depth: usize,
)
    requires
        idx < old(state_changes)@.len(),
        gas@.remaining <= gas@.limit,
    ensures
        final(state_changes)@.len() == old(state_changes)@.len() + 1,
        outcome_written(
            old(state_changes)@[idx as int],
            final(state_changes)@[idx as int],
            output@,
            (gas@.limit - gas@.remaining) as u64,
            revert,
        ),
        forall|j: int| 0 <= j < old(state_changes)@.len() && j != idx ==> final(state_changes)@[j] == old(state_changes)@[j],
        final(state_changes)@[old(state_changes)@.len() as int] == (JournalEntry::CallEnd { depth }),
{
    let used = gas.limit() - gas.remaining();
    let entry = state_changes.remove(idx);
    let written = match entry {
        JournalEntry::CallBegin { depth: d, from_chain_id, to_chain_id, data, delta } => {
            let XCallData { input, output: _ } = data;
            JournalEntry::CallBegin {
                depth: d,
                from_chain_id,
                to_chain_id,
                data: XCallData { input, output: XCallOutput { revert, output, gas: used } },
                delta,
            }
        },
        other => other,
    };
    state_changes.insert(idx, written);
    state_changes.push(JournalEntry::CallEnd { depth });
}

/// Notes that the call whose journal entry is at `idx` opened the frame at `stack_len`.
pub fn remember_pending_call(pending: &mut HashMap<u64, usize>, stack_len: usize, idx: usize)
    ensures
        final(pending)@ == old(pending)@.insert(stack_len as u64, idx),
{
    pending.insert(stack_len as u64, idx);
}

/// When a call returns to the frame at `depth`: where a call entry is pending at that depth,
/// writes the outcome into it and closes it (see [`record_call_outcome`]) and says so; else
/// nothing changes.
pub fn settle_returned_call(
    pending: &HashMap<u64, usize>,
    depth: u64,
    state_changes: &mut Vec<JournalEntry>,
    output: Vec<u8>,
    gas: &Gas,
    revert: bool,
) -> (r: bool)
    requires
        forall|k: u64| #[trigger] pending@.contains_key(k) ==> pending@[k] < old(state_changes)@.len(),
        gas@.remaining <= gas@.limit,
    ensures
        r == pending@.contains_key(depth),
        !r ==> final(state_changes)@ == old(state_changes)@,
        r ==> {
            let idx = pending@[depth] as int;
            &&& final(state_changes)@.len() == old(state_changes)@.len() + 1
            &&& outcome_written(
                old(state_changes)@[idx],
                final(state_changes)@[idx],
                output@,
                (gas@.limit - gas@.remaining) as u64,
                revert,
            )
            &&& forall|j: int| 0 <= j < old(state_changes)@.len() && j != idx ==> final(state_changes)@[j] == old(state_changes)@[j]
            &&& final(state_changes)@[old(state_changes)@.len() as int] == (JournalEntry::CallEnd { depth: depth as usize })
        },
{
    match pending.get(&depth) {
        Some(idx) => {
            let idx: usize = *idx;
            record_call_outcome(state_changes, idx, output, gas, revert, depth as usize);
            true
        },
        None => false,
    }
}

/// Where the first frame of a transaction goes.
#[derive(Clone, Copy, Debug, PartialEq, Eq, Structural)]
pub enum FirstFrame {
    /// A call.
    Call,
    /// The creation of a contract from legacy init code.
    Create,
    /// The creation of a contract from EOF init code.
    EOFCreate,
}

/// Whether data starts with the EOF magic bytes `0xEF 0x00`.
pub open spec fn starts_with_eof_magic(data: Seq<u8>) -> bool {
    data.len() >= 2 && data[0] == 0xEFu8 && data[1] == 0x00u8
}

/// Where the first frame of a transaction goes: a call for a call; for a creation, EOF
/// creation when EOF is active (Prague EOF on) and the data starts with the EOF magic, else
/// legacy creation.
pub fn first_frame(spec_id: SpecId, tx: &TxEnv) -> (r: FirstFrame)
    ensures
        r == match tx.transact_to {
            TransactTo::Call(_) => FirstFrame::Call,
            TransactTo::Create => if spec_id.number() >= SpecId::PRAGUE_EOF.number() && starts_with_eof_magic(tx.data@) {
                FirstFrame::EOFCreate
            } else {
                FirstFrame::Create
            },
        },
{
    match tx.transact_to {
        TransactTo::Call(_) => FirstFrame::Call,
        TransactTo::Create => {
            if spec_id.is_enabled_in(SpecId::PRAGUE_EOF) && tx.data.len() >= 2 && tx.data[0] == 0xEF && tx.data[1] == 0x00 {
                FirstFrame::EOFCreate
            } else {
                FirstFrame::Create
            }
        },
    }
}

/// The chains whose precompiles are loaded: those the transaction names, else the caller's.
pub fn precompile_chain_ids(tx: &TxEnv) -> (r: Vec<u64>)
    ensures
        r@ == match tx.chain_ids {
            Some(ids) => ids@,
            None => seq![tx.caller.0],
        },
{
    match &tx.chain_ids {
        Some(ids) => {
            let mut r: Vec<u64> = Vec::new();
            let mut i: usize = 0;
            while i < ids.len()
                invariant
                    0 <= i <= ids@.len(),
                    r@ == ids@.subrange(0, i as int),
                decreases ids@.len() - i,
            {
                r.push(ids[i]);
                i += 1;
            }
            assert(r@ == ids@);
            r
        },
        None => {
            let mut r: Vec<u64> = Vec::new();
            r.push(tx.caller.0);
            r
        },
    }
}

/// The gas the first frame gets: the transaction's gas limit less the initial gas, which
/// validation has checked fits.
pub fn execution_gas_limit(tx: &TxEnv, initial_gas_spend: u64) -> (r: u64)
    requires
        initial_gas_spend <= tx.gas_limit,
    ensures
        r == tx.gas_limit - initial_gas_spend,
{
    tx.gas_limit - initial_gas_spend
}

/// What a transaction's first frame starts with, once the steps before execution are done.
#[derive(Debug)]
pub struct PreparedTransaction {
    /// The chains whose precompiles are loaded.
    pub precompile_chains: Vec<u64>,
    /// The precompiles loaded on each of them.
    pub precompiles: PrecompileSpecId,
    /// The gas the first frame gets.
    pub gas_limit: u64,
    /// The gas refunded for authorities that already existed (EIP-7702).
    pub eip7702_refund: u64,
    /// Where the first frame goes.
    pub first_frame: FirstFrame,
}

/// The step before execution at which the database failed, with its error. The steps after
/// it did not run.
#[derive(Debug)]
pub enum PrepareError<E> {
    /// Loading the accounts and storage slots of the access list.
    LoadAccounts(E),
    /// Loading the caller to charge it.
    DeductCaller(E),
    /// Loading an account of the authorization list.
    ApplyAuthList(E),
}

impl<DB: State> Evm<DB> {
    /// The steps of a pre-verified transaction before its first frame: the journal follows
    /// the EVM's hardfork, warms its preloaded addresses and loads the access list on the
    /// caller's chain (see [`load_accounts`]), the precompiles of the hardfork are picked for
    /// the transaction's chains, the caller is loaded and charged for gas (blob fee from Cancun
    /// on, see [`deduct_caller`]), the first frame gets the gas limit less
    /// `initial_gas_spend`, and the authorization list applies from Prague on (see
    /// [`apply_eip7702_auth_list`]). Accounts the journal lacks come from the database; an
    /// error of the database is the answer, tagged with the step that met it, and no later
    /// step runs. Where the journal already holds the caller, the access list and every
    /// account the authorization list needs, no database call is made and the answer is `Ok`.
    pub fn prepare_transaction(
        &mut self,
        initial_gas_spend: u64,
        effective_gas_price: U256,
        data_fee: Option<U256>,
        blockhash_storage: Address,
    ) -> (r: Result<PreparedTransaction, PrepareError<DB::Error>>)
        requires
            keys_distinct(model_pairs(old(self).context.journaled_state.state@)),
            old(self).context.journaled_state.warm_preloaded_addresses@.no_duplicates(),
            initial_gas_spend <= old(self).context.env.tx.gas_limit,
            old(self).handler_cfg.spec_id.number() >= SpecId::CANCUN.number() ==> data_fee is Some,
            match old(self).context.env.tx.authorization_list {
                Some(l) => l@.len() * 22500 <= u64::MAX,
                None => true,
            },
        ensures
            final(self).handler_cfg == old(self).handler_cfg,
            final(self).context.env == old(self).context.env,
            final(self).context.journaled_state.state_changes == old(self).context.journaled_state.state_changes,
            final(self).context.journaled_state.spec_id == old(self).handler_cfg.spec_id,
            final(self).context.journaled_state.warm_preloaded_addresses@.to_set()
                == old(self).context.journaled_state.warm_preloaded_addresses@.to_set().union(
                preloaded_warm(
                    old(self).handler_cfg.spec_id,
                    old(self).context.env.block.coinbase,
                    old(self).context.env.tx.caller.0,
                    blockhash_storage,
                ),
            ),
            keys_distinct(model_pairs(final(self).context.journaled_state.state@)),
            ({
                let tx = old(self).context.env.tx;
                let s0 = models(old(self).context.journaled_state.state@);
                let ids = match tx.chain_ids {
                    Some(v) => v@,
                    None => Seq::empty(),
                };
                &&& s0.contains_key(tx.caller)
                &&& access_list_present(s0, tx.access_list@, tx.caller.0)
                &&& (old(self).handler_cfg.spec_id.number() >= SpecId::PRAGUE.number() && tx.authorization_list is Some
                    ==> needed_present(s0, tx.authorization_list.unwrap()@, ids))
            }) ==> r is Ok,
            r matches Err(PrepareError::LoadAccounts(_)) ==> ({
                let tx = old(self).context.env.tx;
                let s0 = models(old(self).context.journaled_state.state@);
                &&& !access_list_present(s0, tx.access_list@, tx.caller.0)
                &&& journal_grows(s0, models(final(self).context.journaled_state.state@))
            }),
            r matches Err(PrepareError::DeductCaller(_)) ==> ({
                let tx = old(self).context.env.tx;
                let s0 = models(old(self).context.journaled_state.state@);
                let sf = models(final(self).context.journaled_state.state@);
                &&& access_list_loaded(s0, sf, tx.access_list@, tx.caller.0)
                &&& !sf.contains_key(tx.caller)
            }),
            r matches Err(PrepareError::ApplyAuthList(_)) ==> ({
                let spec = old(self).handler_cfg.spec_id;
                let tx = old(self).context.env.tx;
                let c = tx.caller;
                let s0 = models(old(self).context.journaled_state.state@);
                let sf = models(final(self).context.journaled_state.state@);
                let cost = upfront_cost(tx.gas_limit, effective_gas_price, data_fee, spec.number() >= SpecId::CANCUN.number());
                let ids = match tx.chain_ids {
                    Some(v) => v@,
                    None => Seq::empty(),
                };
                &&& spec.number() >= SpecId::PRAGUE.number() && tx.authorization_list is Some
                &&& exists|m1: Map<ChainAddress, AccountModel>| #[trigger] access_list_loaded(s0, m1, tx.access_list@, c.0)
                    && exists|m2: Map<ChainAddress, AccountModel>| #[trigger] loads(m1, m2, c) && {
                    let s2 = m2.insert(c, deducted_model(m2[c], cost, tx.transact_to is Call));
                    &&& !needed_present(s2, tx.authorization_list.unwrap()@, ids)
                    &&& forall|k: ChainAddress| #[trigger] s2.contains_key(k) ==> sf.contains_key(k) && sf[k] == s2[k]
                }
            }),
            r is Ok ==> ({
                let spec = old(self).handler_cfg.spec_id;
                let tx = old(self).context.env.tx;
                let c = tx.caller;
                let s0 = models(old(self).context.journaled_state.state@);
                let sf = models(final(self).context.journaled_state.state@);
                let cost = upfront_cost(tx.gas_limit, effective_gas_price, data_fee, spec.number() >= SpecId::CANCUN.number());
                let ids = match tx.chain_ids {
                    Some(v) => v@,
                    None => Seq::empty(),
                };
                let applies = spec.number() >= SpecId::PRAGUE.number() && tx.authorization_list is Some;
                exists|m1: Map<ChainAddress, AccountModel>| #[trigger] access_list_loaded(s0, m1, tx.access_list@, c.0)
                    && exists|m2: Map<ChainAddress, AccountModel>| #[trigger] loads(m1, m2, c) && {
                    let s2 = m2.insert(c, deducted_model(m2[c], cost, tx.transact_to is Call));
                    if !applies {
                        sf == s2 && r->Ok_0.eip7702_refund == 0
                    } else {
                        applied_after_loading(s2, sf, tx.authorization_list.unwrap()@, ids, r->Ok_0.eip7702_refund as nat)
                    }
                }
            }),
            r matches Ok(p) ==> {
                &&& p.gas_limit == old(self).context.env.tx.gas_limit - initial_gas_spend
                &&& p.precompiles == precompiles_of(old(self).handler_cfg.spec_id)
                &&& p.precompile_chains@ == match old(self).context.env.tx.chain_ids {
                    Some(ids) => ids@,
                    None => seq![old(self).context.env.tx.caller.0],
                }
                &&& p.first_frame == match old(self).context.env.tx.transact_to {
                    TransactTo::Call(_) => FirstFrame::Call,
                    TransactTo::Create => if old(self).handler_cfg.spec_id.number() >= SpecId::PRAGUE_EOF.number()
                        && starts_with_eof_magic(old(self).context.env.tx.data@) {
                        FirstFrame::EOFCreate
                    } else {
                        FirstFrame::Create
                    },
                }
            },
    {
        let spec_id = self.handler_cfg.spec_id;
        let chain_id = self.context.env.tx.caller.0;
        let ghost s0 = models(self.context.journaled_state.state@);
        match load_accounts(&mut self.context.journaled_state, &mut self.context.db, &self.context.env, spec_id, chain_id, blockhash_storage) {
            Ok(()) => {},
            Err(e) => {
                return Err(PrepareError::LoadAccounts(e));
            },
        }
        let ghost m1 = models(self.context.journaled_state.state@);
        let precompile_chains = precompile_chain_ids(&self.context.env.tx);
        let precompiles = load_precompiles(spec_id);
        let cancun = spec_id.is_enabled_in(SpecId::CANCUN);
        match deduct_caller(&mut self.context.journaled_state.state, &mut self.context.db, &self.context.env, effective_gas_price, data_fee, cancun) {
            Ok(()) => {},
            Err(e) => {
                return Err(PrepareError::DeductCaller(e));
            },
        }
        let ghost s2 = models(self.context.journaled_state.state@);
        proof {
            let tx = self.context.env.tx;
            let c = tx.caller;
            let cost = upfront_cost(tx.gas_limit, effective_gas_price, data_fee, cancun);
            let m2 = choose|m: Map<ChainAddress, AccountModel>|
                #[trigger] loads(m1, m, c) && s2 == m.insert(c, deducted_model(m[c], cost, tx.transact_to is Call));
            lemma_loads_keeps(m1, m2, c);
            let ids = match tx.chain_ids {
                Some(v) => v@,
                None => Seq::<u64>::empty(),
            };
            if s0.contains_key(c) && access_list_present(s0, tx.access_list@, c.0) && spec_id.number()
                >= SpecId::PRAGUE.number() && tx.authorization_list is Some && needed_present(
                s0,
                tx.authorization_list.unwrap()@,
                ids,
            ) {
                let l = tx.authorization_list.unwrap()@;
                assert forall|i: int| 0 <= i < needed_accounts(l, ids).len() implies s2.contains_key(
                    #[trigger] needed_accounts(l, ids)[i],
                ) by {
                    assert(s0.contains_key(needed_accounts(l, ids)[i]));
                }
                assert(needed_present(s2, l, ids));
            }
        }
        let gas_limit = execution_gas_limit(&self.context.env.tx, initial_gas_spend);
        let prague = spec_id.is_enabled_in(SpecId::PRAGUE);
        let eip7702_refund = match apply_eip7702_auth_list(prague, &self.context.env, &mut self.context.journaled_state.state, &mut self.context.db) {
            Ok(n) => n,
            Err(e) => {
                proof {
                    let tx = self.context.env.tx;
                    let c = tx.caller;
                    let cost = upfront_cost(tx.gas_limit, effective_gas_price, data_fee, cancun);
                    let m2 = choose|m: Map<ChainAddress, AccountModel>|
                        #[trigger] loads(m1, m, c) && s2 == m.insert(c, deducted_model(m[c], cost, tx.transact_to is Call));
                    assert(access_list_loaded(s0, m1, tx.access_list@, c.0));
                    assert(loads(m1, m2, c));
                }
                return Err(PrepareError::ApplyAuthList(e));
            },
        };
        let first_frame = first_frame(spec_id, &self.context.env.tx);
        let r = PreparedTransaction { precompile_chains, precompiles, gas_limit, eip7702_refund, first_frame };
        proof {
            let tx = self.context.env.tx;
            let c = tx.caller;
            let cost = upfront_cost(tx.gas_limit, effective_gas_price, data_fee, cancun);
            let m2 = choose|m: Map<ChainAddress, AccountModel>|
                #[trigger] loads(m1, m, c) && s2 == m.insert(c, deducted_model(m[c], cost, tx.transact_to is Call));
            assert(loads(m1, m2, c));
            assert(s2 == m2.insert(c, deducted_model(m2[c], cost, tx.transact_to is Call)));
            let ids = match tx.chain_ids {
                Some(v) => v@,
                None => Seq::<u64>::empty(),
            };
            let sf = models(self.context.journaled_state.state@);
            if spec_id.number() >= SpecId::PRAGUE.number() && tx.authorization_list is Some {
                assert(applied_after_loading(s2, sf, tx.authorization_list.unwrap()@, ids, eip7702_refund as nat));
            } else {
                assert(sf == s2);
            }
        }
        Ok(r)
    }
}

/// The record of a call about to be made with call data `input`: its inputs, and an output
/// that says it reverted, returned nothing and used no gas, until the outcome is known.
pub open spec fn xcall_view(inputs: CallInputs, input: Seq<u8>) -> XCallDataView {
    XCallDataView {
        input: XCallInputView {
            input,
            gas_limit: inputs.gas_limit,
            bytecode_address: inputs.bytecode_address,
            target_address: inputs.target_address,
            caller: inputs.caller,
            value: call_value_of(inputs.value),
            is_static: inputs.is_static,
            is_eof: inputs.is_eof,
        },
        output: XCallOutputView { revert: true, output: Seq::empty(), gas: 0 },
    }
}

/// An entry as a later log holds it: the same entry, but for a `CallBegin` whose output may
/// have been written in since.
pub open spec fn kept_entry(before: JournalEntry, after: JournalEntry) -> bool {
    match before {
        JournalEntry::CallBegin { depth, from_chain_id, to_chain_id, data, delta } => {
            &&& after matches JournalEntry::CallBegin {
                depth: d,
                from_chain_id: f,
                to_chain_id: t,
                data: x,
                delta: dl,
            }
            &&& d == depth && f == from_chain_id && t == to_chain_id && dl == delta
            &&& x@.input == data@.input
        },
        _ => after == before,
    }
}

/// The log `b` extends the log `a`: it holds every entry of `a` in its place (see
/// [`kept_entry`]), followed by new ones.
pub open spec fn log_extends(a: Seq<JournalEntry>, b: Seq<JournalEntry>) -> bool {
    &&& a.len() <= b.len()
    &&& forall|j: int| 0 <= j < a.len() ==> kept_entry(a[j], #[trigger] b[j])
}

/// The state of the transaction loop between steps: the change log it writes, and for each
/// frame that a call opened, keyed by the height of the call stack below it, the index of the
/// call's entry in the log.
#[derive(Debug)]
pub struct LoopState {
    pub state_changes: Vec<JournalEntry>,
    pub pending: HashMap<u64, usize>,
}

impl LoopState {
    /// Every pending call names an entry of the log.
    pub open spec fn wf(&self) -> bool {
        forall|k: u64| #[trigger] self.pending@.contains_key(k) ==> self.pending@[k] < self.state_changes@.len()
    }

    /// The loop state over the given change log, with no call pending.
    pub fn new(state_changes: Vec<JournalEntry>) -> (r: LoopState)
        ensures
            r.wf(),
            r.state_changes@ == state_changes@,
            r.pending@ == Map::<u64, usize>::empty(),
    {
        LoopState { state_changes, pending: HashMap::new() }
    }
}

/// What the execution of frames tells the transaction loop.
#[derive(Debug)]
pub enum LoopEvent {
    /// The transaction starts.
    Start { cfg: CfgEnv, tx: TxEnv },
    /// The running frame asks for a call with call data `input`; `call_depth` and `delta` are what
    /// the journal records with the call.
    CallAsked { inputs: CallInputs, input: Vec<u8>, call_depth: usize, delta: bool },
    /// The call whose entry is at `entry` opened a frame above a call stack of `stack_len`
    /// frames.
    FrameOpened { entry: usize, stack_len: usize },
    /// The call whose entry is at `entry` ended at once, at journal depth `depth`, with the
    /// given output, gas and revert flag.
    CallEnded { entry: usize, depth: u64, output: Vec<u8>, gas: Gas, revert: bool },
    /// A frame returned its call outcome to the frame below, at journal depth `depth`.
    FrameReturned { depth: u64, output: Vec<u8>, gas: Gas, revert: bool },
}

/// What the transaction loop does next.
#[derive(Debug)]
pub enum LoopAction {
    /// End the transaction with this call outcome, running no frame.
    Finish { result: InstructionResult, output: Vec<u8>, gas: Gas },
    /// Install the account abstraction code at each address given, then run the first frame.
    Run { install_code_at: Vec<ChainAddress> },
    /// Make the call whose entry is at `entry`.
    Call { entry: usize },
    /// Go on executing frames.
    Continue,
}

/// One step of the transaction loop.
///
/// - `Start`: a skipped transaction (see [`skips_loop`]) finishes at once as a `Return` with
///   no output and a gas of zero, and the log stays; any other appends `TxBegin` and runs,
///   installing the account abstraction code first (see [`install_targets`]).
/// - `CallAsked`: appends the call's `CallBegin` entry (see [`xcall_view`]) before the call
///   is made.
/// - `FrameOpened`: remembers the call's entry under the height of the stack.
/// - `CallEnded`: writes the outcome into the call's entry and appends `CallEnd` (see
///   [`record_call_outcome`]).
/// - `FrameReturned`: where a call is pending at the depth, the same (see
///   [`settle_returned_call`]).
///
/// Every step keeps each entry of the log in its place (see [`log_extends`]).
pub fn loop_step(state: &mut LoopState, event: LoopEvent) -> (a: LoopAction)
    requires
        old(state).wf(),
        event matches LoopEvent::FrameOpened { entry, .. } ==> entry < old(state).state_changes@.len(),
        event matches LoopEvent::CallEnded { entry, gas, .. } ==> entry < old(state).state_changes@.len()
            && gas@.remaining <= gas@.limit,
        event matches LoopEvent::FrameReturned { gas, .. } ==> gas@.remaining <= gas@.limit,
    ensures
        final(state).wf(),
        log_extends(old(state).state_changes@, final(state).state_changes@),
        match event {
            LoopEvent::Start { cfg, tx } => if skips_loop(cfg, tx) {
                &&& a matches LoopAction::Finish { result, output, gas }
                &&& result == InstructionResult::Return
                &&& output@.len() == 0
                &&& gas@ == (GasView { limit: 0, remaining: 0, refunded: 0, used: Map::empty() })
                &&& final(state).state_changes@ == old(state).state_changes@
                &&& final(state).pending@ == old(state).pending@
            } else {
                &&& a matches LoopAction::Run { install_code_at }
                &&& install_targets(cfg, tx, install_code_at@)
                &&& final(state).state_changes@ == old(state).state_changes@.push(JournalEntry::TxBegin { tx })
                &&& final(state).pending@ == old(state).pending@
            },
            LoopEvent::CallAsked { inputs, input, call_depth, delta } => {
                let n = old(state).state_changes@.len();
                &&& a matches LoopAction::Call { entry }
                &&& entry == n
                &&& final(state).state_changes@.len() == n + 1
                &&& final(state).state_changes@.subrange(0, n as int) == old(state).state_changes@
                &&& final(state).state_changes@[n as int] matches JournalEntry::CallBegin {
                    depth: d,
                    from_chain_id: f,
                    to_chain_id: t,
                    data: x,
                    delta: dl,
                }
                &&& d == call_depth && f == inputs.caller.0 && t == inputs.target_address.0 && dl == delta
                &&& x@ == xcall_view(inputs, input@)
                &&& final(state).pending@ == old(state).pending@
            },
            LoopEvent::FrameOpened { entry, stack_len } => {
                &&& a is Continue
                &&& final(state).state_changes@ == old(state).state_changes@
                &&& final(state).pending@ == old(state).pending@.insert(stack_len as u64, entry)
            },
            LoopEvent::CallEnded { entry, depth, output, gas, revert } => {
                let n = old(state).state_changes@.len();
                &&& a is Continue
                &&& final(state).state_changes@.len() == n + 1
                &&& outcome_written(
                    old(state).state_changes@[entry as int],
                    final(state).state_changes@[entry as int],
                    output@,
                    (gas@.limit - gas@.remaining) as u64,
                    revert,
                )
                &&& forall|j: int| 0 <= j < n && j != entry ==> final(state).state_changes@[j] == old(state).state_changes@[j]
                &&& final(state).state_changes@[n as int] == (JournalEntry::CallEnd { depth: depth as usize })
                &&& final(state).pending@ == old(state).pending@
            },
            LoopEvent::FrameReturned { depth, output, gas, revert } => {
                let n = old(state).state_changes@.len();
                &&& a is Continue
                &&& final(state).pending@ == old(state).pending@
                &&& !old(state).pending@.contains_key(depth) ==> final(state).state_changes@ == old(state).state_changes@
                &&& old(state).pending@.contains_key(depth) ==> {
                    let entry = old(state).pending@[depth] as int;
                    &&& final(state).state_changes@.len() == n + 1
                    &&& outcome_written(
                        old(state).state_changes@[entry],
                        final(state).state_changes@[entry],
                        output@,
                        (gas@.limit - gas@.remaining) as u64,
                        revert,
                    )
                    &&& forall|j: int| 0 <= j < n && j != entry ==> final(state).state_changes@[j] == old(state).state_changes@[j]
                    &&& final(state).state_changes@[n as int] == (JournalEntry::CallEnd { depth: depth as usize })
                }
            },
        },
{
    let ghost before = state.state_changes@;
    match event {
        LoopEvent::Start { cfg, tx } => {
            match loop_start(&cfg, &tx) {
                LoopStart::Skip => LoopAction::Finish {
                    result: InstructionResult::Return,
                    output: Vec::new(),
                    gas: Gas::new(0),
                },
                LoopStart::Run { install_code_at } => {
                    state.state_changes.push(JournalEntry::TxBegin { tx });
                    proof {
                        assert(log_extends(before, state.state_changes@)) by {
                            assert forall|j: int| 0 <= j < before.len() implies kept_entry(before[j], #[trigger] state.state_changes@[j]) by {
                                assert(state.state_changes@[j] == before[j]);
                            }
                        }
                    }
                    LoopAction::Run { install_code_at }
                },
            }
        },
        LoopEvent::CallAsked { inputs, input, call_depth, delta } => {
            let depth = call_depth;
            let from_chain_id = inputs.caller.0;
            let to_chain_id = inputs.target_address.0;
            let data = xcall_data(&inputs, input);
            let entry = state.state_changes.len();
            state.state_changes.push(JournalEntry::CallBegin { depth, from_chain_id, to_chain_id, data, delta });
            proof {
                assert(state.state_changes@.subrange(0, entry as int) =~= before);
                assert(log_extends(before, state.state_changes@)) by {
                    assert forall|j: int| 0 <= j < before.len() implies kept_entry(before[j], #[trigger] state.state_changes@[j]) by {
                        assert(state.state_changes@[j] == before[j]);
                    }
                }
            }
            LoopAction::Call { entry }
        },
        LoopEvent::FrameOpened { entry, stack_len } => {
            remember_pending_call(&mut state.pending, stack_len, entry);
            proof {
                assert(log_extends(before, state.state_changes@)) by {
                    assert forall|j: int| 0 <= j < before.len() implies kept_entry(before[j], #[trigger] state.state_changes@[j]) by {
                        assert(state.state_changes@[j] == before[j]);
                    }
                }
            }
            LoopAction::Continue
        },
        LoopEvent::CallEnded { entry, depth, output, gas, revert } => {
            record_call_outcome(&mut state.state_changes, entry, output, &gas, revert, depth as usize);
            proof {
                assert(log_extends(before, state.state_changes@)) by {
                    assert forall|j: int| 0 <= j < before.len() implies kept_entry(before[j], #[trigger] state.state_changes@[j]) by {
                        if j != entry {
                            assert(state.state_changes@[j] == before[j]);
                        }
                    }
                }
            }
            LoopAction::Continue
        },
        LoopEvent::FrameReturned { depth, output, gas, revert } => {
            let _ = settle_returned_call(&state.pending, depth, &mut state.state_changes, output, &gas, revert);
            proof {
                assert(log_extends(before, state.state_changes@)) by {
                    assert forall|j: int| 0 <= j < before.len() implies kept_entry(before[j], #[trigger] state.state_changes@[j]) by {
                        if state.pending@.contains_key(depth) && j == state.pending@[depth] as int {
                        } else {
                            assert(state.state_changes@[j] == before[j]);
                        }
                    }
                }
            }
            LoopAction::Continue
        },
    }
}

/// A log extended twice extends the first.
pub proof fn lemma_log_extends_trans(a: Seq<JournalEntry>, b: Seq<JournalEntry>, c: Seq<JournalEntry>)
    requires
        log_extends(a, b),
        log_extends(b, c),
    ensures
        log_extends(a, c),
{
    assert forall|j: int| 0 <= j < a.len() implies kept_entry(a[j], #[trigger] c[j]) by {
        assert(kept_entry(a[j], b[j]));
        assert(kept_entry(b[j], c[j]));
    }
}

/// Over the logs after each step of a transaction, every entry stays in its place: the
/// `TxBegin` entry stays first, and a `CallBegin` entry keeps its call's inputs while its
/// output is written in.
pub proof fn lemma_loop_log_run(logs: Seq<Seq<JournalEntry>>)
    requires
        logs.len() >= 1,
        forall|i: int| 0 <= i < logs.len() - 1 ==> log_extends(#[trigger] logs[i], logs[i + 1]),
    ensures
        forall|i: int| 0 <= i < logs.len() ==> log_extends(logs[0], #[trigger] logs[i]),
    decreases logs.len(),
{
    if logs.len() > 1 {
        let shorter = logs.drop_last();
        assert forall|i: int| 0 <= i < shorter.len() - 1 implies log_extends(#[trigger] shorter[i], shorter[i + 1]) by {
            assert(shorter[i] == logs[i] && shorter[i + 1] == logs[i + 1]);
        }
        lemma_loop_log_run(shorter);
        assert forall|i: int| 0 <= i < logs.len() implies log_extends(logs[0], #[trigger] logs[i]) by {
            if i < logs.len() - 1 {
                assert(shorter[i] == logs[i]);
                assert(log_extends(shorter[0], shorter[i]));
            } else {
                let k = logs.len() - 2;
                assert(shorter[k] == logs[k]);
                assert(log_extends(shorter[0], shorter[k]));
                assert(log_extends(logs[k], logs[k + 1]));
                lemma_log_extends_trans(logs[0], logs[k], logs[i]);
            }
        }
    } else {
        assert forall|i: int| 0 <= i < logs.len() implies log_extends(logs[0], #[trigger] logs[i]) by {
            assert forall|j: int| 0 <= j < logs[0].len() implies kept_entry(logs[0][j], #[trigger] logs[i][j]) by {
                match logs[0][j] {
                    JournalEntry::CallBegin { .. } => {},
                    _ => {},
                }
            }
        }
    }
}


/// The steps of a pre-verified transaction, in the order they run.
#[derive(Clone, Copy, Debug, PartialEq, Eq, Structural)]
pub enum TxStage {
    /// Load the accounts: warm addresses and the access list.
    LoadAccounts,
    /// Set the precompiles of each chain of the transaction.
    LoadPrecompiles,
    /// Charge the caller for gas.
    DeductCaller,
    /// Apply the authorization list.
    ApplyAuthList,
    /// Make the first call or creation.
    FirstFrame,
    /// Run the frames (see [`loop_step`]).
    RunLoop,
    /// Handle the return of the last frame.
    LastFrameReturn,
    /// Record the refund, the authorization refund included, and cap it.
    Refund,
    /// Give the caller back the gas not spent.
    ReimburseCaller,
    /// Reward the block's beneficiary.
    RewardBeneficiary,
    /// Build the output of the transaction.
    Output,
}

/// The position of a step in the order.
pub open spec fn stage_index(s: TxStage) -> nat {
    match s {
        TxStage::LoadAccounts => 0,
        TxStage::LoadPrecompiles => 1,
        TxStage::DeductCaller => 2,
        TxStage::ApplyAuthList => 3,
        TxStage::FirstFrame => 4,
        TxStage::RunLoop => 5,
        TxStage::LastFrameReturn => 6,
        TxStage::Refund => 7,
        TxStage::ReimburseCaller => 8,
        TxStage::RewardBeneficiary => 9,
        TxStage::Output => 10,
    }
}

/// What follows a step of a pre-verified transaction: where the step failed, nothing (its
/// error is the transaction's answer and no later step runs); else the next step in order,
/// and nothing after the output.
pub fn next_stage(stage: TxStage, succeeded: bool) -> (r: Option<TxStage>)
    ensures
        !succeeded ==> r is None,
        succeeded && stage != TxStage::Output ==> (r matches Some(n) && stage_index(n) == stage_index(stage) + 1),
        stage == TxStage::Output ==> r is None,
{
    if !succeeded {
        return None;
    }
    match stage {
        TxStage::LoadAccounts => Some(TxStage::LoadPrecompiles),
        TxStage::LoadPrecompiles => Some(TxStage::DeductCaller),
        TxStage::DeductCaller => Some(TxStage::ApplyAuthList),
        TxStage::ApplyAuthList => Some(TxStage::FirstFrame),
        TxStage::FirstFrame => Some(TxStage::RunLoop),
        TxStage::RunLoop => Some(TxStage::LastFrameReturn),
        TxStage::LastFrameReturn => Some(TxStage::Refund),
        TxStage::Refund => Some(TxStage::ReimburseCaller),
        TxStage::ReimburseCaller => Some(TxStage::RewardBeneficiary),
        TxStage::RewardBeneficiary => Some(TxStage::Output),
        TxStage::Output => None,
    }
}

} // verus!
