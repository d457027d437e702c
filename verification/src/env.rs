//! The parts of the transaction environment that the library's logic reads.
use crate::primitives::{Address, U256};
use crate::state::ChainAddress;
use vstd::prelude::*;

verus! {

/// Where a transaction goes: a call to an address, or the creation of a contract.
#[derive(Clone, Copy, Debug)]
pub enum TransactTo {
    /// A call to the given address.
    Call(ChainAddress),
    /// The creation of a contract.
    Create,
}

impl TransactTo {
    /// The address called, for a call.
    pub fn to(&self) -> (r: Option<ChainAddress>)
        ensures
            match *self {
                TransactTo::Call(a) => r == Some(a),
                TransactTo::Create => r is None,
            },
    {
        match self {
            TransactTo::Call(a) => Some(*a),
            TransactTo::Create => None,
        }
    }

    /// Whether the transaction is a call.
    pub fn is_call(&self) -> (r: bool)
        ensures
            r == *self is Call,
    {
        match self {
            TransactTo::Call(_) => true,
            TransactTo::Create => false,
        }
    }
}

/// An authorization of EIP-7702 whose signer has been recovered.
#[derive(Clone, Copy, Debug)]
pub struct RecoveredAuthorization {
    /// The chain the authorization is for; zero for any chain.
    pub chain_id: U256,
    /// The address whose code the authority delegates to.
    pub address: Address,
    /// The nonce the authority must have.
    pub nonce: u64,
    /// The signer, where the signature could be recovered.
    pub authority: Option<Address>,
}

impl RecoveredAuthorization {
    /// The signer, where it could be recovered.
    pub fn authority(&self) -> (r: Option<Address>)
        ensures
            r == self.authority,
    {
        self.authority
    }

    /// The chain id of the authorization.
    pub fn chain_id(&self) -> (r: U256)
        ensures
            r == self.chain_id,
    {
        self.chain_id
    }

    /// The nonce of the authorization.
    pub fn nonce(&self) -> (r: u64)
        ensures
            r == self.nonce,
    {
        self.nonce
    }
}

/// Taiko fields of a transaction.
#[derive(Clone, Copy, Debug)]
pub struct TaikoFields {
    /// Whether the transaction is the anchor transaction of a block.
    pub is_anchor: bool,
    /// The treasury that receives the base fee.
    pub treasury: ChainAddress,
    /// The share of the base fee, in percent, that goes to the coinbase (Ontake).
    pub basefee_ratio: u8,
}

/// An entry of an access list (EIP-2930): an address and storage keys of it.
#[derive(Clone, Debug)]
pub struct AccessListItem {
    pub address: Address,
    pub storage_keys: Vec<U256>,
}

/// The transaction fields that the library reads.
#[derive(Clone, Debug)]
pub struct TxEnv {
    /// The signer.
    pub caller: ChainAddress,
    /// The gas limit.
    pub gas_limit: u64,
    /// The gas price, or the maximum fee per gas.
    pub gas_price: U256,
    /// Where the transaction goes.
    pub transact_to: TransactTo,
    /// The value transferred.
    pub value: U256,
    /// The call data or init code.
    pub data: Vec<u8>,
    /// The chains the transaction touches.
    pub chain_ids: Option<Vec<u64>>,
    /// The authorization list of EIP-7702.
    pub authorization_list: Option<Vec<RecoveredAuthorization>>,
    /// The access list of EIP-2930.
    pub access_list: Vec<AccessListItem>,
    /// Taiko fields.
    pub taiko: TaikoFields,
}

/// Configuration fields that the library reads.
#[derive(Clone, Copy, Debug)]
pub struct CfgEnv {
    /// Whether cross-chain execution is on.
    pub xchain: bool,
    /// Whether the origin checks of call options may be skipped.
    pub allow_mocking: bool,
    /// The parent chain, where there is one.
    pub parent_chain_id: Option<u64>,
}

/// Block fields that the library reads.
#[derive(Clone, Copy, Debug)]
pub struct BlockEnv {
    /// The beneficiary of the block.
    pub coinbase: ChainAddress,
    /// The base fee per gas.
    pub basefee: U256,
}

/// The environment of a transaction: configuration, block and transaction.
#[derive(Clone, Debug)]
pub struct Env {
    pub cfg: CfgEnv,
    pub block: BlockEnv,
    pub tx: TxEnv,
}

} // verus!
