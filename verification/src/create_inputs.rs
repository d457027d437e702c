//! The inputs of a contract creation and the address it creates.
use crate::bytecode::keccak256_of;
use crate::env::{TransactTo, TxEnv};
use crate::primitives::{Address, U256};
use crate::state::ChainAddress;
use vstd::prelude::*;

verus! {

/// How a creation picks the new address.
#[derive(Clone, Copy, Debug)]
pub enum CreateScheme {
    /// From the creator and its nonce.
    Create,
    /// From the creator, a salt and the hash of the init code (EIP-1014).
    Create2 { salt: U256 },
}

/// The inputs of a contract creation.
#[derive(Debug)]
pub struct CreateInputs {
    /// The creator.
    pub caller: ChainAddress,
    /// How the new address is picked.
    pub scheme: CreateScheme,
    /// The value moved to the new contract.
    pub value: U256,
    /// The init code.
    pub init_code: Vec<u8>,
    /// The gas limit of the creation.
    pub gas_limit: u64,
}

/// The bytes of a number, most significant first, without leading zero bytes.
pub open spec fn be_trimmed(x: u64) -> Seq<u8>
    decreases x,
{
    if x == 0 {
        Seq::empty()
    } else {
        be_trimmed((x / 256) as u64).push((x % 256) as u8)
    }
}

/// The RLP encoding of a number: `0x80` for zero, the byte itself below `0x80`, else
/// `0x80` plus the length followed by the bytes.
pub open spec fn rlp_u64(x: u64) -> Seq<u8> {
    if x == 0 {
        seq![0x80u8]
    } else if x < 0x80 {
        seq![x as u8]
    } else {
        seq![(0x80 + be_trimmed(x).len()) as u8] + be_trimmed(x)
    }
}

/// The RLP encoding of the list of an address and a nonce, which `CREATE` hashes.
pub open spec fn create_preimage(sender: Seq<u8>, nonce: u64) -> Seq<u8> {
    seq![(0xc0 + 21 + rlp_u64(nonce).len()) as u8, 0x94u8] + sender + rlp_u64(nonce)
}

/// The address `CREATE` gives: the last 20 bytes of Keccak-256 of the RLP encoding of the
/// creator and its nonce.
pub open spec fn create_address(sender: Seq<u8>, nonce: u64) -> Seq<u8> {
    keccak256_of(create_preimage(sender, nonce)).subrange(12, 32)
}

/// The address `CREATE2` gives (EIP-1014): the last 20 bytes of Keccak-256 of `0xff`, the
/// creator, the salt and the Keccak-256 of the init code.
pub open spec fn create2_address(sender: Seq<u8>, salt: Seq<u8>, init_code: Seq<u8>) -> Seq<u8> {
    keccak256_of(seq![0xffu8] + sender + salt + keccak256_of(init_code)).subrange(12, 32)
}

/// The address `CREATE` gives for `sender` and `nonce` (`Address::create` of
/// `alloy_primitives`, which documents it as the last 20 bytes of Keccak-256 of the RLP list of
/// the sender and the nonce).
#[verifier::external_body]
fn address_create(sender: &Address, nonce: u64) -> (r: Address)
    ensures
        r.0@ == create_address(sender.0@, nonce),
{
    Address(alloy_primitives::Address::from(sender.0).create(nonce).0.0)
}

/// The address `CREATE2` gives for `sender`, `salt` and `init_code`
/// (`Address::create2_from_code` of `alloy_primitives`, which documents it as the last 20
/// bytes of Keccak-256 of `0xff`, the sender, the salt and the hash of the init code).
#[verifier::external_body]
fn address_create2_from_code(sender: &Address, salt: [u8; 32], init_code: &[u8]) -> (r: Address)
    ensures
        r.0@ == create2_address(sender.0@, salt@, init_code@),
{
    Address(alloy_primitives::Address::from(sender.0).create2_from_code(salt, init_code).0.0)
}

/// The eight bytes of a limb, most significant first.
pub open spec fn limb_be(x: u64) -> Seq<u8> {
    seq![
        (x >> 56u64) as u8,
        (x >> 48u64) as u8,
        (x >> 40u64) as u8,
        (x >> 32u64) as u8,
        (x >> 24u64) as u8,
        (x >> 16u64) as u8,
        (x >> 8u64) as u8,
        x as u8,
    ]
}

/// The 32 bytes of a word, most significant first.
pub open spec fn u256_be_bytes(v: U256) -> Seq<u8> {
    limb_be(v.l3) + limb_be(v.l2) + limb_be(v.l1) + limb_be(v.l0)
}

/// Writes the eight bytes of a limb, most significant first, at `at`.
fn put_limb(out: &mut [u8; 32], at: usize, x: u64)
    requires
        at + 8 <= 32,
    ensures
        final(out)@ == old(out)@.subrange(0, at as int) + limb_be(x) + old(out)@.subrange(at + 8, 32),
{
    out[at] = (x >> 56) as u8;
    out[at + 1] = (x >> 48) as u8;
    out[at + 2] = (x >> 40) as u8;
    out[at + 3] = (x >> 32) as u8;
    out[at + 4] = (x >> 24) as u8;
    out[at + 5] = (x >> 16) as u8;
    out[at + 6] = (x >> 8) as u8;
    out[at + 7] = x as u8;
    assert(out@ =~= old(out)@.subrange(0, at as int) + limb_be(x) + old(out)@.subrange(at + 8, 32));
}

/// The 32 bytes of a word, most significant first.
pub fn u256_to_be_bytes(v: U256) -> (r: [u8; 32])
    ensures
        r@ == u256_be_bytes(v),
{
    let mut out = [0u8; 32];
    put_limb(&mut out, 0, v.l3);
    put_limb(&mut out, 8, v.l2);
    put_limb(&mut out, 16, v.l1);
    put_limb(&mut out, 24, v.l0);
    assert(out@ =~= u256_be_bytes(v));
    out
}

impl CreateInputs {
    /// The inputs of the creation a transaction makes: none unless the transaction creates.
    pub fn new(tx_env: &TxEnv, gas_limit: u64) -> (r: Option<CreateInputs>)
        ensures
            tx_env.transact_to is Create <==> r is Some,
            r matches Some(c) ==> {
                &&& c.caller == tx_env.caller
                &&& c.scheme is Create
                &&& c.value == tx_env.value
                &&& c.init_code@ == tx_env.data@
                &&& c.gas_limit == gas_limit
            },
    {
        match tx_env.transact_to {
            TransactTo::Call(_) => None,
            TransactTo::Create => Some(
                CreateInputs {
                    caller: tx_env.caller,
                    scheme: CreateScheme::Create,
                    value: tx_env.value,
                    init_code: tx_env.data.clone(),
                    gas_limit,
                },
            ),
        }
    }

    /// The inputs of the creation a transaction makes, boxed (see [`CreateInputs::new`]).
    pub fn new_boxed(tx_env: &TxEnv, gas_limit: u64) -> (r: Option<Box<CreateInputs>>)
        ensures
            tx_env.transact_to is Create <==> r is Some,
            r matches Some(c) ==> {
                &&& c.caller == tx_env.caller
                &&& c.scheme is Create
                &&& c.value == tx_env.value
                &&& c.init_code@ == tx_env.data@
                &&& c.gas_limit == gas_limit
            },
    {
        match CreateInputs::new(tx_env, gas_limit) {
            Some(c) => Some(Box::new(c)),
            None => None,
        }
    }

    /// The address the creation makes, the creator having nonce `nonce`: that of `CREATE`, or
    /// for `CREATE2` that of the salt and the init code.
    pub fn created_address(&self, nonce: u64) -> (r: Address)
        ensures
            r.0@ == match self.scheme {
                CreateScheme::Create => create_address(self.caller.1.0@, nonce),
                CreateScheme::Create2 { salt } => create2_address(self.caller.1.0@, u256_be_bytes(salt), self.init_code@),
            },
    {
        match self.scheme {
            CreateScheme::Create => address_create(&self.caller.1, nonce),
            CreateScheme::Create2 { salt } => address_create2_from_code(
                &self.caller.1,
                u256_to_be_bytes(salt),
                self.init_code.as_slice(),
            ),
        }
    }
}

} // verus!
