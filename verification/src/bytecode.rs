//! Contract code as the state holds it.
use crate::primitives::{Address, B256, keccak_empty_bytes};
use vstd::prelude::*;

verus! {

/// The bytes that mark a delegation designation of EIP-7702: `0xef 0x01 0x00`.
pub open spec fn eip7702_magic() -> Seq<u8> {
    seq![0xefu8, 0x01u8, 0x00u8]
}

/// Code of an account.
#[derive(Debug)]
pub enum Bytecode {
    /// Plain legacy code.
    Legacy(Vec<u8>),
    /// A delegation designation (EIP-7702) to the code of another address.
    Eip7702(Address),
}

/// The name of what `keccak256` of `alloy_primitives` returns for the given bytes.
pub uninterp spec fn keccak256_of(data: Seq<u8>) -> Seq<u8>;

/// Keccak-256 of the bytes (`alloy_primitives::keccak256`); its result is named `keccak256_of`.
#[verifier::external_body]
pub(crate) fn keccak256(data: &[u8]) -> (r: B256)
    ensures
        r.0@ == keccak256_of(data@),
{
    B256(alloy_primitives::keccak256(data).0)
}

impl Bytecode {
    /// The bytes of the code as they were given: for a delegation designation the magic
    /// followed by the address.
    pub open spec fn original_bytes(&self) -> Seq<u8> {
        match self {
            Bytecode::Legacy(b) => b@,
            Bytecode::Eip7702(a) => eip7702_magic() + a.0@,
        }
    }

    /// The hash of the code: that of the empty string for empty code, else Keccak-256 of
    /// its bytes.
    pub open spec fn hash_spec(&self) -> Seq<u8> {
        if self.original_bytes().len() == 0 {
            keccak_empty_bytes()
        } else {
            keccak256_of(self.original_bytes())
        }
    }

    /// Empty legacy code.
    pub fn new() -> (r: Bytecode)
        ensures
            r.original_bytes() == Seq::<u8>::empty(),
            r is Legacy,
    {
        Bytecode::Legacy(Vec::new())
    }

    /// Legacy code made of the given bytes.
    pub fn new_legacy(bytes: Vec<u8>) -> (r: Bytecode)
        ensures
            r == Bytecode::Legacy(bytes),
    {
        Bytecode::Legacy(bytes)
    }

    /// Legacy code made of the given bytes, not yet analysed.
    pub fn new_raw(bytes: Vec<u8>) -> (r: Bytecode)
        ensures
            r == Bytecode::Legacy(bytes),
    {
        Bytecode::Legacy(bytes)
    }

    /// A delegation designation to `address` (EIP-7702).
    pub fn new_eip7702(address: Address) -> (r: Bytecode)
        ensures
            r == Bytecode::Eip7702(address),
            r.original_bytes().len() == 23,
    {
        Bytecode::Eip7702(address)
    }

    /// A copy of the code.
    pub fn clone_code(&self) -> (r: Bytecode)
        ensures
            r.original_bytes() == self.original_bytes(),
            r is Eip7702 <==> self is Eip7702,
    {
        match self {
            Bytecode::Legacy(b) => Bytecode::Legacy(b.clone()),
            Bytecode::Eip7702(a) => Bytecode::Eip7702(*a),
        }
    }

    /// Whether the code is a delegation designation.
    pub fn is_eip7702(&self) -> (r: bool)
        ensures
            r == self is Eip7702,
    {
        match self {
            Bytecode::Eip7702(_) => true,
            Bytecode::Legacy(_) => false,
        }
    }

    /// The number of bytes of the code.
    pub fn len(&self) -> (r: usize)
        ensures
            r == self.original_bytes().len(),
    {
        match self {
            Bytecode::Legacy(b) => b.len(),
            Bytecode::Eip7702(_) => 23,
        }
    }

    /// Whether the code has no bytes.
    pub fn is_empty(&self) -> (r: bool)
        ensures
            r == (self.original_bytes().len() == 0),
    {
        self.len() == 0
    }

    /// The bytes of the code.
    pub fn original_byte_vec(&self) -> (r: Vec<u8>)
        ensures
            r@ == self.original_bytes(),
    {
        match self {
            Bytecode::Legacy(b) => b.clone(),
            Bytecode::Eip7702(a) => {
                let mut v: Vec<u8> = Vec::new();
                v.push(0xef);
                v.push(0x01);
                v.push(0x00);
                let mut i: usize = 0;
                while i < 20
                    invariant
                        0 <= i <= 20,
                        v@ == eip7702_magic() + a.0@.subrange(0, i as int),
                    decreases 20 - i,
                {
                    v.push(a.0[i]);
                    assert(a.0@.subrange(0, i + 1) == a.0@.subrange(0, i as int).push(a.0@[i as int]));
                    i += 1;
                }
                assert(a.0@.subrange(0, 20) == a.0@);
                v
            },
        }
    }

    /// The hash of the code: that of the empty string for empty code, else Keccak-256 of
    /// its bytes.
    pub fn hash_slow(&self) -> (r: B256)
        ensures
            r.0@ == self.hash_spec(),
    {
        if self.is_empty() {
            B256::keccak_empty()
        } else {
            let bytes = self.original_byte_vec();
            keccak256(bytes.as_slice())
        }
    }
}

impl Clone for Bytecode {
    fn clone(&self) -> (r: Bytecode)
        ensures
            r.original_bytes() == self.original_bytes(),
            r is Eip7702 <==> self is Eip7702,
    {
        self.clone_code()
    }
}

impl Default for Bytecode {
    fn default() -> (r: Bytecode)
        ensures
            r.original_bytes() == Seq::<u8>::empty(),
            r is Legacy,
    {
        Bytecode::new()
    }
}

} // verus!
