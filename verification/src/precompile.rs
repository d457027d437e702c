//! Precompiled contracts: the cross-chain call options and the recovery of a signer.
use crate::bytecode::{keccak256, keccak256_of};
use crate::bytes::{be_value, pow256, read_20, read_32, read_be, read_rest};
use crate::env::Env;
use crate::primitives::{Address, B256};
use crate::state::ChainAddress;
use vstd::prelude::*;

verus! {

/// Errors of a precompile.
#[derive(Clone, Copy, Debug, PartialEq, Eq, Structural)]
pub enum PrecompileError {
    /// The gas limit does not cover the cost.
    OutOfGas,
    /// The call options are shorter than their fixed part.
    XCallOptionsInvalidInputLength,
    /// The call options are of an unknown version.
    XCallOptionsInvalidVersion,
    /// The call options name an origin or sender other than the real ones.
    XCallOptionsInvalidOrigin,
}

/// What a precompile returns: the gas used and the output bytes.
#[derive(Debug)]
pub struct PrecompileOutput {
    pub gas_used: u64,
    pub bytes: Vec<u8>,
}

/// The options of the next cross-chain call.
#[derive(Debug)]
pub struct CallOptions {
    /// The chain the call goes to.
    pub chain_id: u64,
    /// Whether the call runs in a sandbox.
    pub sandbox: bool,
    /// The origin the call claims.
    pub tx_origin: ChainAddress,
    /// The sender the call claims.
    pub msg_sender: ChainAddress,
    /// The block hash the call is made against.
    pub block_hash: Option<B256>,
    /// A proof for the call.
    pub proof: Vec<u8>,
}

/// The length of the fixed part of the call options.
pub open spec fn xcall_options_header_len() -> nat {
    83
}

/// The output of the call-options precompile.
pub open spec fn xcall_options_ack() -> Seq<u8> {
    seq![0x6cu8, 0x54, 0x13, 0x30]
}

/// The origin check: outside a sandbox, and unless mocking is allowed, the claimed origin
/// must be the signer of the transaction and the claimed sender the caller.
pub open spec fn xcall_origin_ok(input: Seq<u8>, env: Env, caller: ChainAddress) -> bool {
    input[10] != 0 || env.cfg.allow_mocking || (input.subrange(11, 31) == env.tx.caller.1.0@
        && input.subrange(31, 51) == caller.1.0@)
}

/// The error the call-options precompile answers for `input`, if any: too short, then an
/// unknown version, then a failed origin check.
pub open spec fn xcall_options_error(input: Seq<u8>, env: Env, caller: ChainAddress) -> Option<PrecompileError> {
    if input.len() < xcall_options_header_len() {
        Some(PrecompileError::XCallOptionsInvalidInputLength)
    } else if be_value(input.subrange(0, 2)) != 1 {
        Some(PrecompileError::XCallOptionsInvalidVersion)
    } else if !xcall_origin_ok(input, env, caller) {
        Some(PrecompileError::XCallOptionsInvalidOrigin)
    } else {
        None
    }
}

/// True when `o` holds the call options that `input` encodes for `caller`: the chain id in
/// bytes 2..10, the sandbox flag in byte 10, origin and sender in bytes 11..31 and 31..51,
/// the block hash in bytes 51..83 and the proof after them. The origin is placed on the
/// target chain, the sender on the caller's chain.
pub open spec fn decodes_call_options(o: CallOptions, input: Seq<u8>, caller: ChainAddress) -> bool {
    let chain_id = be_value(input.subrange(2, 10));
    &&& o.chain_id == chain_id
    &&& o.sandbox == (input[10] != 0)
    &&& o.tx_origin.0 == chain_id
    &&& o.tx_origin.1.0@ == input.subrange(11, 31)
    &&& o.msg_sender.0 == caller.0
    &&& o.msg_sender.1.0@ == input.subrange(31, 51)
    &&& o.block_hash is Some
    &&& o.block_hash.unwrap().0@ == input.subrange(51, 83)
    &&& o.proof@ == input.subrange(83, input.len() as int)
}

/// Sets the options of the next cross-chain call from `input`.
///
/// On success `call_options` holds the decoded options and the output is the four bytes
/// `6c541330` at no gas; on an error `call_options` is left alone.
pub fn xcalloptions_run(
    input: &[u8],
    gas_limit: u64,
    env: &Env,
    caller: ChainAddress,
    call_options: &mut Option<CallOptions>,
) -> (r: Result<PrecompileOutput, PrecompileError>)
    ensures
        match xcall_options_error(input@, *env, caller) {
            Some(e) => r == Err::<PrecompileOutput, PrecompileError>(e) && *final(call_options) == *old(call_options),
            None => {
                &&& r is Ok
                &&& r.unwrap().gas_used == 0
                &&& r.unwrap().bytes@ == xcall_options_ack()
                &&& *final(call_options) is Some
                &&& decodes_call_options((*final(call_options)).unwrap(), input@, caller)
            },
        },
{
    if input.len() < 83 {
        return Err(PrecompileError::XCallOptionsInvalidInputLength);
    }
    let version = read_be(input, 0, 2);
    let chain_id = read_be(input, 2, 8);
    let sandbox = input[10] != 0;
    let tx_origin = Address(read_20(input, 11));
    let msg_sender = Address(read_20(input, 31));
    let block_hash = Some(B256(read_32(input, 51)));
    let proof = read_rest(input, 83);
    if version != 1 {
        return Err(PrecompileError::XCallOptionsInvalidVersion);
    }
    if !sandbox && !env.cfg.allow_mocking {
        if tx_origin != env.tx.caller.1 || msg_sender != caller.1 {
            proof {
                assert(!xcall_origin_ok(input@, *env, caller)) by {
                    if input@.subrange(11, 31) == env.tx.caller.1.0@ {
                        assert(tx_origin.0 =~= env.tx.caller.1.0);
                    }
                    if input@.subrange(31, 51) == caller.1.0@ {
                        assert(msg_sender.0 =~= caller.1.0);
                    }
                }
            }
            return Err(PrecompileError::XCallOptionsInvalidOrigin);
        }
    }
    *call_options = Some(
        CallOptions {
            chain_id,
            sandbox,
            tx_origin: ChainAddress(chain_id, tx_origin),
            msg_sender: ChainAddress(caller.0, msg_sender),
            block_hash,
            proof,
        },
    );
    let mut out: Vec<u8> = Vec::new();
    out.push(0x6c);
    out.push(0x54);
    out.push(0x13);
    out.push(0x30);
    assert(out@ =~= xcall_options_ack());
    Ok(PrecompileOutput { gas_used: 0, bytes: out })
}

/// The order of the group of secp256k1.
pub open spec fn secp256k1_order() -> nat {
    0xFFFFFFFFFFFFFFFFFFFFFFFFFFFFFFFEBAAEDCE6AF48A03BBFD25E8CD0364141nat
}

/// The 32 bytes that stand for `x`, most significant first.
pub open spec fn be_bytes32(x: nat) -> Seq<u8> {
    Seq::new(32, |i: int| ((x / pow256((31 - i) as nat)) % 256) as u8)
}

/// A 64-byte signature `r || s` (big-endian) parsed and normalized to a low `s`: `None` where
/// it is not 64 bytes long or `r` or `s` lies outside `1..n`; else, where `s` is high (above
/// `n / 2`), `Some` of `r || n - s`, and where it is low, `Some(None)`.
pub open spec fn k256_normalized(sig: Seq<u8>) -> Option<Option<Seq<u8>>> {
    let n = secp256k1_order();
    let r = be_value(sig.subrange(0, 32));
    let s = be_value(sig.subrange(32, 64));
    if sig.len() != 64 || r == 0 || r >= n || s == 0 || s >= n {
        None
    } else if s > n / 2 {
        Some(Some(sig.subrange(0, 32) + be_bytes32((n - s) as nat)))
    } else {
        Some(None)
    }
}

/// The name of what `VerifyingKey::recover_from_prehash` of the `k256` crate gives for a
/// message hash, a 64-byte signature and a recovery id: the uncompressed SEC1 encoding of
/// the recovered key, or `None` where recovery fails.
pub uninterp spec fn k256_recovered_key(msg: Seq<u8>, sig: Seq<u8>, recid: u8) -> Option<Seq<u8>>;

/// Parses a 64-byte signature (`k256::ecdsa::Signature::from_slice`, which takes 64 bytes whose
/// halves `r` and `s` lie in `1..n`) and normalizes its `s` (`Signature::normalize_s`, which
/// replaces an `s` above `n / 2` by `n - s` and gives `None` for a low one), the result in bytes
/// (`to_bytes`: `r` and `s` big-endian); the contract is [`k256_normalized`].
#[verifier::external_body]
fn k256_normalize_s(sig: &[u8]) -> (r: Option<Option<Vec<u8>>>)
    ensures
        match r {
            None => k256_normalized(sig@) is None,
            Some(None) => k256_normalized(sig@) == Some(None::<Seq<u8>>),
            Some(Some(b)) => k256_normalized(sig@) == Some(Some(b@)),
        },
{
    match k256::ecdsa::Signature::from_slice(sig) {
        Ok(s) => Some(s.normalize_s().map(|n| n.to_bytes().to_vec())),
        Err(_) => None,
    }
}

/// Recovers the public key of a signature over a message hash
/// (`k256::ecdsa::VerifyingKey::recover_from_prehash`, with the signature parsed by
/// `Signature::from_slice` and the id by `RecoveryId::from_byte`, which takes ids up to 3),
/// and gives it in uncompressed SEC1 encoding (`to_encoded_point(false)`): the tag byte and
/// the two 32-byte coordinates. The result is named by `k256_recovered_key`.
#[verifier::external_body]
fn k256_recover_from_prehash(msg: &[u8], sig: &[u8], recid: u8) -> (r: Option<Vec<u8>>)
    requires
        recid <= 3,
    ensures
        r is Some <==> k256_recovered_key(msg@, sig@, recid) is Some,
        r matches Some(k) ==> k@ == k256_recovered_key(msg@, sig@, recid).unwrap() && k@.len() == 65,
{
    let s = match k256::ecdsa::Signature::from_slice(sig) {
        Ok(s) => s,
        Err(_) => return None,
    };
    let id = k256::ecdsa::RecoveryId::from_byte(recid).unwrap();
    match k256::ecdsa::VerifyingKey::recover_from_prehash(msg, &s, id) {
        Ok(k) => Some(k.to_encoded_point(false).as_bytes().to_vec()),
        Err(_) => None,
    }
}

/// The address-sized hash: the first 12 bytes of a 32-byte hash set to zero.
pub open spec fn zero_first_12(h: Seq<u8>) -> Seq<u8> {
    Seq::new(12, |j: int| 0u8) + h.subrange(12, 32)
}

/// The signature and recovery id after normalization: where `s` was high, the normalized
/// signature and the flipped id.
pub open spec fn normalized_sig(sig: Seq<u8>, n: Option<Seq<u8>>) -> (Seq<u8>, u8) {
    match n {
        Some(b) => (b, sig[64] ^ 1u8),
        None => (sig.subrange(0, 64), sig[64]),
    }
}

/// The recovered signer of a 65-byte signature (64 bytes and a recovery id) over a message
/// hash, as a 32-byte word whose last 20 bytes are the address; `None` where the signature
/// does not parse or the key cannot be recovered.
pub open spec fn ecrecover_spec(sig: Seq<u8>, msg: Seq<u8>) -> Option<Seq<u8>> {
    match k256_normalized(sig.subrange(0, 64)) {
        None => None,
        Some(n) => {
            let (s, id) = normalized_sig(sig, n);
            match k256_recovered_key(msg, s, id) {
                None => None,
                Some(k) => Some(zero_first_12(keccak256_of(k.subrange(1, k.len() as int)))),
            }
        },
    }
}

/// Why a signer could not be recovered.
#[derive(Clone, Copy, Debug, PartialEq, Eq, Structural)]
pub enum EcRecoverError {
    /// The signature does not parse.
    InvalidSignature,
    /// No key recovers from the signature.
    RecoveryFailed,
}

/// Recovers the signer of `sig` (64 bytes and a recovery id up to 3) over the hash `msg`:
/// the signature is normalized to a low `s`, flipping the id where it changes, the key is
/// recovered, and the result is its Keccak-256 hash with the first 12 bytes zeroed.
pub fn ecrecover(sig: &[u8; 65], msg: &B256) -> (r: Result<B256, EcRecoverError>)
    requires
        sig[64] <= 3,
    ensures
        match ecrecover_spec(sig@, msg.0@) {
            None => r is Err,
            Some(h) => r is Ok && r.unwrap().0@ == h,
        },
{
    let sig_slice = sig.as_slice();
    let mut recid = sig[64];
    let first = read_rest_upto(sig_slice, 64);
    let normalized = k256_normalize_s(first.as_slice());
    let body = match normalized {
        None => {
            return Err(EcRecoverError::InvalidSignature);
        },
        Some(Some(n)) => {
            assert(recid ^ 1u8 <= 3) by (bit_vector)
                requires
                    recid <= 3,
            ;
            recid = recid ^ 1;
            n
        },
        Some(None) => first,
    };
    let key = match k256_recover_from_prehash(msg.0.as_slice(), body.as_slice(), recid) {
        None => {
            return Err(EcRecoverError::RecoveryFailed);
        },
        Some(k) => k,
    };
    let tail = read_rest(key.as_slice(), 1);
    let mut hash = keccak256(tail.as_slice());
    let ghost full = hash.0@;
    let mut j: usize = 0;
    while j < 12
        invariant
            0 <= j <= 12,
            forall|t: int| 0 <= t < j ==> hash.0[t] == 0,
            forall|t: int| 12 <= t < 32 ==> hash.0[t] == full[t],
        decreases 12 - j,
    {
        hash.0[j] = 0;
        j += 1;
    }
    assert(hash.0@ =~= zero_first_12(full));
    Ok(hash)
}

/// Copies `s[..n]` into a vector.
fn read_rest_upto(s: &[u8], n: usize) -> (r: Vec<u8>)
    requires
        n <= s@.len(),
    ensures
        r@ == s@.subrange(0, n as int),
{
    let mut v: Vec<u8> = Vec::new();
    let mut k: usize = 0;
    while k < n
        invariant
            k <= n <= s@.len(),
            v@ == s@.subrange(0, k as int),
        decreases n - k,
    {
        v.push(s[k]);
        assert(s@.subrange(0, k + 1) == s@.subrange(0, k as int).push(s@[k as int]));
        k += 1;
    }
    v
}

/// The base cost of the signer-recovery precompile.
pub open spec fn ecrecover_base() -> u64 {
    3000
}

/// The input padded with zeros, or cut, to 128 bytes.
pub open spec fn padded_128(i: Seq<u8>) -> Seq<u8> {
    Seq::new(128, |j: int| if j < i.len() { i[j] } else { 0u8 })
}

/// Whether the padded input has a well-formed `v`: 31 zero bytes, then 27 or 28.
pub open spec fn ecrecover_v_ok(p: Seq<u8>) -> bool {
    (forall|j: int| 32 <= j < 63 ==> p[j] == 0) && (p[63] == 27 || p[63] == 28)
}

/// The output of the signer-recovery precompile for an input that passes the gas check:
/// empty where `v` is malformed or recovery fails, else the recovered signer word.
pub open spec fn ec_recover_output(i: Seq<u8>) -> Seq<u8> {
    let p = padded_128(i);
    if !ecrecover_v_ok(p) {
        Seq::empty()
    } else {
        let sig = p.subrange(64, 128).push((p[63] - 27) as u8);
        match ecrecover_spec(sig, p.subrange(0, 32)) {
            Some(h) => h,
            None => Seq::empty(),
        }
    }
}

/// The signer-recovery precompile: hash (32 bytes), `v` (32 bytes), `r` and `s` (32 bytes
/// each), padded with zeros. Costs 3000 gas; a limit below that is out of gas.
pub fn ec_recover_run(i: &[u8], target_gas: u64) -> (r: Result<PrecompileOutput, PrecompileError>)
    ensures
        target_gas < ecrecover_base() ==> r == Err::<PrecompileOutput, PrecompileError>(PrecompileError::OutOfGas),
        target_gas >= ecrecover_base() ==> r is Ok && r.unwrap().gas_used == ecrecover_base()
            && r.unwrap().bytes@ == ec_recover_output(i@),
{
    if 3000 > target_gas {
        return Err(PrecompileError::OutOfGas);
    }
    let mut input = [0u8; 128];
    let mut k: usize = 0;
    while k < 128
        invariant
            0 <= k <= 128,
            forall|j: int| 0 <= j < k ==> input[j] == padded_128(i@)[j],
            forall|j: int| k <= j < 128 ==> input[j] == 0,
        decreases 128 - k,
    {
        if k < i.len() {
            input[k] = i[k];
        }
        k += 1;
    }
    assert(input@ =~= padded_128(i@));
    let msg = B256(read_32(input.as_slice(), 0));
    let mut v_ok = input[63] == 27 || input[63] == 28;
    let mut j: usize = 32;
    while j < 63
        invariant
            32 <= j <= 63,
            input@ == padded_128(i@),
            v_ok == ((forall|t: int| 32 <= t < j ==> input[t] == 0) && (input[63] == 27 || input[63] == 28)),
        decreases 63 - j,
    {
        if input[j] != 0 {
            v_ok = false;
        }
        j += 1;
    }
    if !v_ok {
        return Ok(PrecompileOutput { gas_used: 3000, bytes: Vec::new() });
    }
    let mut sig = [0u8; 65];
    let mut t: usize = 0;
    while t < 64
        invariant
            0 <= t <= 64,
            input@ == padded_128(i@),
            forall|q: int| 0 <= q < t ==> sig[q] == input[64 + q],
        decreases 64 - t,
    {
        sig[t] = input[64 + t];
        t += 1;
    }
    sig[64] = input[63] - 27;
    assert(sig@ =~= input@.subrange(64, 128).push((input[63] - 27) as u8));
    let out = match ecrecover(&sig, &msg) {
        Ok(h) => {
            let mut v: Vec<u8> = Vec::new();
            let mut q: usize = 0;
            while q < 32
                invariant
                    0 <= q <= 32,
                    v@ == h.0@.subrange(0, q as int),
                decreases 32 - q,
            {
                v.push(h.0[q]);
                assert(h.0@.subrange(0, q + 1) == h.0@.subrange(0, q as int).push(h.0@[q as int]));
                q += 1;
            }
            assert(h.0@.subrange(0, 32) == h.0@);
            v
        },
        Err(_) => Vec::new(),
    };
    Ok(PrecompileOutput { gas_used: 3000, bytes: out })
}

} // verus!
