use gwyneth_revm::env::{BlockEnv, CfgEnv, Env, TaikoFields, TransactTo, TxEnv};
use gwyneth_revm::precompile::{
    ec_recover_run, ecrecover, xcalloptions_run, CallOptions, EcRecoverError, PrecompileError,
};
use gwyneth_revm::primitives::{Address, B256, U256};
use gwyneth_revm::state::ChainAddress;
use k256::ecdsa::SigningKey;
use k256::elliptic_curve::sec1::ToEncodedPoint;

fn addr(last: u8) -> Address {
    let mut a = [0u8; 20];
    a[19] = last;
    Address(a)
}

fn env_with_caller(caller: ChainAddress, allow_mocking: bool) -> Env {
    Env {
        cfg: CfgEnv { xchain: false, allow_mocking, parent_chain_id: None },
        block: BlockEnv { coinbase: ChainAddress(1, addr(0xcb)), basefee: U256::zero() },
        tx: TxEnv {
            caller,
            gas_limit: 100_000,
            gas_price: U256::zero(),
            transact_to: TransactTo::Create,
            value: U256::zero(),
            data: vec![],
            chain_ids: None,
            authorization_list: None,
            access_list: vec![],
            taiko: TaikoFields { is_anchor: false, treasury: ChainAddress(1, addr(0x77)), basefee_ratio: 0 },
        },
    }
}

fn options_input(version: u16, chain_id: u64, sandbox: u8, origin: Address, sender: Address, proof: &[u8]) -> Vec<u8> {
    let mut v = Vec::new();
    v.extend_from_slice(&version.to_be_bytes());
    v.extend_from_slice(&chain_id.to_be_bytes());
    v.push(sandbox);
    v.extend_from_slice(&origin.0);
    v.extend_from_slice(&sender.0);
    v.extend_from_slice(&[0xab; 32]);
    v.extend_from_slice(proof);
    v
}

#[test]
fn xcall_options_decoded_on_success() {
    let origin = ChainAddress(1, addr(1));
    let caller = ChainAddress(1, addr(2));
    let env = env_with_caller(origin, false);
    let input = options_input(1, 167, 0, addr(1), addr(2), &[9, 8, 7]);
    let mut opts: Option<CallOptions> = None;
    let out = xcalloptions_run(&input, 0, &env, caller, &mut opts).unwrap();
    assert_eq!(out.gas_used, 0);
    assert_eq!(out.bytes, vec![0x6c, 0x54, 0x13, 0x30]);
    let o = opts.unwrap();
    assert_eq!(o.chain_id, 167);
    assert!(!o.sandbox);
    assert!(o.tx_origin == ChainAddress(167, addr(1)));
    assert!(o.msg_sender == ChainAddress(1, addr(2)));
    assert_eq!(o.block_hash, Some(B256([0xab; 32])));
    assert_eq!(o.proof, vec![9, 8, 7]);
}

#[test]
fn xcall_options_too_short() {
    let env = env_with_caller(ChainAddress(1, addr(1)), false);
    let input = vec![0u8; 82];
    let mut opts: Option<CallOptions> = None;
    let r = xcalloptions_run(&input, 0, &env, ChainAddress(1, addr(2)), &mut opts);
    assert_eq!(r.unwrap_err(), PrecompileError::XCallOptionsInvalidInputLength);
    assert!(opts.is_none());
}

#[test]
fn xcall_options_wrong_version() {
    let env = env_with_caller(ChainAddress(1, addr(1)), false);
    let input = options_input(2, 167, 0, addr(1), addr(2), &[]);
    let mut opts: Option<CallOptions> = None;
    let r = xcalloptions_run(&input, 0, &env, ChainAddress(1, addr(2)), &mut opts);
    assert_eq!(r.unwrap_err(), PrecompileError::XCallOptionsInvalidVersion);
    assert!(opts.is_none());
}

#[test]
fn xcall_options_wrong_origin_or_sender() {
    let env = env_with_caller(ChainAddress(1, addr(1)), false);
    let mut opts: Option<CallOptions> = None;
    let input = options_input(1, 167, 0, addr(3), addr(2), &[]);
    let r = xcalloptions_run(&input, 0, &env, ChainAddress(1, addr(2)), &mut opts);
    assert_eq!(r.unwrap_err(), PrecompileError::XCallOptionsInvalidOrigin);
    let input = options_input(1, 167, 0, addr(1), addr(4), &[]);
    let r = xcalloptions_run(&input, 0, &env, ChainAddress(1, addr(2)), &mut opts);
    assert_eq!(r.unwrap_err(), PrecompileError::XCallOptionsInvalidOrigin);
    assert!(opts.is_none());
}

#[test]
fn xcall_options_origin_unchecked_in_sandbox_or_when_mocking() {
    let mut opts: Option<CallOptions> = None;
    let env = env_with_caller(ChainAddress(1, addr(1)), false);
    let input = options_input(1, 167, 1, addr(3), addr(4), &[]);
    assert!(xcalloptions_run(&input, 0, &env, ChainAddress(1, addr(2)), &mut opts).is_ok());
    assert!(opts.as_ref().unwrap().sandbox);
    let env = env_with_caller(ChainAddress(1, addr(1)), true);
    let input = options_input(1, 167, 0, addr(3), addr(4), &[]);
    assert!(xcalloptions_run(&input, 0, &env, ChainAddress(1, addr(2)), &mut opts).is_ok());
}

fn signer() -> SigningKey {
    SigningKey::from_slice(&[7u8; 32]).unwrap()
}

fn expected_signer_word(key: &SigningKey) -> Vec<u8> {
    let point = key.verifying_key().to_encoded_point(false);
    let hash = alloy_primitives::keccak256(&point.as_bytes()[1..]);
    let mut word = hash.0.to_vec();
    for b in word.iter_mut().take(12) {
        *b = 0;
    }
    word
}

fn precompile_input(hash: &[u8; 32], v: u8, rs: &[u8]) -> Vec<u8> {
    let mut input = hash.to_vec();
    input.extend_from_slice(&[0u8; 31]);
    input.push(v);
    input.extend_from_slice(rs);
    input
}

#[test]
fn ec_recover_run_recovers_signer() {
    let key = signer();
    let hash = alloy_primitives::keccak256(b"gwyneth").0;
    let (sig, recid) = key.sign_prehash_recoverable(&hash).unwrap();
    let input = precompile_input(&hash, 27 + recid.to_byte(), &sig.to_bytes());
    let out = ec_recover_run(&input, 5000).unwrap();
    assert_eq!(out.gas_used, 3000);
    assert_eq!(out.bytes, expected_signer_word(&key));
}

#[test]
fn ec_recover_run_out_of_gas() {
    let input = vec![0u8; 128];
    assert_eq!(ec_recover_run(&input, 2999).unwrap_err(), PrecompileError::OutOfGas);
}

#[test]
fn ec_recover_run_malformed_v_gives_empty_output() {
    let key = signer();
    let hash = alloy_primitives::keccak256(b"gwyneth").0;
    let (sig, _) = key.sign_prehash_recoverable(&hash).unwrap();
    let input = precompile_input(&hash, 29, &sig.to_bytes());
    let out = ec_recover_run(&input, 3000).unwrap();
    assert_eq!(out.gas_used, 3000);
    assert!(out.bytes.is_empty());
    let mut bad = precompile_input(&hash, 27, &sig.to_bytes());
    bad[40] = 1;
    assert!(ec_recover_run(&bad, 3000).unwrap().bytes.is_empty());
}

#[test]
fn ec_recover_run_short_input_is_padded() {
    // Only the hash and part of v: after padding v is zero, which is malformed.
    let out = ec_recover_run(&[1u8; 40], 3000).unwrap();
    assert!(out.bytes.is_empty());
}

#[test]
fn ec_recover_run_invalid_signature_gives_empty_output() {
    let hash = [5u8; 32];
    // r and s of zero do not parse as a signature.
    let input = precompile_input(&hash, 27, &[0u8; 64]);
    assert!(ec_recover_run(&input, 3000).unwrap().bytes.is_empty());
}

/// The order of the secp256k1 group, big-endian.
const ORDER: [u8; 32] = [
    0xff, 0xff, 0xff, 0xff, 0xff, 0xff, 0xff, 0xff, 0xff, 0xff, 0xff, 0xff, 0xff, 0xff, 0xff, 0xfe, 0xba, 0xae, 0xdc,
    0xe6, 0xaf, 0x48, 0xa0, 0x3b, 0xbf, 0xd2, 0x5e, 0x8c, 0xd0, 0x36, 0x41, 0x41,
];

fn order_minus(s: &[u8]) -> Vec<u8> {
    let mut out = vec![0u8; 32];
    let mut borrow = 0i16;
    for i in (0..32).rev() {
        let mut d = ORDER[i] as i16 - s[i] as i16 - borrow;
        if d < 0 {
            d += 256;
            borrow = 1;
        } else {
            borrow = 0;
        }
        out[i] = d as u8;
    }
    out
}

#[test]
fn ecrecover_normalizes_high_s() {
    let key = signer();
    let hash = alloy_primitives::keccak256(b"high s").0;
    let (sig, recid) = key.sign_prehash_recoverable(&hash).unwrap();
    let bytes = sig.to_bytes();
    let mut low = [0u8; 65];
    low[..64].copy_from_slice(&bytes);
    low[64] = recid.to_byte();
    let expected = ecrecover(&low, &B256(hash)).unwrap();
    assert_eq!(expected.0.to_vec(), expected_signer_word(&key));

    // The same signature with s replaced by n - s and the id flipped.
    let mut high = low;
    high[32..64].copy_from_slice(&order_minus(&bytes[32..64]));
    high[64] = recid.to_byte() ^ 1;
    assert_eq!(ecrecover(&high, &B256(hash)).unwrap(), expected);
}

#[test]
fn ecrecover_rejects_unparsable_signature() {
    let sig = [0u8; 65];
    assert_eq!(ecrecover(&sig, &B256([1u8; 32])).unwrap_err(), EcRecoverError::InvalidSignature);
}
