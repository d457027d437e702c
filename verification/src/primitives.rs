//! Fixed-width words of the EVM: addresses, 32-byte hashes and 256-bit integers.
use vstd::prelude::*;

verus! {

/// 2^64.
pub open spec fn two64() -> nat {
    0x1_0000_0000_0000_0000nat
}

/// 2^256, the modulus of 256-bit arithmetic.
pub open spec fn two256() -> nat {
    0x1_0000_0000_0000_0000_0000_0000_0000_0000_0000_0000_0000_0000_0000_0000_0000_0000nat
}

/// 2^255, the first value that a signed 256-bit word cannot hold.
pub open spec fn two255() -> nat {
    0x8000_0000_0000_0000_0000_0000_0000_0000_0000_0000_0000_0000_0000_0000_0000_0000nat
}

/// The largest value of a 256-bit word.
pub open spec fn u256_max() -> nat {
    (two256() - 1) as nat
}

/// A 20-byte account address.
#[derive(Clone, Copy, Debug)]
pub struct Address(pub [u8; 20]);

impl PartialEq for Address {
    fn eq(&self, other: &Self) -> (r: bool) {
        let mut i: usize = 0;
        while i < 20
            invariant
                0 <= i <= 20,
                forall|j: int| 0 <= j < i ==> self.0[j] == other.0[j],
            decreases 20 - i,
        {
            if self.0[i] != other.0[i] {
                return false;
            }
            i += 1;
        }
        assert(self.0 =~= other.0);
        true
    }
}

impl vstd::std_specs::cmp::PartialEqSpecImpl for Address {
    open spec fn obeys_eq_spec() -> bool {
        true
    }

    open spec fn eq_spec(&self, other: &Self) -> bool {
        *self == *other
    }
}

impl Eq for Address {}

impl Address {
    /// The address made of 20 zero bytes.
    pub fn zero() -> (r: Address)
        ensures
            forall|i: int| 0 <= i < 20 ==> r.0[i] == 0,
    {
        Address([0u8; 20])
    }
}

/// A 32-byte word, used for hashes.
#[derive(Clone, Copy, Debug)]
pub struct B256(pub [u8; 32]);

impl PartialEq for B256 {
    fn eq(&self, other: &Self) -> (r: bool) {
        let mut i: usize = 0;
        while i < 32
            invariant
                0 <= i <= 32,
                forall|j: int| 0 <= j < i ==> self.0[j] == other.0[j],
            decreases 32 - i,
        {
            if self.0[i] != other.0[i] {
                return false;
            }
            i += 1;
        }
        assert(self.0 =~= other.0);
        true
    }
}

impl vstd::std_specs::cmp::PartialEqSpecImpl for B256 {
    open spec fn obeys_eq_spec() -> bool {
        true
    }

    open spec fn eq_spec(&self, other: &Self) -> bool {
        *self == *other
    }
}

impl Eq for B256 {}

impl From<[u8; 32]> for B256 {
    fn from(bytes: [u8; 32]) -> (r: B256) {
        B256(bytes)
    }
}

impl vstd::std_specs::convert::FromSpecImpl<[u8; 32]> for B256 {
    open spec fn obeys_from_spec() -> bool {
        true
    }

    open spec fn from_spec(bytes: [u8; 32]) -> B256 {
        B256(bytes)
    }
}

/// The bytes of the Keccak-256 hash of the empty string.
pub open spec fn keccak_empty_bytes() -> Seq<u8> {
    seq![
        0xc5u8, 0xd2, 0x46, 0x01, 0x86, 0xf7, 0x23, 0x3c, 0x92, 0x7e, 0x7d, 0xb2, 0xdc, 0xc7, 0x03, 0xc0,
        0xe5, 0x00, 0xb6, 0x53, 0xca, 0x82, 0x27, 0x3b, 0x7b, 0xfa, 0xd8, 0x04, 0x5d, 0x85, 0xa4, 0x70,
    ]
}

impl B256 {
    /// The word made of 32 zero bytes.
    pub fn zero() -> (r: B256)
        ensures
            r.is_zero_spec(),
    {
        B256([0u8; 32])
    }

    /// True when every byte is zero.
    pub open spec fn is_zero_spec(&self) -> bool {
        forall|i: int| 0 <= i < 32 ==> self.0[i] == 0
    }

    /// Returns whether every byte is zero.
    pub fn is_zero(&self) -> (r: bool)
        ensures
            r == self.is_zero_spec(),
    {
        let mut i: usize = 0;
        while i < 32
            invariant
                0 <= i <= 32,
                forall|j: int| 0 <= j < i ==> self.0[j] == 0,
            decreases 32 - i,
        {
            if self.0[i] != 0 {
                return false;
            }
            i += 1;
        }
        true
    }

    /// The Keccak-256 hash of the empty string.
    pub fn keccak_empty() -> (r: B256)
        ensures
            r.0@ == keccak_empty_bytes(),
    {
        let r = B256([
            0xc5u8, 0xd2, 0x46, 0x01, 0x86, 0xf7, 0x23, 0x3c, 0x92, 0x7e, 0x7d, 0xb2, 0xdc, 0xc7, 0x03, 0xc0,
            0xe5, 0x00, 0xb6, 0x53, 0xca, 0x82, 0x27, 0x3b, 0x7b, 0xfa, 0xd8, 0x04, 0x5d, 0x85, 0xa4, 0x70,
        ]);
        assert(r.0@ =~= keccak_empty_bytes());
        r
    }
}

/// An unsigned 256-bit integer, held as four 64-bit limbs, least significant first.
#[derive(Clone, Copy, Debug, PartialEq, Eq, Structural)]
pub struct U256 {
    pub l0: u64,
    pub l1: u64,
    pub l2: u64,
    pub l3: u64,
}

impl U256 {
    /// The number that the limbs stand for.
    pub open spec fn value(&self) -> nat {
        (self.l0 + self.l1 * 0x1_0000_0000_0000_0000nat + self.l2 * 0x1_0000_0000_0000_0000_0000_0000_0000_0000nat
            + self.l3 * 0x1_0000_0000_0000_0000_0000_0000_0000_0000_0000_0000_0000_0000nat) as nat
    }

    /// Zero.
    pub fn zero() -> (r: U256)
        ensures
            r.value() == 0,
    {
        U256 { l0: 0, l1: 0, l2: 0, l3: 0 }
    }

    /// The largest 256-bit number.
    pub fn max_value() -> (r: U256)
        ensures
            r.value() == u256_max(),
    {
        let r = U256 { l0: u64::MAX, l1: u64::MAX, l2: u64::MAX, l3: u64::MAX };
        assert(r.value() == u256_max()) by (nonlinear_arith)
            requires
                r.l0 == 0xffff_ffff_ffff_ffffu64,
                r.l1 == 0xffff_ffff_ffff_ffffu64,
                r.l2 == 0xffff_ffff_ffff_ffffu64,
                r.l3 == 0xffff_ffff_ffff_ffffu64,
        ;
        r
    }

    /// The number `v`.
    pub fn from_u64(v: u64) -> (r: U256)
        ensures
            r.value() == v,
    {
        U256 { l0: v, l1: 0, l2: 0, l3: 0 }
    }

    /// The four limbs, least significant first.
    pub fn as_limbs(&self) -> (r: [u64; 4])
        ensures
            r[0] == self.l0,
            r[1] == self.l1,
            r[2] == self.l2,
            r[3] == self.l3,
    {
        [self.l0, self.l1, self.l2, self.l3]
    }

    /// Returns whether the number is zero.
    pub fn is_zero(&self) -> (r: bool)
        ensures
            r == (self.value() == 0),
    {
        self.l0 == 0 && self.l1 == 0 && self.l2 == 0 && self.l3 == 0
    }
}

/// Every value of a 256-bit word lies below 2^256.
pub proof fn lemma_u256_bounded(a: U256)
    ensures
        a.value() < two256(),
        a.value() % two64() == a.l0,
{
    assert(a.value() < two256()) by (nonlinear_arith)
        requires
            a.l0 < 0x1_0000_0000_0000_0000nat,
            a.l1 < 0x1_0000_0000_0000_0000nat,
            a.l2 < 0x1_0000_0000_0000_0000nat,
            a.l3 < 0x1_0000_0000_0000_0000nat,
            a.value() == a.l0 + a.l1 * 0x1_0000_0000_0000_0000nat + a.l2
                * 0x1_0000_0000_0000_0000_0000_0000_0000_0000nat + a.l3
                * 0x1_0000_0000_0000_0000_0000_0000_0000_0000_0000_0000_0000_0000nat,
    ;
    assert(a.value() % two64() == a.l0) by (nonlinear_arith)
        requires
            a.l0 < 0x1_0000_0000_0000_0000nat,
            a.value() == a.l0 + 0x1_0000_0000_0000_0000nat * (a.l1 + a.l2
                * 0x1_0000_0000_0000_0000nat + a.l3
                * 0x1_0000_0000_0000_0000_0000_0000_0000_0000nat),
    ;
}

/// Saturating addition of 256-bit numbers (`Uint::saturating_add` of the `ruint` crate
/// behind `alloy_primitives::U256`): the sum, or the largest value where the sum does not fit.
#[verifier::external_body]
pub(crate) fn u256_saturating_add(a: U256, b: U256) -> (r: U256)
    ensures
        r.value() == if a.value() + b.value() <= u256_max() { a.value() + b.value() } else { u256_max() },
{
    let x = alloy_primitives::U256::from_limbs([a.l0, a.l1, a.l2, a.l3]);
    let y = alloy_primitives::U256::from_limbs([b.l0, b.l1, b.l2, b.l3]);
    let l = x.saturating_add(y).into_limbs();
    U256 { l0: l[0], l1: l[1], l2: l[2], l3: l[3] }
}

/// Saturating subtraction of 256-bit numbers (`Uint::saturating_sub` of `ruint`):
/// the difference, or zero where `b` exceeds `a`.
#[verifier::external_body]
pub(crate) fn u256_saturating_sub(a: U256, b: U256) -> (r: U256)
    ensures
        r.value() == if a.value() >= b.value() { (a.value() - b.value()) as nat } else { 0 },
{
    let x = alloy_primitives::U256::from_limbs([a.l0, a.l1, a.l2, a.l3]);
    let y = alloy_primitives::U256::from_limbs([b.l0, b.l1, b.l2, b.l3]);
    let l = x.saturating_sub(y).into_limbs();
    U256 { l0: l[0], l1: l[1], l2: l[2], l3: l[3] }
}

/// Saturating multiplication of 256-bit numbers (`Uint::saturating_mul` of `ruint`):
/// the product, or the largest value where the product does not fit.
#[verifier::external_body]
pub(crate) fn u256_saturating_mul(a: U256, b: U256) -> (r: U256)
    ensures
        r.value() == if a.value() * b.value() <= u256_max() { a.value() * b.value() } else { u256_max() },
{
    let x = alloy_primitives::U256::from_limbs([a.l0, a.l1, a.l2, a.l3]);
    let y = alloy_primitives::U256::from_limbs([b.l0, b.l1, b.l2, b.l3]);
    let l = x.saturating_mul(y).into_limbs();
    U256 { l0: l[0], l1: l[1], l2: l[2], l3: l[3] }
}

/// Multiplication modulo 2^256 (the `*` operator of `ruint`, which is `wrapping_mul`).
#[verifier::external_body]
pub(crate) fn u256_wrapping_mul(a: U256, b: U256) -> (r: U256)
    ensures
        r.value() == (a.value() * b.value()) % two256(),
{
    let x = alloy_primitives::U256::from_limbs([a.l0, a.l1, a.l2, a.l3]);
    let y = alloy_primitives::U256::from_limbs([b.l0, b.l1, b.l2, b.l3]);
    let l = x.wrapping_mul(y).into_limbs();
    U256 { l0: l[0], l1: l[1], l2: l[2], l3: l[3] }
}

/// Subtraction modulo 2^256 (the `-` operator of `ruint`, which is `wrapping_sub`).
#[verifier::external_body]
pub(crate) fn u256_wrapping_sub(a: U256, b: U256) -> (r: U256)
    ensures
        r.value() == (a.value() - b.value() + two256()) % (two256() as int),
{
    let x = alloy_primitives::U256::from_limbs([a.l0, a.l1, a.l2, a.l3]);
    let y = alloy_primitives::U256::from_limbs([b.l0, b.l1, b.l2, b.l3]);
    let l = x.wrapping_sub(y).into_limbs();
    U256 { l0: l[0], l1: l[1], l2: l[2], l3: l[3] }
}

/// Integer division of 256-bit numbers (the `/` operator of `ruint`), which panics on a
/// zero divisor; the quotient is rounded down.
#[verifier::external_body]
pub(crate) fn u256_div(a: U256, b: U256) -> (r: U256)
    requires
        b.value() != 0,
    ensures
        r.value() == a.value() / b.value(),
{
    let x = alloy_primitives::U256::from_limbs([a.l0, a.l1, a.l2, a.l3]);
    let y = alloy_primitives::U256::from_limbs([b.l0, b.l1, b.l2, b.l3]);
    let l = (x / y).into_limbs();
    U256 { l0: l[0], l1: l[1], l2: l[2], l3: l[3] }
}

/// A signed 256-bit integer in two's complement, held as the bits of a [`U256`].
#[derive(Clone, Copy, Debug, PartialEq, Eq, Structural)]
pub struct I256 {
    pub bits: U256,
}

impl I256 {
    /// The signed number that the bits stand for.
    pub open spec fn value(&self) -> int {
        if self.bits.value() < two255() {
            self.bits.value() as int
        } else {
            self.bits.value() - two256()
        }
    }

    /// Zero.
    pub fn zero() -> (r: I256)
        ensures
            r.value() == 0,
    {
        I256 { bits: U256::zero() }
    }

    /// Reinterprets the limbs of an unsigned number as a signed one
    /// (`Signed::from_limbs` of `alloy_primitives`, a change of type only).
    pub fn from_limbs_of(u: U256) -> (r: I256)
        ensures
            r.bits == u,
            r.value() == if u.value() < two255() { u.value() as int } else { u.value() - two256() },
    {
        I256 { bits: u }
    }
}

/// True when `v` fits in a signed 256-bit word.
pub open spec fn fits_i256(v: int) -> bool {
    -(two255() as int) <= v < two255()
}

/// Checked addition of signed 256-bit numbers (`Signed::checked_add` of `alloy_primitives`):
/// the sum where it fits, `None` where it overflows.
#[verifier::external_body]
pub(crate) fn i256_checked_add(a: I256, b: I256) -> (r: Option<I256>)
    ensures
        match r {
            Some(c) => fits_i256(a.value() + b.value()) && c.value() == a.value() + b.value(),
            None => !fits_i256(a.value() + b.value()),
        },
{
    let x = alloy_primitives::I256::from_limbs([a.bits.l0, a.bits.l1, a.bits.l2, a.bits.l3]);
    let y = alloy_primitives::I256::from_limbs([b.bits.l0, b.bits.l1, b.bits.l2, b.bits.l3]);
    match x.checked_add(y) {
        Some(s) => {
            let l = s.into_limbs();
            Some(I256 { bits: U256 { l0: l[0], l1: l[1], l2: l[2], l3: l[3] } })
        },
        None => None,
    }
}

/// Checked subtraction of signed 256-bit numbers (`Signed::checked_sub` of `alloy_primitives`):
/// the difference where it fits, `None` where it overflows.
#[verifier::external_body]
pub(crate) fn i256_checked_sub(a: I256, b: I256) -> (r: Option<I256>)
    ensures
        match r {
            Some(c) => fits_i256(a.value() - b.value()) && c.value() == a.value() - b.value(),
            None => !fits_i256(a.value() - b.value()),
        },
{
    let x = alloy_primitives::I256::from_limbs([a.bits.l0, a.bits.l1, a.bits.l2, a.bits.l3]);
    let y = alloy_primitives::I256::from_limbs([b.bits.l0, b.bits.l1, b.bits.l2, b.bits.l3]);
    match x.checked_sub(y) {
        Some(s) => {
            let l = s.into_limbs();
            Some(I256 { bits: U256 { l0: l[0], l1: l[1], l2: l[2], l3: l[3] } })
        },
        None => None,
    }
}

/// Every signed 256-bit word holds a value that fits.
pub proof fn lemma_i256_fits(a: I256)
    ensures
        fits_i256(a.value()),
{
    lemma_u256_bounded(a.bits);
    assert(two256() == 2 * two255());
}

} // verus!
