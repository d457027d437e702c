//! Reading fixed-width fields out of byte strings.
use vstd::prelude::*;

verus! {

/// The number that bytes stand for, most significant first.
pub open spec fn be_value(s: Seq<u8>) -> nat
    decreases s.len(),
{
    if s.len() == 0 {
        0
    } else {
        be_value(s.drop_last()) * 256 + s.last() as nat
    }
}

/// 256 to the power `n`.
pub open spec fn pow256(n: nat) -> nat
    decreases n,
{
    if n == 0 {
        1
    } else {
        256 * pow256((n - 1) as nat)
    }
}

/// A number made of `n` bytes lies below 256^n.
pub proof fn lemma_be_value_bound(s: Seq<u8>)
    ensures
        be_value(s) < pow256(s.len()),
    decreases s.len(),
{
    if s.len() > 0 {
        lemma_be_value_bound(s.drop_last());
        let a = be_value(s.drop_last());
        let p = pow256((s.len() - 1) as nat);
        assert(a * 256 + s.last() < p * 256) by (nonlinear_arith)
            requires
                a < p,
                s.last() < 256,
        ;
    }
}

/// Reads the number held by `s[start..start + n]`, most significant byte first.
pub fn read_be(s: &[u8], start: usize, n: usize) -> (r: u64)
    requires
        n <= 8,
        start + n <= s@.len(),
    ensures
        r == be_value(s@.subrange(start as int, start + n)),
{
    let len = s.len();
    let mut acc: u64 = 0;
    let mut k: usize = 0;
    proof {
        assert(s@.subrange(start as int, start as int) =~= Seq::<u8>::empty());
    }
    while k < n
        invariant
            n <= 8,
            start + n <= s@.len(),
            len == s@.len(),
            0 <= k <= n,
            acc == be_value(s@.subrange(start as int, start + k)),
        decreases n - k,
    {
        let ghost prev = s@.subrange(start as int, start + k);
        proof {
            lemma_be_value_bound(prev);
            assert(pow256(prev.len()) <= 0x100_0000_0000_0000) by {
                lemma_pow256_monotone(prev.len(), 7);
                reveal_with_fuel(pow256, 8);
                assert(pow256(7) == 0x100_0000_0000_0000);
            }
            assert(s@.subrange(start as int, start + k + 1).drop_last() == prev);
        }
        acc = acc * 256 + s[start + k] as u64;
        k += 1;
    }
    acc
}

/// Powers of 256 grow with the exponent.
pub proof fn lemma_pow256_monotone(a: nat, b: nat)
    requires
        a <= b,
    ensures
        pow256(a) <= pow256(b),
    decreases b,
{
    if a < b {
        lemma_pow256_monotone(a, (b - 1) as nat);
    }
}

/// Copies `s[start..start + 20]` into an array.
pub fn read_20(s: &[u8], start: usize) -> (r: [u8; 20])
    requires
        start + 20 <= s@.len(),
    ensures
        r@ == s@.subrange(start as int, start + 20),
{
    let len = s.len();
    let mut a = [0u8; 20];
    let mut k: usize = 0;
    while k < 20
        invariant
            start + 20 <= s@.len(),
            len == s@.len(),
            0 <= k <= 20,
            forall|j: int| 0 <= j < k ==> a[j] == s@[start + j],
        decreases 20 - k,
    {
        a[k] = s[start + k];
        k += 1;
    }
    assert(a@ =~= s@.subrange(start as int, start + 20));
    a
}

/// Copies `s[start..start + 32]` into an array.
pub fn read_32(s: &[u8], start: usize) -> (r: [u8; 32])
    requires
        start + 32 <= s@.len(),
    ensures
        r@ == s@.subrange(start as int, start + 32),
{
    let len = s.len();
    let mut a = [0u8; 32];
    let mut k: usize = 0;
    while k < 32
        invariant
            start + 32 <= s@.len(),
            len == s@.len(),
            0 <= k <= 32,
            forall|j: int| 0 <= j < k ==> a[j] == s@[start + j],
        decreases 32 - k,
    {
        a[k] = s[start + k];
        k += 1;
    }
    assert(a@ =~= s@.subrange(start as int, start + 32));
    a
}

/// Copies `s[start..]` into a vector.
pub fn read_rest(s: &[u8], start: usize) -> (r: Vec<u8>)
    requires
        start <= s@.len(),
    ensures
        r@ == s@.subrange(start as int, s@.len() as int),
{
    let mut v: Vec<u8> = Vec::new();
    let mut k: usize = start;
    while k < s.len()
        invariant
            start <= k <= s@.len(),
            v@ == s@.subrange(start as int, k as int),
        decreases s@.len() - k,
    {
        v.push(s[k]);
        assert(s@.subrange(start as int, k + 1) == s@.subrange(start as int, k as int).push(s@[k as int]));
        k += 1;
    }
    v
}

} // verus!
