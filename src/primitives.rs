//! Word-sized values of the state model, held as plain integers.
use vstd::prelude::*;

verus! {

/// A 160-bit account address: the high 32 bits, then the low 128 bits.
pub type Address = (u32, u128);

/// A 256-bit hash: the high 128 bits, then the low 128 bits.
pub type B256 = (u128, u128);

/// A 256-bit unsigned word: the high 128 bits, then the low 128 bits.
pub type U256 = (u128, u128);

/// The number of values of one 128-bit limb.
pub open spec fn limb_base() -> nat {
    u128::MAX as nat + 1
}

/// The numeric value of a 256-bit word.
pub open spec fn u256_value(w: U256) -> nat {
    w.0 as nat * limb_base() + w.1 as nat
}

/// The hash of a code body, as computed by keccak256 over its bytes.
pub uninterp spec fn keccak_of(code: Seq<u8>) -> B256;

/// The canonical hash of empty code.
pub open spec fn empty_code_hash() -> B256 {
    keccak_of(Seq::empty())
}

/// Relies on alloy_primitives::keccak256: the Keccak-256 digest of the bytes,
/// read as two big-endian halves.
#[verifier::external_body]
pub(crate) fn keccak(code: &Vec<u8>) -> (r: B256)
    ensures
        r == keccak_of(code@),
{
    let d = alloy_primitives::keccak256(code.as_slice()).0;
    let mut hi = [0u8; 16];
    let mut lo = [0u8; 16];
    hi.copy_from_slice(&d[..16]);
    lo.copy_from_slice(&d[16..]);
    (u128::from_be_bytes(hi), u128::from_be_bytes(lo))
}

/// Equality of two words, limb by limb.
pub fn word_eq(a: &U256, b: &U256) -> (r: bool)
    ensures
        r == (*a == *b),
{
    a.0 == b.0 && a.1 == b.1
}

/// Equality of two addresses, part by part.
pub fn address_eq(a: &Address, b: &Address) -> (r: bool)
    ensures
        r == (*a == *b),
{
    a.0 == b.0 && a.1 == b.1
}

/// Whether a word is zero.
pub fn is_zero(w: &U256) -> (r: bool)
    ensures
        r == (*w == (0u128, 0u128)),
{
    w.0 == 0 && w.1 == 0
}

/// Strict comparison of two words by numeric value.
pub fn word_gt(a: &U256, b: &U256) -> (r: bool)
    ensures
        r == (u256_value(*a) > u256_value(*b)),
{
    proof {
        lemma_value_order(*a, *b);
    }
    a.0 > b.0 || (a.0 == b.0 && a.1 > b.1)
}

/// The numeric order of words is the lexicographic order of their limbs.
pub proof fn lemma_value_order(a: U256, b: U256)
    ensures
        (u256_value(a) > u256_value(b)) == (a.0 > b.0 || (a.0 == b.0 && a.1 > b.1)),
        (u256_value(a) == u256_value(b)) == (a == b),
{
    let m: nat = limb_base();
    assert(a.1 < m && b.1 < m);
    if a.0 > b.0 {
        assert(a.0 as nat * m >= (b.0 as nat + 1) * m) by (nonlinear_arith)
            requires a.0 as nat >= b.0 as nat + 1;
    } else if a.0 < b.0 {
        assert(b.0 as nat * m >= (a.0 as nat + 1) * m) by (nonlinear_arith)
            requires b.0 as nat >= a.0 as nat + 1;
    }
}

} // verus!
