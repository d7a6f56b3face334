//! Word-level building blocks of the Ascon permutation: rotation, the
//! bitsliced S-box term and the linear diffusion term, with the bit-level
//! identities that relate the different ways of writing them.
use vstd::prelude::*;

verus! {

/// Rotation of a 64-bit word to the right by `n` positions, taken modulo
/// 64: the low `n % 64` bits move to the top; a multiple of 64 leaves the
/// word unchanged.
pub open spec fn spec_rotr(x: u64, n: u32) -> u64 {
    let k = n % 64;
    if k == 0 {
        x
    } else {
        (x >> k) | (x << ((64 - k) as u32))
    }
}

/// The bitsliced S-box term `a ^ (!b & c)`.
pub open spec fn chi(a: u64, b: u64, c: u64) -> u64 {
    a ^ (!b & c)
}

/// Ascon's linear diffusion of one word: `x ^ (x >>> a) ^ (x >>> b)`.
pub open spec fn sigma(x: u64, a: u32, b: u32) -> u64 {
    x ^ (spec_rotr(x, a) ^ spec_rotr(x, b))
}

/// Rotates `x` to the right by `n` positions.
pub fn rotr(x: u64, n: u32) -> (r: u64)
    ensures
        r == spec_rotr(x, n),
{
    let k = n % 64;
    if k == 0 {
        x
    } else {
        (x >> k) | (x << (64 - k))
    }
}

/// The diffusion term `(x >>> a) ^ (x >>> b)` of one word.
pub fn rotate_xor(x: u64, a: u32, b: u32) -> (r: u64)
    ensures
        r == spec_rotr(x, a) ^ spec_rotr(x, b),
{
    rotr(x, a) ^ rotr(x, b)
}

/// One word of Ascon's linear layer: `x ^ (x >>> a) ^ (x >>> b)`.
pub fn linear_word(x: u64, a: u32, b: u32) -> (r: u64)
    ensures
        r == sigma(x, a, b),
{
    x ^ rotate_xor(x, a, b)
}

/// Rotation commutes with complement.
pub proof fn lemma_rotr_not(x: u64, n: u32)
    ensures
        spec_rotr(!x, n) == !spec_rotr(x, n),
{
    let k = n % 64;
    if k != 0 {
        assert(((!x) >> k) | ((!x) << ((64 - k) as u32)) == !((x >> k) | (x << ((64 - k) as u32))))
            by (bit_vector)
            requires
                0 < k < 64,
        ;
    }
}

/// Complementing a word and then diffusing it equals complementing the word
/// alone and xoring in the rotations of the uncomplemented word.
pub proof fn lemma_complement_then_diffuse(x: u64, a: u32, b: u32)
    ensures
        sigma(!x, a, b) == !x ^ (spec_rotr(x, a) ^ spec_rotr(x, b)),
{
    lemma_rotr_not(x, a);
    lemma_rotr_not(x, b);
    let ra = spec_rotr(x, a);
    let rb = spec_rotr(x, b);
    assert(!x ^ ((!ra) ^ (!rb)) == !x ^ (ra ^ rb)) by (bit_vector);
}

/// In the S-box term `chi(x4, x0, x1)`, word `x0` may be replaced by its
/// updated value `chi(x0, x1, x2)`: the two differ only where `x1` is clear.
pub proof fn lemma_chi_after_update(x4: u64, x0: u64, x1: u64, x2: u64)
    ensures
        chi(x4, chi(x0, x1, x2), x1) == chi(x4, x0, x1),
{
    assert(x4 ^ (!(x0 ^ (!x1 & x2)) & x1) == x4 ^ (!x0 & x1)) by (bit_vector);
}

} // verus!
