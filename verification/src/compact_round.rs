//! A second formulation of the Ascon round on plain arrays, whose linear
//! layer nests the rotations: `t ^ ((t ^ (t >>> p)) >>> q)` in place of
//! `t ^ (t >>> q) ^ (t >>> (p + q))`.
use vstd::prelude::*;

use crate::bits::{rotr, sigma, spec_rotr};
use crate::state::{lemma_p12_unrolled, p12, round_spec};

verus! {

/// `t ^ ((t ^ (t >>> p)) >>> q)` is the diffusion of `t` with the rotation
/// pair `(q, p + q)`, for each pair of the linear layer.
proof fn lemma_nested_rotations(t: u64)
    ensures
        t ^ spec_rotr(t ^ spec_rotr(t, 9), 19) == sigma(t, 19, 28),
        t ^ spec_rotr(t ^ spec_rotr(t, 22), 39) == sigma(t, 61, 39),
        !(t ^ spec_rotr(t ^ spec_rotr(t, 5), 1)) == sigma(!t, 1, 6),
        t ^ spec_rotr(t ^ spec_rotr(t, 7), 10) == sigma(t, 10, 17),
        t ^ spec_rotr(t ^ spec_rotr(t, 34), 7) == sigma(t, 7, 41),
{
    assert(t ^ spec_rotr(t ^ spec_rotr(t, 9), 19) == sigma(t, 19, 28)) by (bit_vector);
    assert(t ^ spec_rotr(t ^ spec_rotr(t, 22), 39) == sigma(t, 61, 39)) by (bit_vector);
    assert(!(t ^ spec_rotr(t ^ spec_rotr(t, 5), 1)) == sigma(!t, 1, 6)) by (bit_vector);
    assert(t ^ spec_rotr(t ^ spec_rotr(t, 7), 10) == sigma(t, 10, 17)) by (bit_vector);
    assert(t ^ spec_rotr(t ^ spec_rotr(t, 34), 7) == sigma(t, 7, 41)) by (bit_vector);
}

/// One Ascon round on an array of five words with round constant `c`.
pub fn round(x: [u64; 5], c: u64) -> (r: [u64; 5])
    ensures
        r@ == round_spec(x@, c),
{
    // S-box layer
    let x0 = x[0] ^ x[4];
    let x2 = x[2] ^ x[1] ^ c;
    let x4 = x[4] ^ x[3];

    let tx0 = x0 ^ (!x[1] & x2);
    let tx1 = x[1] ^ (!x2 & x[3]);
    let tx2 = x2 ^ (!x[3] & x4);
    let tx3 = x[3] ^ (!x4 & x0);
    let tx4 = x4 ^ (!x0 & x[1]);

    let tx1 = tx1 ^ tx0;
    let tx3 = tx3 ^ tx2;
    let tx0 = tx0 ^ tx4;

    // linear layer
    let x0 = tx0 ^ rotr(tx0, 9);
    let x1 = tx1 ^ rotr(tx1, 22);
    let x2r = tx2 ^ rotr(tx2, 5);
    let x3 = tx3 ^ rotr(tx3, 7);
    let x4r = tx4 ^ rotr(tx4, 34);
    let r = [
        tx0 ^ rotr(x0, 19),
        tx1 ^ rotr(x1, 39),
        !(tx2 ^ rotr(x2r, 1)),
        tx3 ^ rotr(x3, 10),
        tx4 ^ rotr(x4r, 7),
    ];
    proof {
        let (a1, a2) = (x[1], x[2]);
        assert(a2 ^ a1 ^ c == a2 ^ (a1 ^ c)) by (bit_vector);
        lemma_nested_rotations(tx0);
        lemma_nested_rotations(tx1);
        lemma_nested_rotations(tx2);
        lemma_nested_rotations(tx3);
        lemma_nested_rotations(tx4);
        assert(r@ =~= round_spec(x@, c));
    }
    r
}

/// Ascon's twelve-round permutation on an array, as nested calls of
/// [`round`].
pub fn permute_12_theirs(arr: [u64; 5]) -> (r: [u64; 5])
    ensures
        r@ == p12(arr@),
{
    let r = round(
        round(
            round(
                round(
                    round(
                        round(
                            round(
                                round(
                                    round(round(round(round(arr, 0xf0), 0xe1), 0xd2), 0xc3),
                                    0xb4,
                                ),
                                0xa5,
                            ),
                            0x96,
                        ),
                        0x87,
                    ),
                    0x78,
                ),
                0x69,
            ),
            0x5a,
        ),
        0x4b,
    );
    proof {
        lemma_p12_unrolled(arr@);
    }
    r
}

} // verus!
