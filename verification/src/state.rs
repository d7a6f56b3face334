//! The 320-bit Ascon state and the Ascon permutation on it.
use vstd::prelude::*;

use crate::bits::{
    chi, lemma_chi_after_update, lemma_complement_then_diffuse, linear_word, rotate_xor, rotr, sigma,
};

verus! {

/// Round constants of the twelve-round permutation, in order of use.
pub const ROUND_CONSTANTS: [u64; 12] = [
    0xf0, 0xe1, 0xd2, 0xc3, 0xb4, 0xa5, 0x96, 0x87, 0x78, 0x69, 0x5a, 0x4b,
];

/// The 320-bit state, as five 64-bit words; word 0 is the rate.
#[derive(Debug, PartialEq, Eq, Clone, Copy)]
pub struct State {
    pub x: [u64; 5],
}

impl View for State {
    type V = Seq<u64>;

    open spec fn view(&self) -> Seq<u64> {
        self.x@
    }
}

/// The constant addition and substitution layer of one Ascon round with
/// round constant `c`: the constant enters word 2, then the bitsliced 5-bit
/// S-box acts on each bit column of the five words.
pub open spec fn substitution_spec(s: Seq<u64>, c: u64) -> Seq<u64> {
    // constant addition and the input mixing of the S-box
    let x0 = s[0] ^ s[4];
    let x1 = s[1];
    let x2 = s[2] ^ (s[1] ^ c);
    let x3 = s[3];
    let x4 = s[4] ^ s[3];
    // nonlinear layer
    let t0 = chi(x0, x1, x2);
    let t1 = chi(x1, x2, x3);
    let t2 = chi(x2, x3, x4);
    let t3 = chi(x3, x4, x0);
    let t4 = chi(x4, x0, x1);
    // output mixing of the S-box
    seq![t0 ^ t4, t1 ^ t0, !t2, t3 ^ t2, t4]
}

/// The linear layer: each word is diffused with its own pair of rotations.
pub open spec fn linear_spec(s: Seq<u64>) -> Seq<u64> {
    seq![
        sigma(s[0], 19, 28),
        sigma(s[1], 61, 39),
        sigma(s[2], 1, 6),
        sigma(s[3], 10, 17),
        sigma(s[4], 7, 41),
    ]
}

/// One Ascon round with round constant `c`: substitution layer, then
/// linear layer.
pub open spec fn round_spec(s: Seq<u64>, c: u64) -> Seq<u64> {
    linear_spec(substitution_spec(s, c))
}

/// The round constant of round `i` (`0 <= i < 12`).
pub open spec fn round_constant(i: int) -> u64 {
    ROUND_CONSTANTS[i]
}

/// The first `n` rounds of the permutation applied to `s`.
pub open spec fn permutation_spec(s: Seq<u64>, n: nat) -> Seq<u64>
    decreases n,
{
    if n == 0 {
        s
    } else {
        round_spec(permutation_spec(s, (n - 1) as nat), round_constant(n - 1))
    }
}

/// The twelve-round permutation p^12.
pub open spec fn p12(s: Seq<u64>) -> Seq<u64> {
    permutation_spec(s, 12)
}

/// `p^12` with its twelve rounds and their constants written out.
pub open spec fn p12_unrolled(s: Seq<u64>) -> Seq<u64> {
    let s1 = round_spec(s, 0xf0);
    let s2 = round_spec(s1, 0xe1);
    let s3 = round_spec(s2, 0xd2);
    let s4 = round_spec(s3, 0xc3);
    let s5 = round_spec(s4, 0xb4);
    let s6 = round_spec(s5, 0xa5);
    let s7 = round_spec(s6, 0x96);
    let s8 = round_spec(s7, 0x87);
    let s9 = round_spec(s8, 0x78);
    let s10 = round_spec(s9, 0x69);
    let s11 = round_spec(s10, 0x5a);
    let s12 = round_spec(s11, 0x4b);
    s12
}

/// The rounds of `p^12` use the constants `0xf0, 0xe1, ..., 0x4b` in order.
pub proof fn lemma_p12_unrolled(s: Seq<u64>)
    ensures
        p12(s) == p12_unrolled(s),
{
    assert(permutation_spec(s, 0) == s);
    assert(round_constant(0) == 0xf0);
    assert(permutation_spec(s, 1) == round_spec(permutation_spec(s, 0), 0xf0));
    assert(round_constant(1) == 0xe1);
    assert(permutation_spec(s, 2) == round_spec(permutation_spec(s, 1), 0xe1));
    assert(round_constant(2) == 0xd2);
    assert(permutation_spec(s, 3) == round_spec(permutation_spec(s, 2), 0xd2));
    assert(round_constant(3) == 0xc3);
    assert(permutation_spec(s, 4) == round_spec(permutation_spec(s, 3), 0xc3));
    assert(round_constant(4) == 0xb4);
    assert(permutation_spec(s, 5) == round_spec(permutation_spec(s, 4), 0xb4));
    assert(round_constant(5) == 0xa5);
    assert(permutation_spec(s, 6) == round_spec(permutation_spec(s, 5), 0xa5));
    assert(round_constant(6) == 0x96);
    assert(permutation_spec(s, 7) == round_spec(permutation_spec(s, 6), 0x96));
    assert(round_constant(7) == 0x87);
    assert(permutation_spec(s, 8) == round_spec(permutation_spec(s, 7), 0x87));
    assert(round_constant(8) == 0x78);
    assert(permutation_spec(s, 9) == round_spec(permutation_spec(s, 8), 0x78));
    assert(round_constant(9) == 0x69);
    assert(permutation_spec(s, 10) == round_spec(permutation_spec(s, 9), 0x69));
    assert(round_constant(10) == 0x5a);
    assert(permutation_spec(s, 11) == round_spec(permutation_spec(s, 10), 0x5a));
    assert(round_constant(11) == 0x4b);
    assert(permutation_spec(s, 12) == round_spec(permutation_spec(s, 11), 0x4b));
}

impl State {
    /// A state made of the five given words.
    pub fn new(x_0: u64, x_1: u64, x_2: u64, x_3: u64, x_4: u64) -> (r: Self)
        ensures
            r@ == seq![x_0, x_1, x_2, x_3, x_4],
    {
        let r = State { x: [x_0, x_1, x_2, x_3, x_4] };
        assert(r@ =~= seq![x_0, x_1, x_2, x_3, x_4]);
        r
    }

    /// A state made of the given array of words.
    pub fn new_arr(arr: [u64; 5]) -> (r: Self)
        ensures
            r@ == arr@,
    {
        State { x: arr }
    }

    /// Ascon's single round permutation with the given round constant.
    pub fn single_permutation(self, round_constant: u64) -> (r: Self)
        ensures
            r@ == round_spec(self@, round_constant),
    {
        let mut x_0 = self.x[0];
        let mut x_1 = self.x[1];
        let mut x_2 = self.x[2];
        let mut x_3 = self.x[3];
        let mut x_4 = self.x[4];

        // S-box
        x_0 ^= x_4;
        x_2 ^= x_1 ^ round_constant;
        x_4 ^= x_3;

        let x_0_0: u64 = x_0;
        let x_1_1: u64 = x_1;

        x_0 ^= (!x_1) & x_2;
        x_1 ^= (!x_2) & x_3;
        x_2 ^= (!x_3) & x_4;
        x_3 ^= (!x_4) & x_0_0;
        x_4 ^= (!x_0_0) & x_1_1;

        x_1 ^= x_0;
        x_3 ^= x_2;
        x_0 ^= x_4;

        x_2 = !x_2;

        // linear layer
        x_0 ^= rotr(x_0, 19) ^ rotr(x_0, 28);
        x_1 ^= rotr(x_1, 61) ^ rotr(x_1, 39);
        x_2 ^= rotr(x_2, 1) ^ rotr(x_2, 6);
        x_3 ^= rotr(x_3, 10) ^ rotr(x_3, 17);
        x_4 ^= rotr(x_4, 7) ^ rotr(x_4, 41);

        State::new(x_0, x_1, x_2, x_3, x_4)
    }

    /// The same round, with the words held in a tuple and the rotation
    /// pairs of the linear layer computed by one helper.
    pub fn single_permutation_with_tupples(self, round_constant: u64) -> (r: Self)
        ensures
            r@ == round_spec(self@, round_constant),
    {
        let (mut x_0, mut x_1, mut x_2, mut x_3, mut x_4) = (
            self.x[0],
            self.x[1],
            self.x[2],
            self.x[3],
            self.x[4],
        );

        // S-box
        x_0 ^= x_4;
        x_2 ^= x_1 ^ round_constant;
        x_4 ^= x_3;

        let x_0_0: u64 = x_0;
        let x_1_1: u64 = x_1;
        let ghost x_2_0 = x_2;

        x_0 ^= (!x_1) & x_2;
        x_1 ^= (!x_2) & x_3;
        x_2 ^= (!x_3) & x_4;
        x_3 ^= (!x_4) & x_0_0;
        // the updated word 0 stands where the S-box reads the input word 0;
        // both agree on the bits where word 1 is set
        proof {
            lemma_chi_after_update(x_4, x_0_0, x_1_1, x_2_0);
        }
        x_4 ^= (!x_0) & x_1_1;

        x_1 ^= x_0;
        x_3 ^= x_2;
        x_0 ^= x_4;

        x_2 = !x_2;

        // linear layer
        x_0 ^= rotate_xor(x_0, 19, 28);
        x_1 ^= rotate_xor(x_1, 61, 39);
        x_2 ^= rotate_xor(x_2, 1, 6);
        x_3 ^= rotate_xor(x_3, 10, 17);
        x_4 ^= rotate_xor(x_4, 7, 41);

        State::new(x_0, x_1, x_2, x_3, x_4)
    }

    /// The same round, with word 2 complemented only after its rotations are
    /// taken: `!w ^ (w >>> 1) ^ (w >>> 6)` equals the diffusion of `!w`.
    pub fn single_permutation_concurrent_mutex(self, round_constant: u64) -> (r: Self)
        ensures
            r@ == round_spec(self@, round_constant),
    {
        let mut x_0 = self.x[0];
        let mut x_1 = self.x[1];
        let mut x_2 = self.x[2];
        let mut x_3 = self.x[3];
        let mut x_4 = self.x[4];

        // S-box
        x_0 ^= x_4;
        x_2 ^= x_1 ^ round_constant;
        x_4 ^= x_3;

        let x_0_0 = x_0;
        let x_1_1 = x_1;

        x_0 ^= (!x_1) & x_2;
        x_1 ^= (!x_2) & x_3;
        x_2 ^= (!x_3) & x_4;
        x_3 ^= (!x_4) & x_0_0;
        x_4 ^= (!x_0_0) & x_1_1;

        x_1 ^= x_0;
        x_3 ^= x_2;
        x_0 ^= x_4;

        // linear layer
        let x_0_rotated = rotate_xor(x_0, 19, 28);
        let x_1_rotated = rotate_xor(x_1, 61, 39);
        let x_2_rotated = rotate_xor(x_2, 1, 6);
        let x_3_rotated = rotate_xor(x_3, 10, 17);
        let x_4_rotated = rotate_xor(x_4, 7, 41);

        proof {
            lemma_complement_then_diffuse(x_2, 1, 6);
        }
        State::new(
            x_0 ^ x_0_rotated,
            x_1 ^ x_1_rotated,
            !x_2 ^ x_2_rotated,
            x_3 ^ x_3_rotated,
            x_4 ^ x_4_rotated,
        )
    }

    /// The constant addition and substitution layer of one round.
    pub fn substitution_layer(self, round_constant: u64) -> (r: Self)
        ensures
            r@ == substitution_spec(self@, round_constant),
    {
        let x_0 = self.x[0] ^ self.x[4];
        let x_1 = self.x[1];
        let x_2 = self.x[2] ^ (self.x[1] ^ round_constant);
        let x_3 = self.x[3];
        let x_4 = self.x[4] ^ self.x[3];

        let t_0 = x_0 ^ ((!x_1) & x_2);
        let t_1 = x_1 ^ ((!x_2) & x_3);
        let t_2 = x_2 ^ ((!x_3) & x_4);
        let t_3 = x_3 ^ ((!x_4) & x_0);
        let t_4 = x_4 ^ ((!x_0) & x_1);

        State::new(t_0 ^ t_4, t_1 ^ t_0, !t_2, t_3 ^ t_2, t_4)
    }

    /// Ascon's permutation with twelve rounds, the round constants taken in
    /// order from `ROUND_CONSTANTS`.
    pub fn permutation_12_for(self) -> (r: Self)
        ensures
            r@ == p12(self@),
    {
        let mut s = self;
        for i in 0..12
            invariant
                s@ == permutation_spec(self@, i as nat),
        {
            s = s.single_permutation(ROUND_CONSTANTS[i]);
        }
        s
    }

    /// Ascon's permutation with twelve rounds, the round constants written
    /// out in the chain of calls.
    pub fn permutation_12(self) -> (r: Self)
        ensures
            r@ == p12(self@),
    {
        let s = self
            .single_permutation(0xf0)
            .single_permutation(0xe1)
            .single_permutation(0xd2)
            .single_permutation(0xc3)
            .single_permutation(0xb4)
            .single_permutation(0xa5)
            .single_permutation(0x96)
            .single_permutation(0x87)
            .single_permutation(0x78)
            .single_permutation(0x69)
            .single_permutation(0x5a)
            .single_permutation(0x4b);
        proof {
            lemma_p12_unrolled(self@);
        }
        s
    }

    /// One round as the thread-pool variant splits it: the substitution
    /// layer, then each word diffused on its own by [`linear_word`] (the job
    /// that the pool runs for that word), then the five results reassembled.
    pub fn single_permutation_by_words(self, round_constant: u64) -> (r: Self)
        ensures
            r@ == round_spec(self@, round_constant),
    {
        let t = self.substitution_layer(round_constant);
        State::new(
            linear_word(t.x[0], 19, 28),
            linear_word(t.x[1], 61, 39),
            linear_word(t.x[2], 1, 6),
            linear_word(t.x[3], 10, 17),
            linear_word(t.x[4], 7, 41),
        )
    }

    /// `p^12` built from [`State::single_permutation_by_words`], the round
    /// constants written out in the chain of calls.
    pub fn permutation_12_by_words(self) -> (r: Self)
        ensures
            r@ == p12(self@),
    {
        let s = self
            .single_permutation_by_words(0xf0)
            .single_permutation_by_words(0xe1)
            .single_permutation_by_words(0xd2)
            .single_permutation_by_words(0xc3)
            .single_permutation_by_words(0xb4)
            .single_permutation_by_words(0xa5)
            .single_permutation_by_words(0x96)
            .single_permutation_by_words(0x87)
            .single_permutation_by_words(0x78)
            .single_permutation_by_words(0x69)
            .single_permutation_by_words(0x5a)
            .single_permutation_by_words(0x4b);
        proof {
            lemma_p12_unrolled(self@);
        }
        s
    }
}

} // verus!
