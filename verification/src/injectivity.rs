//! Each Ascon round is injective on the 320-bit state, and hence so is the
//! permutation made of rounds: distinct states never collide.
use vstd::prelude::*;

use crate::bits::{chi, sigma};
use crate::state::{
    linear_spec, p12, permutation_spec, round_constant, round_spec, substitution_spec,
};

verus! {

/// Each diffusion of the linear layer is injective on words.
proof fn lemma_linear_words_injective(x: u64, y: u64)
    ensures
        sigma(x, 19, 28) == sigma(y, 19, 28) ==> x == y,
        sigma(x, 61, 39) == sigma(y, 61, 39) ==> x == y,
        sigma(x, 1, 6) == sigma(y, 1, 6) ==> x == y,
        sigma(x, 10, 17) == sigma(y, 10, 17) ==> x == y,
        sigma(x, 7, 41) == sigma(y, 7, 41) ==> x == y,
{
    assert(sigma(x, 19, 28) == sigma(y, 19, 28) ==> x == y) by (bit_vector);
    assert(sigma(x, 61, 39) == sigma(y, 61, 39) ==> x == y) by (bit_vector);
    assert(sigma(x, 1, 6) == sigma(y, 1, 6) ==> x == y) by (bit_vector);
    assert(sigma(x, 10, 17) == sigma(y, 10, 17) ==> x == y) by (bit_vector);
    assert(sigma(x, 7, 41) == sigma(y, 7, 41) ==> x == y) by (bit_vector);
}

/// The linear layer is injective on five-word states.
proof fn lemma_linear_injective(s: Seq<u64>, t: Seq<u64>)
    requires
        s.len() == 5,
        t.len() == 5,
        linear_spec(s) == linear_spec(t),
    ensures
        s == t,
{
    assert(linear_spec(s)[0] == linear_spec(t)[0]);
    assert(linear_spec(s)[1] == linear_spec(t)[1]);
    assert(linear_spec(s)[2] == linear_spec(t)[2]);
    assert(linear_spec(s)[3] == linear_spec(t)[3]);
    assert(linear_spec(s)[4] == linear_spec(t)[4]);
    lemma_linear_words_injective(s[0], t[0]);
    lemma_linear_words_injective(s[1], t[1]);
    lemma_linear_words_injective(s[2], t[2]);
    lemma_linear_words_injective(s[3], t[3]);
    lemma_linear_words_injective(s[4], t[4]);
    assert(s =~= t);
}

/// The substitution layer with constant `c` takes the words `a0..a4` to
/// `r0..r4`.
spec fn substitution_maps(
    a0: u64,
    a1: u64,
    a2: u64,
    a3: u64,
    a4: u64,
    c: u64,
    r0: u64,
    r1: u64,
    r2: u64,
    r3: u64,
    r4: u64,
) -> bool {
    let x0 = a0 ^ a4;
    let x1 = a1;
    let x2 = a2 ^ (a1 ^ c);
    let x3 = a3;
    let x4 = a4 ^ a3;
    let t0 = chi(x0, x1, x2);
    let t1 = chi(x1, x2, x3);
    let t2 = chi(x2, x3, x4);
    let t3 = chi(x3, x4, x0);
    let t4 = chi(x4, x0, x1);
    &&& t0 ^ t4 == r0
    &&& t1 ^ t0 == r1
    &&& !t2 == r2
    &&& t3 ^ t2 == r3
    &&& t4 == r4
}

/// The 5-bit S-box, applied to every bit column, is injective: two inputs
/// with the same output under the same constant are equal.
proof fn lemma_substitution_words_injective(
    a0: u64,
    a1: u64,
    a2: u64,
    a3: u64,
    a4: u64,
    b0: u64,
    b1: u64,
    b2: u64,
    b3: u64,
    b4: u64,
    c: u64,
    r0: u64,
    r1: u64,
    r2: u64,
    r3: u64,
    r4: u64,
)
    requires
        substitution_maps(a0, a1, a2, a3, a4, c, r0, r1, r2, r3, r4),
        substitution_maps(b0, b1, b2, b3, b4, c, r0, r1, r2, r3, r4),
    ensures
        a0 == b0 && a1 == b1 && a2 == b2 && a3 == b3 && a4 == b4,
{
    assert(a0 == b0 && a1 == b1 && a2 == b2 && a3 == b3 && a4 == b4) by (bit_vector)
        requires
            substitution_maps(a0, a1, a2, a3, a4, c, r0, r1, r2, r3, r4),
            substitution_maps(b0, b1, b2, b3, b4, c, r0, r1, r2, r3, r4),
    ;
}

/// The substitution layer is injective on five-word states.
proof fn lemma_substitution_injective(s: Seq<u64>, t: Seq<u64>, c: u64)
    requires
        s.len() == 5,
        t.len() == 5,
        substitution_spec(s, c) == substitution_spec(t, c),
    ensures
        s == t,
{
    let r = substitution_spec(s, c);
    assert(substitution_spec(t, c)[0] == r[0]);
    assert(substitution_spec(t, c)[1] == r[1]);
    assert(substitution_spec(t, c)[2] == r[2]);
    assert(substitution_spec(t, c)[3] == r[3]);
    assert(substitution_spec(t, c)[4] == r[4]);
    lemma_substitution_words_injective(
        s[0],
        s[1],
        s[2],
        s[3],
        s[4],
        t[0],
        t[1],
        t[2],
        t[3],
        t[4],
        c,
        r[0],
        r[1],
        r[2],
        r[3],
        r[4],
    );
    assert(s =~= t);
}

/// One Ascon round is injective: two five-word states that a round with the
/// same constant takes to the same state are equal (so
/// `s1.single_permutation(c) == s2.single_permutation(c)` implies
/// `s1 == s2`).
pub proof fn lemma_round_injective(s1: Seq<u64>, s2: Seq<u64>, c: u64)
    requires
        s1.len() == 5,
        s2.len() == 5,
        round_spec(s1, c) == round_spec(s2, c),
    ensures
        s1 == s2,
{
    lemma_linear_injective(substitution_spec(s1, c), substitution_spec(s2, c));
    lemma_substitution_injective(s1, s2, c);
}

/// Any number of rounds is injective: two five-word states that the first
/// `n` rounds take to the same state are equal.
pub proof fn lemma_permutation_injective(s1: Seq<u64>, s2: Seq<u64>, n: nat)
    requires
        s1.len() == 5,
        s2.len() == 5,
        permutation_spec(s1, n) == permutation_spec(s2, n),
    ensures
        s1 == s2,
    decreases n,
{
    if n > 0 {
        let m = (n - 1) as nat;
        lemma_permutation_len(s1, m);
        lemma_permutation_len(s2, m);
        lemma_round_injective(
            permutation_spec(s1, m),
            permutation_spec(s2, m),
            round_constant(n - 1),
        );
        lemma_permutation_injective(s1, s2, m);
    }
}

/// The twelve-round permutation `p^12` is injective.
pub proof fn lemma_p12_injective(s1: Seq<u64>, s2: Seq<u64>)
    requires
        s1.len() == 5,
        s2.len() == 5,
        p12(s1) == p12(s2),
    ensures
        s1 == s2,
{
    lemma_permutation_injective(s1, s2, 12);
}

proof fn lemma_permutation_len(s: Seq<u64>, n: nat)
    requires
        s.len() == 5,
    ensures
        permutation_spec(s, n).len() == 5,
    decreases n,
{
    if n > 0 {
        lemma_permutation_len(s, (n - 1) as nat);
    }
}

} // verus!
