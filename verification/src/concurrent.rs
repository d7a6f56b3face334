//! The round variant that updates all five words at once with rayon's
//! parallel iterators, moving words between positions with swaps.
use vstd::prelude::*;

use rayon::iter::IntoParallelRefMutIterator;
use rayon::iter::ParallelIterator;

use crate::bits::{linear_word, sigma};
use crate::state::State;

verus! {

/// An update that is applied to every word of the state at once.
#[derive(Clone, Copy)]
pub enum WordOp {
    /// `w ^= k`
    XorWith(u64),
    /// `w ^= (w >>> a) ^ (w >>> b)`
    Diffuse(u32, u32),
}

/// The new value of word `w` under the update `op`.
pub open spec fn word_op_spec(op: WordOp, w: u64) -> u64 {
    match op {
        WordOp::XorWith(k) => w ^ k,
        WordOp::Diffuse(a, b) => sigma(w, a, b),
    }
}

/// Applies the update `op` to one word.
pub fn apply_word_op(op: WordOp, w: u64) -> (r: u64)
    ensures
        r == word_op_spec(op, w),
{
    match op {
        WordOp::XorWith(k) => w ^ k,
        WordOp::Diffuse(a, b) => linear_word(w, a, b),
    }
}

/// Runs rayon's `par_iter_mut().for_each(..)` over the five words, the
/// closure storing `apply_word_op(op, w)` into each word `w`. Claimed of
/// rayon: `for_each` calls the closure once on every item that the mutable
/// parallel iterator of the array yields, that is on each of the five words,
/// and returns once all calls are done.
#[verifier::external_body]
fn par_apply_word_op(words: &mut [u64; 5], op: WordOp)
    ensures
        forall|i: int| 0 <= i < 5 ==> #[trigger] final(words)@[i] == word_op_spec(op, old(words)@[i]),
{
    words.par_iter_mut().for_each(|w| *w = apply_word_op(op, *w));
}

/// Exchanges words `i` and `j`.
fn swap_words(words: &mut [u64; 5], i: usize, j: usize)
    requires
        i < 5,
        j < 5,
    ensures
        final(words)@ == old(words)@.update(i as int, old(words)@[j as int]).update(
            j as int,
            old(words)@[i as int],
        ),
{
    let t = words[i];
    words[i] = words[j];
    words[j] = t;
}

/// The five linear-layer diffusions applied one after the other to a word.
pub open spec fn diffuse_all(w: u64) -> u64 {
    sigma(sigma(sigma(sigma(sigma(w, 19, 28), 61, 39), 1, 6), 10, 17), 7, 41)
}

/// What `single_permutation_concurent` computes from the words `s`: the
/// round constant cancels, the words are xored with `!s[1] & s[2]`, every
/// word passes through all five diffusions, and the words end in the order
/// 4, 2, 3, 0, 1.
pub open spec fn concurrent_round_spec(s: Seq<u64>) -> Seq<u64> {
    let t = !s[1] & s[2];
    seq![
        diffuse_all(s[4] ^ t),
        diffuse_all(s[2] ^ t),
        diffuse_all(s[3] ^ t),
        diffuse_all(s[0] ^ t),
        diffuse_all(s[1] ^ t),
    ]
}

proof fn lemma_xor_twice(a: u64, k: u64)
    ensures
        (a ^ k) ^ k == a,
{
    assert((a ^ k) ^ k == a) by (bit_vector);
}

impl State {
    /// Updates all words in parallel with rayon: the round constant is
    /// xored in twice around a reordering of the words, the words are xored
    /// with a common S-box term and then diffused with all five rotation
    /// pairs, with swaps between the diffusions.
    pub fn single_permutation_concurent(self, round_constant: u64) -> (r: Self)
        ensures
            r@ == concurrent_round_spec(self@),
    {
        let ghost a = self@;
        let mut x: [u64; 5] = self.x;

        par_apply_word_op(&mut x, WordOp::XorWith(round_constant));
        swap_words(&mut x, 0, 1);
        swap_words(&mut x, 3, 4);
        par_apply_word_op(&mut x, WordOp::XorWith(round_constant));
        swap_words(&mut x, 1, 2);
        swap_words(&mut x, 2, 3);
        swap_words(&mut x, 3, 4);
        swap_words(&mut x, 0, 1);
        proof {
            lemma_xor_twice(a[0], round_constant);
            lemma_xor_twice(a[1], round_constant);
            lemma_xor_twice(a[2], round_constant);
            lemma_xor_twice(a[3], round_constant);
            lemma_xor_twice(a[4], round_constant);
            assert(x@ =~= seq![a[2], a[1], a[4], a[3], a[0]]);
        }

        let x_0_0: u64 = x[0];
        let x_1_1: u64 = x[1];
        let t = (!x_1_1) & x_0_0;
        par_apply_word_op(&mut x, WordOp::XorWith(t));

        par_apply_word_op(&mut x, WordOp::Diffuse(19, 28));
        swap_words(&mut x, 1, 2);
        par_apply_word_op(&mut x, WordOp::Diffuse(61, 39));
        swap_words(&mut x, 2, 3);
        par_apply_word_op(&mut x, WordOp::Diffuse(1, 6));
        swap_words(&mut x, 3, 4);
        par_apply_word_op(&mut x, WordOp::Diffuse(10, 17));
        swap_words(&mut x, 0, 1);
        par_apply_word_op(&mut x, WordOp::Diffuse(7, 41));

        let r = State { x };
        assert(r@ =~= concurrent_round_spec(a));
        r
    }
}

} // verus!
