//! The Ascon-Hash sponge: absorb the padded message blocks into the rate
//! word of the state, permuting after each, then squeeze four words.
use vstd::prelude::*;

use vstd::utf8::encode_utf8;

use crate::initialization::{iv_state, lemma_initial_state_is_permuted_iv};
use crate::padding::{block_padding, convert_pad_into_blocks, words_of};
use crate::state::{p12, State};

verus! {

/// The state after absorbing `blocks` into `s`: each block is xored into
/// word 0 and followed by `p^12`.
pub open spec fn absorb(s: Seq<u64>, blocks: Seq<u64>) -> Seq<u64>
    decreases blocks.len(),
{
    if blocks.len() == 0 {
        s
    } else {
        let t = absorb(s, blocks.drop_last());
        p12(t.update(0, t[0] ^ blocks.last()))
    }
}

/// The four output words squeezed from `s`: word 0 of `s`, then word 0
/// after each further application of `p^12`.
pub open spec fn squeeze(s: Seq<u64>) -> Seq<u64> {
    seq![s[0], p12(s)[0], p12(p12(s))[0], p12(p12(p12(s)))[0]]
}

/// The 256-bit digest, as four words, of the message bytes `m`: the
/// sponge starts from `p^12` of the initialization vector, absorbs the
/// blocks of the padded message and squeezes four words.
pub open spec fn ascon_hash_spec(m: Seq<u8>) -> Seq<u64> {
    squeeze(absorb(p12(iv_state()), words_of(block_padding(m))))
}

/// `p^12` applied `k` times.
pub open spec fn p12_times(s: Seq<u64>, k: nat) -> Seq<u64>
    decreases k,
{
    if k == 0 {
        s
    } else {
        p12(p12_times(s, (k - 1) as nat))
    }
}

/// Absorbing one more block `x` after the blocks `b`: `x` is xored into
/// word 0 of the state reached after `b`, then `p^12` is applied. Every
/// block is absorbed, whatever the number of blocks before it.
pub proof fn lemma_absorb_one_more_block(s: Seq<u64>, b: Seq<u64>, x: u64)
    ensures
        absorb(s, b.push(x)) == p12(absorb(s, b).update(0, absorb(s, b)[0] ^ x)),
{
    assert(b.push(x).drop_last() =~= b);
}

/// Absorption read from the front: absorbing a nonempty sequence of blocks
/// is xoring the first block into word 0, applying `p^12`, and absorbing
/// the remaining blocks from there.
pub proof fn lemma_absorb_first_block(s: Seq<u64>, b: Seq<u64>)
    requires
        b.len() > 0,
    ensures
        absorb(s, b) == absorb(p12(s.update(0, s[0] ^ b[0])), b.drop_first()),
    decreases b.len(),
{
    let s1 = p12(s.update(0, s[0] ^ b[0]));
    if b.len() == 1 {
        assert(b.drop_last() =~= Seq::<u64>::empty());
        assert(b.drop_first() =~= Seq::<u64>::empty());
        assert(absorb(s, b.drop_last()) == s);
        assert(b.last() == b[0]);
        assert(absorb(s1, b.drop_first()) == s1);
    } else {
        let bl = b.drop_last();
        let bf = b.drop_first();
        assert(bl[0] == b[0]);
        lemma_absorb_first_block(s, bl);
        assert(bl.drop_first() =~= bf.drop_last());
        assert(bf.last() == b.last());
        let t = absorb(s1, bf.drop_last());
        assert(absorb(s, bl) == t);
        assert(absorb(s1, bf) == p12(t.update(0, t[0] ^ bf.last())));
    }
}

/// The sponge read from the front: the first block is xored into word 0,
/// `p^12` is applied, and the remaining blocks follow in order.
pub open spec fn absorb_from_front(s: Seq<u64>, blocks: Seq<u64>) -> Seq<u64>
    decreases blocks.len(),
{
    if blocks.len() == 0 {
        s
    } else {
        absorb_from_front(p12(s.update(0, s[0] ^ blocks[0])), blocks.drop_first())
    }
}

/// Absorbing from the back and from the front give the same state.
pub proof fn lemma_absorb_from_front(s: Seq<u64>, blocks: Seq<u64>)
    ensures
        absorb(s, blocks) == absorb_from_front(s, blocks),
    decreases blocks.len(),
{
    if blocks.len() > 0 {
        lemma_absorb_first_block(s, blocks);
        lemma_absorb_from_front(p12(s.update(0, s[0] ^ blocks[0])), blocks.drop_first());
    }
}

/// The digest of `m` is squeezed from the state reached by absorbing every
/// block of the padded message, one after the other from the first, into
/// `p^12` of the initialization vector.
pub proof fn lemma_hash_absorbs_every_block(m: Seq<u8>)
    ensures
        ascon_hash_spec(m) == squeeze(
            absorb_from_front(p12(iv_state()), words_of(block_padding(m))),
        ),
{
    lemma_absorb_from_front(p12(iv_state()), words_of(block_padding(m)));
}

/// The digest words are word 0 of the absorbed state after zero, one, two
/// and three further applications of `p^12`.
pub proof fn lemma_squeeze_words(s: Seq<u64>)
    ensures
        squeeze(s).len() == 4,
        forall|k: int| 0 <= k < 4 ==> #[trigger] squeeze(s)[k] == p12_times(s, k as nat)[0],
{
    reveal_with_fuel(p12_times, 4);
    assert(p12_times(s, 0) == s);
    assert(p12_times(s, 1) == p12(s));
    assert(p12_times(s, 2) == p12(p12(s)));
    assert(p12_times(s, 3) == p12(p12(p12(s))));
}

impl State {
    /// The state Ascon-Hash starts from, `p^12` of the initialization
    /// vector, precomputed.
    pub fn hash_initial() -> (s: State)
        ensures
            s@ == p12(iv_state()),
    {
        proof {
            lemma_initial_state_is_permuted_iv();
        }
        State::new(
            0xee9398aadb67f03d,
            0x8bb21831c60f1002,
            0xb48a92db98d5da62,
            0x43189921b8f8e3e8,
            0x348fa5c9d525e140,
        )
    }

    /// Xors a message block into the rate word 0.
    pub fn absorb_block(self, block: u64) -> (r: State)
        ensures
            r@ == self@.update(0, self@[0] ^ block),
    {
        let mut r = self;
        r.x[0] = r.x[0] ^ block;
        r
    }
}

/// `p^12`, by whole rounds or word by word.
fn permute(s: State, by_words: bool) -> (r: State)
    ensures
        r@ == p12(s@),
{
    if by_words {
        s.permutation_12_by_words()
    } else {
        s.permutation_12_for()
    }
}

/// The sponge over the padded message blocks: absorption, then squeezing
/// of four words.
fn sponge(message_blocks: &Vec<u64>, by_words: bool) -> (r: Vec<u64>)
    ensures
        r@ == squeeze(absorb(p12(iv_state()), message_blocks@)),
{
    let ghost blocks = message_blocks@;

    let mut s: State = State::hash_initial();

    // Absorption
    let mut i: usize = 0;
    while i < message_blocks.len()
        invariant
            message_blocks@ == blocks,
            i <= blocks.len(),
            s@ == absorb(p12(iv_state()), blocks.take(i as int)),
        decreases blocks.len() - i,
    {
        proof {
            assert(blocks.take(i + 1).drop_last() =~= blocks.take(i as int));
        }
        s = s.absorb_block(message_blocks[i]);
        s = permute(s, by_words);
        i = i + 1;
    }
    assert(blocks.take(i as int) =~= blocks);

    // Squeezing
    let ghost absorbed = s@;
    let mut output_blocks: Vec<u64> = Vec::new();
    let mut k: usize = 0;
    while k < 3
        invariant
            k <= 3,
            output_blocks@.len() == k,
            k >= 1 ==> output_blocks@[0] == absorbed[0],
            k >= 2 ==> output_blocks@[1] == p12(absorbed)[0],
            k >= 3 ==> output_blocks@[2] == p12(p12(absorbed))[0],
            k == 0 ==> s@ == absorbed,
            k == 1 ==> s@ == p12(absorbed),
            k == 2 ==> s@ == p12(p12(absorbed)),
            k == 3 ==> s@ == p12(p12(p12(absorbed))),
        decreases 3 - k,
    {
        output_blocks.push(s.x[0]);
        s = permute(s, by_words);
        k = k + 1;
    }
    output_blocks.push(s.x[0]);
    assert(output_blocks@ =~= squeeze(absorbed));
    output_blocks
}

/// The hash of the UTF-8 bytes of `input_string`, as four 64-bit words.
pub fn ascon_hash(input_string: &String) -> (r: Vec<u64>)
    ensures
        r@ == ascon_hash_spec(encode_utf8(input_string@)),
{
    let message_blocks = convert_pad_into_blocks(input_string);
    sponge(&message_blocks, false)
}

/// The same hash, each round's linear layer computed word by word as the
/// thread-pool variant distributes it.
pub fn ascon_hash_pool(input_string: &String) -> (r: Vec<u64>)
    ensures
        r@ == ascon_hash_spec(encode_utf8(input_string@)),
{
    let message_blocks = convert_pad_into_blocks(input_string);
    sponge(&message_blocks, true)
}

} // verus!
