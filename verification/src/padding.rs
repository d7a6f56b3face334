//! Message padding: the UTF-8 bytes of a message are extended with a single
//! `0x80` byte and zero bytes and cut into 64-bit big-endian blocks.
use vstd::prelude::*;

use vstd::arithmetic::div_mod::{lemma_div_denominator, lemma_fundamental_div_mod_converse};
use vstd::slice::slice_to_vec;
use vstd::utf8::encode_utf8;

verus! {

/// `256^n`
pub open spec fn pow256(n: nat) -> nat
    decreases n,
{
    if n == 0 {
        1
    } else {
        256 * pow256((n - 1) as nat)
    }
}

/// The big-endian value of a byte sequence.
pub open spec fn be_nat(b: Seq<u8>) -> nat
    decreases b.len(),
{
    if b.len() == 0 {
        0
    } else {
        be_nat(b.drop_last()) * 256 + b.last() as nat
    }
}

/// The 64-bit word whose big-endian bytes are the eight bytes `b`.
pub open spec fn be_word(b: Seq<u8>) -> u64 {
    be_nat(b) as u64
}

/// The bytes `b` read as consecutive 64-bit big-endian words; a trailing
/// partial word is not read.
pub open spec fn words_of(b: Seq<u8>) -> Seq<u64> {
    Seq::new(b.len() / 8, |i: int| be_word(b.subrange(8 * i, 8 * i + 8)))
}

/// `n` zero bytes.
pub open spec fn zeros(n: nat) -> Seq<u8> {
    Seq::new(n, |i: int| 0u8)
}

/// Ascon's padding: one `0x80` byte, then the fewest zero bytes that make
/// the length a multiple of 8.
pub open spec fn ascon_padding(m: Seq<u8>) -> Seq<u8> {
    m.push(0x80) + zeros(((8 - (m.len() + 1) % 8) % 8) as nat)
}

/// The padding that the hash uses: one `0x80` byte, then between one and
/// eight zero bytes up to a multiple of 8 (eight when `0x80` already ends a
/// block).
pub open spec fn block_padding(m: Seq<u8>) -> Seq<u8> {
    m.push(0x80) + zeros((8 - (m.len() + 1) % 8) as nat)
}

/// The blocks of `message_blocks_padding`: the words of the message padded
/// with Ascon's padding, up to the last word that holds a message byte; when
/// that last word is partial, it is then shifted left by eight bits for each
/// byte that the message lacks to fill it.
pub open spec fn message_blocks_spec(m: Seq<u8>) -> Seq<u64> {
    let n = m.len();
    let w = words_of(ascon_padding(m)).take(((n + 7) / 8) as int);
    if n % 8 == 0 {
        w
    } else {
        w.update(w.len() - 1, w.last() << ((8 * (8 - n % 8)) as u64))
    }
}

proof fn lemma_pow256_monotone(i: nat, j: nat)
    requires
        i <= j,
    ensures
        pow256(i) <= pow256(j),
    decreases j,
{
    if i < j {
        lemma_pow256_monotone(i, (j - 1) as nat);
    }
}

proof fn lemma_pow256_values()
    ensures
        pow256(7) == 0x100_0000_0000_0000,
        pow256(8) == 0x1_0000_0000_0000_0000,
{
    reveal_with_fuel(pow256, 9);
}

/// The big-endian word of the eight bytes `bytes[start..start + 8]`.
pub fn word_at(bytes: &[u8], start: usize) -> (w: u64)
    requires
        start + 8 <= bytes@.len(),
    ensures
        w == be_word(bytes@.subrange(start as int, start + 8)),
{
    let mut acc: u64 = 0;
    let mut j: usize = 0;
    proof {
        lemma_pow256_values();
        assert(bytes@.subrange(start as int, start as int) =~= Seq::<u8>::empty());
    }
    while j < 8
        invariant
            j <= 8,
            start + 8 <= bytes.len(),
            acc == be_nat(bytes@.subrange(start as int, start + j)),
            acc < pow256(j as nat),
            pow256(7) == 0x100_0000_0000_0000,
        decreases 8 - j,
    {
        proof {
            lemma_pow256_monotone(j as nat, 7);
            let next = bytes@.subrange(start as int, start + j + 1);
            assert(next.drop_last() =~= bytes@.subrange(start as int, start + j));
            assert(next.last() == bytes@[start + j]);
        }
        acc = acc * 256 + bytes[start + j] as u64;
        j = j + 1;
    }
    acc
}

proof fn lemma_pow256_positive(n: nat)
    ensures
        pow256(n) > 0,
    decreases n,
{
    if n > 0 {
        lemma_pow256_positive((n - 1) as nat);
    }
}

/// Big-endian order: byte `k` of `b` is digit `b.len() - 1 - k` of the
/// value of `b` in base 256, so the first byte is the most significant.
pub proof fn lemma_be_nat_digits(b: Seq<u8>, k: int)
    requires
        0 <= k < b.len(),
    ensures
        (be_nat(b) / pow256((b.len() - 1 - k) as nat)) % 256 == b[k],
    decreases b.len(),
{
    let d = b.drop_last();
    let x = be_nat(b) as int;
    lemma_fundamental_div_mod_converse(x, 256, be_nat(d) as int, b.last() as int);
    if k == b.len() - 1 {
        assert(pow256(0) == 1);
        assert(x / 1 == x);
        assert(b[k] == b.last());
    } else {
        let j = (b.len() - 1 - k) as nat;
        let q = pow256((j - 1) as nat);
        lemma_pow256_positive((j - 1) as nat);
        assert(pow256(j) == 256 * q);
        lemma_div_denominator(x, 256, q as int);
        assert(x / pow256(j) as int == (be_nat(d) as int) / (q as int));
        lemma_be_nat_digits(d, k);
        assert(((d.len() - 1 - k) as nat) == (j - 1) as nat);
        assert(d[k] == b[k]);
    }
}

/// The words of `bytes`, whose length is a multiple of 8.
pub fn words_from_bytes(bytes: &[u8]) -> (r: Vec<u64>)
    requires
        bytes@.len() % 8 == 0,
    ensures
        r@ == words_of(bytes@),
{
    let n = bytes.len();
    let mut r: Vec<u64> = Vec::new();
    let mut i: usize = 0;
    while i < n / 8
        invariant
            n == bytes@.len(),
            n % 8 == 0,
            i <= n / 8,
            r@ == words_of(bytes@).take(i as int),
        decreases n / 8 - i,
    {
        let w = word_at(bytes, 8 * i);
        r.push(w);
        i = i + 1;
        assert(r@ =~= words_of(bytes@).take(i as int));
    }
    assert(words_of(bytes@).take(i as int) =~= words_of(bytes@));
    r
}

/// The UTF-8 bytes of a string.
pub fn string_bytes(s: &String) -> (r: Vec<u8>)
    ensures
        r@ == encode_utf8(s@),
{
    slice_to_vec(s.as_str().as_bytes())
}

/// Appends `n` zero bytes.
fn push_zeros(v: &mut Vec<u8>, n: usize)
    ensures
        final(v)@ == old(v)@ + zeros(n as nat),
{
    let ghost start = v@;
    let mut k: usize = 0;
    while k < n
        invariant
            k <= n,
            v@ == start + zeros(k as nat),
        decreases n - k,
    {
        v.push(0);
        k = k + 1;
        assert(v@ =~= start + zeros(k as nat));
    }
}

/// Ascon's padding function: appends `0x80` and the fewest zero bytes that
/// make the length a multiple of 8, then reads the bytes as 64-bit
/// big-endian blocks.
pub fn vec_u8_to_u64_and_pad(input_blocks: Vec<u8>) -> (r: Vec<u64>)
    ensures
        r@ == words_of(ascon_padding(input_blocks@)),
{
    let mut input_blocks = input_blocks;
    let ghost m = input_blocks@;
    input_blocks.push(0b1000_0000);
    let padding_need = (8 - (input_blocks.len() % 8)) % 8;
    push_zeros(&mut input_blocks, padding_need);
    assert(input_blocks@ =~= ascon_padding(m));
    words_from_bytes(input_blocks.as_slice())
}

/// Ascon's padding function, filling one reused eight-byte buffer per block.
pub fn vec_u8_to_u64_and_pad_version_2(input_blocks: Vec<u8>) -> (r: Vec<u64>)
    ensures
        r@ == words_of(ascon_padding(input_blocks@)),
{
    let mut input_blocks = input_blocks;
    let ghost m = input_blocks@;
    input_blocks.push(0b1000_0000);
    let padding_need = (8 - (input_blocks.len() % 8)) % 8;
    push_zeros(&mut input_blocks, padding_need);
    let ghost padded = input_blocks@;
    assert(padded =~= ascon_padding(m));

    let n = input_blocks.len();
    let mut result: Vec<u64> = Vec::new();
    let mut buffer: [u8; 8] = [0; 8];
    let mut start: usize = 0;
    while start < n
        invariant
            n == padded.len(),
            input_blocks@ == padded,
            n % 8 == 0,
            start % 8 == 0,
            start <= n,
            result@ == words_of(padded).take((start / 8) as int),
        decreases n - start,
    {
        let mut j: usize = 0;
        while j < 8
            invariant
                n == padded.len(),
                input_blocks@ == padded,
                start + 8 <= n,
                j <= 8,
                forall|k: int| 0 <= k < j ==> buffer@[k] == padded[start + k],
            decreases 8 - j,
        {
            buffer[j] = input_blocks[start + j];
            j = j + 1;
        }
        assert(buffer@ =~= padded.subrange(start as int, start + 8));
        let value = word_at(&buffer, 0);
        assert(buffer@.subrange(0, 8) =~= buffer@);
        result.push(value);
        start = start + 8;
        assert(result@ =~= words_of(padded).take((start / 8) as int));
    }
    assert(words_of(padded).take((n / 8) as int) =~= words_of(padded));
    result
}

/// Pads the UTF-8 bytes of `messages` with `0x80` and one to eight zero
/// bytes up to a multiple of 8, and reads them as 64-bit big-endian blocks.
pub fn convert_pad_into_blocks(messages: &String) -> (r: Vec<u64>)
    ensures
        r@ == words_of(block_padding(encode_utf8(messages@))),
{
    let mut input_blocks: Vec<u8> = string_bytes(messages);
    let ghost m = input_blocks@;

    input_blocks.push(0b1000_0000);

    let padding_need = 8 - (input_blocks.len() % 8);
    push_zeros(&mut input_blocks, padding_need);
    assert(input_blocks@ =~= block_padding(m));

    words_from_bytes(input_blocks.as_slice())
}

/// The byte at position `k` of Ascon's padding of `m`.
proof fn lemma_ascon_padding_index(m: Seq<u8>, k: int)
    requires
        0 <= k < ascon_padding(m).len(),
    ensures
        ascon_padding(m)[k] == (if k < m.len() {
            m[k]
        } else if k == m.len() {
            0x80u8
        } else {
            0u8
        }),
{
}

/// Blocks of the UTF-8 bytes of `messages`, eight bytes each; the last,
/// partial block carries a `0x80` byte after the message and is then shifted
/// left by eight bits for each missing byte. A message whose length is a
/// multiple of 8 gets no padding block.
pub fn message_blocks_padding(messages: &String) -> (r: Vec<u64>)
    ensures
        r@ == message_blocks_spec(encode_utf8(messages@)),
{
    let mut vec_message_blocks: Vec<u64> = Vec::new();

    let bytes = messages.as_str().as_bytes();
    let ghost m = bytes@;
    let ghost padded = ascon_padding(m);
    let n = bytes.len();
    let block_number = n / 8 + if n % 8 == 0 { 0 } else { 1 };
    let mut padding: usize = 0;

    let mut i: usize = 0;
    while i < block_number
        invariant
            m == bytes@,
            padded == ascon_padding(m),
            n == m.len(),
            block_number == (n + 7) / 8,
            i <= block_number,
            vec_message_blocks@ == words_of(padded).take(i as int),
            padding == (if i == block_number && n % 8 != 0 { 8 - n % 8 } else { 0 }),
        decreases block_number - i,
    {
        let start = i * 8;
        let end = if n - start > 8 { start + 8 } else { n };
        let chunk_len = end - start;

        let mut buffer: [u8; 8] = [0; 8];
        let mut j: usize = 0;
        while j < chunk_len
            invariant
                m == bytes@,
                n == m.len(),
                start + chunk_len <= n,
                chunk_len <= 8,
                j <= chunk_len,
                forall|k: int| 0 <= k < j ==> buffer@[k] == m[start + k],
                forall|k: int| j <= k < 8 ==> buffer@[k] == 0,
            decreases chunk_len - j,
        {
            buffer[j] = bytes[start + j];
            j = j + 1;
        }

        if chunk_len < 8 {
            padding = 8 - chunk_len;
            buffer[chunk_len] = 0b1000_0000;
        }
        proof {
            assert forall|k: int| 0 <= k < 8 implies buffer@[k] == padded[start + k] by {
                lemma_ascon_padding_index(m, start + k);
            }
            assert(buffer@ =~= padded.subrange(start as int, start + 8));
        }

        let value = word_at(&buffer, 0);
        assert(buffer@.subrange(0, 8) =~= buffer@);
        vec_message_blocks.push(value);
        i = i + 1;
        assert(vec_message_blocks@ =~= words_of(padded).take(i as int));
    }

    if padding > 0 {
        let last_index = vec_message_blocks.len() - 1;
        let last_value = vec_message_blocks[last_index];
        vec_message_blocks.set(last_index, last_value << ((8 * padding) as u64));
    }

    vec_message_blocks
}

proof fn lemma_be_nat_bound(b: Seq<u8>)
    ensures
        be_nat(b) < pow256(b.len()),
    decreases b.len(),
{
    if b.len() > 0 {
        lemma_be_nat_bound(b.drop_last());
    }
}

/// Byte sequences of the same length with the same big-endian value are
/// equal.
proof fn lemma_be_nat_injective(a: Seq<u8>, b: Seq<u8>)
    requires
        a.len() == b.len(),
        be_nat(a) == be_nat(b),
    ensures
        a == b,
    decreases a.len(),
{
    if a.len() > 0 {
        assert(a.last() == b.last());
        lemma_be_nat_injective(a.drop_last(), b.drop_last());
        assert(a =~= a.drop_last().push(a.last()));
        assert(b =~= b.drop_last().push(b.last()));
    } else {
        assert(a =~= b);
    }
}

/// Byte sequences whose lengths are multiples of 8 and that read as the same
/// words are equal.
proof fn lemma_words_of_injective(a: Seq<u8>, b: Seq<u8>)
    requires
        a.len() % 8 == 0,
        b.len() % 8 == 0,
        words_of(a) == words_of(b),
    ensures
        a == b,
{
    assert(words_of(a).len() == words_of(b).len());
    assert(words_of(a).len() == a.len() / 8);
    assert(words_of(b).len() == b.len() / 8);
    assert(a.len() == b.len()) by (nonlinear_arith)
        requires
            a.len() % 8 == 0,
            b.len() % 8 == 0,
            a.len() / 8 == b.len() / 8,
    ;
    lemma_pow256_values();
    assert forall|k: int| 0 <= k < a.len() implies a[k] == b[k] by {
        let i = k / 8;
        assert(0 <= i < a.len() / 8 && 8 * i <= k < 8 * i + 8) by (nonlinear_arith)
            requires
                0 <= k < a.len(),
                a.len() % 8 == 0,
                i == k / 8,
        ;
        let ca = a.subrange(8 * i, 8 * i + 8);
        let cb = b.subrange(8 * i, 8 * i + 8);
        lemma_be_nat_bound(ca);
        lemma_be_nat_bound(cb);
        assert(words_of(a)[i] == be_word(ca));
        assert(words_of(b)[i] == be_word(cb));
        assert(be_nat(ca) == be_nat(cb));
        lemma_be_nat_injective(ca, cb);
        assert(ca[k - 8 * i] == cb[k - 8 * i]);
    }
    assert(a =~= b);
}

/// A message followed by `0x80` and zero bytes determines the message: the
/// message ends just before the last nonzero byte.
proof fn lemma_marker_padding_injective(m1: Seq<u8>, z1: nat, m2: Seq<u8>, z2: nat)
    requires
        m1.push(0x80) + zeros(z1) == m2.push(0x80) + zeros(z2),
    ensures
        m1 == m2,
{
    let p1 = m1.push(0x80) + zeros(z1);
    let p2 = m2.push(0x80) + zeros(z2);
    assert forall|j: int| 0 <= j < p1.len() implies p1[j] == (if j < m1.len() {
        m1[j]
    } else if j == m1.len() {
        0x80u8
    } else {
        0u8
    }) by {
        if j > m1.len() {
            assert(zeros(z1)[j - m1.len() - 1] == 0);
        }
    }
    assert forall|j: int| 0 <= j < p2.len() implies p2[j] == (if j < m2.len() {
        m2[j]
    } else if j == m2.len() {
        0x80u8
    } else {
        0u8
    }) by {
        if j > m2.len() {
            assert(zeros(z2)[j - m2.len() - 1] == 0);
        }
    }
    assert(p1.len() == p2.len());
    if m1.len() < m2.len() {
        assert(p2[m2.len() as int] == 0x80);
        assert(p1[m2.len() as int] == 0);
    } else if m2.len() < m1.len() {
        assert(p1[m1.len() as int] == 0x80);
        assert(p2[m1.len() as int] == 0);
    } else {
        assert forall|k: int| 0 <= k < m1.len() implies m1[k] == m2[k] by {
            assert(p1[k] == m1[k]);
            assert(p2[k] == m2[k]);
            assert(p1[k] == p2[k]);
        }
        assert(m1 =~= m2);
    }
}

/// Distinct messages give distinct blocks under Ascon's padding (the blocks
/// of `vec_u8_to_u64_and_pad`): the blocks determine the message.
pub proof fn lemma_ascon_padding_blocks_injective(m1: Seq<u8>, m2: Seq<u8>)
    requires
        words_of(ascon_padding(m1)) == words_of(ascon_padding(m2)),
    ensures
        m1 == m2,
{
    lemma_words_of_injective(ascon_padding(m1), ascon_padding(m2));
    lemma_marker_padding_injective(
        m1,
        ((8 - (m1.len() + 1) % 8) % 8) as nat,
        m2,
        ((8 - (m2.len() + 1) % 8) % 8) as nat,
    );
}

/// Distinct messages give distinct blocks under the padding that the hash
/// absorbs (the blocks of `convert_pad_into_blocks`): the blocks determine
/// the message.
pub proof fn lemma_block_padding_blocks_injective(m1: Seq<u8>, m2: Seq<u8>)
    requires
        words_of(block_padding(m1)) == words_of(block_padding(m2)),
    ensures
        m1 == m2,
{
    lemma_words_of_injective(block_padding(m1), block_padding(m2));
    lemma_marker_padding_injective(
        m1,
        (8 - (m1.len() + 1) % 8) as nat,
        m2,
        (8 - (m2.len() + 1) % 8) as nat,
    );
}

/// The last block of a padded message: the last `m.len() % 8` bytes of `m`,
/// the byte `0x80`, then zero bytes up to eight bytes.
pub open spec fn marked_tail(m: Seq<u8>) -> Seq<u8> {
    m.subrange(8 * (m.len() / 8) as int, m.len() as int).push(0x80) + zeros(
        (7 - m.len() % 8) as nat,
    )
}

/// The words of `m` followed by `0x80` and `z` zero bytes: the words before
/// position `m.len() / 8` hold eight message bytes each, the next one is
/// the marked tail, and any further word is zero.
proof fn lemma_marker_padding_words(m: Seq<u8>, z: nat)
    requires
        (m.len() + 1 + z) % 8 == 0,
    ensures
        words_of(m.push(0x80) + zeros(z)).len() == (m.len() + 1 + z) / 8,
        forall|i: int|
            0 <= i < m.len() / 8 ==> #[trigger] words_of(m.push(0x80) + zeros(z))[i] == be_word(
                m.subrange(8 * i, 8 * i + 8),
            ),
        words_of(m.push(0x80) + zeros(z))[(m.len() / 8) as int] == be_word(marked_tail(m)),
        forall|i: int|
            m.len() / 8 < i < (m.len() + 1 + z) / 8 ==> #[trigger] words_of(
                m.push(0x80) + zeros(z),
            )[i] == 0,
{
    let n = m.len();
    let p = m.push(0x80) + zeros(z);
    assert forall|j: int| 0 <= j < p.len() implies p[j] == (if j < n {
        m[j]
    } else if j == n {
        0x80u8
    } else {
        0u8
    }) by {
        if j > n {
            assert(zeros(z)[j - n - 1] == 0);
        }
    }
    assert(8 * (n / 8) <= n < 8 * (n / 8) + 8) by (nonlinear_arith);
    assert(8 * (n / 8) + 8 <= p.len()) by (nonlinear_arith)
        requires
            (p.len()) % 8 == 0,
            n < p.len(),
            8 * (n / 8) <= n < 8 * (n / 8) + 8,
    ;
    assert forall|i: int| 0 <= i < n / 8 implies #[trigger] words_of(p)[i] == be_word(
        m.subrange(8 * i, 8 * i + 8),
    ) by {
        assert(8 * i + 8 <= n) by (nonlinear_arith)
            requires
                0 <= i < n / 8,
        ;
        assert(p.subrange(8 * i, 8 * i + 8) =~= m.subrange(8 * i, 8 * i + 8));
    }
    let q: int = 8 * (n / 8) as int;
    assert(p.subrange(q, q + 8) =~= marked_tail(m)) by {
        let t = marked_tail(m);
        assert(t.len() == 8);
        assert forall|k: int| 0 <= k < 8 implies p.subrange(q, q + 8)[k] == t[k] by {
            if q + k > n {
                assert(zeros((7 - n % 8) as nat)[k - (n - q) - 1] == 0);
            }
        }
    }
    assert forall|i: int| n / 8 < i < (n + 1 + z) / 8 implies #[trigger] words_of(p)[i] == 0 by {
        assert(n < 8 * i && 8 * i + 8 <= p.len()) by (nonlinear_arith)
            requires
                n / 8 < i < p.len() / 8,
                p.len() % 8 == 0,
        ;
        let c = p.subrange(8 * i, 8 * i + 8);
        assert(c =~= zeros(8));
        lemma_be_nat_zeros(8);
    }
}

proof fn lemma_be_nat_zeros(k: nat)
    ensures
        be_nat(zeros(k)) == 0,
    decreases k,
{
    if k > 0 {
        assert(zeros(k).drop_last() =~= zeros((k - 1) as nat));
        lemma_be_nat_zeros((k - 1) as nat);
    }
}

/// The blocks of Ascon's padding (`vec_u8_to_u64_and_pad`): there are
/// `m.len() / 8 + 1` of them; each block before the last is the big-endian
/// word of the next eight message bytes, and the last one holds the
/// remaining `m.len() % 8` bytes, then `0x80`, then zero bytes.
pub proof fn lemma_ascon_padding_words(m: Seq<u8>)
    ensures
        words_of(ascon_padding(m)).len() == m.len() / 8 + 1,
        forall|i: int|
            0 <= i < m.len() / 8 ==> #[trigger] words_of(ascon_padding(m))[i] == be_word(
                m.subrange(8 * i, 8 * i + 8),
            ),
        words_of(ascon_padding(m))[(m.len() / 8) as int] == be_word(marked_tail(m)),
{
    let z = ((8 - (m.len() + 1) % 8) % 8) as nat;
    lemma_marker_padding_words(m, z);
    assert((m.len() + 1 + z) / 8 == m.len() / 8 + 1);
}

/// The blocks of the padding that the hash absorbs
/// (`convert_pad_into_blocks`): as in Ascon's padding, the blocks before
/// position `m.len() / 8` hold eight message bytes each and the block at
/// that position holds the remaining bytes, `0x80` and zero bytes; when that
/// block is full (`m.len() % 8 == 7`) one more all-zero block follows.
pub proof fn lemma_block_padding_words(m: Seq<u8>)
    ensures
        words_of(block_padding(m)).len() == m.len() / 8 + (if m.len() % 8 == 7 {
            2int
        } else {
            1int
        }),
        forall|i: int|
            0 <= i < m.len() / 8 ==> #[trigger] words_of(block_padding(m))[i] == be_word(
                m.subrange(8 * i, 8 * i + 8),
            ),
        words_of(block_padding(m))[(m.len() / 8) as int] == be_word(marked_tail(m)),
        m.len() % 8 == 7 ==> words_of(block_padding(m))[(m.len() / 8 + 1) as int] == 0,
{
    let z = (8 - (m.len() + 1) % 8) as nat;
    lemma_marker_padding_words(m, z);
}

/// The blocks of `message_blocks_padding`: `(m.len() + 7) / 8` of them; each
/// full block is the big-endian word of its eight message bytes, and when
/// `m.len() % 8 != 0` the last block is the word of the remaining bytes,
/// `0x80` and zero bytes, shifted left by eight bits for each of the
/// `8 - m.len() % 8` missing bytes.
pub proof fn lemma_message_blocks_words(m: Seq<u8>)
    ensures
        message_blocks_spec(m).len() == (m.len() + 7) / 8,
        forall|i: int|
            0 <= i < m.len() / 8 ==> #[trigger] message_blocks_spec(m)[i] == be_word(
                m.subrange(8 * i, 8 * i + 8),
            ),
        m.len() % 8 != 0 ==> message_blocks_spec(m)[(m.len() / 8) as int] == be_word(marked_tail(m)) << (
        (8 * (8 - m.len() % 8)) as u64),
{
    lemma_ascon_padding_words(m);
}

/// Conversion of a string or string slice to its UTF-8 bytes.
pub trait StringToU8 {
    fn string_to_u8(&self) -> Vec<u8>;
}

impl StringToU8 for &str {
    fn string_to_u8(&self) -> (r: Vec<u8>)
        ensures
            r@ == encode_utf8(self@),
    {
        slice_to_vec(self.as_bytes())
    }
}

impl StringToU8 for String {
    fn string_to_u8(&self) -> (r: Vec<u8>)
        ensures
            r@ == encode_utf8(self@),
    {
        string_bytes(self)
    }
}

} // verus!
