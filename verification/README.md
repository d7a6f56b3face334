# ascon_hash_implementation

Ascon-Hash in Verus: the 320-bit Ascon permutation, the padding of a UTF-8
message into 64-bit blocks, and the sponge that produces a 256-bit digest.
Every function of the library carries a contract over a mathematical model
(`Seq<u64>` for the state, `Seq<u8>` for message bytes). All of them are proved
by Verus except one trusted wrapper, `concurrent::par_apply_word_op`, whose body
calls rayon's `par_iter_mut().for_each(..)`; its contract (each of the five words
is updated once) is taken on trust from rayon.

Layout of `src/`:

- `bits.rs` — word rotation, the S-box term and the diffusion term, with the
  bit-level identities the proofs use.
- `state.rs` — the state, the round and twelve-round permutation specs, and the
  round and permutation functions.
- `concurrent.rs` — the round variant that updates all words with rayon's
  parallel iterators.
- `compact_round.rs` — the round and permutation on plain arrays with nested
  rotations.
- `padding.rs` — big-endian block reading, the padding functions, and the proof
  that the padded blocks determine the message.
- `hash.rs` — the sponge and the hash functions.
- `injectivity.rs` — the proof that one round, and so `p^12`, is injective
  on the 320-bit state.
- `initialization.rs` — the proof that the precomputed initial state is `p^12`
  of the initialization vector.

`app/` holds the command-line program (read a line, print its digest; with
`--pool` the permutations run on a thread pool) and the thread-pool and
thread-spawning round variants, which call the library's verified substitution
layer, word diffusion, initial state and block absorption.
