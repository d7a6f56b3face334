//! Ascon-Hash: the 320-bit Ascon permutation, the message padding into
//! 64-bit blocks, and the sponge that absorbs the blocks and squeezes a
//! 256-bit digest, with contracts over the mathematical model of each step.
use vstd::prelude::*;

pub mod bits;
pub mod state;
pub mod concurrent;
pub mod compact_round;
pub mod padding;
pub mod hash;
pub mod initialization;
pub mod injectivity;

pub use compact_round::{permute_12_theirs, round};
pub use hash::{ascon_hash, ascon_hash_pool};
pub use padding::{
    convert_pad_into_blocks, message_blocks_padding, vec_u8_to_u64_and_pad,
    vec_u8_to_u64_and_pad_version_2, StringToU8,
};
pub use state::{State, ROUND_CONSTANTS};

verus! {

} // verus!
