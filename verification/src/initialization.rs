//! The initial state of Ascon-Hash is the twelve-round permutation of its
//! initialization vector: checked round by round on the concrete words.
use vstd::prelude::*;

use crate::bits::{chi, sigma};
use crate::state::{p12, permutation_spec, round_constant, round_spec};

verus! {

/// The state that Ascon-Hash starts from, written out.
pub open spec fn initial_state() -> Seq<u64> {
    seq![
        0xee9398aadb67f03d,
        0x8bb21831c60f1002,
        0xb48a92db98d5da62,
        0x43189921b8f8e3e8,
        0x348fa5c9d525e140,
    ]
}

/// The initialization vector of Ascon-Hash followed by four zero words.
pub open spec fn iv_state() -> Seq<u64> {
    seq![0x00400c0000000100, 0, 0, 0, 0]
}

/// The round with constant `c` takes the words `a0..a4` to `r0..r4`.
spec fn round_maps(
    a0: u64,
    a1: u64,
    a2: u64,
    a3: u64,
    a4: u64,
    c: u64,
    r0: u64,
    r1: u64,
    r2: u64,
    r3: u64,
    r4: u64,
) -> bool {
    let x0 = a0 ^ a4;
    let x1 = a1;
    let x2 = a2 ^ (a1 ^ c);
    let x3 = a3;
    let x4 = a4 ^ a3;
    let t0 = chi(x0, x1, x2);
    let t1 = chi(x1, x2, x3);
    let t2 = chi(x2, x3, x4);
    let t3 = chi(x3, x4, x0);
    let t4 = chi(x4, x0, x1);
    &&& sigma(t0 ^ t4, 19, 28) == r0
    &&& sigma(t1 ^ t0, 61, 39) == r1
    &&& sigma(!t2, 1, 6) == r2
    &&& sigma(t3 ^ t2, 10, 17) == r3
    &&& sigma(t4, 7, 41) == r4
}

proof fn lemma_round_maps(a: Seq<u64>, c: u64, r: Seq<u64>)
    requires
        a.len() == 5,
        r.len() == 5,
        round_maps(a[0], a[1], a[2], a[3], a[4], c, r[0], r[1], r[2], r[3], r[4]),
    ensures
        round_spec(a, c) == r,
{
    assert(round_spec(a, c) =~= r);
}

/// The initial state that Ascon-Hash starts from is `p^12` applied to the
/// initialization vector followed by four zero words.
pub proof fn lemma_initial_state_is_permuted_iv()
    ensures
        p12(iv_state()) == initial_state(),
{
    let s0 = iv_state();
    assert(permutation_spec(s0, 0) == s0);

    // round 1, round constant 0xf0
    let s1 = seq![
        0x007e13080580c1f0u64, 0x02406c03e0008e68, 0x3fffffffffffff74,
        0x7cb81c23060001f0, 0x0000000000000000,
    ];
    assert(round_maps(
        0x00400c0000000100, 0x0000000000000000, 0x0000000000000000, 0x0000000000000000, 0x0000000000000000,
        0xf0,
        0x007e13080580c1f0, 0x02406c03e0008e68, 0x3fffffffffffff74, 0x7cb81c23060001f0, 0x0000000000000000,
    )) by (bit_vector);
    assert(round_constant(0) == 0xf0);
    lemma_round_maps(s0, 0xf0, s1);
    assert(permutation_spec(s0, 1) == s1);

    // round 2, round constant 0xe1
    let s2 = seq![
        0x7371a16ff5fa2d5du64, 0x6a7a192f3379cda7, 0xa8695bb21f80cb3b,
        0x9a177c14ebd223de, 0x9e3600c75bf353df,
    ];
    assert(round_maps(
        0x007e13080580c1f0, 0x02406c03e0008e68, 0x3fffffffffffff74, 0x7cb81c23060001f0, 0x0000000000000000,
        0xe1,
        0x7371a16ff5fa2d5d, 0x6a7a192f3379cda7, 0xa8695bb21f80cb3b, 0x9a177c14ebd223de, 0x9e3600c75bf353df,
    )) by (bit_vector);
    assert(round_constant(1) == 0xe1);
    lemma_round_maps(s1, 0xe1, s2);
    assert(permutation_spec(s0, 2) == s2);

    // round 3, round constant 0xd2
    let s3 = seq![
        0x476a946146dd7355u64, 0xc85b138c3f586699, 0xe5cdd187a5b8e3ce,
        0x4c063d7c5e05570c, 0x2445fee59a105e74,
    ];
    assert(round_maps(
        0x7371a16ff5fa2d5d, 0x6a7a192f3379cda7, 0xa8695bb21f80cb3b, 0x9a177c14ebd223de, 0x9e3600c75bf353df,
        0xd2,
        0x476a946146dd7355, 0xc85b138c3f586699, 0xe5cdd187a5b8e3ce, 0x4c063d7c5e05570c, 0x2445fee59a105e74,
    )) by (bit_vector);
    assert(round_constant(2) == 0xd2);
    lemma_round_maps(s2, 0xd2, s3);
    assert(permutation_spec(s0, 3) == s3);

    // round 4, round constant 0xc3
    let s4 = seq![
        0x0cceb09bdfedb1c3u64, 0x473ac6b77729bc1a, 0x64f42332c01cf6de,
        0x07d90bc9aa53df88, 0x6920779134bb489e,
    ];
    assert(round_maps(
        0x476a946146dd7355, 0xc85b138c3f586699, 0xe5cdd187a5b8e3ce, 0x4c063d7c5e05570c, 0x2445fee59a105e74,
        0xc3,
        0x0cceb09bdfedb1c3, 0x473ac6b77729bc1a, 0x64f42332c01cf6de, 0x07d90bc9aa53df88, 0x6920779134bb489e,
    )) by (bit_vector);
    assert(round_constant(3) == 0xc3);
    lemma_round_maps(s3, 0xc3, s4);
    assert(permutation_spec(s0, 4) == s4);

    // round 5, round constant 0xb4
    let s5 = seq![
        0x54f43d4d0ee67a67u64, 0xdc202e78eb690582, 0x08c99ce6db226583,
        0x5a31f380b3edfff4, 0x32f5cedddbe2648c,
    ];
    assert(round_maps(
        0x0cceb09bdfedb1c3, 0x473ac6b77729bc1a, 0x64f42332c01cf6de, 0x07d90bc9aa53df88, 0x6920779134bb489e,
        0xb4,
        0x54f43d4d0ee67a67, 0xdc202e78eb690582, 0x08c99ce6db226583, 0x5a31f380b3edfff4, 0x32f5cedddbe2648c,
    )) by (bit_vector);
    assert(round_constant(4) == 0xb4);
    lemma_round_maps(s4, 0xb4, s5);
    assert(permutation_spec(s0, 5) == s5);

    // round 6, round constant 0xa5
    let s6 = seq![
        0xfcb4eb9f6fe1b663u64, 0xea63f8d3f8f534e8, 0xc21428a636730a87,
        0x131a5cae69929daf, 0x9ba4ca1a149a2554,
    ];
    assert(round_maps(
        0x54f43d4d0ee67a67, 0xdc202e78eb690582, 0x08c99ce6db226583, 0x5a31f380b3edfff4, 0x32f5cedddbe2648c,
        0xa5,
        0xfcb4eb9f6fe1b663, 0xea63f8d3f8f534e8, 0xc21428a636730a87, 0x131a5cae69929daf, 0x9ba4ca1a149a2554,
    )) by (bit_vector);
    assert(round_constant(5) == 0xa5);
    lemma_round_maps(s5, 0xa5, s6);
    assert(permutation_spec(s0, 6) == s6);

    // round 7, round constant 0x96
    let s7 = seq![
        0xc82b92ead08b0173u64, 0x9c58426411419527, 0x29c649e15f5cd678,
        0x147d77e5d4268355, 0x15a2323529f7ebac,
    ];
    assert(round_maps(
        0xfcb4eb9f6fe1b663, 0xea63f8d3f8f534e8, 0xc21428a636730a87, 0x131a5cae69929daf, 0x9ba4ca1a149a2554,
        0x96,
        0xc82b92ead08b0173, 0x9c58426411419527, 0x29c649e15f5cd678, 0x147d77e5d4268355, 0x15a2323529f7ebac,
    )) by (bit_vector);
    assert(round_constant(6) == 0x96);
    lemma_round_maps(s6, 0x96, s7);
    assert(permutation_spec(s0, 7) == s7);

    // round 8, round constant 0x87
    let s8 = seq![
        0x4c362cf1876ff66cu64, 0xd5ee62f1ccde3930, 0xd33d818e7e4af19a,
        0xe1af7a384215024a, 0x4bf2f1c1f0ab1aa1,
    ];
    assert(round_maps(
        0xc82b92ead08b0173, 0x9c58426411419527, 0x29c649e15f5cd678, 0x147d77e5d4268355, 0x15a2323529f7ebac,
        0x87,
        0x4c362cf1876ff66c, 0xd5ee62f1ccde3930, 0xd33d818e7e4af19a, 0xe1af7a384215024a, 0x4bf2f1c1f0ab1aa1,
    )) by (bit_vector);
    assert(round_constant(7) == 0x87);
    lemma_round_maps(s7, 0x87, s8);
    assert(permutation_spec(s0, 8) == s8);

    // round 9, round constant 0x78
    let s9 = seq![
        0x8d1a27b5dbefba5fu64, 0x263c269fefa180c3, 0xb90f219404d6bcf4,
        0xfcc893c302a96e45, 0x509e146ea76c7a1c,
    ];
    assert(round_maps(
        0x4c362cf1876ff66c, 0xd5ee62f1ccde3930, 0xd33d818e7e4af19a, 0xe1af7a384215024a, 0x4bf2f1c1f0ab1aa1,
        0x78,
        0x8d1a27b5dbefba5f, 0x263c269fefa180c3, 0xb90f219404d6bcf4, 0xfcc893c302a96e45, 0x509e146ea76c7a1c,
    )) by (bit_vector);
    assert(round_constant(8) == 0x78);
    lemma_round_maps(s8, 0x78, s9);
    assert(permutation_spec(s0, 9) == s9);

    // round 10, round constant 0x69
    let s10 = seq![
        0x74f7e043c285b4e5u64, 0x18c858dd36192d7c, 0x3534e9478bed892b,
        0xf321a2e8e946ae6d, 0xe9e12c24186fe9b1,
    ];
    assert(round_maps(
        0x8d1a27b5dbefba5f, 0x263c269fefa180c3, 0xb90f219404d6bcf4, 0xfcc893c302a96e45, 0x509e146ea76c7a1c,
        0x69,
        0x74f7e043c285b4e5, 0x18c858dd36192d7c, 0x3534e9478bed892b, 0xf321a2e8e946ae6d, 0xe9e12c24186fe9b1,
    )) by (bit_vector);
    assert(round_constant(9) == 0x69);
    lemma_round_maps(s9, 0x69, s10);
    assert(permutation_spec(s0, 10) == s10);

    // round 11, round constant 0x5a
    let s11 = seq![
        0x16156d6efaffb97fu64, 0x55f8a2ed9f5ffe6d, 0x3cc9ee587e7b9f3a,
        0x06e7b40734a06288, 0xd856135b869f1374,
    ];
    assert(round_maps(
        0x74f7e043c285b4e5, 0x18c858dd36192d7c, 0x3534e9478bed892b, 0xf321a2e8e946ae6d, 0xe9e12c24186fe9b1,
        0x5a,
        0x16156d6efaffb97f, 0x55f8a2ed9f5ffe6d, 0x3cc9ee587e7b9f3a, 0x06e7b40734a06288, 0xd856135b869f1374,
    )) by (bit_vector);
    assert(round_constant(10) == 0x5a);
    lemma_round_maps(s10, 0x5a, s11);
    assert(permutation_spec(s0, 11) == s11);

    // round 12, round constant 0x4b
    let s12 = seq![
        0xee9398aadb67f03du64, 0x8bb21831c60f1002, 0xb48a92db98d5da62,
        0x43189921b8f8e3e8, 0x348fa5c9d525e140,
    ];
    assert(round_maps(
        0x16156d6efaffb97f, 0x55f8a2ed9f5ffe6d, 0x3cc9ee587e7b9f3a, 0x06e7b40734a06288, 0xd856135b869f1374,
        0x4b,
        0xee9398aadb67f03d, 0x8bb21831c60f1002, 0xb48a92db98d5da62, 0x43189921b8f8e3e8, 0x348fa5c9d525e140,
    )) by (bit_vector);
    assert(round_constant(11) == 0x4b);
    lemma_round_maps(s11, 0x4b, s12);
    assert(permutation_spec(s0, 12) == s12);
}

} // verus!
