use ascon_hash_implementation::bits::linear_word;
use ascon_hash_implementation::{permute_12_theirs, round, State, ROUND_CONSTANTS};

const IV: u64 = 0x00400c0400000100;

fn sample() -> State {
    State::new(
        0x0123456789abcdef,
        0x23456789abcdef01,
        0x456789abcdef0123,
        0x6789abcdef012345,
        0x89abcde01234567f,
    )
}

fn sample_words() -> [u64; 5] {
    [
        0x0123456789abcdef,
        0x23456789abcdef01,
        0x456789abcdef0123,
        0x6789abcdef012345,
        0x89abcde01234567f,
    ]
}

fn initial_state() -> State {
    State::new(
        0xee9398aadb67f03d,
        0x8bb21831c60f1002,
        0xb48a92db98d5da62,
        0x43189921b8f8e3e8,
        0x348fa5c9d525e140,
    )
}

#[test]
fn one_round() {
    let s: State = sample().single_permutation(0x1f);

    let s_compare = State::new(
        0x3c1748c9be2892ce,
        0x5eafb305cd26164f,
        0xf9470254bb3a4213,
        0xf0428daf0c5d3948,
        0x281375af0b294899,
    );

    assert_eq!(s, s_compare);
}

#[test]
fn one_round_more() {
    let s: State = sample().single_permutation(0x4b);
    let their_state: [u64; 5] = round(sample_words(), 0x4b);
    let s_theirs = State::new(
        their_state[0],
        their_state[1],
        their_state[2],
        their_state[3],
        their_state[4],
    );
    assert_eq!(s, s_theirs);

    // 2: the 0 case
    let s: State = State::new(0x0, 0x0, 0x0, 0x0, 0x0).single_permutation(0x4b);
    let their_state: [u64; 5] = round([0x0, 0x0, 0x0, 0x0, 0x0], 0x4b);
    let s_theirs = State::new(
        their_state[0],
        their_state[1],
        their_state[2],
        their_state[3],
        their_state[4],
    );
    assert_eq!(s, s_theirs);

    // maximum numbers
    let s: State = State::new(
        0xffff_ffff_ffff_ffff,
        0xffff_ffff_ffff_ffff,
        0xffff_ffff_ffff_ffff,
        0xffff_ffff_ffff_ffff,
        0xffff_ffff_ffff_ffff,
    )
    .single_permutation(0x4b);
    let their_state: [u64; 5] = round([0xffff_ffff_ffff_ffff; 5], 0x4b);
    let s_theirs = State::new(
        their_state[0],
        their_state[1],
        their_state[2],
        their_state[3],
        their_state[4],
    );
    assert_eq!(s, s_theirs);
}

#[test]
fn initialization_12_rounds_compair_their_result() {
    let s: State = State::new(0x00400c0000000100, 0x0, 0x0, 0x0, 0x0).permutation_12_for();
    assert_eq!(s, initial_state());
}

#[test]
fn initialization_12_rounds_compare_ready_result() {
    let s: State = State::new(IV, 0x0, 0x0, 0x0, 0x0).permutation_12_for();

    let arr_theirs_input: [u64; 5] = [IV, 0x0, 0x0, 0x0, 0x0];
    let their_sol = permute_12_theirs(arr_theirs_input);
    let s_compare = State::new(
        their_sol[0],
        their_sol[1],
        their_sol[2],
        their_sol[3],
        their_sol[4],
    );
    assert_eq!(s, s_compare);
}

#[test]
fn round_variants_agree() {
    let expected = sample().single_permutation(0x1f);
    assert_eq!(sample().single_permutation_with_tupples(0x1f), expected);
    assert_eq!(sample().single_permutation_concurrent_mutex(0x1f), expected);
    assert_eq!(State::new_arr(round(sample_words(), 0x1f)), expected);
    // substitution layer, then the linear layer word by word
    let t = sample().substitution_layer(0x1f);
    let split = State::new(
        linear_word(t.x[0], 19, 28),
        linear_word(t.x[1], 61, 39),
        linear_word(t.x[2], 1, 6),
        linear_word(t.x[3], 10, 17),
        linear_word(t.x[4], 7, 41),
    );
    assert_eq!(split, expected);
}

#[test]
fn twelve_round_variants_agree() {
    let expected = State::new(
        0xa469e5d57c15ea71,
        0x1f31342aa6f9ed4b,
        0x4590a5b3414a3efe,
        0x8ff22bcf988bb483,
        0x55737384cf1b0b55,
    );
    assert_eq!(sample().permutation_12_for(), expected);
    assert_eq!(sample().permutation_12(), expected);
    assert_eq!(State::new_arr(permute_12_theirs(sample_words())), expected);
    let mut s = sample();
    for c in ROUND_CONSTANTS {
        s = s.single_permutation(c);
    }
    assert_eq!(s, expected);
}

#[test]
fn concurrent_variant_reorders_and_diffuses_all_words() {
    let expected = State::new(
        0xe2d9d6027ac56a7e,
        0x089e5258c7e4b942,
        0x17322dd0d848c6ca,
        0xff09e18b30730a91,
        0x8081fe274ffb153d,
    );
    assert_eq!(sample().single_permutation_concurent(0x1f), expected);
    // the round constant cancels out
    assert_eq!(sample().single_permutation_concurent(0x4b), expected);
}

#[test]
fn new_and_new_arr_hold_the_words() {
    let s = State::new(1, 2, 3, 4, 5);
    assert_eq!(s.x, [1, 2, 3, 4, 5]);
    assert_eq!(State::new_arr([1, 2, 3, 4, 5]), s);
}

#[test]
fn rotation_moves_low_bits_to_the_top() {
    assert_eq!(ascon_hash_implementation::bits::rotr(0x1, 1), 0x8000_0000_0000_0000);
    assert_eq!(ascon_hash_implementation::bits::rotr(0x0123456789abcdef, 8), 0xef0123456789abcd);
    assert_eq!(linear_word(0x1, 1, 2), 0x1 ^ 0x8000_0000_0000_0000 ^ 0x4000_0000_0000_0000);
}

#[test]
fn rotation_amounts_are_taken_modulo_64() {
    let x = 0x0123456789abcdef;
    assert_eq!(ascon_hash_implementation::bits::rotr(x, 0), x);
    assert_eq!(ascon_hash_implementation::bits::rotr(x, 64), x);
    assert_eq!(ascon_hash_implementation::bits::rotr(x, 72), 0xef0123456789abcd);
    assert_eq!(ascon_hash_implementation::bits::rotr(x, 8), x.rotate_right(8));
}

#[test]
fn distinct_states_stay_distinct_under_a_round() {
    let a = State::new(0, 0, 0, 0, 0);
    let b = State::new(1, 0, 0, 0, 0);
    let c = State::new(0, 0, 0, 0, 1);
    assert_ne!(a.single_permutation(0x4b), b.single_permutation(0x4b));
    assert_ne!(a.single_permutation(0x4b), c.single_permutation(0x4b));
    assert_ne!(b.permutation_12(), c.permutation_12());
}

#[test]
fn rounds_by_words_agree_with_whole_rounds() {
    assert_eq!(sample().single_permutation_by_words(0x1f), sample().single_permutation(0x1f));
    assert_eq!(sample().permutation_12_by_words(), sample().permutation_12());
}
