use ascon_hash_implementation::{ascon_hash, ascon_hash_pool, State};

#[test]
fn check() {
    let input_list: Vec<String> = vec!["some bytes".to_string()];

    let compare_list: Vec<Vec<u64>> = vec![vec![
        0xb742ca75e5703875,
        0x7059cccc6874714f,
        0x9dbd7fc5924a7df4,
        0xe316594fd1426ca8,
    ]];

    let mut calculated_output_list: Vec<Vec<u64>> = Vec::new();
    for input in input_list {
        let output = ascon_hash(&input);
        calculated_output_list.push(output);
    }
    assert_eq!(compare_list, calculated_output_list);
}

#[test]
fn hash_of_empty_message() {
    assert_eq!(
        ascon_hash(&String::new()),
        vec![0x7346bc14f036e87a, 0xe03d0997913088f5, 0xf68411434b3cf8b5, 0x4fa796a80d251f91]
    );
}

#[test]
fn hash_of_seven_bytes_absorbs_an_extra_zero_block() {
    assert_eq!(
        ascon_hash(&"abcdefg".to_string()),
        vec![0xca9ed37afc535570, 0x16e09e574aa2e8a6, 0xf14982067a1d02e8, 0xdf34041b0ede87f5]
    );
}

#[test]
fn pool_hash_agrees_with_hash() {
    for m in ["", "some bytes", "abcdefg", "¥ and a longer message of several blocks"] {
        let m = m.to_string();
        assert_eq!(ascon_hash_pool(&m), ascon_hash(&m));
    }
}

#[test]
fn sponge_steps_give_the_hash() {
    // "some bytes" pads to two blocks
    let blocks = ascon_hash_implementation::convert_pad_into_blocks(&"some bytes".to_string());
    let mut s = State::hash_initial();
    assert_eq!(s, State::new(0x00400c0000000100, 0, 0, 0, 0).permutation_12());
    for b in &blocks {
        s = s.absorb_block(*b).permutation_12();
    }
    assert_eq!(s.x[0], 0xb742ca75e5703875);
    assert_eq!(State::new(1, 2, 3, 4, 5).absorb_block(3), State::new(2, 2, 3, 4, 5));
}
