use ascon_hash_implementation::padding::{string_bytes, word_at, words_from_bytes};
use ascon_hash_implementation::{
    convert_pad_into_blocks, message_blocks_padding, vec_u8_to_u64_and_pad,
    vec_u8_to_u64_and_pad_version_2, StringToU8,
};

const TEST_STRINGS: [&str; 6] = [
    "!", // 0x21
    "@", // 0x40
    "¥", // 0xc2_a5
    "1", // 0x31
    "0", // 0x30
    " ", // 0x20
];

#[test]
fn check_bytes_vector() {
    assert_eq!(TEST_STRINGS[0].string_to_u8()[0], 0x21);
    assert_eq!(TEST_STRINGS[1].string_to_u8()[0], 0x40);

    // 2 bytes
    assert_eq!(TEST_STRINGS[2].string_to_u8()[0], 0xc2);
    assert_eq!(TEST_STRINGS[2].string_to_u8()[1], 0xa5);

    assert_eq!(TEST_STRINGS[3].string_to_u8()[0], 0x31);
    assert_eq!(TEST_STRINGS[4].string_to_u8()[0], 0x30);
    assert_eq!(TEST_STRINGS[5].string_to_u8()[0], 0x20);
}

fn pad_inputs() -> Vec<Vec<u8>> {
    vec![
        vec![0x10],
        vec![0x00],
        vec![0xff],
        vec![0x0, 0x0, 0x0, 0x0, 0x1],
        vec![0x0, 0x0, 0x0, 0x0, 0x0, 0x0, 0x0],
        vec![0x0, 0x0, 0x0, 0x0, 0x0, 0x0, 0x0, 0x0],
        vec![0x0, 0x0, 0x0, 0x0, 0x0, 0x0, 0x0, 0x1],
        vec![0x0, 0x0, 0x0, 0x0, 0x0, 0x0, 0x0, 0x0, 0x01],
        vec![0x0, 0x0, 0x0, 0x0, 0x0, 0x0, 0x0, 0x0, 0x0, 0x01],
        vec![0xff, 0xff, 0xff, 0xff, 0xff],
        vec![
            0x0, 0x0, 0x0, 0x0, 0x0, 0x0, 0x0, 0x0, 0x0, 0x0, 0x0, 0x0, 0x0, 0x0, 0x0, 0x01,
        ],
        vec![
            0x0, 0x0, 0x00, 0x0, 0x00, 0x0, 0x0, 0x01, 0x0, 0x0, 0x00, 0x0, 0x00, 0x0, 0x0,
            0x01, 0x0, 0x0, 0x00, 0x0, 0x00, 0x0, 0x0, 0x01,
        ],
    ]
}

fn pad_outputs() -> Vec<Vec<u64>> {
    vec![
        vec![0x10_80_00_00_00_00_00_00],
        vec![0x00_80_00_00_00_00_00_00],
        vec![0xff_80_00_00_00_00_00_00],
        vec![0x00_00_00_00_01_80_00_00],
        vec![0x00_00_00_00_00_00_00_80],
        vec![0x00, 0x80_00_00_00_00_00_00_00],
        vec![0x01, 0x80_00_00_00_00_00_00_00],
        vec![0x00_00_00_00_00_00_00_00, 0x01_80_00_00_00_00_00_00],
        vec![0x00_00_00_00_00_00_00_00, 0x00_01_80_00_00_00_00_00],
        vec![0xff_ff_ff_ff_ff_80_00_00],
        vec![0x0, 0x1, 0x80_00_00_00_00_00_00_00],
        vec![0x01, 0x01, 0x01, 0x80_00_00_00_00_00_00_00],
    ]
}

#[test]
fn check_pads() {
    let input_list = pad_inputs();
    let output_list = pad_outputs();

    let mut calculated_output_list: Vec<Vec<u64>> = Vec::new();
    for input in input_list {
        let outputs = vec_u8_to_u64_and_pad(input);
        calculated_output_list.push(outputs);
    }

    assert_eq!(output_list, calculated_output_list);
}

#[test]
fn string_to_pad() {
    const PAD_STRINGS: [&str; 6] = [
        " ", // 0x20
        "!", // 0x21
        "@", // 0x40
        "¥", // 0xc2_a5
        "1", // 0x31
        "0", // 0x30
    ];

    let output_list: Vec<Vec<u64>> = vec![
        vec![0x20_80_00_00_00_00_00_00],
        vec![0x21_80_00_00_00_00_00_00],
        vec![0x40_80_00_00_00_00_00_00],
        vec![0xc2_a5_80_00_00_00_00_00],
        vec![0x31_80_00_00_00_00_00_00],
        vec![0x30_80_00_00_00_00_00_00],
    ];

    let mut calculated_output_list: Vec<Vec<u64>> = Vec::new();
    for input in PAD_STRINGS {
        let outputs = vec_u8_to_u64_and_pad(input.string_to_u8());
        calculated_output_list.push(outputs);
    }

    assert_eq!(output_list, calculated_output_list);
}

#[test]
fn string_and_str_give_the_same_bytes() {
    let s = String::from("a¥€😀");
    let expected: Vec<u8> = vec![0x61, 0xc2, 0xa5, 0xe2, 0x82, 0xac, 0xf0, 0x9f, 0x98, 0x80];
    assert_eq!(s.string_to_u8(), expected);
    assert_eq!("a¥€😀".string_to_u8(), expected);
    assert_eq!("".string_to_u8(), Vec::<u8>::new());
}

#[test]
fn padding_version_2_agrees_with_version_1() {
    for input in pad_inputs() {
        assert_eq!(
            vec_u8_to_u64_and_pad_version_2(input.clone()),
            vec_u8_to_u64_and_pad(input)
        );
    }
    assert_eq!(vec_u8_to_u64_and_pad_version_2(Vec::new()), vec![0x80_00_00_00_00_00_00_00]);
    assert_eq!(vec_u8_to_u64_and_pad(Vec::new()), vec![0x80_00_00_00_00_00_00_00]);
}

#[test]
fn convert_pad_adds_a_zero_block_after_a_full_seven_bytes() {
    assert_eq!(
        convert_pad_into_blocks(&"abcdefg".to_string()),
        vec![0x6162636465666780, 0x0]
    );
    assert_eq!(convert_pad_into_blocks(&String::new()), vec![0x80_00_00_00_00_00_00_00]);
    assert_eq!(
        convert_pad_into_blocks(&"some bytes".to_string()),
        vec![0x736f6d6520627974, 0x6573_80_00_00_00_00_00]
    );
}

#[test]
fn message_blocks_padding_shifts_the_last_partial_block() {
    assert_eq!(message_blocks_padding(&String::new()), Vec::<u64>::new());
    assert_eq!(message_blocks_padding(&"a".to_string()), vec![0x0]);
    assert_eq!(
        message_blocks_padding(&"abcdefgh".to_string()),
        vec![0x6162636465666768]
    );
    assert_eq!(
        message_blocks_padding(&"abcdefghij".to_string()),
        vec![0x6162636465666768, 0x0]
    );
    // seven bytes: the block is shifted left by one byte
    assert_eq!(message_blocks_padding(&"abcdefg".to_string()), vec![0x6263646566678000]);
}

#[test]
fn words_are_read_big_endian() {
    let bytes: Vec<u8> = (1u8..=16).collect();
    assert_eq!(word_at(&bytes, 0), 0x0102030405060708);
    assert_eq!(word_at(&bytes, 3), 0x0405060708090a0b);
    assert_eq!(words_from_bytes(&bytes), vec![0x0102030405060708, 0x090a0b0c0d0e0f10]);
    assert_eq!(words_from_bytes(&[]), Vec::<u64>::new());
}

#[test]
fn distinct_messages_pad_to_distinct_blocks() {
    // a message that ends in what looks like padding still pads differently
    let a = vec_u8_to_u64_and_pad(vec![]);
    let b = vec_u8_to_u64_and_pad(vec![0x80]);
    let c = vec_u8_to_u64_and_pad(vec![0x80, 0x00]);
    assert_ne!(a, b);
    assert_ne!(b, c);
    assert_ne!(a, c);
    let d = convert_pad_into_blocks(&"abcdefg".to_string());
    let e = convert_pad_into_blocks(&"abcdefg\u{0}".to_string());
    assert_ne!(d, e);
}

#[test]
fn string_bytes_are_utf8() {
    assert_eq!(string_bytes(&"¥1".to_string()), vec![0xc2, 0xa5, 0x31]);
}
