use btc_primitives::{
    bytes_to_hex, decode_hex, hex_to_bytes, swap_endian_u32, to_big_endian, HexError,
};

#[test]
fn decode_hex_of_empty_text_is_empty() {
    assert_eq!(decode_hex(""), Ok(Vec::new()));
    assert_eq!(hex_to_bytes(""), Ok(Vec::new()));
}

#[test]
fn decode_hex_refuses_odd_length() {
    assert_eq!(decode_hex("abc"), Err("Odd number of digits".to_string()));
    assert_eq!(hex_to_bytes("abc"), Err(HexError::OddLength));
}

#[test]
fn odd_length_is_reported_before_any_bad_digit() {
    assert_eq!(hex_to_bytes("zzz"), Err(HexError::OddLength));
}

#[test]
fn decode_hex_reads_both_cases() {
    assert_eq!(decode_hex("f9b4ca"), Ok(vec![0xf9, 0xb4, 0xca]));
    assert_eq!(decode_hex("F9B4CA"), Ok(vec![0xf9, 0xb4, 0xca]));
    assert_eq!(decode_hex("f9B4Ca"), Ok(vec![0xf9, 0xb4, 0xca]));
    assert_eq!(hex_to_bytes("00ff10"), Ok(vec![0x00, 0xff, 0x10]));
}

#[test]
fn decode_hex_describes_a_bad_character() {
    assert_eq!(
        decode_hex("zz"),
        Err("Invalid character 'z' at position 0".to_string())
    );
    assert_eq!(
        decode_hex("0g"),
        Err("Invalid character 'g' at position 1".to_string())
    );
    assert_eq!(
        decode_hex("0123456789abcdefgh"),
        Err("Invalid character 'g' at position 16".to_string())
    );
    assert_eq!(
        decode_hex("ab\ncd0"),
        Err("Invalid character '\\n' at position 2".to_string())
    );
}

#[test]
fn hex_to_bytes_reports_the_first_bad_character() {
    assert_eq!(
        hex_to_bytes("12x4y6"),
        Err(HexError::InvalidHexCharacter { c: 'x', index: 2 })
    );
    assert_eq!(
        hex_to_bytes("123g"),
        Err(HexError::InvalidHexCharacter { c: 'g', index: 3 })
    );
    assert_eq!(
        hex_to_bytes("0 "),
        Err(HexError::InvalidHexCharacter { c: ' ', index: 1 })
    );
}

#[test]
fn hex_to_bytes_counts_positions_in_bytes() {
    // One character of two bytes: an even length, and the first byte is no digit.
    assert_eq!(
        hex_to_bytes("\u{e9}"),
        Err(HexError::InvalidHexCharacter { c: '\u{c3}', index: 0 })
    );
    assert_eq!(
        hex_to_bytes("ab\u{e9}"),
        Err(HexError::InvalidHexCharacter { c: '\u{c3}', index: 2 })
    );
}

#[test]
fn digits_next_to_the_hex_ranges_are_refused() {
    for c in ['/', ':', '@', 'G', '`', 'g'] {
        let text = format!("0{}", c);
        assert_eq!(
            hex_to_bytes(&text),
            Err(HexError::InvalidHexCharacter { c, index: 1 })
        );
    }
}

#[test]
fn bytes_to_hex_writes_lower_case_pairs() {
    assert_eq!(bytes_to_hex(&[1, 2, 3, 15, 16]), "0102030f10");
    assert_eq!(bytes_to_hex(&[0xde, 0xad, 0xbe, 0xef]), "deadbeef");
    assert_eq!(bytes_to_hex(&[0x0a]), "0a");
    assert_eq!(bytes_to_hex(&[]), "");
}

#[test]
fn decoding_an_encoding_gives_the_bytes_back() {
    let all: Vec<u8> = (0..=255).collect();
    let text = bytes_to_hex(&all);
    assert_eq!(text.len(), 512);
    assert_eq!(decode_hex(&text), Ok(all.clone()));
    assert_eq!(hex_to_bytes(&text), Ok(all.clone()));
    assert_eq!(hex_to_bytes(&text.to_uppercase()), Ok(all));
    let few = vec![0x00, 0x7f, 0x80, 0xff];
    assert_eq!(decode_hex(&bytes_to_hex(&few)), Ok(few));
}

#[test]
fn to_big_endian_reverses() {
    assert_eq!(to_big_endian(&[1, 2, 3]), vec![3, 2, 1]);
    assert_eq!(to_big_endian(&[0xab]), vec![0xab]);
    assert_eq!(to_big_endian(&[]), Vec::<u8>::new());
    assert_eq!(to_big_endian(&[1, 2, 3, 4]), vec![4, 3, 2, 1]);
}

#[test]
fn to_big_endian_twice_is_the_identity() {
    let bytes: Vec<u8> = vec![0x12, 0x34, 0x56, 0x78, 0x9a];
    assert_eq!(to_big_endian(&to_big_endian(&bytes)), bytes);
    let all: Vec<u8> = (0..=255).collect();
    assert_eq!(to_big_endian(&to_big_endian(&all)), all);
}

#[test]
fn swap_endian_u32_is_little_endian() {
    assert_eq!(swap_endian_u32(0x12345678), [0x78, 0x56, 0x34, 0x12]);
    assert_eq!(swap_endian_u32(1), [1, 0, 0, 0]);
    assert_eq!(swap_endian_u32(0), [0, 0, 0, 0]);
    assert_eq!(swap_endian_u32(0x0100), [0, 1, 0, 0]);
    assert_eq!(swap_endian_u32(u32::MAX), [0xff, 0xff, 0xff, 0xff]);
    for n in [7u32, 255, 256, 65_535, 65_536, 16_777_215, 16_777_216, 0xdead_beef] {
        assert_eq!(swap_endian_u32(n), n.to_le_bytes());
    }
}
