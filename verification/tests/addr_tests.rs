use ant_gateway::addr::hex_encode;
use ant_gateway::addr::str_to_xor_name;
use ant_gateway::addr::AddrParseError;

fn sample_bytes() -> Vec<u8> {
    let mut b: Vec<u8> = Vec::new();
    for i in 0..32u16 {
        b.push((i * 7 % 256) as u8);
    }
    b
}

#[test]
fn round_trip_for_32_bytes() {
    let bytes = sample_bytes();
    let text = hex_encode(&bytes);
    assert_eq!(text.len(), 64);
    let addr = str_to_xor_name(&text).expect("a 64-digit encoding parses");
    assert_eq!(addr.bytes, bytes);
}

#[test]
fn round_trip_all_zero_and_all_ff() {
    let zeros = vec![0u8; 32];
    let text = hex_encode(&zeros);
    assert_eq!(text, "0".repeat(64));
    assert_eq!(str_to_xor_name(&text).unwrap().bytes, zeros);

    let ffs = vec![0xffu8; 32];
    let text = hex_encode(&ffs);
    assert_eq!(text, "f".repeat(64));
    assert_eq!(str_to_xor_name(&text).unwrap().bytes, ffs);
}

#[test]
fn encode_agrees_with_hex_crate() {
    let bytes = sample_bytes();
    assert_eq!(hex_encode(&bytes), hex::encode(&bytes));
}

#[test]
fn parse_agrees_with_hex_crate() {
    let text = "a3f09b1c5d7e2f4a6b8c0d1e2f3a4b5c6d7e8f9a0b1c2d3e4f5a6b7c8d9e0f1a";
    let addr = str_to_xor_name(text).unwrap();
    assert_eq!(addr.bytes, hex::decode(text).unwrap());
}

#[test]
fn eight_hex_digits_are_too_short() {
    assert!(matches!(
        str_to_xor_name("deadbeef"),
        Err(AddrParseError::InvalidLength)
    ));
}

#[test]
fn empty_string_is_invalid_encoding() {
    assert!(matches!(
        str_to_xor_name(""),
        Err(AddrParseError::InvalidEncoding)
    ));
}

#[test]
fn lone_slash_is_invalid_encoding() {
    assert!(matches!(
        str_to_xor_name("/"),
        Err(AddrParseError::InvalidEncoding)
    ));
}

#[test]
fn odd_length_is_invalid_encoding() {
    let text = "a".repeat(63);
    assert!(matches!(
        str_to_xor_name(&text),
        Err(AddrParseError::InvalidEncoding)
    ));
}

#[test]
fn non_hex_character_is_invalid_encoding() {
    let text = "g".repeat(64);
    assert!(matches!(
        str_to_xor_name(&text),
        Err(AddrParseError::InvalidEncoding)
    ));
    let mut almost = "a".repeat(63);
    almost.push('!');
    assert!(matches!(
        str_to_xor_name(&almost),
        Err(AddrParseError::InvalidEncoding)
    ));
}

#[test]
fn thirty_one_and_thirty_three_bytes_are_invalid_length() {
    let short = "ab".repeat(31);
    assert!(matches!(
        str_to_xor_name(&short),
        Err(AddrParseError::InvalidLength)
    ));
    let long = "ab".repeat(33);
    assert!(matches!(
        str_to_xor_name(&long),
        Err(AddrParseError::InvalidLength)
    ));
}

#[test]
fn upper_and_lower_case_digits_agree() {
    let lower = "ab".repeat(32);
    let upper = "AB".repeat(32);
    let a = str_to_xor_name(&lower).unwrap();
    let b = str_to_xor_name(&upper).unwrap();
    assert_eq!(a.bytes, b.bytes);
    assert_eq!(a.bytes, vec![0xabu8; 32]);
}

#[test]
fn trailing_slash_is_stripped() {
    let bytes = sample_bytes();
    let text = hex_encode(&bytes);
    let mut with_slash = text.clone();
    with_slash.push('/');
    let a = str_to_xor_name(&text).unwrap();
    let b = str_to_xor_name(&with_slash).unwrap();
    assert_eq!(a.bytes, b.bytes);
}

#[test]
fn only_one_trailing_slash_is_stripped() {
    let mut text = hex_encode(&sample_bytes());
    text.push('/');
    text.push('/');
    assert!(matches!(
        str_to_xor_name(&text),
        Err(AddrParseError::InvalidEncoding)
    ));
}

#[test]
fn trailing_slash_on_short_input_keeps_its_error() {
    assert!(matches!(
        str_to_xor_name("deadbeef/"),
        Err(AddrParseError::InvalidLength)
    ));
}
