use ant_gateway::text::string_from_utf8_lossy;

fn reference_lossy(input: &[u8]) -> String {
    let mut out = String::new();
    utf8::LossyDecoder::new(|s| out.push_str(s)).feed(input);
    out
}

#[test]
fn empty_input_decodes_to_empty_text() {
    assert_eq!(string_from_utf8_lossy(&[]), "");
}

#[test]
fn lone_continuation_byte_becomes_replacement() {
    assert_eq!(string_from_utf8_lossy(&[0x80]), "\u{fffd}");
}

#[test]
fn all_invalid_bytes_become_replacements() {
    assert_eq!(string_from_utf8_lossy(&[0xff, 0xfe, 0xc0, 0xc1]), "\u{fffd}\u{fffd}\u{fffd}\u{fffd}");
}

#[test]
fn valid_ascii_is_reproduced() {
    assert_eq!(string_from_utf8_lossy(b"Hello world!"), "Hello world!");
}

#[test]
fn valid_multibyte_text_is_reproduced() {
    let text = "caf\u{e9} \u{41f}\u{440}\u{438}\u{432}\u{435}\u{442} \u{6f22}\u{5b57} \u{1f980}";
    assert_eq!(string_from_utf8_lossy(text.as_bytes()), text);
}

#[test]
fn truncated_sequence_at_end_is_one_replacement() {
    // A 3-byte encoding cut off after two bytes.
    assert_eq!(string_from_utf8_lossy(&[0x41, 0xe6, 0xbc]), "A\u{fffd}");
}

#[test]
fn maximal_prefix_is_replaced_once() {
    // The two leading bytes of a 3-byte encoding, then ASCII.
    assert_eq!(string_from_utf8_lossy(&[0xe6, 0xbc, 0x41]), "\u{fffd}A");
}

#[test]
fn overlong_lead_yields_replacement_per_byte() {
    // 0xe0 0x80 would be an overlong encoding: 0x80 is not admissible
    // after 0xe0, so each byte is replaced on its own.
    assert_eq!(string_from_utf8_lossy(&[0xe0, 0x80, 0x41]), "\u{fffd}\u{fffd}A");
}

#[test]
fn surrogate_encoding_is_rejected_per_byte() {
    // 0xed 0xa0 0x80 would encode a surrogate.
    assert_eq!(
        string_from_utf8_lossy(&[0xed, 0xa0, 0x80]),
        "\u{fffd}\u{fffd}\u{fffd}"
    );
}

#[test]
fn agrees_with_utf8_crate_decoder() {
    let cases: Vec<Vec<u8>> = vec![
        vec![],
        vec![0x80],
        vec![0xff, 0xfe, 0xc0, 0xc1],
        b"plain ascii".to_vec(),
        "caf\u{e9} \u{6f22}\u{5b57} \u{1f980}".as_bytes().to_vec(),
        vec![0x41, 0xe6, 0xbc],
        vec![0xe6, 0xbc, 0x41],
        vec![0xe0, 0x80, 0x41],
        vec![0xed, 0xa0, 0x80],
        vec![0xf0, 0x9f, 0xa6],
        vec![0xf0, 0x9f, 0xa6, 0x20],
        vec![0xf4, 0x90, 0x80, 0x80],
        vec![0xf5, 0x80, 0x80, 0x80],
        vec![0xc2, 0xa3, 0xc2],
        vec![0x00, 0x7f, 0x80, 0xbf],
    ];
    for case in cases {
        assert_eq!(
            string_from_utf8_lossy(&case),
            reference_lossy(&case),
            "disagreement on {:?}",
            case
        );
        assert_eq!(
            string_from_utf8_lossy(&case),
            String::from_utf8_lossy(&case),
            "disagreement with std on {:?}",
            case
        );
    }
}

#[test]
fn decoding_is_stable_on_its_own_output() {
    // Decoding valid text reproduces it, so decoding twice changes nothing.
    let noisy = vec![0x68u8, 0x69, 0xff, 0x21];
    let once = string_from_utf8_lossy(&noisy);
    let twice = string_from_utf8_lossy(once.as_bytes());
    assert_eq!(once, twice);
}
