use glypheris::hex::{format_hex, parse_hex};

#[test]
fn hex_is_upper_case_and_space_separated() {
    assert_eq!(format_hex(&[0x00, 0xAB, 0x7F, 0x10]), "00 AB 7F 10");
    assert_eq!(format_hex(&[]), "");
    assert_eq!(format_hex(&[0x05]), "05");
}

#[test]
fn hex_matches_std_formatting() {
    let bytes: Vec<u8> = (0u8..=255).collect();
    let expected = bytes.iter().map(|b| format!("{:02X}", b)).collect::<Vec<_>>().join(" ");
    assert_eq!(format_hex(&bytes), expected);
}

#[test]
fn hex_reads_back_what_was_written() {
    let bytes: Vec<u8> = (0u8..=255).rev().collect();
    assert_eq!(parse_hex(&format_hex(&bytes)), bytes);
}

#[test]
fn hex_parse_follows_from_str_radix() {
    assert_eq!(parse_hex("  0a\t\nFF  "), vec![10, 255]);
    assert_eq!(parse_hex("ZZ 1 +7f 100 -1 +"), vec![0, 1, 127, 0, 0, 0]);
    assert_eq!(parse_hex(""), Vec::<u8>::new());
    assert_eq!(parse_hex("00000ff"), vec![255]);
    for w in ["ZZ", "1", "+7f", "100", "-1", "+", "00000ff", "fF", "++1"] {
        assert_eq!(parse_hex(w), vec![u8::from_str_radix(w, 16).unwrap_or(0)], "word {}", w);
    }
}
