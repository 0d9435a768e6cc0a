use skattr_core::daemon::hex::{HexParseError, Hex16, Hex32};

#[test]
fn hex16_display_lowercase_roundtrip() {
    let raw = [0xABu8; 16];
    let h = Hex16::from(raw);
    let s = h.to_string();
    assert_eq!(s, "abababababababababababababababab");
    let parsed: Hex16 = s.parse().unwrap();
    assert_eq!(parsed.0, raw);
}

#[test]
fn hex32_display_lowercase_roundtrip() {
    let raw = [0x01u8; 32];
    let h = Hex32::from(raw);
    let s = h.to_string();
    assert_eq!(s.len(), 64);
    assert!(s.chars().all(|c| c.is_ascii_hexdigit() && !c.is_uppercase()));
    let parsed: Hex32 = s.parse().unwrap();
    assert_eq!(parsed.0, raw);
}

#[test]
fn hex16_rejects_wrong_length() {
    let err: Result<Hex16, _> = "aa".parse();
    assert!(err.is_err());
}

#[test]
fn hex32_rejects_non_hex() {
    let err: Result<Hex32, _> = "zz".repeat(32).parse();
    assert!(err.is_err());
}

#[test]
fn hex16_accepts_uppercase_digits() {
    let parsed: Hex16 = "ABCDEF0123456789abcdef0123456789".parse().unwrap();
    assert_eq!(parsed.0[0], 0xAB);
    assert_eq!(parsed.0[3], 0x01);
    assert_eq!(parsed.0[15], 0x89);
}

#[test]
fn hex_length_error_reports_expected_and_got() {
    let err = "aa".parse::<Hex16>().unwrap_err();
    assert_eq!(err, HexParseError::Length { expected: 32, got: 2 });
}

#[test]
fn hex_non_hex_error_reports_first_bad_index() {
    let mut s = "00".repeat(16);
    s.replace_range(5..6, "g");
    let err = s.parse::<Hex16>().unwrap_err();
    assert_eq!(err, HexParseError::NonHex { index: 5 });
}

#[test]
fn hex_mixed_bytes_encode_exactly() {
    let mut raw = [0u8; 16];
    raw[0] = 0x0f;
    raw[1] = 0xf0;
    raw[15] = 0x9a;
    assert_eq!(Hex16::from(raw).to_string(), format!("0ff0{}9a", "00".repeat(13)));
}

#[test]
fn uppercased_rendering_parses_back() {
    let b = [0x0f, 0xa0, 0xff, 0x12, 0xcd, 0xe9, 0x00, 0x7b, 0xab, 0xbc, 0xde, 0xf1, 0x23, 0x45, 0x67, 0x89];
    let s = Hex16::from(b).to_string().to_ascii_uppercase();
    assert_eq!(s, "0FA0FF12CDE9007BABBCDEF123456789");
    assert_eq!(s.parse::<Hex16>(), Ok(Hex16(b)));
    let b32 = [0xab; 32];
    let s32 = Hex32::from(b32).to_string().to_ascii_uppercase();
    assert_eq!(s32.parse::<Hex32>(), Ok(Hex32(b32)));
}
