use hidcomm::parse_hex;

#[test]
fn parses_plain_hex() {
    assert_eq!(parse_hex("1234"), Ok(0x1234));
    assert_eq!(parse_hex("ffff"), Ok(0xffff));
    assert_eq!(parse_hex("FF42"), Ok(0xff42));
    assert_eq!(parse_hex("0"), Ok(0));
}

#[test]
fn strips_every_leading_0x() {
    assert_eq!(parse_hex("0x5678"), Ok(0x5678));
    assert_eq!(parse_hex("0x0x1f"), Ok(0x1f));
    assert_eq!(parse_hex("0x0"), Ok(0));
}

#[test]
fn accepts_plus_sign() {
    assert_eq!(parse_hex("+ab"), Ok(0xab));
    assert_eq!(parse_hex("0x+ab"), Ok(0xab));
}

#[test]
fn empty_text_is_rejected() {
    assert_eq!(parse_hex(""), Err("cannot parse integer from empty string".to_string()));
    assert_eq!(parse_hex("0x"), Err("cannot parse integer from empty string".to_string()));
}

#[test]
fn invalid_digits_are_rejected() {
    assert_eq!(parse_hex("12g4"), Err("invalid digit found in string".to_string()));
    assert_eq!(parse_hex("+"), Err("invalid digit found in string".to_string()));
    assert_eq!(parse_hex("-1"), Err("invalid digit found in string".to_string()));
    assert_eq!(parse_hex("0X12"), Err("invalid digit found in string".to_string()));
    assert_eq!(parse_hex("é"), Err("invalid digit found in string".to_string()));
}

#[test]
fn too_large_values_are_rejected() {
    assert_eq!(parse_hex("10000"), Err("number too large to fit in target type".to_string()));
    // the overflow comes before the invalid digit that follows it
    assert_eq!(parse_hex("fffffz"), Err("number too large to fit in target type".to_string()));
    // leading zeros do not overflow
    assert_eq!(parse_hex("00000ffff"), Ok(0xffff));
}

#[test]
fn agrees_with_std_on_samples() {
    for s in ["1", "abc", "FFFF", "0001", "+7", "xyz", "", "12345", "+", "1_0"] {
        let expected = u16::from_str_radix(s, 16).map_err(|e| e.to_string());
        assert_eq!(parse_hex(s), expected, "input {:?}", s);
    }
}
