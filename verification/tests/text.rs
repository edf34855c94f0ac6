use install_checker::text::{chars_of, decimal, hex_lower, parse_u32, parse_u64, string_of};

#[test]
fn decimal_of_zero_is_one_digit() {
    assert_eq!(decimal(0), "0");
}

#[test]
fn decimal_has_no_leading_zero() {
    assert_eq!(decimal(7), "7");
    assert_eq!(decimal(10), "10");
    assert_eq!(decimal(1005), "1005");
    assert_eq!(decimal(3421780262), "3421780262");
}

#[test]
fn decimal_of_the_largest_number() {
    assert_eq!(decimal(u64::MAX), "18446744073709551615");
}

#[test]
fn parse_reads_plain_digits() {
    assert_eq!(parse_u64("0"), Some(0));
    assert_eq!(parse_u64("120"), Some(120));
    assert_eq!(parse_u64("18446744073709551615"), Some(u64::MAX));
}

#[test]
fn parse_accepts_a_plus_sign_and_leading_zeros() {
    assert_eq!(parse_u64("+5"), Some(5));
    assert_eq!(parse_u64("0010"), Some(10));
    assert_eq!(parse_u64("0000000000000000000000000000001"), Some(1));
}

#[test]
fn parse_refuses_what_is_no_numeral() {
    assert_eq!(parse_u64(""), None);
    assert_eq!(parse_u64("+"), None);
    assert_eq!(parse_u64("-5"), None);
    assert_eq!(parse_u64("++5"), None);
    assert_eq!(parse_u64("5+"), None);
    assert_eq!(parse_u64(" 5"), None);
    assert_eq!(parse_u64("5 "), None);
    assert_eq!(parse_u64("12a"), None);
    assert_eq!(parse_u64("size"), None);
    assert_eq!(parse_u64("١٢"), None);
}

#[test]
fn parse_refuses_what_does_not_fit() {
    assert_eq!(parse_u64("18446744073709551616"), None);
    assert_eq!(parse_u64("99999999999999999999999"), None);
    assert_eq!(parse_u32("4294967295"), Some(u32::MAX));
    assert_eq!(parse_u32("4294967296"), None);
    assert_eq!(parse_u32("18446744073709551616"), None);
}

#[test]
fn parse_gives_back_what_decimal_wrote() {
    for n in [0u64, 1, 9, 10, 11, 99, 100, 65535, 4294967296, u64::MAX - 1, u64::MAX] {
        assert_eq!(parse_u64(&decimal(n)), Some(n));
    }
    for n in [0u32, 1, 10, 891568578, u32::MAX] {
        assert_eq!(parse_u32(&decimal(n as u64)), Some(n));
    }
}

#[test]
fn hex_of_nothing_is_empty() {
    assert_eq!(hex_lower(&[]), "");
}

#[test]
fn hex_is_lower_case_and_two_digits_a_byte() {
    assert_eq!(hex_lower(&[0x00]), "00");
    assert_eq!(hex_lower(&[0x0a]), "0a");
    assert_eq!(hex_lower(&[0xa0]), "a0");
    assert_eq!(hex_lower(&[0xff]), "ff");
    assert_eq!(hex_lower(&[0xde, 0xad, 0xbe, 0xef, 0x01, 0x23, 0x9a]), "deadbeef01239a");
}

#[test]
fn hex_tells_all_bytes_apart() {
    let mut seen = Vec::new();
    for b in 0..=255u8 {
        let text = hex_lower(&[b]);
        assert_eq!(text.len(), 2);
        assert_eq!(u8::from_str_radix(&text, 16), Ok(b));
        assert!(!seen.contains(&text));
        seen.push(text);
    }
}

#[test]
fn chars_and_back() {
    let chars = chars_of("a, é\n");
    assert_eq!(chars, vec!['a', ',', ' ', 'é', '\n']);
    assert_eq!(string_of(&chars, 0, chars.len()), "a, é\n");
    assert_eq!(string_of(&chars, 3, 4), "é");
    assert_eq!(string_of(&chars, 2, 2), "");
}
