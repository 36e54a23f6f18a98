use desktop_gpui::text::{bytes_le, parse_unsigned_str, push_decimal, push_str, str_eq, str_le, to_string};

#[test]
fn decimal_rendering() {
    let mut s = String::from("n=");
    push_decimal(&mut s, 0);
    assert_eq!(s, "n=0");
    let mut t = String::new();
    push_decimal(&mut t, u128::MAX);
    assert_eq!(t, u128::MAX.to_string());
    let mut u = String::new();
    push_decimal(&mut u, 1234567890);
    assert_eq!(u, "1234567890");
}

#[test]
fn unsigned_parsing_follows_from_str() {
    assert_eq!(parse_unsigned_str("42", u64::MAX), Some(42));
    assert_eq!(parse_unsigned_str("+42", u64::MAX), Some(42));
    assert_eq!(parse_unsigned_str("007", 10), Some(7));
    assert_eq!(parse_unsigned_str("", u64::MAX), None);
    assert_eq!(parse_unsigned_str("+", u64::MAX), None);
    assert_eq!(parse_unsigned_str("-1", u64::MAX), None);
    assert_eq!(parse_unsigned_str("1 ", u64::MAX), None);
    assert_eq!(parse_unsigned_str("65535", 65535), Some(65535));
    assert_eq!(parse_unsigned_str("65536", 65535), None);
    assert_eq!(parse_unsigned_str("18446744073709551615", u64::MAX), Some(u64::MAX));
    assert_eq!(parse_unsigned_str("18446744073709551616", u64::MAX), None);
    for s in ["0", "9", "255", "256", "+3", "x", "12a", "4294967295", "4294967296"] {
        assert_eq!(parse_unsigned_str(s, u32::MAX as u64), s.parse::<u32>().ok().map(|v| v as u64), "{}", s);
    }
}

#[test]
fn byte_order_of_strings() {
    assert!(str_le("Apple", "apple"));
    assert!(!str_le("apple", "Apple"));
    assert!(str_le("ab", "abc"));
    assert!(!str_le("abc", "ab"));
    assert!(str_le("same", "same"));
    assert!(bytes_le(&[], &[0]));
    assert!(str_le("z", "é"));
}

#[test]
fn string_equality_and_copies() {
    assert!(str_eq("rqbit", "rqbit"));
    assert!(!str_eq("rqbit", "rqbiT"));
    assert!(!str_eq("", " "));
    let mut s = to_string("abc");
    push_str(&mut s, "def");
    assert_eq!(s, "abcdef");
}
