use apus_core::text::{
    chars_of, is_whitespace, push_decimal, push_hex_byte, str_contains, to_hex_lower, trim,
    trim_start_matches,
};

#[test]
fn trim_removes_unicode_white_space() {
    assert_eq!(trim("  Alice \t\n"), "Alice");
    assert_eq!(trim("\u{3000}Bob\u{00A0}"), "Bob");
    assert_eq!(trim("   "), "");
    assert_eq!(trim(""), "");
    assert_eq!(trim("a b"), "a b");
    for s in ["  x ", "\u{2003}y\u{2028}", "z", " \u{85}q\u{1680}"] {
        assert_eq!(trim(s), s.trim());
    }
}

#[test]
fn is_whitespace_agrees_with_std() {
    for u in 0u32..0x3100 {
        if let Some(c) = char::from_u32(u) {
            assert_eq!(is_whitespace(c), c.is_whitespace(), "code point {:x}", u);
        }
    }
}

#[test]
fn contains_finds_substrings() {
    assert!(str_contains("Samsung SSD 970", "SSD"));
    assert!(str_contains("NVMe", "NVMe"));
    assert!(!str_contains("HDD", "SSD"));
    assert!(str_contains("abc", ""));
    assert!(!str_contains("", "a"));
    assert!(str_contains("aab", "ab"));
}

#[test]
fn trim_start_matches_strips_repeated_prefix() {
    assert_eq!(trim_start_matches("apus://room/apus://room/x", "apus://room/"), "x");
    assert_eq!(trim_start_matches("room", "apus://room/"), "room");
    assert_eq!(trim_start_matches("abc", ""), "abc");
    assert_eq!(
        trim_start_matches("apus://room/apus-1a2b", "apus://room/"),
        "apus://room/apus-1a2b".trim_start_matches("apus://room/")
    );
}

#[test]
fn decimal_and_hex_rendering() {
    let mut s = String::from("n=");
    push_decimal(&mut s, 0);
    assert_eq!(s, "n=0");
    let mut s = String::new();
    push_decimal(&mut s, u128::MAX);
    assert_eq!(s, u128::MAX.to_string());
    let mut s = String::new();
    push_decimal(&mut s, 1234567890);
    assert_eq!(s, "1234567890");
    let mut h = String::new();
    push_hex_byte(&mut h, 0x0f);
    push_hex_byte(&mut h, 0xa0);
    assert_eq!(h, "0fa0");
    assert_eq!(to_hex_lower(&[1, 2, 255]), "0102ff");
    assert_eq!(chars_of("héllo"), vec!['h', 'é', 'l', 'l', 'o']);
}
