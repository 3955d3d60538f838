use cross_telegram::{char_is_white_space, i64_to_decimal, is_blank, u64_to_decimal};

#[test]
fn decimal_matches_to_string_signed() {
    for n in [0i64, 1, 9, 10, 99, 100, -1, -9, -10, 123456789, i64::MAX, i64::MIN, i64::MIN + 1] {
        assert_eq!(i64_to_decimal(n), n.to_string());
    }
    for n in -1000i64..1000 {
        assert_eq!(i64_to_decimal(n), n.to_string());
    }
}

#[test]
fn decimal_matches_to_string_unsigned() {
    for n in [0u64, 5, 10, 1000, 4294967296, u64::MAX] {
        assert_eq!(u64_to_decimal(n), n.to_string());
    }
}

#[test]
fn white_space_matches_std() {
    for u in 0u32..=0x10FFFF {
        if let Some(c) = char::from_u32(u) {
            assert_eq!(char_is_white_space(c), c.is_whitespace(), "U+{:04X}", u);
        }
    }
}

#[test]
fn blank_matches_trim() {
    for s in ["", " ", "\t\n\r", "\u{3000}\u{a0}", " a ", "x", "\u{200b}", "  \u{85} "] {
        assert_eq!(is_blank(s), s.trim().is_empty(), "{:?}", s);
    }
}
