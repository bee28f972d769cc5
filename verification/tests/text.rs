use upctl_svc::text::{
    chars_of, decimal_text, find_char, is_white_space, parse_u16, same_text, split, strip_prefix,
    trim, trim_start,
};

#[test]
fn white_space_is_that_of_the_standard_library() {
    for n in 0u32..=0x10ffff {
        if let Some(c) = char::from_u32(n) {
            assert_eq!(is_white_space(c), c.is_whitespace(), "U+{:04X}", n);
        }
    }
}

#[test]
fn trimming_drops_white_space_at_the_ends_only() {
    assert_eq!(trim(" \t\u{3000}a b\n\n"), "a b");
    assert_eq!(trim_start(" \t\u{3000}a b\n\n"), "a b\n\n");
    assert_eq!(trim(""), "");
    assert_eq!(trim(" \n "), "");
    assert_eq!(trim("\u{200b}x"), "\u{200b}x");
}

#[test]
fn trimming_twice_changes_nothing() {
    for s in ["", "  ", " a ", "\n提交者\u{a0}", "a b"] {
        assert_eq!(trim(trim(s)), trim(s));
        assert_eq!(trim(s), s.trim());
    }
}

#[test]
fn texts_are_compared_by_character() {
    assert!(same_text("提交者", "提交者"));
    assert!(same_text("", ""));
    assert!(!same_text("open", "Open"));
    assert!(!same_text("open", "opened"));
}

#[test]
fn characters_are_counted_not_bytes() {
    assert_eq!(chars_of("提a"), vec!['提', 'a']);
    assert_eq!(find_char("提交者: x", ':'), Some(3));
    assert_eq!(find_char("提交者", ':'), None);
    assert_eq!(find_char("", ':'), None);
}

#[test]
fn prefixes_are_stripped_once() {
    assert_eq!(strip_prefix("> > a", "> "), Some("> a"));
    assert_eq!(strip_prefix("> 提交者: 王\n", "> 提交者: "), Some("王\n"));
    assert_eq!(strip_prefix("> 提交", "> 提交者: "), None);
    assert_eq!(strip_prefix("abc", ""), Some("abc"));
}

#[test]
fn splitting_keeps_empty_pieces() {
    assert_eq!(split("a,,b", ','), vec!["a", "", "b"]);
    assert_eq!(split("", ','), vec![""]);
    assert_eq!(split(",", ','), vec!["", ""]);
    assert_eq!(split("提,交", ','), vec!["提", "交"]);
}

#[test]
fn integers_are_written_in_decimal() {
    assert_eq!(decimal_text(0), "0");
    assert_eq!(decimal_text(42), "42");
    assert_eq!(decimal_text(-7), "-7");
    assert_eq!(decimal_text(i64::MAX), "9223372036854775807");
    assert_eq!(decimal_text(i64::MIN), "-9223372036854775808");
}

#[test]
fn sixteen_bit_numbers_are_read() {
    assert_eq!(parse_u16("80"), Some(80));
    assert_eq!(parse_u16("+80"), Some(80));
    assert_eq!(parse_u16("0065535"), Some(65535));
    assert_eq!(parse_u16("65536"), None);
    assert_eq!(parse_u16("99999999999999999999"), None);
    for s in ["", "+", "-1", "-0", " 80", "80 ", "8o", "++8", "８０"] {
        assert_eq!(parse_u16(s), None, "{}", s);
        assert_eq!(s.parse::<u16>().ok(), None, "{}", s);
    }
}

#[test]
fn decimal_is_read_back() {
    for n in 0u16..=65535 {
        assert_eq!(parse_u16(&decimal_text(n as i64)), Some(n));
    }
}
