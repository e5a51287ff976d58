use liblis::text::{
    parse_unsigned, char_is_space, append_str, decimal_string, from_chars, is_blank, slugify, spaces_to_dashes,
    to_chars, trim_chars,
};

#[test]
fn chars_round_trip() {
    for s in ["", "a", "héllo wörld", "tab\tnew\nline", "\u{1F600} emoji"] {
        let v = to_chars(s);
        assert_eq!(v, s.chars().collect::<Vec<char>>());
        assert_eq!(from_chars(&v), s);
    }
}

#[test]
fn white_space_is_what_the_standard_library_says() {
    let mut n: u32 = 0;
    while n <= 0x3100 {
        if let Some(c) = char::from_u32(n) {
            assert_eq!(char_is_space(c), c.is_whitespace(), "U+{:04X}", n);
        }
        n += 1;
    }
    assert!(!char_is_space('\u{FEFF}'));
    assert!(!char_is_space('\u{200B}'));
}

#[test]
fn blank_texts() {
    assert!(is_blank(""));
    assert!(is_blank(" "));
    assert!(is_blank(" \t\r\n\u{3000}"));
    assert!(!is_blank("a"));
    assert!(!is_blank("  a  "));
    assert!(!is_blank("\u{200B}"));
}

#[test]
fn trimming_follows_the_standard_library() {
    for s in ["", " ", "a", " a", "a ", "  a b  ", "\t\r\nName=Foo \r", "\u{3000}x\u{2003}", "   "] {
        let got = from_chars(&trim_chars(&to_chars(s)));
        assert_eq!(got, s.trim(), "trim of {:?}", s);
    }
}

#[test]
fn concat_keeps_both_parts() {
    assert_eq!(append_str("", ""), "");
    assert_eq!(append_str("abc", ""), "abc");
    assert_eq!(append_str("", "def"), "def");
    assert_eq!(append_str("abc", "def"), "abcdef");
}

#[test]
fn dashes_replace_spaces_only() {
    assert_eq!(spaces_to_dashes(""), "");
    assert_eq!(spaces_to_dashes("my app"), "my-app");
    assert_eq!(spaces_to_dashes("  a  b "), "--a--b-");
    assert_eq!(spaces_to_dashes("tab\there"), "tab\there");
    assert_eq!(spaces_to_dashes("a-b"), "a-b");
}

#[test]
fn slugs_are_lowercase_with_dashes() {
    assert_eq!(slugify("My Project"), "my-project");
    assert_eq!(slugify("MyProject"), "myproject");
    assert_eq!(slugify("ÄÖÜ Straße"), "äöü-straße");
    assert_eq!(slugify(""), "");
    for s in ["Foo Bar Baz", "already-lower", "MiXeD 123", "ΑΒΓ ΔΕΖ"] {
        assert_eq!(slugify(s), s.to_lowercase().replace(" ", "-"));
    }
}

#[test]
fn decimal_notation() {
    assert_eq!(decimal_string(0), "0");
    assert_eq!(decimal_string(7), "7");
    assert_eq!(decimal_string(10), "10");
    assert_eq!(decimal_string(1712345678), "1712345678");
    assert_eq!(decimal_string(u64::MAX), "18446744073709551615");
    for n in [1u64, 9, 11, 99, 100, 101, 999, 1000, 123456789, 9007199254740993] {
        assert_eq!(decimal_string(n), n.to_string());
    }
}

#[test]
fn numbers_are_read_from_decimal_notation() {
    assert_eq!(parse_unsigned("0"), Some(0));
    assert_eq!(parse_unsigned("9"), Some(9));
    assert_eq!(parse_unsigned("007"), Some(7));
    assert_eq!(parse_unsigned("+12"), Some(12));
    assert_eq!(parse_unsigned("18446744073709551615"), Some(u64::MAX));
    assert_eq!(parse_unsigned("18446744073709551616"), None);
    assert_eq!(parse_unsigned("99999999999999999999999"), None);
    assert_eq!(parse_unsigned(""), None);
    assert_eq!(parse_unsigned("+"), None);
    assert_eq!(parse_unsigned("++1"), None);
    assert_eq!(parse_unsigned("-1"), None);
    assert_eq!(parse_unsigned("1 "), None);
    assert_eq!(parse_unsigned(" 1"), None);
    assert_eq!(parse_unsigned("1_000"), None);
    assert_eq!(parse_unsigned("12a"), None);
    assert_eq!(parse_unsigned("\u{661}"), None);
    for text in ["0", "1", "+0", "000", "255", "256", "4294967296", "18446744073709551615", "18446744073709551616", "", "+", "x", "1x", "+-1"] {
        assert_eq!(parse_unsigned(text), text.parse::<u64>().ok(), "{:?}", text);
    }
    for n in [0u64, 1, 10, 99, 100, 12345678901234567890, u64::MAX] {
        assert_eq!(parse_unsigned(&decimal_string(n)), Some(n));
    }
}
