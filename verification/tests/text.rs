use wcs::text::{
    comment_start, find_delimiter, is_text, parse_unsigned, push_decimal, push_str, same_text,
    strip_bounds, to_chars, Margin,
};

fn chars(s: &str) -> Vec<char> {
    s.chars().collect()
}

fn stripped(s: &str, m: Margin) -> String {
    let v = chars(s);
    let (a, b) = strip_bounds(&v, m);
    v[a..b].iter().collect()
}

#[test]
fn blank_margin_is_unicode_white_space() {
    for u in 0..=0x10FFFFu32 {
        if let Some(c) = char::from_u32(u) {
            assert_eq!(Margin::Blank.test(c), c.is_whitespace(), "{:x}", u);
            assert_eq!(Margin::Quote.test(c), c == '\'', "{:x}", u);
        }
    }
}

#[test]
fn strip_agrees_with_trim() {
    let cases = [
        "", " ", "   ", "a", " a", "a ", "  a b  ", "\t\n a \r\n", "\u{a0}x\u{3000}", " ' x ' ",
        "x  y", "\u{2003}\u{2003}", "a\u{85}",
    ];
    for s in cases {
        assert_eq!(stripped(s, Margin::Blank), s.trim(), "{:?}", s);
    }
}

#[test]
fn strip_quotes_agrees_with_trim_matches() {
    let cases = ["", "'", "''", "'a'", "a'", "'a", "''a''", "'a'b'", " 'a' ", "a", "'  a  '"];
    for s in cases {
        assert_eq!(stripped(s, Margin::Quote), s.trim_matches('\''), "{:?}", s);
    }
}

#[test]
fn first_delimiter_is_found() {
    let cases: [(&str, Option<usize>); 10] = [
        ("", None),
        ("=", None),
        ("= ", Some(0)),
        (" =", None),
        ("a= b", Some(1)),
        ("a=b= c= d", Some(3)),
        ("a =b", None),
        ("==  ", Some(1)),
        ("COMMENT no delimiter here", None),
        ("KEY     = value = other", Some(8)),
    ];
    for (s, expected) in cases {
        assert_eq!(find_delimiter(&chars(s)), expected, "{:?}", s);
        assert_eq!(s.find("= "), expected, "{:?}", s);
    }
}

#[test]
fn comment_starts_at_the_first_slash_outside_quotes() {
    let cases: [(&str, usize); 10] = [
        ("", 0),
        ("1.5", 3),
        ("1.5 / c", 4),
        ("/", 0),
        ("'a/b' / c", 6),
        ("'a/b", 4),
        ("'a' / 'b' / c", 4),
        ("'it''s / x' / c", 12),
        ("''/", 2),
        ("a'/'/b", 4),
    ];
    for (s, expected) in cases {
        assert_eq!(comment_start(&chars(s)), expected, "{:?}", s);
    }
}

#[test]
fn unsigned_integers_are_read_as_the_standard_library_reads_them() {
    let cases = [
        "", "+", "-", "0", "00", "1", "+1", "-1", "++1", "1+", " 1", "1 ", "12a", "a12", "1.0",
        "18446744073709551615", "18446744073709551616", "18446744073709551620",
        "184467440737095516150", "000000000000000000000000000000000001", "+0", "-0",
        "9999999999999999999", "99999999999999999999", "\u{0661}",
    ];
    for s in cases {
        assert_eq!(parse_unsigned(&chars(s)), s.parse::<u64>().ok(), "{:?}", s);
    }
}

#[test]
fn decimal_digits_are_written_without_leading_zeros() {
    let cases = [0u64, 1, 9, 10, 11, 99, 100, 101, 12345, 1000000, u64::MAX - 1, u64::MAX];
    for n in cases {
        let mut out = chars("x_");
        push_decimal(&mut out, n);
        assert_eq!(out.iter().collect::<String>(), format!("x_{}", n));
    }
    assert_eq!(
        {
            let mut out = Vec::new();
            push_decimal(&mut out, 18446744073709551615);
            out.iter().collect::<String>()
        },
        "18446744073709551615"
    );
}

#[test]
fn characters_are_appended_in_order() {
    let mut out = chars("ab");
    push_str(&mut out, "");
    assert_eq!(out, chars("ab"));
    push_str(&mut out, "c\u{e9}d");
    assert_eq!(out, chars("abc\u{e9}d"));
    assert_eq!(to_chars("h\u{e9}llo"), chars("h\u{e9}llo"));
    assert_eq!(to_chars(""), Vec::<char>::new());
}

#[test]
fn texts_are_compared_character_by_character() {
    assert!(same_text(&chars(""), &chars("")));
    assert!(same_text(&chars("abc"), &chars("abc")));
    assert!(!same_text(&chars("abc"), &chars("abd")));
    assert!(!same_text(&chars("abc"), &chars("ab")));
    assert!(!same_text(&chars("ab"), &chars("abc")));
    assert!(is_text(&chars("NAXIS1"), "NAXIS1"));
    assert!(!is_text(&chars("NAXIS1"), "NAXIS2"));
    assert!(!is_text(&chars("NAXIS1"), "NAXIS"));
    assert!(!is_text(&chars("naxis1"), "NAXIS1"));
}
