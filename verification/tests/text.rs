use esmail::text::{
    contains, decimal_text, ends_with, is_at_most, is_white_char, lines_of, parse_u16,
    replace_text, same_text, sort_texts, split_text, starts_with, to_ascii_lower, trim, trim_pair,
};

#[test]
fn white_space_is_that_of_unicode() {
    for n in 0u32..0x110000 {
        if let Some(c) = char::from_u32(n) {
            assert_eq!(is_white_char(c), c.is_whitespace(), "{n:x}");
        }
    }
}

#[test]
fn trimming_agrees_with_str() {
    for s in ["", " ", "a", " a b ", "\u{2003}x\u{3000}", "\r\n x\t", "é ", "\u{a0}\u{85}"] {
        assert_eq!(trim(s), s.trim());
    }
    for s in ["<a>", "<<a>>", "a", "", "<", ">", ">a<", "<>", "a<>"] {
        assert_eq!(trim_pair(s, '<', '>'), s.trim_start_matches('<').trim_end_matches('>'));
    }
}

#[test]
fn lines_agree_with_str() {
    for s in ["", "a", "a\n", "a\r\n", "\n", "\r", "a\rb\n", "a\n\nb", "a\nb\r", "\r\n\r\n", "x\r\r\ny"] {
        let expected: Vec<&str> = s.lines().collect();
        assert_eq!(lines_of(s), expected, "{s:?}");
    }
}

#[test]
fn splitting_agrees_with_str() {
    for s in ["", ",", "a", "a,b", ",a,,b,", "é,ü"] {
        let expected: Vec<&str> = s.split(',').collect();
        assert_eq!(split_text(s, ','), expected);
    }
}

#[test]
fn replacing_agrees_with_str() {
    for (s, f, t) in [
        ("", "a", "b"),
        ("aaa", "a", "bb"),
        ("aaaa", "aa", "b"),
        ("aaa", "aa", "b"),
        ("abcabc", "bc", ""),
        ("xcid:1y", "cid:1", "data"),
        ("héé", "é", "e"),
    ] {
        assert_eq!(replace_text(s, f, t), s.replace(f, t));
    }
}

#[test]
fn prefixes_suffixes_and_occurrences_agree_with_str() {
    for (s, p) in [("", ""), ("a", ""), ("abc", "ab"), ("abc", "bc"), ("abc", "abcd"), ("abc", "b"), ("ab", "c")] {
        assert_eq!(starts_with(s, p), s.starts_with(p));
        assert_eq!(ends_with(s, p), s.ends_with(p));
        assert_eq!(contains(s, p), s.contains(p));
        assert_eq!(same_text(s, p), s == p);
    }
}

#[test]
fn lower_case_touches_ascii_capitals_only() {
    for s in ["ABCxyz019", "ÀÉ", "@[`{Z"] {
        assert_eq!(to_ascii_lower(s), s.to_ascii_lowercase());
    }
}

#[test]
fn decimal_agrees_with_display() {
    for n in [0u64, 1, 9, 10, 11, 99, 100, 1023, 65535, u64::MAX] {
        assert_eq!(decimal_text(n), n.to_string());
    }
}

#[test]
fn ports_parse_as_str_does() {
    for s in ["", "0", "993", "+465", "+", "-0", "-1", "65535", "65536", "0000000000000000000080", "99999999999999999999", " 1", "1 ", "1a", "٣"] {
        assert_eq!(parse_u16(s), s.parse::<u16>().ok(), "{s:?}");
    }
}

#[test]
fn order_agrees_with_str() {
    let list = ["", "a", "A", "ab", "b", "é", "z", "日本", "INBOX", "Inbox"];
    for a in list {
        for b in list {
            assert_eq!(is_at_most(a, b), a <= b, "{a:?} {b:?}");
        }
    }
    let mut expected: Vec<String> = list.iter().map(|s| s.to_string()).collect();
    let sorted = sort_texts(expected.clone());
    expected.sort();
    assert_eq!(sorted, expected);
    assert_eq!(sort_texts(vec!["b".into(), "a".into(), "b".into()]), vec!["a", "b", "b"]);
}
