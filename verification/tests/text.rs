use winsysm::text::{parse_u32, parse_unsigned, parse_usize, same_text, split, trim};

#[test]
fn trim_ascii_and_unicode_whitespace() {
    assert_eq!(trim("  hello \n"), "hello");
    assert_eq!(trim("\u{3000}\u{a0}x y\u{2029}"), "x y");
    assert_eq!(trim("   "), "");
    assert_eq!(trim(""), "");
    assert_eq!(trim("a"), "a");
    for s in ["\t a b \r\n", "\u{85}z\u{1680}", " q\u{200a}"] {
        assert_eq!(trim(s), s.trim());
    }
}

#[test]
fn split_like_str_split() {
    for s in ["1,3,5", "", ",", "a,,b,", "no commas"] {
        let mine = split(s, ',');
        let theirs: Vec<String> = s.split(',').map(|p| p.to_string()).collect();
        assert_eq!(mine, theirs);
    }
}

#[test]
fn parse_like_str_parse() {
    for s in ["0", "42", "+7", "007", "", "+", "-1", "1 ", "x", "18446744073709551615", "18446744073709551616"] {
        assert_eq!(parse_usize(s), s.parse::<usize>().ok(), "input {:?}", s);
        assert_eq!(parse_u32(s), s.parse::<u32>().ok(), "input {:?}", s);
    }
    assert_eq!(parse_u32("4294967295"), Some(u32::MAX));
    assert_eq!(parse_u32("4294967296"), None);
    assert_eq!(parse_unsigned("250", 255), Some(250));
    assert_eq!(parse_unsigned("256", 255), None);
}

#[test]
fn same_text_compares_characters() {
    assert!(same_text("abc", "abc"));
    assert!(!same_text("abc", "abd"));
    assert!(!same_text("ab", "abc"));
}
