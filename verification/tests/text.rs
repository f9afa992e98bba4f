use linger::text::{contains_str, parse_u16, replace_all};

#[test]
fn replace_all_replaces_every_occurrence() {
    assert_eq!(replace_all("a-b-c", "-", "_"), "a_b_c");
    assert_eq!(replace_all("aaa", "aa", "b"), "ba");
    assert_eq!(replace_all("abc", "", "x"), "xaxbxcx");
    assert_eq!(replace_all("", "", "x"), "x");
    assert_eq!(replace_all("abc", "z", "y"), "abc");
    assert_eq!(replace_all("it's", "'", "''"), "it''s");
}

#[test]
fn contains_str_finds_substrings() {
    assert!(contains_str("hello world", "o w"));
    assert!(contains_str("abc", ""));
    assert!(!contains_str("abc", "abcd"));
    assert!(!contains_str("abc", "ac"));
}

#[test]
fn parse_u16_like_std() {
    assert_eq!(parse_u16("8080"), Some(8080));
    assert_eq!(parse_u16("+80"), Some(80));
    assert_eq!(parse_u16("00065535"), Some(65535));
    assert_eq!(parse_u16("65536"), None);
    assert_eq!(parse_u16(""), None);
    assert_eq!(parse_u16("+"), None);
    assert_eq!(parse_u16("-1"), None);
    assert_eq!(parse_u16(" 80"), None);
    assert_eq!(parse_u16("99999999999999999999"), None);
    for s in ["0", "1", "80", "65535", "x"] {
        assert_eq!(parse_u16(s), s.parse::<u16>().ok());
    }
}

#[test]
fn decimal_text_reads_back() {
    for port in [0u16, 7, 80, 443, 3000, 65535] {
        let addr = linger::server::listen_address("", port);
        assert_eq!(parse_u16(&addr[1..]), Some(port));
    }
}
