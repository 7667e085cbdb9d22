use cli_downloader::text::{decimal_text, parse_u64, same_text, text_after_last, text_before_first};

#[test]
fn parse_accepts_plain_and_plus_numbers() {
    assert_eq!(parse_u64("0"), Some(0));
    assert_eq!(parse_u64("123"), Some(123));
    assert_eq!(parse_u64("+42"), Some(42));
    assert_eq!(parse_u64("007"), Some(7));
    assert_eq!(parse_u64("18446744073709551615"), Some(u64::MAX));
}

#[test]
fn parse_rejects_what_str_parse_rejects() {
    for s in ["", "+", "-1", "-", "12a", " 1", "1 ", "1.5", "18446744073709551616", "99999999999999999999", "++1", "٣"] {
        assert_eq!(parse_u64(s), None, "{s:?}");
        assert_eq!(parse_u64(s), s.parse::<u64>().ok(), "{s:?}");
    }
}

#[test]
fn parse_matches_std_on_many_inputs() {
    for s in ["5", "+0", "00", "4294967296", "18446744073709551609", "1844674407370955161a"] {
        assert_eq!(parse_u64(s), s.parse::<u64>().ok(), "{s:?}");
    }
}

#[test]
fn decimal_text_matches_to_string() {
    for n in [0u64, 7, 10, 99, 100, 1234567890, u64::MAX] {
        assert_eq!(decimal_text(n), n.to_string());
    }
}

#[test]
fn decimal_reads_back() {
    for n in [0u64, 9, 10, 65535, u64::MAX - 1, u64::MAX] {
        assert_eq!(parse_u64(&decimal_text(n)), Some(n));
    }
}

#[test]
fn split_pieces() {
    assert_eq!(text_after_last("a/b/c", '/'), "c");
    assert_eq!(text_after_last("abc", '/'), "abc");
    assert_eq!(text_after_last("abc/", '/'), "");
    assert_eq!(text_after_last("", '/'), "");
    assert_eq!(text_before_first("a?b?c", '?'), "a");
    assert_eq!(text_before_first("abc", '?'), "abc");
    assert_eq!(text_before_first("?x", '?'), "");
    assert_eq!(text_after_last("ünï/cødé", '/'), "cødé");
}

#[test]
fn same_text_compares_characters() {
    assert!(same_text("bytes", "bytes"));
    assert!(!same_text("bytes", "Bytes"));
    assert!(!same_text("byte", "bytes"));
}
