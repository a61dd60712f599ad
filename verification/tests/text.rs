use ghn::text::{
    byte_offset, chars_of, contains, decimal_string, last_segment, parse_u64, replace, starts_with,
    utf8_width,
};

#[test]
fn replace_scans_left_to_right() {
    assert_eq!(replace("aaa", "aa", "b"), "ba");
    assert_eq!(replace("abcabc", "bc", "X"), "aXaX");
    assert_eq!(replace("", "a", "b"), "");
    assert_eq!(replace("xyz", "q", "r"), "xyz");
}

#[test]
fn substring_search() {
    assert!(contains("hello world", "lo w"));
    assert!(contains("hello", ""));
    assert!(!contains("hello", "world"));
    assert!(!contains("ab", "abc"));
    assert!(contains("été", "té"));
}

#[test]
fn prefix_test() {
    assert!(starts_with("~/x", "~/"));
    assert!(!starts_with("~", "~/"));
    assert!(starts_with("abc", ""));
}

#[test]
fn last_segment_of_urls() {
    assert_eq!(last_segment("https://api.github.com/repos/o/r/issues/42"), "42");
    assert_eq!(last_segment("no-slash"), "no-slash");
    assert_eq!(last_segment("ends/"), "");
}

#[test]
fn parse_like_std() {
    for s in ["0", "42", "+7", "18446744073709551615", "18446744073709551616", "", "+", "-1", "1a", " 1", "007"] {
        assert_eq!(parse_u64(s), s.parse::<u64>().ok(), "input {:?}", s);
    }
}

#[test]
fn decimal_like_std() {
    for n in [0u64, 9, 10, 1234, u64::MAX] {
        assert_eq!(decimal_string(n), n.to_string());
    }
}

#[test]
fn utf8_widths_and_offsets() {
    for c in ['a', 'é', '€', '😀'] {
        assert_eq!(utf8_width(c), c.len_utf8());
    }
    assert_eq!(byte_offset("aé€😀", 0), 0);
    assert_eq!(byte_offset("aé€😀", 2), 3);
    assert_eq!(byte_offset("aé€😀", 4), "aé€😀".len());
    assert_eq!(chars_of("aé"), vec!['a', 'é']);
}

#[test]
fn parse_reads_back_decimal() {
    for n in [0u64, 7, 10, 99, 1000, 123456789, u64::MAX] {
        assert_eq!(parse_u64(&decimal_string(n)), Some(n));
    }
}
