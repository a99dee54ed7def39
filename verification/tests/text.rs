use mutants::text::{
    contains_text, decimal, join_texts, parse_unsigned, replace_all, same_text, split_lines,
    split_once, strip_prefix, IntErrorKind,
};

#[test]
fn replaces_every_occurrence_from_the_front() {
    assert_eq!(replace_all("aaa", "aa", "b"), "ba");
    assert_eq!(replace_all("x-y-z", "-", "+"), "x+y+z");
    assert_eq!(replace_all("abc", "", "X"), "XaXbXcX");
    assert_eq!(replace_all("", "", "X"), "X");
    assert_eq!(replace_all("abc", "d", "X"), "abc");
    assert_eq!(replace_all("a\r\nb\r\n", "\r\n", "\n"), "a\nb\n");
}

#[test]
fn splits_lines_like_str_lines() {
    assert_eq!(split_lines("a\nb\r\n\nc"), vec!["a", "b", "", "c"]);
    assert_eq!(split_lines("a\n"), vec!["a"]);
    assert_eq!(split_lines(""), Vec::<String>::new());
    assert_eq!(split_lines("\n"), vec![""]);
    assert_eq!(split_lines("a\r"), vec!["a\r"]);
}

#[test]
fn splits_once_at_the_first_separator() {
    assert_eq!(split_once("K=a=b", '='), Some(("K".to_owned(), "a=b".to_owned())));
    assert_eq!(split_once("none", '='), None);
}

#[test]
fn strips_prefixes() {
    assert_eq!(strip_prefix("src/lib.rs", "src/"), Some("lib.rs".to_owned()));
    assert_eq!(strip_prefix("lib.rs", "src/"), None);
}

#[test]
fn finds_substrings() {
    assert!(contains_text("1 missed", "missed"));
    assert!(contains_text("abc", ""));
    assert!(!contains_text("abc", "abcd"));
}

#[test]
fn compares_texts() {
    assert!(same_text("abc", "abc"));
    assert!(!same_text("abc", "abd"));
}

#[test]
fn renders_decimals() {
    assert_eq!(decimal(0), "0");
    assert_eq!(decimal(1234), "1234");
    assert_eq!(decimal(u64::MAX), "18446744073709551615");
}

#[test]
fn parses_unsigned_numbers() {
    assert_eq!(parse_unsigned("42", u32::MAX as u64), Ok(42));
    assert_eq!(parse_unsigned("+7", u32::MAX as u64), Ok(7));
    assert_eq!(parse_unsigned("", u32::MAX as u64), Err(IntErrorKind::Empty));
    assert_eq!(parse_unsigned("+", u32::MAX as u64), Err(IntErrorKind::InvalidDigit));
    assert_eq!(parse_unsigned("-1", u32::MAX as u64), Err(IntErrorKind::InvalidDigit));
    assert_eq!(parse_unsigned("4294967296", u32::MAX as u64), Err(IntErrorKind::PosOverflow));
    assert_eq!(parse_unsigned("4294967295", u32::MAX as u64), Ok(4294967295));
    assert_eq!(parse_unsigned("1x", u32::MAX as u64), Err(IntErrorKind::InvalidDigit));
}

#[test]
fn parses_like_std() {
    for s in ["0", "12", "+3", "", "+", "-", "-4", "99999999999", "7a", " 1"] {
        let ours = parse_unsigned(s, u32::MAX as u64).map(|n| n as u32);
        let std = s.parse::<u32>();
        assert_eq!(ours.is_ok(), std.is_ok(), "{s:?}");
        if let (Ok(a), Ok(b)) = (ours, &std) {
            assert_eq!(a, *b);
        }
        if let (Err(k), Err(e)) = (ours, &std) {
            assert_eq!(k.message(), e.to_string(), "{s:?}");
        }
    }
}

#[test]
fn joins_with_separator() {
    let words = vec!["1".to_owned(), "missed".to_owned()];
    assert_eq!(join_texts(&words, " "), "1 missed");
    assert_eq!(join_texts(&Vec::new(), " "), "");
}
