use ycallr::error::FfiError;
use ycallr::suggest::levenshtein;
use ycallr::text::{
    join_strings, pad_right_str, str_lines, str_split_once, str_trim, usize_to_decimal,
};

#[test]
fn levenshtein_distance() {
    assert_eq!(levenshtein("kitten", "sitting"), 3);
    assert_eq!(levenshtein("abc", "abc"), 0);
    assert_eq!(levenshtein("", "abc"), 3);
}

#[test]
fn levenshtein_is_symmetric_and_counts_chars() {
    assert_eq!(levenshtein("sitting", "kitten"), 3);
    assert_eq!(levenshtein("abc", ""), 3);
    assert_eq!(levenshtein("", ""), 0);
    assert_eq!(levenshtein("héllo", "hello"), 1);
    assert_eq!(levenshtein("repos.issu", "repos.issues"), 2);
}

#[test]
fn ffi_error_display() {
    let err = FfiError::new("boom");
    assert_eq!(err.to_string(), "boom");
}

#[test]
fn lines_follow_str_lines() {
    for s in ["", "a", "a\n", "a\r\nb", "\n\nx\r", "a\n\nb\n", "x\r\n"] {
        let expected: Vec<String> = s.lines().map(|l| l.to_string()).collect();
        assert_eq!(str_lines(s), expected, "lines of {:?}", s);
    }
}

#[test]
fn trim_follows_str_trim() {
    for s in ["", "  a b  ", "\t\nx\u{3000}", "\u{85}y\u{a0}", "z"] {
        assert_eq!(str_trim(s), s.trim());
    }
}

#[test]
fn split_once_and_join() {
    assert_eq!(
        str_split_once("A=b=c", '='),
        Some(("A".to_string(), "b=c".to_string()))
    );
    assert_eq!(str_split_once("abc", '='), None);
    let parts = vec!["a".to_string(), "b".to_string(), "c".to_string()];
    assert_eq!(join_strings(&parts, ", "), "a, b, c");
    assert_eq!(join_strings(&[], ", "), "");
}

#[test]
fn decimal_and_padding() {
    assert_eq!(usize_to_decimal(0), "0");
    assert_eq!(usize_to_decimal(7), "7");
    assert_eq!(usize_to_decimal(1234567890), "1234567890");
    assert_eq!(pad_right_str("GET", 7), format!("{:<7}", "GET"));
    assert_eq!(pad_right_str("toolongname", 3), "toolongname");
}
