use aom::goals::GoalsError;
use aom::text::{decimal_string, join_strings, trim_str};

#[test]
fn decimal_rendering() {
    assert_eq!(decimal_string(0), "0");
    assert_eq!(decimal_string(7), "7");
    assert_eq!(decimal_string(10), "10");
    assert_eq!(decimal_string(1234567890), "1234567890");
    assert_eq!(decimal_string(u64::MAX), u64::MAX.to_string());
}

#[test]
fn trimming_matches_std() {
    for s in ["", "   ", " a ", "\u{3000}x\u{2028}", "a b", "\t\n x\r", "\u{200b}y"] {
        assert_eq!(trim_str(s), s.trim(), "{s:?}");
    }
}

#[test]
fn joining() {
    let parts = vec!["a".to_string(), "b".to_string(), "c".to_string()];
    assert_eq!(join_strings(&parts, ", "), "a, b, c");
    assert_eq!(join_strings(&vec![], ", "), "");
    assert_eq!(join_strings(&vec!["x".to_string()], "."), "x");
}

#[test]
fn goals_error_message() {
    let e = GoalsError::new("expected `=`".to_string());
    assert_eq!(e.to_string(), "invalid goals.toml: expected `=`");
}

