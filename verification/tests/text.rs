use ai_types::text::{str_eq, str_lt};

#[test]
fn test_str_lt_orders_lexicographically() {
    assert!(str_lt("abc", "abd"));
    assert!(!str_lt("abd", "abc"));
    assert!(str_lt("ab", "abc"));
    assert!(!str_lt("abc", "ab"));
    assert!(str_lt("", "a"));
    assert!(!str_lt("a", ""));
    assert!(!str_lt("same", "same"));
    assert!(str_lt("Z", "a"));
}

#[test]
fn test_str_lt_compares_code_points() {
    assert!(str_lt("a", "\u{4e16}"));
    assert!(str_lt("\u{4e16}", "\u{1f980}"));
}

#[test]
fn test_str_eq_compares_characters() {
    assert!(str_eq("", ""));
    assert!(str_eq("hello", "hello"));
    assert!(!str_eq("hello", "hellO"));
    assert!(!str_eq("hello", "hell"));
    assert!(str_eq("\u{1f980}", "\u{1f980}"));
}
