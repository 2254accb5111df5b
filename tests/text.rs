use lean_checker::text::{decimal_string, next, next_idx, parse_index, str_eq};

#[test]
fn test_next() {
    let res = next(" a  foo ba  ");
    assert_eq!(res, Some(("a", "  foo ba  ")));
    let res = next(res.unwrap().1);
    assert_eq!(res, Some(("foo", " ba  ")));
    let res = next(res.unwrap().1);
    assert_eq!(res, Some(("ba", "  ")));
    let res = next(res.unwrap().1);
    assert!(res.is_none());
}

#[test]
fn test_next_idx() {
    let res = next_idx(" 1  234 56  ");
    assert_eq!(res, Some((1, "  234 56  ")));
    let res = next_idx(res.unwrap().1);
    assert_eq!(res, Some((234, " 56  ")));
    let res = next_idx(res.unwrap().1);
    assert_eq!(res, Some((56, "  ")));
    let res = next_idx(res.unwrap().1);
    assert!(res.is_none());
}

#[test]
fn next_splits_on_unicode_whitespace() {
    assert_eq!(next("\t\u{3000}αβ\u{a0}γ"), Some(("αβ", "\u{a0}γ")));
    assert_eq!(next(""), None);
    assert_eq!(next(" \t\n "), None);
}

#[test]
fn next_idx_refuses_non_numbers() {
    assert_eq!(next_idx(" x 1"), None);
    assert_eq!(next_idx("-1"), None);
    assert_eq!(next_idx(""), None);
}

#[test]
fn parse_index_values() {
    assert_eq!(parse_index("0"), Some(0));
    assert_eq!(parse_index("007"), Some(7));
    assert_eq!(parse_index("+5"), Some(5));
    assert_eq!(parse_index("+"), None);
    assert_eq!(parse_index(""), None);
    assert_eq!(parse_index("1a"), None);
    assert_eq!(parse_index("18446744073709551615"), Some(usize::MAX));
    assert_eq!(parse_index("18446744073709551616"), None);
    assert_eq!(parse_index("99999999999999999999999"), None);
}

#[test]
fn decimal_strings() {
    assert_eq!(decimal_string(0), "0");
    assert_eq!(decimal_string(9), "9");
    assert_eq!(decimal_string(10), "10");
    assert_eq!(decimal_string(4096), "4096");
    assert_eq!(decimal_string(usize::MAX), usize::MAX.to_string());
}

#[test]
fn string_equality() {
    assert!(str_eq("#NS", "#NS"));
    assert!(!str_eq("#NS", "#NI"));
    assert!(!str_eq("#UM", "#UIM"));
    assert!(str_eq("", ""));
}
