use cdp_connection::json::find_member;
use cdp_connection::json::push_decimal;

fn members(pairs: &[(&str, &str)]) -> Vec<(String, String)> {
    pairs.iter().map(|(name, value)| (name.to_string(), value.to_string())).collect()
}

fn decimal(n: u64) -> String {
    let mut out = String::new();
    push_decimal(&mut out, n);
    out
}

#[test]
fn find_member_finds_a_member_by_its_name() {
    let all = members(&[("error", "null"), ("id", "7"), ("result", "{}")]);
    assert_eq!(find_member(&all, "id"), Some(&"7".to_string()));
    assert_eq!(find_member(&all, "result"), Some(&"{}".to_string()));
    assert_eq!(find_member(&all, "error"), Some(&"null".to_string()));
}

#[test]
fn find_member_finds_nothing_under_another_name() {
    let all = members(&[("id", "7")]);
    assert_eq!(find_member(&all, "method"), None);
    assert_eq!(find_member(&all, "i"), None);
    assert_eq!(find_member(&all, "id "), None);
    assert_eq!(find_member(&all, "ID"), None);
    assert_eq!(find_member(&Vec::new(), "id"), None);
}

#[test]
fn find_member_takes_the_first_of_two() {
    let all = members(&[("a", "1"), ("b", "2"), ("a", "3")]);
    assert_eq!(find_member(&all, "a"), Some(&"1".to_string()));
}

#[test]
fn push_decimal_writes_single_digits() {
    assert_eq!(decimal(0), "0");
    assert_eq!(decimal(1), "1");
    assert_eq!(decimal(5), "5");
    assert_eq!(decimal(9), "9");
}

#[test]
fn push_decimal_writes_the_most_significant_digit_first() {
    assert_eq!(decimal(10), "10");
    assert_eq!(decimal(907), "907");
    assert_eq!(decimal(9223), "9223");
    assert_eq!(decimal(1234567890), "1234567890");
}

#[test]
fn push_decimal_writes_the_largest_number() {
    assert_eq!(decimal(u64::MAX), "18446744073709551615");
}

#[test]
fn push_decimal_appends_to_what_is_there() {
    let mut out = "id=".to_string();
    push_decimal(&mut out, 42);
    assert_eq!(out, "id=42");
}
