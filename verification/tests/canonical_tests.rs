use alipay_rs::canonical::{canonical_string, joined_string, sort_pairs};
use alipay_rs::text::{
    hex_digit_to_char, i64_to_string, pad2_string, str_cmp, str_eq, str_le, str_lt, u64_to_string,
};

fn pairs(raw: &[(&str, &str)]) -> Vec<(String, String)> {
    raw.iter().map(|(k, v)| (k.to_string(), v.to_string())).collect()
}

#[test]
fn key_ordering() {
    let mut v = pairs(&[("b", "2"), ("a", "1"), ("c", "3")]);
    let s = canonical_string(&mut v);
    assert_eq!(s, "a=1&b=2&c=3");
}

#[test]
fn canonical_is_deterministic_across_orders() {
    let mut v1 = pairs(&[("b", "2"), ("a", "1"), ("c", "3"), ("aa", "4")]);
    let mut v2 = pairs(&[("aa", "4"), ("c", "3"), ("b", "2"), ("a", "1")]);
    let s1 = canonical_string(&mut v1);
    let s2 = canonical_string(&mut v2);
    assert_eq!(s1, s2);
    assert_eq!(s1, "a=1&aa=4&b=2&c=3");
}

#[test]
fn canonical_of_empty_and_single() {
    let mut empty: Vec<(String, String)> = Vec::new();
    assert_eq!(canonical_string(&mut empty), "");
    let mut one = pairs(&[("key", "value")]);
    assert_eq!(canonical_string(&mut one), "key=value");
}

#[test]
fn joined_string_keeps_given_order() {
    let v = pairs(&[("z", "1"), ("a", "2")]);
    assert_eq!(joined_string(&v), "z=1&a=2");
}

#[test]
fn sort_pairs_orders_by_key_bytes() {
    let mut v = pairs(&[("Zeta", "1"), ("alpha", "2"), ("B", "3"), ("a1", "4")]);
    sort_pairs(&mut v);
    let keys: Vec<&str> = v.iter().map(|p| p.0.as_str()).collect();
    // byte-wise: upper-case letters sort before lower-case ones
    assert_eq!(keys, vec!["B", "Zeta", "a1", "alpha"]);
}

#[test]
fn string_comparison_is_byte_ordinal() {
    assert!(str_lt("a", "b"));
    assert!(str_lt("a", "aa"));
    assert!(!str_lt("b", "ab"));
    assert!(str_lt("A", "a"));
    assert!(str_le("abc", "abc"));
    assert!(!str_le("abd", "abc"));
    assert!(str_eq("same", "same"));
    assert!(!str_eq("same", "sam"));
    assert_eq!(str_cmp("", ""), 0);
    assert_eq!(str_cmp("", "a"), -1);
    assert_eq!(str_cmp("a", ""), 1);
}

#[test]
fn decimal_rendering() {
    assert_eq!(u64_to_string(0), "0");
    assert_eq!(u64_to_string(7), "7");
    assert_eq!(u64_to_string(12345), "12345");
    assert_eq!(u64_to_string(u64::MAX), "18446744073709551615");
    assert_eq!(i64_to_string(0), "0");
    assert_eq!(i64_to_string(-1), "-1");
    assert_eq!(i64_to_string(i64::MIN), "-9223372036854775808");
    assert_eq!(i64_to_string(i64::MAX), "9223372036854775807");
    assert_eq!(pad2_string(0), "00");
    assert_eq!(pad2_string(7), "07");
    assert_eq!(pad2_string(10), "10");
    assert_eq!(pad2_string(123), "123");
    assert_eq!(hex_digit_to_char(0), '0');
    assert_eq!(hex_digit_to_char(10), 'a');
    assert_eq!(hex_digit_to_char(15), 'f');
}
