use alipay_rs::RequestParam;

fn pairs(raw: &[(&str, &str)]) -> Vec<(String, String)> {
    raw.iter().map(|(k, v)| (k.to_string(), v.to_string())).collect()
}

#[test]
fn new_keeps_last_value_for_a_repeated_key() {
    let p = RequestParam::new(pairs(&[("a", "1"), ("b", "2"), ("a", "3")]));
    let inner = p.inner();
    let vals: Vec<&str> = inner.iter().filter(|e| e.0 == "a").map(|e| e.1.as_str()).collect();
    assert_eq!(vals, vec!["3"]);
    assert_eq!(inner.len(), 2);
}

#[test]
fn save_upserts() {
    let mut p = RequestParam::new(Vec::new());
    p.save("k".to_string(), "v1".to_string());
    p.save("k".to_string(), "v2".to_string());
    p.save("other".to_string(), "x".to_string());
    let inner = p.inner();
    assert_eq!(inner.len(), 2);
    assert!(inner.iter().any(|e| e.0 == "k" && e.1 == "v2"));
    assert!(inner.iter().any(|e| e.0 == "other" && e.1 == "x"));
}

#[test]
fn set_updates_only_present_keys() {
    let mut p = RequestParam::new(pairs(&[("k", "v")]));
    p.set("k".to_string(), "w".to_string());
    p.set("missing".to_string(), "x".to_string());
    let inner = p.inner();
    assert_eq!(inner, pairs(&[("k", "w")]));
}

#[test]
fn add_overrides_like_save() {
    let mut p = RequestParam::new(pairs(&[("k", "v")]));
    p.add("k".to_string(), "w".to_string());
    assert_eq!(p.inner(), pairs(&[("k", "w")]));
}

#[test]
fn clear_empties_the_store() {
    let mut p = RequestParam::new(pairs(&[("a", "1"), ("b", "2")]));
    p.clear();
    assert_eq!(p.len(), 0);
    assert!(p.inner().is_empty());
}

#[test]
fn replace_swaps_the_whole_content() {
    let mut p = RequestParam::new(pairs(&[("a", "1")]));
    p.replace(pairs(&[("b", "2"), ("c", "3")]));
    assert_eq!(p.inner(), pairs(&[("b", "2"), ("c", "3")]));
}

#[test]
fn contains_key_sees_present_keys_only() {
    let p = RequestParam::new(pairs(&[("a", "1")]));
    assert!(p.contains_key("a"));
    assert!(!p.contains_key("b"));
    assert!(!p.contains_key(""));
}

#[test]
fn retain_keeps_what_the_predicate_accepts() {
    let mut p = RequestParam::new(pairs(&[("a", "1"), ("b", "2"), ("c", "3")]));
    p.retain(|k: &String, _v: &String| k != "b");
    let inner = p.inner();
    assert_eq!(inner, pairs(&[("a", "1"), ("c", "3")]));
}

#[test]
fn duplicate_copies_entries() {
    let p = RequestParam::new(pairs(&[("a", "1"), ("b", "2")]));
    let q = p.duplicate();
    assert_eq!(p.inner(), q.inner());
}
