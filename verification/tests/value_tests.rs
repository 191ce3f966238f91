use alipay_rs::value::{flat_string, json_string, ParamValue};

fn s(text: &str) -> ParamValue {
    ParamValue::Str(text.to_string())
}

#[test]
fn json_scalars() {
    assert_eq!(json_string(&ParamValue::Null), "null");
    assert_eq!(json_string(&ParamValue::Bool(true)), "true");
    assert_eq!(json_string(&ParamValue::Bool(false)), "false");
    assert_eq!(json_string(&ParamValue::Int(0)), "0");
    assert_eq!(json_string(&ParamValue::Int(-42)), "-42");
    assert_eq!(json_string(&s("plain")), "\"plain\"");
}

#[test]
fn json_escaping() {
    assert_eq!(json_string(&s("a\"b")), "\"a\\\"b\"");
    assert_eq!(json_string(&s("a\\b")), "\"a\\\\b\"");
    assert_eq!(json_string(&s("a\nb\tc\rd")), "\"a\\nb\\tc\\rd\"");
    assert_eq!(json_string(&s("\u{8}\u{c}")), "\"\\b\\f\"");
    assert_eq!(json_string(&s("\u{1}\u{1f}")), "\"\\u0001\\u001f\"");
}

#[test]
fn json_array_and_object() {
    let arr = ParamValue::Array(vec![ParamValue::Int(1), s("x"), ParamValue::Null]);
    assert_eq!(json_string(&arr), "[1,\"x\",null]");
    let obj = ParamValue::Object(vec![
        ("out_biz_no".to_string(), s("1")),
        ("amount".to_string(), ParamValue::Int(10)),
    ]);
    assert_eq!(json_string(&obj), "{\"out_biz_no\":\"1\",\"amount\":10}");
    let nested = ParamValue::Object(vec![("inner".to_string(), arr)]);
    assert_eq!(json_string(&nested), "{\"inner\":[1,\"x\",null]}");
    assert_eq!(json_string(&ParamValue::Array(Vec::new())), "[]");
    assert_eq!(json_string(&ParamValue::Object(Vec::new())), "{}");
}

#[test]
fn json_matches_serde_json() {
    // the same structured value rendered by serde_json, members in the same
    // (alphabetical) order that serde_json's map iterates
    let mut map = serde_json::Map::new();
    map.insert(
        "a".to_string(),
        serde_json::Value::String("x\"y\\z\nw\u{1}".to_string()),
    );
    map.insert(
        "b".to_string(),
        serde_json::Value::Number(serde_json::Number::from(-42i64)),
    );
    map.insert("c".to_string(), serde_json::Value::Bool(true));
    map.insert(
        "e".to_string(),
        serde_json::Value::Array(vec![
            serde_json::Value::Number(serde_json::Number::from(1i64)),
            serde_json::Value::String("\u{1f}".to_string()),
        ]),
    );
    let expected = serde_json::to_string(&serde_json::Value::Object(map)).unwrap();

    let ours = ParamValue::Object(vec![
        ("a".to_string(), s("x\"y\\z\nw\u{1}")),
        ("b".to_string(), ParamValue::Int(-42)),
        ("c".to_string(), ParamValue::Bool(true)),
        (
            "e".to_string(),
            ParamValue::Array(vec![ParamValue::Int(1), s("\u{1f}")]),
        ),
    ]);
    assert_eq!(json_string(&ours), expected);
}

#[test]
fn null_members_never_reach_the_json() {
    let obj = ParamValue::Object(vec![
        ("a".to_string(), ParamValue::Int(1)),
        ("gone".to_string(), ParamValue::Null),
        ("b".to_string(), s("x")),
    ]);
    assert_eq!(json_string(&obj), "{\"a\":1,\"b\":\"x\"}");
    // a leading null member leaves no stray comma
    let obj = ParamValue::Object(vec![
        ("gone".to_string(), ParamValue::Null),
        ("a".to_string(), ParamValue::Int(1)),
    ]);
    assert_eq!(json_string(&obj), "{\"a\":1}");
    // an object of nothing but null members renders empty
    let obj = ParamValue::Object(vec![
        ("x".to_string(), ParamValue::Null),
        ("y".to_string(), ParamValue::Null),
    ]);
    assert_eq!(json_string(&obj), "{}");
    // the suppression reaches nested objects too
    let nested = ParamValue::Object(vec![(
        "inner".to_string(),
        ParamValue::Object(vec![
            ("keep".to_string(), ParamValue::Bool(false)),
            ("gone".to_string(), ParamValue::Null),
        ]),
    )]);
    assert_eq!(json_string(&nested), "{\"inner\":{\"keep\":false}}");
    // a null array element is a value, not a field, and stays
    let arr = ParamValue::Array(vec![ParamValue::Null, ParamValue::Int(2)]);
    assert_eq!(json_string(&arr), "[null,2]");
}

#[test]
fn absent_payloads() {
    assert!(ParamValue::Null.is_absent());
    assert!(ParamValue::Object(Vec::new()).is_absent());
    assert!(ParamValue::Object(vec![
        ("a".to_string(), ParamValue::Null),
        ("b".to_string(), ParamValue::Null),
    ])
    .is_absent());
    assert!(!ParamValue::Object(vec![("a".to_string(), ParamValue::Int(0))]).is_absent());
    assert!(!ParamValue::Bool(false).is_absent());
    assert!(!s("").is_absent());
}

#[test]
fn flat_rendering() {
    assert_eq!(flat_string(&ParamValue::Null), "");
    assert_eq!(flat_string(&ParamValue::Bool(true)), "true");
    assert_eq!(flat_string(&ParamValue::Bool(false)), "false");
    assert_eq!(flat_string(&ParamValue::Int(-7)), "-7");
    assert_eq!(flat_string(&s("raw text")), "raw text");
    let obj = ParamValue::Object(vec![("k".to_string(), s("v"))]);
    assert_eq!(flat_string(&obj), "{\"k\":\"v\"}");
    let arr = ParamValue::Array(vec![ParamValue::Int(1)]);
    assert_eq!(flat_string(&arr), "[1]");
}

#[test]
fn null_marker() {
    assert!(ParamValue::Null.is_null());
    assert!(!ParamValue::Bool(false).is_null());
    assert!(!s("").is_null());
}
