use jsender::json::JsonValue;

fn text(s: &str) -> JsonValue {
    JsonValue::Str(s.to_string())
}

#[test]
fn object_keeps_each_key_once_with_last_value() {
    let object = JsonValue::object(vec![
        ("a".to_string(), JsonValue::U64(1)),
        ("b".to_string(), JsonValue::U64(2)),
        ("a".to_string(), JsonValue::U64(3)),
    ]);
    assert_eq!(
        object,
        JsonValue::Object(vec![
            ("a".to_string(), JsonValue::U64(3)),
            ("b".to_string(), JsonValue::U64(2)),
        ])
    );
}

#[test]
fn object_orders_members_by_key_bytes() {
    let object = JsonValue::object(vec![
        ("b".to_string(), JsonValue::Null),
        ("é".to_string(), JsonValue::Null),
        ("ab".to_string(), JsonValue::Null),
        ("B".to_string(), JsonValue::Null),
        ("a".to_string(), JsonValue::Null),
    ]);
    let keys: Vec<&str> = match &object {
        JsonValue::Object(members) => members.iter().map(|(k, _)| k.as_str()).collect(),
        _ => panic!("an object"),
    };
    assert_eq!(keys, vec!["B", "a", "ab", "b", "é"]);
}

#[test]
fn object_ignores_pair_order() {
    let a = JsonValue::object(vec![
        ("x".to_string(), JsonValue::U64(1)),
        ("y".to_string(), JsonValue::U64(2)),
    ]);
    let b = JsonValue::object(vec![
        ("y".to_string(), JsonValue::U64(2)),
        ("x".to_string(), JsonValue::U64(1)),
    ]);
    assert_eq!(a, b);
}

#[test]
fn object_from_no_pairs_is_empty() {
    assert_eq!(JsonValue::object(Vec::new()), JsonValue::Object(Vec::new()));
}

#[test]
fn to_serde_json_holds_the_same_value() {
    let value = JsonValue::object(vec![
        ("n".to_string(), JsonValue::I64(-5)),
        ("u".to_string(), JsonValue::U64(u64::MAX)),
        ("s".to_string(), text("x")),
        ("l".to_string(), JsonValue::Array(vec![JsonValue::Null, JsonValue::Bool(false)])),
    ]);
    let expected: serde_json::Value = serde_json::from_str(
        "{\"n\":-5,\"u\":18446744073709551615,\"s\":\"x\",\"l\":[null,false]}",
    )
    .unwrap();
    assert_eq!(value.to_serde_json(), expected);
}
