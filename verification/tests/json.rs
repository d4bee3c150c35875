use kei::json::JsonValue;

#[test]
fn get_finds_members_of_objects_only() {
    let value = JsonValue::Object(vec![
        ("a".to_string(), JsonValue::Int(1)),
        ("b".to_string(), JsonValue::Str("x".to_string())),
    ]);
    assert_eq!(value.get("a"), Some(&JsonValue::Int(1)));
    assert_eq!(value.get("b").and_then(|v| v.as_str()), Some("x"));
    assert_eq!(value.get("c"), None);
    assert_eq!(JsonValue::Str("a".to_string()).get("a"), None);
    assert!(value.is_object());
    assert!(!JsonValue::Null.is_object());
}

#[test]
fn deep_clone_copies_nested_values() {
    let value = JsonValue::Object(vec![(
        "list".to_string(),
        JsonValue::Array(vec![JsonValue::Bool(true), JsonValue::Number("2.5".to_string()), JsonValue::Null]),
    )]);
    assert_eq!(value.deep_clone(), value);
}
