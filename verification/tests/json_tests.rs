use chris_code::json::JsonValue;

fn s(text: &str) -> JsonValue {
    JsonValue::String(text.to_string())
}

#[test]
fn get_str_reads_string_members_only() {
    let v = JsonValue::Object(vec![
        ("file_path".to_string(), s("/tmp/a")),
        ("count".to_string(), JsonValue::Number("3".to_string())),
    ]);
    assert_eq!(v.get_str("file_path"), Some("/tmp/a"));
    assert_eq!(v.get_str("count"), None);
    assert_eq!(v.get_str("missing"), None);
}

#[test]
fn get_str_takes_the_last_of_a_repeated_key() {
    let v = JsonValue::Object(vec![
        ("file_path".to_string(), s("/tmp/a")),
        ("file_path".to_string(), s("/tmp/b")),
    ]);
    assert_eq!(v.get_str("file_path"), Some("/tmp/b"));
    let w = JsonValue::Object(vec![
        ("file_path".to_string(), s("/tmp/a")),
        ("file_path".to_string(), JsonValue::Null),
    ]);
    assert_eq!(w.get_str("file_path"), None);
}

#[test]
fn get_str_on_non_objects_is_none() {
    assert_eq!(s("{\"file_path\":\"x\"}").get_str("file_path"), None);
    assert_eq!(JsonValue::Null.get_str("file_path"), None);
    assert_eq!(JsonValue::Array(vec![s("file_path")]).get_str("file_path"), None);
}

#[test]
fn copy_keeps_everything() {
    let v = JsonValue::Object(vec![
        ("a".to_string(), JsonValue::Array(vec![JsonValue::Null, JsonValue::Bool(true), s("x")])),
        ("n".to_string(), JsonValue::Number("1.5".to_string())),
    ]);
    let c = v.copy();
    assert_eq!(format!("{:?}", c), format!("{:?}", v));
    assert_eq!(c.get_str("a"), None);
}

#[test]
fn scalars_serialize_compactly() {
    assert_eq!(JsonValue::Null.to_json_text(), "null");
    assert_eq!(JsonValue::Bool(true).to_json_text(), "true");
    assert_eq!(JsonValue::Bool(false).to_json_text(), "false");
    assert_eq!(JsonValue::Number("42".to_string()).to_json_text(), "42");
    assert_eq!(s("plain").to_json_text(), "\"plain\"");
}

#[test]
fn strings_are_escaped_as_serde_json_does() {
    for text in ["a\"b\\c\nd", "tab\there", "é/ü", "\u{1}"] {
        assert_eq!(s(text).to_json_text(), serde_json::to_string(text).unwrap());
    }
}

#[test]
fn nested_values_serialize_in_order() {
    let v = JsonValue::Object(vec![
        ("a".to_string(), JsonValue::Array(vec![JsonValue::Null, s("x")])),
        ("b".to_string(), JsonValue::Object(vec![])),
        ("c".to_string(), JsonValue::Array(vec![])),
    ]);
    assert_eq!(v.to_json_text(), "{\"a\":[null,\"x\"],\"b\":{},\"c\":[]}");
    let parsed: serde_json::Value = serde_json::from_str(&v.to_json_text()).unwrap();
    assert_eq!(parsed.to_string(), v.to_json_text());
}
