use asi::agent::parse_reflection;
use asi::json::{as_str, get_field, into_field, JsonValue};

fn object() -> JsonValue {
    JsonValue::Object(vec![
        ("a".to_string(), JsonValue::String("x".to_string())),
        ("n".to_string(), JsonValue::Number(Some(7))),
        ("arr".to_string(), JsonValue::Array(vec![JsonValue::Bool(true), JsonValue::Null])),
    ])
}

#[test]
fn members_are_read_and_moved_out() {
    let v = object();
    assert_eq!(as_str(get_field(&v, "a")).map(|s| s.as_str()), Some("x"));
    assert!(matches!(get_field(&v, "n"), Some(JsonValue::Number(Some(7)))));
    assert!(get_field(&v, "missing").is_none());
    assert!(as_str(get_field(&v, "n")).is_none());
    match into_field(v, "arr") {
        Some(JsonValue::Array(items)) => assert!(matches!(items[..], [JsonValue::Bool(true), JsonValue::Null])),
        _ => panic!("expected the array"),
    }
    assert!(get_field(&JsonValue::Null, "a").is_none());
    assert!(into_field(JsonValue::Bool(false), "a").is_none());
}

#[test]
fn parsed_numbers_keep_only_unsigned_integers() {
    // A negative score is no unsigned integer: the default applies.
    assert_eq!(parse_reflection(r#"{"score": -3}"#).unwrap().score, 5);
    assert_eq!(parse_reflection(r#"{"score": 7.5}"#).unwrap().score, 5);
    // Scores are kept modulo 256, as the cast to u8 does.
    assert_eq!(parse_reflection(r#"{"score": 263}"#).unwrap().score, 7);
}
