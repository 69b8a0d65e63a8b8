use shenron::json::{JsonMember, JsonValue, json_compact, json_pretty};

fn sample() -> JsonValue {
    JsonValue::Obj(vec![
        JsonMember { key: "a".to_string(), value: JsonValue::Num("1.5".to_string()) },
        JsonMember { key: "b".to_string(), value: JsonValue::Str("x\"y\\z\n".to_string()) },
        JsonMember {
            key: "c".to_string(),
            value: JsonValue::Arr(vec![
                JsonValue::Bool(true),
                JsonValue::Null,
                JsonValue::Arr(vec![]),
                JsonValue::Obj(vec![]),
            ]),
        },
    ])
}

#[test]
fn compact_serialization_matches_reference() {
    let v = sample();
    assert_eq!(
        json_compact(&v),
        "{\"a\":1.5,\"b\":\"x\\\"y\\\\z\\n\",\"c\":[true,null,[],{}]}"
    );
    // byte-for-byte what the reference serializer produces
    let reference: serde_json::Value =
        serde_json::from_str(&json_compact(&v)).expect("valid JSON");
    assert_eq!(serde_json::to_string(&reference).unwrap(), json_compact(&v));
}

#[test]
fn pretty_serialization_matches_reference() {
    let v = sample();
    let pretty = json_pretty(&v);
    let reference: serde_json::Value = serde_json::from_str(&pretty).expect("valid JSON");
    assert_eq!(serde_json::to_string_pretty(&reference).unwrap(), pretty);
}

#[test]
fn control_characters_are_escaped() {
    let v = JsonValue::Str("\u{1}\u{8}\u{9}\u{a}\u{c}\u{d}\u{1f}".to_string());
    assert_eq!(json_compact(&v), "\"\\u0001\\b\\t\\n\\f\\r\\u001f\"");
}

#[test]
fn empty_string_and_scalars() {
    assert_eq!(json_compact(&JsonValue::Str(String::new())), "\"\"");
    assert_eq!(json_compact(&JsonValue::Null), "null");
    assert_eq!(json_compact(&JsonValue::Bool(false)), "false");
    assert_eq!(json_compact(&JsonValue::Num("0".to_string())), "0");
}
