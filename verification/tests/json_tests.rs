//! Tests for the JSON value model, its serializer, and the parse boundary.

use rust_lsp::json::{json_object_insert, json_to_string, parse_json, str_lt, JsonObject, JsonValue};
use rust_lsp::lsp_transport::parse_transport_message;

fn obj(fields: Vec<(&str, JsonValue)>) -> JsonValue {
    let mut map: JsonObject = Vec::new();
    for (key, value) in fields {
        map = json_object_insert(map, key.to_string(), value);
    }
    JsonValue::Obj(map)
}

#[test]
fn serializes_scalars() {
    assert_eq!(json_to_string(&JsonValue::Null), "null");
    assert_eq!(json_to_string(&JsonValue::Bool(true)), "true");
    assert_eq!(json_to_string(&JsonValue::Bool(false)), "false");
    assert_eq!(json_to_string(&JsonValue::UInt(0)), "0");
    assert_eq!(json_to_string(&JsonValue::UInt(18446744073709551615)), "18446744073709551615");
    assert_eq!(json_to_string(&JsonValue::Int(-1)), "-1");
    assert_eq!(json_to_string(&JsonValue::Int(-9223372036854775808)), "-9223372036854775808");
    assert_eq!(json_to_string(&JsonValue::NumText("1.5".to_string())), "1.5");
}

#[test]
fn serializes_strings_with_escapes() {
    assert_eq!(json_to_string(&JsonValue::Str("plain".to_string())), "\"plain\"");
    assert_eq!(json_to_string(&JsonValue::Str("a\"b".to_string())), "\"a\\\"b\"");
    assert_eq!(json_to_string(&JsonValue::Str("a\\b".to_string())), "\"a\\\\b\"");
    assert_eq!(json_to_string(&JsonValue::Str("a\nb\tc\rd".to_string())), "\"a\\nb\\tc\\rd\"");
    assert_eq!(json_to_string(&JsonValue::Str("\u{8}\u{c}".to_string())), "\"\\b\\f\"");
    assert_eq!(json_to_string(&JsonValue::Str("\u{1}\u{1f}".to_string())), "\"\\u0001\\u001f\"");
    assert_eq!(json_to_string(&JsonValue::Str("héllo".to_string())), "\"héllo\"");
}

#[test]
fn serializes_arrays_and_objects() {
    assert_eq!(json_to_string(&JsonValue::Arr(vec![])), "[]");
    assert_eq!(
        json_to_string(&JsonValue::Arr(vec![
            JsonValue::UInt(1),
            JsonValue::Null,
            JsonValue::Str("x".to_string()),
        ])),
        "[1,null,\"x\"]"
    );
    assert_eq!(json_to_string(&JsonValue::Obj(Vec::new())), "{}");
    assert_eq!(
        json_to_string(&obj(vec![
            ("b", JsonValue::UInt(2)),
            ("a", JsonValue::Arr(vec![JsonValue::Bool(false)])),
        ])),
        "{\"a\":[false],\"b\":2}"
    );
}

#[test]
fn parses_numbers_into_the_three_forms() {
    assert_eq!(parse_json("7"), Ok(JsonValue::UInt(7)));
    assert_eq!(parse_json("-7"), Ok(JsonValue::Int(-7)));
    assert_eq!(parse_json("18446744073709551615"), Ok(JsonValue::UInt(18446744073709551615)));
    assert_eq!(parse_json("-9223372036854775808"), Ok(JsonValue::Int(-9223372036854775808)));
    assert_eq!(parse_json("1.5"), Ok(JsonValue::NumText("1.5".to_string())));
}

#[test]
fn parse_rejects_invalid_json_with_a_diagnostic() {
    let err = parse_json("{").unwrap_err();
    assert!(!err.is_empty());
    assert!(parse_json("").is_err());
    assert!(parse_json("nul").is_err());
}

#[test]
fn serialize_then_parse_round_trips() {
    let value = obj(vec![
        ("name", JsonValue::Str("a\"b\n".to_string())),
        ("items", JsonValue::Arr(vec![JsonValue::Int(-5), JsonValue::NumText("2.25".to_string())])),
        ("flag", JsonValue::Bool(true)),
        ("nothing", JsonValue::Null),
    ]);
    let text = json_to_string(&value);
    let rebuilt = obj(vec![
        ("name", JsonValue::Str("a\"b\n".to_string())),
        ("items", JsonValue::Arr(vec![JsonValue::Int(-5), JsonValue::NumText("2.25".to_string())])),
        ("flag", JsonValue::Bool(true)),
        ("nothing", JsonValue::Null),
    ]);
    assert_eq!(parse_json(&text), Ok(rebuilt));
}

#[test]
fn object_insert_keeps_keys_sorted_and_replaces() {
    let mut map: JsonObject = Vec::new();
    map = json_object_insert(map, "b".to_string(), JsonValue::UInt(1));
    map = json_object_insert(map, "a".to_string(), JsonValue::UInt(2));
    map = json_object_insert(map, "c".to_string(), JsonValue::UInt(3));
    map = json_object_insert(map, "b".to_string(), JsonValue::UInt(9));
    let keys: Vec<&str> = map.iter().map(|(k, _)| k.as_str()).collect();
    assert_eq!(keys, vec!["a", "b", "c"]);
    assert_eq!(map[1].1, JsonValue::UInt(9));
}

#[test]
fn str_lt_orders_lexicographically() {
    assert!(str_lt("a", "b"));
    assert!(str_lt("a", "ab"));
    assert!(!str_lt("ab", "a"));
    assert!(!str_lt("a", "a"));
    assert!(str_lt("", "a"));
    assert!(str_lt("abc", "abd"));
}

#[test]
fn invalid_utf8_payload_is_reported() {
    let mut input: Vec<u8> = String::from("Content-Length: 2\r\n\r\n").into_bytes();
    input.extend_from_slice(&[0xff, 0xfe]);
    let err = parse_transport_message(&input, 0).unwrap_err();
    assert_eq!(err.message, "stream did not contain valid UTF-8");
}
