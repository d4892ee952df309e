//! JSON values, read and written by `serde_json`.

use gugu::json::{parse_json, write_json, Json};

#[test]
fn every_kind_of_value_is_read() {
    assert!(matches!(parse_json("null"), Some(Json::Null)));
    assert!(matches!(parse_json("true"), Some(Json::Bool(true))));
    assert!(matches!(parse_json("-7"), Some(Json::Number(Some(-7)))));
    assert_eq!(parse_json(r#""aé""#).unwrap().as_str(), Some("aé"));
    let list = parse_json("[1, [2], {}]").unwrap();
    assert_eq!(list.as_array().unwrap().len(), 3);
    assert_eq!(list.as_array().unwrap()[0].as_i64(), Some(1));
}

#[test]
fn numbers_outside_i64_hold_no_integer() {
    assert_eq!(parse_json("9223372036854775807").unwrap().as_i64(), Some(i64::MAX));
    assert_eq!(parse_json("9223372036854775808").unwrap().as_i64(), None);
    assert_eq!(parse_json("-9223372036854775808").unwrap().as_i64(), Some(i64::MIN));
    assert_eq!(parse_json("1.0").unwrap().as_i64(), None);
    assert_eq!(parse_json("1e3").unwrap().as_i64(), None);
}

#[test]
fn text_that_is_no_json_is_not_read() {
    for text in ["", "nope", "{", "[1,]", "1 2", "{'a': 1}"] {
        assert!(parse_json(text).is_none(), "{text}");
    }
}

#[test]
fn missing_fields_read_as_null() {
    let v = parse_json(r#"{ "a": { "b": "c" } }"#).unwrap();
    assert_eq!(v.field("a").field("b").as_str(), Some("c"));
    assert!(v.field("a").field("x").field("y").as_str().is_none());
    assert!(v.get("x").is_none());
    assert!(parse_json("[]").unwrap().get("a").is_none());
    assert_eq!(v.field("nothing").text_or_empty(), "");
    assert!(v.field("a").field("b").is_text("c"));
    assert!(!v.field("a").is_text("c"));
}

#[test]
fn last_of_equal_fields_wins() {
    let v = parse_json(r#"{ "a": 1, "a": 2 }"#).unwrap();
    assert_eq!(v.field("a").as_i64(), Some(2));
    let made = Json::Object(vec![
        ("a".to_string(), Json::Number(Some(1))),
        ("a".to_string(), Json::Number(Some(2))),
    ]);
    assert_eq!(made.field("a").as_i64(), Some(2));
    assert_eq!(write_json(&made), r#"{"a":2}"#);
}

#[test]
fn what_is_written_reads_back() {
    let v = Json::Object(vec![
        ("list".to_string(), Json::Array(vec![Json::Null, Json::Bool(false)])),
        ("n".to_string(), Json::Number(Some(i64::MIN))),
        ("text".to_string(), Json::Text("\"\\\n\u{1}行".to_string())),
    ]);
    let text = write_json(&v);
    assert_eq!(
        text,
        "{\"list\":[null,false],\"n\":-9223372036854775808,\"text\":\"\\\"\\\\\\n\\u0001行\"}"
    );
    let back = parse_json(&text).unwrap();
    assert_eq!(back.field("n").as_i64(), Some(i64::MIN));
    assert_eq!(back.field("text").as_str(), Some("\"\\\n\u{1}行"));
    assert_eq!(back.field("list").as_array().unwrap().len(), 2);
    assert_eq!(write_json(&back), text);
}

#[test]
fn deep_values_read_back() {
    let mut v = Json::Text("core".to_string());
    for _ in 0..127 {
        v = Json::Array(vec![v]);
    }
    let mut back = parse_json(&write_json(&v)).expect("within the depth limit");
    for _ in 0..127 {
        back = match back {
            Json::Array(mut items) => items.remove(0),
            other => panic!("unexpected: {other:?}"),
        };
    }
    assert_eq!(back.as_str(), Some("core"));
}
