use hocon_rs::parser::{array, boolean, key_value, null, number, parse, string, whitespace};
use hocon_rs::value::{HoconField, HoconString, HoconValue};

fn text(s: &str) -> HoconValue<'_> {
    HoconValue::HoconString(HoconString::Quoted(s))
}

fn numbers() -> Vec<HoconValue<'static>> {
    vec![
        HoconValue::HoconNumber(1f64.to_bits()),
        HoconValue::HoconNumber(2f64.to_bits()),
        HoconValue::HoconNumber(3f64.to_bits()),
    ]
}

#[test]
fn parser_test_null() {
    assert_eq!(null("null"), Ok(("", HoconValue::HoconNull)));
}

#[test]
fn parser_test_boolean_true() {
    assert_eq!(boolean("true"), Ok(("", HoconValue::HoconBoolean(true))));
}

#[test]
fn parser_test_boolean_false() {
    assert_eq!(boolean("false"), Ok(("", HoconValue::HoconBoolean(false))));
}

#[test]
fn parser_test_whitespace() {
    assert_eq!(whitespace("     test"), Ok(("test", ())));
}

#[test]
fn parser_test_string() {
    assert_eq!(string("test"), Ok(("", "test")));
}

#[test]
fn parser_test_quoted_string() {
    assert_eq!(string("\"test\""), Ok(("", "test")));
}

#[test]
fn parser_test_key_value() {
    assert_eq!(
        key_value("test = true"),
        Ok(("", ("test", HoconValue::HoconBoolean(true))))
    );
}

#[test]
fn parser_test_number() {
    assert_eq!(number("42"), Ok(("", HoconValue::HoconNumber(42f64.to_bits()))));
}

#[test]
fn parser_test_array() {
    assert_eq!(array("[1,2,3]"), Ok(("", HoconValue::HoconArray(numbers()))));
}

#[test]
fn parser_test_array_trailing_comma() {
    assert_eq!(array("[1,2,3,]"), Ok(("", HoconValue::HoconArray(numbers()))));
}

#[test]
fn parser_parse_basic_json_object() {
    let content = r#"{ "hello": "world" }"#;
    let expected = vec![HoconField::KeyValue("hello", text("world"))];
    assert_eq!(parse(content), Ok(HoconValue::HoconObject(expected)));
}

#[test]
fn parser_parse_json_object_with_two_keys() {
    let content = r#"{ "hello": "world", "world": "hello" }"#;
    let expected = vec![
        HoconField::KeyValue("hello", text("world")),
        HoconField::KeyValue("world", text("hello")),
    ];
    assert_eq!(parse(content), Ok(HoconValue::HoconObject(expected)));
}

#[test]
fn parser_parse_json_object_with_two_keys_multiline() {
    let content = r#"{
            "hello": "world",
            "world": "hello"
        }"#;
    let expected = vec![
        HoconField::KeyValue("hello", text("world")),
        HoconField::KeyValue("world", text("hello")),
    ];
    assert_eq!(parse(content), Ok(HoconValue::HoconObject(expected)));
}
