use hocon_rs::parser::{
    array, boolean, empty_content, inclusion, key_value, null, number, parse, string, whitespace,
};
use hocon_rs::value::{HoconField, HoconInclusion, HoconString, HoconValue};

fn quoted(s: &str) -> HoconValue<'_> {
    HoconValue::HoconString(HoconString::Quoted(s))
}

fn num(x: f64) -> HoconValue<'static> {
    HoconValue::HoconNumber(x.to_bits())
}

#[test]
fn test_null() {
    assert_eq!(null("null"), Ok(("", HoconValue::HoconNull)));
}

#[test]
fn test_boolean_true() {
    assert_eq!(boolean("true"), Ok(("", HoconValue::HoconBoolean(true))));
}

#[test]
fn test_boolean_false() {
    assert_eq!(boolean("false"), Ok(("", HoconValue::HoconBoolean(false))));
}

#[test]
fn test_whitespace() {
    assert_eq!(whitespace("     test"), Ok(("test", ())));
}

#[test]
fn test_string() {
    assert_eq!(string("test"), Ok(("", "test")));
}

#[test]
fn test_quoted_string() {
    assert_eq!(string("\"test\""), Ok(("", "test")));
}

#[test]
fn test_key_value() {
    assert_eq!(
        key_value("test = true"),
        Ok(("", ("test", HoconValue::HoconBoolean(true))))
    );
}

#[test]
fn test_number() {
    assert_eq!(number("42"), Ok(("", num(42f64))));
}

#[test]
fn test_array() {
    let expected_data = vec![num(1f64), num(2f64), num(3f64)];
    assert_eq!(array("[1,2,3]"), Ok(("", HoconValue::HoconArray(expected_data))));
}

#[test]
fn test_array_trailing_comma() {
    let expected_data = vec![num(1f64), num(2f64), num(3f64)];
    assert_eq!(array("[1,2,3,]"), Ok(("", HoconValue::HoconArray(expected_data))));
}

#[test]
fn parse_basic_json_object() {
    let content = r#"{ "hello": "world" }"#;
    let expected = vec![HoconField::KeyValue("hello", quoted("world"))];
    assert_eq!(parse(content), Ok(HoconValue::HoconObject(expected)));
}

#[test]
fn parse_json_object_with_two_keys() {
    let content = r#"{ "hello": "world", "world": "hello" }"#;
    let expected = vec![
        HoconField::KeyValue("hello", quoted("world")),
        HoconField::KeyValue("world", quoted("hello")),
    ];
    assert_eq!(parse(content), Ok(HoconValue::HoconObject(expected)));
}

#[test]
fn parse_json_object_with_two_keys_multiline() {
    let content = r#"{
            "hello": "world",
            "world": "hello"
        }"#;
    let expected = vec![
        HoconField::KeyValue("hello", quoted("world")),
        HoconField::KeyValue("world", quoted("hello")),
    ];
    assert_eq!(parse(content), Ok(HoconValue::HoconObject(expected)));
}

#[test]
fn parse_hocon_object_with_two_keys() {
    let content = r#"{
            hello: "world"
            world: "hello"
        }"#;
    let expected = vec![
        HoconField::KeyValue("hello", quoted("world")),
        HoconField::KeyValue("world", quoted("hello")),
    ];
    assert_eq!(parse(content), Ok(HoconValue::HoconObject(expected)));
}

#[test]
fn parse_inclusion() {
    let content = r#"include file("test.conf")"#;
    let expected = HoconInclusion::File("test.conf");
    assert_eq!(inclusion(content), Ok(("", expected)));
}

#[test]
fn parse_inclusion_merge() {
    let content = r#"include file("test.conf")
            hello = "world"
        "#;
    let expected = vec![
        HoconField::Include(HoconInclusion::File("test.conf")),
        HoconField::KeyValue("hello", quoted("world")),
    ];
    assert_eq!(parse(content), Ok(HoconValue::HoconObject(expected)));
}

#[test]
fn pares_inclusion_value() {
    let content = r#"
            hello = include file("test.conf")
        "#;
    let expected = vec![HoconField::KeyValue(
        "hello",
        HoconValue::HoconInclude(HoconInclusion::File("test.conf")),
    )];
    assert_eq!(parse(content), Ok(HoconValue::HoconObject(expected)));
}

#[test]
fn parse_empty_line() {
    assert_eq!(empty_content(""), Ok(("", HoconValue::HoconObject(vec![]))));
    assert_eq!(parse(""), Ok(HoconValue::HoconObject(vec![])));
}

#[test]
fn parse_empty_line_whitespace() {
    assert_eq!(parse("   "), Ok(HoconValue::HoconObject(vec![])));
}

#[test]
fn parse_empty_multiline() {
    let content = r#"

        "#;
    let expected = vec![];
    assert_eq!(parse(content), Ok(HoconValue::HoconObject(expected)));
}
