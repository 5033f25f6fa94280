use hocon_rs::de::{HoconDeserializer, HoconObjectIter};
use hocon_rs::error::HoconError;
use hocon_rs::parser::parse;
use hocon_rs::value::HoconValue;

fn refusal(msg: &str) -> HoconError {
    HoconError::ParseError { msg: msg.to_string() }
}

#[test]
fn test_deserialize() {
    let s = r#"{ hello = "world", world = "hello" }"#;
    let mut de = HoconDeserializer::from_str(s).unwrap();
    assert_eq!(de.map(), Ok(()));
    let mut walk = HoconObjectIter::new();
    let mut read: Vec<(String, String)> = Vec::new();
    while walk.next_key(&mut de).unwrap() {
        let key = de.identifier().unwrap();
        let value = walk.next_value(&de).unwrap();
        read.push((key.to_string(), value.string().unwrap().to_string()));
    }
    assert_eq!(
        read,
        vec![
            ("hello".to_string(), "world".to_string()),
            ("world".to_string(), "hello".to_string())
        ]
    );
}

#[test]
fn reader_of_a_text_that_does_not_parse() {
    match HoconDeserializer::from_str("[1") {
        Err(e) => assert_eq!(e, refusal("Parse error at line 1, column 3")),
        Ok(_) => panic!("a reader was made"),
    }
}

#[test]
fn reader_holds_the_parsed_value() {
    let de = HoconDeserializer::from_str("a = [1, x]").unwrap();
    assert_eq!(de.value(), &parse("a = [1, x]").unwrap());
}

#[test]
fn string_is_read_from_quoted_and_unquoted() {
    assert_eq!(HoconDeserializer::new(parse("\"abc\"").unwrap()).string(), Ok("abc"));
    assert_eq!(HoconDeserializer::new(parse("abc").unwrap()).string(), Ok("abc"));
    assert_eq!(
        HoconDeserializer::new(HoconValue::HoconNull).string(),
        Err(refusal("Expected string type"))
    );
    assert_eq!(
        HoconDeserializer::new(parse("a = b").unwrap()).string(),
        Err(refusal("Expected string type"))
    );
}

#[test]
fn record_is_read_from_an_object_only() {
    assert_eq!(HoconDeserializer::new(parse("{}").unwrap()).map(), Ok(()));
    assert_eq!(
        HoconDeserializer::new(parse("[]").unwrap()).map(),
        Err(refusal("Expected object type"))
    );
}

#[test]
fn identifier_is_the_first_key() {
    assert_eq!(HoconDeserializer::new(parse("b = 1, a = 2").unwrap()).identifier(), Ok("b"));
    assert_eq!(
        HoconDeserializer::new(parse("{}").unwrap()).identifier(),
        Err(refusal("Expected non-empty object"))
    );
    assert_eq!(
        HoconDeserializer::new(parse("include file(\"x\")").unwrap()).identifier(),
        Err(refusal("Expected non-empty object"))
    );
    assert_eq!(
        HoconDeserializer::new(HoconValue::HoconBoolean(true)).identifier(),
        Err(refusal("Expected object type"))
    );
}

#[test]
fn walk_drops_a_field_at_every_move_but_the_first() {
    let mut de = HoconDeserializer::new(parse("a = 1, b = 2").unwrap());
    let mut walk = HoconObjectIter::new();
    assert!(walk.is_first());
    assert_eq!(walk.next_key(&mut de), Ok(true));
    assert!(!walk.is_first());
    assert_eq!(de.value(), &parse("a = 1, b = 2").unwrap());
    assert_eq!(walk.next_key(&mut de), Ok(true));
    assert_eq!(de.value(), &parse("b = 2").unwrap());
    assert_eq!(walk.next_key(&mut de), Ok(false));
    assert_eq!(de.value(), &HoconValue::HoconObject(vec![]));
}

#[test]
fn walk_over_an_empty_object_ends_at_once() {
    let mut de = HoconDeserializer::new(parse("{}").unwrap());
    let mut walk = HoconObjectIter::new();
    assert_eq!(walk.next_key(&mut de), Ok(false));
    assert!(!walk.is_first());
}

#[test]
fn walk_refuses_what_is_no_object() {
    let mut de = HoconDeserializer::new(parse("[1]").unwrap());
    let mut walk = HoconObjectIter::new();
    assert_eq!(walk.next_key(&mut de), Err(refusal("Expected object type")));
    assert!(walk.is_first());
    assert_eq!(walk.next_value(&de).err(), Some(refusal("Expcected object type")));
}

#[test]
fn value_of_the_field_that_is_read() {
    let de = HoconDeserializer::new(parse("a = [1, { b = c }]").unwrap());
    let walk = HoconObjectIter::new();
    let value = walk.next_value(&de).unwrap();
    assert_eq!(value.value(), &parse("[1, { b = c }]").unwrap());
    let empty = HoconDeserializer::new(parse("{}").unwrap());
    assert_eq!(walk.next_value(&empty).err(), Some(refusal("Expected non-empty map")));
    let inclusion = HoconDeserializer::new(parse("include file(\"x\")").unwrap());
    assert_eq!(walk.next_value(&inclusion).err(), Some(refusal("Expected non-empty map")));
}

#[test]
fn copies_are_equal_trees() {
    let tree = parse("a = [1, { b = \"c\" }, null, true]\ninclude url(\"u\")").unwrap();
    assert_eq!(tree.duplicate(), tree);
    assert_eq!(tree.clone(), tree);
}
