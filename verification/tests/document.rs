use hocon_rs::error::HoconError;
use hocon_rs::parser::{
    array, inclusion, key_value, next_element_whitespace, number, object_field, parse,
    parse_object, parse_value, string, whitespace,
};
use hocon_rs::value::{HoconField, HoconInclusion, HoconString, HoconValue};

fn quoted(s: &str) -> HoconValue<'_> {
    HoconValue::HoconString(HoconString::Quoted(s))
}

fn unquoted(s: &str) -> HoconValue<'_> {
    HoconValue::HoconString(HoconString::Unquoted(s))
}

fn num(x: f64) -> HoconValue<'static> {
    HoconValue::HoconNumber(x.to_bits())
}

fn message(r: Result<HoconValue<'_>, HoconError>) -> String {
    match r {
        Err(e) => e.text().to_string(),
        Ok(v) => panic!("parsed to {:?}", v),
    }
}

#[test]
fn empty_and_blank_texts_are_the_empty_object() {
    assert_eq!(parse(""), Ok(HoconValue::HoconObject(vec![])));
    assert_eq!(parse("   "), Ok(HoconValue::HoconObject(vec![])));
    assert_eq!(parse("\t\r\n\u{000B}\u{000C}"), Ok(HoconValue::HoconObject(vec![])));
    assert_eq!(
        parse("\u{001C}\u{001D}\u{001E}\u{001F}"),
        Ok(HoconValue::HoconObject(vec![]))
    );
}

#[test]
fn unicode_whitespace_is_whitespace() {
    assert_eq!(parse("\u{00A0}\u{2003}\u{3000}"), Ok(HoconValue::HoconObject(vec![])));
    assert_eq!(whitespace("\u{2028}\u{0085}x"), Ok(("x", ())));
    assert_eq!(whitespace("x "), Ok(("x ", ())));
    assert_eq!(whitespace("\u{200B}"), Ok(("\u{200B}", ())));
}

#[test]
fn keywords_parse_as_documents() {
    assert_eq!(parse("null"), Ok(HoconValue::HoconNull));
    assert_eq!(parse("true"), Ok(HoconValue::HoconBoolean(true)));
    assert_eq!(parse("false"), Ok(HoconValue::HoconBoolean(false)));
}

#[test]
fn array_separators_are_equivalent() {
    let expected = || HoconValue::HoconArray(vec![num(1.0), num(2.0), num(3.0)]);
    assert_eq!(parse("[1,2,3]"), Ok(expected()));
    assert_eq!(parse("[1\n2\n3]"), Ok(expected()));
    assert_eq!(parse("[1,2,3,]"), Ok(expected()));
    assert_eq!(parse("[1,2,3]"), parse("[1\n2\n3]"));
}

#[test]
fn object_keeps_the_order_of_its_fields() {
    let expected = vec![
        HoconField::KeyValue("a", num(1.0)),
        HoconField::KeyValue("b", num(2.0)),
    ];
    assert_eq!(parse("{ a: 1, b: 2 }"), Ok(HoconValue::HoconObject(expected)));
    let reversed = vec![
        HoconField::KeyValue("b", num(2.0)),
        HoconField::KeyValue("a", num(1.0)),
    ];
    assert_eq!(parse("{ b: 2, a: 1 }"), Ok(HoconValue::HoconObject(reversed)));
}

#[test]
fn object_keeps_duplicate_keys() {
    let expected = vec![
        HoconField::KeyValue("a", num(1.0)),
        HoconField::KeyValue("a", num(2.0)),
    ];
    assert_eq!(parse("a = 1\na = 2"), Ok(HoconValue::HoconObject(expected)));
}

#[test]
fn braces_of_the_document_may_be_left_out() {
    let expected = || HoconValue::HoconObject(vec![HoconField::KeyValue("hello", quoted("world"))]);
    assert_eq!(parse("hello: \"world\""), Ok(expected()));
    assert_eq!(parse("{ hello: \"world\" }"), Ok(expected()));
    assert_eq!(parse("hello: \"world\""), parse("{ hello: \"world\" }"));
}

#[test]
fn inclusion_as_a_field() {
    let expected = vec![
        HoconField::Include(HoconInclusion::File("t.conf")),
        HoconField::KeyValue("hello", quoted("world")),
    ];
    assert_eq!(
        parse("include file(\"t.conf\")\nhello = \"world\""),
        Ok(HoconValue::HoconObject(expected))
    );
}

#[test]
fn inclusion_as_a_value() {
    let expected = vec![HoconField::KeyValue(
        "hello",
        HoconValue::HoconInclude(HoconInclusion::File("t.conf")),
    )];
    assert_eq!(
        parse("hello = include file(\"t.conf\")"),
        Ok(HoconValue::HoconObject(expected))
    );
}

#[test]
fn inclusion_kinds() {
    assert_eq!(inclusion("include url(\"a.b\")"), Ok(("", HoconInclusion::Url("a.b"))));
    assert_eq!(inclusion("include file(\"a\")x"), Ok(("x", HoconInclusion::File("a"))));
    assert_eq!(
        inclusion("include   classpath(\"ref.conf\")"),
        Ok(("", HoconInclusion::Classpath("ref.conf")))
    );
    assert_eq!(inclusion("includefile(\"a\")"), Ok(("", HoconInclusion::File("a"))));
    assert!(inclusion("include file(a)").is_err());
    assert!(inclusion("include other(\"a\")").is_err());
    assert!(inclusion(" include file(\"a\")").is_err());
}

#[test]
fn unterminated_quote_fails() {
    let r = parse("{\"a\": \"b}");
    assert!(matches!(r, Err(HoconError::ParseError { .. })));
    assert_eq!(message(r), "Parse error at line 1, column 9");
}

#[test]
fn diagnostic_counts_lines_and_columns() {
    assert_eq!(message(parse("{\n  a = 1\n  b = ?\n}")), "Parse error at line 3, column 7");
    assert_eq!(message(parse("[1, 2")), "Parse error at line 1, column 6");
    assert_eq!(message(parse("?")), "Parse error at line 1, column 1");
    assert_eq!(
        message(parse("{\n\n\n\n\n\n\n\n\n\n\n x = \"é\" }")),
        "Parse error at line 12, column 7"
    );
}

#[test]
fn exponent_without_digits_is_fatal() {
    assert_eq!(
        message(parse("a = 1e+x")),
        "Parse error at line 1, column 5: malformed number"
    );
    assert_eq!(
        message(parse("[1, 2E]")),
        "Parse error at line 1, column 5: malformed number"
    );
    assert!(number("1e").is_err());
    assert!(parse_value("3em").is_err());
}

#[test]
fn numbers_are_floating_point_literals() {
    assert_eq!(number("42"), Ok(("", num(42.0))));
    assert_eq!(number("-1.5e3,"), Ok((",", num(-1500.0))));
    assert_eq!(number("123K-01"), Ok(("K-01", num(123.0))));
    assert_eq!(number(".5"), Ok(("", num(0.5))));
    assert_eq!(number("11e-1"), Ok(("", num(1.1))));
    assert!(number("abc").is_err());
    assert!(number("").is_err());
    match number("inf") {
        Ok(("", HoconValue::HoconNumber(bits))) => assert_eq!(f64::from_bits(bits), f64::INFINITY),
        other => panic!("{:?}", other),
    }
    match number("NaN ") {
        Ok((" ", HoconValue::HoconNumber(bits))) => assert!(f64::from_bits(bits).is_nan()),
        other => panic!("{:?}", other),
    }
}

#[test]
fn quoted_strings_hold_letters_digits_and_dots() {
    assert_eq!(string("\"a.b.c\"rest"), Ok(("rest", "a.b.c")));
    assert_eq!(string("\"\""), Ok(("", "")));
    assert_eq!(parse_value("\"x1\""), Ok(("", quoted("x1"))));
    assert!(string("\"a b\"").is_err());
    assert!(string("\"a\\\"b\"").is_err());
    assert!(string("\"abc").is_err());
    assert!(string("\"é\"").is_err());
}

#[test]
fn unquoted_strings_stop_at_reserved_characters() {
    assert_eq!(string("abc def"), Ok((" def", "abc")));
    assert_eq!(string("a-b_c/d;e"), Ok(("", "a-b_c/d;e")));
    assert_eq!(string("path//comment"), Ok(("//comment", "path")));
    assert_eq!(string("a/b"), Ok(("", "a/b")));
    assert_eq!(string("a/"), Ok(("", "a/")));
    assert_eq!(string("héllo\u{00A0}x"), Ok(("\u{00A0}x", "héllo")));
    for stop in "$\"{}[]:=,+#`^?!@*&\\".chars() {
        let text = format!("ab{}cd", stop);
        let rest = format!("{}cd", stop);
        assert_eq!(string(&text), Ok((rest.as_str(), "ab")));
    }
    assert!(string("").is_err());
    assert!(string(" a").is_err());
    assert!(string("//a").is_err());
    assert!(string("=a").is_err());
    assert_eq!(parse_value("yes"), Ok(("", unquoted("yes"))));
}

#[test]
fn value_alternatives_in_their_order() {
    assert_eq!(parse_value("nullx"), Ok(("x", HoconValue::HoconNull)));
    assert_eq!(parse_value("truely"), Ok(("ly", HoconValue::HoconBoolean(true))));
    assert_eq!(parse_value("infinite"), Ok(("inite", num(f64::INFINITY))));
    assert_eq!(
        parse_value("include url(\"u\")"),
        Ok(("", HoconValue::HoconInclude(HoconInclusion::Url("u"))))
    );
    assert_eq!(parse_value("[]"), Ok(("", HoconValue::HoconArray(vec![]))));
    assert_eq!(parse_value("{}"), Ok(("", HoconValue::HoconObject(vec![]))));
    assert_eq!(
        parse_value("k=v"),
        Ok(("", HoconValue::HoconObject(vec![HoconField::KeyValue("k", unquoted("v"))])))
    );
    assert_eq!(parse_value("k v"), Ok((" v", unquoted("k"))));
}

#[test]
fn key_separators() {
    assert_eq!(key_value("a:1"), Ok(("", ("a", num(1.0)))));
    assert_eq!(key_value("a=1"), Ok(("", ("a", num(1.0)))));
    assert_eq!(
        key_value("a { b = 1 }"),
        Ok((
            "",
            ("a", HoconValue::HoconObject(vec![HoconField::KeyValue("b", num(1.0))]))
        ))
    );
    assert_eq!(key_value("  \"a\"  :  1  , b"), Ok((" b", ("a", num(1.0)))));
    assert!(key_value("a 1").is_err());
    assert!(key_value("a").is_err());
    assert!(key_value("a = ").is_err());
}

#[test]
fn fields_and_objects() {
    assert_eq!(
        object_field("include file(\"x\")"),
        Ok(("", HoconField::Include(HoconInclusion::File("x"))))
    );
    assert_eq!(object_field("a = b"), Ok(("", HoconField::KeyValue("a", unquoted("b")))));
    assert_eq!(parse_object("{}x"), Ok(("x", HoconValue::HoconObject(vec![]))));
    assert_eq!(
        parse_object("a = 1 }"),
        Ok(("}", HoconValue::HoconObject(vec![HoconField::KeyValue("a", num(1.0))])))
    );
    assert!(parse_object("{ }").is_err());
    assert!(parse_object("").is_err());
    assert!(parse_object("{ a = 1").is_err());
}

#[test]
fn arrays() {
    assert_eq!(
        array("[ a , [ 1 ] , { b : c } ]x"),
        Ok((
            "x",
            HoconValue::HoconArray(vec![
                unquoted("a"),
                HoconValue::HoconArray(vec![num(1.0)]),
                HoconValue::HoconObject(vec![HoconField::KeyValue("b", unquoted("c"))]),
            ])
        ))
    );
    assert_eq!(array("[1 2]"), Ok(("", HoconValue::HoconArray(vec![num(1.0), num(2.0)]))));
    assert!(array("[ ]").is_err());
    assert!(array("[1,,2]").is_err());
    assert!(array("[1").is_err());
    assert!(array("1]").is_err());
}

#[test]
fn what_follows_an_element() {
    assert_eq!(next_element_whitespace("  , x"), Ok((" x", ())));
    assert_eq!(next_element_whitespace("\n\nx"), Ok(("x", ())));
    assert_eq!(next_element_whitespace(",,"), Ok((",", ())));
    assert_eq!(next_element_whitespace("x"), Ok(("x", ())));
}

#[test]
fn document_is_the_whole_text() {
    assert_eq!(message(parse("a = 1 }")), "Parse error at line 1, column 7");
    assert_eq!(message(parse("null and more")), "Parse error at line 1, column 6");
    assert_eq!(message(parse("a = [")), "Parse error at line 1, column 6");
    assert_eq!(message(parse("\"a\": \"b")), "Parse error at line 1, column 8");
    assert_eq!(message(parse("{} {}")), "Parse error at line 1, column 4");
    assert_eq!(message(parse("a = 1\nb = [")), "Parse error at line 2, column 6");
    assert_eq!(message(parse("a = 1\nb")), "Parse error at line 2, column 2");
    assert_eq!(
        message(parse("abcdefghijkl = ?")),
        "Parse error at line 1, column 16"
    );
}

#[test]
fn whitespace_may_follow_the_document() {
    assert_eq!(
        parse("{ a = 1 }\n"),
        Ok(HoconValue::HoconObject(vec![HoconField::KeyValue("a", num(1.0))]))
    );
    assert_eq!(parse("null \t\n"), Ok(HoconValue::HoconNull));
    assert_eq!(parse("[1]\u{00A0}"), Ok(HoconValue::HoconArray(vec![num(1.0)])));
    assert_eq!(parse("word\n"), Ok(unquoted("word")));
}

#[test]
fn whitespace_before_a_brace_is_refused() {
    assert_eq!(message(parse("\n{ a = 1 }")), "Parse error at line 2, column 1");
    assert_eq!(message(parse(" null")), "Parse error at line 1, column 6");
    assert_eq!(parse(" a = 1"), parse("a = 1"));
}

#[test]
fn nested_document() {
    let text = "server {\n  host = \"example.org\"\n  ports = [80, 443]\n  tls { enabled = true }\n}\n";
    let expected = HoconValue::HoconObject(vec![HoconField::KeyValue(
        "server",
        HoconValue::HoconObject(vec![
            HoconField::KeyValue("host", quoted("example.org")),
            HoconField::KeyValue("ports", HoconValue::HoconArray(vec![num(80.0), num(443.0)])),
            HoconField::KeyValue(
                "tls",
                HoconValue::HoconObject(vec![HoconField::KeyValue(
                    "enabled",
                    HoconValue::HoconBoolean(true),
                )]),
            ),
        ]),
    )]);
    assert_eq!(parse(text), Ok(expected));
}
