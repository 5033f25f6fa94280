use hocon_rs::error::HoconError;
use hocon_rs::parser::parse;
use hocon_rs::session::{handle, Action, Event};
use hocon_rs::workspace::Workspace;

fn open(path: &str, text: &str) -> Event {
    Event::Open { path: path.to_string(), text: text.to_string() }
}

#[test]
fn opening_a_text_that_parses_registers_it() {
    let mut ws = Workspace::new();
    assert!(matches!(handle(&mut ws, open("/a.conf", "a = 1")), Action::Continue));
    assert_eq!(ws.get_ast("/a.conf"), Some(parse("a = 1").unwrap()));
}

#[test]
fn opening_a_text_that_does_not_parse_is_reported() {
    let mut ws = Workspace::new();
    assert!(matches!(handle(&mut ws, open("/a.conf", "a = 1")), Action::Continue));
    match handle(&mut ws, open("/a.conf", "a = [")) {
        Action::Report { path, failure } => {
            assert_eq!(path, "/a.conf");
            assert_eq!(
                failure,
                HoconError::ParseError { msg: "Parse error at line 1, column 6".to_string() }
            );
        }
        _ => panic!("no report"),
    }
    assert_eq!(ws.get_ast("/a.conf"), Some(parse("a = 1").unwrap()));
    match handle(&mut ws, open("/b.conf", "{")) {
        Action::Report { path, .. } => assert_eq!(path, "/b.conf"),
        _ => panic!("no report"),
    }
    assert_eq!(ws.get_ast("/b.conf"), None);
}

#[test]
fn a_definition_is_answered_with_no_locations() {
    let mut ws = Workspace::new();
    handle(&mut ws, open("/a.conf", "a = 1"));
    assert!(matches!(handle(&mut ws, Event::Definition), Action::AnswerNoLocations));
    assert_eq!(ws.get_ast("/a.conf"), Some(parse("a = 1").unwrap()));
}

#[test]
fn shutdown_stops_and_other_messages_go_by() {
    let mut ws = Workspace::new();
    handle(&mut ws, open("/a.conf", "a = 1"));
    assert!(matches!(handle(&mut ws, Event::Other), Action::Continue));
    assert!(matches!(handle(&mut ws, Event::Shutdown), Action::Stop));
    assert_eq!(ws.get_ast("/a.conf"), Some(parse("a = 1").unwrap()));
}
