use parse_mediawiki_dump::event::match_namespace;
use parse_mediawiki_dump::event::Event;
use parse_mediawiki_dump::machine::step;
use parse_mediawiki_dump::machine::Acc;
use parse_mediawiki_dump::machine::ErrorKind;
use parse_mediawiki_dump::machine::Field;
use parse_mediawiki_dump::machine::Outcome;
use parse_mediawiki_dump::machine::State;
use parse_mediawiki_dump::numeric::parse_u32;

const NS: &str = "http://www.mediawiki.org/xml/export-0.10/";

fn empty_acc() -> Acc {
    Acc { format: None, model: None, namespace: None, text: None, title: None }
}

fn mw_start(local: &str) -> Event {
    Event::Start { namespace: Some(NS.to_string()), local_name: local.to_string() }
}

#[test]
fn namespace_matcher() {
    assert!(match_namespace(&Some(NS.to_string())));
    assert!(!match_namespace(&Some("http://example.com/".to_string())));
    assert!(!match_namespace(&Some("http://www.mediawiki.org/xml/export-0.11/".to_string())));
    assert!(!match_namespace(&None));
}

#[test]
fn decimal_parsing() {
    assert_eq!(parse_u32("0"), Some(0));
    assert_eq!(parse_u32("+7"), Some(7));
    assert_eq!(parse_u32("4294967295"), Some(u32::MAX));
    assert_eq!(parse_u32("4294967296"), None);
    assert_eq!(parse_u32(""), None);
    assert_eq!(parse_u32("+"), None);
    assert_eq!(parse_u32("-1"), None);
    assert_eq!(parse_u32("12 "), None);
    assert_eq!(parse_u32("1x2"), None);
    assert_eq!(parse_u32("007"), Some(7));
}

#[test]
fn step_enters_page_on_page_start() {
    match step(State::InRoot, mw_start("page")) {
        Outcome::Next(State::InPage(acc)) => {
            assert!(acc.title.is_none() && acc.namespace.is_none() && acc.text.is_none());
        }
        _ => panic!("expected to enter the page"),
    }
}

#[test]
fn step_empty_leaf_assigns_empty_string() {
    let state = State::InLeaf { field: Field::Title, acc: empty_acc() };
    match step(state, Event::End) {
        Outcome::Next(State::InPage(acc)) => assert_eq!(acc.title.as_deref(), Some("")),
        _ => panic!("expected an empty title"),
    }
}

#[test]
fn step_rejects_duplicate_ns() {
    let acc = Acc { namespace: Some(0), ..empty_acc() };
    match step(State::InPage(acc), mw_start("ns")) {
        Outcome::Fail(ErrorKind::Format) => {}
        _ => panic!("expected a format error"),
    }
}

#[test]
fn step_rejects_second_revision() {
    let acc = Acc { text: Some("x".to_string()), ..empty_acc() };
    match step(State::InPage(acc), mw_start("revision")) {
        Outcome::Fail(ErrorKind::NotSupported) => {}
        _ => panic!("expected a not-supported error"),
    }
}

#[test]
fn step_rejects_incomplete_page() {
    let acc = Acc { title: Some("T".to_string()), ..empty_acc() };
    match step(State::InPage(acc), Event::End) {
        Outcome::Fail(ErrorKind::Format) => {}
        _ => panic!("expected a format error"),
    }
}

#[test]
fn step_skips_unrecognized_start() {
    match step(State::InRoot, mw_start("siteinfo")) {
        Outcome::Next(State::Skipping { depth: 0, .. }) => {}
        _ => panic!("expected to start skipping"),
    }
}

#[test]
fn step_finishes_on_root_end() {
    match step(State::InRoot, Event::End) {
        Outcome::Finished => {}
        _ => panic!("expected the end of the document"),
    }
}
