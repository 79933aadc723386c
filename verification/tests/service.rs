//! The data service state machine, driven event by event.

use elvish::codec::encode;
use elvish::error::Error;
use elvish::record::Day;
use elvish::service::{Action, Event, Outcome, Session, State};

// Local midnight, fixed UTC-5, of 2023-12-10.
const UNLOCK_2023_DAY_10: i64 = 1702184400;

fn record(input: &str, d1: &str, d2: Option<&str>) -> Day {
    Day {
        input: String::from(input),
        description_1: String::from(d1),
        description_2: d2.map(String::from),
    }
}

fn token() -> String {
    String::from("token-for-tests")
}

fn assert_equal_records(a: &Day, b: &Day) {
    assert_eq!(a.input, b.input);
    assert_eq!(a.description_1, b.description_1);
    assert_eq!(a.description_2, b.description_2);
}

#[test]
fn first_action_is_the_cache_read() {
    let s = Session::new(2023, 7, token(), UNLOCK_2023_DAY_10);
    match s.pending_action().unwrap() {
        Action::ReadCache { path } => assert_eq!(path, ".elvish/day07.ron"),
        _ => panic!("a fresh session must read the cache first"),
    }
}

#[test]
fn cache_hit_short_circuits() {
    let r = record("42\n", "desc", None);
    let text = encode(&r);
    let s = Session::new(2023, 7, token(), UNLOCK_2023_DAY_10);
    let s = s.step(Event::CacheContent { text });
    match &s.state {
        State::Done { outcome: Outcome::FromCache(d) } => assert_equal_records(d, &r),
        _ => panic!("a parseable cache entry must finish the session"),
    }
    // A finished session demands nothing: no network call is ever made.
    assert!(s.pending_action().is_none());
}

#[test]
fn corrupt_cache_entry_is_a_serialization_error() {
    let s = Session::new(2023, 7, token(), UNLOCK_2023_DAY_10);
    let s = s.step(Event::CacheContent { text: String::from("not a record") });
    match &s.state {
        State::Failed { error } => assert_eq!(*error, Error::Serialization),
        _ => panic!("corrupt cache contents must fail the session"),
    }
}

#[test]
fn unreadable_cache_entry_is_a_cache_error() {
    let s = Session::new(2023, 7, token(), UNLOCK_2023_DAY_10);
    let s = s.step(Event::CacheUnreadable);
    match &s.state {
        State::Failed { error } => assert_eq!(*error, Error::Cache),
        _ => panic!("an unreadable cache file must fail the session"),
    }
}

#[test]
fn miss_before_unlock_is_denied_without_any_fetch() {
    let s = Session::new(2023, 10, token(), UNLOCK_2023_DAY_10 - 1);
    let s = s.step(Event::CacheMissing);
    match &s.state {
        State::Failed { error } => assert_eq!(*error, Error::AccessDenied),
        _ => panic!("a locked day must be denied"),
    }
    assert!(s.pending_action().is_none());
}

#[test]
fn miss_after_unlock_fetches_the_input() {
    let s = Session::new(2023, 10, token(), UNLOCK_2023_DAY_10);
    let s = s.step(Event::CacheMissing);
    match s.pending_action().unwrap() {
        Action::FetchInput { url, cookie } => {
            assert_eq!(url, "https://adventofcode.com/2023/day/10/input");
            assert_eq!(cookie, "session=token-for-tests");
        },
        _ => panic!("an open day with a cache miss must fetch the input"),
    }
}

#[test]
fn non_success_status_is_a_network_error_and_nothing_is_written() {
    let s = Session::new(2023, 10, token(), UNLOCK_2023_DAY_10);
    let s = s.step(Event::CacheMissing);
    let s = s.step(Event::FetchResponse { status: 404, body: String::from("gone") });
    match &s.state {
        State::Failed { error } => assert_eq!(*error, Error::Network(Some(404))),
        _ => panic!("a non-success response must fail the session"),
    }
    // The failed session demands nothing more; in particular no cache write.
    assert!(s.pending_action().is_none());
}

#[test]
fn transport_failure_is_a_network_error_without_status() {
    let s = Session::new(2023, 10, token(), UNLOCK_2023_DAY_10);
    let s = s.step(Event::CacheMissing);
    let s = s.step(Event::FetchTransportFailed);
    match &s.state {
        State::Failed { error } => assert_eq!(*error, Error::Network(None)),
        _ => panic!("a transport failure must fail the session"),
    }
}

#[test]
fn full_fetch_extract_persist_cycle() {
    let page = "<html><body>\
        <article class=\"day-desc\"><p>count the rocks</p></article>\
        </body></html>";
    let s = Session::new(2023, 7, token(), UNLOCK_2023_DAY_10);
    let s = s.step(Event::CacheMissing);
    let s = s.step(Event::FetchResponse { status: 200, body: String::from("42\n") });
    match s.pending_action().unwrap() {
        Action::FetchPage { url, .. } => {
            assert_eq!(url, "https://adventofcode.com/2023/day/7");
        },
        _ => panic!("after the input, the page must be fetched"),
    }
    let s = s.step(Event::FetchResponse { status: 200, body: String::from(page) });
    let written = match s.pending_action().unwrap() {
        Action::WriteCache { path, contents } => {
            assert_eq!(path, ".elvish/day07.ron");
            contents
        },
        _ => panic!("after extraction, the record must be persisted"),
    };
    let s = s.step(Event::WriteDone);
    let fetched = match s.state {
        State::Done { outcome: Outcome::FromNetwork(d) } => d,
        _ => panic!("a persisted record must finish the session"),
    };
    assert_eq!(fetched.input, "42\n");
    assert!(fetched.description_1.contains("count the rocks"));
    assert_eq!(fetched.description_2, None);

    // A later run finds what was written and serves it from the cache.
    let s = Session::new(2023, 7, token(), UNLOCK_2023_DAY_10);
    let s = s.step(Event::CacheContent { text: written });
    match &s.state {
        State::Done { outcome: Outcome::FromCache(d) } => assert_equal_records(d, &fetched),
        _ => panic!("the written record must be served from the cache"),
    }
}

#[test]
fn page_with_both_parts_yields_a_second_description() {
    let page = "<html><body>\
        <article class=\"day-desc\"><p>first part</p></article>\
        <article class=\"day-desc\"><p>second part</p></article>\
        </body></html>";
    let s = Session::new(2023, 7, token(), UNLOCK_2023_DAY_10);
    let s = s.step(Event::CacheMissing);
    let s = s.step(Event::FetchResponse { status: 200, body: String::from("in\n") });
    let s = s.step(Event::FetchResponse { status: 200, body: String::from(page) });
    match &s.state {
        State::AwaitWrite { record } => {
            assert!(record.description_2.as_ref().unwrap().contains("second part"));
        },
        _ => panic!("a two-part page must assemble a full record"),
    }
}

#[test]
fn page_without_marked_block_fails_the_session() {
    let page = "<html><body><p>bare</p></body></html>";
    let s = Session::new(2023, 7, token(), UNLOCK_2023_DAY_10);
    let s = s.step(Event::CacheMissing);
    let s = s.step(Event::FetchResponse { status: 200, body: String::from("in\n") });
    let s = s.step(Event::FetchResponse { status: 200, body: String::from(page) });
    match &s.state {
        State::Failed { error } => assert_eq!(*error, Error::Parse),
        _ => panic!("a page without the marked block must fail the session"),
    }
}

#[test]
fn failed_write_is_a_cache_error() {
    let page = "<html><body>\
        <article class=\"day-desc\"><p>words</p></article>\
        </body></html>";
    let s = Session::new(2023, 7, token(), UNLOCK_2023_DAY_10);
    let s = s.step(Event::CacheMissing);
    let s = s.step(Event::FetchResponse { status: 200, body: String::from("in\n") });
    let s = s.step(Event::FetchResponse { status: 200, body: String::from(page) });
    let s = s.step(Event::WriteFailed);
    match &s.state {
        State::Failed { error } => assert_eq!(*error, Error::Cache),
        _ => panic!("a failed write must fail the session"),
    }
}

#[test]
fn mismatched_event_is_ignored() {
    let s = Session::new(2023, 7, token(), UNLOCK_2023_DAY_10);
    let s = s.step(Event::WriteDone);
    match &s.state {
        State::AwaitCache => {},
        _ => panic!("an event that answers no demanded action must be ignored"),
    }
}
