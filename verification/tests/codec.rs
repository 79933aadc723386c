//! The cache file format: exact encodings, round trips, and rejections.

use elvish::codec::{encode, parse};
use elvish::record::Day;

fn record(input: &str, d1: &str, d2: Option<&str>) -> Day {
    Day {
        input: String::from(input),
        description_1: String::from(d1),
        description_2: d2.map(String::from),
    }
}

fn assert_equal_records(a: &Day, b: &Day) {
    assert_eq!(a.input, b.input);
    assert_eq!(a.description_1, b.description_1);
    assert_eq!(a.description_2, b.description_2);
}

#[test]
fn encoding_without_second_description() {
    let r = record("42\n", "count the things", None);
    assert_eq!(
        encode(&r),
        "(input:\"42\n\",description_1:\"count the things\",description_2:None)"
    );
}

#[test]
fn encoding_with_second_description() {
    let r = record("42\n", "first", Some("second"));
    assert_eq!(
        encode(&r),
        "(input:\"42\n\",description_1:\"first\",description_2:Some(\"second\"))"
    );
}

#[test]
fn encoding_escapes_quotes_and_backslashes() {
    let r = record("say \"hi\"", "a\\b", None);
    assert_eq!(
        encode(&r),
        "(input:\"say \\\"hi\\\"\",description_1:\"a\\\\b\",description_2:None)"
    );
}

#[test]
fn round_trip_plain() {
    let r = record("1 2 3\n4 5 6\n", "move the rocks", None);
    let back = parse(&encode(&r)).unwrap();
    assert_equal_records(&r, &back);
}

#[test]
fn round_trip_with_second_description() {
    let r = record("x", "part one text", Some("part two text"));
    let back = parse(&encode(&r)).unwrap();
    assert_equal_records(&r, &back);
}

#[test]
fn round_trip_with_tricky_characters() {
    let r = record(
        "line\\with\\backslashes \"and quotes\"\n",
        "desc with a trailing backslash \\",
        Some("\"\"\\\\"),
    );
    let back = parse(&encode(&r)).unwrap();
    assert_equal_records(&r, &back);
}

#[test]
fn round_trip_empty_fields() {
    let r = record("", "", Some(""));
    let back = parse(&encode(&r)).unwrap();
    assert_equal_records(&r, &back);
}

#[test]
fn parse_of_handwritten_encoding() {
    let back = parse("(input:\"a\",description_1:\"b\",description_2:Some(\"c\"))").unwrap();
    assert_equal_records(&record("a", "b", Some("c")), &back);
}

#[test]
fn parse_rejects_empty_text() {
    assert!(parse("").is_none());
}

#[test]
fn parse_rejects_wrong_prefix() {
    assert!(parse("{input:\"a\",description_1:\"b\",description_2:None}").is_none());
}

#[test]
fn parse_rejects_unterminated_string() {
    assert!(parse("(input:\"a,description_1:\"b\",description_2:None)").is_none());
}

#[test]
fn parse_rejects_stray_backslash() {
    assert!(parse("(input:\"a\\x\",description_1:\"b\",description_2:None)").is_none());
}

#[test]
fn parse_rejects_trailing_garbage() {
    assert!(parse("(input:\"a\",description_1:\"b\",description_2:None) ").is_none());
}

#[test]
fn parse_rejects_truncated_record() {
    assert!(parse("(input:\"a\",description_1:\"b\",description_2:").is_none());
}
