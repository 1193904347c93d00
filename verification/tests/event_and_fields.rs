use streamwire::datecodec::{decode_date, encode_date};
use streamwire::domain::{DecodeError, Event, Field};
use streamwire::duration::{encode_duration, parse_duration};
use streamwire::json::{decode_event, encode_event_json};

fn bytes(s: &str) -> Vec<u8> {
    s.as_bytes().to_vec()
}

#[test]
fn event_encodes_with_date_prefix() {
    let event = Event {
        name: bytes("Concert"),
        date: bytes("2024-11-15"),
    };
    let wire = encode_event_json(&event);
    let text = String::from_utf8(wire.clone()).unwrap();
    assert_eq!(text, "{\"name\":\"Concert\",\"date\":\"Date: 2024-11-15\"}");
    assert!(text.contains("\"date\":\"Date: 2024-11-15\""));
    let back = decode_event(&wire).expect("event wire form should decode");
    assert_eq!(back.date, bytes("2024-11-15"));
    assert_eq!(back.name, bytes("Concert"));
}

#[test]
fn event_decode_accepts_missing_prefix() {
    let wire = bytes("{\"name\":\"Concert\",\"date\":\"2024-11-15\"}");
    let event = decode_event(&wire).expect("unprefixed date is accepted");
    assert_eq!(event.date, bytes("2024-11-15"));
}

#[test]
fn event_wrong_key_is_schema_error() {
    let wire = bytes("{\"name\":\"Concert\",\"when\":\"Date: 2024-11-15\"}");
    assert_eq!(decode_event(&wire), Err(DecodeError::Schema(Field::EventDate)));
}

#[test]
fn date_codec_round_trips_plain_values() {
    for s in ["2024-11-15", "", "x", "Date: 2024-11-15"] {
        let encoded = encode_date(&bytes(s));
        assert_eq!(decode_date(&encoded), bytes(s));
    }
    assert_eq!(
        String::from_utf8(encode_date(&bytes("2024-11-15"))).unwrap(),
        "Date: 2024-11-15"
    );
}

#[test]
fn date_codec_round_trips_prefixed_wire_values() {
    let wire = bytes("Date: 2024-11-15");
    let decoded = decode_date(&wire);
    assert_eq!(decoded, bytes("2024-11-15"));
    assert_eq!(encode_date(&decoded), wire);
}

#[test]
fn date_codec_leaves_unprefixed_wire_values_alone() {
    let wire = bytes("2024-11-15");
    assert_eq!(decode_date(&wire), wire);
}

#[test]
fn durations_parse_exactly() {
    assert_eq!(parse_duration(&bytes("45s")), Some(45));
    assert_eq!(parse_duration(&bytes("15m")), Some(900));
    assert_eq!(parse_duration(&bytes("1h30m")), Some(5400));
    assert_eq!(parse_duration(&bytes("2h30m")), Some(9000));
    assert_eq!(parse_duration(&bytes("2d")), Some(172800));
    assert_eq!(parse_duration(&bytes("0s")), Some(0));
    assert_eq!(parse_duration(&bytes("90m")), Some(5400));
    assert_eq!(parse_duration(&bytes("1m1m")), Some(120));
}

#[test]
fn durations_reject_what_the_grammar_rejects() {
    assert_eq!(parse_duration(&bytes("")), None);
    assert_eq!(parse_duration(&bytes("m")), None);
    assert_eq!(parse_duration(&bytes("15")), None);
    assert_eq!(parse_duration(&bytes("15 m")), None);
    assert_eq!(parse_duration(&bytes("15x")), None);
    assert_eq!(parse_duration(&bytes("1.5h")), None);
    assert_eq!(parse_duration(&bytes("99999999999999999999d")), None);
}

#[test]
fn durations_print_canonically_and_round_trip() {
    assert_eq!(String::from_utf8(encode_duration(0)).unwrap(), "0s");
    assert_eq!(String::from_utf8(encode_duration(45)).unwrap(), "45s");
    assert_eq!(String::from_utf8(encode_duration(5400)).unwrap(), "1h30m");
    assert_eq!(String::from_utf8(encode_duration(9000)).unwrap(), "2h30m");
    assert_eq!(
        String::from_utf8(encode_duration(90061)).unwrap(),
        "1d1h1m1s"
    );
    for n in [0u64, 1, 59, 60, 61, 3600, 86400, 90061, 123456789, u64::MAX] {
        assert_eq!(parse_duration(&encode_duration(n)), Some(n));
    }
}
