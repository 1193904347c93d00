use streamwire::domain::{DecodeError, Field};
use streamwire::flat::encode_request_flat;
use streamwire::json::{decode_request, encode_request_json};
use streamwire::yaml::encode_request_yaml;

fn bytes(s: &str) -> Vec<u8> {
    s.as_bytes().to_vec()
}

const SAMPLE: &str = "{\"type\":\"success\",\"stream\":{\"user_id\":\"8d234120-0bda-49b2-b7e0-fbd3912f6cbf\",\"is_private\":false,\"settings\":0,\"shard_url\":\"https://example.com/shard/1\",\"public_tariff\":{\"id\":1,\"price\":100,\"duration\":\"15m\",\"description\":\"Basic\"},\"private_tariff\":{\"client_price\":250,\"duration\":\"30m\",\"description\":\"Custom\"}},\"gifts\":[{\"id\":1,\"price\":10,\"description\":\"Gift 1\"},{\"id\":2,\"price\":20,\"description\":\"Gift 2\"}],\"debug\":{\"duration\":\"5s\",\"at\":\"2024-01-01T00:00:00Z\"}}";

#[test]
fn test_deserialization() {
    let request = decode_request(&bytes(SAMPLE)).expect("sample payload should decode");
    assert_eq!(request.stream.public_tariff.id, 1);
    assert_eq!(request.stream.private_tariff.client_price, 250);
    assert_eq!(request.gifts.len(), 2);
    assert_eq!(request.gifts[0].description, bytes("Gift 1"));
}

#[test]
fn sample_decodes_every_field() {
    let request = decode_request(&bytes(SAMPLE)).expect("sample payload should decode");
    assert_eq!(
        request.stream.user_id,
        bytes("8d234120-0bda-49b2-b7e0-fbd3912f6cbf")
    );
    assert!(!request.stream.is_private);
    assert_eq!(request.stream.settings, 0);
    assert_eq!(request.stream.shard_url, bytes("https://example.com/shard/1"));
    assert_eq!(request.stream.public_tariff.price, 100);
    assert_eq!(request.stream.public_tariff.duration, 900);
    assert_eq!(request.stream.public_tariff.description, bytes("Basic"));
    assert_eq!(request.stream.private_tariff.duration, 1800);
    assert_eq!(request.stream.private_tariff.description, bytes("Custom"));
    assert_eq!(request.gifts[1].id, 2);
    assert_eq!(request.gifts[1].price, 20);
    assert_eq!(request.gifts[1].description, bytes("Gift 2"));
    assert_eq!(request.debug.duration, 5);
    assert_eq!(request.debug.at, bytes("2024-01-01T00:00:00Z"));
}

#[test]
fn wrong_type_literal_is_schema_error() {
    let payload = SAMPLE.replace("\"type\":\"success\"", "\"type\":\"failure\"");
    let got = decode_request(&bytes(&payload));
    assert_eq!(got, Err(DecodeError::Schema(Field::RequestTypeField)));
}

#[test]
fn round_trip_reproduces_the_payload() {
    let request = decode_request(&bytes(SAMPLE)).expect("sample payload should decode");
    let encoded = encode_request_json(&request);
    assert_eq!(encoded, bytes(SAMPLE));
    let again = decode_request(&encoded).expect("re-encoded payload should decode");
    assert_eq!(again, request);
}

#[test]
fn unsigned_integers_survive_round_trip_at_the_limit() {
    let payload = SAMPLE
        .replace("\"settings\":0", "\"settings\":4294967295")
        .replace("\"price\":100", "\"price\":4294967295");
    let request = decode_request(&bytes(&payload)).expect("payload at the limit should decode");
    assert_eq!(request.stream.settings, 4294967295);
    assert_eq!(request.stream.public_tariff.price, 4294967295);
    let again = decode_request(&encode_request_json(&request)).expect("round trip");
    assert_eq!(again.stream.settings, 4294967295);
    assert_eq!(again.stream.public_tariff.price, 4294967295);
}

#[test]
fn integer_overflow_is_schema_error() {
    let payload = SAMPLE.replace("\"settings\":0", "\"settings\":4294967296");
    assert_eq!(
        decode_request(&bytes(&payload)),
        Err(DecodeError::Schema(Field::Settings))
    );
    let huge = SAMPLE.replace("\"settings\":0", "\"settings\":99999999999999999999999");
    assert_eq!(
        decode_request(&bytes(&huge)),
        Err(DecodeError::Schema(Field::Settings))
    );
}

#[test]
fn bad_uuid_is_schema_error() {
    let payload = SAMPLE.replace(
        "8d234120-0bda-49b2-b7e0-fbd3912f6cbf",
        "8D234120-0BDA-49B2-B7E0-FBD3912F6CBF",
    );
    assert_eq!(
        decode_request(&bytes(&payload)),
        Err(DecodeError::Schema(Field::UserId))
    );
}

#[test]
fn bad_url_is_schema_error() {
    let payload = SAMPLE.replace("https://example.com/shard/1", "not an absolute url");
    assert_eq!(
        decode_request(&bytes(&payload)),
        Err(DecodeError::Schema(Field::ShardUrl))
    );
}

#[test]
fn bad_timestamp_is_schema_error() {
    let payload = SAMPLE.replace("2024-01-01T00:00:00Z", "yesterday at noon");
    assert_eq!(
        decode_request(&bytes(&payload)),
        Err(DecodeError::Schema(Field::DebugAt))
    );
}

#[test]
fn bad_duration_is_schema_error() {
    let payload = SAMPLE.replace("\"duration\":\"15m\"", "\"duration\":\"15 minutes\"");
    assert_eq!(
        decode_request(&bytes(&payload)),
        Err(DecodeError::Schema(Field::PublicTariffDuration))
    );
}

#[test]
fn wrong_key_is_schema_error() {
    let payload = SAMPLE.replace("\"price\":100", "\"cost\":100");
    assert_eq!(
        decode_request(&bytes(&payload)),
        Err(DecodeError::Schema(Field::PublicTariffPrice))
    );
}

#[test]
fn truncated_payload_is_parse_error() {
    let mut payload = bytes(SAMPLE);
    payload.pop();
    assert_eq!(decode_request(&payload), Err(DecodeError::Parse));
}

#[test]
fn trailing_bytes_are_parse_error() {
    let mut payload = bytes(SAMPLE);
    payload.push(b'\n');
    assert_eq!(decode_request(&payload), Err(DecodeError::Parse));
}

#[test]
fn empty_gifts_round_trip() {
    let payload = SAMPLE.replace(
        "[{\"id\":1,\"price\":10,\"description\":\"Gift 1\"},{\"id\":2,\"price\":20,\"description\":\"Gift 2\"}]",
        "[]",
    );
    let request = decode_request(&bytes(&payload)).expect("empty gifts should decode");
    assert_eq!(request.gifts.len(), 0);
    assert_eq!(encode_request_json(&request), bytes(&payload));
    let yaml = String::from_utf8(encode_request_yaml(&request)).unwrap();
    assert!(yaml.contains("\ngifts: []\n"));
}

#[test]
fn gift_order_is_preserved_in_every_format() {
    let request = decode_request(&bytes(SAMPLE)).expect("sample payload should decode");
    for out in [
        encode_request_json(&request),
        encode_request_yaml(&request),
        encode_request_flat(&request),
    ] {
        let text = String::from_utf8(out).unwrap();
        let first = text.find("Gift 1").expect("first gift present");
        let second = text.find("Gift 2").expect("second gift present");
        assert!(first < second);
    }
}

#[test]
fn human_format_output_is_exact() {
    let request = decode_request(&bytes(SAMPLE)).expect("sample payload should decode");
    let yaml = String::from_utf8(encode_request_yaml(&request)).unwrap();
    let expected = "type: success\nstream:\n  user_id: 8d234120-0bda-49b2-b7e0-fbd3912f6cbf\n  is_private: false\n  settings: 0\n  shard_url: https://example.com/shard/1\n  public_tariff:\n    id: 1\n    price: 100\n    duration: 15m\n    description: Basic\n  private_tariff:\n    client_price: 250\n    duration: 30m\n    description: Custom\ngifts:\n- id: 1\n  price: 10\n  description: Gift 1\n- id: 2\n  price: 20\n  description: Gift 2\ndebug:\n  duration: 5s\n  at: 2024-01-01T00:00:00Z\n";
    assert_eq!(yaml, expected);
}

#[test]
fn flat_format_output_is_exact() {
    let request = decode_request(&bytes(SAMPLE)).expect("sample payload should decode");
    let flat = String::from_utf8(encode_request_flat(&request)).unwrap();
    let expected = "type = \"success\"\n\n[stream]\nuser_id = \"8d234120-0bda-49b2-b7e0-fbd3912f6cbf\"\nis_private = false\nsettings = 0\nshard_url = \"https://example.com/shard/1\"\n\n[stream.public_tariff]\nid = 1\nprice = 100\nduration = \"15m\"\ndescription = \"Basic\"\n\n[stream.private_tariff]\nclient_price = 250\nduration = \"30m\"\ndescription = \"Custom\"\n\n[[gifts]]\nid = 1\nprice = 10\ndescription = \"Gift 1\"\n\n[[gifts]]\nid = 2\nprice = 20\ndescription = \"Gift 2\"\n\n[debug]\nduration = \"5s\"\nat = \"2024-01-01T00:00:00Z\"\n";
    assert_eq!(flat, expected);
}

#[test]
fn duration_is_normalized_but_equivalent() {
    let payload = SAMPLE.replace("\"duration\":\"15m\"", "\"duration\":\"900s\"");
    let request = decode_request(&bytes(&payload)).expect("payload should decode");
    assert_eq!(request.stream.public_tariff.duration, 900);
    let encoded = String::from_utf8(encode_request_json(&request)).unwrap();
    assert!(encoded.contains("\"duration\":\"15m\""));
    let again = decode_request(&encoded.into_bytes()).expect("normalized payload decodes");
    assert_eq!(again.stream.public_tariff.duration, 900);
}
