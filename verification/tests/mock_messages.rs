use delta_ingest::mock::{gen_mock_message, mock_name, render_mock_payload};
use delta_ingest::source::{decode_messages, Position, RawMessage};
use delta_ingest::validate::validate;

#[test]
fn render_produces_the_exact_json_bytes() {
    let r = render_mock_payload(5, b"Ann", b"2024-01-01T00:00:00+00:00");
    assert_eq!(
        String::from_utf8(r).unwrap(),
        "{\"idx\":5,\"name\":\"Ann\",\"timestamp\":\"2024-01-01T00:00:00+00:00\"}"
    );
}

#[test]
fn render_handles_multi_digit_indexes() {
    let r = render_mock_payload(120, b"Joe Bob", b"1970-01-01T00:00:00Z");
    assert_eq!(
        String::from_utf8(r).unwrap(),
        "{\"idx\":120,\"name\":\"Joe Bob\",\"timestamp\":\"1970-01-01T00:00:00Z\"}"
    );
}

#[test]
fn mock_names_are_the_fixed_set() {
    assert_eq!(mock_name(0), b"Jimmy Test".to_vec());
    assert_eq!(mock_name(1), b"Jimbo Test".to_vec());
    assert_eq!(mock_name(2), b"Joe Bob".to_vec());
}

#[test]
fn generated_messages_pass_validation() {
    // Runs the real random-number and clock calls behind the generator,
    // then the real JSON decoder on its output.
    for i in 0..5u64 {
        let bytes = gen_mock_message(i);
        let raw = vec![RawMessage {
            position: Position {
                partition: 0,
                offset: i as i64,
            },
            payload: bytes,
        }];
        let out = decode_messages(&raw);
        let p = out[0].payload.as_ref().expect("mock message should decode");
        let rec = validate(p).expect("mock message should validate");
        assert_eq!(rec.idx, i as i64);
        assert!(!rec.name.is_empty());
    }
}
