use pg_debyte::envelope::{build_envelope, try_parse, ParsedEnvelope};
use pg_debyte::{ActionSpec, TypeKey};
use uuid::Uuid;

#[test]
fn envelope_parses() {
    let type_id = Uuid::from_bytes([1; 16]);
    let schema_version = 42u16;
    let codec_id = 7u16;
    let payload = b"payload";

    let mut bytes = Vec::new();
    bytes.extend_from_slice(b"PGDEBYTE");
    bytes.push(1);
    bytes.extend_from_slice(type_id.as_bytes());
    bytes.extend_from_slice(&schema_version.to_le_bytes());
    bytes.extend_from_slice(&codec_id.to_le_bytes());
    bytes.push(1);
    bytes.extend_from_slice(&9u16.to_le_bytes());
    bytes.push(0);
    bytes.extend_from_slice(&3u16.to_le_bytes());
    bytes.extend_from_slice(b"abc");
    bytes.extend_from_slice(payload);

    let parsed = try_parse(&bytes).expect("parse");
    let view = match parsed {
        ParsedEnvelope::Envelope(view) => view,
        ParsedEnvelope::NoEnvelope => panic!("expected envelope"),
    };

    assert_eq!(view.key.type_id, *type_id.as_bytes());
    assert_eq!(view.key.schema_version, schema_version);
    assert_eq!(view.codec_id, codec_id);
    assert_eq!(view.actions.len(), 1);
    assert_eq!(view.actions[0].id, 9);
    assert_eq!(view.actions[0].params, b"abc");
    assert_eq!(view.payload, payload);
}

#[test]
fn envelope_missing_magic() {
    let bytes = b"not-an-envelope";
    let parsed = try_parse(bytes).expect("parse");
    match parsed {
        ParsedEnvelope::NoEnvelope => {}
        ParsedEnvelope::Envelope(_) => panic!("expected none"),
    }
}

#[test]
fn long_input_with_wrong_magic_is_not_an_envelope() {
    let mut bytes = vec![0u8; 64];
    bytes[..8].copy_from_slice(b"PGDEBYTF");
    bytes[8] = 1;
    assert!(matches!(try_parse(&bytes), Ok(ParsedEnvelope::NoEnvelope)));
    assert!(matches!(try_parse(&[]), Ok(ParsedEnvelope::NoEnvelope)));
    let mut short = b"PGDEBYTE".to_vec();
    short.push(9);
    assert!(matches!(try_parse(&short), Ok(ParsedEnvelope::NoEnvelope)));
}

#[test]
fn build_envelope_writes_the_layout() {
    let key = TypeKey {
        type_id: [0xAB; 16],
        schema_version: 0x0102,
    };
    let actions = vec![ActionSpec::new(0x0304, 5, vec![6, 7])];
    let bytes = build_envelope(key, 0x0809, &actions, b"xy");
    let mut expected = b"PGDEBYTE".to_vec();
    expected.push(1);
    expected.extend_from_slice(&[0xAB; 16]);
    expected.extend_from_slice(&[0x02, 0x01, 0x09, 0x08, 1]);
    expected.extend_from_slice(&[0x04, 0x03, 5, 2, 0, 6, 7]);
    expected.extend_from_slice(b"xy");
    assert_eq!(bytes, expected);
}

#[test]
fn build_then_parse_gives_back_the_parts() {
    let key = TypeKey {
        type_id: [0x5A; 16],
        schema_version: 65535,
    };
    let actions = vec![
        ActionSpec::new(1, 0, vec![]),
        ActionSpec::new(65535, 255, vec![1, 2, 3]),
    ];
    let bytes = build_envelope(key, 300, &actions, b"");
    match try_parse(&bytes).expect("parse") {
        ParsedEnvelope::Envelope(view) => {
            assert_eq!(view.key, key);
            assert_eq!(view.codec_id, 300);
            assert_eq!(view.actions, actions);
            assert!(view.payload.is_empty());
        }
        ParsedEnvelope::NoEnvelope => panic!("expected envelope"),
    }
}
