use pg_debyte::envelope::{build_envelope, try_parse};
use pg_debyte::error::DecodeError;
use pg_debyte::{ActionSpec, TypeKey};
use uuid::Uuid;

fn base_header(version: u8, actions_count: u8) -> Vec<u8> {
    let mut bytes = Vec::new();
    bytes.extend_from_slice(b"PGDEBYTE");
    bytes.push(version);
    bytes.extend_from_slice(Uuid::from_bytes([0x11; 16]).as_bytes());
    bytes.extend_from_slice(&1u16.to_le_bytes());
    bytes.extend_from_slice(&2u16.to_le_bytes());
    bytes.push(actions_count);
    bytes
}

fn bad_envelope_reason(bytes: &[u8]) -> &'static str {
    match try_parse(bytes) {
        Err(DecodeError::BadEnvelope(msg)) => msg,
        other => panic!("unexpected result: {other:?}"),
    }
}

#[test]
fn envelope_unsupported_version() {
    let bytes = base_header(2, 0);
    let err = try_parse(&bytes).expect_err("expected error");
    match err {
        DecodeError::BadEnvelope(msg) => assert_eq!(msg, "unsupported envelope version"),
        other => panic!("unexpected error: {other:?}"),
    }
}

#[test]
fn envelope_action_header_out_of_bounds() {
    let bytes = base_header(1, 1);
    let err = try_parse(&bytes).expect_err("expected error");
    match err {
        DecodeError::BadEnvelope(msg) => assert_eq!(msg, "action header out of bounds"),
        other => panic!("unexpected error: {other:?}"),
    }
}

#[test]
fn envelope_params_out_of_bounds() {
    let mut bytes = base_header(1, 1);
    bytes.extend_from_slice(&9u16.to_le_bytes());
    bytes.push(0);
    bytes.extend_from_slice(&8u16.to_le_bytes());
    bytes.extend_from_slice(b"abc");

    let err = try_parse(&bytes).expect_err("expected error");
    match err {
        DecodeError::BadEnvelope(msg) => assert_eq!(msg, "params out of bounds"),
        other => panic!("unexpected error: {other:?}"),
    }
}

#[test]
fn every_other_version_is_rejected_whatever_follows() {
    for version in [0u8, 2, 3, 128, 255] {
        let mut bytes = base_header(version, 200);
        bytes.extend_from_slice(&[0xFF; 40]);
        assert_eq!(bad_envelope_reason(&bytes), "unsupported envelope version");
    }
}

#[test]
fn every_cut_inside_the_action_table_fails() {
    let key = TypeKey {
        type_id: [0x11; 16],
        schema_version: 1,
    };
    let actions = vec![
        ActionSpec::new(1, 0, vec![1, 2, 3]),
        ActionSpec::new(2, 0, vec![4]),
    ];
    let full = build_envelope(key, 2, &actions, b"payload");
    // the table holds 5 + 3 bytes for the first step and 5 + 1 for the second
    for cut in 30..44 {
        let expected = match cut - 30 {
            0..=4 => "action header out of bounds",
            5..=7 => "params out of bounds",
            8..=12 => "action header out of bounds",
            _ => "params out of bounds",
        };
        assert_eq!(bad_envelope_reason(&full[..cut]), expected, "cut at {cut}");
    }
    assert!(try_parse(&full[..44]).is_ok());
}
