use bincode::Options;
use pg_debyte::action::ZstdAction;
use pg_debyte::codec::BincodeCodec;
use pg_debyte::error::DecodeError;
use pg_debyte::types::DecodeLimits;
use pg_debyte::ByteAction;

/// Laid out by bincode exactly as a record with an id and a name.
type Demo = (u32, String);

#[test]
fn bincode_decode_roundtrip() {
    let demo: Demo = (1, "demo".to_string());
    let bytes = bincode::DefaultOptions::new()
        .with_limit(1024)
        .serialize(&demo)
        .expect("serialize");
    let codec = BincodeCodec::new(1, 1024);
    let limits = DecodeLimits::new(1024, 1024, 1024);
    let limit = codec.check_decode_input(&bytes, &limits).expect("decode");
    let decoded: Demo = bincode::DefaultOptions::new()
        .with_limit(limit)
        .deserialize(&bytes)
        .expect("decode");
    assert_eq!(decoded, demo);
}

#[test]
fn zstd_decode_respects_limit() {
    let payload = b"hello hello hello";
    let encoded = zstd::encode_all(&payload[..], 0).expect("encode");
    let action = ZstdAction::new(1);
    let limits = DecodeLimits::new(1024, 4, 1024);
    let err = action
        .decode(&encoded, &limits, &[])
        .expect_err("expected limit error");
    match err {
        DecodeError::LimitExceeded { context, .. } => {
            assert_eq!(context, "action_output_bytes");
        }
        other => panic!("unexpected error: {other:?}"),
    }
}

#[test]
fn zstd_decode_within_limit_restores_input() {
    let payload = b"hello hello hello";
    let encoded = zstd::encode_all(&payload[..], 0).expect("encode");
    assert_ne!(encoded, payload.to_vec());
    let action = ZstdAction::new(1);
    let limits = DecodeLimits::new(1024, 17, 1024);
    let decoded = action.decode(&encoded, &limits, &[]).expect("decode");
    assert_eq!(decoded, payload.to_vec());
}

#[test]
fn zstd_decode_bomb_is_stopped() {
    let payload = vec![0u8; 8 * 1024 * 1024];
    let encoded = zstd::encode_all(&payload[..], 3).expect("encode");
    assert!(encoded.len() < 4096);
    let action = ZstdAction::new(1);
    let limits = DecodeLimits::new(1 << 20, 64 * 1024, 1 << 20);
    match action.decode(&encoded, &limits, &[]) {
        Err(DecodeError::LimitExceeded {
            context,
            limit,
            actual,
        }) => {
            assert_eq!(context, "action_output_bytes");
            assert_eq!(limit, 64 * 1024);
            assert!(actual > limit);
            assert!(actual <= limit + 8192);
        }
        other => panic!("unexpected result: {other:?}"),
    }
}

#[test]
fn zstd_decode_rejects_garbage() {
    let action = ZstdAction::new(1);
    let limits = DecodeLimits::new(1024, 1024, 1024);
    assert!(action.decode(b"definitely not zstd", &limits, &[]).is_err());
}

#[test]
fn zstd_encode_uses_level_and_limit() {
    let action = ZstdAction::new(5);
    assert_eq!(action.id(), 5);
    let input = vec![7u8; 4096];
    let limits = pg_debyte::EncodeLimits::new(1024);
    let out = action.encode(&input, &limits, &[19]).expect("encode");
    assert_eq!(out, zstd::encode_all(&input[..], 19).unwrap());
    let default_level = action.encode(&input, &limits, &[]).expect("encode");
    assert_eq!(default_level, zstd::encode_all(&input[..], 0).unwrap());
    let tight = pg_debyte::EncodeLimits::new(4);
    match action.encode(&input, &tight, &[]) {
        Err(DecodeError::LimitExceeded {
            context,
            limit,
            actual,
        }) => {
            assert_eq!(context, "action_output_bytes");
            assert_eq!(limit, 4);
            assert_eq!(actual, default_level.len());
        }
        other => panic!("unexpected result: {other:?}"),
    }
}

#[test]
fn codec_limits_take_the_smaller_ceiling() {
    let codec = BincodeCodec::new(3, 100);
    assert_eq!(codec.id(), 3);
    assert_eq!(codec.decode_limit(&DecodeLimits::new(0, 50, 0)), 50);
    assert_eq!(codec.decode_limit(&DecodeLimits::new(0, 500, 0)), 100);
    assert_eq!(codec.encode_limit(&pg_debyte::EncodeLimits::new(7)), 7);
    assert_eq!(codec.encode_limit(&pg_debyte::EncodeLimits::new(700)), 100);
    let limits = DecodeLimits::new(1024, 4, 1024);
    match codec.check_decode_input(&[0u8; 5], &limits) {
        Err(DecodeError::LimitExceeded {
            context,
            limit,
            actual,
        }) => {
            assert_eq!(context, "codec_input_bytes");
            assert_eq!(limit, 4);
            assert_eq!(actual, 5);
        }
        other => panic!("unexpected result: {other:?}"),
    }
    assert_eq!(codec.check_decode_input(&[0u8; 4], &limits).unwrap(), 4);
}

#[test]
fn limits_are_built_from_settings() {
    let l = pg_debyte::types::limits(1, 2, 3);
    assert_eq!(l.max_input_bytes, 1);
    assert_eq!(l.max_output_bytes, 2);
    assert_eq!(l.max_json_bytes, 3);
    let e = pg_debyte::EncodeLimits::new(9);
    assert_eq!(e.max_output_bytes, 9);
}

#[test]
fn ensure_limit_reports_context() {
    assert!(pg_debyte::error::ensure_limit("x", 3, 3).is_ok());
    match pg_debyte::error::ensure_limit("x", 4, 3) {
        Err(DecodeError::LimitExceeded {
            context,
            limit,
            actual,
        }) => {
            assert_eq!(context, "x");
            assert_eq!(limit, 3);
            assert_eq!(actual, 4);
        }
        other => panic!("unexpected result: {other:?}"),
    }
}

#[test]
fn check_action_output_fits_or_fails() {
    let limits = pg_debyte::EncodeLimits::new(3);
    assert_eq!(
        pg_debyte::action::check_action_output(vec![1, 2, 3], &limits).unwrap(),
        vec![1, 2, 3]
    );
    match pg_debyte::action::check_action_output(vec![1, 2, 3, 4], &limits) {
        Err(DecodeError::LimitExceeded {
            context,
            limit,
            actual,
        }) => {
            assert_eq!(context, "action_output_bytes");
            assert_eq!(limit, 3);
            assert_eq!(actual, 4);
        }
        other => panic!("unexpected result: {other:?}"),
    }
}
