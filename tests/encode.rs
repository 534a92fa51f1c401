use bincode::Options;
use pg_debyte::action::{ActionSpec, ActionSpecRef, ZstdAction};
use pg_debyte::codec::BincodeCodec;
use pg_debyte::encode::encode_to_envelope;
use pg_debyte::envelope::{try_parse, ParsedEnvelope};
use pg_debyte::error::DecodeError;
use pg_debyte::registry::{DecoderEntry, StaticRegistry};
use pg_debyte::types::{DecodeLimits, EncodeLimits, TypeKey};
use uuid::Uuid;

/// Laid out by bincode exactly as a record with an id and a name.
type Demo = (u32, String);

struct NoEntry;

impl DecoderEntry for NoEntry {
    fn key(&self) -> TypeKey {
        TypeKey {
            type_id: [0; 16],
            schema_version: 0,
        }
    }

    fn codec_id(&self) -> u16 {
        0
    }

    fn default_actions(&self) -> &'static [ActionSpecRef] {
        &[]
    }

    fn decode_payload(
        &self,
        _payload: &[u8],
        _limits: &DecodeLimits,
    ) -> Result<serde_json::Value, DecodeError> {
        Ok(serde_json::Value::Null)
    }
}

fn serialize(demo: &Demo, codec: &BincodeCodec, limits: &EncodeLimits) -> Vec<u8> {
    bincode::DefaultOptions::new()
        .with_limit(codec.encode_limit(limits))
        .serialize(demo)
        .expect("serialize")
}

#[test]
fn encode_builds_envelope() {
    let demo: Demo = (7, "test".to_string());
    let key = TypeKey {
        type_id: *Uuid::from_bytes([2; 16]).as_bytes(),
        schema_version: 1,
    };
    let codec = BincodeCodec::new(1, 1024);
    let limits = EncodeLimits::new(1024);
    let registry: StaticRegistry<NoEntry, ZstdAction> = StaticRegistry::new(vec![], vec![]);
    let actions: Vec<ActionSpec> = Vec::new();

    let encoded = encode_to_envelope(
        &serialize(&demo, &codec, &limits),
        codec.id(),
        key,
        &actions,
        &registry,
        &limits,
    )
    .expect("encode");

    let parsed = try_parse(&encoded).expect("parse");
    let view = match parsed {
        ParsedEnvelope::Envelope(view) => view,
        ParsedEnvelope::NoEnvelope => panic!("expected envelope"),
    };

    assert_eq!(view.key, key);
    assert_eq!(view.codec_id, codec.id());
    assert_eq!(view.actions.len(), 0);

    let dec_limits = DecodeLimits::new(1024, 1024, 1024);
    let limit = codec
        .check_decode_input(&view.payload, &dec_limits)
        .expect("decode payload");
    let decoded: Demo = bincode::DefaultOptions::new()
        .with_limit(limit)
        .deserialize(&view.payload)
        .expect("decode payload");
    assert_eq!(decoded, demo);
}

#[test]
fn encode_roundtrip_with_actions() {
    let demo: Demo = (9, "actions".to_string());
    let key = TypeKey {
        type_id: *Uuid::from_bytes([3; 16]).as_bytes(),
        schema_version: 2,
    };
    let codec = BincodeCodec::new(2, 1024);
    let limits = EncodeLimits::new(1024);
    let registry: StaticRegistry<NoEntry, ZstdAction> =
        StaticRegistry::new(vec![], vec![ZstdAction::new(7)]);
    let actions = vec![ActionSpec::new(7, 1, vec![1])];

    let plain = serialize(&demo, &codec, &limits);
    let encoded = encode_to_envelope(&plain, codec.id(), key, &actions, &registry, &limits)
        .expect("encode");

    let parsed = try_parse(&encoded).expect("parse");
    let view = match parsed {
        ParsedEnvelope::Envelope(view) => view,
        ParsedEnvelope::NoEnvelope => panic!("expected envelope"),
    };

    assert_eq!(view.key, key);
    assert_eq!(view.codec_id, codec.id());
    assert_eq!(view.actions.len(), 1);
    assert_eq!(view.actions[0].id, 7);
    assert_eq!(view.actions[0].flags, 1);
    assert_eq!(view.actions[0].params, [1]);
    assert_eq!(view.payload, zstd::encode_all(&plain[..], 1).unwrap());
}

#[test]
fn encode_rejects_unknown_action() {
    let demo: Demo = (10, "unknown".to_string());
    let key = TypeKey {
        type_id: *Uuid::from_bytes([4; 16]).as_bytes(),
        schema_version: 1,
    };
    let codec = BincodeCodec::new(3, 1024);
    let limits = EncodeLimits::new(1024);
    let registry: StaticRegistry<NoEntry, ZstdAction> = StaticRegistry::new(vec![], vec![]);
    let actions = vec![ActionSpec::new(99, 0, vec![0])];

    let err = encode_to_envelope(
        &serialize(&demo, &codec, &limits),
        codec.id(),
        key,
        &actions,
        &registry,
        &limits,
    )
    .expect_err("expected unknown action");
    match err {
        DecodeError::UnknownAction(id) => assert_eq!(id, 99),
        other => panic!("unexpected error: {other:?}"),
    }
}

#[test]
fn encode_names_the_first_step_without_handler() {
    let key = TypeKey {
        type_id: [4; 16],
        schema_version: 1,
    };
    let limits = EncodeLimits::new(1024);
    let registry: StaticRegistry<NoEntry, ZstdAction> =
        StaticRegistry::new(vec![], vec![ZstdAction::new(1)]);
    let actions = vec![
        ActionSpec::new(1, 0, vec![]),
        ActionSpec::new(50, 0, vec![]),
        ActionSpec::new(60, 0, vec![]),
    ];
    match encode_to_envelope(b"abc", 1, key, &actions, &registry, &limits) {
        Err(DecodeError::UnknownAction(id)) => assert_eq!(id, 50),
        other => panic!("unexpected result: {other:?}"),
    }
}

#[test]
fn encode_fails_when_an_action_output_is_over_the_limit() {
    let key = TypeKey {
        type_id: [4; 16],
        schema_version: 1,
    };
    let limits = EncodeLimits::new(3);
    let registry: StaticRegistry<NoEntry, ZstdAction> =
        StaticRegistry::new(vec![], vec![ZstdAction::new(1)]);
    let actions = vec![ActionSpec::new(1, 0, vec![])];
    match encode_to_envelope(b"abc", 1, key, &actions, &registry, &limits) {
        Err(DecodeError::LimitExceeded { context, limit, .. }) => {
            assert_eq!(context, "action_output_bytes");
            assert_eq!(limit, 3);
        }
        other => panic!("unexpected result: {other:?}"),
    }
}
