use pg_debyte::action::{ActionSpecRef, ZstdAction};
use pg_debyte::error::DecodeError;
use pg_debyte::registry::{DecoderEntry, StaticRegistry};
use pg_debyte::types::{DecodeLimits, TypeKey};
use pg_debyte::ByteAction;
use uuid::Uuid;

struct FixedEntry {
    key: TypeKey,
    codec_id: u16,
}

impl DecoderEntry for FixedEntry {
    fn key(&self) -> TypeKey {
        self.key
    }

    fn codec_id(&self) -> u16 {
        self.codec_id
    }

    fn default_actions(&self) -> &'static [ActionSpecRef] {
        &[]
    }

    fn decode_payload(
        &self,
        payload: &[u8],
        _limits: &DecodeLimits,
    ) -> Result<serde_json::Value, DecodeError> {
        Ok(serde_json::Value::from(payload.len()))
    }
}

#[test]
fn registry_lookup_missing_entries() {
    let registry: StaticRegistry<FixedEntry, ZstdAction> = StaticRegistry::new(vec![], vec![]);
    let key = TypeKey {
        type_id: *Uuid::from_bytes([9; 16]).as_bytes(),
        schema_version: 1,
    };

    assert!(registry.lookup_decoder(key).is_none());
    assert!(registry.lookup_action(42).is_none());
}

#[test]
fn registry_lookup_takes_the_first_match() {
    let key = TypeKey {
        type_id: [9; 16],
        schema_version: 1,
    };
    let other = TypeKey {
        type_id: [9; 16],
        schema_version: 2,
    };
    let registry = StaticRegistry::new(
        vec![
            FixedEntry { key: other, codec_id: 1 },
            FixedEntry { key, codec_id: 2 },
            FixedEntry { key, codec_id: 3 },
        ],
        vec![ZstdAction::new(4), ZstdAction::new(5)],
    );
    assert_eq!(registry.lookup_decoder(key).map(|d| d.codec_id()), Some(2));
    assert_eq!(registry.lookup_decoder(other).map(|d| d.codec_id()), Some(1));
    let mut missing = key;
    missing.type_id[15] = 8;
    assert!(registry.lookup_decoder(missing).is_none());
    assert_eq!(registry.lookup_action(5).map(|a| a.id()), Some(5));
    assert!(registry.lookup_action(6).is_none());
}

#[test]
fn type_keys_compare_both_fields() {
    let a = TypeKey {
        type_id: [1; 16],
        schema_version: 1,
    };
    let mut b = a;
    assert_eq!(a, b);
    b.schema_version = 2;
    assert_ne!(a, b);
    let mut c = a;
    c.type_id[0] = 2;
    assert_ne!(a, c);
}
