//! Self-describing binary envelopes for typed records, with a registry of
//! decoders and a chain of reversible byte transforms.

pub mod action;
pub mod codec;
pub mod encode;
pub mod envelope;
pub mod error;
pub mod pipeline;
pub mod registry;
pub mod types;

pub use action::{ActionSpec, ActionSpecRef, ByteAction, ZstdAction};



pub use codec::BincodeCodec;
pub use encode::encode_to_envelope;
pub use envelope::{EnvelopeView, ParsedEnvelope};
pub use error::DecodeError;

pub use registry::{DecoderEntry, KnownSchema, StaticRegistry};
pub use types::{DecodeLimits, EncodeLimits, TypeKey};
