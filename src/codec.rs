use crate::error::DecodeError;
use crate::types::{DecodeLimits, EncodeLimits};
use vstd::prelude::*;

verus! {

/// Context tag of a codec input that is over its ceiling.
pub const CODEC_INPUT_CONTEXT: &'static str = "codec_input_bytes";

/// The length-limited binary codec, registered under `id`. Its own
/// `byte_limit` caps every call, whatever the caller's limits allow.
#[derive(Debug, Clone, Copy)]
pub struct BincodeCodec {
    pub id: u16,
    pub byte_limit: u64,
}

/// The smaller of the codec's own cap and the caller's ceiling.
pub open spec fn effective_limit(byte_limit: u64, caller_limit: usize) -> u64 {
    if (caller_limit as int) < (byte_limit as int) {
        caller_limit as u64
    } else {
        byte_limit
    }
}

fn min_limit(byte_limit: u64, caller_limit: usize) -> (r: u64)
    ensures
        r == effective_limit(byte_limit, caller_limit),
        r <= byte_limit,
        r <= caller_limit,
{
    let caller = caller_limit as u64;
    if caller < byte_limit {
        caller
    } else {
        byte_limit
    }
}

impl BincodeCodec {
    pub fn new(id: u16, byte_limit: u64) -> (r: Self)
        ensures
            r.id == id,
            r.byte_limit == byte_limit,
    {
        Self { id, byte_limit }
    }

    pub fn id(&self) -> (r: u16)
        ensures
            r == self.id,
    {
        self.id
    }

    /// The ceiling on the bytes that encoding a value may produce.
    pub fn encode_limit(&self, limits: &EncodeLimits) -> (r: u64)
        ensures
            r == effective_limit(self.byte_limit, limits.max_output_bytes),
    {
        min_limit(self.byte_limit, limits.max_output_bytes)
    }

    /// The ceiling on the bytes that decoding may read.
    pub fn decode_limit(&self, limits: &DecodeLimits) -> (r: u64)
        ensures
            r == effective_limit(self.byte_limit, limits.max_output_bytes),
    {
        min_limit(self.byte_limit, limits.max_output_bytes)
    }

    /// Checks an encoded input against the decode ceiling before any parse
    /// work, and hands back the ceiling to parse under.
    pub fn check_decode_input(&self, bytes: &[u8], limits: &DecodeLimits) -> (r: Result<
        u64,
        DecodeError,
    >)
        ensures
            bytes@.len() <= effective_limit(self.byte_limit, limits.max_output_bytes) ==> r
                == Ok::<u64, DecodeError>(effective_limit(self.byte_limit, limits.max_output_bytes)),
            bytes@.len() > effective_limit(self.byte_limit, limits.max_output_bytes) ==> r
                == Err::<u64, DecodeError>(
                DecodeError::LimitExceeded {
                    context: CODEC_INPUT_CONTEXT,
                    limit: effective_limit(self.byte_limit, limits.max_output_bytes) as usize,
                    actual: bytes@.len() as usize,
                },
            ),
    {
        let limit = self.decode_limit(limits);
        if bytes.len() as u64 > limit {
            return Err(
                DecodeError::LimitExceeded {
                    context: CODEC_INPUT_CONTEXT,
                    limit: limit as usize,
                    actual: bytes.len(),
                },
            );
        }
        Ok(limit)
    }
}

} // verus!
