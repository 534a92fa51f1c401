use crate::types::TypeKey;
use vstd::prelude::*;

verus! {

/// Every way in which encoding or decoding can fail.
#[derive(Debug, Clone)]
pub enum DecodeError {
    /// The input is not a well-formed envelope, or no registry is installed.
    BadEnvelope(&'static str),
    /// No decoder is registered for the type key.
    UnknownType(TypeKey),
    /// No handler is registered for the action id.
    UnknownAction(u16),
    /// The envelope names a codec other than the decoder's.
    UnknownCodec(u16),
    /// A stage produced or received more bytes than its ceiling.
    LimitExceeded { context: &'static str, limit: usize, actual: usize },
    Serde(String),
    Bincode(String),
    Zstd(String),
    Json(String),
    Io(String),
}

impl DecodeError {
    /// Whether the failure is one of framing or lookup: a bad envelope, or
    /// an unknown type, action or codec.
    pub open spec fn is_lookup_failure(&self) -> bool {
        self is BadEnvelope || self is UnknownType || self is UnknownAction || self is UnknownCodec
    }
}

impl DecodeError {
    /// Whether the failure was reported by an outside encoder, decoder or
    /// reader rather than decided by this library.
    pub open spec fn is_external_failure(&self) -> bool {
        self is Serde || self is Bincode || self is Zstd || self is Json || self is Io
    }
}

/// Fails with `LimitExceeded` tagged `context` when `actual` is over `limit`.
pub fn ensure_limit(context: &'static str, actual: usize, limit: usize) -> (r: Result<
    (),
    DecodeError,
>)
    ensures
        actual <= limit ==> r is Ok,
        actual > limit ==> r == Err::<(), DecodeError>(
            DecodeError::LimitExceeded { context, limit, actual },
        ),
{
    if actual > limit {
        return Err(DecodeError::LimitExceeded { context, limit, actual });
    }
    Ok(())
}

} // verus!
