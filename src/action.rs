use crate::error::DecodeError;
use crate::types::{DecodeLimits, EncodeLimits};
use vstd::prelude::*;

verus! {

/// One step of a transform chain: which handler, its flags, and its
/// handler-defined parameter bytes.
#[derive(Debug, Clone, PartialEq, Eq)]
pub struct ActionSpec {
    pub id: u16,
    pub flags: u8,
    pub params: Vec<u8>,
}

/// An action step as plain values: id, flags and parameter bytes.
pub type ActionModel = (u16, u8, Seq<u8>);

impl View for ActionSpec {
    type V = ActionModel;

    open spec fn view(&self) -> ActionModel {
        (self.id, self.flags, self.params@)
    }
}

impl ActionSpec {
    pub fn new(id: u16, flags: u8, params: Vec<u8>) -> (r: Self)
        ensures
            r.id == id,
            r.flags == flags,
            r.params@ == params@,
    {
        Self { id, flags, params }
    }
}

/// The models of a list of action steps.
pub open spec fn actions_model(v: Seq<ActionSpec>) -> Seq<ActionModel> {
    v.map_values(|a: ActionSpec| a@)
}

/// An action step whose parameters live for the whole program, as used for
/// the default chains that decoders declare once.
#[derive(Debug, Clone, Copy)]
pub struct ActionSpecRef {
    pub id: u16,
    pub flags: u8,
    pub params: &'static [u8],
}

impl View for ActionSpecRef {
    type V = ActionModel;

    open spec fn view(&self) -> ActionModel {
        (self.id, self.flags, self.params@)
    }
}

/// The models of a list of borrowed action steps.
pub open spec fn action_refs_model(v: Seq<ActionSpecRef>) -> Seq<ActionModel> {
    v.map_values(|a: ActionSpecRef| a@)
}

impl ActionSpecRef {
    pub fn new(id: u16, flags: u8, params: &'static [u8]) -> (r: Self)
        ensures
            r.id == id,
            r.flags == flags,
            r.params@ == params@,
    {
        Self { id, flags, params }
    }
}

/// The failure an action step reports when its output of `actual` bytes
/// is over `limit`.
pub open spec fn action_limit_error(limit: usize, actual: usize) -> DecodeError {
    DecodeError::LimitExceeded { context: ACTION_OUTPUT_CONTEXT, limit, actual }
}

/// Whether `e` is an action-stage limit failure against `limit`, reporting
/// a size over it, saturated at `usize::MAX`.
pub open spec fn is_action_limit_failure(e: DecodeError, limit: usize) -> bool {
    match e {
        DecodeError::LimitExceeded { context, limit: l, actual } => context == ACTION_OUTPUT_CONTEXT
            && l == limit && (actual > l || actual == usize::MAX),
        _ => false,
    }
}

/// A reversible transform on bytes, such as compression, applied after a
/// value is encoded and undone before it is decoded. A handler fails only
/// when an outside encoder or decoder reports a failure, or when its output
/// would pass the ceiling.
pub trait ByteAction {
    /// The id under which the handler is registered.
    spec fn spec_id(&self) -> u16;

    /// What the forward transform makes of `input` under `params`.
    spec fn spec_encoded(&self, input: Seq<u8>, params: Seq<u8>) -> Seq<u8>;

    /// What undoing the transform makes of `input` under `params`.
    spec fn spec_decoded(&self, input: Seq<u8>, params: Seq<u8>) -> Seq<u8>;

    /// Whether an outside decoder may fail on `input` under `params`.
    spec fn spec_decode_fails(&self, input: Seq<u8>, params: Seq<u8>) -> bool;

    /// Whether an outside encoder may fail on `input` under `params`.
    spec fn spec_encode_fails(&self, input: Seq<u8>, params: Seq<u8>) -> bool;

    fn id(&self) -> (r: u16)
        ensures
            r == self.spec_id(),
    ;

    /// Undoes the transform. The output is `spec_decoded` and never exceeds
    /// `limits.max_output_bytes`; a limit failure reports the ceiling and
    /// the size reached, saturated at `usize::MAX`.
    fn decode(&self, input: &[u8], limits: &DecodeLimits, params: &[u8]) -> (r: Result<
        Vec<u8>,
        DecodeError,
    >)
        ensures
            r matches Ok(out) ==> out@ == self.spec_decoded(input@, params@) && out@.len()
                <= limits.max_output_bytes,
            self.spec_decoded(input@, params@).len() > limits.max_output_bytes ==> r is Err,
            r matches Err(e) ==> e.is_external_failure() || (self.spec_decoded(
                input@,
                params@,
            ).len() > limits.max_output_bytes && is_action_limit_failure(
                e,
                limits.max_output_bytes,
            )),
            r matches Err(e) ==> (e.is_external_failure() ==> self.spec_decode_fails(
                input@,
                params@,
            )),
    ;

    /// Applies the transform. The output is `spec_encoded` and never
    /// exceeds `limits.max_output_bytes`; undoing the forward transform of
    /// the input gives the input back, and cannot fail.
    fn encode(&self, input: &[u8], limits: &EncodeLimits, params: &[u8]) -> (r: Result<
        Vec<u8>,
        DecodeError,
    >)
        ensures
            r matches Ok(out) ==> out@ == self.spec_encoded(input@, params@) && out@.len()
                <= limits.max_output_bytes,
            r matches Err(e) ==> e.is_external_failure() || (self.spec_encoded(
                input@,
                params@,
            ).len() > limits.max_output_bytes && e == action_limit_error(
                limits.max_output_bytes,
                self.spec_encoded(input@, params@).len() as usize,
            )),
            r matches Err(e) ==> (e.is_external_failure() ==> self.spec_encode_fails(
                input@,
                params@,
            )),
            self.spec_decoded(self.spec_encoded(input@, params@), params@) == input@,
            !self.spec_decode_fails(self.spec_encoded(input@, params@), params@),
    ;
}

/// Size of the chunks in which compressed input is decompressed.
pub const DECODE_CHUNK_BYTES: usize = 8192;

/// Context tag of a limit failure in an action step.
pub const ACTION_OUTPUT_CONTEXT: &'static str = "action_output_bytes";

/// What zstd's one-shot compressor makes of `input` at `level`.
pub uninterp spec fn zstd_compressed(input: Seq<u8>, level: int) -> Seq<u8>;

/// Relies on zstd::encode_all: compresses all of `input` at `level` into a
/// well-formed stream that decompresses to `input`; the bytes depend on the
/// input and the level alone. Reading from memory cannot fail, and levels
/// past zstd's range are clamped, so it succeeds.
#[verifier::external_body]
fn zstd_encode_all(input: &[u8], level: i32) -> (r: Result<Vec<u8>, String>)
    ensures
        r is Ok,
        r matches Ok(out) ==> out@ == zstd_compressed(input@, level as int),
        r matches Ok(out) ==> zstd_decompressed(out@) == input@ && !zstd_stream_fails(out@),
{
    zstd::encode_all(input, level).map_err(|err| err.to_string())
}

/// The bytes that zstd's streaming decoder yields from `input`: all of its
/// content when the input is well formed, else what it decodes before it
/// meets the damage.
pub uninterp spec fn zstd_decompressed(input: Seq<u8>) -> Seq<u8>;

#[verifier::external_type_specification]
#[verifier::external_body]
#[verifier::reject_recursive_types(T)]
pub struct ExCursor<T>(std::io::Cursor<T>);

#[verifier::external_type_specification]
#[verifier::external_body]
#[verifier::reject_recursive_types(R)]
pub struct ExZstdDecoder<'a, R>(zstd::stream::read::Decoder<'a, R>);

/// A streaming zstd decoder over a copy of the input.
pub type ZstdReader = zstd::stream::read::Decoder<'static, std::io::Cursor<Vec<u8>>>;

/// The part of its stream that a decoder has not handed out yet.
pub uninterp spec fn zstd_pending(d: ZstdReader) -> Seq<u8>;

/// Whether `input` is not one whole, well-formed zstd stream, so that a
/// streaming decoder over it may report a failure.
pub uninterp spec fn zstd_stream_fails(input: Seq<u8>) -> bool;

/// Whether a decoder's input is not one whole, well-formed zstd stream.
pub uninterp spec fn zstd_reader_fails(d: ZstdReader) -> bool;

/// Relies on zstd::stream::read::Decoder::with_buffer: sets up a streaming
/// decompressor over a copy of `input`, with nothing handed out yet. With
/// no dictionary, setting up cannot fail (a context zstd cannot allocate
/// is a panic in zstd-safe, not an error).
#[verifier::external_body]
fn zstd_decoder(input: &[u8]) -> (r: Result<ZstdReader, String>)
    ensures
        r is Ok,
        r matches Ok(d) ==> zstd_pending(d) == zstd_decompressed(input@) && zstd_reader_fails(d)
            == zstd_stream_fails(input@),
{
    zstd::stream::read::Decoder::with_buffer(std::io::Cursor::new(input.to_vec())).map_err(
        |err| err.to_string(),
    )
}

/// Relies on std::io::Read::read, as zstd's decoder implements it: it
/// hands out the next bytes of the stream, at most the whole buffer, and 0
/// into a non-empty buffer only at the end of the stream. Reading from
/// memory, it reports a failure only on input that is not one whole,
/// well-formed zstd stream.
#[verifier::external_body]
fn zstd_read(decoder: &mut ZstdReader, buf: &mut Vec<u8>) -> (r: Result<usize, String>)
    ensures
        final(buf)@.len() == old(buf)@.len(),
        zstd_reader_fails(*final(decoder)) == zstd_reader_fails(*old(decoder)),
        r is Err ==> zstd_reader_fails(*old(decoder)),
        r matches Ok(n) ==> {
            &&& n <= old(buf)@.len()
            &&& n <= zstd_pending(*old(decoder)).len()
            &&& final(buf)@.subrange(0, n as int) == zstd_pending(*old(decoder)).subrange(
                0,
                n as int,
            )
            &&& zstd_pending(*final(decoder)) == zstd_pending(*old(decoder)).subrange(
                n as int,
                zstd_pending(*old(decoder)).len() as int,
            )
            &&& (n == 0 && old(buf)@.len() > 0 ==> zstd_pending(*old(decoder)).len() == 0)
        },
{
    std::io::Read::read(decoder, buf.as_mut_slice()).map_err(|err| err.to_string())
}

/// Hands back a transform's `output` when it fits `limits`, and otherwise
/// the action-stage limit failure with its size.
pub fn check_action_output(output: Vec<u8>, limits: &EncodeLimits) -> (r: Result<
    Vec<u8>,
    DecodeError,
>)
    ensures
        output@.len() <= limits.max_output_bytes ==> (r matches Ok(o) && o@ == output@),
        output@.len() > limits.max_output_bytes ==> r == Err::<Vec<u8>, DecodeError>(
            action_limit_error(limits.max_output_bytes, output@.len() as usize),
        ),
{
    if output.len() > limits.max_output_bytes {
        return Err(
            DecodeError::LimitExceeded {
                context: ACTION_OUTPUT_CONTEXT,
                limit: limits.max_output_bytes,
                actual: output.len(),
            },
        );
    }
    Ok(output)
}

/// The compression level selected by the parameters: their first byte, or
/// 0 (zstd's default) when there is none.
pub open spec fn zstd_level(params: Seq<u8>) -> int {
    if params.len() > 0 {
        params[0] as int
    } else {
        0
    }
}

/// Compression with zstd, registered under `id`.
#[derive(Debug, Clone, Copy)]
pub struct ZstdAction {
    pub id: u16,
}

impl ZstdAction {
    pub fn new(id: u16) -> (r: Self)
        ensures
            r.id == id,
    {
        Self { id }
    }
}

impl ByteAction for ZstdAction {
    open spec fn spec_id(&self) -> u16 {
        self.id
    }

    open spec fn spec_encoded(&self, input: Seq<u8>, params: Seq<u8>) -> Seq<u8> {
        zstd_compressed(input, zstd_level(params))
    }

    open spec fn spec_decoded(&self, input: Seq<u8>, params: Seq<u8>) -> Seq<u8> {
        zstd_decompressed(input)
    }

    open spec fn spec_decode_fails(&self, input: Seq<u8>, params: Seq<u8>) -> bool {
        zstd_stream_fails(input)
    }

    open spec fn spec_encode_fails(&self, input: Seq<u8>, params: Seq<u8>) -> bool {
        false
    }

    fn id(&self) -> (r: u16) {
        self.id
    }

    /// Decompresses chunk by chunk and fails as soon as the output would
    /// pass the ceiling, so memory stays bounded by the ceiling whatever
    /// the input would expand to.
    fn decode(&self, input: &[u8], limits: &DecodeLimits, params: &[u8]) -> (r: Result<
        Vec<u8>,
        DecodeError,
    >) {
        let mut decoder = match zstd_decoder(input) {
            Ok(d) => d,
            Err(msg) => {
                return Err(DecodeError::Zstd(msg));
            },
        };
        let ghost stream = zstd_decompressed(input@);
        assert(self.spec_decoded(input@, params@) == stream);
        let mut output: Vec<u8> = Vec::new();
        let mut buffer: Vec<u8> = vec![0u8; DECODE_CHUNK_BYTES];
        assert(output@ + zstd_pending(decoder) =~= stream);
        loop
            invariant
                output@.len() <= limits.max_output_bytes,
                buffer@.len() == DECODE_CHUNK_BYTES,
                output@ + zstd_pending(decoder) == stream,
                stream == self.spec_decoded(input@, params@),
                zstd_reader_fails(decoder) == zstd_stream_fails(input@),
            ensures
                output@ == stream,
                output@.len() <= limits.max_output_bytes,
            decreases zstd_pending(decoder).len(),
        {
            let ghost before = zstd_pending(decoder);
            let read = match zstd_read(&mut decoder, &mut buffer) {
                Ok(n) => n,
                Err(msg) => {
                    return Err(DecodeError::Io(msg));
                },
            };
            if read == 0 {
                assert(output@ =~= stream);
                break ;
            }
            if read > limits.max_output_bytes - output.len() {
                assert(stream.len() == output@.len() + before.len());
                assert(read <= before.len());
                assert(stream.len() > limits.max_output_bytes);
                return Err(
                    DecodeError::LimitExceeded {
                        context: ACTION_OUTPUT_CONTEXT,
                        limit: limits.max_output_bytes,
                        actual: output.len().saturating_add(read),
                    },
                );
            }
            let ghost start = output@;
            let mut i: usize = 0;
            while i < read
                invariant
                    0 <= i <= read,
                    read <= buffer@.len(),
                    buffer@.len() == DECODE_CHUNK_BYTES,
                    output@ == start + buffer@.subrange(0, i as int),
                    start.len() + read <= limits.max_output_bytes,
                decreases read - i,
            {
                output.push(buffer[i]);
                i = i + 1;
                assert(output@ =~= start + buffer@.subrange(0, i as int));
            }
            assert(buffer@.subrange(0, read as int) == before.subrange(0, read as int));
            assert(output@ + zstd_pending(decoder) =~= stream) by {
                assert(before =~= before.subrange(0, read as int) + before.subrange(
                    read as int,
                    before.len() as int,
                ));
            }
        }
        Ok(output)
    }

    fn encode(&self, input: &[u8], limits: &EncodeLimits, params: &[u8]) -> (r: Result<
        Vec<u8>,
        DecodeError,
    >) {
        let level: i32 = if params.len() > 0 {
            params[0] as i32
        } else {
            0
        };
        let output = match zstd_encode_all(input, level) {
            Ok(out) => out,
            Err(msg) => {
                return Err(DecodeError::Zstd(msg));
            },
        };
        check_action_output(output, limits)
    }
}

} // verus!
