use crate::action::{
    action_refs_model,
    actions_model,
    is_action_limit_failure,
    ActionModel,
    ActionSpec,
    ActionSpecRef,
    ByteAction,
};
use crate::encode::{all_actions_known, encode_step_reverses, encoded_upto};
use crate::envelope::{
    actions_bytes,
    envelope_bytes,
    header_actions,
    le16,
    le16_bytes,
    lemma_le16_round_trip,
    lemma_parse_actions_bytes,
    magic,
    no_envelope,
    params_fit,
    try_parse,
    ParsedEnvelope,
    ENVELOPE_VERSION,
};
use crate::error::{ensure_limit, DecodeError};
use crate::registry::{DecoderEntry, KnownSchema, StaticRegistry};
use crate::types::{DecodeLimits, TypeKey};
use vstd::prelude::*;

verus! {

/// Context tag of a raw input that is over its ceiling.
pub const INPUT_CONTEXT: &'static str = "input_bytes";

/// Context tag of a decoded value whose JSON text is over its ceiling.
pub const JSON_CONTEXT: &'static str = "json_bytes";

/// Whether step `j` is the last of the chain without a handler, so the
/// first that undoing the chain from its end runs into.
pub open spec fn last_unknown_action<D: DecoderEntry, A: ByteAction>(
    reg: StaticRegistry<D, A>,
    acts: Seq<ActionModel>,
    j: int,
) -> bool {
    &&& 0 <= j < acts.len()
    &&& !reg.knows_action(acts[j].0)
    &&& forall|k: int| j < k < acts.len() ==> reg.knows_action(#[trigger] acts[k].0)
}

/// What undoing steps `i` to the last makes of `payload`, the last step
/// undone first.
pub open spec fn undone<D: DecoderEntry, A: ByteAction>(
    reg: StaticRegistry<D, A>,
    acts: Seq<ActionModel>,
    payload: Seq<u8>,
    i: int,
) -> Seq<u8>
    decreases acts.len() - i,
{
    if i < 0 || i >= acts.len() {
        payload
    } else {
        reg.action_for(acts[i].0).spec_decoded(undone(reg, acts, payload, i + 1), acts[i].2)
    }
}

/// What undoing the whole chain makes of `payload`.
pub open spec fn chain_decoded<D: DecoderEntry, A: ByteAction>(
    reg: StaticRegistry<D, A>,
    acts: Seq<ActionModel>,
    payload: Seq<u8>,
) -> Seq<u8> {
    undone(reg, acts, payload, 0)
}

/// Whether undoing steps `from` to the last keeps every output within
/// `max`.
pub open spec fn decode_fits<D: DecoderEntry, A: ByteAction>(
    reg: StaticRegistry<D, A>,
    acts: Seq<ActionModel>,
    payload: Seq<u8>,
    max: usize,
    from: int,
) -> bool {
    forall|i: int| from <= i < acts.len() ==> #[trigger] undone(reg, acts, payload, i).len() <= max
}

/// Whether `e` is the failure of undoing step `i`: every later step has a
/// handler and fits, step `i` has a handler, and its output is over the
/// ceiling.
pub open spec fn decode_step_failure<D: DecoderEntry, A: ByteAction>(
    reg: StaticRegistry<D, A>,
    acts: Seq<ActionModel>,
    payload: Seq<u8>,
    max: usize,
    i: int,
    e: DecodeError,
) -> bool {
    &&& 0 <= i < acts.len()
    &&& forall|k: int| i <= k < acts.len() ==> reg.knows_action(#[trigger] acts[k].0)
    &&& decode_fits(reg, acts, payload, max, i + 1)
    &&& undone(reg, acts, payload, i).len() > max
    &&& is_action_limit_failure(e, max)
}

/// Whether the outside decoder of step `i` may fail on what reaches it.
pub open spec fn decode_step_may_fail<D: DecoderEntry, A: ByteAction>(
    reg: StaticRegistry<D, A>,
    acts: Seq<ActionModel>,
    payload: Seq<u8>,
    i: int,
) -> bool {
    reg.action_for(acts[i].0).spec_decode_fails(undone(reg, acts, payload, i + 1), acts[i].2)
}

/// Whether undoing step `i` is one that can report an outside failure:
/// every step from it to the last has a handler, every later one fits,
/// and its decoder may fail on what reaches it.
pub open spec fn decode_external_step<D: DecoderEntry, A: ByteAction>(
    reg: StaticRegistry<D, A>,
    acts: Seq<ActionModel>,
    payload: Seq<u8>,
    max: usize,
    i: int,
) -> bool {
    &&& 0 <= i < acts.len()
    &&& forall|k: int| i <= k < acts.len() ==> reg.knows_action(#[trigger] acts[k].0)
    &&& decode_fits(reg, acts, payload, max, i + 1)
    &&& decode_step_may_fail(reg, acts, payload, i)
}

/// Whether no decoder of steps `from` to the last may fail.
pub open spec fn decode_never_fails<D: DecoderEntry, A: ByteAction>(
    reg: StaticRegistry<D, A>,
    acts: Seq<ActionModel>,
    payload: Seq<u8>,
    from: int,
) -> bool {
    forall|i: int| from <= i < acts.len() ==> !#[trigger] decode_step_may_fail(reg, acts, payload, i)
}

/// The outcome that undoing the chain `acts` on `payload` owes: the
/// undone bytes; or the last step without a handler, when every later step
/// fits; or the first step, from the end, whose output passes the ceiling;
/// or a failure reported by an outside decoder.
pub open spec fn undo_result<D: DecoderEntry, A: ByteAction>(
    reg: StaticRegistry<D, A>,
    acts: Seq<ActionModel>,
    payload: Seq<u8>,
    max: usize,
    r: Result<Vec<u8>, DecodeError>,
) -> bool {
    &&& r matches Ok(out) ==> all_actions_known(reg, acts) && out@ == chain_decoded(
        reg,
        acts,
        payload,
    ) && (acts.len() > 0 ==> out@.len() <= max)
    &&& acts.len() == 0 ==> (r matches Ok(out) && out@ == payload)
    &&& r matches Err(e) ==> e.is_external_failure() || (exists|j: int|
        last_unknown_action(reg, acts, j) && decode_fits(reg, acts, payload, max, j + 1) && e
            == DecodeError::UnknownAction(acts[j].0)) || (exists|i: int|
        decode_step_failure(reg, acts, payload, max, i, e))
    &&& r matches Err(e) ==> (e.is_external_failure() ==> exists|i: int|
        decode_external_step(reg, acts, payload, max, i))
    &&& all_actions_known(reg, acts) && decode_fits(reg, acts, payload, max, 0)
        && decode_never_fails(reg, acts, payload, 0) ==> r is Ok
    &&& forall|j: int|
        last_unknown_action(reg, acts, j) && decode_fits(reg, acts, payload, max, j + 1)
            && decode_never_fails(reg, acts, payload, j + 1) ==> r == Err::<Vec<u8>, DecodeError>(
            DecodeError::UnknownAction(acts[j].0),
        )
    &&& !all_actions_known(reg, acts) ==> r is Err
    &&& all_actions_known(reg, acts) && decode_fits(reg, acts, payload, max, 0) ==> r is Ok || (
    r matches Err(e) && e.is_external_failure())
    &&& forall|j: int|
        last_unknown_action(reg, acts, j) && decode_fits(reg, acts, payload, max, j + 1) ==> r
            == Err::<Vec<u8>, DecodeError>(DecodeError::UnknownAction(acts[j].0)) || (r matches Err(
            e,
        ) && e.is_external_failure())
}

proof fn lemma_last_unknown_unique<D: DecoderEntry, A: ByteAction>(
    reg: StaticRegistry<D, A>,
    acts: Seq<ActionModel>,
    j: int,
)
    requires
        last_unknown_action(reg, acts, j),
    ensures
        forall|j2: int| #[trigger] last_unknown_action(reg, acts, j2) ==> j2 == j,
{
    assert forall|j2: int| #[trigger] last_unknown_action(reg, acts, j2) implies j2 == j by {
        if j2 > j {
            assert(reg.knows_action(acts[j2].0));
        } else if j2 < j {
            assert(reg.knows_action(acts[j].0));
        }
    }
}

proof fn lemma_decode_step_failure_excludes<D: DecoderEntry, A: ByteAction>(
    reg: StaticRegistry<D, A>,
    acts: Seq<ActionModel>,
    payload: Seq<u8>,
    max: usize,
    i: int,
)
    requires
        0 <= i < acts.len(),
        forall|k: int| i <= k < acts.len() ==> reg.knows_action(#[trigger] acts[k].0),
        undone(reg, acts, payload, i).len() > max,
    ensures
        forall|n: int| n <= i ==> !#[trigger] decode_fits(reg, acts, payload, max, n),
        forall|j: int| #[trigger] last_unknown_action(reg, acts, j) ==> j < i,
{
    assert forall|n: int| n <= i implies !#[trigger] decode_fits(reg, acts, payload, max, n) by {
        assert(undone(reg, acts, payload, i).len() > max);
    }
    assert forall|j: int| #[trigger] last_unknown_action(reg, acts, j) implies j < i by {
        if j >= i {
            assert(reg.knows_action(acts[j].0));
        }
    }
}

/// Undoes the chain `actions` on `payload`, from the last step to the
/// first, each through its registered handler; a handler's failure is
/// returned as it is.
pub fn apply_actions<D: DecoderEntry, A: ByteAction>(
    reg: &StaticRegistry<D, A>,
    actions: &[ActionSpec],
    payload: &[u8],
    limits: &DecodeLimits,
) -> (r: Result<Vec<u8>, DecodeError>)
    ensures
        undo_result(*reg, actions_model(actions@), payload@, limits.max_output_bytes, r),
{
    let ghost acts = actions_model(actions@);
    let ghost max = limits.max_output_bytes;
    let mut buffer: Vec<u8> = vstd::slice::slice_to_vec(payload);
    let mut i: usize = actions.len();
    while i > 0
        invariant
            0 <= i <= actions@.len(),
            acts == actions_model(actions@),
            max == limits.max_output_bytes,
            forall|k: int| i <= k < acts.len() ==> reg.knows_action(#[trigger] acts[k].0),
            decode_fits(*reg, acts, payload@, max, i as int),
            buffer@ == undone(*reg, acts, payload@, i as int),
        decreases i,
    {
        let action = &actions[i - 1];
        assert(acts[i - 1] == actions@[i - 1]@);
        let handler = match reg.lookup_action(action.id) {
            Some(h) => h,
            None => {
                assert(last_unknown_action(*reg, acts, i - 1));
                proof {
                    lemma_last_unknown_unique(*reg, acts, i - 1);
                }
                return Err(DecodeError::UnknownAction(action.id));
            },
        };
        assert(undone(*reg, acts, payload@, i - 1) == handler.spec_decoded(
            buffer@,
            action.params@,
        ));
        buffer = match handler.decode(buffer.as_slice(), limits, action.params.as_slice()) {
            Ok(out) => out,
            Err(e) => {
                proof {
                    let ii = i - 1;
                    if !e.is_external_failure() {
                        assert(decode_step_failure(*reg, acts, payload@, max, ii, e));
                        lemma_decode_step_failure_excludes(*reg, acts, payload@, max, ii);
                    } else {
                        assert(decode_external_step(*reg, acts, payload@, max, ii));
                        assert forall|n: int| n <= ii implies !#[trigger] decode_never_fails(
                            *reg,
                            acts,
                            payload@,
                            n,
                        ) by {
                            assert(decode_step_may_fail(*reg, acts, payload@, ii));
                        }
                        assert forall|j: int| #[trigger]
                            last_unknown_action(*reg, acts, j) implies j < ii by {
                            if j >= ii {
                                assert(reg.knows_action(acts[j].0));
                            }
                        }
                    }
                }
                return Err(e);
            },
        };
        i = i - 1;
    }
    assert(acts.len() == 0 ==> buffer@ == payload@);
    Ok(buffer)
}

/// Undoes a default chain on `payload` exactly as `apply_actions` undoes
/// the same steps held by value.
pub fn apply_actions_refs<D: DecoderEntry, A: ByteAction>(
    reg: &StaticRegistry<D, A>,
    actions: &[ActionSpecRef],
    payload: &[u8],
    limits: &DecodeLimits,
) -> (r: Result<Vec<u8>, DecodeError>)
    ensures
        undo_result(*reg, action_refs_model(actions@), payload@, limits.max_output_bytes, r),
{
    let mut owned: Vec<ActionSpec> = Vec::new();
    let mut i: usize = 0;
    while i < actions.len()
        invariant
            0 <= i <= actions@.len(),
            owned@.len() == i,
            actions_model(owned@) == action_refs_model(actions@).subrange(0, i as int),
        decreases actions@.len() - i,
    {
        let a = &actions[i];
        let params = vstd::slice::slice_to_vec(a.params);
        let ghost prev = owned@;
        let spec = ActionSpec::new(a.id, a.flags, params);
        assert(spec@ == actions@[i as int]@);
        owned.push(spec);
        assert forall|k: int| 0 <= k < i + 1 implies actions_model(owned@)[k] == action_refs_model(
            actions@,
        )[k] by {
            if k < i {
                assert(owned@[k] == prev[k]);
                assert(actions_model(prev)[k] == action_refs_model(actions@).subrange(0, i as int)[k]);
            }
        }
        i = i + 1;
        assert(actions_model(owned@) =~= action_refs_model(actions@).subrange(0, i as int));
    }
    assert(action_refs_model(actions@).subrange(0, actions@.len() as int) =~= action_refs_model(
        actions@,
    ));
    apply_actions(reg, owned.as_slice(), payload, limits)
}

/// What the parsing and undoing stage of decoding a self-describing input
/// `s` owes: the index of the decoder and the bytes to hand it, or the
/// failure of framing, lookup or the envelope's own chain.
pub open spec fn auto_prepared<D: DecoderEntry, A: ByteAction>(
    s: Seq<u8>,
    reg: StaticRegistry<D, A>,
    max: usize,
    r: Result<(usize, Vec<u8>), DecodeError>,
) -> bool {
    if no_envelope(s) {
        r == Err::<(usize, Vec<u8>), DecodeError>(DecodeError::BadEnvelope("no envelope"))
    } else if s[8] != ENVELOPE_VERSION {
        r == Err::<(usize, Vec<u8>), DecodeError>(
            DecodeError::BadEnvelope("unsupported envelope version"),
        )
    } else {
        match header_actions(s) {
            Err(msg) => r == Err::<(usize, Vec<u8>), DecodeError>(DecodeError::BadEnvelope(msg)),
            Ok((acts, end)) => {
                let type_id = s.subrange(9, 25);
                let schema_version = le16(s[25], s[26]);
                let codec_id = le16(s[27], s[28]);
                let payload = s.subrange(end, s.len() as int);
                if !reg.knows_type(type_id, schema_version) {
                    r matches Err(DecodeError::UnknownType(k)) && k.type_id@ == type_id
                        && k.schema_version == schema_version
                } else if exists|i: int|
                    reg.first_decoder(type_id, schema_version, i)
                        && #[trigger] reg.slots()[i].codec_id != codec_id {
                    r == Err::<(usize, Vec<u8>), DecodeError>(DecodeError::UnknownCodec(codec_id))
                } else {
                    (r matches Ok((i, out)) ==> reg.first_decoder(type_id, schema_version, i as int))
                        && undo_result(reg, acts, payload, max, without_index(r))
                }
            },
        }
    }
}

/// The bytes of a prepared result, without the decoder's index.
pub open spec fn without_index(r: Result<(usize, Vec<u8>), DecodeError>) -> Result<
    Vec<u8>,
    DecodeError,
> {
    match r {
        Ok((i, out)) => Ok(out),
        Err(e) => Err(e),
    }
}

/// Parses a self-describing input, finds its decoder, checks the codec,
/// and undoes the envelope's own chain: the decoder's index and the bytes
/// that decoder is to decode.
pub fn prepare_auto<D: DecoderEntry, A: ByteAction>(
    data: &[u8],
    reg: &StaticRegistry<D, A>,
    limits: &DecodeLimits,
) -> (r: Result<(usize, Vec<u8>), DecodeError>)
    ensures
        auto_prepared(data@, *reg, limits.max_output_bytes, r),
        r matches Ok((i, out)) ==> i < reg.decoders().len(),
{
    let envelope = match try_parse(data) {
        Ok(ParsedEnvelope::Envelope(view)) => view,
        Ok(ParsedEnvelope::NoEnvelope) => {
            return Err(DecodeError::BadEnvelope("no envelope"));
        },
        Err(e) => {
            return Err(e);
        },
    };
    let index = match reg.find_decoder(envelope.key) {
        Some(i) => i,
        None => {
            return Err(DecodeError::UnknownType(envelope.key));
        },
    };
    if envelope.codec_id != reg.slot_at(index).codec_id {
        return Err(DecodeError::UnknownCodec(envelope.codec_id));
    }
    let payload = match apply_actions(
        reg,
        envelope.actions.as_slice(),
        envelope.payload.as_slice(),
        limits,
    ) {
        Ok(p) => p,
        Err(e) => {
            return Err(e);
        },
    };
    Ok((index, payload))
}

/// What the lookup and undoing stage of decoding by an explicit key owes:
/// the index of the decoder and `data` with its default chain undone, or
/// the failure of the lookup or of that chain.
pub open spec fn by_id_prepared<D: DecoderEntry, A: ByteAction>(
    data: Seq<u8>,
    reg: StaticRegistry<D, A>,
    key: TypeKey,
    max: usize,
    r: Result<(usize, Vec<u8>), DecodeError>,
) -> bool {
    if !reg.knows_type(key.type_id@, key.schema_version) {
        r matches Err(DecodeError::UnknownType(k)) && k.same(key)
    } else {
        &&& r matches Ok((i, out)) ==> reg.first_decoder(key.type_id@, key.schema_version, i as int)
        &&& forall|i: int|
            reg.first_decoder(key.type_id@, key.schema_version, i) ==> undo_result(
                reg,
                action_refs_model(#[trigger] reg.slots()[i].default_actions@),
                data,
                max,
                without_index(r),
            )
    }
}

/// Finds the decoder for `key` and undoes its default chain on `data`: the
/// decoder's index and the bytes it is to decode.
pub fn prepare_by_id<D: DecoderEntry, A: ByteAction>(
    data: &[u8],
    key: TypeKey,
    reg: &StaticRegistry<D, A>,
    limits: &DecodeLimits,
) -> (r: Result<(usize, Vec<u8>), DecodeError>)
    ensures
        by_id_prepared(data@, *reg, key, limits.max_output_bytes, r),
        r matches Ok((i, out)) ==> i < reg.decoders().len(),
{
    let index = match reg.find_decoder(key) {
        Some(i) => i,
        None => {
            return Err(DecodeError::UnknownType(key));
        },
    };
    let payload = match apply_actions_refs(reg, reg.slot_at(index).default_actions, data, limits) {
        Ok(p) => p,
        Err(e) => {
            return Err(e);
        },
    };
    proof {
        assert forall|i: int|
            reg.first_decoder(key.type_id@, key.schema_version, i) implies i == index by {
            if i < index {
                assert(!(reg.slots()[i].key.type_id@ == key.type_id@
                    && reg.slots()[i].key.schema_version == key.schema_version));
            } else if i > index {
                assert(!(reg.slots()[index as int].key.type_id@ == key.type_id@
                    && reg.slots()[index as int].key.schema_version == key.schema_version));
            }
        }
    }
    Ok((index, payload))
}

/// What undoing a decoder's default chain `defaults` on `data` owes: with
/// no default chain, `data` as it is; with one and no registry, the
/// not-initialized failure; otherwise what undoing it through the registry
/// owes.
pub open spec fn know_schema_prepared<D: DecoderEntry, A: ByteAction>(
    data: Seq<u8>,
    defaults: Seq<ActionSpecRef>,
    registry: Option<&StaticRegistry<D, A>>,
    max: usize,
    r: Result<Vec<u8>, DecodeError>,
) -> bool {
    &&& defaults.len() == 0 ==> (r matches Ok(out) && out@ == data)
    &&& defaults.len() > 0 && registry is None ==> r == Err::<Vec<u8>, DecodeError>(
        not_initialized(),
    )
    &&& defaults.len() > 0 && registry is Some ==> undo_result(
        *registry.unwrap(),
        action_refs_model(defaults),
        data,
        max,
        r,
    )
}

/// Undoes a decoder's default chain on `data`: with no default chain the
/// bytes are handed on as they are and no registry is needed; otherwise
/// the chain is undone through the registry.
pub fn prepare_know_schema<D: DecoderEntry, A: ByteAction>(
    data: &[u8],
    defaults: &[ActionSpecRef],
    registry: Option<&StaticRegistry<D, A>>,
    limits: &DecodeLimits,
) -> (r: Result<Vec<u8>, DecodeError>)
    ensures
        know_schema_prepared(data@, defaults@, registry, limits.max_output_bytes, r),
{
    if defaults.len() == 0 {
        return Ok(vstd::slice::slice_to_vec(data));
    }
    match registry {
        Some(reg) => apply_actions_refs(reg, defaults, data, limits),
        None => Err(DecodeError::BadEnvelope("registry not initialized")),
    }
}

/// Relies on serde_json::to_vec: writes the value as JSON text. A value has
/// only string keys and is written into memory, so this succeeds.
#[verifier::external_body]
fn json_to_vec(value: &serde_json::Value) -> (r: Result<Vec<u8>, String>)
    ensures
        r is Ok,
{
    serde_json::to_vec(value).map_err(|err| err.to_string())
}

/// Fails when the JSON text of `value` is over `limits.max_json_bytes`.
pub fn ensure_json_limit(value: &serde_json::Value, limits: &DecodeLimits) -> (r: Result<
    (),
    DecodeError,
>)
    ensures
        r matches Err(DecodeError::LimitExceeded { context, limit, actual }) ==> context
            == JSON_CONTEXT && limit == limits.max_json_bytes && actual > limit,
        r matches Err(e) ==> e is LimitExceeded || e is Json,
        r matches Err(e) ==> !e.is_lookup_failure(),
{
    let json = match json_to_vec(value) {
        Ok(j) => j,
        Err(msg) => {
            return Err(DecodeError::Json(msg));
        },
    };
    ensure_limit(JSON_CONTEXT, json.len(), limits.max_json_bytes)
}

/// Whether `e` is a failure to write JSON text, or the JSON ceiling
/// `max_json` being passed.
pub open spec fn is_json_failure(e: DecodeError, max_json: usize) -> bool {
    match e {
        DecodeError::Json(_) => true,
        DecodeError::LimitExceeded { context, limit, actual } => context == JSON_CONTEXT && limit
            == max_json && actual > limit,
        _ => false,
    }
}

/// Whether `r` is what the last stage makes of the decoder's outcome: its
/// failure as it is; or its value, unless the value's JSON text cannot be
/// written or is over the ceiling.
pub open spec fn finished(
    outcome: Result<serde_json::Value, DecodeError>,
    max_json: usize,
    r: Result<serde_json::Value, DecodeError>,
) -> bool {
    match outcome {
        Err(e) => r == Err::<serde_json::Value, DecodeError>(e),
        Ok(v) => r == Ok::<serde_json::Value, DecodeError>(v) || (r matches Err(e)
            && is_json_failure(e, max_json)),
    }
}

/// Takes the decoder's outcome: a failure is returned as it is, and a value
/// is returned once its JSON text fits `limits.max_json_bytes`.
pub fn finish_decode(outcome: Result<serde_json::Value, DecodeError>, limits: &DecodeLimits) -> (r:
    Result<serde_json::Value, DecodeError>)
    ensures
        finished(outcome, limits.max_json_bytes, r),
{
    let value = match outcome {
        Ok(v) => v,
        Err(e) => {
            return Err(e);
        },
    };
    match ensure_json_limit(&value, limits) {
        Ok(()) => Ok(value),
        Err(e) => Err(e),
    }
}

/// The error for a call made before a registry was installed.
pub open spec fn not_initialized() -> DecodeError {
    DecodeError::BadEnvelope("registry not initialized")
}

/// The error for an input over the raw input ceiling.
pub open spec fn input_too_large(data: Seq<u8>, limits: DecodeLimits) -> DecodeError {
    DecodeError::LimitExceeded {
        context: INPUT_CONTEXT,
        limit: limits.max_input_bytes,
        actual: data.len() as usize,
    }
}

/// Decodes a self-describing envelope: its key selects the decoder, whose
/// codec must be the one the envelope names, and the envelope's own chain
/// is undone from its last step; the bytes `prepare_auto` gives go to the
/// decoder, and `finish_decode` takes its outcome.
pub fn decode_auto<D: DecoderEntry, A: ByteAction>(
    data: &[u8],
    registry: Option<&StaticRegistry<D, A>>,
    limits: &DecodeLimits,
) -> (r: Result<serde_json::Value, DecodeError>)
    ensures
        data@.len() > limits.max_input_bytes ==> r == Err::<serde_json::Value, DecodeError>(
            input_too_large(data@, *limits),
        ),
        data@.len() <= limits.max_input_bytes && registry is None ==> r == Err::<
            serde_json::Value,
            DecodeError,
        >(not_initialized()),
        data@.len() <= limits.max_input_bytes && registry is Some ==> exists|
            p: Result<(usize, Vec<u8>), DecodeError>,
        |
            #[trigger] auto_prepared(data@, *registry.unwrap(), limits.max_output_bytes, p) && (
            p matches Err(e) ==> r == Err::<serde_json::Value, DecodeError>(e)) && (r is Ok
                ==> p is Ok) && (p is Ok ==> !(r matches Err(e) && e.is_lookup_failure())),
{
    if data.len() > limits.max_input_bytes {
        return Err(
            DecodeError::LimitExceeded {
                context: INPUT_CONTEXT,
                limit: limits.max_input_bytes,
                actual: data.len(),
            },
        );
    }
    let reg = match registry {
        Some(reg) => reg,
        None => {
            return Err(DecodeError::BadEnvelope("registry not initialized"));
        },
    };
    let prepared = prepare_auto(data, reg, limits);
    assert(auto_prepared(data@, *reg, limits.max_output_bytes, prepared));
    let (index, payload) = match prepared {
        Ok(p) => p,
        Err(e) => {
            return Err(e);
        },
    };
    let outcome = reg.decoder_at(index).decode_payload(payload.as_slice(), limits);
    finish_decode(outcome, limits)
}

/// Decodes raw bytes as the record type named by `type_id` and
/// `schema_version`: the decoder's default chain is undone from its last
/// step, since the bytes carry no chain of their own; the bytes
/// `prepare_by_id` gives go to the decoder, and `finish_decode` takes its
/// outcome.
pub fn decode_by_id<D: DecoderEntry, A: ByteAction>(
    data: &[u8],
    type_id: [u8; 16],
    schema_version: i16,
    registry: Option<&StaticRegistry<D, A>>,
    limits: &DecodeLimits,
) -> (r: Result<serde_json::Value, DecodeError>)
    ensures
        data@.len() > limits.max_input_bytes ==> r == Err::<serde_json::Value, DecodeError>(
            input_too_large(data@, *limits),
        ),
        data@.len() <= limits.max_input_bytes && registry is None ==> r == Err::<
            serde_json::Value,
            DecodeError,
        >(not_initialized()),
        data@.len() <= limits.max_input_bytes && registry is Some ==> exists|
            p: Result<(usize, Vec<u8>), DecodeError>,
        |
            #[trigger] by_id_prepared(
                data@,
                *registry.unwrap(),
                TypeKey { type_id, schema_version: schema_version as u16 },
                limits.max_output_bytes,
                p,
            ) && (p matches Err(e) ==> r == Err::<serde_json::Value, DecodeError>(e)) && (r is Ok
                ==> p is Ok) && (p is Ok ==> !(r matches Err(e) && e.is_lookup_failure())),
{
    if data.len() > limits.max_input_bytes {
        return Err(
            DecodeError::LimitExceeded {
                context: INPUT_CONTEXT,
                limit: limits.max_input_bytes,
                actual: data.len(),
            },
        );
    }
    let reg = match registry {
        Some(reg) => reg,
        None => {
            return Err(DecodeError::BadEnvelope("registry not initialized"));
        },
    };
    let key = TypeKey { type_id, schema_version: schema_version as u16 };
    let prepared = prepare_by_id(data, key, reg, limits);
    assert(by_id_prepared(data@, *reg, key, limits.max_output_bytes, prepared));
    let (index, payload) = match prepared {
        Ok(p) => p,
        Err(e) => {
            return Err(e);
        },
    };
    let outcome = reg.decoder_at(index).decode_payload(payload.as_slice(), limits);
    finish_decode(outcome, limits)
}

/// Decodes raw bytes with a decoder the caller already holds: the bytes
/// that `prepare_know_schema` makes of `data` and the decoder's default
/// chain go to the decoder, and `finish_decode` takes its outcome. Without
/// a default chain no registry is needed.
pub fn decode_know_schema<E: DecoderEntry, D: DecoderEntry, A: ByteAction>(
    data: &[u8],
    decoder: &KnownSchema<E>,
    registry: Option<&StaticRegistry<D, A>>,
    limits: &DecodeLimits,
) -> (r: Result<serde_json::Value, DecodeError>)
    ensures
        data@.len() > limits.max_input_bytes ==> r == Err::<serde_json::Value, DecodeError>(
            input_too_large(data@, *limits),
        ),
        data@.len() <= limits.max_input_bytes ==> exists|p: Result<Vec<u8>, DecodeError>|
            #[trigger] know_schema_prepared(
                data@,
                decoder.slot().default_actions@,
                registry,
                limits.max_output_bytes,
                p,
            ) && (p matches Err(e) ==> r == Err::<serde_json::Value, DecodeError>(e)) && (r is Ok
                ==> p is Ok) && (p is Ok ==> !(r matches Err(e) && e.is_lookup_failure())),
        data@.len() <= limits.max_input_bytes && decoder.slot().default_actions@.len() == 0 ==> !(
        r matches Err(e) && e.is_lookup_failure()),
        data@.len() <= limits.max_input_bytes && decoder.slot().default_actions@.len() > 0
            && registry is None ==> r == Err::<serde_json::Value, DecodeError>(not_initialized()),
{
    if data.len() > limits.max_input_bytes {
        return Err(
            DecodeError::LimitExceeded {
                context: INPUT_CONTEXT,
                limit: limits.max_input_bytes,
                actual: data.len(),
            },
        );
    }
    let defaults = decoder.default_actions();
    let prepared = prepare_know_schema(data, defaults, registry, limits);
    assert(know_schema_prepared(
        data@,
        decoder.slot().default_actions@,
        registry,
        limits.max_output_bytes,
        prepared,
    ));
    let payload = match prepared {
        Ok(p) => p,
        Err(e) => {
            return Err(e);
        },
    };
    let outcome = decoder.entry_ref().decode_payload(payload.as_slice(), limits);
    finish_decode(outcome, limits)
}

proof fn lemma_undone_of_encoded_from<D: DecoderEntry, A: ByteAction>(
    reg: StaticRegistry<D, A>,
    acts: Seq<ActionModel>,
    bytes: Seq<u8>,
    k: int,
)
    requires
        0 <= k <= acts.len(),
        forall|j: int| 0 <= j < acts.len() ==> #[trigger] encode_step_reverses(reg, acts, bytes, j),
    ensures
        undone(reg, acts, encoded_upto(reg, acts, bytes, acts.len() as int), k) == encoded_upto(
            reg,
            acts,
            bytes,
            k,
        ),
    decreases acts.len() - k,
{
    if k < acts.len() {
        lemma_undone_of_encoded_from(reg, acts, bytes, k + 1);
        assert(encode_step_reverses(reg, acts, bytes, k));
    }
}

/// Undoing, from its end, a chain that encoding applied to `bytes` gives
/// every intermediate buffer back, ends at `bytes`, and meets no outside
/// failure, when each step undoes what it did.
pub proof fn lemma_undone_of_encoded<D: DecoderEntry, A: ByteAction>(
    reg: StaticRegistry<D, A>,
    acts: Seq<ActionModel>,
    bytes: Seq<u8>,
)
    requires
        forall|j: int| 0 <= j < acts.len() ==> #[trigger] encode_step_reverses(reg, acts, bytes, j),
    ensures
        forall|k: int|
            0 <= k <= acts.len() ==> #[trigger] undone(
                reg,
                acts,
                encoded_upto(reg, acts, bytes, acts.len() as int),
                k,
            ) == encoded_upto(reg, acts, bytes, k),
        chain_decoded(reg, acts, encoded_upto(reg, acts, bytes, acts.len() as int)) == bytes,
        decode_never_fails(reg, acts, encoded_upto(reg, acts, bytes, acts.len() as int), 0),
{
    let top = encoded_upto(reg, acts, bytes, acts.len() as int);
    assert forall|k: int| 0 <= k <= acts.len() implies #[trigger] undone(reg, acts, top, k)
        == encoded_upto(reg, acts, bytes, k) by {
        lemma_undone_of_encoded_from(reg, acts, bytes, k);
    }
    assert(undone(reg, acts, top, 0) == encoded_upto(reg, acts, bytes, 0));
    assert forall|i: int| 0 <= i < acts.len() implies !#[trigger] decode_step_may_fail(
        reg,
        acts,
        top,
        i,
    ) by {
        lemma_undone_of_encoded_from(reg, acts, bytes, i + 1);
        assert(encode_step_reverses(reg, acts, bytes, i));
    }
}

/// Round trip: decoding the envelope that `encode_to_envelope` wrote for
/// codec output `bytes`, under a registry that knows the key with that
/// codec and every step, hands the decoder exactly `bytes`, provided the
/// intermediate buffers fit the decode ceiling.
pub proof fn lemma_round_trip_reaches_decoder<D: DecoderEntry, A: ByteAction>(
    reg: StaticRegistry<D, A>,
    key: TypeKey,
    codec_id: u16,
    acts: Seq<ActionModel>,
    bytes: Seq<u8>,
    max: usize,
    p: Result<(usize, Vec<u8>), DecodeError>,
)
    requires
        acts.len() <= 255,
        params_fit(acts),
        reg.knows_type(key.type_id@, key.schema_version),
        forall|i: int|
            reg.first_decoder(key.type_id@, key.schema_version, i) ==> (#[trigger] reg.slots()[i]).codec_id
                == codec_id,
        all_actions_known(reg, acts),
        forall|j: int| 0 <= j < acts.len() ==> #[trigger] encode_step_reverses(reg, acts, bytes, j),
        forall|k: int|
            0 <= k < acts.len() ==> (#[trigger] encoded_upto(reg, acts, bytes, k)).len() <= max,
        auto_prepared(
            envelope_bytes(key, codec_id, acts, encoded_upto(reg, acts, bytes, acts.len() as int)),
            reg,
            max,
            p,
        ),
    ensures
        p matches Ok((i, out)) && out@ == bytes && reg.first_decoder(
            key.type_id@,
            key.schema_version,
            i as int,
        ),
{
    let top = encoded_upto(reg, acts, bytes, acts.len() as int);
    lemma_undone_of_encoded(reg, acts, bytes);
    assert forall|i: int| 0 <= i < acts.len() implies #[trigger] undone(reg, acts, top, i).len()
        <= max by {
        assert(undone(reg, acts, top, i) == encoded_upto(reg, acts, bytes, i));
    }
    assert(decode_fits(reg, acts, top, max, 0));
    lemma_encoded_envelope_reaches_decoder(reg, key, codec_id, acts, top, max, p);
}

/// An envelope written for a key whose decoder uses `codec_id`, with a
/// chain of at most 255 steps that all have handlers, gets past every
/// framing and lookup check when it is decoded: the decoder found is the
/// first one for the key, and what it is handed is the envelope's payload
/// with the whole chain undone; when every undone step fits the ceiling,
/// only an outside decoder can make that stage fail.
pub proof fn lemma_encoded_envelope_reaches_decoder<D: DecoderEntry, A: ByteAction>(
    reg: StaticRegistry<D, A>,
    key: TypeKey,
    codec_id: u16,
    acts: Seq<ActionModel>,
    payload: Seq<u8>,
    max: usize,
    p: Result<(usize, Vec<u8>), DecodeError>,
)
    requires
        acts.len() <= 255,
        params_fit(acts),
        reg.knows_type(key.type_id@, key.schema_version),
        forall|i: int|
            reg.first_decoder(key.type_id@, key.schema_version, i) ==> (#[trigger] reg.slots()[i]).codec_id
                == codec_id,
        all_actions_known(reg, acts),
        auto_prepared(envelope_bytes(key, codec_id, acts, payload), reg, max, p),
    ensures
        !(p matches Err(e) && e.is_lookup_failure()),
        p matches Ok((i, out)) ==> reg.first_decoder(key.type_id@, key.schema_version, i as int)
            && out@ == chain_decoded(reg, acts, payload),
        decode_fits(reg, acts, payload, max, 0) ==> p is Ok || (p matches Err(e)
            && e.is_external_failure()),
        decode_fits(reg, acts, payload, max, 0) && decode_never_fails(reg, acts, payload, 0)
            ==> p is Ok,
{
    let s = envelope_bytes(key, codec_id, acts, payload);
    let ab = actions_bytes(acts);
    let abl = ab.len() as int;
    let head = magic() + seq![ENVELOPE_VERSION] + key.type_id@ + le16_bytes(key.schema_version)
        + le16_bytes(codec_id) + seq![acts.len() as u8];
    assert(head.len() == 30);
    assert(s =~= head + ab + payload);
    assert(s.subrange(0, 8) =~= magic());
    assert(s[8] == ENVELOPE_VERSION);
    assert(s[29] == acts.len());
    assert(s.subrange(30, 30 + abl) =~= ab);
    lemma_parse_actions_bytes(s, 30, acts);
    assert(s.subrange(9, 25) =~= key.type_id@);
    lemma_le16_round_trip(key.schema_version);
    lemma_le16_round_trip(codec_id);
    assert(le16(s[25], s[26]) == key.schema_version);
    assert(le16(s[27], s[28]) == codec_id);
    assert(s.subrange(30 + abl, s.len() as int) =~= payload);
}

} // verus!
