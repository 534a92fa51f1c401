use crate::action::{action_limit_error, actions_model, ActionModel, ActionSpec, ByteAction};
use crate::envelope::{build_envelope, envelope_bytes};
use crate::error::DecodeError;
use crate::registry::{DecoderEntry, StaticRegistry};
use crate::types::{EncodeLimits, TypeKey};
use vstd::prelude::*;

verus! {

/// What the first `i` steps of the chain make of `bytes`: each step's
/// handler applied in turn, first to last.
pub open spec fn encoded_upto<D: DecoderEntry, A: ByteAction>(
    reg: StaticRegistry<D, A>,
    acts: Seq<ActionModel>,
    bytes: Seq<u8>,
    i: int,
) -> Seq<u8>
    decreases i,
{
    if i <= 0 {
        bytes
    } else {
        reg.action_for(acts[i - 1].0).spec_encoded(encoded_upto(reg, acts, bytes, i - 1), acts[i - 1].2)
    }
}

/// The size of what step `i` of the chain outputs.
pub open spec fn encode_step_len<D: DecoderEntry, A: ByteAction>(
    reg: StaticRegistry<D, A>,
    acts: Seq<ActionModel>,
    bytes: Seq<u8>,
    i: int,
) -> nat {
    encoded_upto(reg, acts, bytes, i + 1).len()
}

/// Whether the outputs of the first `n` steps fit the ceiling.
pub open spec fn encode_fits<D: DecoderEntry, A: ByteAction>(
    reg: StaticRegistry<D, A>,
    acts: Seq<ActionModel>,
    bytes: Seq<u8>,
    max: usize,
    n: int,
) -> bool {
    forall|i: int| 0 <= i < n ==> #[trigger] encode_step_len(reg, acts, bytes, i) <= max
}

/// Whether undoing step `k` turns its output back into its input, without
/// an outside failure.
pub open spec fn encode_step_reverses<D: DecoderEntry, A: ByteAction>(
    reg: StaticRegistry<D, A>,
    acts: Seq<ActionModel>,
    bytes: Seq<u8>,
    k: int,
) -> bool {
    let h = reg.action_for(acts[k].0);
    &&& h.spec_decoded(encoded_upto(reg, acts, bytes, k + 1), acts[k].2) == encoded_upto(
        reg,
        acts,
        bytes,
        k,
    )
    &&& !h.spec_decode_fails(encoded_upto(reg, acts, bytes, k + 1), acts[k].2)
}

/// Whether the outside encoder of step `i` may fail on what reaches it.
pub open spec fn encode_step_may_fail<D: DecoderEntry, A: ByteAction>(
    reg: StaticRegistry<D, A>,
    acts: Seq<ActionModel>,
    bytes: Seq<u8>,
    i: int,
) -> bool {
    reg.action_for(acts[i].0).spec_encode_fails(encoded_upto(reg, acts, bytes, i), acts[i].2)
}

/// Whether step `i` is one that can report an outside failure: every step
/// up to it has a handler, every earlier one fits, and its encoder may
/// fail on what reaches it.
pub open spec fn encode_external_step<D: DecoderEntry, A: ByteAction>(
    reg: StaticRegistry<D, A>,
    acts: Seq<ActionModel>,
    bytes: Seq<u8>,
    max: usize,
    i: int,
) -> bool {
    &&& 0 <= i < acts.len()
    &&& forall|k: int| 0 <= k <= i ==> reg.knows_action(#[trigger] acts[k].0)
    &&& encode_fits(reg, acts, bytes, max, i)
    &&& encode_step_may_fail(reg, acts, bytes, i)
}

/// Whether none of the first `n` steps' encoders may fail.
pub open spec fn encode_never_fails<D: DecoderEntry, A: ByteAction>(
    reg: StaticRegistry<D, A>,
    acts: Seq<ActionModel>,
    bytes: Seq<u8>,
    n: int,
) -> bool {
    forall|i: int| 0 <= i < n ==> !#[trigger] encode_step_may_fail(reg, acts, bytes, i)
}

/// Whether `e` is the failure of step `i`: every earlier step has a handler
/// and fits, step `i` has a handler, and its output is over the ceiling.
pub open spec fn encode_step_failure<D: DecoderEntry, A: ByteAction>(
    reg: StaticRegistry<D, A>,
    acts: Seq<ActionModel>,
    bytes: Seq<u8>,
    max: usize,
    i: int,
    e: DecodeError,
) -> bool {
    &&& 0 <= i < acts.len()
    &&& forall|k: int| 0 <= k <= i ==> reg.knows_action(#[trigger] acts[k].0)
    &&& encode_fits(reg, acts, bytes, max, i)
    &&& encode_step_len(reg, acts, bytes, i) > max
    &&& e == action_limit_error(max, encode_step_len(reg, acts, bytes, i) as usize)
}

/// Whether every step of the chain has a registered handler.
pub open spec fn all_actions_known<D: DecoderEntry, A: ByteAction>(
    reg: StaticRegistry<D, A>,
    acts: Seq<ActionModel>,
) -> bool {
    forall|i: int| 0 <= i < acts.len() ==> reg.knows_action(#[trigger] acts[i].0)
}

/// Whether step `j` is the first of the chain without a handler.
pub open spec fn first_unknown_action<D: DecoderEntry, A: ByteAction>(
    reg: StaticRegistry<D, A>,
    acts: Seq<ActionModel>,
    j: int,
) -> bool {
    &&& 0 <= j < acts.len()
    &&& !reg.knows_action(acts[j].0)
    &&& forall|k: int| 0 <= k < j ==> reg.knows_action(#[trigger] acts[k].0)
}

/// Wraps the codec's output `encoded` in an envelope: each action of the
/// chain is applied in order through its registered handler, and the
/// result is framed with `key`, `codec_id` and the chain. The first step
/// without a handler fails with `UnknownAction` naming its id; a handler's
/// failure is returned as it is; nothing is returned on failure.
pub fn encode_to_envelope<D: DecoderEntry, A: ByteAction>(
    encoded: &[u8],
    codec_id: u16,
    key: TypeKey,
    actions: &[ActionSpec],
    registry: &StaticRegistry<D, A>,
    limits: &EncodeLimits,
) -> (r: Result<Vec<u8>, DecodeError>)
    ensures
        r matches Ok(out) ==> all_actions_known(*registry, actions_model(actions@)) && out@
            == envelope_bytes(
            key,
            codec_id,
            actions_model(actions@),
            encoded_upto(*registry, actions_model(actions@), encoded@, actions@.len() as int),
        ),
        r matches Err(e) ==> e.is_external_failure() || (exists|j: int|
            first_unknown_action(*registry, actions_model(actions@), j) && encode_fits(
                *registry,
                actions_model(actions@),
                encoded@,
                limits.max_output_bytes,
                j,
            ) && e == DecodeError::UnknownAction(actions@[j].id)) || (exists|i: int|
            encode_step_failure(
                *registry,
                actions_model(actions@),
                encoded@,
                limits.max_output_bytes,
                i,
                e,
            )),
        r matches Err(e) ==> (e.is_external_failure() ==> exists|i: int|
            encode_external_step(
                *registry,
                actions_model(actions@),
                encoded@,
                limits.max_output_bytes,
                i,
            )),
        all_actions_known(*registry, actions_model(actions@)) && encode_fits(
            *registry,
            actions_model(actions@),
            encoded@,
            limits.max_output_bytes,
            actions@.len() as int,
        ) && encode_never_fails(
            *registry,
            actions_model(actions@),
            encoded@,
            actions@.len() as int,
        ) ==> r is Ok,
        forall|j: int|
            first_unknown_action(*registry, actions_model(actions@), j) && encode_fits(
                *registry,
                actions_model(actions@),
                encoded@,
                limits.max_output_bytes,
                j,
            ) && encode_never_fails(*registry, actions_model(actions@), encoded@, j) ==> r
                == Err::<Vec<u8>, DecodeError>(DecodeError::UnknownAction(actions@[j].id)),
        r is Ok ==> forall|k: int|
            0 <= k < actions@.len() ==> #[trigger] encode_step_reverses(
                *registry,
                actions_model(actions@),
                encoded@,
                k,
            ),
        !all_actions_known(*registry, actions_model(actions@)) ==> r is Err,
        all_actions_known(*registry, actions_model(actions@)) && encode_fits(
            *registry,
            actions_model(actions@),
            encoded@,
            limits.max_output_bytes,
            actions@.len() as int,
        ) ==> r is Ok || (r matches Err(e) && e.is_external_failure()),
        forall|j: int|
            first_unknown_action(*registry, actions_model(actions@), j) && encode_fits(
                *registry,
                actions_model(actions@),
                encoded@,
                limits.max_output_bytes,
                j,
            ) ==> r == Err::<Vec<u8>, DecodeError>(DecodeError::UnknownAction(actions@[j].id)) || (
            r matches Err(e) && e.is_external_failure()),
        actions@.len() == 0 ==> (r matches Ok(out) && out@ == envelope_bytes(
            key,
            codec_id,
            Seq::empty(),
            encoded@,
        )),
{
    let ghost acts = actions_model(actions@);
    let ghost max = limits.max_output_bytes;
    let mut payload: Vec<u8> = slice_to_vec_u8(encoded);
    let mut i: usize = 0;
    while i < actions.len()
        invariant
            0 <= i <= actions@.len(),
            acts == actions_model(actions@),
            max == limits.max_output_bytes,
            forall|k: int| 0 <= k < i ==> registry.knows_action(#[trigger] acts[k].0),
            encode_fits(*registry, acts, encoded@, max, i as int),
            payload@ == encoded_upto(*registry, acts, encoded@, i as int),
            forall|k: int|
                0 <= k < i ==> #[trigger] encode_step_reverses(*registry, acts, encoded@, k),
        decreases actions@.len() - i,
    {
        let action = &actions[i];
        assert(acts[i as int] == actions@[i as int]@);
        let handler = match registry.lookup_action(action.id) {
            Some(h) => h,
            None => {
                assert(first_unknown_action(*registry, acts, i as int));
                proof {
                    lemma_unknown_is_first(*registry, acts, encoded@, max, i as int);
                }
                return Err(DecodeError::UnknownAction(action.id));
            },
        };
        assert(encoded_upto(*registry, acts, encoded@, i + 1) == handler.spec_encoded(
            payload@,
            action.params@,
        ));
        let next = handler.encode(payload.as_slice(), limits, action.params.as_slice());
        match next {
            Ok(out) => {
                assert(encode_step_len(*registry, acts, encoded@, i as int) <= max);
                assert(encode_step_reverses(*registry, acts, encoded@, i as int));
                payload = out;
            },
            Err(e) => {
                proof {
                    if !e.is_external_failure() {
                        assert(encode_step_failure(*registry, acts, encoded@, max, i as int, e));
                        lemma_step_failure_excludes(*registry, acts, encoded@, max, i as int);
                    } else {
                        assert(encode_external_step(*registry, acts, encoded@, max, i as int));
                        assert forall|n: int| n > i implies !#[trigger] encode_never_fails(
                            *registry,
                            acts,
                            encoded@,
                            n,
                        ) by {
                            assert(encode_step_may_fail(*registry, acts, encoded@, i as int));
                        }
                        assert forall|j: int| #[trigger]
                            first_unknown_action(*registry, acts, j) implies j > i by {
                            if j <= i {
                                assert(registry.knows_action(acts[j].0));
                            }
                        }
                    }
                }
                return Err(e);
            },
        }
        i = i + 1;
    }
    Ok(build_envelope(key, codec_id, actions, payload.as_slice()))
}

/// Once step `j` is the first without a handler and every earlier step
/// fits, no chain can be all-known-and-fitting, nor can any other step be
/// the first unknown one.
proof fn lemma_unknown_is_first<D: DecoderEntry, A: ByteAction>(
    reg: StaticRegistry<D, A>,
    acts: Seq<ActionModel>,
    bytes: Seq<u8>,
    max: usize,
    j: int,
)
    requires
        first_unknown_action(reg, acts, j),
    ensures
        forall|j2: int| #[trigger] first_unknown_action(reg, acts, j2) ==> j2 == j,
{
    assert forall|j2: int| #[trigger] first_unknown_action(reg, acts, j2) implies j2 == j by {
        if j2 < j {
            assert(reg.knows_action(acts[j2].0));
        } else if j2 > j {
            assert(reg.knows_action(acts[j].0));
        }
    }
}

/// When step `i` fails over the ceiling, the chain does not fit, and no
/// step up to `i` is unknown.
proof fn lemma_step_failure_excludes<D: DecoderEntry, A: ByteAction>(
    reg: StaticRegistry<D, A>,
    acts: Seq<ActionModel>,
    bytes: Seq<u8>,
    max: usize,
    i: int,
)
    requires
        0 <= i < acts.len(),
        forall|k: int| 0 <= k <= i ==> reg.knows_action(#[trigger] acts[k].0),
        encode_step_len(reg, acts, bytes, i) > max,
    ensures
        forall|n: int| n > i ==> !#[trigger] encode_fits(reg, acts, bytes, max, n),
        forall|j: int| #[trigger] first_unknown_action(reg, acts, j) ==> j > i,
{
    assert forall|n: int| n > i implies !#[trigger] encode_fits(reg, acts, bytes, max, n) by {
        assert(encode_step_len(reg, acts, bytes, i) > max);
    }
    assert forall|j: int| #[trigger] first_unknown_action(reg, acts, j) implies j > i by {
        if j <= i {
            assert(reg.knows_action(acts[j].0));
        }
    }
}

fn slice_to_vec_u8(s: &[u8]) -> (r: Vec<u8>)
    ensures
        r@ == s@,
{
    vstd::slice::slice_to_vec(s)
}

} // verus!
