use crate::action::{actions_model, ActionModel, ActionSpec};
use crate::error::DecodeError;
use crate::types::TypeKey;
use vstd::prelude::*;
use vstd::slice::{slice_subrange, slice_to_vec};

verus! {

/// Version byte written after the magic.
pub const ENVELOPE_VERSION: u8 = 1;

/// Length of the fixed header: magic, version, type id, schema version,
/// codec id and action count.
pub const MIN_HEADER_LEN: usize = 30;

/// Length of one action header: id, flags and parameter length.
pub const ACTION_HEADER_LEN: usize = 5;

/// The eight magic bytes "PGDEBYTE".
pub open spec fn magic() -> Seq<u8> {
    seq![0x50u8, 0x47u8, 0x44u8, 0x45u8, 0x42u8, 0x59u8, 0x54u8, 0x45u8]
}

/// The 16-bit value of two little-endian bytes.
pub open spec fn le16(lo: u8, hi: u8) -> u16 {
    (lo as int + 256 * hi as int) as u16
}

/// The two little-endian bytes of a 16-bit value.
pub open spec fn le16_bytes(v: u16) -> Seq<u8> {
    seq![(v % 256) as u8, (v / 256) as u8]
}

/// Wire form of one action step.
pub open spec fn action_bytes(a: ActionModel) -> Seq<u8> {
    le16_bytes(a.0) + seq![a.1] + le16_bytes(a.2.len() as u16) + a.2
}

/// Wire form of an action table, steps in order.
pub open spec fn actions_bytes(acts: Seq<ActionModel>) -> Seq<u8>
    decreases acts.len(),
{
    if acts.len() == 0 {
        Seq::empty()
    } else {
        action_bytes(acts[0]) + actions_bytes(acts.drop_first())
    }
}

/// The bytes of the envelope that carries these parts.
pub open spec fn envelope_bytes(
    key: TypeKey,
    codec_id: u16,
    acts: Seq<ActionModel>,
    payload: Seq<u8>,
) -> Seq<u8> {
    magic() + seq![ENVELOPE_VERSION] + key.type_id@ + le16_bytes(key.schema_version)
        + le16_bytes(codec_id) + seq![acts.len() as u8] + actions_bytes(acts) + payload
}

/// Reads `n` action steps starting at `off`: the steps and the offset just
/// past them, or the reason why the table runs past the end of `s`.
pub open spec fn parse_actions(s: Seq<u8>, off: int, n: nat) -> Result<
    (Seq<ActionModel>, int),
    &'static str,
>
    decreases n,
{
    if n == 0 {
        Ok((Seq::empty(), off))
    } else if s.len() < off + 5 {
        Err("action header out of bounds")
    } else {
        let plen = le16(s[off + 3], s[off + 4]) as int;
        if s.len() < off + 5 + plen {
            Err("params out of bounds")
        } else {
            let a: ActionModel = (le16(s[off], s[off + 1]), s[off + 2], s.subrange(off + 5, off + 5 + plen));
            prepend_action(a, parse_actions(s, off + 5 + plen, (n - 1) as nat))
        }
    }
}

/// Puts `a` in front of the steps of a parse result.
pub open spec fn prepend_action(
    a: ActionModel,
    r: Result<(Seq<ActionModel>, int), &'static str>,
) -> Result<(Seq<ActionModel>, int), &'static str> {
    prepend_actions(seq![a], r)
}

/// Puts `acc` in front of the steps of a parse result.
pub open spec fn prepend_actions(
    acc: Seq<ActionModel>,
    r: Result<(Seq<ActionModel>, int), &'static str>,
) -> Result<(Seq<ActionModel>, int), &'static str> {
    match r {
        Ok((rest, end)) => Ok((acc + rest, end)),
        Err(e) => Err(e),
    }
}

/// Whether `s` is too short for a header or does not start with the magic.
pub open spec fn no_envelope(s: Seq<u8>) -> bool {
    s.len() < MIN_HEADER_LEN || s.subrange(0, 8) != magic()
}

/// The action table of an envelope whose header is complete.
pub open spec fn header_actions(s: Seq<u8>) -> Result<(Seq<ActionModel>, int), &'static str> {
    parse_actions(s, MIN_HEADER_LEN as int, s[29] as nat)
}

/// A parsed envelope; the payload is copied out of the input.
#[derive(Debug)]
pub struct EnvelopeView {
    pub key: TypeKey,
    pub codec_id: u16,
    pub actions: Vec<ActionSpec>,
    pub payload: Vec<u8>,
}

/// The outcome of looking for an envelope: none, or the parsed envelope.
#[derive(Debug)]
pub enum ParsedEnvelope {
    NoEnvelope,
    Envelope(EnvelopeView),
}

/// Whether `v` is what an envelope with these parts parses to.
pub open spec fn view_holds(
    v: EnvelopeView,
    key: TypeKey,
    codec_id: u16,
    acts: Seq<ActionModel>,
    payload: Seq<u8>,
) -> bool {
    &&& v.key.same(key)
    &&& v.codec_id == codec_id
    &&& actions_model(v.actions@) == acts
    &&& v.payload@ == payload
}

/// Whether `r` is the outcome that the wire format prescribes for `s`.
pub open spec fn parsed_as(s: Seq<u8>, r: Result<ParsedEnvelope, DecodeError>) -> bool {
    if no_envelope(s) {
        r matches Ok(ParsedEnvelope::NoEnvelope)
    } else if s[8] != ENVELOPE_VERSION {
        r == Err::<ParsedEnvelope, DecodeError>(
            DecodeError::BadEnvelope("unsupported envelope version"),
        )
    } else {
        match header_actions(s) {
            Err(msg) => r == Err::<ParsedEnvelope, DecodeError>(DecodeError::BadEnvelope(msg)),
            Ok((acts, end)) => match r {
                Ok(ParsedEnvelope::Envelope(v)) => {
                    &&& v.key.type_id@ == s.subrange(9, 25)
                    &&& v.key.schema_version == le16(s[25], s[26])
                    &&& v.codec_id == le16(s[27], s[28])
                    &&& actions_model(v.actions@) == acts
                    &&& v.payload@ == s.subrange(end, s.len() as int)
                },
                _ => false,
            },
        }
    }
}

fn read_le16(input: &[u8], off: usize) -> (r: u16)
    requires
        off + 2 <= input@.len(),
    ensures
        r == le16(input@[off as int], input@[off as int + 1]),
{
    let lo = input[off];
    let hi = input[off + 1];
    lo as u16 + 256 * (hi as u16)
}

fn starts_with_magic(input: &[u8]) -> (r: bool)
    requires
        input@.len() >= 8,
    ensures
        r == (input@.subrange(0, 8) == magic()),
{
    let expected: [u8; 8] = [0x50, 0x47, 0x44, 0x45, 0x42, 0x59, 0x54, 0x45];
    assert(expected@ =~= magic());
    let mut i: usize = 0;
    while i < 8
        invariant
            0 <= i <= 8,
            input@.len() >= 8,
            expected@ == magic(),
            forall|j: int| 0 <= j < i ==> input@[j] == magic()[j],
        decreases 8 - i,
    {
        if input[i] != expected[i] {
            assert(input@.subrange(0, 8)[i as int] != magic()[i as int]);
            return false;
        }
        i = i + 1;
    }
    assert(input@.subrange(0, 8) =~= magic());
    true
}

fn read_type_id(input: &[u8]) -> (r: [u8; 16])
    requires
        input@.len() >= 25,
    ensures
        r@ == input@.subrange(9, 25),
{
    let mut id: [u8; 16] = [0u8; 16];
    let mut i: usize = 0;
    while i < 16
        invariant
            0 <= i <= 16,
            input@.len() >= 25,
            id@.len() == 16,
            forall|j: int| 0 <= j < i ==> id@[j] == input@[9 + j],
        decreases 16 - i,
    {
        id[i] = input[9 + i];
        i = i + 1;
    }
    assert(id@ =~= input@.subrange(9, 25));
    id
}

/// Looks for an envelope at the start of `input`. Input that is too short
/// or lacks the magic is not an envelope, which is not an error; once the
/// magic matches, an unknown version or a length that runs past the end
/// is an error.
pub fn try_parse(input: &[u8]) -> (r: Result<ParsedEnvelope, DecodeError>)
    ensures
        parsed_as(input@, r),
{
    let s = Ghost(input@);
    if input.len() < MIN_HEADER_LEN {
        return Ok(ParsedEnvelope::NoEnvelope);
    }
    if !starts_with_magic(input) {
        return Ok(ParsedEnvelope::NoEnvelope);
    }
    if input[8] != ENVELOPE_VERSION {
        return Err(DecodeError::BadEnvelope("unsupported envelope version"));
    }
    let type_id = read_type_id(input);
    let schema_version = read_le16(input, 25);
    let codec_id = read_le16(input, 27);
    let actions_count = input[29];
    let mut offset: usize = MIN_HEADER_LEN;
    let mut actions: Vec<ActionSpec> = Vec::new();
    let mut k: u8 = 0;
    while k < actions_count
        invariant
            s@ == input@,
            !no_envelope(input@),
            input@[8] == ENVELOPE_VERSION,
            actions_count == input@[29],
            0 <= k <= actions_count,
            MIN_HEADER_LEN <= offset <= input@.len(),
            header_actions(s@) == prepend_actions(
                actions_model(actions@),
                parse_actions(s@, offset as int, (actions_count - k) as nat),
            ),
        decreases actions_count - k,
    {
        let ghost before = actions_model(actions@);
        let ghost rem = (actions_count - k) as nat;
        if input.len() - offset < ACTION_HEADER_LEN {
            assert(parse_actions(s@, offset as int, rem) == Err::<(Seq<ActionModel>, int), &'static str>("action header out of bounds"));
            return Err(DecodeError::BadEnvelope("action header out of bounds"));
        }
        let action_id = read_le16(input, offset);
        let flags = input[offset + 2];
        let params_len = read_le16(input, offset + 3) as usize;
        offset = offset + ACTION_HEADER_LEN;
        if input.len() - offset < params_len {
            assert(parse_actions(s@, offset - 5, rem) == Err::<(Seq<ActionModel>, int), &'static str>("params out of bounds"));
            return Err(DecodeError::BadEnvelope("params out of bounds"));
        }
        let params = slice_to_vec(slice_subrange(input, offset, offset + params_len));
        let ghost a: ActionModel = (action_id, flags, params@);
        let ghost tail = parse_actions(s@, (offset + params_len) as int, (rem - 1) as nat);
        assert(a == (le16(s@[offset - 5], s@[offset - 4]), s@[offset - 3], s@.subrange(
            offset as int,
            offset + params_len,
        )));
        assert(parse_actions(s@, offset - 5, rem) == prepend_action(a, tail));
        offset = offset + params_len;
        actions.push(ActionSpec::new(action_id, flags, params));
        k = k + 1;
        assert(actions_model(actions@) =~= before.push(a));
        assert(prepend_actions(before, prepend_action(a, tail)) == prepend_actions(
            actions_model(actions@),
            tail,
        )) by {
            match tail {
                Ok((rest, end)) => {
                    assert(before + (seq![a] + rest) =~= before.push(a) + rest);
                },
                Err(e) => {},
            }
        }
    }
    assert(actions_model(actions@) + Seq::empty() =~= actions_model(actions@));
    let payload = slice_to_vec(slice_subrange(input, offset, input.len()));
    let key = TypeKey { type_id, schema_version };
    Ok(ParsedEnvelope::Envelope(EnvelopeView { key, codec_id, actions, payload }))
}

fn push_le16(out: &mut Vec<u8>, v: u16)
    ensures
        final(out)@ == old(out)@ + le16_bytes(v),
{
    out.push((v % 256) as u8);
    out.push((v / 256) as u8);
    assert(final(out)@ =~= old(out)@ + le16_bytes(v));
}

fn push_bytes(out: &mut Vec<u8>, src: &[u8])
    ensures
        final(out)@ == old(out)@ + src@,
{
    let ghost start = out@;
    let mut i: usize = 0;
    while i < src.len()
        invariant
            0 <= i <= src@.len(),
            out@ == start + src@.subrange(0, i as int),
        decreases src@.len() - i,
    {
        out.push(src[i]);
        i = i + 1;
        assert(out@ =~= start + src@.subrange(0, i as int));
    }
    assert(src@.subrange(0, src@.len() as int) =~= src@);
}

proof fn lemma_actions_bytes_push(acts: Seq<ActionModel>, a: ActionModel)
    ensures
        actions_bytes(acts.push(a)) == actions_bytes(acts) + action_bytes(a),
    decreases acts.len(),
{
    if acts.len() == 0 {
        assert(acts.push(a).drop_first() =~= Seq::<ActionModel>::empty());
        assert(acts.push(a)[0] == a);
        assert(actions_bytes(Seq::<ActionModel>::empty()) == Seq::<u8>::empty());
        assert(actions_bytes(acts) == Seq::<u8>::empty());
        assert(actions_bytes(acts.push(a)) =~= actions_bytes(acts) + action_bytes(a));
    } else {
        assert(acts.push(a).drop_first() =~= acts.drop_first().push(a));
        let p = acts.push(a);
        assert(p[0] == acts[0]);
        assert(actions_bytes(p) == action_bytes(p[0]) + actions_bytes(p.drop_first()));
        assert(actions_bytes(acts) == action_bytes(acts[0]) + actions_bytes(acts.drop_first()));
        lemma_actions_bytes_push(acts.drop_first(), a);
        assert(actions_bytes(acts.push(a)) =~= actions_bytes(acts) + action_bytes(a));
    }
}

/// Writes the envelope that carries `key`, `codec_id`, the action table
/// and `payload`. The action count is written as its low eight bits and
/// each parameter length as its low sixteen bits; the payload is not
/// checked.
pub fn build_envelope(key: TypeKey, codec_id: u16, actions: &[ActionSpec], payload: &[u8]) -> (r:
    Vec<u8>)
    ensures
        r@ == envelope_bytes(key, codec_id, actions_model(actions@), payload@),
{
    let mut output: Vec<u8> = Vec::new();
    let magic_bytes: [u8; 8] = [0x50, 0x47, 0x44, 0x45, 0x42, 0x59, 0x54, 0x45];
    assert(magic_bytes@ =~= magic());
    push_bytes(&mut output, &magic_bytes);
    output.push(ENVELOPE_VERSION);
    push_bytes(&mut output, &key.type_id);
    push_le16(&mut output, key.schema_version);
    push_le16(&mut output, codec_id);
    output.push(actions.len() as u8);
    let ghost head = output@;
    assert(head =~= magic() + seq![ENVELOPE_VERSION] + key.type_id@ + le16_bytes(
        key.schema_version,
    ) + le16_bytes(codec_id) + seq![actions@.len() as u8]);
    let mut i: usize = 0;
    while i < actions.len()
        invariant
            0 <= i <= actions@.len(),
            output@ == head + actions_bytes(actions_model(actions@.subrange(0, i as int))),
        decreases actions@.len() - i,
    {
        let action = &actions[i];
        let ghost prev = actions_model(actions@.subrange(0, i as int));
        push_le16(&mut output, action.id);
        output.push(action.flags);
        push_le16(&mut output, action.params.len() as u16);
        push_bytes(&mut output, action.params.as_slice());
        proof {
            lemma_actions_bytes_push(prev, action@);
            assert(actions_model(actions@.subrange(0, i + 1)) =~= prev.push(action@));
        }
        i = i + 1;
        assert(output@ =~= head + actions_bytes(actions_model(actions@.subrange(0, i as int))));
    }
    assert(actions@.subrange(0, actions@.len() as int) =~= actions@);
    push_bytes(&mut output, payload);
    assert(output@ =~= envelope_bytes(key, codec_id, actions_model(actions@), payload@));
    output
}

pub(crate) proof fn lemma_le16_round_trip(v: u16)
    ensures
        le16(le16_bytes(v)[0], le16_bytes(v)[1]) == v,
{
}

/// Whether every step's parameters fit the 16-bit length field.
pub open spec fn params_fit(acts: Seq<ActionModel>) -> bool {
    forall|i: int| 0 <= i < acts.len() ==> (#[trigger] acts[i]).2.len() <= 0xffff
}

pub(crate) proof fn lemma_parse_actions_bytes(s: Seq<u8>, off: int, acts: Seq<ActionModel>)
    requires
        0 <= off,
        off + actions_bytes(acts).len() <= s.len(),
        s.subrange(off, off + actions_bytes(acts).len()) == actions_bytes(acts),
        params_fit(acts),
    ensures
        parse_actions(s, off, acts.len()) == Ok::<(Seq<ActionModel>, int), &'static str>(
            (acts, off + actions_bytes(acts).len()),
        ),
    decreases acts.len(),
{
    if acts.len() == 0 {
        assert(acts =~= Seq::<ActionModel>::empty());
    } else {
        let a = acts[0];
        let rest = acts.drop_first();
        let ab = action_bytes(a);
        let total = actions_bytes(acts);
        assert(total == ab + actions_bytes(rest));
        let plen = a.2.len() as int;
        assert(acts[0].2.len() <= 0xffff);
        assert(ab.len() == 5 + plen);
        assert forall|j: int| 0 <= j < ab.len() implies s[off + j] == ab[j] by {
            assert(s.subrange(off, off + total.len())[j] == total[j]);
        }
        lemma_le16_round_trip(a.0);
        lemma_le16_round_trip(plen as u16);
        assert(ab[0] == le16_bytes(a.0)[0]);
        assert(ab[1] == le16_bytes(a.0)[1]);
        assert(ab[3] == le16_bytes(plen as u16)[0]);
        assert(ab[4] == le16_bytes(plen as u16)[1]);
        assert(s[off] == ab[0]);
        assert(s[off + 1] == ab[1]);
        assert(s[off + 2] == ab[2]);
        assert(ab[2] == a.1);
        assert(s[off + 3] == ab[3]);
        assert(s[off + 4] == ab[4]);
        assert(le16(s[off], s[off + 1]) == a.0);
        assert(le16(s[off + 3], s[off + 4]) == plen as u16);
        assert forall|j: int| 0 <= j < plen implies s[off + 5 + j] == a.2[j] by {
            assert(ab[5 + j] == a.2[j]);
        }
        assert(s.subrange(off + 5, off + 5 + plen) =~= a.2);
        assert forall|i: int| 0 <= i < rest.len() implies (#[trigger] rest[i]).2.len() <= 0xffff by {
            assert(rest[i] == acts[i + 1]);
        }
        assert(s.subrange(off + ab.len(), off + ab.len() + actions_bytes(rest).len())
            =~= actions_bytes(rest)) by {
            assert forall|j: int| 0 <= j < actions_bytes(rest).len() implies s[off + ab.len() + j]
                == actions_bytes(rest)[j] by {
                assert(s.subrange(off, off + total.len())[ab.len() + j] == total[ab.len() + j]);
            }
        }
        lemma_parse_actions_bytes(s, off + ab.len(), rest);
        assert(seq![a] + rest =~= acts);
        assert(rest.len() == (acts.len() - 1) as nat);
        assert((le16(s[off], s[off + 1]), s[off + 2], s.subrange(off + 5, off + 5 + plen)) == a);
        assert(off + 5 + plen + actions_bytes(rest).len() == off + total.len());
        assert(parse_actions(s, off, acts.len()) == prepend_action(
            (le16(s[off], s[off + 1]), s[off + 2], s.subrange(off + 5, off + 5 + plen)),
            parse_actions(s, off + 5 + plen, rest.len()),
        ));
    }
}

/// Parsing what `build_envelope` writes gives back its parts, for any key,
/// codec id, payload, and action table of at most 255 steps whose
/// parameters fit a 16-bit length.
pub proof fn lemma_envelope_round_trip(
    key: TypeKey,
    codec_id: u16,
    acts: Seq<ActionModel>,
    payload: Seq<u8>,
    r: Result<ParsedEnvelope, DecodeError>,
)
    requires
        acts.len() <= 255,
        params_fit(acts),
        parsed_as(envelope_bytes(key, codec_id, acts, payload), r),
    ensures
        r matches Ok(ParsedEnvelope::Envelope(v)) && view_holds(v, key, codec_id, acts, payload),
{
    let s = envelope_bytes(key, codec_id, acts, payload);
    let ab = actions_bytes(acts);
    let abl = ab.len() as int;
    let head = magic() + seq![ENVELOPE_VERSION] + key.type_id@ + le16_bytes(key.schema_version)
        + le16_bytes(codec_id) + seq![acts.len() as u8];
    assert(head.len() == 30);
    assert(s =~= head + ab + payload);
    assert(s.subrange(0, 8) =~= magic());
    assert(s[8] == ENVELOPE_VERSION);
    assert(s[29] == acts.len());
    assert(s.subrange(30, 30 + abl) =~= ab);
    lemma_parse_actions_bytes(s, 30, acts);
    assert(header_actions(s) == Ok::<(Seq<ActionModel>, int), &'static str>((acts, 30 + abl)));
    assert(s.subrange(9, 25) =~= key.type_id@);
    lemma_le16_round_trip(key.schema_version);
    lemma_le16_round_trip(codec_id);
    assert(s.subrange(30 + abl, s.len() as int) =~= payload);
}

/// Input too short for a header, or not starting with the magic, is not an
/// envelope, and that is never an error.
pub proof fn lemma_magic_mismatch_is_not_error(s: Seq<u8>, r: Result<ParsedEnvelope, DecodeError>)
    requires
        s.len() < MIN_HEADER_LEN || s.subrange(0, 8) != magic(),
        parsed_as(s, r),
    ensures
        r matches Ok(ParsedEnvelope::NoEnvelope),
{
}

/// A complete header with the magic and any version byte but the current
/// one is rejected as an unsupported version, whatever follows it.
pub proof fn lemma_version_rejected(s: Seq<u8>, r: Result<ParsedEnvelope, DecodeError>)
    requires
        s.len() >= MIN_HEADER_LEN,
        s.subrange(0, 8) == magic(),
        s[8] != ENVELOPE_VERSION,
        parsed_as(s, r),
    ensures
        r == Err::<ParsedEnvelope, DecodeError>(
            DecodeError::BadEnvelope("unsupported envelope version"),
        ),
{
}

/// The reason that parsing gives for an action table cut after `rel` of
/// its bytes: a cut inside a step's header is a header out of bounds, a
/// cut inside its parameters is parameters out of bounds.
pub open spec fn truncation_reason(acts: Seq<ActionModel>, rel: int) -> &'static str
    decreases acts.len(),
{
    if acts.len() == 0 {
        "action header out of bounds"
    } else if rel < 5 {
        "action header out of bounds"
    } else if rel < 5 + acts[0].2.len() {
        "params out of bounds"
    } else {
        truncation_reason(acts.drop_first(), rel - 5 - acts[0].2.len())
    }
}

proof fn lemma_parse_truncated(s: Seq<u8>, off: int, acts: Seq<ActionModel>, rel: int)
    requires
        0 <= off,
        0 <= rel < actions_bytes(acts).len(),
        s.len() == off + rel,
        s.subrange(off, off + rel) == actions_bytes(acts).subrange(0, rel),
        params_fit(acts),
    ensures
        parse_actions(s, off, acts.len()) == Err::<(Seq<ActionModel>, int), &'static str>(
            truncation_reason(acts, rel),
        ),
    decreases acts.len(),
{
    if acts.len() == 0 {
        assert(actions_bytes(acts).len() == 0);
    } else {
        let a = acts[0];
        let rest = acts.drop_first();
        let ab = action_bytes(a);
        let total = actions_bytes(acts);
        assert(total == ab + actions_bytes(rest));
        let plen = a.2.len() as int;
        assert(acts[0].2.len() <= 0xffff);
        assert(ab.len() == 5 + plen);
        if rel >= 5 {
            assert forall|j: int| 0 <= j < 5 implies s[off + j] == ab[j] by {
                assert(s.subrange(off, off + rel)[j] == total.subrange(0, rel)[j]);
            }
            lemma_le16_round_trip(plen as u16);
            assert(ab[3] == le16_bytes(plen as u16)[0]);
            assert(ab[4] == le16_bytes(plen as u16)[1]);
            assert(le16(s[off + 3], s[off + 4]) == plen as u16);
            if rel >= 5 + plen {
                assert forall|i: int| 0 <= i < rest.len() implies (#[trigger] rest[i]).2.len()
                    <= 0xffff by {
                    assert(rest[i] == acts[i + 1]);
                }
                let rel2 = rel - 5 - plen;
                let off2 = off + 5 + plen;
                assert(s.subrange(off2, off2 + rel2) =~= actions_bytes(rest).subrange(0, rel2)) by {
                    assert forall|j: int| 0 <= j < rel2 implies s[off2 + j] == actions_bytes(
                        rest,
                    )[j] by {
                        assert(s.subrange(off, off + rel)[ab.len() + j] == total.subrange(0, rel)[ab.len() + j]);
                    }
                }
                lemma_parse_truncated(s, off2, rest, rel2);
                assert(rest.len() == (acts.len() - 1) as nat);
            }
        }
    }
}

/// Cutting the envelope of a non-empty action table anywhere inside that
/// table fails with the reason for the step where the cut falls: a header
/// out of bounds, or parameters out of bounds.
pub proof fn lemma_truncated_action_table(
    key: TypeKey,
    codec_id: u16,
    acts: Seq<ActionModel>,
    payload: Seq<u8>,
    t: int,
    r: Result<ParsedEnvelope, DecodeError>,
)
    requires
        acts.len() <= 255,
        params_fit(acts),
        MIN_HEADER_LEN <= t < MIN_HEADER_LEN + actions_bytes(acts).len(),
        parsed_as(envelope_bytes(key, codec_id, acts, payload).subrange(0, t), r),
    ensures
        r == Err::<ParsedEnvelope, DecodeError>(
            DecodeError::BadEnvelope(truncation_reason(acts, t - MIN_HEADER_LEN)),
        ),
        truncation_reason(acts, t - MIN_HEADER_LEN) == "action header out of bounds"
            || truncation_reason(acts, t - MIN_HEADER_LEN) == "params out of bounds",
{
    let full = envelope_bytes(key, codec_id, acts, payload);
    let s = full.subrange(0, t);
    let ab = actions_bytes(acts);
    let head = magic() + seq![ENVELOPE_VERSION] + key.type_id@ + le16_bytes(key.schema_version)
        + le16_bytes(codec_id) + seq![acts.len() as u8];
    assert(head.len() == 30);
    assert(full =~= head + ab + payload);
    assert(s.subrange(0, 8) =~= magic());
    assert(s[8] == ENVELOPE_VERSION);
    assert(s[29] == acts.len());
    let rel = t - 30;
    assert(s.subrange(30, 30 + rel) =~= ab.subrange(0, rel));
    lemma_parse_truncated(s, 30, acts, rel);
    lemma_truncation_reason_kinds(acts, rel);
}

proof fn lemma_truncation_reason_kinds(acts: Seq<ActionModel>, rel: int)
    ensures
        truncation_reason(acts, rel) == "action header out of bounds" || truncation_reason(acts, rel)
            == "params out of bounds",
    decreases acts.len(),
{
    if acts.len() > 0 && rel >= 5 + acts[0].2.len() {
        lemma_truncation_reason_kinds(acts.drop_first(), rel - 5 - acts[0].2.len());
    }
}

} // verus!
