use crate::action::{ActionSpecRef, ByteAction};
use crate::error::DecodeError;
use crate::types::{DecodeLimits, TypeKey};
use vstd::prelude::*;

verus! {

#[verifier::external_type_specification]
#[verifier::external_body]
pub struct ExJsonValue(serde_json::Value);

/// A registered record type: its key, the codec its payloads are written
/// with, the action chain applied when the input carries none, and the
/// decoding of a payload into a generic JSON value. Entries are written
/// for each record type outside the verified code; a registry reads the
/// first three once, when it is built.
pub trait DecoderEntry {
    fn key(&self) -> TypeKey;

    fn codec_id(&self) -> u16;

    fn default_actions(&self) -> &'static [ActionSpecRef];

    /// Decodes a payload with the entry's codec into a generic value. It
    /// never reports a framing or lookup failure.
    fn decode_payload(&self, payload: &[u8], limits: &DecodeLimits) -> (r: Result<
        serde_json::Value,
        DecodeError,
    >)
        ensures
            r matches Err(e) ==> !e.is_lookup_failure(),
    ;
}

/// What a registry recorded of a decoder when it was built.
#[derive(Debug, Clone, Copy)]
pub struct DecoderSlot {
    pub key: TypeKey,
    pub codec_id: u16,
    pub default_actions: &'static [ActionSpecRef],
}

/// A decoder entry held with what was read of it when it was wrapped: its
/// key, codec id and default chain.
pub struct KnownSchema<E> {
    entry: E,
    slot: DecoderSlot,
}

impl<E: DecoderEntry> KnownSchema<E> {
    pub closed spec fn entry(&self) -> E {
        self.entry
    }

    /// What was read of the entry when it was wrapped.
    pub closed spec fn slot(&self) -> DecoderSlot {
        self.slot
    }

    /// Wraps `entry`, reading its key, codec id and default chain once.
    pub fn new(entry: E) -> (r: Self)
        ensures
            r.entry() == entry,
    {
        let slot = DecoderSlot {
            key: entry.key(),
            codec_id: entry.codec_id(),
            default_actions: entry.default_actions(),
        };
        Self { entry, slot }
    }

    pub fn entry_ref(&self) -> (r: &E)
        ensures
            *r == self.entry(),
    {
        &self.entry
    }

    /// The default chain read from the entry.
    pub fn default_actions(&self) -> (r: &'static [ActionSpecRef])
        ensures
            r@ == self.slot().default_actions@,
    {
        self.slot.default_actions
    }
}

/// A fixed table of decoders and action handlers, searched in order; the
/// first entry that matches answers a lookup.
pub struct StaticRegistry<D, A> {
    decoders: Vec<D>,
    slots: Vec<DecoderSlot>,
    actions: Vec<A>,
}

impl<D, A> StaticRegistry<D, A> {
    /// One recorded slot for each decoder.
    #[verifier::type_invariant]
    spec fn slot_per_decoder(&self) -> bool {
        self.slots@.len() == self.decoders@.len()
    }
}

impl<D: DecoderEntry, A: ByteAction> StaticRegistry<D, A> {
    pub closed spec fn decoders(&self) -> Seq<D> {
        self.decoders@
    }

    /// The key, codec id and default chain of each decoder, in order.
    pub closed spec fn slots(&self) -> Seq<DecoderSlot> {
        self.slots@
    }

    pub closed spec fn actions(&self) -> Seq<A> {
        self.actions@
    }

    /// Whether entry `i` is the first decoder whose key has these bytes and
    /// this schema version.
    pub open spec fn first_decoder(&self, type_id: Seq<u8>, schema_version: u16, i: int) -> bool {
        &&& 0 <= i < self.slots().len()
        &&& self.slots()[i].key.type_id@ == type_id
        &&& self.slots()[i].key.schema_version == schema_version
        &&& forall|j: int|
            0 <= j < i ==> !(#[trigger] self.slots()[j].key.type_id@ == type_id
                && self.slots()[j].key.schema_version == schema_version)
    }

    /// Whether some decoder is registered for the key.
    pub open spec fn knows_type(&self, type_id: Seq<u8>, schema_version: u16) -> bool {
        exists|i: int|
            0 <= i < self.slots().len() && (#[trigger] self.slots()[i].key).type_id@ == type_id
                && self.slots()[i].key.schema_version == schema_version
    }

    /// Whether entry `i` is the first action handler with this id.
    pub open spec fn first_action(&self, id: u16, i: int) -> bool {
        &&& 0 <= i < self.actions().len()
        &&& self.actions()[i].spec_id() == id
        &&& forall|j: int| 0 <= j < i ==> (#[trigger] self.actions()[j].spec_id()) != id
    }

    /// Whether some handler is registered under the id.
    pub open spec fn knows_action(&self, id: u16) -> bool {
        exists|i: int| 0 <= i < self.actions().len() && (#[trigger] self.actions()[i].spec_id()) == id
    }

    /// The handler that a lookup of `id` finds.
    pub open spec fn action_for(&self, id: u16) -> A {
        self.actions()[choose|i: int| self.first_action(id, i)]
    }

    /// Builds the registry, recording each decoder's key, codec id and
    /// default chain.
    pub fn new(decoders: Vec<D>, actions: Vec<A>) -> (r: Self)
        ensures
            r.decoders() == decoders@,
            r.slots().len() == decoders@.len(),
            r.actions() == actions@,
    {
        let mut slots: Vec<DecoderSlot> = Vec::new();
        let mut i: usize = 0;
        while i < decoders.len()
            invariant
                0 <= i <= decoders@.len(),
                slots@.len() == i,
            decreases decoders@.len() - i,
        {
            let d = &decoders[i];
            slots.push(
                DecoderSlot {
                    key: d.key(),
                    codec_id: d.codec_id(),
                    default_actions: d.default_actions(),
                },
            );
            i = i + 1;
        }
        Self { decoders, slots, actions }
    }

    /// The index of the first decoder registered for `key`, if any.
    pub fn find_decoder(&self, key: TypeKey) -> (r: Option<usize>)
        ensures
            match r {
                Some(i) => self.first_decoder(key.type_id@, key.schema_version, i as int) && i
                    < self.decoders().len(),
                None => !self.knows_type(key.type_id@, key.schema_version),
            },
    {
        proof {
            use_type_invariant(self);
        }
        let mut i: usize = 0;
        while i < self.slots.len()
            invariant
                0 <= i <= self.slots@.len(),
                self.slots@.len() == self.decoders@.len(),
                forall|j: int|
                    0 <= j < i ==> !(#[trigger] self.slots@[j].key.type_id@ == key.type_id@
                        && self.slots@[j].key.schema_version == key.schema_version),
            decreases self.slots@.len() - i,
        {
            let k = self.slots[i].key;
            if k == key {
                return Some(i);
            }
            i = i + 1;
        }
        None
    }

    /// The decoder at `i`.
    pub fn decoder_at(&self, i: usize) -> (r: &D)
        requires
            i < self.decoders().len(),
        ensures
            *r == self.decoders()[i as int],
    {
        &self.decoders[i]
    }

    /// What was recorded of the decoder at `i`.
    pub fn slot_at(&self, i: usize) -> (r: &DecoderSlot)
        requires
            i < self.slots().len(),
        ensures
            *r == self.slots()[i as int],
    {
        &self.slots[i]
    }

    /// The first decoder registered for `key`, if any.
    pub fn lookup_decoder(&self, key: TypeKey) -> (r: Option<&D>)
        ensures
            match r {
                Some(d) => exists|i: int|
                    self.first_decoder(key.type_id@, key.schema_version, i) && *d
                        == self.decoders()[i],
                None => !self.knows_type(key.type_id@, key.schema_version),
            },
    {
        match self.find_decoder(key) {
            Some(i) => Some(&self.decoders[i]),
            None => None,
        }
    }
    /// The first action handler registered under `id`, if any.
    pub fn lookup_action(&self, id: u16) -> (r: Option<&A>)
        ensures
            match r {
                Some(a) => self.knows_action(id) && *a == self.action_for(id),
                None => !self.knows_action(id),
            },
    {
        let mut i: usize = 0;
        while i < self.actions.len()
            invariant
                0 <= i <= self.actions@.len(),
                forall|j: int| 0 <= j < i ==> (#[trigger] self.actions@[j].spec_id()) != id,
            decreases self.actions@.len() - i,
        {
            if self.actions[i].id() == id {
                proof {
                    assert(self.first_action(id, i as int));
                    let c = choose|c: int| self.first_action(id, c);
                    if c < i {
                        assert(self.actions()[c].spec_id() != id);
                    } else if c > i {
                        assert(self.actions()[i as int].spec_id() != id);
                    }
                    assert(c == i);
                }
                return Some(&self.actions[i]);
            }
            i = i + 1;
        }
        None
    }
}

} // verus!
