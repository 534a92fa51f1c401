use vstd::prelude::*;

verus! {

/// Identifies a registered record type: the 16 bytes of a UUID and a
/// schema version.
#[derive(Debug, Clone, Copy, Hash)]
pub struct TypeKey {
    pub type_id: [u8; 16],
    pub schema_version: u16,
}

impl TypeKey {
    /// Two keys are the same when both the identifier bytes and the schema
    /// version agree.
    pub open spec fn same(self, other: TypeKey) -> bool {
        self.type_id@ == other.type_id@ && self.schema_version == other.schema_version
    }
}

impl PartialEq for TypeKey {
    fn eq(&self, other: &TypeKey) -> (r: bool) {
        if self.schema_version != other.schema_version {
            return false;
        }
        let mut i: usize = 0;
        while i < 16
            invariant
                0 <= i <= 16,
                self.type_id@.len() == 16,
                other.type_id@.len() == 16,
                forall|j: int| 0 <= j < i ==> self.type_id@[j] == other.type_id@[j],
            decreases 16 - i,
        {
            if self.type_id[i] != other.type_id[i] {
                return false;
            }
            i = i + 1;
        }
        assert(self.type_id@ =~= other.type_id@);
        true
    }
}

impl vstd::std_specs::cmp::PartialEqSpecImpl for TypeKey {
    open spec fn obeys_eq_spec() -> bool {
        true
    }

    open spec fn eq_spec(&self, other: &TypeKey) -> bool {
        self.same(*other)
    }
}

impl Eq for TypeKey {
}

/// Byte ceilings that a decode call enforces.
#[derive(Debug, Clone, Copy)]
pub struct DecodeLimits {
    pub max_input_bytes: usize,
    pub max_output_bytes: usize,
    pub max_json_bytes: usize,
}

impl DecodeLimits {
    pub fn new(max_input_bytes: usize, max_output_bytes: usize, max_json_bytes: usize) -> (r:
        Self)
        ensures
            r.max_input_bytes == max_input_bytes,
            r.max_output_bytes == max_output_bytes,
            r.max_json_bytes == max_json_bytes,
    {
        Self { max_input_bytes, max_output_bytes, max_json_bytes }
    }
}

/// Byte ceiling that an encode call enforces.
#[derive(Debug, Clone, Copy)]
pub struct EncodeLimits {
    pub max_output_bytes: usize,
}

impl EncodeLimits {
    pub fn new(max_output_bytes: usize) -> (r: Self)
        ensures
            r.max_output_bytes == max_output_bytes,
    {
        Self { max_output_bytes }
    }
}

/// Builds decode limits from three configured ceilings, each of which is a
/// non-negative 32-bit setting.
pub fn limits(max_input_bytes: i32, max_output_bytes: i32, max_json_bytes: i32) -> (r:
    DecodeLimits)
    requires
        max_input_bytes >= 0,
        max_output_bytes >= 0,
        max_json_bytes >= 0,
    ensures
        r.max_input_bytes == max_input_bytes,
        r.max_output_bytes == max_output_bytes,
        r.max_json_bytes == max_json_bytes,
{
    DecodeLimits::new(max_input_bytes as usize, max_output_bytes as usize, max_json_bytes as usize)
}

} // verus!
