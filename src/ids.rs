use vstd::prelude::*;

verus! {

/// A version-4 (random) UUID, held as its 128-bit big-endian value.
#[derive(Clone, Copy, Debug, PartialEq, Eq, Structural)]
pub struct UUID4 {
    pub value: u128,
}

/// The version field of a UUID: bits 76 to 79 of its big-endian value.
pub open spec fn version_of(v: u128) -> u128 {
    (v >> 76u128) & 0xfu128
}

/// The variant field of a UUID: bits 62 and 63 of its big-endian value.
pub open spec fn variant_of(v: u128) -> u128 {
    (v >> 62u128) & 0x3u128
}

/// Relies on uuid's `Uuid::new_v4` and `Uuid::as_u128`: a random value whose
/// version field is 4 and whose variant field is the RFC 4122 one (binary 10).
#[verifier::external_body]
fn random_v4() -> (r: u128)
    ensures
        version_of(r) == 4,
        variant_of(r) == 2,
{
    uuid::Uuid::new_v4().as_u128()
}

impl UUID4 {
    /// A freshly drawn random identifier.
    pub fn new() -> (r: UUID4)
        ensures
            version_of(r.value) == 4,
            variant_of(r.value) == 2,
    {
        UUID4 { value: random_v4() }
    }

    /// The version field of the identifier.
    pub fn version(&self) -> (r: u8)
        ensures
            r as u128 == version_of(self.value),
    {
        let x: u128 = self.value;
        let v: u128 = (x >> 76u128) & 0xfu128;
        assert(v <= 0xf) by (bit_vector)
            requires
                v == (x >> 76u128) & 0xfu128,
        ;
        v as u8
    }
}

} // verus!
