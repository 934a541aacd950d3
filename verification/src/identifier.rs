use crate::codec::{bytes32_eq, bytes32_of, read_bytes32};
use vstd::prelude::*;

verus! {

/// A 32-byte identifier of a principal, an asset or a record.
///
/// The identifier whose bytes are all zero is the "unset" sentinel: a field
/// that holds it names nothing.
#[derive(Clone, Copy, Debug, Eq)]
pub struct Identifier {
    pub bytes: [u8; 32],
}

impl View for Identifier {
    type V = Seq<u8>;

    open spec fn view(&self) -> Seq<u8> {
        self.bytes@
    }
}

impl Identifier {
    /// The zero identifier, as a mathematical value.
    pub open spec fn zero_spec() -> Identifier {
        Identifier { bytes: vstd::array::spec_array_fill_for_copy_type::<u8, 32>(0u8) }
    }

    /// The identifier that holds the first 32 bytes of `s`.
    pub open spec fn from_seq(s: Seq<u8>) -> Identifier {
        Identifier { bytes: bytes32_of(s) }
    }

    /// An identifier made of the given bytes.
    pub fn new(bytes: [u8; 32]) -> (id: Identifier)
        ensures
            id.bytes == bytes,
    {
        Identifier { bytes }
    }

    /// The zero identifier.
    #[verifier::when_used_as_spec(zero_spec)]
    pub fn zero() -> (id: Identifier)
        ensures
            id == Identifier::zero_spec(),
    {
        Identifier { bytes: [0u8; 32] }
    }

    /// Tells whether this is the zero identifier.
    pub fn is_zero(&self) -> (r: bool)
        ensures
            r == (*self == Identifier::zero()),
    {
        *self == Identifier::zero()
    }

    /// Reads the identifier that the 32 bytes of `data` from `at` on hold.
    pub fn read(data: &[u8], at: usize) -> (id: Identifier)
        requires
            at + 32 <= data.len(),
        ensures
            id == Identifier::from_seq(data@.subrange(at as int, at + 32)),
    {
        Identifier { bytes: read_bytes32(data, at) }
    }

    /// The zero identifier is the one whose every byte is zero.
    pub proof fn lemma_zero_bytes(a: Identifier)
        ensures
            a == Identifier::zero() <==> (forall|i: int| 0 <= i < 32 ==> a.bytes@[i] == 0u8),
    {
        if forall|i: int| 0 <= i < 32 ==> a.bytes@[i] == 0u8 {
            assert(a.bytes =~= Identifier::zero().bytes);
        }
    }
}

impl PartialEq for Identifier {
    /// Tells whether two identifiers hold the same bytes.
    fn eq(&self, other: &Identifier) -> (r: bool) {
        bytes32_eq(&self.bytes, &other.bytes)
    }
}

impl vstd::std_specs::cmp::PartialEqSpecImpl for Identifier {
    open spec fn obeys_eq_spec() -> bool {
        true
    }

    open spec fn eq_spec(&self, other: &Identifier) -> bool {
        self.bytes == other.bytes
    }
}

impl Default for Identifier {
    /// The zero identifier.
    fn default() -> (id: Identifier)
        ensures
            id == Identifier::zero(),
    {
        Identifier::zero()
    }
}

} // verus!
