use vstd::prelude::*;

verus! {

/// Why bytes were not accepted as a record, or a record not written.
#[derive(Clone, Copy, Debug, PartialEq, Eq, Structural)]
pub enum RecordError {
    /// The bytes are too few to hold a discriminator tag.
    DiscriminatorNotFound,
    /// The bytes begin with the tag of another record type.
    DiscriminatorMismatch,
    /// The bytes after the tag do not hold the fields: they are too few, or a
    /// flag is neither 0 nor 1.
    DidNotDeserialize,
    /// The record belongs to a foreign registry and is never written here.
    ForeignRecord,
}

} // verus!
