use vstd::prelude::*;

verus! {

/// Why a schema was refused or a record could not be appended.
#[derive(Clone, Copy, Debug, PartialEq, Eq, Structural)]
pub enum EncodeError {
    /// The schema description is no record, or holds a construct that is
    /// not supported.
    SchemaConstruction,
    /// The host record does not have the shape that the mapping policy
    /// expects.
    Mapping,
    /// A value's kind differs from the declared primitive kind, or a value
    /// that is no record stands where a record is declared.
    TypeMismatch,
    /// A record value has extra or missing fields.
    RecordShapeMismatch,
    /// No member of a union matches the value.
    UnionMismatch,
    /// An internal failure of the encoder. The encoder is total, so no
    /// function of this library returns it.
    Encoding,
}

} // verus!
