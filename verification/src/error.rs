//! The errors of the bridge. Every one is returned to the immediate
//! caller; none is retried or recovered from.

use vstd::prelude::*;
use crate::descriptor::TypeKind;

verus! {

/// The dynamic tag of a parameter value.
#[derive(Debug, Clone, Copy, PartialEq, Eq, Structural)]
pub enum ValueKind {
    U32,
    Text,
    Uuid,
    BigInt,
    Duration,
    Decimal,
    Bool,
    Blob,
    Float,
    Varint,
    ListOf,
    SetOf,
    MapOf,
}

/// Why a parameter could not be encoded.
#[derive(Debug, Clone, Copy, PartialEq, Eq, Structural)]
pub enum EncodeError {
    /// The value's kind is incompatible with the declared wire type.
    TypeMismatch { expected: TypeKind, actual: ValueKind },
    /// The value cannot be represented in the target width without loss.
    NumericOverflow,
    /// The descriptor names a kind that the encoder does not implement.
    UnsupportedColumnType(TypeKind),
    /// The number of parameters and the number of types disagree.
    ShapeMismatch,
}

/// Why a cell could not be decoded.
#[derive(Debug, Clone, Copy, PartialEq, Eq, Structural)]
pub enum DecodeError {
    /// The descriptor names a kind that the decoder does not implement.
    UnsupportedColumnType(TypeKind),
    /// An element of a collection, a map or a record is itself composite.
    UnsupportedNesting,
    /// The key type of a map is not a text kind.
    UnsupportedMapKeyType,
    /// The bytes do not match the layout of the declared kind.
    MalformedBytes,
    /// The number of cells of a row and the number of columns disagree.
    ShapeMismatch,
}

impl EncodeError {
    /// The name of the kind of this error.
    pub open spec fn spec_name(self) -> Seq<char> {
        match self {
            EncodeError::TypeMismatch { .. } => "TypeMismatch"@,
            EncodeError::NumericOverflow => "NumericOverflow"@,
            EncodeError::UnsupportedColumnType(_) => "UnsupportedColumnType"@,
            EncodeError::ShapeMismatch => "ShapeMismatch"@,
        }
    }

    /// The name of the kind of this error, for the message that the
    /// host is shown.
    pub fn name(&self) -> (r: &'static str)
        ensures
            r@ == self.spec_name(),
    {
        match self {
            EncodeError::TypeMismatch { .. } => "TypeMismatch",
            EncodeError::NumericOverflow => "NumericOverflow",
            EncodeError::UnsupportedColumnType(_) => "UnsupportedColumnType",
            EncodeError::ShapeMismatch => "ShapeMismatch",
        }
    }
}

impl DecodeError {
    /// The name of the kind of this error.
    pub open spec fn spec_name(self) -> Seq<char> {
        match self {
            DecodeError::UnsupportedColumnType(_) => "UnsupportedColumnType"@,
            DecodeError::UnsupportedNesting => "UnsupportedNesting"@,
            DecodeError::UnsupportedMapKeyType => "UnsupportedMapKeyType"@,
            DecodeError::MalformedBytes => "MalformedBytes"@,
            DecodeError::ShapeMismatch => "ShapeMismatch"@,
        }
    }

    /// The name of the kind of this error, for the message that the
    /// host is shown.
    pub fn name(&self) -> (r: &'static str)
        ensures
            r@ == self.spec_name(),
    {
        match self {
            DecodeError::UnsupportedColumnType(_) => "UnsupportedColumnType",
            DecodeError::UnsupportedNesting => "UnsupportedNesting",
            DecodeError::UnsupportedMapKeyType => "UnsupportedMapKeyType",
            DecodeError::MalformedBytes => "MalformedBytes",
            DecodeError::ShapeMismatch => "ShapeMismatch",
        }
    }
}

} // verus!
