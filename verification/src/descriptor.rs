//! Wire type descriptors: the server-declared type of a column or of a
//! parameter slot.

use vstd::prelude::*;

verus! {

/// The scalar kinds of the protocol.
#[derive(Debug, Clone, Copy, PartialEq, Eq, Structural)]
pub enum ScalarKind {
    Ascii,
    Text,
    Boolean,
    TinyInt,
    SmallInt,
    Int,
    BigInt,
    Float,
    Double,
    Blob,
    Inet,
    Varint,
    Decimal,
    Duration,
    Timestamp,
    Date,
    Time,
    Uuid,
    Timeuuid,
    Counter,
}

/// What a descriptor is at its top level; errors carry it.
#[derive(Debug, Clone, Copy, PartialEq, Eq, Structural)]
pub enum TypeKind {
    Scalar(ScalarKind),
    ListOf,
    SetOf,
    MapOf,
    TupleOf,
    Record,
}

/// A recursive description of a column's protocol type. The order of a
/// record's fields is the order declared by the server and is the order
/// of the fields on the wire.
#[derive(Debug, PartialEq, Eq)]
pub enum WireType {
    Scalar(ScalarKind),
    ListOf(Box<WireType>),
    SetOf(Box<WireType>),
    MapOf(Box<WireType>, Box<WireType>),
    TupleOf(Vec<WireType>),
    Record { keyspace: String, name: String, fields: Vec<(String, WireType)> },
}

/// The name and the type of one column of a result set.
#[derive(Debug, PartialEq, Eq)]
pub struct ColumnSpec {
    pub name: String,
    pub typ: WireType,
}

impl WireType {
    /// The top-level kind of this descriptor.
    pub open spec fn spec_kind(self) -> TypeKind {
        match self {
            WireType::Scalar(k) => TypeKind::Scalar(k),
            WireType::ListOf(_) => TypeKind::ListOf,
            WireType::SetOf(_) => TypeKind::SetOf,
            WireType::MapOf(_, _) => TypeKind::MapOf,
            WireType::TupleOf(_) => TypeKind::TupleOf,
            WireType::Record { .. } => TypeKind::Record,
        }
    }

    /// The top-level kind of this descriptor.
    pub fn kind(&self) -> (r: TypeKind)
        ensures
            r == self.spec_kind(),
    {
        match self {
            WireType::Scalar(k) => TypeKind::Scalar(*k),
            WireType::ListOf(_) => TypeKind::ListOf,
            WireType::SetOf(_) => TypeKind::SetOf,
            WireType::MapOf(_, _) => TypeKind::MapOf,
            WireType::TupleOf(_) => TypeKind::TupleOf,
            WireType::Record { .. } => TypeKind::Record,
        }
    }

    /// Whether this descriptor is a text kind, the only kinds that a map's
    /// key may have on the result side.
    pub open spec fn spec_is_text(self) -> bool {
        self == WireType::Scalar(ScalarKind::Ascii) || self == WireType::Scalar(ScalarKind::Text)
    }

    /// Whether this descriptor is a text kind.
    pub fn is_text(&self) -> (r: bool)
        ensures
            r == self.spec_is_text(),
    {
        match self {
            WireType::Scalar(ScalarKind::Ascii) => true,
            WireType::Scalar(ScalarKind::Text) => true,
            _ => false,
        }
    }
}

} // verus!
