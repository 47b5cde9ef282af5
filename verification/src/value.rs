//! The dynamic value model: what the host supplies as a parameter and
//! what it gets back as a result.

use vstd::prelude::*;
use crate::error::ValueKind;
use crate::types::decimal::Decimal;
use crate::types::duration::Duration;
use crate::types::uuid::Uuid;
use crate::types::varint::Varint;

verus! {

/// A parameter value of any supported kind. A `Float` holds the bits of
/// an IEEE 754 single-precision number. A `MapOf` serves both for a map
/// with text keys and for a record; the declared wire type tells which.
#[derive(Debug, PartialEq, Eq)]
pub enum ParameterValue {
    U32(u32),
    Text(String),
    Uuid(Uuid),
    BigInt(i64),
    Duration(Duration),
    Decimal(Decimal),
    Bool(bool),
    Blob(Vec<u8>),
    Float(u32),
    Varint(Varint),
    ListOf(Vec<ParameterValue>),
    SetOf(Vec<ParameterValue>),
    MapOf(Vec<(String, ParameterValue)>),
}

/// A result value that holds no other value. A `Double` holds the bits
/// of an IEEE 754 double-precision number.
#[derive(Debug, PartialEq, Eq)]
pub enum BaseValue {
    Text(String),
    Int(i64),
    Double(u64),
    Bool(bool),
    Varint(Varint),
    Uuid(Uuid),
    Duration(Duration),
    Decimal(Decimal),
    Bytes(Vec<u8>),
}

/// A result value: a base value, a list of base values, or named base
/// values in the order in which they were decoded.
#[derive(Debug, PartialEq, Eq)]
pub enum ResultValue {
    Scalar(BaseValue),
    ListOf(Vec<BaseValue>),
    MapOf(Vec<(String, BaseValue)>),
}

/// What a base value is, apart from how it is stored.
pub enum BaseModel {
    Text(Seq<char>),
    Int(i64),
    Double(u64),
    Bool(bool),
    Varint(Seq<u8>),
    Uuid(u128),
    Duration(Duration),
    Decimal(Seq<u8>, i32),
    Bytes(Seq<u8>),
}

/// What a result value is, apart from how it is stored.
pub enum ResultModel {
    Scalar(BaseModel),
    ListOf(Seq<BaseModel>),
    MapOf(Seq<(Seq<char>, BaseModel)>),
}

impl View for BaseValue {
    type V = BaseModel;

    open spec fn view(&self) -> BaseModel {
        match self {
            BaseValue::Text(s) => BaseModel::Text(s@),
            BaseValue::Int(i) => BaseModel::Int(*i),
            BaseValue::Double(d) => BaseModel::Double(*d),
            BaseValue::Bool(b) => BaseModel::Bool(*b),
            BaseValue::Varint(v) => BaseModel::Varint(v@),
            BaseValue::Uuid(u) => BaseModel::Uuid(u@),
            BaseValue::Duration(d) => BaseModel::Duration(*d),
            BaseValue::Decimal(d) => BaseModel::Decimal(d@.0, d@.1),
            BaseValue::Bytes(b) => BaseModel::Bytes(b@),
        }
    }
}

/// The models of a sequence of base values.
pub open spec fn base_models(items: Seq<BaseValue>) -> Seq<BaseModel> {
    Seq::new(items.len(), |i: int| items[i]@)
}

/// The models of a sequence of named base values.
pub open spec fn entry_models(entries: Seq<(String, BaseValue)>) -> Seq<(Seq<char>, BaseModel)> {
    Seq::new(entries.len(), |i: int| (entries[i].0@, entries[i].1@))
}

impl View for ResultValue {
    type V = ResultModel;

    open spec fn view(&self) -> ResultModel {
        match self {
            ResultValue::Scalar(b) => ResultModel::Scalar(b@),
            ResultValue::ListOf(items) => ResultModel::ListOf(base_models(items@)),
            ResultValue::MapOf(entries) => ResultModel::MapOf(entry_models(entries@)),
        }
    }
}

/// The models of the named values of a row.
pub open spec fn row_model(row: Seq<(String, ResultValue)>) -> Seq<(Seq<char>, ResultModel)> {
    Seq::new(row.len(), |i: int| (row[i].0@, row[i].1@))
}

impl ParameterValue {
    /// The dynamic tag of this value.
    pub open spec fn spec_kind(self) -> ValueKind {
        match self {
            ParameterValue::U32(_) => ValueKind::U32,
            ParameterValue::Text(_) => ValueKind::Text,
            ParameterValue::Uuid(_) => ValueKind::Uuid,
            ParameterValue::BigInt(_) => ValueKind::BigInt,
            ParameterValue::Duration(_) => ValueKind::Duration,
            ParameterValue::Decimal(_) => ValueKind::Decimal,
            ParameterValue::Bool(_) => ValueKind::Bool,
            ParameterValue::Blob(_) => ValueKind::Blob,
            ParameterValue::Float(_) => ValueKind::Float,
            ParameterValue::Varint(_) => ValueKind::Varint,
            ParameterValue::ListOf(_) => ValueKind::ListOf,
            ParameterValue::SetOf(_) => ValueKind::SetOf,
            ParameterValue::MapOf(_) => ValueKind::MapOf,
        }
    }

    /// The dynamic tag of this value.
    pub fn kind(&self) -> (r: ValueKind)
        ensures
            r == self.spec_kind(),
    {
        match self {
            ParameterValue::U32(_) => ValueKind::U32,
            ParameterValue::Text(_) => ValueKind::Text,
            ParameterValue::Uuid(_) => ValueKind::Uuid,
            ParameterValue::BigInt(_) => ValueKind::BigInt,
            ParameterValue::Duration(_) => ValueKind::Duration,
            ParameterValue::Decimal(_) => ValueKind::Decimal,
            ParameterValue::Bool(_) => ValueKind::Bool,
            ParameterValue::Blob(_) => ValueKind::Blob,
            ParameterValue::Float(_) => ValueKind::Float,
            ParameterValue::Varint(_) => ValueKind::Varint,
            ParameterValue::ListOf(_) => ValueKind::ListOf,
            ParameterValue::SetOf(_) => ValueKind::SetOf,
            ParameterValue::MapOf(_) => ValueKind::MapOf,
        }
    }
}

/// The low eight bits of each number: how the host's numbers become the
/// bytes of a blob.
pub fn u32_vec_to_u8_vec(input: &[u32]) -> (r: Vec<u8>)
    ensures
        r@.len() == input@.len(),
        forall|i: int| 0 <= i < input@.len() ==> r@[i] == input@[i] % 256,
{
    let n: usize = input.len();
    let mut out: Vec<u8> = Vec::new();
    let mut i: usize = 0;
    while i < n
        invariant
            n == input@.len(),
            i <= n,
            out@.len() == i,
            forall|j: int| 0 <= j < i ==> out@[j] == input@[j] % 256,
        decreases n - i,
    {
        out.push((input[i] % 256) as u8);
        i = i + 1;
    }
    out
}

} // verus!
