//! The byte layout of each scalar kind, and which parameter values each
//! kind takes.
//!
//! | kind | bytes | parameter values |
//! |---|---|---|
//! | ascii, text | UTF-8, for ascii only characters below 128 | text |
//! | boolean | one byte, zero for false | bool |
//! | tinyint, smallint, int, bigint | 1, 2, 4, 8 bytes, two's complement | integers that fit |
//! | counter, timestamp | 8 bytes, two's complement | integers |
//! | time | 8 bytes, nanoseconds below one day | integers in that range |
//! | date | 4 bytes, unsigned | integers from 0 to 2^32 - 1 |
//! | float | 4 bytes, IEEE 754 | float |
//! | double | 8 bytes, IEEE 754 | float, widened |
//! | blob | the bytes | bytes |
//! | inet | 4 or 16 bytes | bytes of that length |
//! | varint | two's complement, any length | varint; integers, in the fewest bytes |
//! | decimal | the scale in 4 bytes, then the unscaled integer | decimal |
//! | duration | months, days, nanoseconds as variable-length integers | duration |
//! | uuid, timeuuid | 16 bytes | uuid |
//!
//! All numbers are big-endian. An integer that does not fit the kind is a
//! `NumericOverflow`; a value of another row of the table is a
//! `TypeMismatch`; bytes of another length or form are `MalformedBytes`.

use vstd::prelude::*;
use vstd::slice::{slice_subrange, slice_to_vec};
use vstd::utf8::{decode_utf8, encode_utf8, is_ascii_chars, valid_utf8};
use crate::be::{
    be_bytes, be_value, fits_signed, to_signed, to_unsigned, push_be, read_be, signed_of,
    unsigned_of, lemma_pow256_values,
};
use crate::descriptor::{ScalarKind, TypeKind};
use crate::error::{DecodeError, EncodeError, ValueKind};
use crate::ieee::{widen, widen_bits};
use crate::text::text_from_utf8;
use crate::types::decimal::Decimal;
use crate::types::duration::Duration;
use crate::types::uuid::Uuid;
use crate::types::varint::Varint;
use crate::value::{BaseModel, BaseValue, ParameterValue};
use crate::vint::{push_vint, read_vint, vint_bytes, vint_parse};
use crate::wire::{append_bytes, int_bytes, push_int, read_int, take_int};

verus! {

/// The nanoseconds of one day: a time of day lies below it.
pub const NANOS_PER_DAY: i64 = 86_400_000_000_000;

/// The error for a value of kind `actual` where the scalar kind `k` is
/// declared.
pub open spec fn scalar_mismatch(actual: ValueKind, k: ScalarKind) -> EncodeError {
    EncodeError::TypeMismatch { expected: TypeKind::Scalar(k), actual }
}

/// The least number of bytes, up to eight, whose two's complement holds `n`.
pub open spec fn signed_width(n: int) -> nat {
    if -0x80 <= n < 0x80 {
        1
    } else if -0x8000 <= n < 0x8000 {
        2
    } else if -0x80_0000 <= n < 0x80_0000 {
        3
    } else if -0x8000_0000 <= n < 0x8000_0000 {
        4
    } else if -0x80_0000_0000 <= n < 0x80_0000_0000 {
        5
    } else if -0x8000_0000_0000 <= n < 0x8000_0000_0000 {
        6
    } else if -0x80_0000_0000_0000 <= n < 0x80_0000_0000_0000 {
        7
    } else {
        8
    }
}

/// The `w` bytes of `n` in two's complement, where `n` fits them.
pub open spec fn fixed_bytes(n: int, w: nat) -> Result<Seq<u8>, EncodeError> {
    if fits_signed(n, w) {
        Ok(be_bytes(to_unsigned(n, w), w))
    } else {
        Err(EncodeError::NumericOverflow)
    }
}

/// The bytes of the integer `n`, which a value of kind `actual` holds,
/// for the scalar kind `k`: narrowed only where nothing is lost.
pub open spec fn encode_integer_spec(n: int, actual: ValueKind, k: ScalarKind) -> Result<
    Seq<u8>,
    EncodeError,
> {
    match k {
        ScalarKind::TinyInt => fixed_bytes(n, 1),
        ScalarKind::SmallInt => fixed_bytes(n, 2),
        ScalarKind::Int => fixed_bytes(n, 4),
        ScalarKind::BigInt | ScalarKind::Counter | ScalarKind::Timestamp => fixed_bytes(n, 8),
        ScalarKind::Time => if 0 <= n < NANOS_PER_DAY {
            Ok(be_bytes(n as nat, 8))
        } else {
            Err(EncodeError::NumericOverflow)
        },
        ScalarKind::Date => if 0 <= n < 0x1_0000_0000 {
            Ok(be_bytes(n as nat, 4))
        } else {
            Err(EncodeError::NumericOverflow)
        },
        ScalarKind::Varint => Ok(be_bytes(to_unsigned(n, signed_width(n)), signed_width(n))),
        _ => Err(scalar_mismatch(actual, k)),
    }
}

/// The bytes of the value `v` for the scalar kind `k`, or the error.
#[verifier::opaque]
pub open spec fn encode_scalar_spec(v: ParameterValue, k: ScalarKind) -> Result<
    Seq<u8>,
    EncodeError,
> {
    match v {
        ParameterValue::U32(n) => encode_integer_spec(n as int, ValueKind::U32, k),
        ParameterValue::BigInt(n) => encode_integer_spec(n as int, ValueKind::BigInt, k),
        ParameterValue::Text(s) => match k {
            ScalarKind::Text => Ok(encode_utf8(s@)),
            ScalarKind::Ascii => if is_ascii_chars(s@) {
                Ok(encode_utf8(s@))
            } else {
                Err(scalar_mismatch(ValueKind::Text, k))
            },
            _ => Err(scalar_mismatch(ValueKind::Text, k)),
        },
        ParameterValue::Uuid(u) => match k {
            ScalarKind::Uuid | ScalarKind::Timeuuid => Ok(be_bytes(u@ as nat, 16)),
            _ => Err(scalar_mismatch(ValueKind::Uuid, k)),
        },
        ParameterValue::Duration(d) => match k {
            ScalarKind::Duration => Ok(
                vint_bytes(d.months as int) + vint_bytes(d.days as int) + vint_bytes(
                    d.nanoseconds as int,
                ),
            ),
            _ => Err(scalar_mismatch(ValueKind::Duration, k)),
        },
        ParameterValue::Decimal(d) => match k {
            ScalarKind::Decimal => Ok(int_bytes(d@.1 as int) + d@.0),
            _ => Err(scalar_mismatch(ValueKind::Decimal, k)),
        },
        ParameterValue::Bool(b) => match k {
            ScalarKind::Boolean => Ok(
                seq![if b {
                    1u8
                } else {
                    0u8
                }],
            ),
            _ => Err(scalar_mismatch(ValueKind::Bool, k)),
        },
        ParameterValue::Blob(b) => match k {
            ScalarKind::Blob => Ok(b@),
            ScalarKind::Inet => if b@.len() == 4 || b@.len() == 16 {
                Ok(b@)
            } else {
                Err(scalar_mismatch(ValueKind::Blob, k))
            },
            _ => Err(scalar_mismatch(ValueKind::Blob, k)),
        },
        ParameterValue::Float(bits) => match k {
            ScalarKind::Float => Ok(be_bytes(bits as nat, 4)),
            ScalarKind::Double => Ok(be_bytes(widen_bits(bits) as nat, 8)),
            _ => Err(scalar_mismatch(ValueKind::Float, k)),
        },
        ParameterValue::Varint(b) => match k {
            ScalarKind::Varint => Ok(b@),
            _ => Err(scalar_mismatch(ValueKind::Varint, k)),
        },
        ParameterValue::ListOf(_) => Err(scalar_mismatch(ValueKind::ListOf, k)),
        ParameterValue::SetOf(_) => Err(scalar_mismatch(ValueKind::SetOf, k)),
        ParameterValue::MapOf(_) => Err(scalar_mismatch(ValueKind::MapOf, k)),
    }
}

/// The signed integer that the `w` bytes `b` hold, where `b` has that length.
pub open spec fn decode_fixed_spec(b: Seq<u8>, w: nat) -> Result<BaseModel, DecodeError> {
    if b.len() == w {
        Ok(BaseModel::Int(to_signed(be_value(b), w) as i64))
    } else {
        Err(DecodeError::MalformedBytes)
    }
}

/// The duration that the bytes `b` hold: three variable-length integers
/// and nothing behind them, the first two within 32 bits.
pub open spec fn decode_duration_spec(b: Seq<u8>) -> Result<BaseModel, DecodeError> {
    match vint_parse(b) {
        None => Err(DecodeError::MalformedBytes),
        Some((months, k1)) => match vint_parse(b.subrange(k1 as int, b.len() as int)) {
            None => Err(DecodeError::MalformedBytes),
            Some((days, k2)) => match vint_parse(b.subrange((k1 + k2) as int, b.len() as int)) {
                None => Err(DecodeError::MalformedBytes),
                Some((nanoseconds, k3)) => if k1 + k2 + k3 == b.len() && -0x8000_0000 <= months
                    < 0x8000_0000 && -0x8000_0000 <= days < 0x8000_0000 {
                    Ok(
                        BaseModel::Duration(
                            Duration {
                                months: months as i32,
                                days: days as i32,
                                nanoseconds: nanoseconds as i64,
                            },
                        ),
                    )
                } else {
                    Err(DecodeError::MalformedBytes)
                },
            },
        },
    }
}

/// The value that the bytes `b` hold for the scalar kind `k`, or
/// `MalformedBytes` where they do not match the layout of that kind.
/// Every integer kind gives a 64-bit integer, both floating-point kinds
/// give the bits of a double.
#[verifier::opaque]
pub open spec fn decode_scalar_spec(b: Seq<u8>, k: ScalarKind) -> Result<BaseModel, DecodeError> {
    match k {
        ScalarKind::Text => if valid_utf8(b) {
            Ok(BaseModel::Text(decode_utf8(b)))
        } else {
            Err(DecodeError::MalformedBytes)
        },
        ScalarKind::Ascii => if valid_utf8(b) && is_ascii_chars(decode_utf8(b)) {
            Ok(BaseModel::Text(decode_utf8(b)))
        } else {
            Err(DecodeError::MalformedBytes)
        },
        ScalarKind::Boolean => if b.len() == 1 {
            Ok(BaseModel::Bool(b[0] != 0))
        } else {
            Err(DecodeError::MalformedBytes)
        },
        ScalarKind::TinyInt => decode_fixed_spec(b, 1),
        ScalarKind::SmallInt => decode_fixed_spec(b, 2),
        ScalarKind::Int => decode_fixed_spec(b, 4),
        ScalarKind::BigInt | ScalarKind::Counter | ScalarKind::Timestamp => decode_fixed_spec(
            b,
            8,
        ),
        ScalarKind::Time => if b.len() == 8 && be_value(b) < NANOS_PER_DAY {
            Ok(BaseModel::Int(be_value(b) as i64))
        } else {
            Err(DecodeError::MalformedBytes)
        },
        ScalarKind::Date => if b.len() == 4 {
            Ok(BaseModel::Int(be_value(b) as i64))
        } else {
            Err(DecodeError::MalformedBytes)
        },
        ScalarKind::Float => if b.len() == 4 {
            Ok(BaseModel::Double(widen_bits(be_value(b) as u32)))
        } else {
            Err(DecodeError::MalformedBytes)
        },
        ScalarKind::Double => if b.len() == 8 {
            Ok(BaseModel::Double(be_value(b) as u64))
        } else {
            Err(DecodeError::MalformedBytes)
        },
        ScalarKind::Blob => Ok(BaseModel::Bytes(b)),
        ScalarKind::Inet => if b.len() == 4 || b.len() == 16 {
            Ok(BaseModel::Bytes(b))
        } else {
            Err(DecodeError::MalformedBytes)
        },
        ScalarKind::Varint => Ok(BaseModel::Varint(b)),
        ScalarKind::Decimal => match read_int(b) {
            None => Err(DecodeError::MalformedBytes),
            Some((scale, rest)) => Ok(BaseModel::Decimal(rest, scale as i32)),
        },
        ScalarKind::Duration => decode_duration_spec(b),
        ScalarKind::Uuid | ScalarKind::Timeuuid => if b.len() == 16 {
            Ok(BaseModel::Uuid(be_value(b) as u128))
        } else {
            Err(DecodeError::MalformedBytes)
        },
    }
}

/// Whether the result `r` of an encoder agrees with `s`: the same bytes,
/// or the same error.
pub open spec fn encoded_as(r: Result<Vec<u8>, EncodeError>, s: Result<Seq<u8>, EncodeError>) -> bool {
    match (r, s) {
        (Ok(bytes), Ok(expected)) => bytes@ == expected,
        (Err(e), Err(expected)) => e == expected,
        _ => false,
    }
}

/// Whether the result `r` of a decoder agrees with `s`: a value with that
/// model, or the same error.
pub open spec fn decoded_as(r: Result<BaseValue, DecodeError>, s: Result<BaseModel, DecodeError>) -> bool {
    match (r, s) {
        (Ok(value), Ok(expected)) => value@ == expected,
        (Err(e), Err(expected)) => e == expected,
        _ => false,
    }
}

fn width_of(n: i64) -> (w: usize)
    ensures
        w == signed_width(n as int),
        1 <= w <= 8,
        fits_signed(n as int, w as nat),
{
    proof {
        lemma_pow256_values();
    }
    if -0x80 <= n && n < 0x80 {
        1
    } else if -0x8000 <= n && n < 0x8000 {
        2
    } else if -0x80_0000 <= n && n < 0x80_0000 {
        3
    } else if -0x8000_0000 <= n && n < 0x8000_0000 {
        4
    } else if -0x80_0000_0000 <= n && n < 0x80_0000_0000 {
        5
    } else if -0x8000_0000_0000 <= n && n < 0x8000_0000_0000 {
        6
    } else if -0x80_0000_0000_0000 <= n && n < 0x80_0000_0000_0000 {
        7
    } else {
        8
    }
}

fn encode_fixed(n: i64, w: usize) -> (r: Result<Vec<u8>, EncodeError>)
    requires
        w == 1 || w == 2 || w == 4 || w == 8,
    ensures
        encoded_as(r, fixed_bytes(n as int, w as nat)),
{
    proof {
        lemma_pow256_values();
    }
    let fits: bool = if w == 1 {
        -0x80 <= n && n < 0x80
    } else if w == 2 {
        -0x8000 <= n && n < 0x8000
    } else if w == 4 {
        -0x8000_0000 <= n && n < 0x8000_0000
    } else {
        true
    };
    if fits {
        let mut out: Vec<u8> = Vec::new();
        push_be(&mut out, unsigned_of(n, w), w);
        Ok(out)
    } else {
        Err(EncodeError::NumericOverflow)
    }
}

fn encode_unsigned(n: u128, w: usize) -> (r: Vec<u8>)
    requires
        w <= 16,
    ensures
        r@ == be_bytes(n as nat, w as nat),
{
    let mut out: Vec<u8> = Vec::new();
    push_be(&mut out, n, w);
    out
}

fn encode_integer(n: i64, actual: ValueKind, k: ScalarKind) -> (r: Result<Vec<u8>, EncodeError>)
    ensures
        encoded_as(r, encode_integer_spec(n as int, actual, k)),
{
    match k {
        ScalarKind::TinyInt => encode_fixed(n, 1),
        ScalarKind::SmallInt => encode_fixed(n, 2),
        ScalarKind::Int => encode_fixed(n, 4),
        ScalarKind::BigInt | ScalarKind::Counter | ScalarKind::Timestamp => encode_fixed(n, 8),
        ScalarKind::Time => if 0 <= n && n < NANOS_PER_DAY {
            Ok(encode_unsigned(n as u128, 8))
        } else {
            Err(EncodeError::NumericOverflow)
        },
        ScalarKind::Date => if 0 <= n && n < 0x1_0000_0000 {
            Ok(encode_unsigned(n as u128, 4))
        } else {
            Err(EncodeError::NumericOverflow)
        },
        ScalarKind::Varint => {
            let w: usize = width_of(n);
            Ok(encode_unsigned(unsigned_of(n, w), w))
        },
        _ => Err(EncodeError::TypeMismatch { expected: TypeKind::Scalar(k), actual }),
    }
}

/// Encodes the value `v` for the scalar kind `k`.
pub fn encode_scalar(v: &ParameterValue, k: ScalarKind) -> (r: Result<Vec<u8>, EncodeError>)
    ensures
        encoded_as(r, encode_scalar_spec(*v, k)),
{
    reveal(encode_scalar_spec);
    let actual: ValueKind = v.kind();
    let mismatch = EncodeError::TypeMismatch { expected: TypeKind::Scalar(k), actual };
    match v {
        ParameterValue::U32(n) => encode_integer(*n as i64, ValueKind::U32, k),
        ParameterValue::BigInt(n) => encode_integer(*n, ValueKind::BigInt, k),
        ParameterValue::Text(s) => match k {
            ScalarKind::Text => Ok(slice_to_vec(s.as_str().as_bytes())),
            ScalarKind::Ascii => if s.as_str().is_ascii() {
                Ok(slice_to_vec(s.as_str().as_bytes()))
            } else {
                Err(mismatch)
            },
            _ => Err(mismatch),
        },
        ParameterValue::Uuid(u) => match k {
            ScalarKind::Uuid | ScalarKind::Timeuuid => Ok(encode_unsigned(u.get_inner(), 16)),
            _ => Err(mismatch),
        },
        ParameterValue::Duration(d) => match k {
            ScalarKind::Duration => {
                let mut out: Vec<u8> = Vec::new();
                push_vint(&mut out, d.months as i64);
                push_vint(&mut out, d.days as i64);
                push_vint(&mut out, d.nanoseconds);
                assert(out@ =~= vint_bytes(d.months as int) + vint_bytes(d.days as int)
                    + vint_bytes(d.nanoseconds as int));
                Ok(out)
            },
            _ => Err(mismatch),
        },
        ParameterValue::Decimal(d) => match k {
            ScalarKind::Decimal => {
                let mut out: Vec<u8> = Vec::new();
                push_int(&mut out, d.scale());
                append_bytes(&mut out, d.int_val().as_slice());
                assert(out@ =~= int_bytes(d@.1 as int) + d@.0);
                Ok(out)
            },
            _ => Err(mismatch),
        },
        ParameterValue::Bool(b) => match k {
            ScalarKind::Boolean => {
                let mut out: Vec<u8> = Vec::new();
                out.push(if *b {
                    1u8
                } else {
                    0u8
                });
                assert(out@ =~= seq![if *b {
                    1u8
                } else {
                    0u8
                }]);
                Ok(out)
            },
            _ => Err(mismatch),
        },
        ParameterValue::Blob(b) => match k {
            ScalarKind::Blob => Ok(slice_to_vec(b.as_slice())),
            ScalarKind::Inet => if b.len() == 4 || b.len() == 16 {
                Ok(slice_to_vec(b.as_slice()))
            } else {
                Err(mismatch)
            },
            _ => Err(mismatch),
        },
        ParameterValue::Float(bits) => match k {
            ScalarKind::Float => Ok(encode_unsigned(*bits as u128, 4)),
            ScalarKind::Double => Ok(encode_unsigned(widen(*bits) as u128, 8)),
            _ => Err(mismatch),
        },
        ParameterValue::Varint(b) => match k {
            ScalarKind::Varint => Ok(slice_to_vec(b.bytes().as_slice())),
            _ => Err(mismatch),
        },
        ParameterValue::ListOf(_) => Err(mismatch),
        ParameterValue::SetOf(_) => Err(mismatch),
        ParameterValue::MapOf(_) => Err(mismatch),
    }
}

fn decode_fixed(b: &[u8], w: usize) -> (r: Result<BaseValue, DecodeError>)
    requires
        1 <= w <= 8,
    ensures
        decoded_as(r, decode_fixed_spec(b@, w as nat)),
{
    if b.len() == w {
        let u: u128 = read_be(b, 0, w);
        assert(b@.subrange(0, w as int) =~= b@);
        Ok(BaseValue::Int(signed_of(u, w)))
    } else {
        Err(DecodeError::MalformedBytes)
    }
}

fn decode_duration(b: &[u8]) -> (r: Result<BaseValue, DecodeError>)
    ensures
        decoded_as(r, decode_duration_spec(b@)),
{
    let len: usize = b.len();
    assert(b@.subrange(0, b@.len() as int) =~= b@);
    match read_vint(b, 0) {
        None => Err(DecodeError::MalformedBytes),
        Some((months, p1)) => match read_vint(b, p1) {
            None => Err(DecodeError::MalformedBytes),
            Some((days, p2)) => match read_vint(b, p2) {
                None => Err(DecodeError::MalformedBytes),
                Some((nanoseconds, p3)) => {
                    if p3 == len && -0x8000_0000 <= months && months < 0x8000_0000 && -0x8000_0000
                        <= days && days < 0x8000_0000 {
                        Ok(
                            BaseValue::Duration(
                                Duration::new(months as i32, days as i32, nanoseconds),
                            ),
                        )
                    } else {
                        Err(DecodeError::MalformedBytes)
                    }
                },
            },
        },
    }
}

/// Decodes the bytes `b` as a value of the scalar kind `k`.
pub fn decode_scalar(b: &[u8], k: ScalarKind) -> (r: Result<BaseValue, DecodeError>)
    ensures
        decoded_as(r, decode_scalar_spec(b@, k)),
{
    let len: usize = b.len();
    proof {
        reveal(decode_scalar_spec);
        lemma_pow256_values();
        assert(b@.subrange(0, b@.len() as int) =~= b@);
    }
    match k {
        ScalarKind::Text => match text_from_utf8(slice_to_vec(b)) {
            Some(s) => Ok(BaseValue::Text(s)),
            None => Err(DecodeError::MalformedBytes),
        },
        ScalarKind::Ascii => match text_from_utf8(slice_to_vec(b)) {
            Some(s) => if s.as_str().is_ascii() {
                Ok(BaseValue::Text(s))
            } else {
                Err(DecodeError::MalformedBytes)
            },
            None => Err(DecodeError::MalformedBytes),
        },
        ScalarKind::Boolean => if len == 1 {
            Ok(BaseValue::Bool(b[0] != 0))
        } else {
            Err(DecodeError::MalformedBytes)
        },
        ScalarKind::TinyInt => decode_fixed(b, 1),
        ScalarKind::SmallInt => decode_fixed(b, 2),
        ScalarKind::Int => decode_fixed(b, 4),
        ScalarKind::BigInt | ScalarKind::Counter | ScalarKind::Timestamp => decode_fixed(b, 8),
        ScalarKind::Time => {
            if len == 8 {
                let u: u128 = read_be(b, 0, 8);
                if u < NANOS_PER_DAY as u128 {
                    Ok(BaseValue::Int(u as i64))
                } else {
                    Err(DecodeError::MalformedBytes)
                }
            } else {
                Err(DecodeError::MalformedBytes)
            }
        },
        ScalarKind::Date => if len == 4 {
            Ok(BaseValue::Int(read_be(b, 0, 4) as i64))
        } else {
            Err(DecodeError::MalformedBytes)
        },
        ScalarKind::Float => if len == 4 {
            Ok(BaseValue::Double(widen(read_be(b, 0, 4) as u32)))
        } else {
            Err(DecodeError::MalformedBytes)
        },
        ScalarKind::Double => if len == 8 {
            Ok(BaseValue::Double(read_be(b, 0, 8) as u64))
        } else {
            Err(DecodeError::MalformedBytes)
        },
        ScalarKind::Blob => Ok(BaseValue::Bytes(slice_to_vec(b))),
        ScalarKind::Inet => if len == 4 || len == 16 {
            Ok(BaseValue::Bytes(slice_to_vec(b)))
        } else {
            Err(DecodeError::MalformedBytes)
        },
        ScalarKind::Varint => Ok(BaseValue::Varint(Varint::new_varint(slice_to_vec(b)))),
        ScalarKind::Decimal => match take_int(b, 0) {
            None => Err(DecodeError::MalformedBytes),
            Some((scale, next)) => Ok(
                BaseValue::Decimal(Decimal::new(slice_to_vec(slice_subrange(b, next, len)), scale)),
            ),
        },
        ScalarKind::Duration => decode_duration(b),
        ScalarKind::Uuid | ScalarKind::Timeuuid => if len == 16 {
            Ok(BaseValue::Uuid(Uuid::from_u128(read_be(b, 0, 16))))
        } else {
            Err(DecodeError::MalformedBytes)
        },
    }
}

} // verus!
