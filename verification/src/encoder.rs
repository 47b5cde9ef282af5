//! The encoder: one parameter value and its declared wire type in, the
//! bytes of the protocol out.
//!
//! The declared type decides the layout; the value's own tag only has to
//! be compatible with it. A list or a set is a count and then one cell per
//! element, in the order given. A map is a count and then a key cell and a
//! value cell per entry, in the order given. A record is one cell per
//! declared field, in the declared order: each field takes the first entry
//! of the supplied mapping that bears its name, a field that no entry
//! names is a null, and an entry that no field names is ignored.

use vstd::prelude::*;
use vstd::slice::slice_to_vec;
use vstd::utf8::{encode_utf8, is_ascii_chars};
use crate::descriptor::{ScalarKind, TypeKind, WireType};
use crate::error::{EncodeError, ValueKind};
use crate::scalar::{encode_scalar, encode_scalar_spec, encoded_as};
use crate::value::ParameterValue;
use crate::wire::{cell_bytes, int_bytes, push_cell, push_int, push_null, MAX_LENGTH};

verus! {

/// The cell that holds the bytes of `r`; a body too long for a length
/// prefix is a `NumericOverflow`.
pub open spec fn framed(r: Result<Seq<u8>, EncodeError>) -> Result<Seq<u8>, EncodeError> {
    match r {
        Ok(b) => if b.len() <= MAX_LENGTH {
            Ok(cell_bytes(Some(b)))
        } else {
            Err(EncodeError::NumericOverflow)
        },
        Err(e) => Err(e),
    }
}

/// The parts one after the other, or the first error among them.
pub open spec fn join(parts: Seq<Result<Seq<u8>, EncodeError>>) -> Result<Seq<u8>, EncodeError>
    decreases parts.len(),
{
    if parts.len() == 0 {
        Ok(Seq::empty())
    } else {
        match parts[0] {
            Err(e) => Err(e),
            Ok(b) => match join(parts.drop_first()) {
                Err(e) => Err(e),
                Ok(rest) => Ok(b + rest),
            },
        }
    }
}

/// `a` and then `b`, or the first error of the two.
pub open spec fn pair(a: Result<Seq<u8>, EncodeError>, b: Result<Seq<u8>, EncodeError>) -> Result<
    Seq<u8>,
    EncodeError,
> {
    match a {
        Err(e) => Err(e),
        Ok(x) => match b {
            Err(e) => Err(e),
            Ok(y) => Ok(x + y),
        },
    }
}

/// The count `n` and then the bytes of `r`.
pub open spec fn counted(n: nat, r: Result<Seq<u8>, EncodeError>) -> Result<Seq<u8>, EncodeError> {
    match r {
        Ok(b) => Ok(int_bytes(n as int) + b),
        Err(e) => Err(e),
    }
}

/// The error for a value of kind `actual` where the type `ty` is declared.
pub open spec fn mismatch(ty: WireType, actual: ValueKind) -> EncodeError {
    EncodeError::TypeMismatch { expected: ty.spec_kind(), actual }
}

/// The bytes of a map's key, which is text, for the key type `kt`.
pub open spec fn key_bytes(key: Seq<char>, kt: WireType) -> Result<Seq<u8>, EncodeError> {
    match kt {
        WireType::Scalar(ScalarKind::Text) => Ok(encode_utf8(key)),
        WireType::Scalar(ScalarKind::Ascii) => if is_ascii_chars(key) {
            Ok(encode_utf8(key))
        } else {
            Err(mismatch(kt, ValueKind::Text))
        },
        _ => Err(mismatch(kt, ValueKind::Text)),
    }
}

/// The index of the first entry from `from` on that bears `name`.
pub open spec fn find_entry(
    entries: Seq<(String, ParameterValue)>,
    name: Seq<char>,
    from: int,
) -> Option<int>
    decreases entries.len() - from,
{
    if from < 0 || from >= entries.len() {
        None
    } else if entries[from].0@ == name {
        Some(from)
    } else {
        find_entry(entries, name, from + 1)
    }
}

/// The cell of each element of `items`, or why it has none.
pub open spec fn list_parts(items: Seq<ParameterValue>, elem: WireType) -> Seq<
    Result<Seq<u8>, EncodeError>,
>
    decreases items, 0nat,
{
    Seq::new(
        items.len(),
        |i: int|
            if 0 <= i < items.len() {
                framed(encode_value_spec(items[i], elem))
            } else {
                Ok(Seq::empty())
            },
    )
}

/// The bytes of a list or set with the elements `items` of type `elem`.
pub open spec fn list_bytes(items: Seq<ParameterValue>, elem: WireType) -> Result<
    Seq<u8>,
    EncodeError,
>
    decreases items, 1nat,
{
    if items.len() > MAX_LENGTH {
        Err(EncodeError::NumericOverflow)
    } else {
        counted(items.len(), join(list_parts(items, elem)))
    }
}

/// The key cell and the value cell of each entry, or why it has none.
pub open spec fn map_parts(entries: Seq<(String, ParameterValue)>, kt: WireType, vt: WireType) -> Seq<
    Result<Seq<u8>, EncodeError>,
>
    decreases entries, 0nat,
{
    Seq::new(
        entries.len(),
        |i: int|
            if 0 <= i < entries.len() {
                pair(
                    framed(key_bytes(entries[i].0@, kt)),
                    framed(encode_value_spec(entries[i].1, vt)),
                )
            } else {
                Ok(Seq::empty())
            },
    )
}

/// The bytes of a map with the entries `entries`, its keys of type `kt`
/// and its values of type `vt`.
pub open spec fn map_bytes(entries: Seq<(String, ParameterValue)>, kt: WireType, vt: WireType) -> Result<
    Seq<u8>,
    EncodeError,
>
    decreases entries, 1nat,
{
    if entries.len() > MAX_LENGTH {
        Err(EncodeError::NumericOverflow)
    } else {
        counted(entries.len(), join(map_parts(entries, kt, vt)))
    }
}

/// The cell of the record field `name` of type `ty`, taken from `entries`.
pub open spec fn field_bytes(entries: Seq<(String, ParameterValue)>, name: Seq<char>, ty: WireType) -> Result<
    Seq<u8>,
    EncodeError,
>
    decreases entries, 0nat,
{
    match find_entry(entries, name, 0) {
        None => Ok(cell_bytes(None)),
        Some(j) => if 0 <= j < entries.len() {
            framed(encode_value_spec(entries[j].1, ty))
        } else {
            Ok(cell_bytes(None))
        },
    }
}

/// The cell of each declared field, or why it has none.
pub open spec fn record_parts(
    entries: Seq<(String, ParameterValue)>,
    fields: Seq<(String, WireType)>,
) -> Seq<Result<Seq<u8>, EncodeError>>
    decreases entries, 1nat,
{
    Seq::new(
        fields.len(),
        |i: int|
            if 0 <= i < fields.len() {
                field_bytes(entries, fields[i].0@, fields[i].1)
            } else {
                Ok(Seq::empty())
            },
    )
}

/// The bytes of a record with the declared fields `fields`, its values
/// taken from `entries`.
pub open spec fn record_bytes(
    entries: Seq<(String, ParameterValue)>,
    fields: Seq<(String, WireType)>,
) -> Result<Seq<u8>, EncodeError>
    decreases entries, 2nat,
{
    join(record_parts(entries, fields))
}

/// The bytes of the value `v` for the declared type `ty`, or the error:
/// the first one met when the value is walked in order.
pub open spec fn encode_value_spec(v: ParameterValue, ty: WireType) -> Result<Seq<u8>, EncodeError>
    decreases v, 0nat,
{
    match ty {
        WireType::Scalar(k) => encode_scalar_spec(v, k),
        WireType::ListOf(elem) | WireType::SetOf(elem) => match v {
            ParameterValue::ListOf(items) => list_bytes(items@, *elem),
            ParameterValue::SetOf(items) => list_bytes(items@, *elem),
            _ => Err(mismatch(ty, v.spec_kind())),
        },
        WireType::MapOf(kt, vt) => match v {
            ParameterValue::MapOf(entries) => map_bytes(entries@, *kt, *vt),
            _ => Err(mismatch(ty, v.spec_kind())),
        },
        WireType::Record { fields, .. } => match v {
            ParameterValue::MapOf(entries) => record_bytes(entries@, fields@),
            _ => Err(mismatch(ty, v.spec_kind())),
        },
        WireType::TupleOf(_) => Err(EncodeError::UnsupportedColumnType(TypeKind::TupleOf)),
    }
}

/// The cell of an optional value: a null where there is none.
pub open spec fn encode_spec(value: Option<ParameterValue>, ty: WireType) -> Result<
    Seq<u8>,
    EncodeError,
> {
    match value {
        None => Ok(cell_bytes(None)),
        Some(v) => framed(encode_value_spec(v, ty)),
    }
}

/// Joining from the `i`-th part on takes that part first.
pub proof fn lemma_join_step(parts: Seq<Result<Seq<u8>, EncodeError>>, i: int)
    requires
        0 <= i < parts.len(),
    ensures
        join(parts.skip(i)) == pair(parts[i], join(parts.skip(i + 1))),
{
    assert(parts.skip(i).drop_first() =~= parts.skip(i + 1));
}

/// Whether `out` grew by the bytes of `s`, or stayed as it was where `s`
/// is an error, which `r` then reports.
pub open spec fn appended(
    r: Result<(), EncodeError>,
    before: Seq<u8>,
    after: Seq<u8>,
    s: Result<Seq<u8>, EncodeError>,
) -> bool {
    match s {
        Ok(bytes) => r is Ok && after == before + bytes,
        Err(e) => r == Err::<(), EncodeError>(e) && after == before,
    }
}

fn push_framed(out: &mut Vec<u8>, body: &Vec<u8>) -> (r: Result<(), EncodeError>)
    ensures
        appended(r, old(out)@, final(out)@, framed(Ok(body@))),
{
    if body.len() > MAX_LENGTH {
        Err(EncodeError::NumericOverflow)
    } else {
        push_cell(out, body.as_slice());
        Ok(())
    }
}

fn encode_key(key: &String, kt: &WireType) -> (r: Result<Vec<u8>, EncodeError>)
    ensures
        encoded_as(r, key_bytes(key@, *kt)),
{
    match kt {
        WireType::Scalar(ScalarKind::Text) => Ok(slice_to_vec(key.as_str().as_bytes())),
        WireType::Scalar(ScalarKind::Ascii) => if key.as_str().is_ascii() {
            Ok(slice_to_vec(key.as_str().as_bytes()))
        } else {
            Err(EncodeError::TypeMismatch { expected: kt.kind(), actual: ValueKind::Text })
        },
        _ => Err(EncodeError::TypeMismatch { expected: kt.kind(), actual: ValueKind::Text }),
    }
}

fn find(entries: &Vec<(String, ParameterValue)>, name: &String) -> (r: Option<usize>)
    ensures
        match r {
            None => find_entry(entries@, name@, 0) is None,
            Some(j) => find_entry(entries@, name@, 0) == Some(j as int) && j < entries@.len(),
        },
{
    let n: usize = entries.len();
    let mut j: usize = 0;
    while j < n
        invariant
            n == entries@.len(),
            j <= n,
            find_entry(entries@, name@, 0) == find_entry(entries@, name@, j as int),
        decreases n - j,
    {
        if entries[j].0 == *name {
            return Some(j);
        }
        j = j + 1;
    }
    None
}

fn encode_list(items: &Vec<ParameterValue>, elem: &WireType) -> (r: Result<Vec<u8>, EncodeError>)
    ensures
        encoded_as(r, list_bytes(items@, *elem)),
    decreases items, 1nat,
{
    let n: usize = items.len();
    if n > MAX_LENGTH {
        return Err(EncodeError::NumericOverflow);
    }
    let mut out: Vec<u8> = Vec::new();
    push_int(&mut out, n as i32);
    let ghost parts = list_parts(items@, *elem);
    let ghost mut acc = Seq::<u8>::empty();
    let mut i: usize = 0;
    assert(parts.skip(0) =~= parts);
    assert(out@ =~= int_bytes(n as int) + acc);
    while i < n
        invariant
            n == items@.len(),
            i <= n,
            n <= MAX_LENGTH,
            parts == list_parts(items@, *elem),
            out@ == int_bytes(n as int) + acc,
            join(parts) == pair(Ok(acc), join(parts.skip(i as int))),
        decreases n - i,
    {
        proof {
            lemma_join_step(parts, i as int);
            assert(parts[i as int] == framed(encode_value_spec(items@[i as int], *elem)));
        }
        match encode_value(&items[i], elem) {
            Err(e) => {
                return Err(e);
            },
            Ok(body) => {
                match push_framed(&mut out, &body) {
                    Err(e) => {
                        return Err(e);
                    },
                    Ok(()) => {},
                }
                proof {
                    let cell = cell_bytes(Some(body@));
                    assert(out@ =~= int_bytes(n as int) + (acc + cell));
                    let rest = join(parts.skip(i + 1));
                    match rest {
                        Ok(tail) => {
                            assert(acc + (cell + tail) =~= (acc + cell) + tail);
                        },
                        Err(_) => {},
                    }
                    acc = acc + cell;
                }
            },
        }
        i = i + 1;
    }
    proof {
        assert(acc + Seq::<u8>::empty() =~= acc);
    }
    Ok(out)
}

fn encode_map(entries: &Vec<(String, ParameterValue)>, kt: &WireType, vt: &WireType) -> (r: Result<
    Vec<u8>,
    EncodeError,
>)
    ensures
        encoded_as(r, map_bytes(entries@, *kt, *vt)),
    decreases entries, 1nat,
{
    let n: usize = entries.len();
    if n > MAX_LENGTH {
        return Err(EncodeError::NumericOverflow);
    }
    let mut out: Vec<u8> = Vec::new();
    push_int(&mut out, n as i32);
    let ghost parts = map_parts(entries@, *kt, *vt);
    let ghost mut acc = Seq::<u8>::empty();
    let mut i: usize = 0;
    assert(parts.skip(0) =~= parts);
    assert(out@ =~= int_bytes(n as int) + acc);
    while i < n
        invariant
            n == entries@.len(),
            i <= n,
            n <= MAX_LENGTH,
            parts == map_parts(entries@, *kt, *vt),
            out@ == int_bytes(n as int) + acc,
            join(parts) == pair(Ok(acc), join(parts.skip(i as int))),
        decreases n - i,
    {
        proof {
            lemma_join_step(parts, i as int);
            assert(parts[i as int] == pair(
                framed(key_bytes(entries@[i as int].0@, *kt)),
                framed(encode_value_spec(entries@[i as int].1, *vt)),
            ));
        }
        let key = match encode_key(&entries[i].0, kt) {
            Err(e) => {
                return Err(e);
            },
            Ok(key) => key,
        };
        if key.len() > MAX_LENGTH {
            return Err(EncodeError::NumericOverflow);
        }
        let body = match encode_value(&entries[i].1, vt) {
            Err(e) => {
                return Err(e);
            },
            Ok(body) => body,
        };
        if body.len() > MAX_LENGTH {
            return Err(EncodeError::NumericOverflow);
        }
        push_cell(&mut out, key.as_slice());
        push_cell(&mut out, body.as_slice());
        proof {
            let part = cell_bytes(Some(key@)) + cell_bytes(Some(body@));
            assert(parts[i as int] == Ok::<Seq<u8>, EncodeError>(part));
            assert(out@ =~= int_bytes(n as int) + (acc + part));
            let rest = join(parts.skip(i + 1));
            match rest {
                Ok(tail) => {
                    assert(acc + (part + tail) =~= (acc + part) + tail);
                },
                Err(_) => {},
            }
            acc = acc + part;
        }
        i = i + 1;
    }
    proof {
        assert(acc + Seq::<u8>::empty() =~= acc);
    }
    Ok(out)
}

fn encode_record(entries: &Vec<(String, ParameterValue)>, fields: &Vec<(String, WireType)>) -> (r:
    Result<Vec<u8>, EncodeError>)
    ensures
        encoded_as(r, record_bytes(entries@, fields@)),
    decreases entries, 2nat,
{
    let n: usize = fields.len();
    let mut out: Vec<u8> = Vec::new();
    let ghost parts = record_parts(entries@, fields@);
    let mut i: usize = 0;
    assert(parts.skip(0) =~= parts);
    assert(Seq::<u8>::empty() + Seq::<u8>::empty() =~= Seq::<u8>::empty());
    while i < n
        invariant
            n == fields@.len(),
            i <= n,
            parts == record_parts(entries@, fields@),
            join(parts) == pair(Ok(out@), join(parts.skip(i as int))),
        decreases n - i,
    {
        proof {
            lemma_join_step(parts, i as int);
            assert(parts[i as int] == field_bytes(
                entries@,
                fields@[i as int].0@,
                fields@[i as int].1,
            ));
        }
        let ghost before = out@;
        match find(entries, &fields[i].0) {
            None => {
                assert(parts[i as int] == Ok::<Seq<u8>, EncodeError>(cell_bytes(None)));
                push_null(&mut out);
            },
            Some(j) => {
                assert(find_entry(entries@, fields@[i as int].0@, 0) == Some(j as int));
                assert(field_bytes(entries@, fields@[i as int].0@, fields@[i as int].1) == framed(
                    encode_value_spec(entries@[j as int].1, fields@[i as int].1),
                ));
                let body = match encode_value(&entries[j].1, &fields[i].1) {
                    Err(e) => {
                        return Err(e);
                    },
                    Ok(body) => body,
                };
                match push_framed(&mut out, &body) {
                    Err(e) => {
                        return Err(e);
                    },
                    Ok(()) => {},
                }
            },
        }
        proof {
            let part = parts[i as int]->Ok_0;
            assert(out@ == before + part);
            let rest = join(parts.skip(i + 1));
            match rest {
                Ok(tail) => {
                    assert(before + (part + tail) =~= (before + part) + tail);
                },
                Err(_) => {},
            }
        }
        i = i + 1;
    }
    proof {
        assert(out@ + Seq::<u8>::empty() =~= out@);
    }
    Ok(out)
}

/// Encodes the value `v` for the declared type `ty`: the bytes of the
/// value, without a length before them.
pub fn encode_value(v: &ParameterValue, ty: &WireType) -> (r: Result<Vec<u8>, EncodeError>)
    ensures
        encoded_as(r, encode_value_spec(*v, *ty)),
    decreases v, 0nat,
{
    match ty {
        WireType::Scalar(k) => encode_scalar(v, *k),
        WireType::ListOf(elem) | WireType::SetOf(elem) => match v {
            ParameterValue::ListOf(items) => encode_list(items, elem),
            ParameterValue::SetOf(items) => encode_list(items, elem),
            _ => Err(EncodeError::TypeMismatch { expected: ty.kind(), actual: v.kind() }),
        },
        WireType::MapOf(kt, vt) => match v {
            ParameterValue::MapOf(entries) => encode_map(entries, kt, vt),
            _ => Err(EncodeError::TypeMismatch { expected: ty.kind(), actual: v.kind() }),
        },
        WireType::Record { fields, .. } => match v {
            ParameterValue::MapOf(entries) => encode_record(entries, fields),
            _ => Err(EncodeError::TypeMismatch { expected: ty.kind(), actual: v.kind() }),
        },
        WireType::TupleOf(_) => Err(EncodeError::UnsupportedColumnType(TypeKind::TupleOf)),
    }
}

/// What `encode` is to write for `value`, which may be absent.
pub open spec fn encode_cell_spec(value: Option<&ParameterValue>, ty: WireType) -> Result<
    Seq<u8>,
    EncodeError,
> {
    match value {
        None => encode_spec(None, ty),
        Some(v) => encode_spec(Some(*v), ty),
    }
}

/// Writes one cell to `out`: the null marker where `value` is absent,
/// else the length and the bytes of the value for the declared type
/// `ty`. On an error nothing is written.
pub fn encode(value: Option<&ParameterValue>, ty: &WireType, out: &mut Vec<u8>) -> (r: Result<
    (),
    EncodeError,
>)
    ensures
        appended(r, old(out)@, final(out)@, encode_cell_spec(value, *ty)),
{
    match value {
        None => {
            push_null(out);
            Ok(())
        },
        Some(v) => match encode_value(v, ty) {
            Err(e) => Err(e),
            Ok(body) => push_framed(out, &body),
        },
    }
}

} // verus!
