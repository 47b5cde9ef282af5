//! The decoder: one cell of a result and its declared wire type in, one
//! dynamic result value out.
//!
//! A null cell is `None` for every type. The elements of a list or a
//! set, the values of a map and the fields of a record must be scalars:
//! the result model holds no collection inside another. The keys of a
//! map must be text. A field of a record that is null is left out of the
//! mapping, and so is a field that the bytes end before.

use vstd::prelude::*;
use crate::descriptor::{ScalarKind, TypeKind, WireType};
use crate::error::DecodeError;
use crate::scalar::{decode_scalar, decode_scalar_spec};
use crate::value::{base_models, entry_models, BaseModel, BaseValue, ResultModel, ResultValue};
use crate::wire::{read_cell, read_int, take_cell, take_int};

verus! {

/// `head` and then what `r` holds, or the error of `r`.
pub open spec fn after<T>(head: Seq<T>, r: Result<Seq<T>, DecodeError>) -> Result<
    Seq<T>,
    DecodeError,
> {
    match r {
        Ok(tail) => Ok(head + tail),
        Err(e) => Err(e),
    }
}

/// The `n` elements of scalar kind `k` that `s` holds, one cell each and
/// nothing behind them. A null element is malformed.
pub open spec fn decode_elements_spec(s: Seq<u8>, n: nat, k: ScalarKind) -> Result<
    Seq<BaseModel>,
    DecodeError,
>
    decreases n,
{
    if n == 0 {
        if s.len() == 0 {
            Ok(Seq::empty())
        } else {
            Err(DecodeError::MalformedBytes)
        }
    } else {
        match read_cell(s) {
            None => Err(DecodeError::MalformedBytes),
            Some((None, _)) => Err(DecodeError::MalformedBytes),
            Some((Some(body), rest)) => match decode_scalar_spec(body, k) {
                Err(e) => Err(e),
                Ok(b) => after(seq![b], decode_elements_spec(rest, (n - 1) as nat, k)),
            },
        }
    }
}

/// The key of text kind `kk` and the value of scalar kind `vk` at the
/// start of `s`, and what follows them.
#[verifier::opaque]
pub open spec fn decode_entry_spec(s: Seq<u8>, kk: ScalarKind, vk: ScalarKind) -> Result<
    ((Seq<char>, BaseModel), Seq<u8>),
    DecodeError,
> {
    match read_cell(s) {
        None => Err(DecodeError::MalformedBytes),
        Some((None, _)) => Err(DecodeError::MalformedBytes),
        Some((Some(key_body), rest)) => match decode_scalar_spec(key_body, kk) {
            Err(e) => Err(e),
            Ok(BaseModel::Text(key)) => match read_cell(rest) {
                None => Err(DecodeError::MalformedBytes),
                Some((None, _)) => Err(DecodeError::MalformedBytes),
                Some((Some(body), behind)) => match decode_scalar_spec(body, vk) {
                    Err(e) => Err(e),
                    Ok(b) => Ok(((key, b), behind)),
                },
            },
            Ok(_) => Err(DecodeError::UnsupportedMapKeyType),
        },
    }
}

/// The `n` entries that `s` holds, and nothing behind them.
pub open spec fn decode_entries_spec(s: Seq<u8>, n: nat, kk: ScalarKind, vk: ScalarKind) -> Result<
    Seq<(Seq<char>, BaseModel)>,
    DecodeError,
>
    decreases n,
{
    if n == 0 {
        if s.len() == 0 {
            Ok(Seq::empty())
        } else {
            Err(DecodeError::MalformedBytes)
        }
    } else {
        match decode_entry_spec(s, kk, vk) {
            Err(e) => Err(e),
            Ok((entry, rest)) => after(
                seq![entry],
                decode_entries_spec(rest, (n - 1) as nat, kk, vk),
            ),
        }
    }
}

/// The base value of a cell of type `ty`: `None` for a null, and
/// `UnsupportedNesting` for a cell that is not null where `ty` is no
/// scalar.
pub open spec fn decode_base_spec(cell: Option<Seq<u8>>, ty: WireType) -> Result<
    Option<BaseModel>,
    DecodeError,
> {
    match cell {
        None => Ok(None),
        Some(b) => match ty {
            WireType::Scalar(k) => match decode_scalar_spec(b, k) {
                Ok(m) => Ok(Some(m)),
                Err(e) => Err(e),
            },
            _ => Err(DecodeError::UnsupportedNesting),
        },
    }
}

/// The fields of a record that `s` holds, by name and in the declared
/// order, without those that are null. Where `s` ends between two
/// fields, the fields that are left are null.
pub open spec fn decode_fields_spec(s: Seq<u8>, fields: Seq<(String, WireType)>) -> Result<
    Seq<(Seq<char>, BaseModel)>,
    DecodeError,
>
    decreases fields.len(),
{
    if fields.len() == 0 {
        if s.len() == 0 {
            Ok(Seq::empty())
        } else {
            Err(DecodeError::MalformedBytes)
        }
    } else if s.len() == 0 {
        Ok(Seq::empty())
    } else {
        match read_cell(s) {
            None => Err(DecodeError::MalformedBytes),
            Some((cell, rest)) => match decode_base_spec(cell, fields[0].1) {
                Err(e) => Err(e),
                Ok(None) => decode_fields_spec(rest, fields.drop_first()),
                Ok(Some(b)) => after(
                    seq![(fields[0].0@, b)],
                    decode_fields_spec(rest, fields.drop_first()),
                ),
            },
        }
    }
}

/// The list that the bytes `b` hold, its elements of type `elem`.
pub open spec fn decode_list_spec(b: Seq<u8>, elem: WireType) -> Result<
    Seq<BaseModel>,
    DecodeError,
> {
    match elem {
        WireType::Scalar(k) => match read_int(b) {
            None => Err(DecodeError::MalformedBytes),
            Some((n, rest)) => if n < 0 {
                Err(DecodeError::MalformedBytes)
            } else {
                decode_elements_spec(rest, n as nat, k)
            },
        },
        _ => Err(DecodeError::UnsupportedNesting),
    }
}

/// The map that the bytes `b` hold, its keys of type `kt` and its
/// values of type `vt`.
pub open spec fn decode_map_spec(b: Seq<u8>, kt: WireType, vt: WireType) -> Result<
    Seq<(Seq<char>, BaseModel)>,
    DecodeError,
> {
    match kt {
        WireType::Scalar(kk) => if kk == ScalarKind::Text || kk == ScalarKind::Ascii {
            match vt {
                WireType::Scalar(vk) => match read_int(b) {
                    None => Err(DecodeError::MalformedBytes),
                    Some((n, rest)) => if n < 0 {
                        Err(DecodeError::MalformedBytes)
                    } else {
                        decode_entries_spec(rest, n as nat, kk, vk)
                    },
                },
                _ => Err(DecodeError::UnsupportedNesting),
            }
        } else {
            Err(DecodeError::UnsupportedMapKeyType)
        },
        _ => Err(DecodeError::UnsupportedMapKeyType),
    }
}

/// The value of a cell of the declared type `ty`.
pub open spec fn decode_spec(cell: Option<Seq<u8>>, ty: WireType) -> Result<
    Option<ResultModel>,
    DecodeError,
> {
    match cell {
        None => Ok(None),
        Some(b) => match ty {
            WireType::Scalar(k) => match decode_scalar_spec(b, k) {
                Ok(m) => Ok(Some(ResultModel::Scalar(m))),
                Err(e) => Err(e),
            },
            WireType::ListOf(elem) | WireType::SetOf(elem) => match decode_list_spec(b, *elem) {
                Ok(items) => Ok(Some(ResultModel::ListOf(items))),
                Err(e) => Err(e),
            },
            WireType::MapOf(kt, vt) => match decode_map_spec(b, *kt, *vt) {
                Ok(entries) => Ok(Some(ResultModel::MapOf(entries))),
                Err(e) => Err(e),
            },
            WireType::TupleOf(_) => Err(DecodeError::UnsupportedColumnType(TypeKind::TupleOf)),
            WireType::Record { fields, .. } => match decode_fields_spec(b, fields@) {
                Ok(entries) => Ok(Some(ResultModel::MapOf(entries))),
                Err(e) => Err(e),
            },
        },
    }
}

/// The bytes of a cell that is handed in as a slice.
pub open spec fn cell_view(cell: Option<&[u8]>) -> Option<Seq<u8>> {
    match cell {
        None => None,
        Some(b) => Some(b@),
    }
}

/// Whether the result `r` of the decoder agrees with `s`: no value, a
/// value with that model, or the same error.
pub open spec fn decoded_value_as(
    r: Result<Option<ResultValue>, DecodeError>,
    s: Result<Option<ResultModel>, DecodeError>,
) -> bool {
    match (r, s) {
        (Ok(None), Ok(None)) => true,
        (Ok(Some(value)), Ok(Some(expected))) => value@ == expected,
        (Err(e), Err(expected)) => e == expected,
        _ => false,
    }
}

fn decode_elements(s: &[u8], start: usize, n: usize, k: ScalarKind) -> (r: Result<
    Vec<BaseValue>,
    DecodeError,
>)
    requires
        start <= s@.len(),
    ensures
        match (r, decode_elements_spec(s@.subrange(start as int, s@.len() as int), n as nat, k)) {
            (Ok(items), Ok(expected)) => base_models(items@) == expected,
            (Err(e), Err(expected)) => e == expected,
            _ => false,
        },
{
    let len: usize = s.len();
    let ghost whole = decode_elements_spec(s@.subrange(start as int, s@.len() as int), n as nat, k);
    let mut acc: Vec<BaseValue> = Vec::new();
    let mut pos: usize = start;
    let mut i: usize = 0;
    proof {
        assert(base_models(acc@) =~= Seq::<BaseModel>::empty());
        match whole {
            Ok(all) => {
                assert(Seq::<BaseModel>::empty() + all =~= all);
            },
            Err(_) => {},
        }
    }
    while i < n
        invariant
            len == s@.len(),
            i <= n,
            pos <= len,
            start <= len,
            whole == decode_elements_spec(
                s@.subrange(start as int, s@.len() as int),
                n as nat,
                k,
            ),
            whole == after(
                base_models(acc@),
                decode_elements_spec(s@.subrange(pos as int, len as int), (n - i) as nat, k),
            ),
        decreases n - i,
    {
        match take_cell(s, pos) {
            None => {
                return Err(DecodeError::MalformedBytes);
            },
            Some((None, _)) => {
                return Err(DecodeError::MalformedBytes);
            },
            Some((Some(body), next)) => {
                match decode_scalar(body, k) {
                    Err(e) => {
                        return Err(e);
                    },
                    Ok(b) => {
                        proof {
                            let head = base_models(acc@);
                            assert(base_models(acc@.push(b)) =~= head + seq![b@]);
                            match decode_elements_spec(
                                s@.subrange(next as int, len as int),
                                (n - i - 1) as nat,
                                k,
                            ) {
                                Ok(tail) => {
                                    assert(head + (seq![b@] + tail) =~= (head + seq![b@]) + tail);
                                },
                                Err(_) => {},
                            }
                        }
                        acc.push(b);
                        pos = next;
                    },
                }
            },
        }
        i = i + 1;
    }
    if pos == len {
        proof {
            assert(base_models(acc@) + Seq::<BaseModel>::empty() =~= base_models(acc@));
        }
        Ok(acc)
    } else {
        Err(DecodeError::MalformedBytes)
    }
}

fn decode_entry<'a>(s: &'a [u8], pos: usize, kk: ScalarKind, vk: ScalarKind) -> (r: Result<
    ((String, BaseValue), usize),
    DecodeError,
>)
    requires
        pos <= s@.len(),
    ensures
        match (r, decode_entry_spec(s@.subrange(pos as int, s@.len() as int), kk, vk)) {
            (Ok(((key, value), next)), Ok(((expected_key, expected), rest))) => key@
                == expected_key && value@ == expected && next <= s@.len() && rest == s@.subrange(
                next as int,
                s@.len() as int,
            ),
            (Err(e), Err(expected)) => e == expected,
            _ => false,
        },
{
    reveal(decode_entry_spec);
    match take_cell(s, pos) {
        None => Err(DecodeError::MalformedBytes),
        Some((None, _)) => Err(DecodeError::MalformedBytes),
        Some((Some(key_body), mid)) => match decode_scalar(key_body, kk) {
            Err(e) => Err(e),
            Ok(BaseValue::Text(key)) => match take_cell(s, mid) {
                None => Err(DecodeError::MalformedBytes),
                Some((None, _)) => Err(DecodeError::MalformedBytes),
                Some((Some(body), next)) => match decode_scalar(body, vk) {
                    Err(e) => Err(e),
                    Ok(b) => Ok(((key, b), next)),
                },
            },
            Ok(_) => Err(DecodeError::UnsupportedMapKeyType),
        },
    }
}

fn decode_entries(s: &[u8], start: usize, n: usize, kk: ScalarKind, vk: ScalarKind) -> (r: Result<
    Vec<(String, BaseValue)>,
    DecodeError,
>)
    requires
        start <= s@.len(),
    ensures
        match (
            r,
            decode_entries_spec(s@.subrange(start as int, s@.len() as int), n as nat, kk, vk),
        ) {
            (Ok(entries), Ok(expected)) => entry_models(entries@) == expected,
            (Err(e), Err(expected)) => e == expected,
            _ => false,
        },
{
    let len: usize = s.len();
    let ghost whole = decode_entries_spec(
        s@.subrange(start as int, s@.len() as int),
        n as nat,
        kk,
        vk,
    );
    let mut acc: Vec<(String, BaseValue)> = Vec::new();
    let mut pos: usize = start;
    let mut i: usize = 0;
    proof {
        assert(entry_models(acc@) =~= Seq::<(Seq<char>, BaseModel)>::empty());
        match whole {
            Ok(all) => {
                assert(Seq::<(Seq<char>, BaseModel)>::empty() + all =~= all);
            },
            Err(_) => {},
        }
    }
    while i < n
        invariant
            len == s@.len(),
            i <= n,
            pos <= len,
            start <= len,
            whole == decode_entries_spec(
                s@.subrange(start as int, s@.len() as int),
                n as nat,
                kk,
                vk,
            ),
            whole == after(
                entry_models(acc@),
                decode_entries_spec(s@.subrange(pos as int, len as int), (n - i) as nat, kk, vk),
            ),
        decreases n - i,
    {
        match decode_entry(s, pos, kk, vk) {
            Err(e) => {
                return Err(e);
            },
            Ok((entry, next)) => {
                proof {
                    let head = entry_models(acc@);
                    let m = (entry.0@, entry.1@);
                    assert(entry_models(acc@.push(entry)) =~= head + seq![m]);
                    match decode_entries_spec(
                        s@.subrange(next as int, len as int),
                        (n - i - 1) as nat,
                        kk,
                        vk,
                    ) {
                        Ok(tail) => {
                            assert(head + (seq![m] + tail) =~= (head + seq![m]) + tail);
                        },
                        Err(_) => {},
                    }
                }
                acc.push(entry);
                pos = next;
            },
        }
        i = i + 1;
    }
    if pos == len {
        proof {
            assert(entry_models(acc@) + Seq::<(Seq<char>, BaseModel)>::empty() =~= entry_models(
                acc@,
            ));
        }
        Ok(acc)
    } else {
        Err(DecodeError::MalformedBytes)
    }
}

fn decode_base(cell: Option<&[u8]>, ty: &WireType) -> (r: Result<Option<BaseValue>, DecodeError>)
    ensures
        match (r, decode_base_spec(cell_view(cell), *ty)) {
            (Ok(None), Ok(None)) => true,
            (Ok(Some(value)), Ok(Some(expected))) => value@ == expected,
            (Err(e), Err(expected)) => e == expected,
            _ => false,
        },
{
    match cell {
        None => Ok(None),
        Some(b) => match ty {
            WireType::Scalar(k) => match decode_scalar(b, *k) {
                Ok(value) => Ok(Some(value)),
                Err(e) => Err(e),
            },
            _ => Err(DecodeError::UnsupportedNesting),
        },
    }
}

fn decode_fields(s: &[u8], fields: &Vec<(String, WireType)>) -> (r: Result<
    Vec<(String, BaseValue)>,
    DecodeError,
>)
    ensures
        match (r, decode_fields_spec(s@, fields@)) {
            (Ok(entries), Ok(expected)) => entry_models(entries@) == expected,
            (Err(e), Err(expected)) => e == expected,
            _ => false,
        },
{
    let len: usize = s.len();
    let n: usize = fields.len();
    let ghost whole = decode_fields_spec(s@, fields@);
    let mut acc: Vec<(String, BaseValue)> = Vec::new();
    let mut pos: usize = 0;
    let mut i: usize = 0;
    proof {
        assert(s@.subrange(0, len as int) =~= s@);
        assert(fields@.skip(0) =~= fields@);
        assert(entry_models(acc@) =~= Seq::<(Seq<char>, BaseModel)>::empty());
        match whole {
            Ok(all) => {
                assert(Seq::<(Seq<char>, BaseModel)>::empty() + all =~= all);
            },
            Err(_) => {},
        }
    }
    while i < n && pos < len
        invariant
            len == s@.len(),
            n == fields@.len(),
            i <= n,
            pos <= len,
            whole == decode_fields_spec(s@, fields@),
            whole == after(
                entry_models(acc@),
                decode_fields_spec(s@.subrange(pos as int, len as int), fields@.skip(i as int)),
            ),
        decreases n - i,
    {
        proof {
            assert(fields@.skip(i as int).drop_first() =~= fields@.skip(i + 1));
            assert(fields@.skip(i as int)[0] == fields@[i as int]);
        }
        match take_cell(s, pos) {
            None => {
                return Err(DecodeError::MalformedBytes);
            },
            Some((cell, next)) => {
                match decode_base(cell, &fields[i].1) {
                    Err(e) => {
                        return Err(e);
                    },
                    Ok(None) => {},
                    Ok(Some(b)) => {
                        let name: String = fields[i].0.clone();
                        proof {
                            let head = entry_models(acc@);
                            let m = (name@, b@);
                            assert(entry_models(acc@.push((name, b))) =~= head + seq![m]);
                            match decode_fields_spec(
                                s@.subrange(next as int, len as int),
                                fields@.skip(i + 1),
                            ) {
                                Ok(tail) => {
                                    assert(head + (seq![m] + tail) =~= (head + seq![m]) + tail);
                                },
                                Err(_) => {},
                            }
                        }
                        acc.push((name, b));
                    },
                }
                pos = next;
            },
        }
        i = i + 1;
    }
    if pos == len {
        proof {
            assert(entry_models(acc@) + Seq::<(Seq<char>, BaseModel)>::empty() =~= entry_models(
                acc@,
            ));
        }
        Ok(acc)
    } else {
        Err(DecodeError::MalformedBytes)
    }
}

fn decode_list(b: &[u8], elem: &WireType) -> (r: Result<Vec<BaseValue>, DecodeError>)
    ensures
        match (r, decode_list_spec(b@, *elem)) {
            (Ok(items), Ok(expected)) => base_models(items@) == expected,
            (Err(e), Err(expected)) => e == expected,
            _ => false,
        },
{
    assert(b@.subrange(0, b@.len() as int) =~= b@);
    match elem {
        WireType::Scalar(k) => match take_int(b, 0) {
            None => Err(DecodeError::MalformedBytes),
            Some((n, start)) => if n < 0 {
                Err(DecodeError::MalformedBytes)
            } else {
                decode_elements(b, start, n as usize, *k)
            },
        },
        _ => Err(DecodeError::UnsupportedNesting),
    }
}

fn decode_map(b: &[u8], kt: &WireType, vt: &WireType) -> (r: Result<
    Vec<(String, BaseValue)>,
    DecodeError,
>)
    ensures
        match (r, decode_map_spec(b@, *kt, *vt)) {
            (Ok(entries), Ok(expected)) => entry_models(entries@) == expected,
            (Err(e), Err(expected)) => e == expected,
            _ => false,
        },
{
    assert(b@.subrange(0, b@.len() as int) =~= b@);
    let kk: ScalarKind = match kt {
        WireType::Scalar(ScalarKind::Text) => ScalarKind::Text,
        WireType::Scalar(ScalarKind::Ascii) => ScalarKind::Ascii,
        _ => {
            return Err(DecodeError::UnsupportedMapKeyType);
        },
    };
    match vt {
        WireType::Scalar(vk) => match take_int(b, 0) {
            None => Err(DecodeError::MalformedBytes),
            Some((n, start)) => if n < 0 {
                Err(DecodeError::MalformedBytes)
            } else {
                decode_entries(b, start, n as usize, kk, *vk)
            },
        },
        _ => Err(DecodeError::UnsupportedNesting),
    }
}

/// Decodes one cell of the declared type `ty`. A null cell gives
/// `Ok(None)`; a cell that is not null gives its value, or the error that
/// says why the bytes or the type cannot be decoded.
pub fn decode(cell: Option<&[u8]>, ty: &WireType) -> (r: Result<Option<ResultValue>, DecodeError>)
    ensures
        decoded_value_as(r, decode_spec(cell_view(cell), *ty)),
{
    match cell {
        None => Ok(None),
        Some(b) => match ty {
            WireType::Scalar(k) => match decode_scalar(b, *k) {
                Ok(value) => Ok(Some(ResultValue::Scalar(value))),
                Err(e) => Err(e),
            },
            WireType::ListOf(elem) | WireType::SetOf(elem) => match decode_list(b, elem) {
                Ok(items) => Ok(Some(ResultValue::ListOf(items))),
                Err(e) => Err(e),
            },
            WireType::MapOf(kt, vt) => match decode_map(b, kt, vt) {
                Ok(entries) => Ok(Some(ResultValue::MapOf(entries))),
                Err(e) => Err(e),
            },
            WireType::TupleOf(_) => Err(DecodeError::UnsupportedColumnType(TypeKind::TupleOf)),
            WireType::Record { fields, .. } => match decode_fields(b, fields) {
                Ok(entries) => Ok(Some(ResultValue::MapOf(entries))),
                Err(e) => Err(e),
            },
        },
    }
}

} // verus!
