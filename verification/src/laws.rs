//! What holds of the encoder and the decoder together.

use vstd::prelude::*;
use vstd::utf8::{encode_utf8_decode_utf8, encode_utf8_valid_utf8};
use crate::be::{
    be_bytes, be_value, fits_signed, to_signed, to_unsigned, lemma_be_bytes_len,
    lemma_be_value_of_bytes, lemma_pow256_values, lemma_signed_round_trip,
};
use crate::decoder::{
    decode_elements_spec, decode_entries_spec, decode_entry_spec, decode_fields_spec, decode_spec,
};
use crate::descriptor::{ColumnSpec, ScalarKind, WireType};
use crate::encoder::{
    encode_spec, encode_value_spec, field_bytes, find_entry, framed, join, key_bytes,
    lemma_join_step, list_bytes, list_parts, map_parts, pair, record_parts,
};
use crate::error::{DecodeError, EncodeError, ValueKind};
use crate::ieee::widen_bits;
use crate::rows::{cell_model, project_cells_spec, project_row_spec, project_spec, Row};
use crate::scalar::{
    decode_duration_spec, decode_scalar_spec, encode_integer_spec, encode_scalar_spec,
    signed_width,
};
use crate::types::duration::Duration;
use crate::value::{BaseModel, ParameterValue, ResultModel};
use crate::vint::{lemma_vint_round_trip, vint_bytes};
use crate::wire::{
    cell_bytes, read_cell, lemma_int_bytes_len, lemma_read_cell_round_trip,
    lemma_read_int_round_trip,
};

verus! {

/// The result value that the integer `n` comes back as from a column of
/// the scalar kind `k`.
pub open spec fn integer_result(n: int, k: ScalarKind) -> BaseModel {
    if k == ScalarKind::Varint {
        BaseModel::Varint(be_bytes(to_unsigned(n, signed_width(n)), signed_width(n)))
    } else {
        BaseModel::Int(n as i64)
    }
}

/// The result value that the parameter `v` comes back as from a column
/// of the scalar kind `k`: the same value, an integer widened to 64 bits
/// and a single-precision number widened to double precision.
pub open spec fn scalar_result(v: ParameterValue, k: ScalarKind) -> BaseModel {
    match v {
        ParameterValue::U32(n) => integer_result(n as int, k),
        ParameterValue::BigInt(n) => integer_result(n as int, k),
        ParameterValue::Text(s) => BaseModel::Text(s@),
        ParameterValue::Uuid(u) => BaseModel::Uuid(u@),
        ParameterValue::Duration(d) => BaseModel::Duration(d),
        ParameterValue::Decimal(d) => BaseModel::Decimal(d@.0, d@.1),
        ParameterValue::Bool(b) => BaseModel::Bool(b),
        ParameterValue::Blob(b) => BaseModel::Bytes(b@),
        ParameterValue::Float(bits) => BaseModel::Double(widen_bits(bits)),
        ParameterValue::Varint(b) => BaseModel::Varint(b@),
        _ => BaseModel::Bytes(Seq::empty()),
    }
}

proof fn lemma_fixed_round_trip(n: int, w: nat)
    requires
        w == 1 || w == 2 || w == 4 || w == 8,
        fits_signed(n, w),
    ensures
        be_bytes(to_unsigned(n, w), w).len() == w,
        to_signed(be_value(be_bytes(to_unsigned(n, w), w)), w) == n,
        -0x8000_0000_0000_0000 <= n < 0x8000_0000_0000_0000,
{
    lemma_pow256_values();
    lemma_signed_round_trip(n, w);
    lemma_be_bytes_len(to_unsigned(n, w), w);
    lemma_be_value_of_bytes(to_unsigned(n, w), w);
}

proof fn lemma_unsigned_round_trip(n: nat, w: nat)
    requires
        w == 4 || w == 8 || w == 16,
        w == 4 ==> n < 0x1_0000_0000,
        w == 8 ==> n < 0x1_0000_0000_0000_0000,
        w == 16 ==> n < 0x1_0000_0000_0000_0000_0000_0000_0000_0000,
    ensures
        be_bytes(n, w).len() == w,
        be_value(be_bytes(n, w)) == n,
{
    lemma_pow256_values();
    lemma_be_bytes_len(n, w);
    lemma_be_value_of_bytes(n, w);
}

proof fn lemma_integer_round_trip(n: int, actual: ValueKind, k: ScalarKind)
    requires
        -0x8000_0000_0000_0000 <= n < 0x8000_0000_0000_0000,
        encode_integer_spec(n, actual, k) is Ok,
    ensures
        decode_scalar_spec(encode_integer_spec(n, actual, k)->Ok_0, k) == Ok::<
            BaseModel,
            DecodeError,
        >(integer_result(n, k)),
{
    reveal(decode_scalar_spec);
    match k {
        ScalarKind::TinyInt => lemma_fixed_round_trip(n, 1),
        ScalarKind::SmallInt => lemma_fixed_round_trip(n, 2),
        ScalarKind::Int => lemma_fixed_round_trip(n, 4),
        ScalarKind::BigInt | ScalarKind::Counter | ScalarKind::Timestamp => lemma_fixed_round_trip(
            n,
            8,
        ),
        ScalarKind::Time => lemma_unsigned_round_trip(n as nat, 8),
        ScalarKind::Date => lemma_unsigned_round_trip(n as nat, 4),
        _ => {},
    }
}

proof fn lemma_duration_round_trip(months: i32, days: i32, nanoseconds: i64)
    ensures
        decode_duration_spec(
            vint_bytes(months as int) + vint_bytes(days as int) + vint_bytes(nanoseconds as int),
        ) == Ok::<BaseModel, DecodeError>(
            BaseModel::Duration(Duration { months, days, nanoseconds }),
        ),
{
    let a = vint_bytes(months as int);
    let b = vint_bytes(days as int);
    let c = vint_bytes(nanoseconds as int);
    let whole = a + b + c;
    let empty = Seq::<u8>::empty();
    lemma_vint_round_trip(months as int, b + c);
    lemma_vint_round_trip(days as int, c);
    lemma_vint_round_trip(nanoseconds as int, empty);
    assert(whole =~= a + (b + c));
    assert(whole.subrange(a.len() as int, whole.len() as int) =~= b + c);
    assert(whole.subrange((a.len() + b.len()) as int, whole.len() as int) =~= c + empty);
    assert(c + empty =~= c);
}

/// A scalar that was encoded for a kind is decoded, for the same kind,
/// as the value it was.
pub proof fn lemma_scalar_round_trip(v: ParameterValue, k: ScalarKind)
    requires
        encode_scalar_spec(v, k) is Ok,
    ensures
        decode_scalar_spec(encode_scalar_spec(v, k)->Ok_0, k) == Ok::<BaseModel, DecodeError>(
            scalar_result(v, k),
        ),
{
    reveal(encode_scalar_spec);
    reveal(decode_scalar_spec);
    lemma_pow256_values();
    match v {
        ParameterValue::U32(n) => {
            lemma_integer_round_trip(n as int, ValueKind::U32, k);
        },
        ParameterValue::BigInt(n) => {
            lemma_integer_round_trip(n as int, ValueKind::BigInt, k);
        },
        ParameterValue::Text(s) => {
            encode_utf8_valid_utf8(s@);
            encode_utf8_decode_utf8(s@);
        },
        ParameterValue::Uuid(u) => {
            lemma_unsigned_round_trip(u@ as nat, 16);
        },
        ParameterValue::Duration(d) => {
            lemma_duration_round_trip(d.months, d.days, d.nanoseconds);
        },
        ParameterValue::Decimal(d) => {
            lemma_read_int_round_trip(d@.1 as int, d@.0);
        },
        ParameterValue::Bool(b) => {},
        ParameterValue::Blob(b) => {},
        ParameterValue::Float(bits) => {
            lemma_unsigned_round_trip(bits as nat, 4);
            lemma_unsigned_round_trip(widen_bits(bits) as nat, 8);
        },
        ParameterValue::Varint(b) => {},
        _ => {},
    }
}

/// Whether the result side can hold a value of the type `ty`: a scalar,
/// a list or set of scalars, a map from text to scalars, or a record of
/// scalars.
pub open spec fn decodable(ty: WireType) -> bool {
    match ty {
        WireType::Scalar(_) => true,
        WireType::ListOf(elem) | WireType::SetOf(elem) => *elem is Scalar,
        WireType::MapOf(kt, vt) => kt.spec_is_text() && *vt is Scalar,
        WireType::TupleOf(_) => false,
        WireType::Record { fields, .. } => forall|i: int|
            0 <= i < fields@.len() ==> (#[trigger] fields@[i]).1 is Scalar,
    }
}

/// The elements of a list as they come back, each of the scalar kind `k`.
pub open spec fn list_result(items: Seq<ParameterValue>, k: ScalarKind) -> Seq<BaseModel> {
    Seq::new(items.len(), |i: int| scalar_result(items[i], k))
}

/// The entries of a map as they come back, each value of the scalar kind `k`.
pub open spec fn map_result(entries: Seq<(String, ParameterValue)>, k: ScalarKind) -> Seq<
    (Seq<char>, BaseModel),
> {
    Seq::new(entries.len(), |i: int| (entries[i].0@, scalar_result(entries[i].1, k)))
}

/// The fields of a record as they come back: in the declared order, each
/// with the first entry that bears its name, and without the fields that
/// no entry names.
pub open spec fn record_result(
    entries: Seq<(String, ParameterValue)>,
    fields: Seq<(String, WireType)>,
) -> Seq<(Seq<char>, BaseModel)>
    decreases fields.len(),
{
    if fields.len() == 0 {
        Seq::empty()
    } else {
        match (find_entry(entries, fields[0].0@, 0), fields[0].1) {
            (Some(j), WireType::Scalar(k)) => seq![(fields[0].0@, scalar_result(entries[j].1, k))]
                + record_result(entries, fields.drop_first()),
            _ => record_result(entries, fields.drop_first()),
        }
    }
}

/// The result value that the parameter `v` comes back as from a column
/// of the type `ty`.
pub open spec fn expected_result(v: ParameterValue, ty: WireType) -> ResultModel {
    match ty {
        WireType::Scalar(k) => ResultModel::Scalar(scalar_result(v, k)),
        WireType::ListOf(elem) | WireType::SetOf(elem) => match (v, *elem) {
            (ParameterValue::ListOf(items), WireType::Scalar(k)) => ResultModel::ListOf(
                list_result(items@, k),
            ),
            (ParameterValue::SetOf(items), WireType::Scalar(k)) => ResultModel::ListOf(
                list_result(items@, k),
            ),
            _ => ResultModel::ListOf(Seq::empty()),
        },
        WireType::MapOf(_, vt) => match (v, *vt) {
            (ParameterValue::MapOf(entries), WireType::Scalar(k)) => ResultModel::MapOf(
                map_result(entries@, k),
            ),
            _ => ResultModel::MapOf(Seq::empty()),
        },
        WireType::Record { fields, .. } => match v {
            ParameterValue::MapOf(entries) => ResultModel::MapOf(record_result(entries@, fields@)),
            _ => ResultModel::MapOf(Seq::empty()),
        },
        WireType::TupleOf(_) => ResultModel::ListOf(Seq::empty()),
    }
}

proof fn lemma_find_entry_in_range(entries: Seq<(String, ParameterValue)>, name: Seq<char>, from: int)
    requires
        0 <= from,
    ensures
        match find_entry(entries, name, from) {
            None => true,
            Some(j) => from <= j < entries.len() && entries[j].0@ == name,
        },
    decreases entries.len() - from,
{
    if from < entries.len() && entries[from].0@ != name {
        lemma_find_entry_in_range(entries, name, from + 1);
    }
}

proof fn lemma_elements_round_trip(items: Seq<ParameterValue>, k: ScalarKind, i: int)
    requires
        0 <= i <= items.len(),
        join(list_parts(items, WireType::Scalar(k)).skip(i)) is Ok,
    ensures
        decode_elements_spec(
            join(list_parts(items, WireType::Scalar(k)).skip(i))->Ok_0,
            (items.len() - i) as nat,
            k,
        ) == Ok::<Seq<BaseModel>, DecodeError>(list_result(items, k).skip(i)),
    decreases items.len() - i,
{
    let parts = list_parts(items, WireType::Scalar(k));
    let bytes = join(parts.skip(i))->Ok_0;
    if i == items.len() {
        assert(list_result(items, k).skip(i) =~= Seq::<BaseModel>::empty());
    } else {
        lemma_join_step(parts, i);
        let body = encode_scalar_spec(items[i], k)->Ok_0;
        let tail = join(parts.skip(i + 1))->Ok_0;
        assert(parts[i] == framed(encode_value_spec(items[i], WireType::Scalar(k))));
        assert(bytes == cell_bytes(Some(body)) + tail);
        lemma_read_cell_round_trip(Some(body), tail);
        lemma_scalar_round_trip(items[i], k);
        lemma_elements_round_trip(items, k, i + 1);
        assert(seq![scalar_result(items[i], k)] + list_result(items, k).skip(i + 1)
            =~= list_result(items, k).skip(i));
    }
}

proof fn lemma_key_round_trip(key: Seq<char>, kt: WireType)
    requires
        key_bytes(key, kt) is Ok,
    ensures
        kt matches WireType::Scalar(kk) && (kk == ScalarKind::Text || kk == ScalarKind::Ascii)
            && decode_scalar_spec(key_bytes(key, kt)->Ok_0, kk) == Ok::<BaseModel, DecodeError>(
            BaseModel::Text(key),
        ),
{
    reveal(decode_scalar_spec);
    encode_utf8_valid_utf8(key);
    encode_utf8_decode_utf8(key);
}

proof fn lemma_entry_round_trip(
    key: Seq<char>,
    kk: ScalarKind,
    v: ParameterValue,
    vk: ScalarKind,
    tail: Seq<u8>,
)
    requires
        kk == ScalarKind::Text || kk == ScalarKind::Ascii,
        framed(key_bytes(key, WireType::Scalar(kk))) is Ok,
        framed(encode_scalar_spec(v, vk)) is Ok,
    ensures
        decode_entry_spec(
            framed(key_bytes(key, WireType::Scalar(kk)))->Ok_0 + framed(
                encode_scalar_spec(v, vk),
            )->Ok_0 + tail,
            kk,
            vk,
        ) == Ok::<((Seq<char>, BaseModel), Seq<u8>), DecodeError>(
            ((key, scalar_result(v, vk)), tail),
        ),
{
    reveal(decode_entry_spec);
    let kt = WireType::Scalar(kk);
    let key_body = key_bytes(key, kt)->Ok_0;
    let body = encode_scalar_spec(v, vk)->Ok_0;
    let bytes = cell_bytes(Some(key_body)) + cell_bytes(Some(body)) + tail;
    assert(bytes =~= cell_bytes(Some(key_body)) + (cell_bytes(Some(body)) + tail));
    lemma_read_cell_round_trip(Some(key_body), cell_bytes(Some(body)) + tail);
    lemma_read_cell_round_trip(Some(body), tail);
    lemma_key_round_trip(key, kt);
    lemma_scalar_round_trip(v, vk);
}

proof fn lemma_entries_step(
    entries: Seq<(String, ParameterValue)>,
    kk: ScalarKind,
    vk: ScalarKind,
    i: int,
)
    requires
        0 <= i < entries.len(),
        kk == ScalarKind::Text || kk == ScalarKind::Ascii,
        join(map_parts(entries, WireType::Scalar(kk), WireType::Scalar(vk)).skip(i)) is Ok,
    ensures
        join(map_parts(entries, WireType::Scalar(kk), WireType::Scalar(vk)).skip(i + 1)) is Ok,
        decode_entry_spec(
            join(map_parts(entries, WireType::Scalar(kk), WireType::Scalar(vk)).skip(i))->Ok_0,
            kk,
            vk,
        ) == Ok::<((Seq<char>, BaseModel), Seq<u8>), DecodeError>(
            (
                (entries[i].0@, scalar_result(entries[i].1, vk)),
                join(
                    map_parts(entries, WireType::Scalar(kk), WireType::Scalar(vk)).skip(i + 1),
                )->Ok_0,
            ),
        ),
{
    let kt = WireType::Scalar(kk);
    let vt = WireType::Scalar(vk);
    let parts = map_parts(entries, kt, vt);
    lemma_join_step(parts, i);
    let key = entries[i].0@;
    let tail = join(parts.skip(i + 1))->Ok_0;
    assert(parts[i] == pair(
        framed(key_bytes(key, kt)),
        framed(encode_value_spec(entries[i].1, vt)),
    ));
    assert(encode_value_spec(entries[i].1, vt) == encode_scalar_spec(entries[i].1, vk));
    lemma_entry_round_trip(key, kk, entries[i].1, vk, tail);
}

proof fn lemma_entries_round_trip(
    entries: Seq<(String, ParameterValue)>,
    kk: ScalarKind,
    vk: ScalarKind,
    i: int,
)
    requires
        0 <= i <= entries.len(),
        kk == ScalarKind::Text || kk == ScalarKind::Ascii,
        join(map_parts(entries, WireType::Scalar(kk), WireType::Scalar(vk)).skip(i)) is Ok,
    ensures
        decode_entries_spec(
            join(map_parts(entries, WireType::Scalar(kk), WireType::Scalar(vk)).skip(i))->Ok_0,
            (entries.len() - i) as nat,
            kk,
            vk,
        ) == Ok::<Seq<(Seq<char>, BaseModel)>, DecodeError>(map_result(entries, vk).skip(i)),
    decreases entries.len() - i,
{
    let parts = map_parts(entries, WireType::Scalar(kk), WireType::Scalar(vk));
    if i == entries.len() {
        assert(parts.skip(i) =~= Seq::empty());
        assert(map_result(entries, vk).skip(i) =~= Seq::<(Seq<char>, BaseModel)>::empty());
    } else {
        lemma_entries_step(entries, kk, vk, i);
        lemma_entries_round_trip(entries, kk, vk, i + 1);
        assert(seq![(entries[i].0@, scalar_result(entries[i].1, vk))] + map_result(
            entries,
            vk,
        ).skip(i + 1) =~= map_result(entries, vk).skip(i));
    }
}

proof fn lemma_fields_round_trip(
    entries: Seq<(String, ParameterValue)>,
    fields: Seq<(String, WireType)>,
    i: int,
)
    requires
        0 <= i <= fields.len(),
        forall|j: int| 0 <= j < fields.len() ==> (#[trigger] fields[j]).1 is Scalar,
        join(record_parts(entries, fields).skip(i)) is Ok,
    ensures
        decode_fields_spec(join(record_parts(entries, fields).skip(i))->Ok_0, fields.skip(i))
            == Ok::<Seq<(Seq<char>, BaseModel)>, DecodeError>(
            record_result(entries, fields.skip(i)),
        ),
    decreases fields.len() - i,
{
    let parts = record_parts(entries, fields);
    let bytes = join(parts.skip(i))->Ok_0;
    if i == fields.len() {
    } else {
        lemma_join_step(parts, i);
        let name = fields[i].0@;
        let k = fields[i].1->Scalar_0;
        let tail = join(parts.skip(i + 1))->Ok_0;
        assert(fields[i].1 == WireType::Scalar(k));
        assert(parts[i] == field_bytes(entries, name, fields[i].1));
        assert(fields.skip(i).drop_first() =~= fields.skip(i + 1));
        assert(fields.skip(i)[0] == fields[i]);
        lemma_find_entry_in_range(entries, name, 0);
        lemma_fields_round_trip(entries, fields, i + 1);
        lemma_int_bytes_len(-1);
        match find_entry(entries, name, 0) {
            None => {
                assert(bytes == cell_bytes(None) + tail);
                lemma_read_cell_round_trip(None, tail);
            },
            Some(j) => {
                let body = encode_scalar_spec(entries[j].1, k)->Ok_0;
                assert(bytes == cell_bytes(Some(body)) + tail);
                lemma_int_bytes_len(body.len() as int);
                lemma_read_cell_round_trip(Some(body), tail);
                lemma_scalar_round_trip(entries[j].1, k);
            },
        }
    }
}

/// A value that was encoded for a type which the result side can hold
/// is decoded, for the same type, as the value it was: integers widened
/// to 64 bits, the elements of a list in their order, the entries of a
/// map in their order, the fields of a record in the declared order.
pub proof fn lemma_round_trip(v: ParameterValue, ty: WireType)
    requires
        decodable(ty),
        encode_value_spec(v, ty) is Ok,
    ensures
        decode_spec(Some(encode_value_spec(v, ty)->Ok_0), ty) == Ok::<
            Option<ResultModel>,
            DecodeError,
        >(Some(expected_result(v, ty))),
{
    let bytes = encode_value_spec(v, ty)->Ok_0;
    match ty {
        WireType::Scalar(k) => {
            lemma_scalar_round_trip(v, k);
        },
        WireType::ListOf(elem) | WireType::SetOf(elem) => {
            let k = elem->Scalar_0;
            assert(*elem == WireType::Scalar(k));
            let items = match v {
                ParameterValue::ListOf(items) => items@,
                ParameterValue::SetOf(items) => items@,
                _ => Seq::empty(),
            };
            assert(encode_value_spec(v, ty) == list_bytes(items, *elem));
            let parts = list_parts(items, *elem);
            assert(parts.skip(0) =~= parts);
            let cells = join(parts)->Ok_0;
            lemma_read_int_round_trip(items.len() as int, cells);
            lemma_elements_round_trip(items, k, 0);
            assert(list_result(items, k).skip(0) =~= list_result(items, k));
        },
        WireType::MapOf(kt, vt) => {
            let kk = kt->Scalar_0;
            let vk = vt->Scalar_0;
            assert(*kt == WireType::Scalar(kk));
            assert(*vt == WireType::Scalar(vk));
            let entries = v->MapOf_0@;
            let parts = map_parts(entries, *kt, *vt);
            assert(parts.skip(0) =~= parts);
            let cells = join(parts)->Ok_0;
            lemma_read_int_round_trip(entries.len() as int, cells);
            lemma_entries_round_trip(entries, kk, vk, 0);
            assert(map_result(entries, vk).skip(0) =~= map_result(entries, vk));
        },
        WireType::TupleOf(_) => {},
        WireType::Record { fields, .. } => {
            let entries = v->MapOf_0@;
            let parts = record_parts(entries, fields@);
            assert(parts.skip(0) =~= parts);
            assert(fields@.skip(0) =~= fields@);
            lemma_fields_round_trip(entries, fields@, 0);
        },
    }
}

/// A cell that was written for a value, or for none, is read back and
/// decoded as that value, or as none, whatever follows the cell.
pub proof fn lemma_cell_round_trip(value: Option<ParameterValue>, ty: WireType, tail: Seq<u8>)
    requires
        decodable(ty),
        encode_spec(value, ty) is Ok,
    ensures
        match read_cell(encode_spec(value, ty)->Ok_0 + tail) {
            Some((cell, rest)) => rest == tail && (cell is None <==> value is None) && decode_spec(
                cell,
                ty,
            ) == Ok::<Option<ResultModel>, DecodeError>(
                match value {
                    None => None,
                    Some(v) => Some(expected_result(v, ty)),
                },
            ),
            None => false,
        },
{
    match value {
        None => {
            lemma_read_cell_round_trip(None, tail);
        },
        Some(v) => {
            let body = encode_value_spec(v, ty)->Ok_0;
            lemma_read_cell_round_trip(Some(body), tail);
            lemma_round_trip(v, ty);
        },
    }
}

/// No value is encoded as the null marker, for every type, and the null
/// marker is decoded as no value, for every type.
pub proof fn lemma_null_preserved(ty: WireType, tail: Seq<u8>)
    ensures
        encode_spec(None, ty) == Ok::<Seq<u8>, EncodeError>(cell_bytes(None)),
        read_cell(cell_bytes(None) + tail) == Some((None::<Seq<u8>>, tail)),
        decode_spec(None, ty) == Ok::<Option<ResultModel>, DecodeError>(None),
{
    lemma_read_cell_round_trip(None, tail);
}

/// A list or a set whose elements are not scalars is never decoded:
/// whatever the bytes, the result is `UnsupportedNesting`.
pub proof fn lemma_nested_collection_rejected(b: Seq<u8>, ty: WireType)
    requires
        match ty {
            WireType::ListOf(elem) | WireType::SetOf(elem) => !(*elem is Scalar),
            _ => false,
        },
    ensures
        decode_spec(Some(b), ty) == Err::<Option<ResultModel>, DecodeError>(
            DecodeError::UnsupportedNesting,
        ),
{
}

/// A map whose keys are not text is never decoded: whatever the bytes
/// and the type of the values, the result is `UnsupportedMapKeyType`.
pub proof fn lemma_map_key_must_be_text(b: Seq<u8>, ty: WireType)
    requires
        ty matches WireType::MapOf(kt, _) && !kt.spec_is_text(),
    ensures
        decode_spec(Some(b), ty) == Err::<Option<ResultModel>, DecodeError>(
            DecodeError::UnsupportedMapKeyType,
        ),
{
}

/// A map from text to scalars that was encoded is decoded with every
/// entry, in the order given.
pub proof fn lemma_map_entries_preserved(v: ParameterValue, ty: WireType)
    requires
        ty matches WireType::MapOf(kt, vt) && kt.spec_is_text() && *vt is Scalar,
        encode_value_spec(v, ty) is Ok,
    ensures
        v is MapOf,
        decode_spec(Some(encode_value_spec(v, ty)->Ok_0), ty) matches Ok(Some(ResultModel::MapOf(entries)))
            && entries.len() == v->MapOf_0@.len() && forall|i: int|
            0 <= i < entries.len() ==> (#[trigger] entries[i]).0 == v->MapOf_0@[i].0@,
{
    lemma_round_trip(v, ty);
}

/// An integer of one, two or four bytes is decoded with its sign: the
/// 64-bit result is the number that was written.
pub proof fn lemma_narrow_integer_keeps_sign(n: int, k: ScalarKind)
    requires
        k == ScalarKind::TinyInt || k == ScalarKind::SmallInt || k == ScalarKind::Int,
        fits_signed(n, integer_width(k)),
    ensures
        decode_scalar_spec(be_bytes(to_unsigned(n, integer_width(k)), integer_width(k)), k) == Ok::<
            BaseModel,
            DecodeError,
        >(BaseModel::Int(n as i64)),
        n as i64 == n,
{
    reveal(decode_scalar_spec);
    lemma_fixed_round_trip(n, integer_width(k));
}

/// The bytes of the integer kinds of fixed width.
pub open spec fn integer_width(k: ScalarKind) -> nat {
    match k {
        ScalarKind::TinyInt => 1,
        ScalarKind::SmallInt => 2,
        ScalarKind::Int => 4,
        _ => 8,
    }
}

/// One byte of the 8-bit integer kind is decoded as a number from -128
/// to 127: a byte from 128 on stands for the byte less 256.
pub proof fn lemma_tinyint_byte(b: u8)
    ensures
        decode_scalar_spec(seq![b], ScalarKind::TinyInt) == Ok::<BaseModel, DecodeError>(
            BaseModel::Int(
                if b < 128 {
                    b as i64
                } else {
                    (b - 256) as i64
                },
            ),
        ),
{
    reveal(decode_scalar_spec);
    lemma_pow256_values();
    let s = seq![b];
    assert(s.drop_last() =~= Seq::<u8>::empty());
    assert(be_value(s.drop_last()) == 0);
    assert(be_value(s) == b as nat);
}

/// A row that has not one cell per column is never projected.
pub proof fn lemma_shape_mismatch(row: Row, specs: Seq<ColumnSpec>)
    requires
        row.columns@.len() != specs.len(),
    ensures
        project_row_spec(row, specs) == Err::<Seq<(Seq<char>, ResultModel)>, DecodeError>(
            DecodeError::ShapeMismatch,
        ),
{
}

/// The first row that has not one cell per column ends the projection
/// of a result set with `ShapeMismatch`, where the rows before it decode.
pub proof fn lemma_shape_mismatch_in_rows(rows: Seq<Row>, specs: Seq<ColumnSpec>, i: int)
    requires
        0 <= i < rows.len(),
        rows[i].columns@.len() != specs.len(),
        forall|j: int| 0 <= j < i ==> project_row_spec(#[trigger] rows[j], specs) is Ok,
    ensures
        project_spec(rows, specs) == Err::<Seq<Seq<(Seq<char>, ResultModel)>>, DecodeError>(
            DecodeError::ShapeMismatch,
        ),
    decreases i,
{
    if i > 0 {
        let rest = rows.drop_first();
        assert(rest[i - 1] == rows[i]);
        assert forall|j: int| 0 <= j < i - 1 implies project_row_spec(#[trigger] rest[j], specs) is Ok by {
            assert(rest[j] == rows[j + 1]);
        }
        lemma_shape_mismatch_in_rows(rest, specs, i - 1);
    }
}

/// The `i`-th cell of `s`: `Some(None)` where it is a null, `None` where
/// `s` ends before it.
pub open spec fn nth_cell(s: Seq<u8>, i: nat) -> Option<Option<Seq<u8>>>
    decreases i,
{
    match read_cell(s) {
        None => None,
        Some((cell, rest)) => if i == 0 {
            Some(cell)
        } else {
            nth_cell(rest, (i - 1) as nat)
        },
    }
}

proof fn lemma_field_of_entry(s: Seq<u8>, fields: Seq<(String, WireType)>, j: int) -> (i: int)
    requires
        decode_fields_spec(s, fields) is Ok,
        0 <= j < decode_fields_spec(s, fields)->Ok_0.len(),
    ensures
        0 <= i < fields.len(),
        fields[i].0@ == decode_fields_spec(s, fields)->Ok_0[j].0,
        nth_cell(s, i as nat) matches Some(Some(_)),
    decreases fields.len(),
{
    let (cell, rest) = read_cell(s)->0;
    let tail = decode_fields_spec(rest, fields.drop_first())->Ok_0;
    if cell is Some && j == 0 {
        0
    } else {
        let w = lemma_field_of_entry(
            rest,
            fields.drop_first(),
            if cell is Some {
                j - 1
            } else {
                j
            },
        );
        assert(fields.drop_first()[w] == fields[w + 1]);
        w + 1
    }
}

/// A field of a record whose cell is null is left out of the decoded
/// mapping: no entry bears its name, where the names of the fields
/// differ from one another.
pub proof fn lemma_null_field_omitted(s: Seq<u8>, fields: Seq<(String, WireType)>, i: int)
    requires
        0 <= i < fields.len(),
        nth_cell(s, i as nat) == Some(None::<Seq<u8>>),
        forall|a: int, b: int|
            0 <= a < b < fields.len() ==> (#[trigger] fields[a]).0@ != (#[trigger] fields[b]).0@,
        decode_fields_spec(s, fields) is Ok,
    ensures
        forall|j: int|
            0 <= j < decode_fields_spec(s, fields)->Ok_0.len() ==> (#[trigger] decode_fields_spec(
                s,
                fields,
            )->Ok_0[j]).0 != fields[i].0@,
{
    let entries = decode_fields_spec(s, fields)->Ok_0;
    assert forall|j: int| 0 <= j < entries.len() implies (#[trigger] entries[j]).0
        != fields[i].0@ by {
        let w = lemma_field_of_entry(s, fields, j);
        if entries[j].0 == fields[i].0@ {
            if w < i {
                assert(fields[w].0@ != fields[i].0@);
            } else if i < w {
                assert(fields[i].0@ != fields[w].0@);
            }
        }
    }
}

proof fn lemma_column_of_entry(cells: Seq<Option<Vec<u8>>>, specs: Seq<ColumnSpec>, j: int) -> (i:
    int)
    requires
        cells.len() == specs.len(),
        project_cells_spec(cells, specs) is Ok,
        0 <= j < project_cells_spec(cells, specs)->Ok_0.len(),
    ensures
        0 <= i < specs.len(),
        specs[i].name@ == project_cells_spec(cells, specs)->Ok_0[j].0,
        cells[i] is Some,
    decreases cells.len(),
{
    let first = decode_spec(cell_model(cells[0]), specs[0].typ)->Ok_0;
    if first is Some && j == 0 {
        0
    } else {
        let w = lemma_column_of_entry(
            cells.drop_first(),
            specs.drop_first(),
            if first is Some {
                j - 1
            } else {
                j
            },
        );
        assert(specs.drop_first()[w] == specs[w + 1]);
        assert(cells.drop_first()[w] == cells[w + 1]);
        w + 1
    }
}

/// A column whose cell is null is left out of the row's mapping: no
/// entry bears its name, where the names of the columns differ from one
/// another.
pub proof fn lemma_null_column_omitted(row: Row, specs: Seq<ColumnSpec>, i: int)
    requires
        0 <= i < specs.len(),
        project_row_spec(row, specs) is Ok,
        row.columns@[i] is None,
        forall|a: int, b: int|
            0 <= a < b < specs.len() ==> (#[trigger] specs[a]).name@ != (#[trigger] specs[b]).name@,
    ensures
        forall|j: int|
            0 <= j < project_row_spec(row, specs)->Ok_0.len() ==> (#[trigger] project_row_spec(
                row,
                specs,
            )->Ok_0[j]).0 != specs[i].name@,
{
    let entries = project_row_spec(row, specs)->Ok_0;
    assert forall|j: int| 0 <= j < entries.len() implies (#[trigger] entries[j]).0
        != specs[i].name@ by {
        let w = lemma_column_of_entry(row.columns@, specs, j);
        if entries[j].0 == specs[i].name@ {
            if w < i {
                assert(specs[w].name@ != specs[i].name@);
            } else if i < w {
                assert(specs[i].name@ != specs[w].name@);
            }
        }
    }
}

} // verus!
