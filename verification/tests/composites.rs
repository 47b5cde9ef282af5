use scylla_bridge::decoder::decode;
use scylla_bridge::descriptor::{ScalarKind, TypeKind, WireType};
use scylla_bridge::encoder::{encode, encode_value};
use scylla_bridge::error::{DecodeError, EncodeError, ValueKind};
use scylla_bridge::types::uuid::Uuid;
use scylla_bridge::value::{BaseValue, ParameterValue, ResultValue};

fn scalar(k: ScalarKind) -> WireType {
    WireType::Scalar(k)
}

fn list_of(t: WireType) -> WireType {
    WireType::ListOf(Box::new(t))
}

fn set_of(t: WireType) -> WireType {
    WireType::SetOf(Box::new(t))
}

fn map_of(k: WireType, v: WireType) -> WireType {
    WireType::MapOf(Box::new(k), Box::new(v))
}

fn person() -> WireType {
    WireType::Record {
        keyspace: "ks".to_string(),
        name: "person".to_string(),
        fields: vec![
            ("id".to_string(), scalar(ScalarKind::Uuid)),
            ("age".to_string(), scalar(ScalarKind::Int)),
        ],
    }
}

#[test]
fn list_of_integers_round_trip() {
    let ty = list_of(scalar(ScalarKind::Int));
    let v = ParameterValue::ListOf(vec![
        ParameterValue::U32(1),
        ParameterValue::U32(2),
        ParameterValue::U32(3),
    ]);
    let bytes = encode_value(&v, &ty).unwrap();
    assert_eq!(
        bytes,
        vec![0, 0, 0, 3, 0, 0, 0, 4, 0, 0, 0, 1, 0, 0, 0, 4, 0, 0, 0, 2, 0, 0, 0, 4, 0, 0, 0, 3]
    );
    assert_eq!(
        decode(Some(bytes.as_slice()), &ty),
        Ok(Some(ResultValue::ListOf(vec![
            BaseValue::Int(1),
            BaseValue::Int(2),
            BaseValue::Int(3)
        ])))
    );
}

#[test]
fn empty_list_round_trip() {
    let ty = list_of(scalar(ScalarKind::Text));
    let bytes = encode_value(&ParameterValue::ListOf(vec![]), &ty).unwrap();
    assert_eq!(bytes, vec![0, 0, 0, 0]);
    assert_eq!(decode(Some(bytes.as_slice()), &ty), Ok(Some(ResultValue::ListOf(vec![]))));
}

#[test]
fn set_keeps_the_order_given() {
    let ty = set_of(scalar(ScalarKind::Text));
    let v = ParameterValue::SetOf(vec![
        ParameterValue::Text("b".to_string()),
        ParameterValue::Text("a".to_string()),
        ParameterValue::Text("b".to_string()),
    ]);
    let bytes = encode_value(&v, &ty).unwrap();
    assert_eq!(bytes, vec![0, 0, 0, 3, 0, 0, 0, 1, 0x62, 0, 0, 0, 1, 0x61, 0, 0, 0, 1, 0x62]);
    assert_eq!(
        decode(Some(bytes.as_slice()), &ty),
        Ok(Some(ResultValue::ListOf(vec![
            BaseValue::Text("b".to_string()),
            BaseValue::Text("a".to_string()),
            BaseValue::Text("b".to_string())
        ])))
    );
}

#[test]
fn list_and_set_values_serve_both_types() {
    let items = || vec![ParameterValue::Bool(true)];
    let as_list = encode_value(&ParameterValue::ListOf(items()), &set_of(scalar(ScalarKind::Boolean)));
    let as_set = encode_value(&ParameterValue::SetOf(items()), &list_of(scalar(ScalarKind::Boolean)));
    assert_eq!(as_list, Ok(vec![0, 0, 0, 1, 0, 0, 0, 1, 1]));
    assert_eq!(as_set, Ok(vec![0, 0, 0, 1, 0, 0, 0, 1, 1]));
}

#[test]
fn nested_list_encodes_but_is_never_decoded() {
    let ty = list_of(list_of(scalar(ScalarKind::Int)));
    let v = ParameterValue::ListOf(vec![ParameterValue::ListOf(vec![ParameterValue::U32(1)])]);
    let bytes = encode_value(&v, &ty).unwrap();
    assert_eq!(bytes, vec![0, 0, 0, 1, 0, 0, 0, 12, 0, 0, 0, 1, 0, 0, 0, 4, 0, 0, 0, 1]);
    assert_eq!(decode(Some(bytes.as_slice()), &ty), Err(DecodeError::UnsupportedNesting));
    assert_eq!(decode(Some(&[0, 0, 0, 0]), &ty), Err(DecodeError::UnsupportedNesting));
    assert_eq!(decode(Some(&[]), &ty), Err(DecodeError::UnsupportedNesting));
    let set = set_of(map_of(scalar(ScalarKind::Text), scalar(ScalarKind::Int)));
    assert_eq!(decode(Some(&[0, 0, 0, 0]), &set), Err(DecodeError::UnsupportedNesting));
    let of_records = list_of(person());
    assert_eq!(decode(Some(&[0, 0, 0, 0]), &of_records), Err(DecodeError::UnsupportedNesting));
}

#[test]
fn element_of_the_wrong_kind_is_a_type_mismatch() {
    let ty = list_of(scalar(ScalarKind::Int));
    let v = ParameterValue::ListOf(vec![
        ParameterValue::U32(1),
        ParameterValue::Text("two".to_string()),
        ParameterValue::U32(u32::MAX),
    ]);
    assert_eq!(
        encode_value(&v, &ty),
        Err(EncodeError::TypeMismatch {
            expected: TypeKind::Scalar(ScalarKind::Int),
            actual: ValueKind::Text
        })
    );
    assert_eq!(
        encode_value(&ParameterValue::U32(1), &ty),
        Err(EncodeError::TypeMismatch { expected: TypeKind::ListOf, actual: ValueKind::U32 })
    );
    assert_eq!(
        encode_value(&ParameterValue::MapOf(vec![]), &ty),
        Err(EncodeError::TypeMismatch { expected: TypeKind::ListOf, actual: ValueKind::MapOf })
    );
}

#[test]
fn malformed_lists() {
    let ty = list_of(scalar(ScalarKind::Int));
    assert_eq!(decode(Some(&[0, 0, 1]), &ty), Err(DecodeError::MalformedBytes));
    assert_eq!(decode(Some(&[0xff, 0xff, 0xff, 0xff]), &ty), Err(DecodeError::MalformedBytes));
    assert_eq!(decode(Some(&[0, 0, 0, 1]), &ty), Err(DecodeError::MalformedBytes));
    assert_eq!(
        decode(Some(&[0, 0, 0, 1, 0, 0, 0, 4, 0, 0, 0]), &ty),
        Err(DecodeError::MalformedBytes)
    );
    assert_eq!(
        decode(Some(&[0, 0, 0, 1, 0xff, 0xff, 0xff, 0xff]), &ty),
        Err(DecodeError::MalformedBytes)
    );
    assert_eq!(
        decode(Some(&[0, 0, 0, 1, 0, 0, 0, 2, 0, 1]), &ty),
        Err(DecodeError::MalformedBytes)
    );
    assert_eq!(
        decode(Some(&[0, 0, 0, 0, 0]), &ty),
        Err(DecodeError::MalformedBytes)
    );
}

#[test]
fn map_with_integer_keys_is_rejected() {
    let ty = map_of(scalar(ScalarKind::Int), scalar(ScalarKind::Text));
    assert_eq!(decode(Some(&[0, 0, 0, 0]), &ty), Err(DecodeError::UnsupportedMapKeyType));
    assert_eq!(decode(Some(&[]), &ty), Err(DecodeError::UnsupportedMapKeyType));
    let nested_key = map_of(list_of(scalar(ScalarKind::Text)), scalar(ScalarKind::Text));
    assert_eq!(decode(Some(&[0, 0, 0, 0]), &nested_key), Err(DecodeError::UnsupportedMapKeyType));
    let both = map_of(scalar(ScalarKind::Uuid), list_of(scalar(ScalarKind::Int)));
    assert_eq!(decode(Some(&[0, 0, 0, 0]), &both), Err(DecodeError::UnsupportedMapKeyType));
}

#[test]
fn map_with_text_keys_keeps_every_entry() {
    let ty = map_of(scalar(ScalarKind::Text), scalar(ScalarKind::Int));
    let v = ParameterValue::MapOf(vec![
        ("one".to_string(), ParameterValue::U32(1)),
        ("two".to_string(), ParameterValue::U32(2)),
        ("one".to_string(), ParameterValue::U32(3)),
    ]);
    let bytes = encode_value(&v, &ty).unwrap();
    assert_eq!(
        bytes,
        vec![
            0, 0, 0, 3, 0, 0, 0, 3, 0x6f, 0x6e, 0x65, 0, 0, 0, 4, 0, 0, 0, 1, 0, 0, 0, 3, 0x74,
            0x77, 0x6f, 0, 0, 0, 4, 0, 0, 0, 2, 0, 0, 0, 3, 0x6f, 0x6e, 0x65, 0, 0, 0, 4, 0, 0, 0,
            3
        ]
    );
    assert_eq!(
        decode(Some(bytes.as_slice()), &ty),
        Ok(Some(ResultValue::MapOf(vec![
            ("one".to_string(), BaseValue::Int(1)),
            ("two".to_string(), BaseValue::Int(2)),
            ("one".to_string(), BaseValue::Int(3)),
        ])))
    );
}

#[test]
fn map_values_must_be_scalars_on_decode() {
    let ty = map_of(scalar(ScalarKind::Text), list_of(scalar(ScalarKind::Int)));
    assert_eq!(decode(Some(&[0, 0, 0, 0]), &ty), Err(DecodeError::UnsupportedNesting));
}

#[test]
fn map_key_type_is_checked_on_encode() {
    let ty = map_of(scalar(ScalarKind::Int), scalar(ScalarKind::Int));
    let v = ParameterValue::MapOf(vec![("k".to_string(), ParameterValue::U32(1))]);
    assert_eq!(
        encode_value(&v, &ty),
        Err(EncodeError::TypeMismatch {
            expected: TypeKind::Scalar(ScalarKind::Int),
            actual: ValueKind::Text
        })
    );
    let ascii = map_of(scalar(ScalarKind::Ascii), scalar(ScalarKind::Int));
    let w = ParameterValue::MapOf(vec![("\u{e9}".to_string(), ParameterValue::U32(1))]);
    assert_eq!(
        encode_value(&w, &ascii),
        Err(EncodeError::TypeMismatch {
            expected: TypeKind::Scalar(ScalarKind::Ascii),
            actual: ValueKind::Text
        })
    );
}

#[test]
fn malformed_maps() {
    let ty = map_of(scalar(ScalarKind::Text), scalar(ScalarKind::Int));
    assert_eq!(decode(Some(&[0, 0]), &ty), Err(DecodeError::MalformedBytes));
    assert_eq!(decode(Some(&[0, 0, 0, 1]), &ty), Err(DecodeError::MalformedBytes));
    assert_eq!(
        decode(Some(&[0, 0, 0, 1, 0, 0, 0, 1, 0x61]), &ty),
        Err(DecodeError::MalformedBytes)
    );
    assert_eq!(
        decode(Some(&[0, 0, 0, 1, 0, 0, 0, 1, 0x61, 0xff, 0xff, 0xff, 0xff]), &ty),
        Err(DecodeError::MalformedBytes)
    );
    assert_eq!(
        decode(Some(&[0, 0, 0, 1, 0, 0, 0, 1, 0xff, 0, 0, 0, 4, 0, 0, 0, 1]), &ty),
        Err(DecodeError::MalformedBytes)
    );
}

#[test]
fn record_round_trip_in_declared_order() {
    let x = Uuid::from_u128(0x0011_2233_4455_6677_8899_aabb_ccdd_eeff);
    let v = ParameterValue::MapOf(vec![
        ("age".to_string(), ParameterValue::U32(30)),
        ("id".to_string(), ParameterValue::Uuid(x)),
    ]);
    let bytes = encode_value(&v, &person()).unwrap();
    assert_eq!(
        bytes,
        vec![
            0, 0, 0, 16, 0x00, 0x11, 0x22, 0x33, 0x44, 0x55, 0x66, 0x77, 0x88, 0x99, 0xaa, 0xbb,
            0xcc, 0xdd, 0xee, 0xff, 0, 0, 0, 4, 0, 0, 0, 30
        ]
    );
    assert_eq!(
        decode(Some(bytes.as_slice()), &person()),
        Ok(Some(ResultValue::MapOf(vec![
            ("id".to_string(), BaseValue::Uuid(x)),
            ("age".to_string(), BaseValue::Int(30)),
        ])))
    );
}

#[test]
fn record_field_that_is_missing_is_null_and_left_out() {
    let v = ParameterValue::MapOf(vec![("age".to_string(), ParameterValue::U32(30))]);
    let bytes = encode_value(&v, &person()).unwrap();
    assert_eq!(bytes, vec![0xff, 0xff, 0xff, 0xff, 0, 0, 0, 4, 0, 0, 0, 30]);
    assert_eq!(
        decode(Some(bytes.as_slice()), &person()),
        Ok(Some(ResultValue::MapOf(vec![("age".to_string(), BaseValue::Int(30))])))
    );
}

#[test]
fn record_ignores_names_that_are_not_declared_and_takes_the_first_of_a_name() {
    let v = ParameterValue::MapOf(vec![
        ("nickname".to_string(), ParameterValue::Text("al".to_string())),
        ("age".to_string(), ParameterValue::U32(30)),
        ("age".to_string(), ParameterValue::U32(31)),
    ]);
    let bytes = encode_value(&v, &person()).unwrap();
    assert_eq!(bytes, vec![0xff, 0xff, 0xff, 0xff, 0, 0, 0, 4, 0, 0, 0, 30]);
}

#[test]
fn record_with_fewer_cells_than_fields() {
    assert_eq!(decode(Some(&[]), &person()), Ok(Some(ResultValue::MapOf(vec![]))));
    let only_id = [
        0u8, 0, 0, 16, 0, 0, 0, 0, 0, 0, 0, 0, 0, 0, 0, 0, 0, 0, 0, 7,
    ];
    assert_eq!(
        decode(Some(&only_id), &person()),
        Ok(Some(ResultValue::MapOf(vec![("id".to_string(), BaseValue::Uuid(Uuid::from_u128(7)))])))
    );
}

#[test]
fn malformed_records() {
    assert_eq!(decode(Some(&[0, 0]), &person()), Err(DecodeError::MalformedBytes));
    assert_eq!(
        decode(Some(&[0xff, 0xff, 0xff, 0xff, 0, 0, 0, 4, 0, 0, 0, 30, 0]), &person()),
        Err(DecodeError::MalformedBytes)
    );
    assert_eq!(
        decode(Some(&[0, 0, 0, 1, 0]), &person()),
        Err(DecodeError::MalformedBytes)
    );
}

#[test]
fn record_field_that_is_a_collection() {
    let ty = WireType::Record {
        keyspace: "ks".to_string(),
        name: "t".to_string(),
        fields: vec![("tags".to_string(), list_of(scalar(ScalarKind::Text)))],
    };
    assert_eq!(
        decode(Some(&[0xff, 0xff, 0xff, 0xff]), &ty),
        Ok(Some(ResultValue::MapOf(vec![])))
    );
    assert_eq!(
        decode(Some(&[0, 0, 0, 4, 0, 0, 0, 0]), &ty),
        Err(DecodeError::UnsupportedNesting)
    );
}

#[test]
fn record_value_must_be_a_mapping() {
    assert_eq!(
        encode_value(&ParameterValue::U32(1), &person()),
        Err(EncodeError::TypeMismatch { expected: TypeKind::Record, actual: ValueKind::U32 })
    );
    let v = ParameterValue::MapOf(vec![("id".to_string(), ParameterValue::U32(1))]);
    assert_eq!(
        encode_value(&v, &person()),
        Err(EncodeError::TypeMismatch {
            expected: TypeKind::Scalar(ScalarKind::Uuid),
            actual: ValueKind::U32
        })
    );
}

#[test]
fn tuple_is_reported_as_unsupported() {
    let ty = WireType::TupleOf(vec![scalar(ScalarKind::Int)]);
    assert_eq!(
        decode(Some(&[0, 0, 0, 4, 0, 0, 0, 1]), &ty),
        Err(DecodeError::UnsupportedColumnType(TypeKind::TupleOf))
    );
    assert_eq!(
        encode_value(&ParameterValue::ListOf(vec![ParameterValue::U32(1)]), &ty),
        Err(EncodeError::UnsupportedColumnType(TypeKind::TupleOf))
    );
    assert_eq!(decode(None, &ty), Ok(None));
}

#[test]
fn kinds_of_types_and_values() {
    assert_eq!(person().kind(), TypeKind::Record);
    assert_eq!(list_of(person()).kind(), TypeKind::ListOf);
    assert_eq!(scalar(ScalarKind::Time).kind(), TypeKind::Scalar(ScalarKind::Time));
    assert!(scalar(ScalarKind::Ascii).is_text());
    assert!(scalar(ScalarKind::Text).is_text());
    assert!(!scalar(ScalarKind::Blob).is_text());
    assert!(!person().is_text());
    assert_eq!(ParameterValue::Float(0).kind(), ValueKind::Float);
    assert_eq!(ParameterValue::SetOf(vec![]).kind(), ValueKind::SetOf);
}

#[test]
fn encode_of_a_list_cell() {
    let ty = list_of(scalar(ScalarKind::TinyInt));
    let v = ParameterValue::ListOf(vec![ParameterValue::U32(5)]);
    let mut out = Vec::new();
    assert_eq!(encode(Some(&v), &ty, &mut out), Ok(()));
    assert_eq!(out, vec![0, 0, 0, 9, 0, 0, 0, 1, 0, 0, 0, 1, 5]);
}
