use scylla::serialize::RowWriter;
use scylla_bridge::descriptor::{ColumnSpec, ScalarKind, TypeKind, WireType};
use scylla_bridge::error::{DecodeError, EncodeError, ValueKind};
use scylla_bridge::params::{build, failing_parameter, infer_context, infer_type, QueryParameter};
use scylla_bridge::rows::{failing_cell, project, project_row, FailingCell, QueryResult, Row};
use scylla_bridge::types::decimal::Decimal;
use scylla_bridge::types::duration::Duration;
use scylla_bridge::types::uuid::Uuid;
use scylla_bridge::types::varint::Varint;
use scylla_bridge::value::{u32_vec_to_u8_vec, BaseValue, ParameterValue, ResultValue};

fn column(name: &str, k: ScalarKind) -> ColumnSpec {
    ColumnSpec { name: name.to_string(), typ: WireType::Scalar(k) }
}

fn specs() -> Vec<ColumnSpec> {
    vec![column("id", ScalarKind::Int), column("name", ScalarKind::Text)]
}

#[test]
fn rows_are_projected_in_column_order() {
    let rows = vec![
        Row { columns: vec![Some(vec![0, 0, 0, 1]), Some(b"Alice".to_vec())] },
        Row { columns: vec![Some(vec![0, 0, 0, 2]), Some(b"Bob".to_vec())] },
    ];
    assert_eq!(
        project(&rows, &specs()),
        Ok(vec![
            vec![
                ("id".to_string(), ResultValue::Scalar(BaseValue::Int(1))),
                ("name".to_string(), ResultValue::Scalar(BaseValue::Text("Alice".to_string()))),
            ],
            vec![
                ("id".to_string(), ResultValue::Scalar(BaseValue::Int(2))),
                ("name".to_string(), ResultValue::Scalar(BaseValue::Text("Bob".to_string()))),
            ],
        ])
    );
}

#[test]
fn null_column_is_left_out_of_the_row() {
    let row = Row { columns: vec![None, Some(b"Alice".to_vec())] };
    assert_eq!(
        project_row(&row, &specs()),
        Ok(vec![("name".to_string(), ResultValue::Scalar(BaseValue::Text("Alice".to_string())))])
    );
    let all_null = Row { columns: vec![None, None] };
    assert_eq!(project_row(&all_null, &specs()), Ok(vec![]));
}

#[test]
fn three_cells_against_two_columns_is_a_shape_mismatch() {
    let row = Row { columns: vec![Some(vec![0, 0, 0, 1]), Some(b"a".to_vec()), Some(vec![1])] };
    assert_eq!(project_row(&row, &specs()), Err(DecodeError::ShapeMismatch));
    let short = Row { columns: vec![Some(vec![0, 0, 0, 1])] };
    assert_eq!(project_row(&short, &specs()), Err(DecodeError::ShapeMismatch));
    let rows = vec![Row { columns: vec![None, None] }, row];
    assert_eq!(project(&rows, &specs()), Err(DecodeError::ShapeMismatch));
}

#[test]
fn first_error_ends_the_projection() {
    let rows = vec![
        Row { columns: vec![Some(vec![0, 0, 1]), Some(vec![0xff])] },
        Row { columns: vec![None] },
    ];
    assert_eq!(project(&rows, &specs()), Err(DecodeError::MalformedBytes));
}

#[test]
fn no_row_set_gives_no_rows() {
    let result = QueryResult { rows: None, col_specs: vec![] };
    assert_eq!(QueryResult::parser(result), Ok(vec![]));
    let with_specs = QueryResult { rows: None, col_specs: specs() };
    assert_eq!(QueryResult::parser(with_specs), Ok(vec![]));
    let empty = QueryResult { rows: Some(vec![]), col_specs: specs() };
    assert_eq!(QueryResult::parser(empty), Ok(vec![]));
}

#[test]
fn parser_projects_the_rows() {
    let result = QueryResult {
        rows: Some(vec![Row { columns: vec![Some(vec![0xff, 0xff, 0xff, 0xff]), None] }]),
        col_specs: specs(),
    };
    assert_eq!(
        QueryResult::parser(result),
        Ok(vec![vec![("id".to_string(), ResultValue::Scalar(BaseValue::Int(-1)))]])
    );
}

#[test]
fn argument_block_of_two_parameters() {
    let parameters = vec![ParameterValue::U32(7), ParameterValue::Text("hi".to_string())];
    let context = vec![WireType::Scalar(ScalarKind::Int), WireType::Scalar(ScalarKind::Text)];
    assert_eq!(
        build(&parameters, &context),
        Ok(vec![0, 2, 0, 0, 0, 4, 0, 0, 0, 7, 0, 0, 0, 2, 0x68, 0x69])
    );
}

#[test]
fn no_parameters_give_a_block_of_zero_arguments() {
    assert_eq!(build(&vec![], &vec![]), Ok(vec![0, 0]));
}

#[test]
fn parameter_count_must_match_the_context() {
    let parameters = vec![ParameterValue::U32(7)];
    assert_eq!(build(&parameters, &vec![]), Err(EncodeError::ShapeMismatch));
    let context = vec![WireType::Scalar(ScalarKind::Int), WireType::Scalar(ScalarKind::Int)];
    assert_eq!(build(&parameters, &context), Err(EncodeError::ShapeMismatch));
    assert_eq!(build(&vec![], &context), Err(EncodeError::ShapeMismatch));
}

#[test]
fn first_failing_parameter_decides_the_error() {
    let parameters = vec![
        ParameterValue::U32(u32::MAX),
        ParameterValue::Text("x".to_string()),
    ];
    let context = vec![WireType::Scalar(ScalarKind::Int), WireType::Scalar(ScalarKind::Uuid)];
    assert_eq!(build(&parameters, &context), Err(EncodeError::NumericOverflow));
}

#[test]
fn too_many_arguments_overflow_the_count() {
    let mut parameters = Vec::new();
    let mut context = Vec::new();
    for _ in 0..65536 {
        parameters.push(ParameterValue::Bool(true));
        context.push(WireType::Scalar(ScalarKind::Boolean));
    }
    assert_eq!(build(&parameters, &context), Err(EncodeError::NumericOverflow));
    parameters.pop();
    context.pop();
    let block = build(&parameters, &context).unwrap();
    assert_eq!(block.len(), 2 + 65535 * 5);
    assert_eq!(&block[..7], &[0xff, 0xff, 0, 0, 0, 1, 1]);
}

#[test]
fn query_parameter_parser_accepts_everything() {
    let none = QueryParameter::parser(None).unwrap();
    assert_eq!(none.parameters, None);
    assert!(none.is_empty());
    let empty = QueryParameter::parser(Some(vec![])).unwrap();
    assert!(empty.is_empty());
    let one = QueryParameter::parser(Some(vec![ParameterValue::U32(1)])).unwrap();
    assert!(!one.is_empty());
    assert_eq!(one.parameters, Some(vec![ParameterValue::U32(1)]));
}

#[test]
fn query_parameter_writes_the_cells() {
    let p = QueryParameter::parser(Some(vec![ParameterValue::U32(1), ParameterValue::Bool(false)]))
        .unwrap();
    let context = vec![WireType::Scalar(ScalarKind::BigInt), WireType::Scalar(ScalarKind::Boolean)];
    let mut out = vec![0xaa];
    assert_eq!(p.write_cells(&context, &mut out), Ok(()));
    assert_eq!(out, vec![0xaa, 0, 0, 0, 8, 0, 0, 0, 0, 0, 0, 0, 1, 0, 0, 0, 1, 0]);
    let short = vec![WireType::Scalar(ScalarKind::BigInt)];
    assert_eq!(p.write_cells(&short, &mut out), Err(EncodeError::ShapeMismatch));
    assert_eq!(out.len(), 18);
    let wrong = vec![WireType::Scalar(ScalarKind::BigInt), WireType::Scalar(ScalarKind::Uuid)];
    assert!(p.write_cells(&wrong, &mut out).is_err());
    assert_eq!(out.len(), 18);
    let none = QueryParameter::parser(None).unwrap();
    assert_eq!(none.write_cells(&vec![], &mut out), Ok(()));
    assert_eq!(none.write_cells(&short, &mut out), Err(EncodeError::ShapeMismatch));
    assert_eq!(out.len(), 18);
}

#[test]
fn query_parameter_serialize_fills_the_row_writer() {
    let p = QueryParameter::parser(Some(vec![ParameterValue::U32(1), ParameterValue::Bool(false)]))
        .unwrap();
    let context = vec![WireType::Scalar(ScalarKind::BigInt), WireType::Scalar(ScalarKind::Boolean)];
    let mut buf = vec![0xaa];
    let mut writer = RowWriter::new(&mut buf);
    assert_eq!(p.serialize(&context, &mut writer), Ok(()));
    assert_eq!(writer.value_count(), 2);
    let short = vec![WireType::Scalar(ScalarKind::BigInt)];
    assert_eq!(p.serialize(&short, &mut writer), Err(EncodeError::ShapeMismatch));
    let wrong = vec![WireType::Scalar(ScalarKind::Uuid), WireType::Scalar(ScalarKind::Boolean)];
    assert!(p.serialize(&wrong, &mut writer).is_err());
    let late = vec![WireType::Scalar(ScalarKind::BigInt), WireType::Scalar(ScalarKind::Uuid)];
    assert!(p.serialize(&late, &mut writer).is_err());
    assert_eq!(writer.value_count(), 2);
    let none = QueryParameter::parser(None).unwrap();
    assert_eq!(none.serialize(&vec![], &mut writer), Ok(()));
    assert_eq!(none.serialize(&short, &mut writer), Err(EncodeError::ShapeMismatch));
    assert_eq!(writer.value_count(), 2);
    assert_eq!(buf, vec![0xaa, 0, 0, 0, 8, 0, 0, 0, 0, 0, 0, 0, 1, 0, 0, 0, 1, 0]);
}

#[test]
fn serialize_writes_what_the_driver_writes() {
    let p = QueryParameter::parser(Some(vec![
        ParameterValue::Text("x".to_string()),
        ParameterValue::BigInt(-2),
    ]))
    .unwrap();
    let context = vec![WireType::Scalar(ScalarKind::Text), WireType::Scalar(ScalarKind::Int)];
    let mut ours = Vec::new();
    let mut writer = RowWriter::new(&mut ours);
    assert_eq!(p.serialize(&context, &mut writer), Ok(()));
    let mut theirs = Vec::new();
    let mut other = RowWriter::new(&mut theirs);
    other.make_cell_writer().set_value(b"x").unwrap();
    other.make_cell_writer().set_value(&[0xff, 0xff, 0xff, 0xfe]).unwrap();
    assert_eq!(writer.value_count(), other.value_count());
    assert_eq!(ours, theirs);
}

#[test]
fn types_are_inferred_from_the_tags() {
    assert_eq!(infer_type(&ParameterValue::U32(1)), WireType::Scalar(ScalarKind::Int));
    assert_eq!(infer_type(&ParameterValue::Text(String::new())), WireType::Scalar(ScalarKind::Text));
    assert_eq!(infer_type(&ParameterValue::Uuid(Uuid::from_u128(1))), WireType::Scalar(ScalarKind::Uuid));
    assert_eq!(infer_type(&ParameterValue::BigInt(1)), WireType::Scalar(ScalarKind::BigInt));
    assert_eq!(
        infer_type(&ParameterValue::Duration(Duration::new(0, 0, 0))),
        WireType::Scalar(ScalarKind::Duration)
    );
    assert_eq!(
        infer_type(&ParameterValue::Decimal(Decimal::new(vec![], 0))),
        WireType::Scalar(ScalarKind::Decimal)
    );
    assert_eq!(infer_type(&ParameterValue::Bool(true)), WireType::Scalar(ScalarKind::Boolean));
    assert_eq!(infer_type(&ParameterValue::Blob(vec![])), WireType::Scalar(ScalarKind::Blob));
    assert_eq!(infer_type(&ParameterValue::Float(0)), WireType::Scalar(ScalarKind::Float));
    assert_eq!(
        infer_type(&ParameterValue::Varint(Varint::new_varint(vec![]))),
        WireType::Scalar(ScalarKind::Varint)
    );
    assert_eq!(
        infer_type(&ParameterValue::ListOf(vec![ParameterValue::BigInt(1)])),
        WireType::ListOf(Box::new(WireType::Scalar(ScalarKind::BigInt)))
    );
    assert_eq!(
        infer_type(&ParameterValue::SetOf(vec![])),
        WireType::SetOf(Box::new(WireType::Scalar(ScalarKind::Blob)))
    );
    assert_eq!(
        infer_type(&ParameterValue::MapOf(vec![
            ("a".to_string(), ParameterValue::U32(1)),
            ("b".to_string(), ParameterValue::Bool(true)),
        ])),
        WireType::Record {
            keyspace: String::new(),
            name: String::new(),
            fields: vec![
                ("a".to_string(), WireType::Scalar(ScalarKind::Int)),
                ("b".to_string(), WireType::Scalar(ScalarKind::Boolean)),
            ],
        }
    );
}

#[test]
fn inferred_context_builds_a_block() {
    let parameters = vec![ParameterValue::U32(7), ParameterValue::Text("hi".to_string())];
    let context = infer_context(&parameters);
    assert_eq!(context, vec![WireType::Scalar(ScalarKind::Int), WireType::Scalar(ScalarKind::Text)]);
    assert_eq!(
        build(&parameters, &context),
        Ok(vec![0, 2, 0, 0, 0, 4, 0, 0, 0, 7, 0, 0, 0, 2, 0x68, 0x69])
    );
}

#[test]
fn numbers_become_bytes_by_their_low_eight_bits() {
    assert_eq!(u32_vec_to_u8_vec(&[0, 1, 255, 256, 257, u32::MAX]), vec![0, 1, 255, 0, 1, 255]);
    assert_eq!(u32_vec_to_u8_vec(&[]), Vec::<u8>::new());
}

#[test]
fn arguments_are_encoded_one_by_one() {
    let parameters = vec![ParameterValue::U32(7), ParameterValue::Text("hi".to_string())];
    let context = vec![WireType::Scalar(ScalarKind::Int), WireType::Scalar(ScalarKind::Text)];
    assert_eq!(
        scylla_bridge::params::encode_arguments(&parameters, &context),
        Ok(vec![vec![0, 0, 0, 7], vec![0x68, 0x69]])
    );
    assert_eq!(scylla_bridge::params::encode_arguments(&vec![], &vec![]), Ok(vec![]));
    assert_eq!(
        scylla_bridge::params::encode_arguments(&parameters, &vec![]),
        Err(EncodeError::ShapeMismatch)
    );
    let wrong = vec![WireType::Scalar(ScalarKind::Int), WireType::Scalar(ScalarKind::Int)];
    assert!(scylla_bridge::params::encode_arguments(&parameters, &wrong).is_err());
}

#[test]
fn statement_parameters_with_and_without_types() {
    let parameters = vec![ParameterValue::BigInt(7), ParameterValue::Bool(true)];
    let context = vec![WireType::Scalar(ScalarKind::Int), WireType::Scalar(ScalarKind::Boolean)];
    assert_eq!(
        scylla_bridge::params::encode_statement_parameters(&parameters, Some(&context)),
        Ok(vec![0, 2, 0, 0, 0, 4, 0, 0, 0, 7, 0, 0, 0, 1, 1])
    );
    assert_eq!(
        scylla_bridge::params::encode_statement_parameters(&parameters, None),
        Ok(vec![0, 2, 0, 0, 0, 8, 0, 0, 0, 0, 0, 0, 0, 7, 0, 0, 0, 1, 1])
    );
    assert_eq!(scylla_bridge::params::encode_statement_parameters(&vec![], None), Ok(vec![0, 0]));
    let mapping = vec![ParameterValue::MapOf(vec![
        ("a".to_string(), ParameterValue::U32(1)),
        ("b".to_string(), ParameterValue::Text("x".to_string())),
    ])];
    assert_eq!(
        scylla_bridge::params::encode_statement_parameters(&mapping, None),
        Ok(vec![0, 1, 0, 0, 0, 13, 0, 0, 0, 4, 0, 0, 0, 1, 0, 0, 0, 1, 0x78])
    );
}

#[test]
fn result_rows_are_decoded() {
    let rows = vec![Row { columns: vec![Some(vec![0, 0, 0, 9]), None] }];
    assert_eq!(
        scylla_bridge::rows::decode_result_rows(Some(&rows), &specs()),
        Ok(vec![vec![("id".to_string(), ResultValue::Scalar(BaseValue::Int(9)))]])
    );
    assert_eq!(scylla_bridge::rows::decode_result_rows(None, &specs()), Ok(vec![]));
    let long = vec![Row { columns: vec![None, None, None] }];
    assert_eq!(
        scylla_bridge::rows::decode_result_rows(Some(&long), &specs()),
        Err(DecodeError::ShapeMismatch)
    );
}

#[test]
fn errors_have_names() {
    assert_eq!(
        EncodeError::TypeMismatch { expected: TypeKind::MapOf, actual: ValueKind::U32 }.name(),
        "TypeMismatch"
    );
    assert_eq!(EncodeError::NumericOverflow.name(), "NumericOverflow");
    assert_eq!(EncodeError::UnsupportedColumnType(TypeKind::TupleOf).name(), "UnsupportedColumnType");
    assert_eq!(EncodeError::ShapeMismatch.name(), "ShapeMismatch");
    assert_eq!(DecodeError::UnsupportedColumnType(TypeKind::TupleOf).name(), "UnsupportedColumnType");
    assert_eq!(DecodeError::UnsupportedNesting.name(), "UnsupportedNesting");
    assert_eq!(DecodeError::UnsupportedMapKeyType.name(), "UnsupportedMapKeyType");
    assert_eq!(DecodeError::MalformedBytes.name(), "MalformedBytes");
    assert_eq!(DecodeError::ShapeMismatch.name(), "ShapeMismatch");
}

#[test]
fn the_failing_parameter_is_found() {
    let parameters = vec![
        ParameterValue::U32(1),
        ParameterValue::U32(u32::MAX),
        ParameterValue::Text("x".to_string()),
    ];
    let context = vec![
        WireType::Scalar(ScalarKind::Int),
        WireType::Scalar(ScalarKind::Int),
        WireType::Scalar(ScalarKind::Uuid),
    ];
    assert_eq!(failing_parameter(&parameters, &context), Some((1, EncodeError::NumericOverflow)));
    assert_eq!(build(&parameters, &context), Err(EncodeError::NumericOverflow));
    let fine = vec![
        WireType::Scalar(ScalarKind::Int),
        WireType::Scalar(ScalarKind::BigInt),
        WireType::Scalar(ScalarKind::Text),
    ];
    assert_eq!(failing_parameter(&parameters, &fine), None);
    assert_eq!(failing_parameter(&vec![], &vec![]), None);
}

#[test]
fn the_failing_cell_is_found() {
    let good = || Row { columns: vec![Some(vec![0, 0, 0, 1]), None] };
    let rows = vec![good(), Row { columns: vec![None, Some(vec![0xff])] }, good()];
    assert_eq!(
        failing_cell(&rows, &specs()),
        Some(FailingCell { row: 1, column: Some(1), error: DecodeError::MalformedBytes })
    );
    assert_eq!(project(&rows, &specs()), Err(DecodeError::MalformedBytes));
    let long = vec![good(), good(), Row { columns: vec![None, None, None] }];
    assert_eq!(
        failing_cell(&long, &specs()),
        Some(FailingCell { row: 2, column: None, error: DecodeError::ShapeMismatch })
    );
    assert_eq!(failing_cell(&vec![good(), good()], &specs()), None);
    assert_eq!(failing_cell(&vec![], &specs()), None);
}
