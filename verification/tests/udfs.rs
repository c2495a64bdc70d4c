use datafusion::array::{ColumnArray, ForeignArray};
use datafusion::buffer::{Buffer, ForeignBuffer, TransferLedger};
use datafusion::errors::DataFusionError;
use datafusion::scalar::ForeignScalar;
use datafusion::types::{type_to_type, TypeTag};
use datafusion::udf::{array_udf, create_udf, row_udf_start, udf, CallOutcome, ScalarOutcome};

fn float64_column(addr: usize, values: &[f64]) -> ColumnArray {
    let mut bytes = Vec::new();
    for v in values {
        bytes.extend_from_slice(&v.to_le_bytes());
    }
    ColumnArray {
        data_type: TypeTag::Float64,
        len: values.len(),
        nulls: None,
        buffers: vec![Buffer { addr, bytes }],
    }
}

#[test]
fn create_udf_binds_declared_names_to_tags() {
    let sig = create_udf("add", &vec!["float64", "float64"], "float64").unwrap();
    assert_eq!(sig.name, "add");
    assert_eq!(sig.input_types, vec![TypeTag::Float64, TypeTag::Float64]);
    assert_eq!(sig.return_type, TypeTag::Float64);
}

#[test]
fn registering_an_unsupported_return_type_names_it() {
    let r = create_udf("f", &vec!["int32"], "Decimal");
    assert_eq!(
        r,
        Err(DataFusionError::UnsupportedType("Decimal".to_owned()))
    );
}

#[test]
fn registering_an_unsupported_input_type_names_it() {
    let r = create_udf("f", &vec!["int32", "interval"], "int64");
    assert_eq!(
        r,
        Err(DataFusionError::UnsupportedType("interval".to_owned()))
    );
}

#[test]
fn vectorized_call_encodes_invokes_once_and_decodes() {
    // add(a: Float64, b: Float64) -> Float64 on 3 rows
    let f = array_udf(vec![TypeTag::Float64, TypeTag::Float64], TypeTag::Float64);
    let a = float64_column(0x1000, &[1.0, 2.0, 3.0]);
    let b = float64_column(0x2000, &[10.0, 20.0, 30.0]);

    let mut ledger = TransferLedger::new();
    let encoded = f.encode_args(vec![a, b], &mut ledger).unwrap();
    assert_eq!(encoded.len(), 2);
    assert_eq!(encoded[0].len, 3);
    // zero copy: the callable sees the very argument buffers
    assert_eq!(encoded[0].buffers[1].as_ref().unwrap().addr, 0x1000);
    assert_eq!(encoded[1].buffers[1].as_ref().unwrap().addr, 0x2000);

    // the host adds element-wise and returns one foreign array
    let sums = [11.0f64, 22.0, 33.0];
    let mut bytes = Vec::new();
    for v in sums {
        bytes.extend_from_slice(&v.to_le_bytes());
    }
    let returned = ForeignArray {
        type_call: type_to_type(&TypeTag::Float64).unwrap(),
        len: 3,
        null_count: 0,
        buffers: vec![None, Some(ForeignBuffer { addr: 0x3000, bytes })],
    };
    let result = f.decode_result(CallOutcome::Returned(returned)).unwrap();
    assert_eq!(result.data_type, TypeTag::Float64);
    assert_eq!(result.len, 3);
    for (i, v) in sums.iter().enumerate() {
        assert_eq!(
            datafusion::scalar::get_cell(&result, i),
            ForeignScalar::Float64Bits(v.to_bits())
        );
    }
}

#[test]
fn vectorized_call_rejects_a_wrong_argument_count() {
    let f = array_udf(vec![TypeTag::Float64, TypeTag::Float64], TypeTag::Float64);
    let a = float64_column(0x1000, &[1.0]);
    let mut ledger = TransferLedger::new();
    assert_eq!(
        f.encode_args(vec![a], &mut ledger),
        Err(DataFusionError::SchemaMismatch)
    );
}

#[test]
fn a_raised_host_exception_aborts_the_vectorized_batch() {
    let f = array_udf(vec![TypeTag::Float64], TypeTag::Float64);
    let r = f.decode_result(CallOutcome::Raised("boom".to_owned()));
    assert_eq!(
        r,
        Err(DataFusionError::ForeignCallFailure("boom".to_owned()))
    );
}

#[test]
fn a_result_of_the_wrong_type_aborts_the_vectorized_batch() {
    let f = array_udf(vec![TypeTag::Float64], TypeTag::Float64);
    let returned = ForeignArray {
        type_call: type_to_type(&TypeTag::Int32).unwrap(),
        len: 0,
        null_count: 0,
        buffers: vec![None, Some(ForeignBuffer { addr: 0x3000, bytes: vec![] })],
    };
    assert!(matches!(
        f.decode_result(CallOutcome::Returned(returned)),
        Err(DataFusionError::ForeignCallFailure(_))
    ));
}

#[test]
fn row_udf_rejects_a_column_of_the_wrong_type_at_invocation() {
    // declared input int32, the actual column is utf8: a type-mismatch
    // error, never a misread value
    let u = udf(vec![TypeTag::Int32], TypeTag::Int32);
    let utf8_column = ColumnArray {
        data_type: TypeTag::Utf8,
        len: 1,
        nulls: None,
        buffers: vec![
            Buffer { addr: 0x1000, bytes: vec![0, 0, 0, 0, 2, 0, 0, 0] },
            Buffer { addr: 0x2000, bytes: vec![b'h', b'i'] },
        ],
    };
    assert!(matches!(
        row_udf_start(&u, vec![utf8_column]),
        Err(DataFusionError::SchemaMismatch)
    ));
}

fn int32_column_with_nulls(addr: usize, nulls_addr: usize, values: &[i32], bitmap: u8) -> ColumnArray {
    let mut bytes = Vec::new();
    for v in values {
        bytes.extend_from_slice(&v.to_le_bytes());
    }
    ColumnArray {
        data_type: TypeTag::Int32,
        len: values.len(),
        nulls: Some(Buffer { addr: nulls_addr, bytes: vec![bitmap] }),
        buffers: vec![Buffer { addr, bytes }],
    }
}

#[test]
fn row_udf_hands_out_missing_for_null_elements() {
    // one int32 argument [1, null, 3]; the host doubles non-missing values
    let u = udf(vec![TypeTag::Int32], TypeTag::Int32);
    let col = int32_column_with_nulls(0x1000, 0x2000, &[1, 0, 3], 0b101);
    let mut call = row_udf_start(&u, vec![col]).unwrap();
    assert_eq!(call.num_rows(), 3);

    let expect_args = [
        ForeignScalar::Int32(1),
        ForeignScalar::Missing,
        ForeignScalar::Int32(3),
    ];
    let mut row = 0;
    while let Some(args) = call.next_row_args() {
        assert_eq!(args.len(), 1);
        assert_eq!(args[0], expect_args[row]);
        let result = match args[0] {
            ForeignScalar::Int32(v) => ForeignScalar::Int32(2 * v),
            _ => ForeignScalar::Missing,
        };
        call.record(ScalarOutcome::Returned(result)).unwrap();
        row += 1;
    }
    assert_eq!(row, 3);

    let out = call.finish(0x3000, 0x4000);
    assert_eq!(out.data_type, TypeTag::Int32);
    assert_eq!(out.len, 3);
    assert_eq!(datafusion::scalar::get_cell(&out, 0), ForeignScalar::Int32(2));
    assert_eq!(datafusion::scalar::get_cell(&out, 1), ForeignScalar::Missing);
    assert_eq!(datafusion::scalar::get_cell(&out, 2), ForeignScalar::Int32(6));
}

#[test]
fn a_raised_host_exception_aborts_the_row_batch() {
    let u = udf(vec![TypeTag::Int32], TypeTag::Int32);
    let col = int32_column_with_nulls(0x1000, 0x2000, &[1], 0b1);
    let mut call = row_udf_start(&u, vec![col]).unwrap();
    assert!(call.next_row_args().is_some());
    let r = call.record(ScalarOutcome::Raised("bad row".to_owned()));
    assert_eq!(
        r,
        Err(DataFusionError::ForeignCallFailure("bad row".to_owned()))
    );
}

#[test]
fn a_row_result_of_the_wrong_type_aborts_the_row_batch() {
    let u = udf(vec![TypeTag::Int32], TypeTag::Int32);
    let col = int32_column_with_nulls(0x1000, 0x2000, &[1], 0b1);
    let mut call = row_udf_start(&u, vec![col]).unwrap();
    assert!(call.next_row_args().is_some());
    let r = call.record(ScalarOutcome::Returned(ForeignScalar::Bool(true)));
    assert!(matches!(r, Err(DataFusionError::ForeignCallFailure(_))));
}

#[test]
fn row_udf_rejects_arguments_of_unequal_lengths() {
    let u = udf(vec![TypeTag::Int32, TypeTag::Int32], TypeTag::Int32);
    let a = int32_column_with_nulls(0x1000, 0x2000, &[1, 2], 0b11);
    let b = int32_column_with_nulls(0x3000, 0x4000, &[1], 0b1);
    assert!(matches!(
        row_udf_start(&u, vec![a, b]),
        Err(DataFusionError::LengthMismatch)
    ));
}
