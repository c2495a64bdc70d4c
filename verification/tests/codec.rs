use datafusion::array::{column_addrs_distinct, column_has_addr, column_wf, columns_disjoint};
use datafusion::array::{to_arrow, to_py_array, to_rust, ColumnArray, ForeignArray};
use datafusion::buffer::{copy_to_buffer, to_buffer, Buffer, ForeignBuffer, TransferLedger};
use datafusion::errors::DataFusionError;
use datafusion::scalar::{get_cell, ForeignScalar};
use datafusion::types::{type_to_type, ForeignTypeCall, TimeUnit, TypeTag};

fn int32_buffer(addr: usize, values: &[i32]) -> Buffer {
    let mut bytes = Vec::new();
    for v in values {
        bytes.extend_from_slice(&v.to_le_bytes());
    }
    Buffer { addr, bytes }
}

/// A 4-element Int32 column `[1, 2, null, 4]` with null bitmap `[1,1,0,1]`.
fn sample_int32_array() -> ColumnArray {
    ColumnArray {
        data_type: TypeTag::Int32,
        len: 4,
        nulls: Some(Buffer {
            addr: 0x1000,
            bytes: vec![0b1011],
        }),
        buffers: vec![int32_buffer(0x2000, &[1, 2, 0, 4])],
    }
}

#[test]
fn int32_array_round_trips_values_and_null_mask() {
    let array = sample_int32_array();
    let mut ledger = TransferLedger::new();
    let encoded = to_py_array(array, &mut ledger).unwrap();

    assert_eq!(encoded.type_call.function, "int32");
    assert_eq!(encoded.len, 4);
    assert_eq!(encoded.null_count, 1);
    assert_eq!(encoded.buffers.len(), 2);

    let decoded = to_rust(encoded).unwrap();
    assert_eq!(decoded, sample_int32_array());

    let expect = [
        ForeignScalar::Int32(1),
        ForeignScalar::Int32(2),
        ForeignScalar::Missing,
        ForeignScalar::Int32(4),
    ];
    let null_mask = [false, false, true, false];
    for i in 0..4 {
        assert_eq!(get_cell(&decoded, i), expect[i]);
        assert_eq!(get_cell(&decoded, i) == ForeignScalar::Missing, null_mask[i]);
    }
}

#[test]
fn encoding_preserves_buffer_identity() {
    let array = sample_int32_array();
    let mut ledger = TransferLedger::new();
    let encoded = to_py_array(array, &mut ledger).unwrap();

    // slot 0 is the validity bitmap, slot 1 the values buffer: the very
    // same regions, not copies
    let nulls = encoded.buffers[0].as_ref().unwrap();
    assert_eq!(nulls.addr, 0x1000);
    assert_eq!(nulls.bytes, vec![0b1011]);
    let values = encoded.buffers[1].as_ref().unwrap();
    assert_eq!(values.addr, 0x2000);
    assert_eq!(values.bytes, int32_buffer(0x2000, &[1, 2, 0, 4]).bytes);
}

#[test]
fn zero_length_utf8_round_trips_with_empty_offsets() {
    let array = ColumnArray {
        data_type: TypeTag::Utf8,
        len: 0,
        nulls: None,
        buffers: vec![
            Buffer { addr: 0x3000, bytes: vec![] },
            Buffer { addr: 0x4000, bytes: vec![] },
        ],
    };
    let mut ledger = TransferLedger::new();
    let encoded = to_py_array(array, &mut ledger).unwrap();
    assert_eq!(encoded.len, 0);
    assert_eq!(encoded.null_count, 0);

    let decoded = to_rust(encoded).unwrap();
    assert_eq!(decoded.len, 0);
    assert_eq!(decoded.data_type, TypeTag::Utf8);
    assert!(decoded.buffers[0].bytes.is_empty());
}

fn int32_descriptor() -> ForeignTypeCall {
    type_to_type(&TypeTag::Int32).unwrap()
}

#[test]
fn decoding_a_short_values_buffer_is_a_length_mismatch() {
    let array = ForeignArray {
        type_call: int32_descriptor(),
        len: 4,
        null_count: 0,
        buffers: vec![
            None,
            Some(ForeignBuffer { addr: 0x2000, bytes: vec![0; 12] }),
        ],
    };
    assert_eq!(to_rust(array), Err(DataFusionError::LengthMismatch));
}

#[test]
fn decoding_a_wrong_buffer_count_is_a_length_mismatch() {
    let array = ForeignArray {
        type_call: int32_descriptor(),
        len: 0,
        null_count: 0,
        buffers: vec![None],
    };
    assert_eq!(to_rust(array), Err(DataFusionError::LengthMismatch));
}

#[test]
fn decoding_an_absent_values_buffer_is_null_buffer_missing() {
    let array = ForeignArray {
        type_call: int32_descriptor(),
        len: 0,
        null_count: 0,
        buffers: vec![None, None],
    };
    assert_eq!(to_rust(array), Err(DataFusionError::NullBufferMissing));
}

#[test]
fn decoding_an_unknown_foreign_type_is_unsupported() {
    let array = ForeignArray {
        type_call: ForeignTypeCall {
            function: "decimal128".to_owned(),
            byte_width: None,
            unit: None,
        },
        len: 0,
        null_count: 0,
        buffers: vec![None, Some(ForeignBuffer { addr: 0x2000, bytes: vec![] })],
    };
    assert!(matches!(
        to_rust(array),
        Err(DataFusionError::UnsupportedType(_))
    ));
}

#[test]
fn to_arrow_checks_the_declared_type() {
    let array = ForeignArray {
        type_call: type_to_type(&TypeTag::Utf8).unwrap(),
        len: 0,
        null_count: 0,
        buffers: vec![
            None,
            Some(ForeignBuffer { addr: 0x2000, bytes: vec![] }),
            Some(ForeignBuffer { addr: 0x3000, bytes: vec![] }),
        ],
    };
    assert_eq!(
        to_arrow(array, &TypeTag::Int32),
        Err(DataFusionError::SchemaMismatch)
    );
}

#[test]
fn misaligned_foreign_buffers_are_rejected() {
    let fb = ForeignBuffer { addr: 0x1003, bytes: vec![1, 2, 3, 4] };
    assert_eq!(
        to_buffer(fb, 4),
        Err(DataFusionError::BufferAlignmentError)
    );
    let fb = ForeignBuffer { addr: 0x1003, bytes: vec![1, 2, 3, 4] };
    let imported = to_buffer(fb, 1).unwrap();
    assert_eq!(imported.addr, 0x1003);
    assert_eq!(imported.bytes, vec![1, 2, 3, 4]);
}

#[test]
fn transfer_hands_over_the_same_region() {
    let mut ledger = TransferLedger::new();
    let fb = ledger.transfer(Buffer { addr: 0x9000, bytes: vec![7, 8, 9] });
    assert_eq!(fb.addr, 0x9000);
    assert_eq!(fb.bytes, vec![7, 8, 9]);
    // the receiving side owes exactly one release for the region
    ledger.release(0x9000);
}

#[test]
fn boolean_array_round_trips_bit_packed_values() {
    // [true, null, false, true]: values bits 1,_,0,1 and bitmap [1,0,1,1]
    let array = ColumnArray {
        data_type: TypeTag::Boolean,
        len: 4,
        nulls: Some(Buffer { addr: 0x1000, bytes: vec![0b1101] }),
        buffers: vec![Buffer { addr: 0x2000, bytes: vec![0b1001] }],
    };
    let mut ledger = TransferLedger::new();
    let encoded = to_py_array(array, &mut ledger).unwrap();
    assert_eq!(encoded.type_call.function, "bool_");
    assert_eq!(encoded.null_count, 1);
    let decoded = to_rust(encoded).unwrap();
    assert_eq!(get_cell(&decoded, 0), ForeignScalar::Bool(true));
    assert_eq!(get_cell(&decoded, 1), ForeignScalar::Missing);
    assert_eq!(get_cell(&decoded, 2), ForeignScalar::Bool(false));
    assert_eq!(get_cell(&decoded, 3), ForeignScalar::Bool(true));
}

#[test]
fn utf8_array_round_trips_offsets_and_content() {
    // ["hi", "", "xyz"]: offsets [0, 2, 2, 5], values "hixyz"
    let mut offsets = Vec::new();
    for o in [0i32, 2, 2, 5] {
        offsets.extend_from_slice(&o.to_le_bytes());
    }
    let array = ColumnArray {
        data_type: TypeTag::Utf8,
        len: 3,
        nulls: None,
        buffers: vec![
            Buffer { addr: 0x1000, bytes: offsets.clone() },
            Buffer { addr: 0x2000, bytes: b"hixyz".to_vec() },
        ],
    };
    let mut ledger = TransferLedger::new();
    let encoded = to_py_array(array, &mut ledger).unwrap();
    assert_eq!(encoded.type_call.function, "utf8");
    let decoded = to_rust(encoded).unwrap();
    assert_eq!(decoded.buffers[0].bytes, offsets);
    assert_eq!(decoded.buffers[1].bytes, b"hixyz".to_vec());
    assert_eq!(decoded.buffers[0].addr, 0x1000);
    assert_eq!(decoded.buffers[1].addr, 0x2000);
}

#[test]
fn timestamp_array_round_trips_with_its_unit() {
    let mut bytes = Vec::new();
    for v in [1i64, 2, 3] {
        bytes.extend_from_slice(&v.to_le_bytes());
    }
    let array = ColumnArray {
        data_type: TypeTag::Timestamp(TimeUnit::Millisecond),
        len: 3,
        nulls: None,
        buffers: vec![Buffer { addr: 0x1000, bytes }],
    };
    let mut ledger = TransferLedger::new();
    let encoded = to_py_array(array, &mut ledger).unwrap();
    assert_eq!(encoded.type_call.function, "timestamp");
    let decoded = to_rust(encoded).unwrap();
    assert_eq!(decoded.data_type, TypeTag::Timestamp(TimeUnit::Millisecond));
    assert_eq!(decoded.len, 3);
}

#[test]
fn a_defensive_copy_duplicates_the_content_at_a_new_region() {
    let fb = ForeignBuffer { addr: 0x1003, bytes: vec![1, 2, 3, 4] };
    let copied = copy_to_buffer(&fb, 0x8000);
    assert_eq!(copied.addr, 0x8000);
    assert_eq!(copied.bytes, vec![1, 2, 3, 4]);
}

#[test]
fn the_validators_test_the_encoder_preconditions() {
    let good = sample_int32_array();
    assert!(column_wf(&good));
    assert!(column_addrs_distinct(&good));
    assert!(column_has_addr(&good, 0x1000));
    assert!(column_has_addr(&good, 0x2000));
    assert!(!column_has_addr(&good, 0x3000));

    // a values buffer shorter than the column makes the column malformed
    let short = ColumnArray {
        data_type: TypeTag::Int32,
        len: 4,
        nulls: None,
        buffers: vec![Buffer { addr: 0x2000, bytes: vec![0; 12] }],
    };
    assert!(!column_wf(&short));

    // the same region twice in one column violates the single-owner rule
    let doubled = ColumnArray {
        data_type: TypeTag::Int32,
        len: 1,
        nulls: Some(Buffer { addr: 0x2000, bytes: vec![1] }),
        buffers: vec![Buffer { addr: 0x2000, bytes: vec![0; 4] }],
    };
    assert!(!column_addrs_distinct(&doubled));

    let other = ColumnArray {
        data_type: TypeTag::Int32,
        len: 1,
        nulls: None,
        buffers: vec![Buffer { addr: 0x2000, bytes: vec![0; 4] }],
    };
    assert!(!columns_disjoint(&good, &other));
    let far = ColumnArray {
        data_type: TypeTag::Int32,
        len: 1,
        nulls: None,
        buffers: vec![Buffer { addr: 0x9000, bytes: vec![0; 4] }],
    };
    assert!(columns_disjoint(&good, &far));
}

#[test]
fn the_ledger_reports_what_was_transferred() {
    let mut ledger = TransferLedger::new();
    assert!(!ledger.is_transferred(0x1000));
    ledger.transfer(Buffer { addr: 0x1000, bytes: vec![1] });
    assert!(ledger.is_transferred(0x1000));
    assert!(ledger.is_live(0x1000));
    ledger.release(0x1000);
    assert!(ledger.is_transferred(0x1000));
    assert!(!ledger.is_live(0x1000));
}

#[test]
fn date64_arrays_round_trip() {
    let mut bytes = Vec::new();
    for v in [86_400_000i64, 0, -1] {
        bytes.extend_from_slice(&v.to_le_bytes());
    }
    let array = ColumnArray {
        data_type: TypeTag::Date64,
        len: 3,
        nulls: None,
        buffers: vec![Buffer { addr: 0x1000, bytes }],
    };
    let mut ledger = TransferLedger::new();
    let encoded = to_py_array(array, &mut ledger).unwrap();
    assert_eq!(encoded.type_call.function, "date64");
    let decoded = to_rust(encoded).unwrap();
    assert_eq!(decoded.data_type, TypeTag::Date64);
    assert_eq!(decoded.len, 3);
    assert_eq!(decoded.buffers[0].addr, 0x1000);
}
