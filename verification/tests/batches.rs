use datafusion::array::{ColumnArray, ForeignArray};
use datafusion::batch::{to_py, to_py_batch, to_rust_batch};
use datafusion::batch::{Field, ForeignBatch, ForeignField, RecordBatch, Schema};
use datafusion::buffer::{Buffer, ForeignBuffer, TransferLedger};
use datafusion::errors::DataFusionError;
use datafusion::types::{type_to_type, TypeTag};

fn foreign_int32_column(addr: usize, values: &[i32]) -> ForeignArray {
    let mut bytes = Vec::new();
    for v in values {
        bytes.extend_from_slice(&v.to_le_bytes());
    }
    ForeignArray {
        type_call: type_to_type(&TypeTag::Int32).unwrap(),
        len: values.len(),
        null_count: 0,
        buffers: vec![None, Some(ForeignBuffer { addr, bytes })],
    }
}

fn foreign_field(name: &str, type_id: i32) -> ForeignField {
    ForeignField {
        name: name.to_owned(),
        nullable: true,
        type_id,
    }
}

#[test]
fn a_host_batch_assembles_into_a_record_batch() {
    let batch = ForeignBatch {
        fields: vec![foreign_field("a", 7), foreign_field("b", 7)],
        columns: vec![
            foreign_int32_column(0x1000, &[1, 2, 3]),
            foreign_int32_column(0x2000, &[4, 5, 6]),
        ],
    };
    let decoded = to_rust_batch(batch).unwrap();
    assert_eq!(decoded.schema.fields.len(), 2);
    assert_eq!(decoded.schema.fields[0].name, "a");
    assert_eq!(decoded.schema.fields[0].data_type, TypeTag::Int32);
    assert!(decoded.schema.fields[0].nullable);
    assert_eq!(decoded.schema.fields[1].name, "b");
    assert_eq!(decoded.columns.len(), 2);
    assert_eq!(decoded.columns[0].len, 3);
    assert_eq!(decoded.columns[1].len, 3);
}

#[test]
fn unequal_column_lengths_are_a_length_mismatch() {
    let batch = ForeignBatch {
        fields: vec![foreign_field("a", 7), foreign_field("b", 7)],
        columns: vec![
            foreign_int32_column(0x1000, &[1, 2, 3]),
            foreign_int32_column(0x2000, &[4, 5]),
        ],
    };
    assert_eq!(to_rust_batch(batch), Err(DataFusionError::LengthMismatch));
}

#[test]
fn a_field_count_differing_from_the_column_count_is_a_schema_mismatch() {
    let batch = ForeignBatch {
        fields: vec![foreign_field("a", 7)],
        columns: vec![
            foreign_int32_column(0x1000, &[1]),
            foreign_int32_column(0x2000, &[2]),
        ],
    };
    assert_eq!(to_rust_batch(batch), Err(DataFusionError::SchemaMismatch));
}

#[test]
fn an_unknown_field_type_identifier_is_unsupported() {
    let batch = ForeignBatch {
        fields: vec![foreign_field("a", 13)],
        columns: vec![foreign_int32_column(0x1000, &[1])],
    };
    assert!(matches!(
        to_rust_batch(batch),
        Err(DataFusionError::UnsupportedType(_))
    ));
}

#[test]
fn a_column_type_differing_from_its_field_is_a_schema_mismatch() {
    // the field declares int64, the column itself is int32
    let batch = ForeignBatch {
        fields: vec![foreign_field("a", 9)],
        columns: vec![foreign_int32_column(0x1000, &[1])],
    };
    assert_eq!(to_rust_batch(batch), Err(DataFusionError::SchemaMismatch));
}

fn native_batch(names: [&str; 2], addrs: [usize; 2], rows: i32) -> RecordBatch {
    let columns: Vec<ColumnArray> = addrs
        .iter()
        .map(|addr| {
            let mut bytes = Vec::new();
            for v in 0..rows {
                bytes.extend_from_slice(&v.to_le_bytes());
            }
            ColumnArray {
                data_type: TypeTag::Int32,
                len: rows as usize,
                nulls: None,
                buffers: vec![Buffer { addr: *addr, bytes }],
            }
        })
        .collect();
    RecordBatch {
        schema: Schema {
            fields: names
                .iter()
                .map(|n| Field {
                    name: (*n).to_owned(),
                    data_type: TypeTag::Int32,
                    nullable: false,
                })
                .collect(),
        },
        columns,
    }
}

#[test]
fn a_batch_encodes_per_field_in_schema_order() {
    let batch = native_batch(["x", "y"], [0x1000, 0x2000], 3);
    let mut ledger = TransferLedger::new();
    let encoded = to_py_batch(batch, &mut ledger).unwrap();
    assert_eq!(encoded.len(), 2);
    assert_eq!(encoded[0].0, "x");
    assert_eq!(encoded[0].1.type_call.function, "int32");
    assert_eq!(encoded[0].1.buffers[1].as_ref().unwrap().addr, 0x1000);
    assert_eq!(encoded[1].0, "y");
    assert_eq!(encoded[1].1.buffers[1].as_ref().unwrap().addr, 0x2000);
}

#[test]
fn a_multi_batch_result_set_is_never_truncated() {
    let batches = vec![
        native_batch(["x", "y"], [0x1000, 0x2000], 2),
        native_batch(["x", "y"], [0x3000, 0x4000], 2),
    ];
    let mut ledger = TransferLedger::new();
    let encoded = to_py(batches, &mut ledger).unwrap();
    assert_eq!(encoded.len(), 2);
    assert_eq!(encoded[0].len(), 2);
    assert_eq!(encoded[1].len(), 2);
    assert_eq!(encoded[1][0].1.buffers[1].as_ref().unwrap().addr, 0x3000);
}

#[test]
fn an_empty_host_batch_assembles_into_an_empty_record_batch() {
    let batch = ForeignBatch { fields: vec![], columns: vec![] };
    let decoded = to_rust_batch(batch).unwrap();
    assert!(decoded.schema.fields.is_empty());
    assert!(decoded.columns.is_empty());
}

