//! The library's column layout against the arrow crate's own: the same
//! bytes, handed to arrow, must read back as the same values and the same
//! null positions.

use arrow::array::{Array, ArrayData, BooleanArray, Int32Array, StringArray};
use arrow::buffer::Buffer as ArrowBuffer;
use arrow::datatypes::DataType;
use datafusion::array::ColumnArray;
use datafusion::buffer::Buffer;
use datafusion::scalar::{get_cell, ForeignScalar};
use datafusion::types::TypeTag;

#[test]
fn int32_layout_agrees_with_arrow() {
    // [1, 2, null, 4] in the library's layout
    let mut values = Vec::new();
    for v in [1i32, 2, 0, 4] {
        values.extend_from_slice(&v.to_le_bytes());
    }
    let bitmap = vec![0b1011u8];
    let column = ColumnArray {
        data_type: TypeTag::Int32,
        len: 4,
        nulls: Some(Buffer { addr: 0x1000, bytes: bitmap.clone() }),
        buffers: vec![Buffer { addr: 0x2000, bytes: values.clone() }],
    };

    // the same bytes as an arrow array
    let data = ArrayData::try_new(
        DataType::Int32,
        4,
        Some(ArrowBuffer::from_vec(bitmap)),
        0,
        vec![ArrowBuffer::from_vec(values)],
        vec![],
    )
    .unwrap();
    let arrow_array = Int32Array::from(data);

    for i in 0..4 {
        match get_cell(&column, i) {
            ForeignScalar::Missing => assert!(arrow_array.is_null(i)),
            ForeignScalar::Int32(v) => {
                assert!(!arrow_array.is_null(i));
                assert_eq!(arrow_array.value(i), v);
            },
            other => panic!("unexpected scalar {other:?}"),
        }
    }
}

#[test]
fn boolean_layout_agrees_with_arrow() {
    // [true, null, false, true]
    let column = ColumnArray {
        data_type: TypeTag::Boolean,
        len: 4,
        nulls: Some(Buffer { addr: 0x1000, bytes: vec![0b1101] }),
        buffers: vec![Buffer { addr: 0x2000, bytes: vec![0b1001] }],
    };
    let data = ArrayData::try_new(
        DataType::Boolean,
        4,
        Some(ArrowBuffer::from_vec(vec![0b1101u8])),
        0,
        vec![ArrowBuffer::from_vec(vec![0b1001u8])],
        vec![],
    )
    .unwrap();
    let arrow_array = BooleanArray::from(data);

    for i in 0..4 {
        match get_cell(&column, i) {
            ForeignScalar::Missing => assert!(arrow_array.is_null(i)),
            ForeignScalar::Bool(b) => {
                assert!(!arrow_array.is_null(i));
                assert_eq!(arrow_array.value(i), b);
            },
            other => panic!("unexpected scalar {other:?}"),
        }
    }
}

#[test]
fn utf8_layout_agrees_with_arrow() {
    // ["hi", "", "xyz"]: offsets [0, 2, 2, 5], values "hixyz"
    let mut offsets = Vec::new();
    for o in [0i32, 2, 2, 5] {
        offsets.extend_from_slice(&o.to_le_bytes());
    }
    let data = ArrayData::try_new(
        DataType::Utf8,
        3,
        None,
        0,
        vec![
            ArrowBuffer::from_vec(offsets),
            ArrowBuffer::from_vec(b"hixyz".to_vec()),
        ],
        vec![],
    )
    .unwrap();
    let arrow_array = StringArray::from(data);
    assert_eq!(arrow_array.value(0), "hi");
    assert_eq!(arrow_array.value(1), "");
    assert_eq!(arrow_array.value(2), "xyz");
}
