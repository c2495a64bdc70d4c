use datafusion::errors::DataFusionError;
use datafusion::types::{data_type, data_type_id, from_foreign, type_to_type, unit_name};
use datafusion::types::{ForeignTypeCall, TimeUnit, TypeTag};

#[test]
fn data_type_maps_every_declared_name() {
    assert_eq!(data_type("bool"), Ok(TypeTag::Boolean));
    assert_eq!(data_type("int32"), Ok(TypeTag::Int32));
    assert_eq!(data_type("int64"), Ok(TypeTag::Int64));
    assert_eq!(data_type("int"), Ok(TypeTag::Int64));
    assert_eq!(data_type("float32"), Ok(TypeTag::Float32));
    assert_eq!(data_type("float64"), Ok(TypeTag::Float64));
    assert_eq!(data_type("float"), Ok(TypeTag::Float64));
}

#[test]
fn data_type_rejects_unknown_names_by_name() {
    assert_eq!(
        data_type("Decimal"),
        Err(DataFusionError::UnsupportedType("Decimal".to_owned()))
    );
    assert_eq!(
        data_type("utf8"),
        Err(DataFusionError::UnsupportedType("utf8".to_owned()))
    );
    assert_eq!(
        data_type(""),
        Err(DataFusionError::UnsupportedType("".to_owned()))
    );
}

#[test]
fn data_type_id_maps_the_supported_identifiers() {
    assert_eq!(data_type_id(1), Ok(TypeTag::Boolean));
    assert_eq!(data_type_id(2), Ok(TypeTag::UInt8));
    assert_eq!(data_type_id(3), Ok(TypeTag::Int8));
    assert_eq!(data_type_id(4), Ok(TypeTag::UInt16));
    assert_eq!(data_type_id(5), Ok(TypeTag::Int16));
    assert_eq!(data_type_id(6), Ok(TypeTag::UInt32));
    assert_eq!(data_type_id(7), Ok(TypeTag::Int32));
    assert_eq!(data_type_id(8), Ok(TypeTag::UInt64));
    assert_eq!(data_type_id(9), Ok(TypeTag::Int64));
    assert_eq!(data_type_id(11), Ok(TypeTag::Float32));
    assert_eq!(data_type_id(12), Ok(TypeTag::Float64));
    assert_eq!(data_type_id(20), Ok(TypeTag::Binary));
    assert_eq!(data_type_id(21), Ok(TypeTag::Utf8));
    assert_eq!(data_type_id(22), Ok(TypeTag::LargeBinary));
    assert_eq!(data_type_id(23), Ok(TypeTag::LargeUtf8));
}

#[test]
fn data_type_id_rejects_unknown_and_parameterized_identifiers() {
    for id in [0, 10, 13, 14, 15, 16, 17, 18, 19, 24, -1, 99] {
        assert!(matches!(
            data_type_id(id),
            Err(DataFusionError::UnsupportedType(_))
        ));
    }
}

#[test]
fn a_rejected_identifier_is_named_in_the_error() {
    assert_eq!(
        data_type_id(13),
        Err(DataFusionError::UnsupportedType(
            "the type identifier 13 is not valid".to_owned()
        ))
    );
    assert_eq!(
        data_type_id(-7),
        Err(DataFusionError::UnsupportedType(
            "the type identifier -7 is not valid".to_owned()
        ))
    );
    assert_eq!(
        data_type_id(i32::MIN),
        Err(DataFusionError::UnsupportedType(
            "the type identifier -2147483648 is not valid".to_owned()
        ))
    );
}

#[test]
fn type_to_type_names_the_foreign_constructors() {
    let c = type_to_type(&TypeTag::Boolean).unwrap();
    assert_eq!(c.function, "bool_");
    assert_eq!(c.byte_width, None);
    assert_eq!(c.unit, None);

    let c = type_to_type(&TypeTag::Int32).unwrap();
    assert_eq!(c.function, "int32");

    let c = type_to_type(&TypeTag::FixedSizeBinary(16)).unwrap();
    assert_eq!(c.function, "binary");
    assert_eq!(c.byte_width, Some(16));

    let c = type_to_type(&TypeTag::Timestamp(TimeUnit::Millisecond)).unwrap();
    assert_eq!(c.function, "timestamp");
    assert_eq!(c.unit, Some(TimeUnit::Millisecond));

    let c = type_to_type(&TypeTag::Duration(TimeUnit::Nanosecond)).unwrap();
    assert_eq!(c.function, "duration");
    assert_eq!(c.unit, Some(TimeUnit::Nanosecond));

    let c = type_to_type(&TypeTag::Date32).unwrap();
    assert_eq!(c.function, "date32");

    let c = type_to_type(&TypeTag::Date64).unwrap();
    assert_eq!(c.function, "date64");
    assert_eq!(c.byte_width, None);
    assert_eq!(c.unit, None);
}

#[test]
fn type_to_type_rejects_the_unsupported_tags_by_name() {
    assert_eq!(
        type_to_type(&TypeTag::List),
        Err(DataFusionError::UnsupportedType("list".to_owned()))
    );
    assert_eq!(
        type_to_type(&TypeTag::Struct),
        Err(DataFusionError::UnsupportedType("struct".to_owned()))
    );
}

#[test]
fn mapper_round_trips_every_supported_tag() {
    let tags = [
        TypeTag::Boolean,
        TypeTag::Int8,
        TypeTag::Int16,
        TypeTag::Int32,
        TypeTag::Int64,
        TypeTag::UInt8,
        TypeTag::UInt16,
        TypeTag::UInt32,
        TypeTag::UInt64,
        TypeTag::Float32,
        TypeTag::Float64,
        TypeTag::Utf8,
        TypeTag::LargeUtf8,
        TypeTag::Binary,
        TypeTag::LargeBinary,
        TypeTag::FixedSizeBinary(7),
        TypeTag::Timestamp(TimeUnit::Second),
        TypeTag::Timestamp(TimeUnit::Microsecond),
        TypeTag::Date32,
        TypeTag::Date64,
        TypeTag::Duration(TimeUnit::Millisecond),
    ];
    for tag in tags {
        let call = type_to_type(&tag).unwrap();
        assert_eq!(from_foreign(&call), Ok(tag));
    }
}

#[test]
fn from_foreign_rejects_unknown_and_incomplete_descriptors() {
    let unknown = ForeignTypeCall {
        function: "decimal128".to_owned(),
        byte_width: None,
        unit: None,
    };
    assert_eq!(
        from_foreign(&unknown),
        Err(DataFusionError::UnsupportedType("decimal128".to_owned()))
    );
    let no_unit = ForeignTypeCall {
        function: "timestamp".to_owned(),
        byte_width: None,
        unit: None,
    };
    assert!(matches!(
        from_foreign(&no_unit),
        Err(DataFusionError::UnsupportedType(_))
    ));
}

#[test]
fn unit_name_matches_the_foreign_spelling() {
    assert_eq!(unit_name(TimeUnit::Second), "s");
    assert_eq!(unit_name(TimeUnit::Millisecond), "ms");
    assert_eq!(unit_name(TimeUnit::Microsecond), "us");
    assert_eq!(unit_name(TimeUnit::Nanosecond), "ns");
}
