use adt::types::map_delta_data_type_to_arrow_data_type;
use adt::types::ArrayType;
use adt::types::ArrowDataType;
use adt::types::ArrowField;
use adt::types::ArrowListType;
use adt::types::ArrowMapType;
use adt::types::DeltaDataType;
use adt::types::MapType;
use adt::types::PrimitiveType;
use adt::types::StructField;

fn map_primitive(p: PrimitiveType) -> ArrowDataType {
    map_delta_data_type_to_arrow_data_type(&DeltaDataType::Primitive(p))
}

#[test]
fn test_primitive_mapping_table() {
    assert_eq!(map_primitive(PrimitiveType::String), ArrowDataType::Utf8);
    assert_eq!(map_primitive(PrimitiveType::Long), ArrowDataType::Int64);
    assert_eq!(map_primitive(PrimitiveType::Integer), ArrowDataType::Int32);
    assert_eq!(map_primitive(PrimitiveType::Short), ArrowDataType::Int16);
    assert_eq!(map_primitive(PrimitiveType::Byte), ArrowDataType::Int8);
    assert_eq!(map_primitive(PrimitiveType::Float), ArrowDataType::Float32);
    assert_eq!(map_primitive(PrimitiveType::Double), ArrowDataType::Float64);
    assert_eq!(map_primitive(PrimitiveType::Boolean), ArrowDataType::Boolean);
    assert_eq!(map_primitive(PrimitiveType::Binary), ArrowDataType::Binary);
    assert_eq!(map_primitive(PrimitiveType::Date), ArrowDataType::Date32);
    assert_eq!(
        map_primitive(PrimitiveType::Timestamp),
        ArrowDataType::TimestampMicrosecondUtc
    );
    assert_eq!(
        map_primitive(PrimitiveType::TimestampNtz),
        ArrowDataType::TimestampMicrosecond
    );
    assert_eq!(
        map_primitive(PrimitiveType::Decimal(38, 10)),
        ArrowDataType::Decimal128(38, 10)
    );
}

#[test]
fn test_mapping_is_deterministic() {
    let t = DeltaDataType::Array(Box::new(ArrayType {
        element_type: DeltaDataType::Primitive(PrimitiveType::Decimal(10, 2)),
        contains_null: true,
    }));
    let first = map_delta_data_type_to_arrow_data_type(&t);
    let second = map_delta_data_type_to_arrow_data_type(&t);
    assert_eq!(first, second);
}

#[test]
fn test_array_mapping_preserves_element_nullability() {
    let t = DeltaDataType::Array(Box::new(ArrayType {
        element_type: DeltaDataType::Primitive(PrimitiveType::Integer),
        contains_null: false,
    }));
    assert_eq!(
        map_delta_data_type_to_arrow_data_type(&t),
        ArrowDataType::List(Box::new(ArrowListType {
            element_type: ArrowDataType::Int32,
            element_nullable: false,
        }))
    );
}

#[test]
fn test_struct_mapping_preserves_fields() {
    let t = DeltaDataType::Struct(vec![
        StructField {
            name: "a".to_string(),
            data_type: DeltaDataType::Primitive(PrimitiveType::String),
            nullable: true,
        },
        StructField {
            name: "b".to_string(),
            data_type: DeltaDataType::Primitive(PrimitiveType::Boolean),
            nullable: false,
        },
    ]);
    assert_eq!(
        map_delta_data_type_to_arrow_data_type(&t),
        ArrowDataType::Struct(vec![
            ArrowField {
                name: "a".to_string(),
                data_type: ArrowDataType::Utf8,
                nullable: true,
            },
            ArrowField {
                name: "b".to_string(),
                data_type: ArrowDataType::Boolean,
                nullable: false,
            },
        ])
    );
}

#[test]
fn test_map_mapping() {
    let t = DeltaDataType::Mapping(Box::new(MapType {
        key_type: DeltaDataType::Primitive(PrimitiveType::String),
        value_type: DeltaDataType::Primitive(PrimitiveType::Long),
    }));
    assert_eq!(
        map_delta_data_type_to_arrow_data_type(&t),
        ArrowDataType::Mapping(Box::new(ArrowMapType {
            key_type: ArrowDataType::Utf8,
            value_type: ArrowDataType::Int64,
        }))
    );
}
