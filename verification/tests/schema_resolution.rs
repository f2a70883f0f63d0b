use adt::request::project_delta_schema;
use adt::schema::check_partition_columns;
use adt::schema::get_file_schema;
use adt::schema::get_partition_schema;
use adt::schema::get_schema;
use adt::schema::Snapshot;
use adt::types::ArrowDataType;
use adt::types::DeltaDataType;
use adt::types::PrimitiveType;
use adt::types::StructField;

fn field(name: &str, p: PrimitiveType, nullable: bool) -> StructField {
    StructField {
        name: name.to_string(),
        data_type: DeltaDataType::Primitive(p),
        nullable,
    }
}

/// A snapshot whose partition column is declared first in the log's own
/// field list, not last.
fn partitioned_snapshot() -> Snapshot {
    Snapshot {
        fields: vec![
            field("part", PrimitiveType::String, false),
            field("id", PrimitiveType::Long, false),
            field("value", PrimitiveType::Double, true),
        ],
        partition_columns: vec!["part".to_string()],
        table_root: "s3://bucket/table/".to_string(),
    }
}

#[test]
fn test_file_schema_excludes_partition_columns() {
    let snapshot = partitioned_snapshot();
    let file_schema = get_file_schema(&snapshot);
    assert_eq!(file_schema.len(), 2);
    assert_eq!(file_schema[0].name, "id");
    assert_eq!(file_schema[0].data_type, ArrowDataType::Int64);
    assert!(!file_schema[0].nullable);
    assert_eq!(file_schema[1].name, "value");
    assert_eq!(file_schema[1].data_type, ArrowDataType::Float64);
    assert!(file_schema[1].nullable);
}

#[test]
fn test_partition_schema_in_declaration_order() {
    let snapshot = partitioned_snapshot();
    let partition_schema = get_partition_schema(&snapshot);
    assert_eq!(partition_schema.len(), 1);
    assert_eq!(partition_schema[0].name, "part");
    assert_eq!(partition_schema[0].data_type, ArrowDataType::Utf8);
}

#[test]
fn test_logical_schema_puts_partition_columns_last() {
    // The partition column is declared first in the log schema, yet the
    // logical schema lists it after all data columns.
    let snapshot = partitioned_snapshot();
    let schema = get_schema(&snapshot);
    assert_eq!(schema.len(), 3);
    assert_eq!(schema[0].name, "id");
    assert_eq!(schema[1].name, "value");
    assert_eq!(schema[2].name, "part");
}

#[test]
fn test_check_partition_columns() {
    let snapshot = partitioned_snapshot();
    assert!(check_partition_columns(&snapshot));
    let broken = Snapshot {
        fields: vec![field("id", PrimitiveType::Long, false)],
        partition_columns: vec!["part".to_string()],
        table_root: "s3://bucket/table/".to_string(),
    };
    assert!(!check_partition_columns(&broken));
}

#[test]
fn test_projection_requests_only_data_columns() {
    // Projection selects the data column `id` and the partition column
    // `part`: the scan request holds only the data column, since partition
    // values come from the log, not from the files.
    let snapshot = partitioned_snapshot();
    let arrow_schema = get_schema(&snapshot);
    let projection = vec![0usize, 2];
    let request = project_delta_schema(&snapshot, &arrow_schema, Some(&projection));
    assert_eq!(request, vec![1usize]);
    assert_eq!(snapshot.fields[1].name, "id");
}

#[test]
fn test_projection_absent_requests_full_schema() {
    let snapshot = partitioned_snapshot();
    let arrow_schema = get_schema(&snapshot);
    let request = project_delta_schema(&snapshot, &arrow_schema, None);
    assert_eq!(request, vec![0usize, 1, 2]);
}
