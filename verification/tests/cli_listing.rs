use adt::cli::Cli;
use adt::cli::Commands;
use adt::cli::Format;
use adt::cli::LevelFilter;
use adt::cli::LogLevel;
use adt::listing::check_order_columns;
use adt::listing::get_extension;
use adt::listing::resolve_listing_schema;
use adt::listing::ListingError;
use adt::listing::ListingPartitionType;
use adt::types::ArrowDataType;
use adt::types::ArrowField;

#[test]
fn test_get_log_level() {
    let cli = Cli {
        log_level: LogLevel::Off,
        command: Commands::Execute {
            sql_file: "q.sql".to_string(),
        },
    };
    assert_eq!(cli.get_log_level(), None);
    let cli = Cli {
        log_level: LogLevel::Info,
        command: Commands::Execute {
            sql_file: "q.sql".to_string(),
        },
    };
    assert_eq!(cli.get_log_level(), Some(LevelFilter::Info));
    let cli = Cli {
        log_level: LogLevel::Debug,
        command: Commands::Execute {
            sql_file: "q.sql".to_string(),
        },
    };
    assert_eq!(cli.get_log_level(), Some(LevelFilter::Debug));
}

#[test]
fn test_format_tags() {
    assert_eq!(Format::Parquet.tag(), "parquet");
    assert_eq!(Format::Delta.tag(), "deltatable");
    assert_eq!(Format::Csv.tag(), "csv");
    assert_eq!(Format::Json.tag(), "json");
    assert_eq!(Format::NDJson.tag(), "ndjson");
}

fn utf8_field(name: &str) -> ArrowField {
    ArrowField {
        name: name.to_string(),
        data_type: ArrowDataType::Utf8,
        nullable: true,
    }
}

#[test]
fn test_resolve_listing_schema_inferred() {
    let resolution =
        resolve_listing_schema(&Vec::new(), &vec!["year".to_string(), "month".to_string()])
            .expect("no schema to conflict with");
    assert!(resolution.projected_schema.is_none());
    assert_eq!(resolution.table_partition_cols.len(), 2);
    assert_eq!(resolution.table_partition_cols[0].name, "year");
    assert_eq!(
        resolution.table_partition_cols[0].source,
        ListingPartitionType::DefaultDictionary
    );
}

#[test]
fn test_resolve_listing_schema_provided() {
    let schema = vec![utf8_field("c0"), utf8_field("c1"), utf8_field("c2")];
    let resolution = resolve_listing_schema(&schema, &vec!["c1".to_string()])
        .expect("partition column is in the schema");
    assert_eq!(resolution.projected_schema, Some(vec![0usize, 2]));
    assert_eq!(resolution.table_partition_cols.len(), 1);
    assert_eq!(
        resolution.table_partition_cols[0].source,
        ListingPartitionType::FromField(1)
    );
}

#[test]
fn test_resolve_listing_schema_missing_partition_column() {
    let schema = vec![utf8_field("c0")];
    let err = resolve_listing_schema(&schema, &vec!["c9".to_string()])
        .expect_err("partition column is not in the schema");
    assert!(matches!(err, ListingError::ColumnNotInSchema { name } if name == "c9"));
}

#[test]
fn test_check_order_columns() {
    let names = vec!["a".to_string(), "b".to_string()];
    assert!(check_order_columns(&names, &vec!["b".to_string()]).is_ok());
    let err = check_order_columns(&names, &vec!["c".to_string()])
        .expect_err("the order column is missing");
    assert!(matches!(err, ListingError::OrderColumnNotInSchema { name } if name == "c"));
}

#[test]
fn test_get_extension() {
    assert_eq!(get_extension("s3://bucket/data/file.parquet", "parquet"), ".parquet");
    assert_eq!(get_extension("data/file.tar.gz", "parquet"), ".gz");
    assert_eq!(get_extension("data/plain", "csv"), ".csv");
    assert_eq!(get_extension("data/dir/", "json"), ".json");
    assert_eq!(get_extension("data/.hidden", "csv"), ".csv");
}
