use adt::access::RowGroupAccess;
use adt::access::RowSelector;
use adt::request::combine_filters;
use adt::request::FilterPushdown;
use adt::request::ScanPredicate;
use adt::scan::assemble_scan_plan;
use adt::scan::handle_scan_file;
use adt::scan::resolve_file_access;
use adt::scan::take_scan_files;
use adt::scan::ScanContext;
use adt::scan::ScanError;
use adt::schema::DeltaTable;
use adt::schema::Snapshot;
use adt::types::ArrowDataType;
use adt::types::DeltaDataType;
use adt::types::PrimitiveType;
use adt::types::StructField;

fn field(name: &str, p: PrimitiveType, nullable: bool) -> StructField {
    StructField {
        name: name.to_string(),
        data_type: DeltaDataType::Primitive(p),
        nullable,
    }
}

fn snapshot() -> Snapshot {
    Snapshot {
        fields: vec![
            field("id", PrimitiveType::Long, false),
            field("part", PrimitiveType::String, false),
        ],
        partition_columns: vec!["part".to_string()],
        table_root: "s3://bucket/table".to_string(),
    }
}

fn fresh_context(s: &Snapshot) -> ScanContext {
    ScanContext::new(
        s.table_root.clone(),
        s.partition_columns.clone(),
        vec![
            field("id", PrimitiveType::Long, false),
            field("part", PrimitiveType::String, false),
        ],
    )
}

/// A table with two files: file A fully live, file B with a partial
/// selection spanning two row groups of 100 rows each where rows 150..200
/// are deleted. The plan keeps file A without an access plan and gives
/// file B one that scans the first group and reads the second selectively.
#[test]
fn test_scan_two_files_with_deletion_vector() {
    let s = snapshot();
    let mut ctx = fresh_context(&s);

    let values = vec![("part".to_string(), "a".to_string())];
    handle_scan_file(&mut ctx, "part-a.parquet", 1024, Ok(None), &values);

    let mut selection = vec![true; 200];
    for row in 150..200 {
        selection[row] = false;
    }
    handle_scan_file(&mut ctx, "part-b.parquet", 2048, Ok(Some(selection)), &values);

    let files = take_scan_files(ctx).expect("no enumeration errors");
    assert_eq!(files.len(), 2);
    assert_eq!(files[0].partitioned_file.path, "/table/part-a.parquet");
    assert_eq!(files[0].partitioned_file.size, 1024);
    assert!(files[0].selection_vector.is_none());
    assert_eq!(files[1].partitioned_file.path, "/table/part-b.parquet");

    let mut resolved = Vec::new();
    for file in files {
        let sizes = file.selection_vector.as_ref().map(|_| vec![100usize, 100]);
        resolved.push(resolve_file_access(file, sizes.as_ref()));
    }
    assert!(resolved[0].access_plan.is_none());
    assert_eq!(
        resolved[1].access_plan,
        Some(vec![
            RowGroupAccess::Scan,
            RowGroupAccess::Selection(vec![RowSelector::select(50), RowSelector::skip(50)]),
        ])
    );

    let table = DeltaTable::from_snapshot(snapshot());
    let plan = assemble_scan_plan(&table, resolved, 2, None, Some(50));
    assert_eq!(plan.files.len(), 2);
    assert_eq!(plan.files[0].file.path, "/table/part-a.parquet");
    assert_eq!(plan.files[1].file.path, "/table/part-b.parquet");
    assert_eq!(plan.predicate, ScanPredicate::AndOfFilters(2));
    assert_eq!(plan.limit, Some(50));
    assert_eq!(plan.file_schema.len(), 1);
    assert_eq!(plan.file_schema[0].name, "id");
    assert_eq!(plan.partition_fields.len(), 1);
    assert_eq!(plan.partition_fields[0].name, "part");
}

/// Projecting one partition column and one data column: the plan still
/// carries the partition field, and each file carries that column's typed
/// literal value out-of-band.
#[test]
fn test_scan_partition_value_attached() {
    let s = snapshot();
    let mut ctx = fresh_context(&s);
    let values = vec![("part".to_string(), "2024-01".to_string())];
    handle_scan_file(&mut ctx, "f.parquet", 10, Ok(None), &values);
    let files = take_scan_files(ctx).expect("no enumeration errors");
    assert_eq!(files.len(), 1);
    let pv = &files[0].partitioned_file.partition_values;
    assert_eq!(pv.len(), 1);
    assert_eq!(pv[0].name, "part");
    assert_eq!(pv[0].data_type, ArrowDataType::Utf8);
    assert_eq!(pv[0].value, "2024-01");
}

#[test]
fn test_invalid_table_root_is_an_error() {
    let mut ctx = ScanContext::new(
        "no scheme here".to_string(),
        Vec::new(),
        Vec::new(),
    );
    handle_scan_file(&mut ctx, "f.parquet", 10, Ok(None), &Vec::new());
    let err = take_scan_files(ctx).expect_err("the table root does not parse");
    assert!(matches!(err, ScanError::InvalidTableRoot { location } if location == "no scheme here"));
}

#[test]
fn test_selection_vector_failure_is_an_error() {
    let s = snapshot();
    let mut ctx = fresh_context(&s);
    let values = vec![("part".to_string(), "a".to_string())];
    handle_scan_file(&mut ctx, "f.parquet", 10, Err("bad bitmap".to_string()), &values);
    let err = take_scan_files(ctx).expect_err("materialization failed");
    assert!(matches!(err, ScanError::SelectionVector { message } if message == "bad bitmap"));
}

#[test]
fn test_enumeration_continues_after_error() {
    // An error for one file does not stop enumeration, but the scan as a
    // whole fails once it completes.
    let s = snapshot();
    let mut ctx = fresh_context(&s);
    let values = vec![("part".to_string(), "a".to_string())];
    handle_scan_file(&mut ctx, "f1.parquet", 10, Err("bad bitmap".to_string()), &values);
    handle_scan_file(&mut ctx, "f2.parquet", 20, Ok(None), &values);
    assert_eq!(ctx.files.len(), 1);
    assert_eq!(ctx.errs.len(), 1);
    assert!(take_scan_files(ctx).is_err());
}

#[test]
fn test_combine_filters() {
    assert_eq!(combine_filters(0), ScanPredicate::True);
    assert_eq!(combine_filters(3), ScanPredicate::AndOfFilters(3));
}

#[test]
fn test_supports_filters_pushdown_inexact() {
    let table = DeltaTable::from_snapshot(snapshot());
    let pushdown = table.supports_filters_pushdown(3);
    assert_eq!(pushdown, vec![FilterPushdown::Inexact; 3]);
}
