use adt::access::get_row_group_access;
use adt::access::RowGroupAccess;
use adt::access::RowSelector;
use adt::ensure_folder_location;

#[test]
fn test_get_row_group_access() {
    let selection_vector = &[true, true, true, true, true];
    let row_group_row_start: usize = 0;
    let row_group_num_rows: usize = 5;
    let row_group_access =
        get_row_group_access(selection_vector, row_group_row_start, row_group_num_rows);

    assert_eq!(row_group_access, RowGroupAccess::Scan);

    let selection_vector = &[false, false, false, false, false];
    let row_group_row_start: usize = 0;
    let row_group_num_rows: usize = 5;
    let row_group_access =
        get_row_group_access(selection_vector, row_group_row_start, row_group_num_rows);

    assert_eq!(row_group_access, RowGroupAccess::Skip);

    let selection_vector = &[true, true, true, false, true];
    let row_group_row_start: usize = 0;
    let row_group_num_rows: usize = 5;
    let row_group_access =
        get_row_group_access(selection_vector, row_group_row_start, row_group_num_rows);

    let selectors = vec![
        RowSelector::select(3),
        RowSelector::skip(1),
        RowSelector::select(1),
    ];
    assert_eq!(row_group_access, RowGroupAccess::Selection(selectors));
}

#[test]
fn test_get_table_location() {
    assert_eq!(
        ensure_folder_location("s3://my_bucket/".to_string()),
        "s3://my_bucket/"
    );
    assert_eq!(
        ensure_folder_location("s3://my_bucket".to_string()),
        "s3://my_bucket/"
    );
}

#[test]
fn test_ensure_folder_location_empty() {
    assert_eq!(ensure_folder_location(String::new()), "/");
}

#[test]
fn test_row_group_access_offset_slice() {
    // Only the group's own slice decides: rows before it do not matter.
    let selection_vector = &[false, false, true, true];
    let access = get_row_group_access(selection_vector, 2, 2);
    assert_eq!(access, RowGroupAccess::Scan);
    let access = get_row_group_access(selection_vector, 0, 2);
    assert_eq!(access, RowGroupAccess::Skip);
}

#[test]
fn test_row_group_access_empty_group() {
    // A row group of no rows has no live row and is skipped.
    let selection_vector = &[true, true];
    let access = get_row_group_access(selection_vector, 1, 0);
    assert_eq!(access, RowGroupAccess::Skip);
}
