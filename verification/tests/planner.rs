use adt::access::get_full_selection_vector;
use adt::access::plan_row_group_access;
use adt::access::RowGroupAccess;
use adt::access::RowSelector;

#[test]
fn test_plan_all_live_scans_every_group() {
    let selection_vector = vec![true; 250];
    let sizes = vec![100usize, 100, 50];
    let plan = plan_row_group_access(&selection_vector, &sizes);
    assert_eq!(plan.len(), 3);
    for access in &plan {
        assert_eq!(*access, RowGroupAccess::Scan);
    }
}

#[test]
fn test_plan_none_live_skips_every_group() {
    let selection_vector = vec![false; 250];
    let sizes = vec![100usize, 100, 50];
    let plan = plan_row_group_access(&selection_vector, &sizes);
    assert_eq!(plan.len(), 3);
    for access in &plan {
        assert_eq!(*access, RowGroupAccess::Skip);
    }
}

#[test]
fn test_plan_pads_missing_tail_with_live_rows() {
    // The known selection covers only the first 3 rows; the rest of the
    // file defaults to live, so the second group is scanned in full.
    let selection_vector = vec![true, false, true];
    let sizes = vec![3usize, 4];
    let plan = plan_row_group_access(&selection_vector, &sizes);
    assert_eq!(plan.len(), 2);
    assert_eq!(
        plan[0],
        RowGroupAccess::Selection(vec![
            RowSelector::select(1),
            RowSelector::skip(1),
            RowSelector::select(1),
        ])
    );
    assert_eq!(plan[1], RowGroupAccess::Scan);
}

#[test]
fn test_plan_mixed_groups() {
    // Two groups of 100 rows; rows 150..200 are deleted: the first group is
    // scanned whole, the second reads its live half and skips the rest.
    let mut selection_vector = vec![true; 200];
    for row in 150..200 {
        selection_vector[row] = false;
    }
    let sizes = vec![100usize, 100];
    let plan = plan_row_group_access(&selection_vector, &sizes);
    assert_eq!(plan.len(), 2);
    assert_eq!(plan[0], RowGroupAccess::Scan);
    assert_eq!(
        plan[1],
        RowGroupAccess::Selection(vec![RowSelector::select(50), RowSelector::skip(50)])
    );
}

#[test]
fn test_get_full_selection_vector() {
    let padded = get_full_selection_vector(&[false, true], 5);
    assert_eq!(padded, vec![false, true, true, true, true]);
}
