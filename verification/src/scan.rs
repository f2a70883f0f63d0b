use vstd::prelude::*;
use vstd::pervasive::unreached;
use vstd::string::StringExecFns;

use crate::access::RowGroupAccess;
use crate::access::plan_row_group_access;
use crate::access::spec_access_plan;
use crate::access::spec_total_rows;
use crate::location::parse_url_path;
use crate::location::url_path_of;
use crate::request::ScanPredicate;
use crate::request::combine_filters;
use crate::schema::DeltaTable;
use crate::schema::fields_all_mapped;
use crate::schema::has_field_named;
use crate::schema::partition_fields_mapped;
use crate::schema::spec_file_fields;
use crate::schema::find_field;
use crate::types::ArrowDataType;
use crate::types::ArrowField;
use crate::types::StructField;
use crate::types::is_mapped_type;
use crate::types::map_delta_data_type_to_arrow_data_type;

verus! {

/// What can go wrong while enumerating the snapshot's files. Both kinds
/// are collected per file; a scan with any of them fails as a whole once
/// enumeration completes.
#[derive(Debug)]
pub enum ScanError {
    /// The table root is not an absolute URL.
    InvalidTableRoot { location: String },
    /// The log engine could not materialize a file's selection vector.
    SelectionVector { message: String },
}

/// One partition column's literal value for one file: the column name, the
/// engine type the column maps to, and the value in the log's string
/// encoding, to be decoded into a typed scalar of exactly that type.
#[derive(Debug)]
pub struct PartitionValue {
    pub name: String,
    pub data_type: ArrowDataType,
    pub value: String,
}

/// One physical file contributing rows to the snapshot: absolute path,
/// byte size, and the partition-column values, in partition-column order.
#[derive(Debug)]
pub struct PartitionedFile {
    pub path: String,
    pub size: u64,
    pub partition_values: Vec<PartitionValue>,
}

/// A file together with its selection information: `None` means every row
/// is live, a vector marks each covered row live (`true`) or logically
/// deleted (`false`).
#[derive(Debug)]
pub struct PartitionFileContext {
    pub partitioned_file: PartitionedFile,
    pub selection_vector: Option<Vec<bool>>,
}

/// The accumulator threaded through one scan's file enumeration: the
/// snapshot-scoped configuration the per-file handler reads, the files
/// collected so far, and the errors collected so far.
pub struct ScanContext {
    pub errs: Vec<ScanError>,
    pub table_root: String,
    pub partition_columns: Vec<String>,
    pub logical_fields: Vec<StructField>,
    pub files: Vec<PartitionFileContext>,
}

impl ScanContext {
    /// Every partition column names a logical field, so the per-file
    /// handler can derive each value's engine type.
    pub open spec fn wf(self) -> bool {
        forall|i: int|
            0 <= i < self.partition_columns@.len() ==> has_field_named(
                self.logical_fields@,
                self.partition_columns@[i]@,
            )
    }

    /// A fresh accumulator for one scan: no files, no errors.
    pub fn new(
        table_root: String,
        partition_columns: Vec<String>,
        logical_fields: Vec<StructField>,
    ) -> (r: Self)
        ensures
            r.errs@.len() == 0,
            r.files@.len() == 0,
            r.table_root == table_root,
            r.partition_columns == partition_columns,
            r.logical_fields == logical_fields,
    {
        ScanContext {
            errs: Vec::new(),
            table_root,
            partition_columns,
            logical_fields,
            files: Vec::new(),
        }
    }
}

/// The value paired with `key` in an association list, first match first.
pub open spec fn spec_pair_value(pairs: Seq<(String, String)>, key: Seq<char>) -> Option<String>
    decreases pairs.len(),
{
    if pairs.len() == 0 {
        Option::None
    } else if pairs[0].0@ == key {
        Option::Some(pairs[0].1)
    } else {
        spec_pair_value(pairs.skip(1), key)
    }
}

/// First index of the pair keyed `key`, if one is there.
fn find_pair(pairs: &Vec<(String, String)>, key: &String) -> (r: Option<usize>)
    ensures
        match r {
            Some(j) => j < pairs@.len() && spec_pair_value(pairs@, key@) == Option::Some(
                pairs@[j as int].1,
            ),
            None => spec_pair_value(pairs@, key@) is None,
        },
{
    let n = pairs.len();
    let mut j: usize = 0;
    proof {
        assert(pairs@.skip(0) =~= pairs@);
    }
    while j < n
        invariant
            j <= n,
            n == pairs@.len(),
            spec_pair_value(pairs@, key@) == spec_pair_value(pairs@.skip(j as int), key@),
        decreases n - j,
    {
        let ghost rest = pairs@.skip(j as int);
        if pairs[j].0.eq(key) {
            proof {
                assert(rest[0] == pairs@[j as int]);
            }
            return Some(j);
        }
        proof {
            assert(rest[0] == pairs@[j as int]);
            assert(rest.skip(1) =~= pairs@.skip(j + 1));
        }
        j += 1;
    }
    proof {
        assert(pairs@.skip(n as int).len() == 0);
    }
    None
}

/// `r[i]` is partition column `i`'s decoded entry: named after the column,
/// typed by the mapped type of the logical field of that name, carrying
/// the value the log supplied for that column.
pub open spec fn partition_value_ok(
    cols: Seq<String>,
    fields: Seq<StructField>,
    pairs: Seq<(String, String)>,
    r: Seq<PartitionValue>,
    i: int,
) -> bool {
    r[i].name == cols[i] && spec_pair_value(pairs, cols[i]@) == Option::Some(r[i].value)
        && exists|j: int|
        0 <= j < fields.len() && fields[j].name@ == cols[i]@ && is_mapped_type(
            (#[trigger] fields[j]).data_type,
            r[i].data_type,
        )
}

/// `r` lists one decoded entry per partition column, in partition-column
/// order.
pub open spec fn partition_values_ok(
    cols: Seq<String>,
    fields: Seq<StructField>,
    pairs: Seq<(String, String)>,
    r: Seq<PartitionValue>,
) -> bool {
    r.len() == cols.len() && (forall|i: int|
        0 <= i < cols.len() ==> #[trigger] partition_value_ok(cols, fields, pairs, r, i))
}

/// Builds a file's partition-value list: each partition column's
/// string-encoded value from the log, paired with the engine type it must
/// decode to.
fn build_partition_values(
    partition_columns: &Vec<String>,
    logical_fields: &Vec<StructField>,
    partition_values: &Vec<(String, String)>,
) -> (r: Vec<PartitionValue>)
    requires
        forall|i: int|
            0 <= i < partition_columns@.len() ==> has_field_named(
                logical_fields@,
                partition_columns@[i]@,
            ),
        forall|i: int|
            0 <= i < partition_columns@.len() ==> spec_pair_value(
                partition_values@,
                partition_columns@[i]@,
            ) is Some,
    ensures
        partition_values_ok(partition_columns@, logical_fields@, partition_values@, r@),
{
    let mut r: Vec<PartitionValue> = Vec::new();
    let n = partition_columns.len();
    let mut i: usize = 0;
    while i < n
        invariant
            i <= n,
            n == partition_columns@.len(),
            forall|k: int|
                0 <= k < partition_columns@.len() ==> has_field_named(
                    logical_fields@,
                    partition_columns@[k]@,
                ),
            forall|k: int|
                0 <= k < partition_columns@.len() ==> spec_pair_value(
                    partition_values@,
                    partition_columns@[k]@,
                ) is Some,
            r@.len() == i,
            forall|k: int|
                0 <= k < i ==> #[trigger] partition_value_ok(
                    partition_columns@,
                    logical_fields@,
                    partition_values@,
                    r@,
                    k,
                ),
        decreases n - i,
    {
        let ghost old_r = r@;
        let col = &partition_columns[i];
        let fidx = match find_field(logical_fields, col) {
            Some(j) => j,
            None => unreached(),
        };
        let pidx = match find_pair(partition_values, col) {
            Some(j) => j,
            None => unreached(),
        };
        let data_type = map_delta_data_type_to_arrow_data_type(&logical_fields[fidx].data_type);
        r.push(
            PartitionValue {
                name: col.clone(),
                data_type,
                value: partition_values[pidx].1.clone(),
            },
        );
        proof {
            assert forall|k: int| 0 <= k < i + 1 implies #[trigger] partition_value_ok(
                partition_columns@,
                logical_fields@,
                partition_values@,
                r@,
                k,
            ) by {
                if k < i {
                    assert(partition_value_ok(
                        partition_columns@,
                        logical_fields@,
                        partition_values@,
                        old_r,
                        k,
                    ));
                    assert(r@[k] == old_r[k]);
                }
            }
        }
        i += 1;
    }
    r
}

/// Handles one per-file visitation event of the log engine's scan: joins
/// the file's path to the table root, records its size, pairs every
/// partition column's string value with its mapped type, and stores the
/// file's selection vector. A table root that is no absolute URL, or a
/// failed selection-vector materialization, is recorded as an error and
/// the file is not collected; enumeration goes on with the next file.
pub fn handle_scan_file(
    scan_context: &mut ScanContext,
    path: &str,
    size: i64,
    selection_vector: Result<Option<Vec<bool>>, String>,
    partition_values: &Vec<(String, String)>,
)
    requires
        old(scan_context).wf(),
        forall|i: int|
            0 <= i < old(scan_context).partition_columns@.len() ==> spec_pair_value(
                partition_values@,
                old(scan_context).partition_columns@[i]@,
            ) is Some,
    ensures
        final(scan_context).table_root == old(scan_context).table_root,
        final(scan_context).partition_columns == old(scan_context).partition_columns,
        final(scan_context).logical_fields == old(scan_context).logical_fields,
        match url_path_of(old(scan_context).table_root@) {
            Option::None => final(scan_context).files == old(scan_context).files
                && final(scan_context).errs@ == old(scan_context).errs@.push(
                ScanError::InvalidTableRoot { location: old(scan_context).table_root },
            ),
            Option::Some(root_path) => match selection_vector {
                Result::Err(message) => final(scan_context).files == old(scan_context).files
                    && final(scan_context).errs@ == old(scan_context).errs@.push(
                    ScanError::SelectionVector { message },
                ),
                Result::Ok(sv) => final(scan_context).errs == old(scan_context).errs
                    && final(scan_context).files@.len() == old(scan_context).files@.len() + 1
                    && final(scan_context).files@ == old(scan_context).files@.push(
                    final(scan_context).files@.last(),
                ) && {
                    let f = final(scan_context).files@.last();
                    f.selection_vector == sv && f.partitioned_file.size == size as u64
                        && f.partitioned_file.path@ == root_path + seq!['/'] + path@
                        && partition_values_ok(
                        old(scan_context).partition_columns@,
                        old(scan_context).logical_fields@,
                        partition_values@,
                        f.partitioned_file.partition_values@,
                    )
                },
            },
        },
{
    let root_path = match parse_url_path(scan_context.table_root.as_str()) {
        Some(p) => p,
        None => {
            let location = scan_context.table_root.clone();
            scan_context.errs.push(ScanError::InvalidTableRoot { location });
            return ;
        },
    };

    let values = build_partition_values(
        &scan_context.partition_columns,
        &scan_context.logical_fields,
        partition_values,
    );

    let sv = match selection_vector {
        Ok(sv) => sv,
        Err(message) => {
            scan_context.errs.push(ScanError::SelectionVector { message });
            return ;
        },
    };

    let mut full_path = root_path;
    proof {
        reveal_strlit("/");
        assert(("/")@ =~= seq!['/']);
    }
    full_path.append("/");
    full_path.append(path);

    #[verifier::truncate]
    let size_u64 = size as u64;
    let partitioned_file = PartitionedFile {
        path: full_path,
        size: size_u64,
        partition_values: values,
    };
    scan_context.files.push(
        PartitionFileContext { partitioned_file, selection_vector: sv },
    );
}

/// Closes enumeration: a scan with any recorded error fails as a whole
/// with the first error, and no partial file list escapes; otherwise every
/// collected file is handed on, in enumeration order.
pub fn take_scan_files(scan_context: ScanContext) -> (r: Result<
    Vec<PartitionFileContext>,
    ScanError,
>)
    ensures
        match r {
            Result::Ok(files) => scan_context.errs@.len() == 0 && files == scan_context.files,
            Result::Err(e) => scan_context.errs@.len() > 0 && e == scan_context.errs@[0],
        },
{
    let ScanContext { mut errs, files, .. } = scan_context;
    if errs.len() > 0 {
        Err(errs.remove(0))
    } else {
        Ok(files)
    }
}

/// One file of the final plan: the file reference, and the row-group
/// access plan for files that carried a selection vector.
#[derive(Debug)]
pub struct ScanFile {
    pub file: PartitionedFile,
    pub access_plan: Option<Vec<RowGroupAccess>>,
}

/// Resolves one file's access: a file without selection information is
/// read in full and gets no access plan; a file with a selection vector
/// gets one decision per row group, computed from the row-group row
/// counts of its metadata.
pub fn resolve_file_access(
    file_context: PartitionFileContext,
    row_group_sizes: Option<&Vec<usize>>,
) -> (r: ScanFile)
    requires
        file_context.selection_vector matches Some(sv) ==> (row_group_sizes matches Some(sizes)
            && spec_total_rows(sizes@) <= usize::MAX && sv@.len() <= spec_total_rows(sizes@)),
    ensures
        r.file == file_context.partitioned_file,
        match file_context.selection_vector {
            Option::None => r.access_plan is None,
            Option::Some(sv) => r.access_plan matches Some(plan) && row_group_sizes matches Some(
                sizes,
            ) && plan@.len() == sizes@.len() && (forall|g: int|
                0 <= g < plan@.len() ==> (#[trigger] plan@[g])@ == spec_access_plan(
                    sv@,
                    sizes@,
                )[g]),
        },
{
    let PartitionFileContext { partitioned_file, selection_vector } = file_context;
    match selection_vector {
        None => ScanFile { file: partitioned_file, access_plan: None },
        Some(sv) => {
            let sizes = match row_group_sizes {
                Some(s) => s,
                None => unreached(),
            };
            let plan = plan_row_group_access(sv.as_slice(), sizes);
            ScanFile { file: partitioned_file, access_plan: Some(plan) }
        },
    }
}

/// The final scan plan handed to the execution engine: the file-physical
/// schema, the enumerated files with their access plans, the partition
/// fields, the combined predicate, and the caller's projection and row
/// limit.
#[derive(Debug)]
pub struct ScanPlan {
    pub file_schema: Vec<ArrowField>,
    pub files: Vec<ScanFile>,
    pub partition_fields: Vec<ArrowField>,
    pub predicate: ScanPredicate,
    pub projection: Option<Vec<usize>>,
    pub limit: Option<usize>,
}

/// Assembles the final plan: file order is kept exactly as enumerated, the
/// schemas are the snapshot's file-physical and partition views, and the
/// predicate is the conjunction of the engine's filters (constant-true
/// when there are none).
pub fn assemble_scan_plan(
    table: &DeltaTable,
    files: Vec<ScanFile>,
    n_filters: usize,
    projection: Option<Vec<usize>>,
    limit: Option<usize>,
) -> (r: ScanPlan)
    requires
        table.snapshot.partition_columns_exist(),
    ensures
        r.files == files,
        fields_all_mapped(
            spec_file_fields(table.snapshot.fields@, table.snapshot.partition_columns@),
            r.file_schema@,
        ),
        partition_fields_mapped(
            table.snapshot.fields@,
            table.snapshot.partition_columns@,
            r.partition_fields@,
        ),
        n_filters == 0 ==> r.predicate == ScanPredicate::True,
        n_filters > 0 ==> r.predicate == ScanPredicate::AndOfFilters(n_filters),
        r.projection == projection,
        r.limit == limit,
{
    let file_schema = crate::schema::get_file_schema(&table.snapshot);
    let partition_fields = crate::schema::get_partition_schema(&table.snapshot);
    let predicate = combine_filters(n_filters);
    ScanPlan { file_schema, files, partition_fields, predicate, projection, limit }
}

} // verus!
