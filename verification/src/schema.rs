use vstd::prelude::*;
use vstd::pervasive::unreached;

use crate::types::ArrowField;
use crate::types::StructField;
use crate::types::map_delta_data_type_to_arrow_data_type;
use crate::types::is_mapped_field;

verus! {

/// An immutable, versioned view of a table's log at one point in time, as
/// the scan logic reads it: the logical field list in declared order, the
/// partition column names in declaration order, and the table root
/// location.
pub struct Snapshot {
    pub fields: Vec<StructField>,
    pub partition_columns: Vec<String>,
    pub table_root: String,
}

/// `name` is one of the partition column names.
pub open spec fn is_partition_col(parts: Seq<String>, name: Seq<char>) -> bool {
    exists|i: int| 0 <= i < parts.len() && parts[i]@ == name
}

/// Some field of `fields` is named `name`.
pub open spec fn has_field_named(fields: Seq<StructField>, name: Seq<char>) -> bool {
    exists|i: int| 0 <= i < fields.len() && fields[i].name@ == name
}

impl Snapshot {
    /// Every partition column names a field of the logical schema.
    pub open spec fn partition_columns_exist(self) -> bool {
        forall|i: int|
            0 <= i < self.partition_columns@.len() ==> has_field_named(
                self.fields@,
                self.partition_columns@[i]@,
            )
    }
}

/// The file-physical half of the schema: the fields whose name is not a
/// partition column, in declared order.
pub open spec fn spec_file_fields(fields: Seq<StructField>, parts: Seq<String>) -> Seq<
    StructField,
>
    decreases fields.len(),
{
    if fields.len() == 0 {
        Seq::empty()
    } else {
        let prefix = spec_file_fields(fields.drop_last(), parts);
        if is_partition_col(parts, fields.last().name@) {
            prefix
        } else {
            prefix.push(fields.last())
        }
    }
}

/// `afields` are exactly the engine fields derived from `dfields`, in
/// order: same names, same nullability, mapped types.
pub open spec fn fields_all_mapped(dfields: Seq<StructField>, afields: Seq<ArrowField>) -> bool {
    afields.len() == dfields.len() && (forall|i: int|
        0 <= i < dfields.len() ==> is_mapped_field(#[trigger] dfields[i], afields[i]))
}

/// `r[i]` is the engine field for partition column `i`: named after the
/// column, derived from the logical field of that name.
pub open spec fn partition_field_ok(
    fields: Seq<StructField>,
    parts: Seq<String>,
    r: Seq<ArrowField>,
    i: int,
) -> bool {
    r[i].name@ == parts[i]@ && exists|j: int|
        0 <= j < fields.len() && fields[j].name@ == parts[i]@ && is_mapped_field(
            #[trigger] fields[j],
            r[i],
        )
}

/// `r` lists one engine field per partition column, in partition-column
/// declaration order.
pub open spec fn partition_fields_mapped(
    fields: Seq<StructField>,
    parts: Seq<String>,
    r: Seq<ArrowField>,
) -> bool {
    r.len() == parts.len() && (forall|i: int|
        0 <= i < parts.len() ==> #[trigger] partition_field_ok(fields, parts, r, i))
}

/// The logical schema `r` is the file-physical fields followed by the
/// partition fields, with the count invariant between the three lists.
pub open spec fn spec_logical_schema_ok(
    fields: Seq<StructField>,
    parts: Seq<String>,
    r: Seq<ArrowField>,
) -> bool {
    let file = spec_file_fields(fields, parts);
    r.len() == file.len() + parts.len() && fields_all_mapped(file, r.take(file.len() as int))
        && partition_fields_mapped(fields, parts, r.skip(file.len() as int))
}

/// True when `name` names one of the table's partition columns.
pub(crate) fn contains_column(parts: &Vec<String>, name: &String) -> (r: bool)
    ensures
        r == is_partition_col(parts@, name@),
{
    let n = parts.len();
    let mut i: usize = 0;
    while i < n
        invariant
            i <= n,
            n == parts@.len(),
            forall|k: int| 0 <= k < i ==> parts@[k]@ != name@,
        decreases n - i,
    {
        if parts[i].eq(name) {
            return true;
        }
        i += 1;
    }
    false
}

/// Index of the first field named `name`, if any field carries that name.
pub(crate) fn find_field(fields: &Vec<StructField>, name: &String) -> (r: Option<usize>)
    ensures
        match r {
            Some(j) => j < fields@.len() && fields@[j as int].name@ == name@ && (forall|k: int|
                0 <= k < j ==> fields@[k].name@ != name@),
            None => !has_field_named(fields@, name@),
        },
{
    let n = fields.len();
    let mut j: usize = 0;
    while j < n
        invariant
            j <= n,
            n == fields@.len(),
            forall|k: int| 0 <= k < j ==> fields@[k].name@ != name@,
        decreases n - j,
    {
        if fields[j].name.eq(name) {
            return Some(j);
        }
        j += 1;
    }
    None
}

/// Checks the snapshot shape that schema resolution relies on: every
/// declared partition column must name a field of the logical schema.
pub fn check_partition_columns(snapshot: &Snapshot) -> (b: bool)
    ensures
        b == snapshot.partition_columns_exist(),
{
    let n = snapshot.partition_columns.len();
    let mut i: usize = 0;
    while i < n
        invariant
            i <= n,
            n == snapshot.partition_columns@.len(),
            forall|k: int|
                0 <= k < i ==> has_field_named(
                    snapshot.fields@,
                    snapshot.partition_columns@[k]@,
                ),
        decreases n - i,
    {
        if find_field(&snapshot.fields, &snapshot.partition_columns[i]).is_none() {
            return false;
        }
        i += 1;
    }
    true
}

/// The file-physical schema: every logical field that is not a partition
/// column, mapped to its engine type, in declared order. These are the
/// columns stored in the data files themselves.
pub fn get_file_schema(snapshot: &Snapshot) -> (r: Vec<ArrowField>)
    ensures
        fields_all_mapped(
            spec_file_fields(snapshot.fields@, snapshot.partition_columns@),
            r@,
        ),
{
    let mut r: Vec<ArrowField> = Vec::new();
    let n = snapshot.fields.len();
    let mut i: usize = 0;
    while i < n
        invariant
            i <= n,
            n == snapshot.fields@.len(),
            fields_all_mapped(
                spec_file_fields(snapshot.fields@.take(i as int), snapshot.partition_columns@),
                r@,
            ),
        decreases n - i,
    {
        let f = &snapshot.fields[i];
        if !contains_column(&snapshot.partition_columns, &f.name) {
            let mapped = map_delta_data_type_to_arrow_data_type(&f.data_type);
            r.push(ArrowField { name: f.name.clone(), data_type: mapped, nullable: f.nullable });
        }
        proof {
            let taken = snapshot.fields@.take(i + 1);
            assert(taken.drop_last() =~= snapshot.fields@.take(i as int));
            assert(taken.last() == snapshot.fields@[i as int]);
        }
        i += 1;
    }
    proof {
        assert(snapshot.fields@.take(n as int) =~= snapshot.fields@);
    }
    r
}

/// The partition fields: one engine field per declared partition column,
/// looked up by name in the logical field list, in partition-column
/// declaration order.
pub fn get_partition_schema(snapshot: &Snapshot) -> (r: Vec<ArrowField>)
    requires
        snapshot.partition_columns_exist(),
    ensures
        partition_fields_mapped(snapshot.fields@, snapshot.partition_columns@, r@),
{
    let mut r: Vec<ArrowField> = Vec::new();
    let n = snapshot.partition_columns.len();
    let mut i: usize = 0;
    while i < n
        invariant
            i <= n,
            n == snapshot.partition_columns@.len(),
            snapshot.partition_columns_exist(),
            r@.len() == i,
            forall|k: int|
                0 <= k < i ==> #[trigger] partition_field_ok(
                    snapshot.fields@,
                    snapshot.partition_columns@,
                    r@,
                    k,
                ),
        decreases n - i,
    {
        let ghost old_r = r@;
        match find_field(&snapshot.fields, &snapshot.partition_columns[i]) {
            Some(j) => {
                let dk_field = &snapshot.fields[j];
                let mapped = map_delta_data_type_to_arrow_data_type(&dk_field.data_type);
                r.push(
                    ArrowField {
                        name: dk_field.name.clone(),
                        data_type: mapped,
                        nullable: dk_field.nullable,
                    },
                );
            },
            None => {
                proof {
                    assert(has_field_named(
                        snapshot.fields@,
                        snapshot.partition_columns@[i as int]@,
                    ));
                }
                unreached()
            },
        }
        proof {
            assert forall|k: int| 0 <= k < i + 1 implies #[trigger] partition_field_ok(
                snapshot.fields@,
                snapshot.partition_columns@,
                r@,
                k,
            ) by {
                if k < i {
                    assert(partition_field_ok(
                        snapshot.fields@,
                        snapshot.partition_columns@,
                        old_r,
                        k,
                    ));
                    assert(r@[k] == old_r[k]);
                }
            }
        }
        i += 1;
    }
    r
}

/// The full logical schema as callers see it: the file-physical fields
/// first, then the partition fields, the latter in partition-column
/// declaration order regardless of where those columns stand in the
/// log's declared field list.
pub fn get_schema(snapshot: &Snapshot) -> (r: Vec<ArrowField>)
    requires
        snapshot.partition_columns_exist(),
    ensures
        spec_logical_schema_ok(snapshot.fields@, snapshot.partition_columns@, r@),
{
    let mut r = get_file_schema(snapshot);
    let mut p = get_partition_schema(snapshot);
    let ghost file_half = r@;
    let ghost part_half = p@;
    r.append(&mut p);
    proof {
        let file = spec_file_fields(snapshot.fields@, snapshot.partition_columns@);
        assert(r@ == file_half + part_half);
        assert(r@.take(file.len() as int) =~= file_half);
        assert(r@.skip(file.len() as int) =~= part_half);
    }
    r
}

/// Every field of the file-physical half is a data column: its name is not
/// a partition column name.
pub proof fn lemma_file_fields_not_partition(fields: Seq<StructField>, parts: Seq<String>)
    ensures
        forall|k: int|
            0 <= k < spec_file_fields(fields, parts).len() ==> !is_partition_col(
                parts,
                #[trigger] spec_file_fields(fields, parts)[k].name@,
            ),
    decreases fields.len(),
{
    if fields.len() > 0 {
        lemma_file_fields_not_partition(fields.drop_last(), parts);
    }
}

/// Partition-order stability of schema resolution: the logical schema
/// always places the partition columns after all data columns, named in the
/// snapshot's declared partition-column order, and no data column ahead of
/// them carries a partition column's name — wherever the partition columns
/// stand in the log's own field list.
pub proof fn lemma_logical_schema_partition_order(
    fields: Seq<StructField>,
    parts: Seq<String>,
    r: Seq<ArrowField>,
)
    requires
        spec_logical_schema_ok(fields, parts, r),
    ensures
        r.len() >= parts.len(),
        forall|i: int|
            0 <= i < parts.len() ==> #[trigger] r[r.len() - parts.len() + i].name@ == parts[i]@,
        forall|k: int|
            0 <= k < r.len() - parts.len() ==> !is_partition_col(parts, #[trigger] r[k].name@),
{
    let file = spec_file_fields(fields, parts);
    lemma_file_fields_not_partition(fields, parts);
    assert forall|i: int| 0 <= i < parts.len() implies #[trigger] r[r.len() - parts.len()
        + i].name@ == parts[i]@ by {
        assert(partition_field_ok(fields, parts, r.skip(file.len() as int), i));
        assert(r.skip(file.len() as int)[i] == r[file.len() + i]);
    }
    assert forall|k: int| 0 <= k < r.len() - parts.len() implies !is_partition_col(
        parts,
        #[trigger] r[k].name@,
    ) by {
        assert(r.take(file.len() as int)[k] == r[k]);
        assert(is_mapped_field(file[k], r[k]));
        assert(r[k].name == file[k].name);
    }
}

/// The scan-source model of one table: the resolved snapshot and the three
/// schema views derived from it.
pub struct DeltaTable {
    pub snapshot: Snapshot,
    pub arrow_schema: Vec<ArrowField>,
    pub arrow_file_schema: Vec<ArrowField>,
    pub arrow_partition_cols: Vec<ArrowField>,
}

impl DeltaTable {
    /// The three schema views agree with the snapshot they were derived
    /// from.
    pub open spec fn wf(self) -> bool {
        self.snapshot.partition_columns_exist() && spec_logical_schema_ok(
            self.snapshot.fields@,
            self.snapshot.partition_columns@,
            self.arrow_schema@,
        ) && fields_all_mapped(
            spec_file_fields(self.snapshot.fields@, self.snapshot.partition_columns@),
            self.arrow_file_schema@,
        ) && partition_fields_mapped(
            self.snapshot.fields@,
            self.snapshot.partition_columns@,
            self.arrow_partition_cols@,
        )
    }

    /// Builds the table model from a resolved snapshot, deriving the
    /// logical, file-physical and partition schema views.
    pub fn from_snapshot(snapshot: Snapshot) -> (r: DeltaTable)
        requires
            snapshot.partition_columns_exist(),
        ensures
            r.wf(),
            r.snapshot == snapshot,
    {
        let arrow_schema = get_schema(&snapshot);
        let arrow_file_schema = get_file_schema(&snapshot);
        let arrow_partition_cols = get_partition_schema(&snapshot);
        DeltaTable { snapshot, arrow_schema, arrow_file_schema, arrow_partition_cols }
    }

    /// The schema callers see: the logical schema view.
    pub fn schema(&self) -> (r: &Vec<ArrowField>)
        ensures
            r == &self.arrow_schema,
    {
        &self.arrow_schema
    }
}

/// Builds `DeltaTable` scan sources.
pub struct DeltaTableFactory {}

impl DeltaTableFactory {
    /// Creates a new `DeltaTableFactory`.
    pub fn new() -> (r: Self)
        ensures
            r == (DeltaTableFactory {  }),
    {
        DeltaTableFactory {  }
    }
}

impl Default for DeltaTableFactory {
    fn default() -> (r: Self)
        ensures
            r == (DeltaTableFactory {  }),
    {
        DeltaTableFactory {  }
    }
}

} // verus!
