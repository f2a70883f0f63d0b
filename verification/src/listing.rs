use vstd::prelude::*;
use vstd::string::StrSliceExecFns;
use vstd::string::StringExecFns;

use crate::schema::is_partition_col;
use crate::types::ArrowField;

verus! {

/// Builds file-listing scan sources for plain file formats.
pub struct ListingTableFactory {}

impl ListingTableFactory {
    /// Creates a new `ListingTableFactory`.
    pub fn new() -> (r: Self)
        ensures
            r == (ListingTableFactory {  }),
    {
        ListingTableFactory {  }
    }
}

impl Default for ListingTableFactory {
    fn default() -> (r: Self)
        ensures
            r == (ListingTableFactory {  }),
    {
        ListingTableFactory {  }
    }
}

/// What can go wrong while resolving a listing table's schema.
#[derive(Debug)]
pub enum ListingError {
    /// A declared partition column is not in the supplied schema.
    ColumnNotInSchema { name: String },
    /// An ORDER BY column is not in the schema.
    OrderColumnNotInSchema { name: String },
}

/// Where a partition column's type comes from: the supplied schema field of
/// that name, or the default dictionary encoding (unsigned 16-bit keys over
/// text) when the schema is to be inferred.
#[derive(Clone, Copy, Debug, PartialEq, Eq, Structural)]
pub enum ListingPartitionType {
    FromField(usize),
    DefaultDictionary,
}

/// One resolved partition column of a listing table.
#[derive(Debug)]
pub struct ListingPartitionCol {
    pub name: String,
    pub source: ListingPartitionType,
}

/// The schema decision for a listing table: which supplied fields form the
/// file schema (`None` when the schema is to be inferred from the files),
/// and the resolved partition columns.
#[derive(Debug)]
pub struct ListingSchemaResolution {
    pub projected_schema: Option<Vec<usize>>,
    pub table_partition_cols: Vec<ListingPartitionCol>,
}

/// First index of an engine field named `name`, searching from the front.
pub open spec fn spec_find_arrow_index(fields: Seq<ArrowField>, name: Seq<char>) -> Option<int>
    decreases fields.len(),
{
    if fields.len() == 0 {
        Option::None
    } else if fields[0].name@ == name {
        Option::Some(0int)
    } else {
        match spec_find_arrow_index(fields.skip(1), name) {
            Option::Some(j) => Option::Some(j + 1),
            Option::None => Option::None,
        }
    }
}

/// The indices of the supplied fields that are not partition columns, in
/// order: the file schema of a partitioned listing table.
pub open spec fn spec_nonpartition_indices(fields: Seq<ArrowField>, parts: Seq<String>) -> Seq<
    usize,
>
    decreases fields.len(),
{
    if fields.len() == 0 {
        Seq::empty()
    } else {
        let prefix = spec_nonpartition_indices(fields.drop_last(), parts);
        if is_partition_col(parts, fields.last().name@) {
            prefix
        } else {
            prefix.push((fields.len() - 1) as usize)
        }
    }
}

pub proof fn lemma_find_arrow_index_some(fields: Seq<ArrowField>, name: Seq<char>, j: int)
    requires
        0 <= j < fields.len(),
        fields[j].name@ == name,
        forall|k: int| 0 <= k < j ==> fields[k].name@ != name,
    ensures
        spec_find_arrow_index(fields, name) == Option::Some(j),
    decreases j,
{
    if j > 0 {
        assert forall|k: int| 0 <= k < j - 1 implies fields.skip(1)[k].name@ != name by {
            assert(fields.skip(1)[k] == fields[k + 1]);
        }
        assert(fields.skip(1)[j - 1] == fields[j]);
        lemma_find_arrow_index_some(fields.skip(1), name, j - 1);
    }
}

pub proof fn lemma_find_arrow_index_none(fields: Seq<ArrowField>, name: Seq<char>)
    requires
        forall|k: int| 0 <= k < fields.len() ==> fields[k].name@ != name,
    ensures
        spec_find_arrow_index(fields, name) is None,
    decreases fields.len(),
{
    if fields.len() > 0 {
        assert forall|k: int| 0 <= k < fields.skip(1).len() implies fields.skip(1)[k].name@
            != name by {
            assert(fields.skip(1)[k] == fields[k + 1]);
        }
        lemma_find_arrow_index_none(fields.skip(1), name);
    }
}

/// First index of the engine field named `name`, if any carries that name.
fn find_arrow_field(fields: &Vec<ArrowField>, name: &String) -> (r: Option<usize>)
    ensures
        match r {
            Some(j) => spec_find_arrow_index(fields@, name@) == Option::Some(j as int),
            None => spec_find_arrow_index(fields@, name@) is None,
        },
{
    let n = fields.len();
    let mut j: usize = 0;
    while j < n
        invariant
            j <= n,
            n == fields@.len(),
            forall|k: int| 0 <= k < j ==> fields@[k].name@ != name@,
        decreases n - j,
    {
        if fields[j].name.eq(name) {
            proof {
                lemma_find_arrow_index_some(fields@, name@, j as int);
            }
            return Some(j);
        }
        j += 1;
    }
    proof {
        lemma_find_arrow_index_none(fields@, name@);
    }
    None
}

/// Resolves a listing table's schema declaration. With no supplied fields,
/// the file schema is inferred later and every partition column gets the
/// default dictionary encoding. With supplied fields, each partition column
/// must name one of them — the first that does not is the error — and the
/// file schema keeps exactly the non-partition fields, in order, so that a
/// partitioned table can be declared with its partition columns listed
/// among the column definitions.
pub fn resolve_listing_schema(
    schema_fields: &Vec<ArrowField>,
    table_partition_cols: &Vec<String>,
) -> (r: Result<ListingSchemaResolution, ListingError>)
    ensures
        match r {
            Result::Ok(res) => res.table_partition_cols@.len() == table_partition_cols@.len() && (
            forall|i: int|
                0 <= i < table_partition_cols@.len()
                    ==> (#[trigger] res.table_partition_cols@[i]).name
                    == table_partition_cols@[i]) && if schema_fields@.len() == 0 {
                res.projected_schema is None && forall|i: int|
                    0 <= i < table_partition_cols@.len()
                        ==> (#[trigger] res.table_partition_cols@[i]).source
                        == ListingPartitionType::DefaultDictionary
            } else {
                (forall|i: int|
                    0 <= i < table_partition_cols@.len()
                        ==> ((#[trigger] res.table_partition_cols@[i]).source matches
                        ListingPartitionType::FromField(j) && spec_find_arrow_index(
                        schema_fields@,
                        table_partition_cols@[i]@,
                    ) == Option::Some(j as int))) && (res.projected_schema matches Some(idx) && idx@
                    == spec_nonpartition_indices(schema_fields@, table_partition_cols@))
            },
            Result::Err(e) => schema_fields@.len() > 0 && (e matches
                ListingError::ColumnNotInSchema { name } && exists|i: int|
                0 <= i < table_partition_cols@.len() && name == table_partition_cols@[i]
                    && spec_find_arrow_index(schema_fields@, (#[trigger] table_partition_cols@[i])@)
                    is None),
        },
{
    let n_parts = table_partition_cols.len();
    let mut cols: Vec<ListingPartitionCol> = Vec::new();

    if schema_fields.len() == 0 {
        let mut i: usize = 0;
        while i < n_parts
            invariant
                i <= n_parts,
                n_parts == table_partition_cols@.len(),
                cols@.len() == i,
                forall|k: int|
                    0 <= k < i ==> (#[trigger] cols@[k]).name == table_partition_cols@[k]
                        && cols@[k].source == ListingPartitionType::DefaultDictionary,
            decreases n_parts - i,
        {
            cols.push(
                ListingPartitionCol {
                    name: table_partition_cols[i].clone(),
                    source: ListingPartitionType::DefaultDictionary,
                },
            );
            i += 1;
        }
        return Ok(ListingSchemaResolution { projected_schema: None, table_partition_cols: cols });
    }

    let mut i: usize = 0;
    while i < n_parts
        invariant
            schema_fields@.len() > 0,
            i <= n_parts,
            n_parts == table_partition_cols@.len(),
            cols@.len() == i,
            forall|k: int|
                0 <= k < i ==> (#[trigger] cols@[k]).name == table_partition_cols@[k] && (
                cols@[k].source matches ListingPartitionType::FromField(j)
                    && spec_find_arrow_index(schema_fields@, table_partition_cols@[k]@)
                    == Option::Some(j as int)),
        decreases n_parts - i,
    {
        match find_arrow_field(schema_fields, &table_partition_cols[i]) {
            Some(j) => {
                cols.push(
                    ListingPartitionCol {
                        name: table_partition_cols[i].clone(),
                        source: ListingPartitionType::FromField(j),
                    },
                );
            },
            None => {
                let name = table_partition_cols[i].clone();
                proof {
                    assert(name == table_partition_cols@[i as int] && spec_find_arrow_index(
                        schema_fields@,
                        table_partition_cols@[i as int]@,
                    ) is None);
                }
                return Err(ListingError::ColumnNotInSchema { name });
            },
        }
        i += 1;
    }

    // Exclude partition columns, so a partitioned table can be declared
    // with a full column definition list.
    let n_fields = schema_fields.len();
    let mut project_idx: Vec<usize> = Vec::new();
    let mut f: usize = 0;
    while f < n_fields
        invariant
            f <= n_fields,
            n_fields == schema_fields@.len(),
            project_idx@ == spec_nonpartition_indices(
                schema_fields@.take(f as int),
                table_partition_cols@,
            ),
        decreases n_fields - f,
    {
        if !crate::schema::contains_column(table_partition_cols, &schema_fields[f].name) {
            project_idx.push(f);
        }
        proof {
            let taken = schema_fields@.take(f + 1);
            assert(taken.drop_last() =~= schema_fields@.take(f as int));
            assert(taken.last() == schema_fields@[f as int]);
        }
        f += 1;
    }
    proof {
        assert(schema_fields@.take(n_fields as int) =~= schema_fields@);
    }
    Ok(
        ListingSchemaResolution {
            projected_schema: Some(project_idx),
            table_partition_cols: cols,
        },
    )
}

/// Checks the columns an ORDER BY clause refers to against the schema's
/// column names: the first one missing is the error, and with none missing
/// the clause is accepted.
pub fn check_order_columns(schema_names: &Vec<String>, order_columns: &Vec<String>) -> (r: Result<
    (),
    ListingError,
>)
    ensures
        match r {
            Result::Ok(_) => forall|i: int|
                0 <= i < order_columns@.len() ==> is_partition_col(
                    schema_names@,
                    (#[trigger] order_columns@[i])@,
                ),
            Result::Err(e) => e matches ListingError::OrderColumnNotInSchema { name }
                && exists|i: int|
                0 <= i < order_columns@.len() && name == order_columns@[i] && !is_partition_col(
                    schema_names@,
                    (#[trigger] order_columns@[i])@,
                ),
        },
{
    let n = order_columns.len();
    let mut i: usize = 0;
    while i < n
        invariant
            i <= n,
            n == order_columns@.len(),
            forall|k: int|
                0 <= k < i ==> is_partition_col(schema_names@, (#[trigger] order_columns@[k])@),
        decreases n - i,
    {
        if !crate::schema::contains_column(schema_names, &order_columns[i]) {
            let name = order_columns[i].clone();
            return Err(ListingError::OrderColumnNotInSchema { name });
        }
        i += 1;
    }
    Ok(())
}

/// Length of `s` once trailing path separators are stripped.
pub open spec fn spec_trimmed_len(s: Seq<char>) -> int
    decreases s.len(),
{
    if s.len() > 0 && s[s.len() - 1] == '/' {
        spec_trimmed_len(s.drop_last())
    } else {
        s.len() as int
    }
}

/// Start of the path component that ends at `end`: the position after the
/// last separator before it.
pub open spec fn spec_component_start(s: Seq<char>, end: int) -> int
    decreases end,
{
    if end <= 0 {
        0
    } else if s[end - 1] == '/' {
        end
    } else {
        spec_component_start(s, end - 1)
    }
}

/// Position of the last `.` in `s[start..end]`, if there is one.
pub open spec fn spec_last_dot(s: Seq<char>, start: int, end: int) -> Option<int>
    decreases end - start,
{
    if end <= start {
        Option::None
    } else if s[end - 1] == '.' {
        Option::Some(end - 1)
    } else {
        spec_last_dot(s, start, end - 1)
    }
}

/// The extension of the path's final component: what follows its last `.`,
/// unless the component has no `.`, is all of a leading `.`, or is the
/// parent-directory component.
pub open spec fn spec_extension_of(path: Seq<char>) -> Option<Seq<char>> {
    let end = spec_trimmed_len(path);
    let start = spec_component_start(path, end);
    if end - start == 2 && path[start] == '.' && path[start + 1] == '.' {
        Option::None
    } else {
        match spec_last_dot(path, start, end) {
            Option::Some(d) => if d == start {
                Option::None
            } else {
                Option::Some(path.subrange(d + 1, end))
            },
            Option::None => Option::None,
        }
    }
}

/// The file extension to filter listed files by: a dot followed by the
/// path's own extension, or by the format's default extension when the
/// path has none.
pub open spec fn spec_get_extension(path: Seq<char>, default_ext: Seq<char>) -> Seq<char> {
    seq!['.'] + match spec_extension_of(path) {
        Option::Some(e) => e,
        Option::None => default_ext,
    }
}

/// Extracts the file extension from `path`, falling back to `default_ext`,
/// with a leading dot either way.
pub fn get_extension(path: &str, default_ext: &str) -> (r: String)
    ensures
        r@ == spec_get_extension(path@, default_ext@),
{
    proof {
        reveal_strlit(".");
        assert((".")@ =~= seq!['.']);
    }
    let n = path.unicode_len();

    // Strip trailing separators, as a path's final component ignores them.
    let mut end = n;
    proof {
        assert(path@.take(n as int) =~= path@);
    }
    while end > 0 && path.get_char(end - 1) == '/'
        invariant
            end <= n,
            n == path@.len(),
            spec_trimmed_len(path@) == spec_trimmed_len(path@.take(end as int)),
        decreases end,
    {
        proof {
            let taken = path@.take(end as int);
            assert(taken.last() == path@[end - 1]);
            assert(taken.drop_last() =~= path@.take(end - 1));
        }
        end -= 1;
    }
    proof {
        let taken = path@.take(end as int);
        if end > 0 {
            assert(taken.last() == path@[end - 1]);
        }
        assert(spec_trimmed_len(path@.take(end as int)) == end);
    }

    // Find where the final component begins.
    let mut start = end;
    while start > 0 && path.get_char(start - 1) != '/'
        invariant
            start <= end <= n,
            n == path@.len(),
            spec_component_start(path@, end as int) == spec_component_start(path@, start as int),
        decreases start,
    {
        start -= 1;
    }

    // The parent-directory component carries no extension.
    if end - start == 2 && path.get_char(start) == '.' && path.get_char(start + 1) == '.' {
        return String::from_str(".").concat(default_ext);
    }

    // Find the last dot of the component.
    let mut k = end;
    while k > start && path.get_char(k - 1) != '.'
        invariant
            start <= k <= end <= n,
            n == path@.len(),
            spec_last_dot(path@, start as int, end as int) == spec_last_dot(
                path@,
                start as int,
                k as int,
            ),
        decreases k,
    {
        k -= 1;
    }

    if k == start {
        // No dot at all in the component.
        return String::from_str(".").concat(default_ext);
    }
    let d = k - 1;
    if d == start {
        // A leading dot alone marks a hidden name, not an extension.
        return String::from_str(".").concat(default_ext);
    }
    let ext = path.substring_char(d + 1, end);
    String::from_str(".").concat(ext)
}

} // verus!
