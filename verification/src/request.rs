use vstd::prelude::*;

use crate::schema::DeltaTable;
use crate::schema::Snapshot;
use crate::schema::is_partition_col;
use crate::types::ArrowField;
use crate::types::StructField;

verus! {

/// How far the scan source enforces a pushed-down filter. This adapter
/// prunes files and rows with the filters but never guarantees row-exact
/// enforcement, so it reports every filter as inexact and the engine
/// re-applies them after the scan.
#[derive(Clone, Copy, Debug, PartialEq, Eq, Structural)]
pub enum FilterPushdown {
    Unsupported,
    Inexact,
    Exact,
}

/// The predicate pushed into the scan: the conjunction of the filters the
/// engine supplied, or the constant-true predicate when it supplied none.
/// The filters themselves stay with the engine; the plan records how many
/// were combined.
#[derive(Clone, Copy, Debug, PartialEq, Eq, Structural)]
pub enum ScanPredicate {
    True,
    AndOfFilters(usize),
}

/// Combines the engine's filters: logical AND of all of them, or the
/// constant-true predicate when none are supplied.
pub fn combine_filters(n_filters: usize) -> (p: ScanPredicate)
    ensures
        n_filters == 0 ==> p == ScanPredicate::True,
        n_filters > 0 ==> p == ScanPredicate::AndOfFilters(n_filters),
{
    if n_filters == 0 {
        ScanPredicate::True
    } else {
        ScanPredicate::AndOfFilters(n_filters)
    }
}

impl DeltaTable {
    /// Pushdown capability for each offered filter: always inexact, since
    /// deletion-vector and partition pruning narrow the files read but do
    /// not enforce data-column predicates row-exactly.
    pub fn supports_filters_pushdown(&self, n_filters: usize) -> (r: Vec<FilterPushdown>)
        ensures
            r@.len() == n_filters,
            forall|i: int| 0 <= i < r@.len() ==> r@[i] == FilterPushdown::Inexact,
    {
        let mut r: Vec<FilterPushdown> = Vec::new();
        let mut i: usize = 0;
        while i < n_filters
            invariant
                i <= n_filters,
                r@.len() == i,
                forall|k: int| 0 <= k < i ==> r@[k] == FilterPushdown::Inexact,
            decreases n_filters - i,
        {
            r.push(FilterPushdown::Inexact);
            i += 1;
        }
        r
    }
}

/// First index of a field named `name`, searching from the front.
pub open spec fn spec_find_field_index(fields: Seq<StructField>, name: Seq<char>) -> Option<int>
    decreases fields.len(),
{
    if fields.len() == 0 {
        Option::None
    } else if fields[0].name@ == name {
        Option::Some(0int)
    } else {
        match spec_find_field_index(fields.skip(1), name) {
            Option::Some(j) => Option::Some(j + 1),
            Option::None => Option::None,
        }
    }
}

/// Looks `name` up among the file-physical columns: a partition column has
/// no file-physical counterpart, so it is not found; any other name finds
/// the first logical field carrying it.
pub open spec fn spec_find_file_field(
    fields: Seq<StructField>,
    parts: Seq<String>,
    name: Seq<char>,
) -> Option<int> {
    if is_partition_col(parts, name) {
        Option::None
    } else {
        spec_find_field_index(fields, name)
    }
}

/// The scan request for a projection: for each projected logical column,
/// the index of its field in the snapshot's declared field list, keeping
/// projection order; columns with no file-physical counterpart are
/// silently omitted.
pub open spec fn spec_project_request(
    fields: Seq<StructField>,
    parts: Seq<String>,
    aschema: Seq<ArrowField>,
    proj: Seq<usize>,
) -> Seq<usize>
    decreases proj.len(),
{
    if proj.len() == 0 {
        Seq::empty()
    } else {
        let prefix = spec_project_request(fields, parts, aschema, proj.drop_last());
        match spec_find_file_field(fields, parts, aschema[proj.last() as int].name@) {
            Option::Some(j) => prefix.push(j as usize),
            Option::None => prefix,
        }
    }
}

pub proof fn lemma_find_index_some(fields: Seq<StructField>, name: Seq<char>, j: int)
    requires
        0 <= j < fields.len(),
        fields[j].name@ == name,
        forall|k: int| 0 <= k < j ==> fields[k].name@ != name,
    ensures
        spec_find_field_index(fields, name) == Option::Some(j),
    decreases j,
{
    if j > 0 {
        assert forall|k: int| 0 <= k < j - 1 implies fields.skip(1)[k].name@ != name by {
            assert(fields.skip(1)[k] == fields[k + 1]);
        }
        assert(fields.skip(1)[j - 1] == fields[j]);
        lemma_find_index_some(fields.skip(1), name, j - 1);
    }
}

pub proof fn lemma_find_index_none(fields: Seq<StructField>, name: Seq<char>)
    requires
        forall|k: int| 0 <= k < fields.len() ==> fields[k].name@ != name,
    ensures
        spec_find_field_index(fields, name) is None,
    decreases fields.len(),
{
    if fields.len() > 0 {
        assert forall|k: int| 0 <= k < fields.skip(1).len() implies fields.skip(1)[k].name@
            != name by {
            assert(fields.skip(1)[k] == fields[k + 1]);
        }
        lemma_find_index_none(fields.skip(1), name);
    }
}

/// Narrows the snapshot's scan to the table-format columns that will
/// actually be read. With no projection, the full declared field list is
/// requested. With a projection, each selected logical column is looked up
/// among the file-physical columns and requested when found; partition
/// columns are omitted, since their values come from the log, not from the
/// files. The result lists indices into the snapshot's declared field
/// list, in projection order.
pub fn project_delta_schema(
    snapshot: &Snapshot,
    arrow_schema: &Vec<ArrowField>,
    projections: Option<&Vec<usize>>,
) -> (r: Vec<usize>)
    requires
        projections matches Some(p) ==> forall|i: int|
            0 <= i < p@.len() ==> (#[trigger] p@[i]) < arrow_schema@.len(),
    ensures
        match projections {
            Some(p) => r@ == spec_project_request(
                snapshot.fields@,
                snapshot.partition_columns@,
                arrow_schema@,
                p@,
            ),
            None => r@.len() == snapshot.fields@.len() && forall|i: int|
                0 <= i < r@.len() ==> (#[trigger] r@[i]) as int == i,
        },
{
    match projections {
        Some(p) => {
            let mut r: Vec<usize> = Vec::new();
            let n = p.len();
            let mut k: usize = 0;
            while k < n
                invariant
                    k <= n,
                    n == p@.len(),
                    forall|i: int| 0 <= i < p@.len() ==> (#[trigger] p@[i]) < arrow_schema@.len(),
                    r@ == spec_project_request(
                        snapshot.fields@,
                        snapshot.partition_columns@,
                        arrow_schema@,
                        p@.take(k as int),
                    ),
                decreases n - k,
            {
                let ghost prefix = p@.take(k as int);
                let idx = p[k];
                let name = &arrow_schema[idx].name;
                if !crate::schema::contains_column(
                    &snapshot.partition_columns,
                    name,
                ) {
                    match crate::schema::find_field(&snapshot.fields, name) {
                        Some(j) => {
                            proof {
                                lemma_find_index_some(snapshot.fields@, name@, j as int);
                            }
                            r.push(j);
                        },
                        None => {
                            proof {
                                lemma_find_index_none(snapshot.fields@, name@);
                            }
                        },
                    }
                }
                proof {
                    let taken = p@.take(k + 1);
                    assert(taken.drop_last() =~= prefix);
                    assert(taken.last() == p@[k as int]);
                }
                k += 1;
            }
            proof {
                assert(p@.take(n as int) =~= p@);
            }
            r
        },
        None => {
            let mut r: Vec<usize> = Vec::new();
            let n = snapshot.fields.len();
            let mut i: usize = 0;
            while i < n
                invariant
                    i <= n,
                    r@.len() == i,
                    forall|k: int| 0 <= k < i ==> (#[trigger] r@[k]) as int == k,
                decreases n - i,
            {
                r.push(i);
                i += 1;
            }
            r
        },
    }
}

} // verus!
