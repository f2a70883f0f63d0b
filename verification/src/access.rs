use vstd::prelude::*;

verus! {

/// One run of consecutive rows that a physical reader either reads
/// (`skip == false`) or passes over (`skip == true`).
#[derive(Clone, Copy, Debug, PartialEq, Eq, Structural)]
pub struct RowSelector {
    pub row_count: usize,
    pub skip: bool,
}

impl RowSelector {
    /// A run of `row_count` rows to read.
    pub fn select(row_count: usize) -> (r: RowSelector)
        ensures
            r == (RowSelector { row_count, skip: false }),
    {
        RowSelector { row_count, skip: false }
    }

    /// A run of `row_count` rows to pass over.
    pub fn skip(row_count: usize) -> (r: RowSelector)
        ensures
            r == (RowSelector { row_count, skip: true }),
    {
        RowSelector { row_count, skip: true }
    }
}

/// The access decision for one row group: skip it entirely, scan it
/// entirely, or read it selectively through a run-length selector that
/// omits the deleted rows.
#[derive(Debug, PartialEq, Eq)]
pub enum RowGroupAccess {
    Skip,
    Scan,
    Selection(Vec<RowSelector>),
}

/// Mathematical form of an access decision, with the selector runs as a
/// sequence.
pub ghost enum RowGroupAccessView {
    Skip,
    Scan,
    Selection(Seq<RowSelector>),
}

impl View for RowGroupAccess {
    type V = RowGroupAccessView;

    open spec fn view(&self) -> RowGroupAccessView {
        match self {
            RowGroupAccess::Skip => RowGroupAccessView::Skip,
            RowGroupAccess::Scan => RowGroupAccessView::Scan,
            RowGroupAccess::Selection(runs) => RowGroupAccessView::Selection(runs@),
        }
    }
}

/// Length of the run of equal values at the front of `s`.
pub open spec fn spec_run_length(s: Seq<bool>) -> int
    decreases s.len(),
{
    if s.len() == 0 {
        0
    } else if s.len() == 1 || s[1] != s[0] {
        1
    } else {
        1 + spec_run_length(s.skip(1))
    }
}

pub proof fn lemma_run_length_bounds(s: Seq<bool>)
    requires
        s.len() > 0,
    ensures
        1 <= spec_run_length(s) <= s.len(),
        forall|i: int| 0 <= i < spec_run_length(s) ==> #[trigger] s[i] == s[0],
        spec_run_length(s) < s.len() ==> s[spec_run_length(s)] != s[0],
    decreases s.len(),
{
    if s.len() == 1 || s[1] != s[0] {
    } else {
        lemma_run_length_bounds(s.skip(1));
        assert forall|i: int| 0 <= i < spec_run_length(s) implies #[trigger] s[i] == s[0] by {
            if i > 0 {
                assert(s.skip(1)[i - 1] == s[i]);
            }
        }
        if spec_run_length(s) < s.len() {
            assert(s.skip(1)[spec_run_length(s) - 1] == s[spec_run_length(s)]);
        }
    }
}

/// The alternating select/skip run-length encoding of a row mask: one
/// selector per maximal run of equal values, in order, selecting where the
/// mask is `true` and skipping where it is `false`.
pub open spec fn spec_selector_runs(s: Seq<bool>) -> Seq<RowSelector>
    recommends
        s.len() <= usize::MAX,
    decreases s.len(),
    via spec_selector_runs_decreases
{
    if s.len() == 0 {
        Seq::empty()
    } else {
        let n = spec_run_length(s);
        seq![RowSelector { row_count: n as usize, skip: !s[0] }] + spec_selector_runs(s.skip(n))
    }
}

#[via_fn]
proof fn spec_selector_runs_decreases(s: Seq<bool>) {
    if s.len() > 0 {
        lemma_run_length_bounds(s);
    }
}

/// Expands a sequence of selector runs back into the row mask it encodes:
/// each run contributes `row_count` rows, `true` for a select run and
/// `false` for a skip run.
pub open spec fn spec_apply_selectors(runs: Seq<RowSelector>) -> Seq<bool>
    decreases runs.len(),
{
    if runs.len() == 0 {
        Seq::empty()
    } else {
        Seq::new(runs[0].row_count as nat, |i: int| !runs[0].skip) + spec_apply_selectors(
            runs.skip(1),
        )
    }
}

/// Round trip of the run-length selector: expanding the runs produced for a
/// row mask yields back exactly that mask, so the selector selects exactly
/// the rows on which the mask is `true` and skips exactly those on which it
/// is `false`.
pub proof fn lemma_selector_runs_apply(s: Seq<bool>)
    requires
        s.len() <= usize::MAX,
    ensures
        spec_apply_selectors(spec_selector_runs(s)) == s,
    decreases s.len(),
{
    if s.len() == 0 {
        assert(spec_apply_selectors(spec_selector_runs(s)) =~= s);
    } else {
        let n = spec_run_length(s);
        lemma_run_length_bounds(s);
        let head = RowSelector { row_count: n as usize, skip: !s[0] };
        let runs = spec_selector_runs(s);
        let tail = spec_selector_runs(s.skip(n));
        assert(runs == seq![head] + tail);
        assert(runs[0] == head);
        assert(runs.skip(1) =~= tail);
        lemma_selector_runs_apply(s.skip(n));
        assert(spec_apply_selectors(runs) =~= s) by {
            assert(spec_apply_selectors(runs) == Seq::new(head.row_count as nat, |j: int| !head.skip)
                + spec_apply_selectors(runs.skip(1)));
            assert(spec_apply_selectors(runs.skip(1)) == s.skip(n));
            assert(head.row_count as int == n);
            assert forall|i: int| 0 <= i < s.len() implies #[trigger] spec_apply_selectors(runs)[i]
                == s[i] by {
                if i < n {
                    assert(s[i] == s[0]);
                } else {
                    assert(spec_apply_selectors(runs)[i] == s.skip(n)[i - n]);
                    assert(s.skip(n)[i - n] == s[i]);
                }
            }
        }
    }
}

/// The decision for one row group whose slice of the selection vector is
/// `slice`: skip when no row is live, scan when every row is live, and
/// otherwise read through the run-length selector of the slice.
pub open spec fn spec_row_group_access(slice: Seq<bool>) -> RowGroupAccessView {
    if forall|i: int| 0 <= i < slice.len() ==> !slice[i] {
        RowGroupAccessView::Skip
    } else if forall|i: int| 0 <= i < slice.len() ==> slice[i] {
        RowGroupAccessView::Scan
    } else {
        RowGroupAccessView::Selection(spec_selector_runs(slice))
    }
}

/// Classifies one row group of `row_group_num_rows` rows starting at
/// physical row `row_group_row_start`, from the file's full selection
/// vector.
pub fn get_row_group_access(
    selection_vector: &[bool],
    row_group_row_start: usize,
    row_group_num_rows: usize,
) -> (r: RowGroupAccess)
    requires
        row_group_row_start + row_group_num_rows <= selection_vector@.len(),
    ensures
        r@ == spec_row_group_access(
            selection_vector@.subrange(
                row_group_row_start as int,
                row_group_row_start + row_group_num_rows,
            ),
        ),
{
    let ghost slice = selection_vector@.subrange(
        row_group_row_start as int,
        row_group_row_start + row_group_num_rows,
    );
    let len = selection_vector.len();
    let end = row_group_row_start + row_group_num_rows;

    // First pass: does the slice hold any live row, any deleted row?
    let mut any_true = false;
    let mut any_false = false;
    let mut i = row_group_row_start;
    while i < end
        invariant
            row_group_row_start <= i <= end,
            end <= selection_vector@.len(),
            slice == selection_vector@.subrange(row_group_row_start as int, end as int),
            any_true == exists|j: int| row_group_row_start <= j < i && selection_vector@[j],
            any_false == exists|j: int| row_group_row_start <= j < i && !selection_vector@[j],
        decreases end - i,
    {
        if selection_vector[i] {
            any_true = true;
        } else {
            any_false = true;
        }
        i += 1;
    }

    if !any_true {
        // All rows in the row group are deleted (i.e. not selected): skip it.
        proof {
            assert forall|j: int| 0 <= j < slice.len() implies !slice[j] by {
                assert(slice[j] == selection_vector@[row_group_row_start + j]);
            }
        }
        return RowGroupAccess::Skip;
    }
    if !any_false {
        // All rows in the row group are present (i.e. selected): scan it all.
        proof {
            assert forall|j: int| 0 <= j < slice.len() implies slice[j] by {
                assert(slice[j] == selection_vector@[row_group_row_start + j]);
            }
            let w = choose|j: int|
                row_group_row_start <= j < end && selection_vector@[j];
            assert(slice.len() > 0);
            assert(slice[0]);
        }
        return RowGroupAccess::Scan;
    }

    // Mixed: build the alternating select/skip run-length selector.
    let mut runs: Vec<RowSelector> = Vec::new();
    let mut pos = row_group_row_start;
    while pos < end
        invariant
            row_group_row_start <= pos <= end,
            end <= selection_vector@.len(),
            slice == selection_vector@.subrange(row_group_row_start as int, end as int),
            spec_selector_runs(slice) == runs@ + spec_selector_runs(
                selection_vector@.subrange(pos as int, end as int),
            ),
        decreases end - pos,
    {
        let current = selection_vector[pos];
        let start = pos;
        let ghost rest = selection_vector@.subrange(pos as int, end as int);
        pos += 1;
        while pos < end && selection_vector[pos] == current
            invariant
                start < pos <= end,
                end <= selection_vector@.len(),
                current == selection_vector@[start as int],
                rest == selection_vector@.subrange(start as int, end as int),
                forall|j: int| start <= j < pos ==> selection_vector@[j] == current,
            decreases end - pos,
        {
            pos += 1;
        }
        proof {
            lemma_run_length_bounds(rest);
            assert forall|j: int| 0 <= j < pos - start implies rest[j] == current by {
                assert(rest[j] == selection_vector@[start + j]);
            }
            if pos < end {
                assert(rest[pos - start] == selection_vector@[pos as int]);
            }
            assert(spec_run_length(rest) == pos - start) by {
                if spec_run_length(rest) < pos - start {
                    assert(rest[spec_run_length(rest)] == current);
                    assert(rest[spec_run_length(rest)] != rest[0]);
                } else if spec_run_length(rest) > pos - start {
                    assert(pos < end);
                    assert(rest[pos - start] != rest[0]);
                }
            }
            assert(spec_selector_runs(rest) == seq![
                RowSelector { row_count: (pos - start) as usize, skip: !current },
            ] + spec_selector_runs(rest.skip(pos - start)));
            assert(rest.skip(pos - start) =~= selection_vector@.subrange(pos as int, end as int));
        }
        runs.push(RowSelector { row_count: pos - start, skip: !current });
        proof {
            assert(runs@ == runs@.drop_last().push(runs@.last()));
            assert(runs@.drop_last() + (seq![
                RowSelector { row_count: (pos - start) as usize, skip: !current },
            ] + spec_selector_runs(selection_vector@.subrange(pos as int, end as int)))
                =~= runs@ + spec_selector_runs(
                selection_vector@.subrange(pos as int, end as int),
            ));
        }
    }
    proof {
        assert(selection_vector@.subrange(pos as int, end as int).len() == 0);
        assert(spec_selector_runs(selection_vector@.subrange(pos as int, end as int))
            =~= Seq::<RowSelector>::empty());
        assert(runs@ + Seq::<RowSelector>::empty() =~= runs@);
        assert(exists|j: int| 0 <= j < slice.len() && slice[j]) by {
            let w = choose|j: int| row_group_row_start <= j < end && selection_vector@[j];
            assert(slice[w - row_group_row_start] == selection_vector@[w]);
        }
        assert(exists|j: int| 0 <= j < slice.len() && !slice[j]) by {
            let w = choose|j: int| row_group_row_start <= j < end && !selection_vector@[j];
            assert(slice[w - row_group_row_start] == selection_vector@[w]);
        }
    }
    RowGroupAccess::Selection(runs)
}

/// Extends a selection vector that covers only a prefix of a file's rows to
/// the file's full row count, marking every further row live.
pub fn get_full_selection_vector(selection_vector: &[bool], total_rows: usize) -> (r: Vec<bool>)
    requires
        selection_vector@.len() <= total_rows,
    ensures
        r@ == spec_pad_selection(selection_vector@, total_rows as int),
{
    let mut new_selection_vector: Vec<bool> = Vec::new();
    let n = selection_vector.len();
    let mut i: usize = 0;
    while i < n
        invariant
            i <= n,
            n == selection_vector@.len() <= total_rows,
            new_selection_vector@.len() == i,
            forall|j: int| 0 <= j < i ==> new_selection_vector@[j] == selection_vector@[j],
        decreases n - i,
    {
        new_selection_vector.push(selection_vector[i]);
        i += 1;
    }
    while i < total_rows
        invariant
            n == selection_vector@.len() <= total_rows,
            n <= i <= total_rows,
            new_selection_vector@.len() == i,
            forall|j: int| 0 <= j < n ==> new_selection_vector@[j] == selection_vector@[j],
            forall|j: int| n <= j < i ==> new_selection_vector@[j],
        decreases total_rows - i,
    {
        new_selection_vector.push(true);
        i += 1;
    }
    proof {
        assert(new_selection_vector@ =~= spec_pad_selection(selection_vector@, total_rows as int));
    }
    new_selection_vector
}

/// The selection vector extended to `total_rows` positions, each position
/// past the known prefix defaulting to live.
pub open spec fn spec_pad_selection(sv: Seq<bool>, total_rows: int) -> Seq<bool>
    recommends
        sv.len() <= total_rows,
{
    Seq::new(total_rows as nat, |i: int| if i < sv.len() { sv[i] } else { true })
}

/// The number of rows before row group `g`: the sum of the sizes of the
/// earlier groups.
pub open spec fn spec_row_group_start(sizes: Seq<usize>, g: int) -> int
    decreases g,
{
    if g <= 0 {
        0
    } else {
        spec_row_group_start(sizes, g - 1) + sizes[g - 1]
    }
}

/// Total rows of the file: the sum of all row-group sizes.
pub open spec fn spec_total_rows(sizes: Seq<usize>) -> int {
    spec_row_group_start(sizes, sizes.len() as int)
}

/// The slice of the padded selection vector that belongs to row group `g`.
pub open spec fn spec_group_slice(sv: Seq<bool>, sizes: Seq<usize>, g: int) -> Seq<bool> {
    spec_pad_selection(sv, spec_total_rows(sizes)).subrange(
        spec_row_group_start(sizes, g),
        spec_row_group_start(sizes, g) + sizes[g],
    )
}

/// The access plan for a file: one decision per row group, each computed
/// independently from that group's slice of the padded selection vector.
pub open spec fn spec_access_plan(sv: Seq<bool>, sizes: Seq<usize>) -> Seq<RowGroupAccessView> {
    Seq::new(sizes.len(), |g: int| spec_row_group_access(spec_group_slice(sv, sizes, g)))
}

pub proof fn lemma_row_group_start_monotone(sizes: Seq<usize>, g: int)
    requires
        0 <= g <= sizes.len(),
    ensures
        0 <= spec_row_group_start(sizes, g) <= spec_total_rows(sizes),
    decreases sizes.len() - g,
{
    if g < sizes.len() {
        lemma_row_group_start_monotone(sizes, g + 1);
    }
    if g > 0 {
        lemma_row_group_start_nonneg(sizes, g);
    }
}

pub proof fn lemma_row_group_start_nonneg(sizes: Seq<usize>, g: int)
    requires
        0 <= g,
    ensures
        spec_row_group_start(sizes, g) >= 0,
    decreases g,
{
    if g > 0 {
        lemma_row_group_start_nonneg(sizes, g - 1);
    }
}

/// Plans the row-group access for one file carrying a selection vector:
/// pads the vector to the file's full row count, then classifies every row
/// group from its own slice.
pub fn plan_row_group_access(selection_vector: &[bool], row_group_sizes: &Vec<usize>) -> (r: Vec<
    RowGroupAccess,
>)
    requires
        spec_total_rows(row_group_sizes@) <= usize::MAX,
        selection_vector@.len() <= spec_total_rows(row_group_sizes@),
    ensures
        r@.len() == row_group_sizes@.len(),
        forall|g: int|
            0 <= g < r@.len() ==> (#[trigger] r@[g])@ == spec_access_plan(
                selection_vector@,
                row_group_sizes@,
            )[g],
{
    let ghost sizes = row_group_sizes@;
    // Total row count of the file, from the row-group metadata.
    let mut total_rows: usize = 0;
    let n = row_group_sizes.len();
    let mut g: usize = 0;
    while g < n
        invariant
            g <= n,
            n == sizes.len(),
            sizes == row_group_sizes@,
            total_rows == spec_row_group_start(sizes, g as int),
            spec_total_rows(sizes) <= usize::MAX,
        decreases n - g,
    {
        proof {
            lemma_row_group_start_monotone(sizes, g + 1);
        }
        total_rows = total_rows + row_group_sizes[g];
        g += 1;
    }

    let full = get_full_selection_vector(selection_vector, total_rows);
    let ghost padded = spec_pad_selection(selection_vector@, spec_total_rows(sizes));
    proof {
        assert(total_rows as int == spec_total_rows(sizes));
        assert(full@ =~= padded);
    }

    let mut row_groups: Vec<RowGroupAccess> = Vec::new();
    let mut row_group_row_start: usize = 0;
    let mut g: usize = 0;
    while g < n
        invariant
            g <= n,
            n == sizes.len(),
            sizes == row_group_sizes@,
            full@ == padded,
            padded == spec_pad_selection(selection_vector@, spec_total_rows(sizes)),
            padded.len() == spec_total_rows(sizes),
            spec_total_rows(sizes) <= usize::MAX,
            selection_vector@.len() <= spec_total_rows(sizes),
            row_group_row_start == spec_row_group_start(sizes, g as int),
            row_groups@.len() == g,
            forall|k: int|
                0 <= k < g ==> (#[trigger] row_groups@[k])@ == spec_access_plan(
                    selection_vector@,
                    sizes,
                )[k],
        decreases n - g,
    {
        let num_rows = row_group_sizes[g];
        proof {
            lemma_row_group_start_monotone(sizes, g as int);
            lemma_row_group_start_monotone(sizes, g + 1);
            assert(num_rows == sizes[g as int]);
            assert(spec_row_group_start(sizes, g + 1) == spec_row_group_start(sizes, g as int)
                + sizes[g as int]);
        }
        let access = get_row_group_access(full.as_slice(), row_group_row_start, num_rows);
        proof {
            let start_g = spec_row_group_start(sizes, g as int);
            assert(full@ == padded);
            assert(row_group_row_start as int == start_g);
            assert(num_rows == sizes[g as int]);
            assert(spec_group_slice(selection_vector@, sizes, g as int) == padded.subrange(
                start_g,
                start_g + sizes[g as int],
            ));
            assert(full@.subrange(
                row_group_row_start as int,
                row_group_row_start + num_rows,
            ) =~= spec_group_slice(selection_vector@, sizes, g as int));
        }
        row_groups.push(access);
        row_group_row_start = row_group_row_start + num_rows;
        g += 1;
    }
    row_groups
}

/// Every row live: every row group of positive size is scanned in full.
/// (A row group of zero rows has an empty slice, which is vacuously all
/// deleted and therefore skipped.)
pub proof fn lemma_plan_all_live(sv: Seq<bool>, sizes: Seq<usize>)
    requires
        forall|i: int| 0 <= i < sv.len() ==> sv[i],
        forall|g: int| 0 <= g < sizes.len() ==> sizes[g] > 0,
    ensures
        forall|g: int|
            0 <= g < sizes.len() ==> spec_access_plan(sv, sizes)[g] == RowGroupAccessView::Scan,
{
    assert forall|g: int| 0 <= g < sizes.len() implies spec_access_plan(sv, sizes)[g]
        == RowGroupAccessView::Scan by {
        lemma_row_group_start_monotone(sizes, g);
        lemma_row_group_start_monotone(sizes, g + 1);
        let slice = spec_group_slice(sv, sizes, g);
        assert(forall|i: int| 0 <= i < slice.len() ==> slice[i]);
        assert(slice.len() == sizes[g] > 0);
        assert(slice[0]);
    }
}

/// No row live, with the selection vector covering the whole file: every
/// row group is skipped.
pub proof fn lemma_plan_none_live(sv: Seq<bool>, sizes: Seq<usize>)
    requires
        forall|i: int| 0 <= i < sv.len() ==> !sv[i],
        sv.len() == spec_total_rows(sizes),
    ensures
        forall|g: int|
            0 <= g < sizes.len() ==> spec_access_plan(sv, sizes)[g] == RowGroupAccessView::Skip,
{
    assert forall|g: int| 0 <= g < sizes.len() implies spec_access_plan(sv, sizes)[g]
        == RowGroupAccessView::Skip by {
        lemma_row_group_start_monotone(sizes, g);
        lemma_row_group_start_monotone(sizes, g + 1);
        let slice = spec_group_slice(sv, sizes, g);
        assert(forall|i: int| 0 <= i < slice.len() ==> !slice[i]);
    }
}

} // verus!
