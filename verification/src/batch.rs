//! Column batches: the cells of one column within one row group, as value
//! and definition-level buffers.

use crate::schema::PhysicalType;
use crate::value::{coerce, lemma_coerced_value_fits, spec_coerce, CoercionError, SourceValue, SourceValueView, TargetValue,
    TargetValueView};
use vstd::prelude::*;

verus! {

/// The definition level of each cell: 0 for NULL, 1 for a present value.
pub open spec fn spec_def_levels(cells: Seq<SourceValueView>) -> Seq<i16> {
    Seq::new(cells.len(), |i: int| if cells[i] is Null { 0i16 } else { 1i16 })
}

/// Whether every present cell has a value of type `target`.
pub open spec fn all_coercible(cells: Seq<SourceValueView>, target: PhysicalType) -> bool {
    forall|i: int|
        0 <= i < cells.len() && !(cells[i] is Null) ==> (#[trigger] spec_coerce(
            cells[i],
            target,
        )) is Ok
}

/// The values of the present cells, in row order. NULL cells leave no value.
pub open spec fn spec_values(cells: Seq<SourceValueView>, target: PhysicalType) -> Seq<
    TargetValueView,
>
    decreases cells.len(),
{
    if cells.len() == 0 {
        Seq::empty()
    } else if cells.last() is Null {
        spec_values(cells.drop_last(), target)
    } else {
        spec_values(cells.drop_last(), target).push(spec_coerce(cells.last(), target)->Ok_0)
    }
}

/// The values of a buffer as contracts speak of them.
pub open spec fn view_values(values: Seq<TargetValue>) -> Seq<TargetValueView> {
    Seq::new(values.len(), |i: int| values[i]@)
}

/// The buffers that the sink's column writer takes for one column of one row
/// group.
#[derive(Debug, Clone, PartialEq, Eq)]
pub struct ColumnBatch {
    /// The present values, in row order.
    pub values: Vec<TargetValue>,
    /// One definition level per row.
    pub def_levels: Vec<i16>,
}

impl ColumnBatch {
    /// Whether the batch holds exactly the given cells as values of type
    /// `target`.
    pub open spec fn holds(&self, cells: Seq<SourceValueView>, target: PhysicalType) -> bool {
        &&& self.def_levels@ == spec_def_levels(cells)
        &&& view_values(self.values@) == spec_values(cells, target)
    }
}

/// Gathers the cells of one column for one row group, up to a fixed number
/// of rows.
pub struct BatchBuilder {
    target: PhysicalType,
    limit: usize,
    values: Vec<TargetValue>,
    def_levels: Vec<i16>,
    cells: Ghost<Seq<SourceValueView>>,
}

impl BatchBuilder {
    /// The cells taken so far.
    pub closed spec fn cells(&self) -> Seq<SourceValueView> {
        self.cells@
    }

    /// The physical type of the column.
    pub closed spec fn target(&self) -> PhysicalType {
        self.target
    }

    /// The largest number of rows that the batch takes.
    pub closed spec fn limit(&self) -> usize {
        self.limit
    }

    /// The builder's buffers hold the cells taken so far, all of which had a
    /// value, and no more rows than the limit.
    pub closed spec fn wf(&self) -> bool {
        &&& self.cells@.len() <= self.limit
        &&& all_coercible(self.cells@, self.target)
        &&& self.def_levels@ == spec_def_levels(self.cells@)
        &&& view_values(self.values@) == spec_values(self.cells@, self.target)
    }

    /// An empty batch for a column of type `target` that takes up to `limit`
    /// rows.
    pub fn new(target: PhysicalType, limit: usize) -> (r: BatchBuilder)
        ensures
            r.wf(),
            r.cells() == Seq::<SourceValueView>::empty(),
            r.target() == target,
            r.limit() == limit,
    {
        let r = BatchBuilder {
            target,
            limit,
            values: Vec::new(),
            def_levels: Vec::new(),
            cells: Ghost(Seq::empty()),
        };
        assert(r.def_levels@ =~= spec_def_levels(r.cells@));
        assert(view_values(r.values@) =~= spec_values(r.cells@, target));
        r
    }

    /// The number of rows taken so far.
    pub fn rows(&self) -> (r: usize)
        requires
            self.wf(),
        ensures
            r == self.cells().len(),
    {
        self.def_levels.len()
    }

    /// Whether the batch takes another row.
    pub fn wants_row(&self) -> (r: bool)
        requires
            self.wf(),
        ensures
            r == (self.cells().len() < self.limit()),
    {
        self.def_levels.len() < self.limit
    }

    /// Takes the next cell of the column. A NULL cell is recorded with
    /// definition level 0 and leaves no value; any other cell is recorded
    /// with definition level 1 and its coerced value. Where the cell has no
    /// value of the column's type, the batch stays as it was.
    pub fn push(&mut self, cell: SourceValue) -> (r: Result<(), CoercionError>)
        requires
            old(self).wf(),
            old(self).cells().len() < old(self).limit(),
        ensures
            final(self).wf(),
            final(self).target() == old(self).target(),
            final(self).limit() == old(self).limit(),
            cell@ is Null ==> r is Ok,
            !(cell@ is Null) ==> match spec_coerce(cell@, old(self).target()) {
                Ok(_) => r is Ok,
                Err(e) => r == Err::<(), CoercionError>(e),
            },
            r is Ok ==> final(self).cells() == old(self).cells().push(cell@),
            r is Err ==> final(self).cells() == old(self).cells(),
    {
        let ghost before = self.cells@;
        let ghost after = before.push(cell@);
        assert(after.drop_last() =~= before);
        if cell.is_null() {
            self.def_levels.push(0);
            self.cells = Ghost(after);
            assert(self.def_levels@ =~= spec_def_levels(after));
            Ok(())
        } else {
            match coerce(cell, self.target) {
                Ok(value) => {
                    self.values.push(value);
                    self.def_levels.push(1);
                    self.cells = Ghost(after);
                    assert(self.def_levels@ =~= spec_def_levels(after));
                    assert(view_values(self.values@) =~= spec_values(after, self.target));
                    Ok(())
                },
                Err(e) => Err(e),
            }
        }
    }

    /// Every cell that a well-formed builder has taken had a value.
    pub proof fn lemma_wf_coercible(&self)
        requires
            self.wf(),
        ensures
            all_coercible(self.cells(), self.target()),
    {
    }

    /// The buffers of the rows taken.
    pub fn finish(self) -> (r: ColumnBatch)
        requires
            self.wf(),
        ensures
            r.holds(self.cells(), self.target()),
            all_coercible(self.cells(), self.target()),
    {
        ColumnBatch { values: self.values, def_levels: self.def_levels }
    }
}

/// The cells of a buffer as contracts speak of them.
pub open spec fn view_cells(cells: Seq<SourceValue>) -> Seq<SourceValueView> {
    Seq::new(cells.len(), |i: int| cells[i]@)
}

/// The first cell of a column that has no value of the column's type.
#[derive(Debug, PartialEq, Eq, Clone, Copy, Structural)]
pub struct BatchError {
    /// The row of the cell within the batch.
    pub row: usize,
    /// Why the cell has no value.
    pub error: CoercionError,
}

/// Whether `row` is the first row of `cells` that has no value of type
/// `target`.
pub open spec fn is_first_failure(
    cells: Seq<SourceValueView>,
    target: PhysicalType,
    row: int,
) -> bool {
    &&& 0 <= row < cells.len()
    &&& !(cells[row] is Null)
    &&& spec_coerce(cells[row], target) is Err
    &&& all_coercible(cells.take(row), target)
}

/// Turns the cells of one column of one row group into the buffers that the
/// sink takes: a definition level for every row, a value for every cell that
/// is not NULL. Fails at the first cell that has no value of type `target`.
pub fn encode_batch(cells: &Vec<SourceValue>, target: PhysicalType) -> (r: Result<
    ColumnBatch,
    BatchError,
>)
    ensures
        match r {
            Ok(batch) => all_coercible(view_cells(cells@), target) && batch.holds(
                view_cells(cells@),
                target,
            ),
            Err(e) => is_first_failure(view_cells(cells@), target, e.row as int) && spec_coerce(
                cells[e.row as int]@,
                target,
            ) == Err::<TargetValueView, CoercionError>(e.error),
        },
{
    let mut builder = BatchBuilder::new(target, cells.len());
    let mut i: usize = 0;
    while i < cells.len()
        invariant
            i <= cells.len(),
            builder.wf(),
            builder.target() == target,
            builder.limit() == cells.len(),
            builder.cells() == view_cells(cells@).take(i as int),
        decreases cells.len() - i,
    {
        match builder.push(cells[i].duplicate()) {
            Ok(()) => {
                assert(builder.cells() =~= view_cells(cells@).take(i + 1));
            },
            Err(error) => {
                proof {
                    builder.lemma_wf_coercible();
                }
                return Err(BatchError { row: i, error });
            },
        }
        i += 1;
    }
    assert(view_cells(cells@).take(cells.len() as int) =~= view_cells(cells@));
    Ok(builder.finish())
}

/// What reading a column chunk back yields, row by row: nothing for
/// definition level 0, else the next value.
pub open spec fn spec_decode(values: Seq<TargetValueView>, def_levels: Seq<i16>) -> Seq<
    Option<TargetValueView>,
>
    decreases def_levels.len(),
{
    if def_levels.len() == 0 {
        Seq::empty()
    } else if def_levels.last() == 0 || values.len() == 0 {
        spec_decode(values, def_levels.drop_last()).push(None)
    } else {
        spec_decode(values.drop_last(), def_levels.drop_last()).push(Some(values.last()))
    }
}

/// The rows of a column as they are meant to be stored: nothing for a NULL
/// cell, else the cell's value.
pub open spec fn spec_rows(cells: Seq<SourceValueView>, target: PhysicalType) -> Seq<
    Option<TargetValueView>,
> {
    Seq::new(
        cells.len(),
        |i: int|
            if cells[i] is Null {
                None
            } else {
                Some(spec_coerce(cells[i], target)->Ok_0)
            },
    )
}

/// Reading a batch back yields the cells that it was made from: every NULL
/// at its row, every value at its row.
pub proof fn lemma_batch_round_trip(cells: Seq<SourceValueView>, target: PhysicalType)
    ensures
        spec_def_levels(cells).len() == cells.len(),
        spec_decode(spec_values(cells, target), spec_def_levels(cells)) == spec_rows(cells, target),
    decreases cells.len(),
{
    if cells.len() > 0 {
        let front = cells.drop_last();
        lemma_batch_round_trip(front, target);
        assert(spec_def_levels(cells).drop_last() =~= spec_def_levels(front));
        if !(cells.last() is Null) {
            let values = spec_values(cells, target);
            assert(values.drop_last() =~= spec_values(front, target));
        }
        assert(spec_decode(spec_values(cells, target), spec_def_levels(cells)) =~= spec_rows(
            cells,
            target,
        ));
    } else {
        assert(spec_decode(spec_values(cells, target), spec_def_levels(cells)) =~= spec_rows(
            cells,
            target,
        ));
    }
}

/// A batch holds one definition level per row, and one value per cell that
/// is not NULL.
pub proof fn lemma_batch_lengths(cells: Seq<SourceValueView>, target: PhysicalType)
    ensures
        spec_def_levels(cells).len() == cells.len(),
        spec_values(cells, target).len() == cells.filter(|c: SourceValueView| !(c is Null)).len(),
        spec_values(cells, target).len() <= cells.len(),
    decreases cells.len(),
{
    reveal(Seq::filter);
    if cells.len() > 0 {
        lemma_batch_lengths(cells.drop_last(), target);
    }
}

/// Every value of a batch is one that a column of the target type holds.
pub proof fn lemma_batch_values_fit(cells: Seq<SourceValueView>, target: PhysicalType)
    requires
        all_coercible(cells, target),
    ensures
        forall|i: int|
            0 <= i < spec_values(cells, target).len() ==> (#[trigger] spec_values(
                cells,
                target,
            )[i]).fits(target),
    decreases cells.len(),
{
    if cells.len() > 0 {
        let front = cells.drop_last();
        assert forall|i: int| 0 <= i < front.len() && !(front[i] is Null) implies (
        #[trigger] spec_coerce(front[i], target)) is Ok by {
            assert(front[i] == cells[i]);
        }
        lemma_batch_values_fit(front, target);
        let values = spec_values(cells, target);
        if !(cells.last() is Null) {
            assert(cells.last() == cells[cells.len() - 1]);
            assert(spec_coerce(cells.last(), target) is Ok);
            lemma_coerced_value_fits(cells.last(), target);
        }
        assert forall|i: int| 0 <= i < values.len() implies (#[trigger] values[i]).fits(
            target,
        ) by {
            if i < spec_values(front, target).len() {
                assert(values[i] == spec_values(front, target)[i]);
            }
        }
    }
}

} // verus!
