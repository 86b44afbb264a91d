//! Row-group coordination: the order in which the sink and the column
//! cursors are driven while a table is written.
//!
//! The coordinator performs no input or output itself. It is told what
//! happened, as an [`Event`], and answers with what to do next, as an
//! [`Action`]. Whoever owns the cursors and the sink carries the action out
//! and reports back.
//!
//! All columns of a row group must yield the same rows. The coordinator
//! compares each column with the first as soon as its rows are counted, and
//! before the sink is asked to close the column: a sink that counts rows
//! itself refuses to close a column that disagrees, and the write would end
//! with the sink's error in place of the mismatch.

use crate::progress::Progress;
use crate::value::CoercionError;
use vstd::prelude::*;

verus! {

/// Where within a row group the coordinator stands.
#[derive(Debug, PartialEq, Eq, Clone, Copy, Structural)]
pub enum GroupStep {
    /// The sink was asked to open the group.
    Opening,
    /// The rows of a column are being read and handed to the sink.
    Writing,
    /// The sink was asked to close the column just written.
    ClosingColumn,
    /// The progress of the column just closed is being reported.
    Reporting,
    /// The sink was asked to close the group.
    Closing,
}

/// The coordinator's state.
#[derive(Debug, PartialEq, Eq, Clone, Copy, Structural)]
pub enum Phase {
    /// Nothing has been asked for yet.
    Idle,
    /// The sink and the cursors are being opened.
    Opened,
    /// A row group is being written.
    WritingGroup(GroupStep),
    /// The sink is being finalized.
    Finalizing,
    /// The table was written in full.
    Closed,
    /// The write failed; the output is incomplete.
    Aborted,
}

/// Work outside the coordinator that failed.
#[derive(Debug, PartialEq, Eq, Clone, Copy, Structural)]
pub enum Failure {
    /// The relational source failed.
    Source,
    /// The columnar sink failed.
    Sink,
    /// The progress callback returned an error.
    Callback,
    /// A cell has no value of its column's type.
    Coercion(CoercionError),
}

/// Why a write was aborted.
#[derive(Debug, PartialEq, Eq, Clone, Copy, Structural)]
pub enum WriteError {
    /// Within row group `group`, the cursor of column `column` did not yield
    /// as many rows as the first column's cursor, or did not end where it
    /// ended.
    RowCountMismatch { group: u64, column: usize },
    /// Work outside the coordinator failed while row group `group` and
    /// column `column` were current.
    Failed { group: u64, column: usize, failure: Failure },
    /// An event arrived that does not answer the action last asked for.
    UnexpectedEvent,
    /// The number of rows or row groups exceeds what the counters hold.
    CounterOverflow,
}

/// What happened outside the coordinator.
#[derive(Debug, PartialEq, Eq, Clone, Copy, Structural)]
pub enum Event {
    /// The write is to begin.
    Start,
    /// The sink is open, and every column's cursor stands on its first row
    /// or at the end of its data. `has_rows` tells whether the first
    /// column's cursor stands on a row.
    Opened { has_rows: bool },
    /// The sink opened a new row group.
    GroupOpened,
    /// The rows of the column asked for were handed to the sink: its cursor
    /// yielded `rows` rows, and `has_more` tells whether it stands on a
    /// further row. The column is not closed yet.
    ColumnWritten { rows: usize, has_more: bool },
    /// The sink closed the column.
    ColumnClosed,
    /// The progress callback returned without error.
    Reported,
    /// The sink closed the row group.
    GroupClosed,
    /// The sink was finalized.
    Finalized,
    /// Work outside the coordinator failed.
    Failed(Failure),
}

/// What is to be done next.
#[derive(Debug, PartialEq, Eq, Clone, Copy, Structural)]
pub enum Action {
    /// Open the sink, open one cursor per column and advance each once.
    Open,
    /// Open a new row group in the sink.
    OpenGroup,
    /// Read up to `max_rows` rows from the cursor of column `column`,
    /// stopping early only at the end of its data, and hand them to the
    /// sink's column writer as one batch.
    WriteColumn { column: usize, max_rows: usize },
    /// Close the column just written.
    CloseColumn,
    /// Invoke the progress callback.
    Report(Progress),
    /// Close the row group.
    CloseGroup,
    /// Finalize the sink.
    Finalize,
    /// The table is written.
    Finish(Progress),
    /// The write failed: stop.
    Abort(WriteError),
}

/// The sum of the rows of the given row groups.
pub open spec fn total_rows(groups: Seq<nat>) -> nat
    decreases groups.len(),
{
    if groups.len() == 0 {
        0
    } else {
        total_rows(groups.drop_last()) + groups.last()
    }
}

/// The coordinator as contracts speak of it.
pub struct CoordinatorView {
    pub phase: Phase,
    /// Number of columns of the table; at least one.
    pub n_columns: usize,
    /// Largest number of rows in a row group; at least one.
    pub group_size: usize,
    /// Number of columns closed within the current row group.
    pub column: usize,
    /// What the first column reported for the current row group.
    pub first_rows: usize,
    pub first_has_more: bool,
    /// Number of rows in the row groups closed so far.
    pub n_rows: u64,
    /// Number of row groups closed so far.
    pub n_groups: u64,
    /// What each column written within the current row group reported: its
    /// number of rows, and whether its cursor stands on a further row.
    pub reports: Seq<(usize, bool)>,
    /// The number of rows of each row group closed so far.
    pub groups: Seq<nat>,
}

impl CoordinatorView {
    /// The progress made so far.
    pub open spec fn progress(self) -> Progress {
        Progress { n_cols: self.column as u64, n_rows: self.n_rows, n_groups: self.n_groups }
    }

    /// Whether every column written within the current row group reported
    /// what the first column reported.
    pub open spec fn columns_agree(self) -> bool {
        forall|j: int|
            0 <= j < self.reports.len() ==> #[trigger] self.reports[j] == (
                self.first_rows,
                self.first_has_more,
            )
    }

    /// Whether the state is one that a run of the coordinator reaches.
    pub open spec fn wf(self) -> bool {
        &&& self.n_columns >= 1
        &&& self.group_size >= 1
        &&& self.n_groups == self.groups.len()
        &&& self.n_rows == total_rows(self.groups)
        &&& forall|i: int|
            0 <= i < self.groups.len() ==> 1 <= #[trigger] self.groups[i] <= self.group_size
        &&& forall|i: int|
            0 <= i < self.groups.len() - 1 ==> #[trigger] self.groups[i] == self.group_size
        &&& match self.phase {
            Phase::Idle | Phase::Opened => self.groups.len() == 0 && self.reports.len() == 0
                && self.column == 0,
            Phase::WritingGroup(step) => {
                &&& self.groups.len() > 0 ==> self.groups.last() == self.group_size
                &&& self.column <= self.n_columns
                &&& match step {
                    GroupStep::Opening => self.column == 0 && self.reports.len() == 0,
                    GroupStep::Writing => self.column < self.n_columns && self.reports.len()
                        == self.column,
                    GroupStep::ClosingColumn => self.column < self.n_columns
                        && self.reports.len() == self.column + 1,
                    GroupStep::Reporting => self.column >= 1 && self.reports.len() == self.column,
                    GroupStep::Closing => self.column == self.n_columns && self.reports.len()
                        == self.column,
                }
                &&& self.reports.len() > 0 ==> {
                    &&& 1 <= self.first_rows <= self.group_size
                    &&& self.first_has_more ==> self.first_rows == self.group_size
                }
                &&& self.columns_agree()
            },
            Phase::Finalizing | Phase::Closed => self.reports.len() == 0 && self.column == 0,
            Phase::Aborted => true,
        }
    }

    /// The state after a failure.
    pub open spec fn aborted(self) -> CoordinatorView {
        CoordinatorView { phase: Phase::Aborted, ..self }
    }

    /// The state in which the next row group is opened, or the sink is
    /// finalized where the first column has no further row.
    pub open spec fn next_group(self, has_rows: bool) -> (CoordinatorView, Action) {
        if has_rows {
            (
                CoordinatorView {
                    phase: Phase::WritingGroup(GroupStep::Opening),
                    column: 0,
                    reports: Seq::empty(),
                    ..self
                },
                Action::OpenGroup,
            )
        } else {
            (
                CoordinatorView {
                    phase: Phase::Finalizing,
                    column: 0,
                    reports: Seq::empty(),
                    ..self
                },
                Action::Finalize,
            )
        }
    }

    /// Whether a report of `rows` rows is one that a cursor can give when
    /// asked for up to `group_size` rows: no more than asked for, fewer only
    /// at the end of its data, and at least one row from the first column,
    /// whose cursor stood on a row.
    pub open spec fn report_is_possible(self, rows: usize, has_more: bool) -> bool {
        &&& rows <= self.group_size
        &&& has_more ==> rows == self.group_size
        &&& self.column == 0 ==> rows >= 1
    }

    /// Whether a column that yields `rows` rows and then stands on a further
    /// row, or not, disagrees with the first column of the row group.
    pub open spec fn disagrees(self, rows: usize, has_more: bool) -> bool {
        self.column > 0 && (rows != self.first_rows || has_more != self.first_has_more)
    }

    /// The state after the rows of a column were handed to the sink: a
    /// column that disagrees with the first is fatal; otherwise the column is
    /// closed.
    pub open spec fn column_written(self, rows: usize, has_more: bool) -> (
        CoordinatorView,
        Action,
    ) {
        if !self.report_is_possible(rows, has_more) {
            (self.aborted(), Action::Abort(WriteError::UnexpectedEvent))
        } else if self.disagrees(rows, has_more) {
            (
                self.aborted(),
                Action::Abort(
                    WriteError::RowCountMismatch { group: self.n_groups, column: self.column },
                ),
            )
        } else {
            (
                CoordinatorView {
                    phase: Phase::WritingGroup(GroupStep::ClosingColumn),
                    first_rows: rows,
                    first_has_more: has_more,
                    reports: self.reports.push((rows, has_more)),
                    ..self
                },
                Action::CloseColumn,
            )
        }
    }

    /// The state after a column was closed, with the progress to report.
    pub open spec fn column_closed(self) -> (CoordinatorView, Action) {
        let next = CoordinatorView {
            phase: Phase::WritingGroup(GroupStep::Reporting),
            column: (self.column + 1) as usize,
            ..self
        };
        (next, Action::Report(next.progress()))
    }

    /// The state after the progress was reported: the next column is
    /// written, or the row group is closed after the last.
    pub open spec fn reported(self) -> (CoordinatorView, Action) {
        if self.column < self.n_columns {
            (
                CoordinatorView { phase: Phase::WritingGroup(GroupStep::Writing), ..self },
                Action::WriteColumn { column: self.column, max_rows: self.group_size },
            )
        } else {
            (
                CoordinatorView { phase: Phase::WritingGroup(GroupStep::Closing), ..self },
                Action::CloseGroup,
            )
        }
    }

    /// The state after the row group was closed: the group's rows are
    /// counted, and the next group follows while the first column has rows.
    pub open spec fn group_closed(self) -> (CoordinatorView, Action) {
        if self.n_rows + self.first_rows > u64::MAX || self.n_groups + 1 > u64::MAX {
            (self.aborted(), Action::Abort(WriteError::CounterOverflow))
        } else {
            CoordinatorView {
                n_rows: (self.n_rows + self.first_rows) as u64,
                n_groups: (self.n_groups + 1) as u64,
                groups: self.groups.push(self.first_rows as nat),
                ..self
            }.next_group(self.first_has_more)
        }
    }

    /// The state after `event`, and the action that answers it.
    pub open spec fn step(self, event: Event) -> (CoordinatorView, Action) {
        match (self.phase, event) {
            (Phase::Closed, _) => (self, Action::Abort(WriteError::UnexpectedEvent)),
            (Phase::Aborted, _) => (self, Action::Abort(WriteError::UnexpectedEvent)),
            (_, Event::Failed(failure)) => (
                self.aborted(),
                Action::Abort(
                    WriteError::Failed { group: self.n_groups, column: self.column, failure },
                ),
            ),
            (Phase::Idle, Event::Start) => (
                CoordinatorView { phase: Phase::Opened, ..self },
                Action::Open,
            ),
            (Phase::Opened, Event::Opened { has_rows }) => self.next_group(has_rows),
            (Phase::WritingGroup(GroupStep::Opening), Event::GroupOpened) => (
                CoordinatorView { phase: Phase::WritingGroup(GroupStep::Writing), ..self },
                Action::WriteColumn { column: 0, max_rows: self.group_size },
            ),
            (
                Phase::WritingGroup(GroupStep::Writing),
                Event::ColumnWritten { rows, has_more },
            ) => self.column_written(rows, has_more),
            (Phase::WritingGroup(GroupStep::ClosingColumn), Event::ColumnClosed) => self.column_closed(),
            (Phase::WritingGroup(GroupStep::Reporting), Event::Reported) => self.reported(),
            (Phase::WritingGroup(GroupStep::Closing), Event::GroupClosed) => self.group_closed(),
            (Phase::Finalizing, Event::Finalized) => (
                CoordinatorView { phase: Phase::Closed, ..self },
                Action::Finish(self.progress()),
            ),
            _ => (self.aborted(), Action::Abort(WriteError::UnexpectedEvent)),
        }
    }
}

/// The state before anything is asked for.
pub open spec fn initial(n_columns: usize, group_size: usize) -> CoordinatorView {
    CoordinatorView {
        phase: Phase::Idle,
        n_columns,
        group_size: if group_size == 0 { 1 } else { group_size },
        column: 0,
        first_rows: 0,
        first_has_more: false,
        n_rows: 0,
        n_groups: 0,
        reports: Seq::empty(),
        groups: Seq::empty(),
    }
}

/// Every step leads from a state that a run reaches to another such state.
pub proof fn lemma_step_preserves_wf(c: CoordinatorView, event: Event)
    requires
        c.wf(),
    ensures
        c.step(event).0.wf(),
{
    let next = c.step(event).0;
    match (c.phase, event) {
        (Phase::WritingGroup(GroupStep::Writing), Event::ColumnWritten { rows, has_more }) => {
            if c.report_is_possible(rows, has_more) && !c.disagrees(rows, has_more) {
                assert forall|j: int| 0 <= j < next.reports.len() implies #[trigger] next.reports[j]
                    == (next.first_rows, next.first_has_more) by {
                    if j < c.reports.len() {
                        assert(c.reports[j] == (c.first_rows, c.first_has_more));
                    }
                }
            }
        },
        (Phase::WritingGroup(GroupStep::Closing), Event::GroupClosed) => {
            if c.n_rows + c.first_rows <= u64::MAX && c.n_groups + 1 <= u64::MAX {
                let groups = c.groups.push(c.first_rows as nat);
                assert(groups.drop_last() =~= c.groups);
                assert(c.reports.len() > 0);
                assert forall|i: int| 0 <= i < groups.len() - 1 implies #[trigger] groups[i]
                    == c.group_size by {
                    if i < c.groups.len() - 1 {
                        assert(c.groups[i] == c.group_size);
                    }
                }
                assert forall|i: int| 0 <= i < groups.len() implies 1 <= #[trigger] groups[i]
                    <= c.group_size by {
                    if i < c.groups.len() {
                        assert(1 <= c.groups[i] <= c.group_size);
                    }
                }
            }
        },
        _ => {},
    }
}

/// The number of row groups that `n_rows` rows fill when a group takes up to
/// `group_size` rows.
pub open spec fn spec_group_count(n_rows: nat, group_size: nat) -> nat
    recommends
        group_size >= 1,
{
    (n_rows + group_size - 1) as nat / group_size
}

/// The sizes of the row groups that `n_rows` rows are written in: every
/// group is full but the last, which holds what is left.
pub open spec fn spec_group_sizes(n_rows: nat, group_size: nat) -> Seq<nat>
    recommends
        group_size >= 1,
{
    let count = spec_group_count(n_rows, group_size);
    Seq::new(
        count,
        |i: int|
            if i < count - 1 {
                group_size
            } else {
                (n_rows - (count - 1) * group_size) as nat
            },
    )
}

/// Groups that are all full hold as many rows as their number times the
/// group size.
pub proof fn lemma_total_rows_of_full_groups(groups: Seq<nat>, group_size: nat)
    requires
        forall|i: int| 0 <= i < groups.len() ==> #[trigger] groups[i] == group_size,
    ensures
        total_rows(groups) == groups.len() * group_size,
    decreases groups.len(),
{
    if groups.len() > 0 {
        let front = groups.drop_last();
        assert forall|i: int| 0 <= i < front.len() implies #[trigger] front[i] == group_size by {
            assert(front[i] == groups[i]);
        }
        lemma_total_rows_of_full_groups(front, group_size);
        assert(groups.len() * group_size == front.len() * group_size + group_size)
            by (nonlinear_arith)
            requires
                groups.len() == front.len() + 1,
        ;
    }
}

/// The row groups closed so far are the chunks of the rows written so far:
/// their sizes add up to the number of rows, each is full but the last, and
/// they are as many as the rows need.
pub proof fn lemma_groups_chunk_the_rows(c: CoordinatorView)
    requires
        c.wf(),
    ensures
        total_rows(c.groups) == c.n_rows,
        c.groups == spec_group_sizes(c.n_rows as nat, c.group_size as nat),
        c.n_groups == spec_group_count(c.n_rows as nat, c.group_size as nat),
{
    let g = c.group_size as nat;
    let n = c.n_rows as nat;
    let m = c.groups.len();
    if m == 0 {
        assert(spec_group_count(0, g) == 0) by (nonlinear_arith)
            requires
                g >= 1,
        ;
        assert(c.groups =~= spec_group_sizes(n, g));
    } else {
        let front = c.groups.drop_last();
        let last = c.groups.last();
        assert forall|i: int| 0 <= i < front.len() implies #[trigger] front[i] == g by {
            assert(front[i] == c.groups[i]);
        }
        lemma_total_rows_of_full_groups(front, g);
        assert(n == (m - 1) * g + last);
        assert(spec_group_count(n, g) == m) by (nonlinear_arith)
            requires
                n == (m - 1) * g + last,
                1 <= last <= g,
                m >= 1,
        ;
        assert(c.groups =~= spec_group_sizes(n, g));
    }
}

/// The state after the events `events`, taken in order.
pub open spec fn run(c: CoordinatorView, events: Seq<Event>) -> CoordinatorView
    decreases events.len(),
{
    if events.len() == 0 {
        c
    } else {
        run(c, events.drop_last()).step(events.last()).0
    }
}

/// Every run leads from a state that a run reaches to another such state.
pub proof fn lemma_run_preserves_wf(c: CoordinatorView, events: Seq<Event>)
    requires
        c.wf(),
    ensures
        run(c, events).wf(),
    decreases events.len(),
{
    if events.len() > 0 {
        lemma_run_preserves_wf(c, events.drop_last());
        lemma_step_preserves_wf(run(c, events.drop_last()), events.last());
    }
}

/// A column whose cursor yields another number of rows than the first
/// column's cursor, or ends elsewhere, is fatal: the write is aborted with a
/// row-count mismatch that names the row group and the column, before the
/// sink is asked to close the column.
pub proof fn lemma_mismatch_is_fatal(c: CoordinatorView, rows: usize, has_more: bool)
    requires
        c.wf(),
        c.phase == Phase::WritingGroup(GroupStep::Writing),
        c.report_is_possible(rows, has_more),
        c.column >= 1,
        rows != c.first_rows || has_more != c.first_has_more,
    ensures
        c.step(Event::ColumnWritten { rows, has_more }) == (
            c.aborted(),
            Action::Abort(WriteError::RowCountMismatch { group: c.n_groups, column: c.column }),
        ),
        c.step(Event::ColumnWritten { rows, has_more }).0.phase == Phase::Aborted,
{
}

/// Within a row group, every column that was written yielded as many rows
/// as the first column, and ended where the first column ended.
pub proof fn lemma_written_columns_agree(c: CoordinatorView, column: int)
    requires
        c.wf(),
        c.phase is WritingGroup,
        0 <= column < c.reports.len(),
    ensures
        c.reports[column] == c.reports[0],
        c.reports[column].0 == c.first_rows,
        c.reports[column].1 == c.first_has_more,
{
    assert(c.reports[0] == (c.first_rows, c.first_has_more));
}

/// No event leads out of an aborted write, whatever follows.
pub proof fn lemma_aborted_write_never_succeeds(c: CoordinatorView, events: Seq<Event>)
    requires
        c.phase == Phase::Aborted,
    ensures
        run(c, events) == c,
    decreases events.len(),
{
    if events.len() > 0 {
        lemma_aborted_write_never_succeeds(c, events.drop_last());
    }
}

/// Columns are written in plan order, and each is asked for a full row
/// group: never for more rows, never for fewer.
pub proof fn lemma_columns_are_written_in_order(c: CoordinatorView, event: Event)
    requires
        c.wf(),
        c.step(event).1 is WriteColumn,
    ensures
        c.step(event).1->max_rows == c.group_size,
        c.step(event).1->column == c.step(event).0.column,
        c.step(event).1->column == c.step(event).0.reports.len(),
        c.step(event).1->column < c.n_columns,
{
}

/// An aborted write stays aborted, and a closed one closed.
pub proof fn lemma_terminal_states_are_final(c: CoordinatorView, event: Event)
    requires
        c.phase == Phase::Closed || c.phase == Phase::Aborted,
    ensures
        c.step(event).0 == c,
        c.step(event).1 == Action::Abort(WriteError::UnexpectedEvent),
{
}

/// The progress that a write of `n_rows` rows in `n_cols` columns ends with,
/// when a row group takes up to `group_size` rows. A group size of zero
/// counts as one.
pub fn expected_progress(n_cols: usize, n_rows: u64, group_size: usize) -> (r: Progress)
    ensures
        r.n_cols == n_cols,
        r.n_rows == n_rows,
        r.n_groups == spec_group_count(
            n_rows as nat,
            if group_size == 0 {
                1nat
            } else {
                group_size as nat
            },
        ),
{
    let size: u64 = if group_size == 0 {
        1
    } else {
        group_size as u64
    };
    let full: u64 = n_rows / size;
    let n_groups: u64 = if n_rows % size == 0 {
        full
    } else {
        assert(full < u64::MAX) by (nonlinear_arith)
            requires
                size >= 2,
                full == n_rows / size,
                n_rows <= u64::MAX,
        ;
        full + 1
    };
    assert(n_groups == (n_rows + size - 1) / (size as int)) by (nonlinear_arith)
        requires
            size >= 1,
            full == n_rows / size,
            n_groups == if n_rows % size == 0 {
                full as int
            } else {
                full + 1
            },
    ;
    Progress { n_cols: n_cols as u64, n_rows, n_groups }
}

/// Decides, event by event, what is done next while a table is written.
pub struct Coordinator {
    phase: Phase,
    n_columns: usize,
    group_size: usize,
    column: usize,
    first_rows: usize,
    first_has_more: bool,
    n_rows: u64,
    n_groups: u64,
    reports: Ghost<Seq<(usize, bool)>>,
    groups: Ghost<Seq<nat>>,
}

impl View for Coordinator {
    type V = CoordinatorView;

    closed spec fn view(&self) -> CoordinatorView {
        CoordinatorView {
            phase: self.phase,
            n_columns: self.n_columns,
            group_size: self.group_size,
            column: self.column,
            first_rows: self.first_rows,
            first_has_more: self.first_has_more,
            n_rows: self.n_rows,
            n_groups: self.n_groups,
            reports: self.reports@,
            groups: self.groups@,
        }
    }
}

impl Coordinator {
    /// A coordinator for a table of `n_columns` columns that is written in
    /// row groups of up to `group_size` rows. A group size of zero counts as
    /// one.
    pub fn new(n_columns: usize, group_size: usize) -> (r: Coordinator)
        requires
            n_columns >= 1,
        ensures
            r@ == initial(n_columns, group_size),
            r@.wf(),
    {
        Coordinator {
            phase: Phase::Idle,
            n_columns,
            group_size: if group_size == 0 { 1 } else { group_size },
            column: 0,
            first_rows: 0,
            first_has_more: false,
            n_rows: 0,
            n_groups: 0,
            reports: Ghost(Seq::empty()),
            groups: Ghost(Seq::empty()),
        }
    }

    /// The coordinator's state.
    pub fn phase(&self) -> (r: Phase)
        ensures
            r == self@.phase,
    {
        self.phase
    }

    /// The progress made so far.
    pub fn progress(&self) -> (r: Progress)
        ensures
            r == self@.progress(),
    {
        Progress { n_cols: self.column as u64, n_rows: self.n_rows, n_groups: self.n_groups }
    }

    fn abort(&mut self, error: WriteError) -> (r: Action)
        ensures
            final(self)@ == old(self)@.aborted(),
            r == Action::Abort(error),
    {
        self.phase = Phase::Aborted;
        Action::Abort(error)
    }

    fn next_group(&mut self, has_rows: bool) -> (r: Action)
        ensures
            (final(self)@, r) == old(self)@.next_group(has_rows),
    {
        self.column = 0;
        self.reports = Ghost(Seq::empty());
        if has_rows {
            self.phase = Phase::WritingGroup(GroupStep::Opening);
            Action::OpenGroup
        } else {
            self.phase = Phase::Finalizing;
            Action::Finalize
        }
    }

    fn column_written(&mut self, rows: usize, has_more: bool) -> (r: Action)
        requires
            old(self)@.wf(),
            old(self)@.phase == Phase::WritingGroup(GroupStep::Writing),
        ensures
            (final(self)@, r) == old(self)@.column_written(rows, has_more),
    {
        if rows > self.group_size || (has_more && rows != self.group_size) || (self.column == 0
            && rows == 0) {
            return self.abort(WriteError::UnexpectedEvent);
        }
        if self.column > 0 && (rows != self.first_rows || has_more != self.first_has_more) {
            let group = self.n_groups;
            let column = self.column;
            return self.abort(WriteError::RowCountMismatch { group, column });
        }
        self.first_rows = rows;
        self.first_has_more = has_more;
        self.phase = Phase::WritingGroup(GroupStep::ClosingColumn);
        self.reports = Ghost(self.reports@.push((rows, has_more)));
        Action::CloseColumn
    }

    fn column_closed(&mut self) -> (r: Action)
        requires
            old(self)@.wf(),
            old(self)@.phase == Phase::WritingGroup(GroupStep::ClosingColumn),
        ensures
            (final(self)@, r) == old(self)@.column_closed(),
    {
        self.column = self.column + 1;
        self.phase = Phase::WritingGroup(GroupStep::Reporting);
        Action::Report(self.progress())
    }

    fn reported(&mut self) -> (r: Action)
        ensures
            (final(self)@, r) == old(self)@.reported(),
    {
        if self.column < self.n_columns {
            self.phase = Phase::WritingGroup(GroupStep::Writing);
            Action::WriteColumn { column: self.column, max_rows: self.group_size }
        } else {
            self.phase = Phase::WritingGroup(GroupStep::Closing);
            Action::CloseGroup
        }
    }

    fn group_closed(&mut self) -> (r: Action)
        ensures
            (final(self)@, r) == old(self)@.group_closed(),
    {
        let rows = self.first_rows as u64;
        if rows > u64::MAX - self.n_rows || self.n_groups == u64::MAX {
            self.abort(WriteError::CounterOverflow)
        } else {
            self.n_rows = self.n_rows + rows;
            self.n_groups = self.n_groups + 1;
            self.groups = Ghost(self.groups@.push(self.first_rows as nat));
            let has_more = self.first_has_more;
            self.next_group(has_more)
        }
    }

    /// Takes note of `event` and answers with the action to carry out next.
    pub fn step(&mut self, event: Event) -> (r: Action)
        requires
            old(self)@.wf(),
        ensures
            (final(self)@, r) == old(self)@.step(event),
            final(self)@.wf(),
    {
        proof {
            lemma_step_preserves_wf(self@, event);
        }
        match (self.phase, event) {
            (Phase::Closed, _) => Action::Abort(WriteError::UnexpectedEvent),
            (Phase::Aborted, _) => Action::Abort(WriteError::UnexpectedEvent),
            (_, Event::Failed(failure)) => {
                let group = self.n_groups;
                let column = self.column;
                self.abort(WriteError::Failed { group, column, failure })
            },
            (Phase::Idle, Event::Start) => {
                self.phase = Phase::Opened;
                Action::Open
            },
            (Phase::Opened, Event::Opened { has_rows }) => self.next_group(has_rows),
            (Phase::WritingGroup(GroupStep::Opening), Event::GroupOpened) => {
                self.phase = Phase::WritingGroup(GroupStep::Writing);
                Action::WriteColumn { column: 0, max_rows: self.group_size }
            },
            (
                Phase::WritingGroup(GroupStep::Writing),
                Event::ColumnWritten { rows, has_more },
            ) => self.column_written(rows, has_more),
            (Phase::WritingGroup(GroupStep::ClosingColumn), Event::ColumnClosed) => self.column_closed(),
            (Phase::WritingGroup(GroupStep::Reporting), Event::Reported) => self.reported(),
            (Phase::WritingGroup(GroupStep::Closing), Event::GroupClosed) => self.group_closed(),
            (Phase::Finalizing, Event::Finalized) => {
                let progress = self.progress();
                self.phase = Phase::Closed;
                Action::Finish(progress)
            },
            _ => self.abort(WriteError::UnexpectedEvent),
        }
    }
}

} // verus!
