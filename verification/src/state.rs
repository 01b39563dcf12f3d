//! The memo table of one validation run.
//!
//! The table has a row for each node and a cell for each named shape. A
//! cell starts unknown, is pending while the pair is being decided and then
//! holds the decision. The number of unknown cells is the measure by which
//! validation of recursive shapes terminates.

use vstd::prelude::*;

verus! {

/// What a run knows of a node and a shape.
#[derive(Debug, Clone, Copy, PartialEq, Eq, Structural)]
pub enum Status {
    Unknown,
    Pending,
    Conforms,
    Violates,
}

/// The table as a mathematical value.
pub type Table = Seq<Seq<Status>>;

/// The number of unknown cells of a row.
pub open spec fn unknown_in(row: Seq<Status>) -> nat
    decreases row.len(),
{
    if row.len() == 0 {
        0
    } else {
        unknown_in(row.drop_last()) + if row.last() == Status::Unknown {
            1nat
        } else {
            0nat
        }
    }
}

/// The number of unknown cells of a table.
pub open spec fn unknown_total(table: Table) -> nat
    decreases table.len(),
{
    if table.len() == 0 {
        0
    } else {
        unknown_total(table.drop_last()) + unknown_in(table.last())
    }
}

/// Every row of the table has `width` cells.
pub open spec fn has_width(table: Table, width: int) -> bool {
    forall|i: int| 0 <= i < table.len() ==> (#[trigger] table[i]).len() == width
}

/// The table with the cell of `node` and `shape` set to `status`.
pub open spec fn with_cell(table: Table, node: int, shape: int, status: Status) -> Table {
    table.update(node, table[node].update(shape, status))
}

/// A row of `width` unknown cells.
pub open spec fn blank_row(width: int) -> Seq<Status> {
    Seq::new(width as nat, |k: int| Status::Unknown)
}

/// The table grown to at least `rows` rows by appending blank rows.
pub open spec fn grown(table: Table, rows: int, width: int) -> Table {
    if rows <= table.len() {
        table
    } else {
        Seq::new(
            rows as nat,
            |i: int|
                if i < table.len() {
                    table[i]
                } else {
                    blank_row(width)
                },
        )
    }
}

/// Setting one cell changes the count of a row by what the cell was and
/// what it becomes.
pub proof fn lemma_row_update(row: Seq<Status>, j: int, status: Status)
    requires
        0 <= j < row.len(),
    ensures
        unknown_in(row.update(j, status)) + (if row[j] == Status::Unknown {
            1nat
        } else {
            0nat
        }) == unknown_in(row) + (if status == Status::Unknown {
            1nat
        } else {
            0nat
        }),
    decreases row.len(),
{
    let new = row.update(j, status);
    if j == row.len() - 1 {
        assert(new.drop_last() =~= row.drop_last());
    } else {
        assert(new.drop_last() =~= row.drop_last().update(j, status));
        lemma_row_update(row.drop_last(), j, status);
    }
}

/// Replacing one row changes the count of the table by the counts of the
/// two rows.
pub proof fn lemma_table_update(table: Table, i: int, row: Seq<Status>)
    requires
        0 <= i < table.len(),
    ensures
        unknown_total(table.update(i, row)) + unknown_in(table[i]) == unknown_total(table)
            + unknown_in(row),
    decreases table.len(),
{
    let new = table.update(i, row);
    if i == table.len() - 1 {
        assert(new.drop_last() =~= table.drop_last());
    } else {
        assert(new.drop_last() =~= table.drop_last().update(i, row));
        lemma_table_update(table.drop_last(), i, row);
    }
}

/// Setting a cell: the count goes down by one when an unknown cell is
/// decided, up by one when a decided cell is forgotten, and stays otherwise.
pub proof fn lemma_with_cell(table: Table, node: int, shape: int, status: Status)
    requires
        0 <= node < table.len(),
        0 <= shape < table[node].len(),
    ensures
        unknown_total(with_cell(table, node, shape, status)) + (if table[node][shape]
            == Status::Unknown {
            1nat
        } else {
            0nat
        }) == unknown_total(table) + (if status == Status::Unknown {
            1nat
        } else {
            0nat
        }),
        with_cell(table, node, shape, status).len() == table.len(),
        forall|w: int| has_width(table, w) ==> has_width(with_cell(table, node, shape, status), w),
{
    lemma_row_update(table[node], shape, status);
    lemma_table_update(table, node, table[node].update(shape, status));
}

/// The memo table of a run.
pub struct ValidationState {
    cells: Vec<Vec<Status>>,
}

/// The views of the rows of a table.
pub open spec fn row_views(cells: Seq<Vec<Status>>) -> Table {
    Seq::new(cells.len(), |i: int| cells[i]@)
}

impl View for ValidationState {
    type V = Table;

    closed spec fn view(&self) -> Table {
        row_views(self.cells@)
    }
}

impl ValidationState {
    /// A table without rows.
    pub fn new() -> (s: ValidationState)
        ensures
            s@.len() == 0,
    {
        let s = ValidationState { cells: Vec::new() };
        assert(s@ =~= Seq::empty());
        s
    }

    /// The number of rows.
    pub fn rows(&self) -> (n: usize)
        ensures
            n == self@.len(),
    {
        self.cells.len()
    }

    /// Appends blank rows of `width` cells until the table has `rows` rows.
    pub fn grow(&mut self, rows: usize, width: usize)
        ensures
            final(self)@ == grown(old(self)@, rows as int, width as int),
            has_width(old(self)@, width as int) ==> has_width(final(self)@, width as int),
    {
        let ghost start = self@;
        while self.cells.len() < rows
            invariant
                start.len() <= self@.len(),
                self@.len() <= rows || self@ == start,
                forall|i: int| 0 <= i < start.len() ==> self@[i] == start[i],
                forall|i: int| start.len() <= i < self@.len() ==> self@[i] == blank_row(width as int),
            decreases rows - self.cells.len(),
        {
            let mut row: Vec<Status> = Vec::new();
            while row.len() < width
                invariant
                    row@.len() <= width,
                    forall|k: int| 0 <= k < row@.len() ==> row@[k] == Status::Unknown,
                decreases width - row.len(),
            {
                row.push(Status::Unknown);
            }
            assert(row@ =~= blank_row(width as int));
            let ghost before = self@;
            self.cells.push(row);
            assert(self@ =~= before.push(row@));
        }
        assert(self@ =~= grown(start, rows as int, width as int));
    }

    /// The cell of `node` and `shape`.
    pub fn get(&self, node: usize, shape: usize) -> (s: Status)
        requires
            node < self@.len(),
            shape < self@[node as int].len(),
        ensures
            s == self@[node as int][shape as int],
    {
        self.cells[node][shape]
    }

    /// Sets the cell of `node` and `shape`.
    pub fn set(&mut self, node: usize, shape: usize, status: Status)
        requires
            node < old(self)@.len(),
            shape < old(self)@[node as int].len(),
        ensures
            final(self)@ == with_cell(old(self)@, node as int, shape as int, status),
    {
        self.cells[node][shape] = status;
        assert(self@ =~= with_cell(old(self)@, node as int, shape as int, status));
    }

    /// The cell of `node` and `shape`, unknown where the table has none.
    pub fn lookup(&self, node: usize, shape: usize) -> (s: Status)
        ensures
            s == if node < self@.len() && shape < self@[node as int].len() {
                self@[node as int][shape as int]
            } else {
                Status::Unknown
            },
    {
        if node < self.cells.len() {
            if shape < self.cells[node].len() {
                return self.cells[node][shape];
            }
        }
        Status::Unknown
    }
}

} // verus!
