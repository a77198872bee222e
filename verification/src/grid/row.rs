use vstd::prelude::*;

use super::cell::{Cell, Color};

verus! {

/// `len` blank cells.
pub open spec fn blanks(len: nat) -> Seq<Cell> {
    Seq::new(len, |i: int| Cell::empty())
}

/// The cells of a row with every position in `[start, end)` blanked.
pub open spec fn blanked(cells: Seq<Cell>, start: int, end: int) -> Seq<Cell> {
    Seq::new(
        cells.len(),
        |i: int|
            if start <= i < end {
                Cell::empty()
            } else {
                cells[i]
            },
    )
}

/// The cells of a row cut or filled with blanks to `cols` cells.
pub open spec fn fitted(cells: Seq<Cell>, cols: nat) -> Seq<Cell> {
    if cols <= cells.len() {
        cells.take(cols as int)
    } else {
        cells + blanks((cols - cells.len()) as nat)
    }
}

/// How many of `count` cells fit between `col` and the end of a row.
pub open spec fn room(cells: Seq<Cell>, col: int, count: nat) -> nat {
    if col >= cells.len() {
        0
    } else if count <= cells.len() - col {
        count
    } else {
        (cells.len() - col) as nat
    }
}

/// The cells of a row with `count` blanks put in at `col`; what is pushed past the end is lost.
pub open spec fn with_inserted(cells: Seq<Cell>, col: int, count: nat) -> Seq<Cell> {
    let n = room(cells, col, count) as int;
    if n == 0 {
        cells
    } else {
        cells.take(col) + blanks(n as nat) + cells.subrange(col, cells.len() - n)
    }
}

/// The cells of a row with `count` cells taken out at `col`; blanks fill up from the right.
pub open spec fn with_deleted(cells: Seq<Cell>, col: int, count: nat) -> Seq<Cell> {
    let n = room(cells, col, count) as int;
    if n == 0 {
        cells
    } else {
        cells.take(col) + cells.skip(col + n) + blanks(n as nat)
    }
}

/// One line of cells.
#[derive(Debug, Clone)]
pub struct Row {
    cells: Vec<Cell>,
}

impl View for Row {
    type V = Seq<Cell>;

    closed spec fn view(&self) -> Seq<Cell> {
        self.cells@
    }
}

impl Row {
    pub fn new(cols: usize) -> (row: Row)
        ensures
            row@ == blanks(cols as nat),
    {
        let row = Row { cells: vec![Cell::blank(); cols] };
        assert(row.cells@ =~= blanks(cols as nat));
        row
    }

    pub fn get(&self, col: usize) -> (cell: Option<&Cell>)
        ensures
            match cell {
                Some(c) => col < self@.len() && *c == self@[col as int],
                None => col >= self@.len(),
            },
    {
        if col < self.cells.len() {
            Some(&self.cells[col])
        } else {
            None
        }
    }

    pub fn get_mut(&mut self, col: usize) -> (cell: Option<&mut Cell>)
        ensures
            match cell {
                Some(c) => {
                    &&& col < old(self)@.len()
                    &&& *c == old(self)@[col as int]
                    &&& final(self)@ == old(self)@.update(col as int, *final(c))
                },
                None => col >= old(self)@.len() && final(self)@ == old(self)@,
            },
    {
        if col < self.cells.len() {
            Some(&mut self.cells[col])
        } else {
            None
        }
    }

    pub fn len(&self) -> (len: usize)
        ensures
            len == self@.len(),
    {
        self.cells.len()
    }

    pub fn is_empty(&self) -> (empty: bool)
        ensures
            empty == (self@.len() == 0),
    {
        self.cells.len() == 0
    }

    /// Blank every cell.
    pub fn clear(&mut self)
        ensures
            final(self)@ == blanks(old(self)@.len()),
    {
        let end = self.cells.len();
        self.clear_range(0, end);
        assert(self@ =~= blanks(old(self)@.len()));
    }

    /// Cut the row, or fill it up with blanks, to `cols` cells.
    pub fn resize(&mut self, cols: usize)
        ensures
            final(self)@ == fitted(old(self)@, cols as nat),
    {
        let ghost before = self.cells@;
        self.cells.resize(cols, Cell::blank());
        proof {
            if cols > before.len() {
                assert forall|i: int| 0 <= i < cols implies self.cells@[i] == fitted(
                    before,
                    cols as nat,
                )[i] by {
                    if i < before.len() {
                        assert(self.cells@.subrange(0, before.len() as int)[i] == before[i]);
                    }
                }
            }
            assert(self.cells@ =~= fitted(before, cols as nat));
        }
    }

    /// Clear cells from `start` to end of row.
    pub fn clear_from(&mut self, start: usize)
        ensures
            final(self)@ == blanked(old(self)@, start as int, old(self)@.len() as int),
    {
        let end = self.cells.len();
        self.clear_range(start, end);
    }

    /// Clear cells from start of row to `end` (exclusive).
    pub fn clear_to(&mut self, end: usize)
        ensures
            final(self)@ == blanked(old(self)@, 0, end as int),
    {
        self.clear_range(0, end);
    }

    /// Clear cells from `start` to `end` (exclusive).
    pub fn clear_range(&mut self, start: usize, end: usize)
        ensures
            final(self)@ == blanked(old(self)@, start as int, end as int),
    {
        let ghost before = self.cells@;
        let stop: usize = if end < self.cells.len() {
            end
        } else {
            self.cells.len()
        };
        let mut i: usize = start;
        while i < stop
            invariant
                stop <= before.len(),
                stop <= end,
                stop == end || stop == before.len(),
                start <= i,
                i <= stop || i == start,
                self.cells@ == blanked(before, start as int, i as int),
            decreases stop - i,
        {
            self.cells[i] = Cell::blank();
            i = i + 1;
            assert(self.cells@ =~= blanked(before, start as int, i as int));
        }
        assert(self.cells@ =~= blanked(before, start as int, end as int));
    }

    /// Insert `count` blank cells at `col`, shifting cells right. Excess cells are dropped.
    pub fn insert_cells(&mut self, col: usize, count: usize)
        ensures
            final(self)@ == with_inserted(old(self)@, col as int, count as nat),
    {
        let ghost before = self.cells@;
        if col >= self.cells.len() {
            return;
        }
        let space: usize = self.cells.len() - col;
        let n: usize = if count < space {
            count
        } else {
            space
        };
        let mut done: usize = 0;
        while done < n
            invariant
                col < before.len(),
                done <= n <= before.len() - col,
                self.cells@ == with_inserted(before, col as int, done as nat),
            decreases n - done,
        {
            let ghost now = self.cells@;
            self.cells.pop();
            self.cells.insert(col, Cell::blank());
            done = done + 1;
            assert(self.cells@ =~= with_inserted(before, col as int, done as nat));
        }
    }

    /// Delete `count` cells at `col`, shifting cells left. Blank cells fill from the right.
    pub fn delete_cells(&mut self, col: usize, count: usize)
        ensures
            final(self)@ == with_deleted(old(self)@, col as int, count as nat),
    {
        let ghost before = self.cells@;
        if col >= self.cells.len() {
            return;
        }
        let space: usize = self.cells.len() - col;
        let removable: usize = if count < space {
            count
        } else {
            space
        };
        let mut done: usize = 0;
        while done < removable
            invariant
                col < before.len(),
                done <= removable <= before.len() - col,
                self.cells@ == with_deleted(before, col as int, done as nat),
            decreases removable - done,
        {
            self.cells.remove(col);
            self.cells.push(Cell::blank());
            done = done + 1;
            assert(self.cells@ =~= with_deleted(before, col as int, done as nat));
        }
    }
}

/// A line that is fitted to a width keeps its cells as far as the width reaches, and gets blank
/// ones beyond them.
pub proof fn fitted_lines_keep_their_cells(cells: Seq<Cell>, cols: nat, i: int)
    requires
        0 <= i < cols,
    ensures
        fitted(cells, cols).len() == cols,
        i < cells.len() ==> fitted(cells, cols)[i] == cells[i],
        i >= cells.len() ==> {
            let cell = fitted(cells, cols)[i];
            &&& cell.ch == ' '
            &&& cell.fg == Color::Default
            &&& cell.bg == Color::Default
            &&& !cell.flags.bold && !cell.flags.dim && !cell.flags.italic && !cell.flags.underline
            &&& !cell.flags.inverse && !cell.flags.hidden && !cell.flags.strikethrough
        },
{
}

/// Blanking takes the cells of its range, the end not among them, and leaves the others.
pub proof fn blanking_keeps_to_its_range(cells: Seq<Cell>, start: int, end: int, i: int)
    requires
        0 <= i < cells.len(),
    ensures
        blanked(cells, start, end).len() == cells.len(),
        start <= i < end ==> blanked(cells, start, end)[i].ch == ' ' && blanked(
            cells,
            start,
            end,
        )[i].bg == Color::Default,
        !(start <= i < end) ==> blanked(cells, start, end)[i] == cells[i],
{
}

} // verus!
