use vstd::prelude::*;

verus! {

/// How many cells the sidebar's buffer holds at first.
pub const SIDEBAR_DEFAULT_CAPACITY: usize = 1600;

/// How many cells a buffer holds.
#[derive(Debug, Clone, Copy, PartialEq, Eq, Structural)]
pub struct CellBuffer {
    pub capacity: usize,
}

impl CellBuffer {
    /// A buffer for a grid of the given size.
    pub fn for_grid(cols: u32, rows: u32) -> (buffer: CellBuffer)
        requires
            cols * rows <= usize::MAX,
        ensures
            buffer.capacity == cols * rows,
    {
        CellBuffer { capacity: cols as usize * rows as usize }
    }

    /// How many cells a larger buffer has to hold, where a grid of the given size needs one.
    pub fn resize_if_needed(&self, cols: u32, rows: u32) -> (needed: Option<usize>)
        requires
            cols * rows <= usize::MAX,
        ensures
            match needed {
                Some(cells) => cells == cols * rows && cells > self.capacity,
                None => cols * rows <= self.capacity,
            },
    {
        let cells: usize = cols as usize * rows as usize;
        if cells <= self.capacity {
            None
        } else {
            Some(cells)
        }
    }
}

/// As many rows as fit into a buffer, out of those wanted.
pub open spec fn rows_that_fit(cols: u32, rows: u32, capacity: usize) -> int {
    if cols > 0 && capacity / (cols as usize) < rows {
        (capacity / (cols as usize)) as int
    } else {
        rows as int
    }
}

/// As many rows as fit into a buffer, so that nothing is drawn from beyond its end.
pub fn clamp_rows(cols: u32, rows: u32, capacity: usize) -> (fitting: u32)
    ensures
        fitting == rows_that_fit(cols, rows, capacity),
{
    if cols > 0 {
        let max_rows: usize = capacity / cols as usize;
        if max_rows < rows as usize {
            return max_rows as u32;
        }
    }
    rows
}

/// The clamped rows fit into the buffer.
pub proof fn clamped_rows_fit(cols: u32, rows: u32, capacity: usize)
    ensures
        cols * rows_that_fit(cols, rows, capacity) <= capacity,
{
    if cols > 0 {
        let max_rows = capacity / (cols as usize);
        let wanted = rows_that_fit(cols, rows, capacity);
        assert(cols * max_rows <= capacity) by {
            vstd::arithmetic::div_mod::lemma_fundamental_div_mod(capacity as int, cols as int);
            vstd::arithmetic::div_mod::lemma_mod_bound(capacity as int, cols as int);
        }
        assert(cols * wanted <= cols * max_rows) by (nonlinear_arith)
            requires
                wanted <= max_rows,
                0 <= cols,
        ;
    } else {
        assert(cols * rows_that_fit(cols, rows, capacity) == 0) by (nonlinear_arith)
            requires
                cols == 0,
        ;
    }
}

/// As many whole rows are kept as fit: all of them, or so many that one more would not fit.
pub proof fn as_many_rows_as_fit(cols: u32, rows: u32, capacity: usize)
    requires
        cols > 0,
    ensures
        rows_that_fit(cols, rows, capacity) <= rows,
        rows_that_fit(cols, rows, capacity) * cols <= capacity,
        rows_that_fit(cols, rows, capacity) < rows ==> (rows_that_fit(cols, rows, capacity) + 1)
            * cols > capacity,
{
    let c = cols as int;
    let n = capacity as int / c;
    assert(n * c <= capacity < (n + 1) * c) by (nonlinear_arith)
        requires
            c > 0,
            n == capacity as int / c,
    ;
    if n >= rows {
        assert(rows * c <= n * c) by (nonlinear_arith)
            requires
                n >= rows,
                c > 0,
        ;
    }
}

} // verus!
