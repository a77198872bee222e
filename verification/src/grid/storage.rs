use vstd::prelude::*;

use super::cell::Cell;
use super::row::{blanks, fitted, Row};

verus! {

/// A line of cells, as a mathematical sequence.
pub type Line = Seq<Cell>;

/// The last `limit` lines of a history; all of them where there are no more.
pub open spec fn newest(lines: Seq<Line>, limit: nat) -> Seq<Line> {
    if lines.len() <= limit {
        lines
    } else {
        lines.skip(lines.len() - limit)
    }
}

/// `count` blank lines of `cols` cells.
pub open spec fn blank_lines(count: nat, cols: nat) -> Seq<Line> {
    Seq::new(count, |i: int| blanks(cols))
}

/// Every line blanked at its own width.
pub open spec fn cleared(lines: Seq<Line>) -> Seq<Line> {
    Seq::new(lines.len(), |i: int| blanks(lines[i].len()))
}

/// Every line cut or filled up to `cols` cells.
pub open spec fn fitted_lines(lines: Seq<Line>, cols: nat) -> Seq<Line> {
    Seq::new(lines.len(), |i: int| fitted(lines[i], cols))
}

/// Keeping the newest lines of a history before more come in changes nothing of what is kept in
/// the end.
pub proof fn newest_is_incremental(before: Seq<Line>, after: Seq<Line>, limit: nat)
    ensures
        newest(newest(before, limit) + after, limit) == newest(before + after, limit),
{
    assert(newest(newest(before, limit) + after, limit) =~= newest(before + after, limit));
}

/// Ring buffer for scrollback history.
#[derive(Debug)]
pub struct ScrollbackBuffer {
    buffer: Vec<Row>,
    capacity: usize,
    /// Where the oldest row stands: 0 until the ring is full.
    head: usize,
}

impl View for ScrollbackBuffer {
    type V = Seq<Line>;

    /// The lines held, oldest first.
    closed spec fn view(&self) -> Seq<Line> {
        Seq::new(self.buffer@.len(), |i: int| self.buffer@[self.slot(i)]@)
    }
}

impl ScrollbackBuffer {
    /// How many lines the buffer can hold.
    pub closed spec fn limit(&self) -> nat {
        self.capacity as nat
    }

    pub closed spec fn wf(&self) -> bool {
        &&& self.buffer@.len() <= self.capacity
        &&& self.head == 0 || (self.head < self.buffer@.len() && self.buffer@.len()
            == self.capacity)
    }

    /// The slot that holds line `i`, counted from the oldest.
    spec fn slot(&self, i: int) -> int {
        if self.head + i < self.buffer@.len() {
            self.head + i
        } else {
            self.head + i - self.buffer@.len()
        }
    }

    pub fn new(capacity: usize) -> (buffer: ScrollbackBuffer)
        ensures
            buffer.wf(),
            buffer@ == Seq::<Line>::empty(),
            buffer.limit() == capacity,
    {
        let buffer = ScrollbackBuffer { buffer: Vec::new(), capacity, head: 0 };
        assert(buffer@ =~= Seq::<Line>::empty());
        buffer
    }

    /// A well-formed buffer never holds more than its limit.
    pub proof fn holds_at_most_its_limit(&self)
        requires
            self.wf(),
        ensures
            self@.len() <= self.limit(),
    {
    }

    /// Push a row into the ring buffer; when the ring is full the oldest row makes room.
    pub fn push(&mut self, row: Row)
        requires
            old(self).wf(),
        ensures
            final(self).wf(),
            final(self).limit() == old(self).limit(),
            final(self)@ == newest(old(self)@.push(row@), old(self).limit()),
    {
        let ghost before = self@;
        if self.capacity == 0 {
            assert(self@ =~= newest(before.push(row@), self.limit()));
            return;
        }
        if self.buffer.len() < self.capacity {
            self.buffer.push(row);
            assert(self@ =~= newest(before.push(row@), self.limit()));
        } else {
            let idx: usize = self.head;
            self.buffer[idx] = row;
            self.head = if idx + 1 < self.capacity {
                idx + 1
            } else {
                0
            };
            assert(self@ =~= newest(before.push(row@), self.limit()));
        }
    }

    /// Get a row from the scrollback. Index 0 is the oldest row held.
    pub fn get(&self, index: usize) -> (row: Option<&Row>)
        requires
            self.wf(),
        ensures
            match row {
                Some(r) => index < self@.len() && r@ == self@[index as int],
                None => index >= self@.len(),
            },
    {
        if index >= self.buffer.len() {
            return None;
        }
        let tail: usize = self.buffer.len() - self.head;
        if index < tail {
            Some(&self.buffer[self.head + index])
        } else {
            Some(&self.buffer[index - tail])
        }
    }

    pub fn len(&self) -> (len: usize)
        ensures
            len == self@.len(),
    {
        self.buffer.len()
    }

    pub fn is_empty(&self) -> (empty: bool)
        ensures
            empty == (self@.len() == 0),
    {
        self.buffer.len() == 0
    }

    pub fn capacity(&self) -> (capacity: usize)
        ensures
            capacity == self.limit(),
    {
        self.capacity
    }
}

/// What a grid holds, as mathematical values.
#[verifier::ext_equal]
pub struct GridModel {
    /// The visible lines, top to bottom.
    pub lines: Seq<Line>,
    /// The width given to new lines.
    pub cols: nat,
    /// The scrollback lines, oldest first.
    pub history: Seq<Line>,
    /// How many scrollback lines are kept.
    pub limit: nat,
    /// Whether lines that scroll off are forgotten.
    pub suppress: bool,
}

impl GridModel {
    pub open spec fn cell(self, row: int, col: int) -> Option<Cell> {
        if 0 <= row < self.lines.len() && 0 <= col < self.lines[row].len() {
            Some(self.lines[row][col])
        } else {
            None
        }
    }

    /// The line shown at `row` when the view is shifted `offset` lines into the history: the
    /// last `offset` lines of the history come first, then the visible lines.
    pub open spec fn viewport_line(self, row: int, offset: nat) -> Option<Line> {
        let back = if offset <= self.history.len() {
            offset as int
        } else {
            self.history.len() as int
        };
        let shown = self.history.skip(self.history.len() - back) + self.lines;
        if 0 <= row < shown.len() {
            Some(shown[row])
        } else {
            None
        }
    }

    pub open spec fn cell_scrolled(self, row: int, col: int, offset: nat) -> Option<Cell> {
        match self.viewport_line(row, offset) {
            Some(line) => if 0 <= col < line.len() {
                Some(line[col])
            } else {
                None
            },
            None => None,
        }
    }

    /// Whether `[top, bottom)` is a region of the screen in which `count` lines can move.
    pub open spec fn movable(self, top: int, bottom: int, count: nat) -> bool {
        0 <= top < bottom <= self.lines.len() && count > 0
    }

    /// `count`, or the height of the region where that is less.
    pub open spec fn shift(top: int, bottom: int, count: nat) -> int {
        if count <= bottom - top {
            count as int
        } else {
            bottom - top
        }
    }

    pub open spec fn scrolled_up(self, top: int, bottom: int, count: nat) -> GridModel {
        let n = Self::shift(top, bottom, count);
        if !self.movable(top, bottom, count) {
            self
        } else if top == 0 && !self.suppress {
            GridModel {
                lines: self.lines.subrange(n, bottom) + blank_lines(n as nat, self.cols)
                    + self.lines.skip(bottom),
                history: newest(self.history + self.lines.take(n), self.limit),
                ..self
            }
        } else {
            GridModel {
                lines: self.lines.take(top) + self.lines.subrange(top + n, bottom) + cleared(
                    self.lines.subrange(top, top + n),
                ) + self.lines.skip(bottom),
                ..self
            }
        }
    }

    pub open spec fn scrolled_down(self, top: int, bottom: int, count: nat) -> GridModel {
        let n = Self::shift(top, bottom, count);
        if !self.movable(top, bottom, count) {
            self
        } else {
            GridModel {
                lines: self.lines.take(top) + cleared(self.lines.subrange(bottom - n, bottom))
                    + self.lines.subrange(top, bottom - n) + self.lines.skip(bottom),
                ..self
            }
        }
    }

    pub open spec fn resized(self, rows: nat, cols: nat) -> GridModel {
        let all = fitted_lines(self.lines, cols);
        if rows >= all.len() {
            GridModel {
                lines: all + blank_lines((rows - all.len()) as nat, cols),
                cols,
                ..self
            }
        } else {
            let excess = all.len() - rows;
            GridModel {
                lines: all.skip(excess),
                cols,
                history: newest(self.history + all.take(excess), self.limit),
                ..self
            }
        }
    }

    pub open spec fn with_line(self, row: int, line: Line) -> GridModel {
        if 0 <= row < self.lines.len() {
            GridModel { lines: self.lines.update(row, line), ..self }
        } else {
            self
        }
    }

    pub open spec fn with_cell(self, row: int, col: int, cell: Cell) -> GridModel {
        if self.cell(row, col) is Some {
            self.with_line(row, self.lines[row].update(col, cell))
        } else {
            self
        }
    }

    pub open spec fn all_cleared(self) -> GridModel {
        GridModel { lines: cleared(self.lines), ..self }
    }

    /// Whether every visible line has the grid's width.
    pub open spec fn uniform(self) -> bool {
        forall|i: int| 0 <= i < self.lines.len() ==> (#[trigger] self.lines[i]).len() == self.cols
    }

    /// Whether the history keeps to its limit.
    pub open spec fn bounded(self) -> bool {
        self.history.len() <= self.limit
    }
}

/// The terminal grid: visible rows + scrollback.
pub struct Grid {
    rows: Vec<Row>,
    cols: usize,
    scrollback: ScrollbackBuffer,
    /// When true, scroll_up does not push lines to scrollback (alternate screen mode).
    pub suppress_scrollback: bool,
}

/// The contents of rows as lines.
spec fn lines_of(rows: Seq<Row>) -> Seq<Line> {
    Seq::new(rows.len(), |i: int| rows[i]@)
}

impl View for Grid {
    type V = GridModel;

    closed spec fn view(&self) -> GridModel {
        GridModel {
            lines: lines_of(self.rows@),
            cols: self.cols as nat,
            history: self.scrollback@,
            limit: self.scrollback.limit(),
            suppress: self.suppress_scrollback,
        }
    }
}

impl Grid {
    pub closed spec fn wf(&self) -> bool {
        self.scrollback.wf()
    }

    /// The history of a well-formed grid keeps to its limit.
    pub proof fn history_is_bounded(&self)
        requires
            self.wf(),
        ensures
            self@.bounded(),
    {
        self.scrollback.holds_at_most_its_limit();
    }

    pub fn new(visible_rows: usize, cols: usize, scrollback_capacity: usize) -> (grid: Grid)
        ensures
            grid.wf(),
            grid@ == (GridModel {
                lines: blank_lines(visible_rows as nat, cols as nat),
                cols: cols as nat,
                history: Seq::empty(),
                limit: scrollback_capacity as nat,
                suppress: false,
            }),
    {
        let mut rows: Vec<Row> = Vec::new();
        let mut i: usize = 0;
        while i < visible_rows
            invariant
                i <= visible_rows,
                lines_of(rows@) == blank_lines(i as nat, cols as nat),
                rows@.len() == i,
            decreases visible_rows - i,
        {
            rows.push(Row::new(cols));
            i = i + 1;
            assert(lines_of(rows@) =~= blank_lines(i as nat, cols as nat)) by {
                assert forall|k: int| 0 <= k < i - 1 implies lines_of(rows@)[k] == blanks(
                    cols as nat,
                ) by {
                    assert(lines_of(rows@.drop_last())[k] == blank_lines(
                        (i - 1) as nat,
                        cols as nat,
                    )[k]);
                    assert(rows@.drop_last() =~= rows@.take(i - 1));
                }
            }
        }
        Grid {
            rows,
            cols,
            scrollback: ScrollbackBuffer::new(scrollback_capacity),
            suppress_scrollback: false,
        }
    }

    pub fn cols(&self) -> (cols: usize)
        ensures
            cols == self@.cols,
    {
        self.cols
    }

    pub fn visible_rows(&self) -> (rows: usize)
        ensures
            rows == self@.lines.len(),
    {
        self.rows.len()
    }

    /// Get a reference to a cell at (row, col) in the visible area.
    pub fn cell(&self, row: usize, col: usize) -> (cell: Option<&Cell>)
        ensures
            match cell {
                Some(c) => self@.cell(row as int, col as int) == Some(*c),
                None => self@.cell(row as int, col as int) is None,
            },
    {
        if row < self.rows.len() {
            self.rows[row].get(col)
        } else {
            None
        }
    }

    /// Get a mutable reference to a cell at (row, col) in the visible area.
    pub fn cell_mut(&mut self, row: usize, col: usize) -> (cell: Option<&mut Cell>)
        ensures
            old(self).wf() ==> final(self).wf(),
            match cell {
                Some(c) => {
                    &&& old(self)@.cell(row as int, col as int) == Some(*c)
                    &&& final(self)@ == old(self)@.with_cell(row as int, col as int, *final(c))
                },
                None => {
                    &&& old(self)@.cell(row as int, col as int) is None
                    &&& final(self)@ == old(self)@
                },
            },
    {
        if row < self.rows.len() {
            self.rows[row].get_mut(col)
        } else {
            None
        }
    }

    /// Get a reference to a visible row.
    pub fn row(&self, row: usize) -> (line: Option<&Row>)
        ensures
            match line {
                Some(r) => row < self@.lines.len() && r@ == self@.lines[row as int],
                None => row >= self@.lines.len(),
            },
    {
        if row < self.rows.len() {
            Some(&self.rows[row])
        } else {
            None
        }
    }

    /// Get a mutable reference to a visible row.
    pub fn row_mut(&mut self, row: usize) -> (line: Option<&mut Row>)
        ensures
            old(self).wf() ==> final(self).wf(),
            match line {
                Some(r) => {
                    &&& row < old(self)@.lines.len()
                    &&& r@ == old(self)@.lines[row as int]
                    &&& final(self)@ == old(self)@.with_line(row as int, final(r)@)
                },
                None => row >= old(self)@.lines.len() && final(self)@ == old(self)@,
            },
    {
        if row < self.rows.len() {
            Some(&mut self.rows[row])
        } else {
            None
        }
    }

    /// Move the first `n` lines of `[0, bottom)` to the scrollback; blank lines come in below.
    fn scroll_into_history(&mut self, bottom: usize, n: usize)
        requires
            old(self).wf(),
            n <= bottom <= old(self)@.lines.len(),
        ensures
            final(self).wf(),
            final(self)@ == (GridModel {
                lines: old(self)@.lines.subrange(n as int, bottom as int) + blank_lines(
                    n as nat,
                    old(self)@.cols,
                ) + old(self)@.lines.skip(bottom as int),
                history: newest(old(self)@.history + old(self)@.lines.take(n as int), old(self)@.limit),
                ..old(self)@
            }),
    {
        let ghost before = self@;
        let mut done: usize = 0;
        proof {
            self.history_is_bounded();
            assert(before.lines =~= before.lines.subrange(0, bottom as int) + blank_lines(
                0,
                before.cols,
            ) + before.lines.skip(bottom as int));
            assert(before.history =~= newest(before.history + before.lines.take(0), before.limit));
        }
        while done < n
            invariant
                done <= n <= bottom <= before.lines.len(),
                self.wf(),
                self@.cols == before.cols,
                self@.limit == before.limit,
                self@.suppress == before.suppress,
                self@.lines.len() == before.lines.len(),
                self@.lines == before.lines.subrange(done as int, bottom as int) + blank_lines(
                    done as nat,
                    before.cols,
                ) + before.lines.skip(bottom as int),
                self@.history == newest(
                    before.history + before.lines.take(done as int),
                    before.limit,
                ),
            decreases n - done,
        {
            let ghost now = self@;
            assert(now.lines[0] == before.lines[done as int]);
            let row = self.rows.remove(0);
            assert(row@ == before.lines[done as int]);
            self.scrollback.push(row);
            self.rows.insert(bottom - 1, Row::new(self.cols));
            done = done + 1;
            proof {
                assert(self@.lines =~= now.lines.remove(0).insert(bottom - 1, blanks(before.cols)));
                assert(self@.lines =~= before.lines.subrange(done as int, bottom as int)
                    + blank_lines(done as nat, before.cols) + before.lines.skip(bottom as int));
                let held = before.history + before.lines.take(done - 1);
                let last = seq![before.lines[done - 1]];
                newest_is_incremental(held, last, before.limit);
                assert(now.history.push(row@) =~= now.history + last);
                assert(held + last =~= before.history + before.lines.take(done as int));
            }
        }
    }

    /// Move the first `n` lines of `[top, bottom)` to its end, and clear them.
    fn rotate_up(&mut self, top: usize, bottom: usize, n: usize)
        requires
            old(self).wf(),
            top + n <= bottom <= old(self)@.lines.len(),
        ensures
            final(self).wf(),
            final(self)@ == (GridModel {
                lines: old(self)@.lines.take(top as int) + old(self)@.lines.subrange(
                    top + n,
                    bottom as int,
                ) + cleared(old(self)@.lines.subrange(top as int, top + n))
                    + old(self)@.lines.skip(bottom as int),
                ..old(self)@
            }),
    {
        let ghost before = self@;
        let mut done: usize = 0;
        assert(before.lines =~= before.lines.take(top as int) + before.lines.subrange(
            top as int,
            bottom as int,
        ) + cleared(before.lines.subrange(top as int, top as int)) + before.lines.skip(
            bottom as int,
        ));
        while done < n
            invariant
                done <= n,
                top + n <= bottom <= before.lines.len(),
                self.wf(),
                self@.cols == before.cols,
                self@.limit == before.limit,
                self@.suppress == before.suppress,
                self@.history == before.history,
                self@.lines.len() == before.lines.len(),
                self@.lines == before.lines.take(top as int) + before.lines.subrange(
                    top + done,
                    bottom as int,
                ) + cleared(before.lines.subrange(top as int, top + done)) + before.lines.skip(
                    bottom as int,
                ),
            decreases n - done,
        {
            let ghost now = self@;
            assert(now.lines[top as int] == before.lines[top + done]);
            let mut row = self.rows.remove(top);
            assert(row@ == before.lines[top + done]);
            row.clear();
            self.rows.insert(bottom - 1, row);
            done = done + 1;
            proof {
                assert(self@.lines =~= now.lines.remove(top as int).insert(bottom - 1, row@));
                assert(self@.lines =~= before.lines.take(top as int) + before.lines.subrange(
                    top + done,
                    bottom as int,
                ) + cleared(before.lines.subrange(top as int, top + done)) + before.lines.skip(
                    bottom as int,
                ));
            }
        }
    }

    /// Scroll the region [top, bottom) up by `count` lines.
    /// Top lines go to scrollback (only if top == 0), bottom lines are filled blank.
    pub fn scroll_up(&mut self, top: usize, bottom: usize, count: usize)
        requires
            old(self).wf(),
        ensures
            final(self).wf(),
            final(self)@ == old(self)@.scrolled_up(top as int, bottom as int, count as nat),
    {
        if top >= bottom || bottom > self.rows.len() || count == 0 {
            return;
        }
        let n: usize = if count < bottom - top {
            count
        } else {
            bottom - top
        };
        if top == 0 && !self.suppress_scrollback {
            self.scroll_into_history(bottom, n);
        } else {
            self.rotate_up(top, bottom, n);
        }
    }

    /// Scroll the region [top, bottom) down by `count` lines.
    /// Bottom lines are lost, top lines are filled blank.
    pub fn scroll_down(&mut self, top: usize, bottom: usize, count: usize)
        requires
            old(self).wf(),
        ensures
            final(self).wf(),
            final(self)@ == old(self)@.scrolled_down(top as int, bottom as int, count as nat),
    {
        if top >= bottom || bottom > self.rows.len() || count == 0 {
            return;
        }
        let ghost before = self@;
        let n: usize = if count < bottom - top {
            count
        } else {
            bottom - top
        };
        let mut done: usize = 0;
        assert(before.lines =~= before.lines.take(top as int) + cleared(
            before.lines.subrange(bottom as int, bottom as int),
        ) + before.lines.subrange(top as int, bottom as int) + before.lines.skip(bottom as int));
        while done < n
            invariant
                done <= n <= bottom - top,
                top < bottom <= before.lines.len(),
                self.wf(),
                self@.cols == before.cols,
                self@.limit == before.limit,
                self@.suppress == before.suppress,
                self@.history == before.history,
                self@.lines.len() == before.lines.len(),
                self@.lines == before.lines.take(top as int) + cleared(
                    before.lines.subrange(bottom - done, bottom as int),
                ) + before.lines.subrange(top as int, bottom - done) + before.lines.skip(
                    bottom as int,
                ),
            decreases n - done,
        {
            let ghost now = self@;
            assert(now.lines[bottom - 1] == before.lines[bottom - 1 - done]);
            let mut row = self.rows.remove(bottom - 1);
            assert(row@ == before.lines[bottom - 1 - done]);
            row.clear();
            self.rows.insert(top, row);
            done = done + 1;
            proof {
                assert(self@.lines =~= now.lines.remove(bottom - 1).insert(top as int, row@));
                assert(self@.lines =~= before.lines.take(top as int) + cleared(
                    before.lines.subrange(bottom - done, bottom as int),
                ) + before.lines.subrange(top as int, bottom - done) + before.lines.skip(
                    bottom as int,
                ));
            }
        }
    }

    /// Resize the grid. Existing content is preserved where possible: lines that no longer fit
    /// on the screen leave at the top, into the scrollback.
    pub fn resize(&mut self, new_rows: usize, new_cols: usize)
        requires
            old(self).wf(),
        ensures
            final(self).wf(),
            final(self)@ == old(self)@.resized(new_rows as nat, new_cols as nat),
    {
        let ghost before = self@;
        let ghost all = fitted_lines(before.lines, new_cols as nat);
        let height = self.rows.len();
        let mut i: usize = 0;
        while i < height
            invariant
                i <= height == before.lines.len(),
                self.wf(),
                self@.cols == before.cols,
                self@.history == before.history,
                self@.limit == before.limit,
                self@.suppress == before.suppress,
                self@.lines == fitted_lines(before.lines.take(i as int), new_cols as nat)
                    + before.lines.skip(i as int),
                self@.lines.len() == height,
            decreases height - i,
        {
            let ghost now = self@;
            assert(now.lines[i as int] == before.lines[i as int]);
            self.rows[i].resize(new_cols);
            i = i + 1;
            assert(self@.lines =~= now.lines.update(
                i - 1,
                fitted(before.lines[i - 1], new_cols as nat),
            ));
            assert(self@.lines =~= fitted_lines(before.lines.take(i as int), new_cols as nat)
                + before.lines.skip(i as int));
        }
        assert(self@.lines =~= all);
        self.cols = new_cols;
        if new_rows >= height {
            let mut added: usize = 0;
            assert(all =~= all + blank_lines(0, new_cols as nat));
            while added < new_rows - height
                invariant
                    height == all.len(),
                    added <= new_rows - height,
                    self.wf(),
                    self@.cols == new_cols,
                    self@.history == before.history,
                    self@.limit == before.limit,
                    self@.suppress == before.suppress,
                    self@.lines == all + blank_lines(added as nat, new_cols as nat),
                decreases new_rows - height - added,
            {
                let ghost now = self@;
                self.rows.push(Row::new(new_cols));
                added = added + 1;
                assert(self@.lines =~= now.lines.push(blanks(new_cols as nat)));
                assert(self@.lines =~= all + blank_lines(added as nat, new_cols as nat));
            }
        } else {
            let excess: usize = height - new_rows;
            let mut dropped: usize = 0;
            proof {
                self.history_is_bounded();
                assert(all =~= all.skip(0));
                assert(before.history =~= newest(before.history + all.take(0), before.limit));
            }
            while dropped < excess
                invariant
                    dropped <= excess <= all.len(),
                    self.wf(),
                    self@.cols == new_cols,
                    self@.limit == before.limit,
                    self@.suppress == before.suppress,
                    self@.lines == all.skip(dropped as int),
                    self@.history == newest(
                        before.history + all.take(dropped as int),
                        before.limit,
                    ),
                decreases excess - dropped,
            {
                let ghost now = self@;
                assert(now.lines.len() == self.rows@.len());
                assert(now.lines[0] == all[dropped as int]);
                let row = self.rows.remove(0);
                assert(row@ == all[dropped as int]);
                self.scrollback.push(row);
                dropped = dropped + 1;
                proof {
                    assert(self@.lines =~= now.lines.remove(0));
                    assert(self@.lines =~= all.skip(dropped as int));
                    let held = before.history + all.take(dropped - 1);
                    let last = seq![all[dropped - 1]];
                    newest_is_incremental(held, last, before.limit);
                    assert(now.history.push(row@) =~= now.history + last);
                    assert(held + last =~= before.history + all.take(dropped as int));
                }
            }
        }
    }

    /// Get a row from scrollback by index (0 = oldest).
    pub fn scrollback_row(&self, index: usize) -> (line: Option<&Row>)
        requires
            self.wf(),
        ensures
            match line {
                Some(r) => index < self@.history.len() && r@ == self@.history[index as int],
                None => index >= self@.history.len(),
            },
    {
        self.scrollback.get(index)
    }

    /// Number of rows in scrollback.
    pub fn scrollback_len(&self) -> (len: usize)
        ensures
            len == self@.history.len(),
    {
        self.scrollback.len()
    }

    /// Get a cell at (row, col) with a scroll offset.
    /// offset=0 shows the live terminal. offset=N shifts the viewport N lines
    /// into scrollback history.
    pub fn cell_scrolled(&self, row: usize, col: usize, scroll_offset: usize) -> (cell: Option<
        &Cell,
    >)
        requires
            self.wf(),
        ensures
            match cell {
                Some(c) => self@.cell_scrolled(row as int, col as int, scroll_offset as nat)
                    == Some(*c),
                None => self@.cell_scrolled(row as int, col as int, scroll_offset as nat) is None,
            },
    {
        let sb_len = self.scrollback.len();
        // The top `back` rows of the view come from the end of the scrollback.
        let back: usize = if scroll_offset < sb_len {
            scroll_offset
        } else {
            sb_len
        };
        if row < back {
            match self.scrollback.get(sb_len - back + row) {
                Some(line) => line.get(col),
                None => None,
            }
        } else {
            self.cell(row - back, col)
        }
    }

    /// Clear all visible rows.
    pub fn clear_visible(&mut self)
        ensures
            old(self).wf() ==> final(self).wf(),
            final(self)@ == old(self)@.all_cleared(),
    {
        let ghost before = *self;
        let height = self.rows.len();
        let mut i: usize = 0;
        while i < height
            invariant
                i <= height == before@.lines.len(),
                before.wf() ==> self.wf(),
                self@.cols == before@.cols,
                self@.history == before@.history,
                self@.limit == before@.limit,
                self@.suppress == before@.suppress,
                self@.lines == cleared(before@.lines.take(i as int)) + before@.lines.skip(i as int),
                self@.lines.len() == height,
            decreases height - i,
        {
            let ghost now = self@;
            assert(now.lines[i as int] == before@.lines[i as int]);
            self.rows[i].clear();
            i = i + 1;
            assert(self@.lines =~= now.lines.update(i - 1, blanks(before@.lines[i - 1].len())));
            assert(self@.lines =~= cleared(before@.lines.take(i as int)) + before@.lines.skip(
                i as int,
            ));
        }
        assert(self@.lines =~= cleared(before@.lines));
    }

    /// Insert `count` blank lines at row index within [top, bottom), shifting down.
    pub fn insert_lines(&mut self, at: usize, count: usize, top: usize, bottom: usize)
        requires
            old(self).wf(),
        ensures
            final(self).wf(),
            final(self)@ == (if top <= at < bottom {
                old(self)@.scrolled_down(at as int, bottom as int, count as nat)
            } else {
                old(self)@
            }),
    {
        if at < top || at >= bottom || bottom > self.rows.len() {
            return;
        }
        self.scroll_down(at, bottom, count);
    }

    /// Delete `count` lines at row index within [top, bottom), shifting up.
    pub fn delete_lines(&mut self, at: usize, count: usize, top: usize, bottom: usize)
        requires
            old(self).wf(),
        ensures
            final(self).wf(),
            final(self)@ == (if top <= at < bottom {
                old(self)@.scrolled_up(at as int, bottom as int, count as nat)
            } else {
                old(self)@
            }),
    {
        if at < top || at >= bottom || bottom > self.rows.len() {
            return;
        }
        self.scroll_up(at, bottom, count);
    }
}

} // verus!
