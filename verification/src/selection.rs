//! The text that is selected with the mouse.

use vstd::prelude::*;

use crate::grid::storage::{Grid, GridModel, Line};

verus! {

/// A text selection range in grid coordinates, from where it was begun to where it ends.
#[derive(Debug, Clone, Copy, PartialEq, Eq, Structural)]
pub struct Selection {
    pub start_row: usize,
    pub start_col: usize,
    pub end_row: usize,
    pub end_col: usize,
}

impl Selection {
    /// Whether the selection was made downwards.
    pub open spec fn forward(self) -> bool {
        self.start_row < self.end_row || (self.start_row == self.end_row && self.start_col
            <= self.end_col)
    }

    /// The first and the last cell: top row, its column, bottom row, its column.
    pub open spec fn bounds(self) -> (usize, usize, usize, usize) {
        if self.forward() {
            (self.start_row, self.start_col, self.end_row, self.end_col)
        } else {
            (self.end_row, self.end_col, self.start_row, self.start_col)
        }
    }

    /// Whether a cell comes neither before the first nor after the last cell, in reading order.
    pub open spec fn covers(self, row: int, col: int) -> bool {
        let (r0, c0, r1, c1) = self.bounds();
        &&& row > r0 || (row == r0 && col >= c0)
        &&& row < r1 || (row == r1 && col <= c1)
    }

    /// Return (top_row, top_col, bottom_row, bottom_col) in normalized order.
    pub fn ordered(&self) -> (bounds: (usize, usize, usize, usize))
        ensures
            bounds == self.bounds(),
    {
        if self.start_row < self.end_row || (self.start_row == self.end_row && self.start_col
            <= self.end_col) {
            (self.start_row, self.start_col, self.end_row, self.end_col)
        } else {
            (self.end_row, self.end_col, self.start_row, self.start_col)
        }
    }

    /// Check if a cell at (row, col) is within this selection.
    pub fn contains(&self, row: usize, col: usize) -> (inside: bool)
        ensures
            inside == self.covers(row as int, col as int),
    {
        let (r0, c0, r1, c1) = self.ordered();
        if row < r0 || row > r1 {
            return false;
        }
        if r0 == r1 {
            col >= c0 && col <= c1
        } else if row == r0 {
            col >= c0
        } else if row == r1 {
            col <= c1
        } else {
            true
        }
    }
}

/// The direction in which a selection was made does not matter.
pub proof fn direction_does_not_matter(s: Selection, row: int, col: int)
    ensures
        s.covers(row, col) == (Selection {
            start_row: s.end_row,
            start_col: s.end_col,
            end_row: s.start_row,
            end_col: s.start_col,
        }).covers(row, col),
{
}

/// Both ends of a selection belong to it.
pub proof fn ends_belong_to_the_selection(s: Selection)
    ensures
        s.covers(s.start_row as int, s.start_col as int),
        s.covers(s.end_row as int, s.end_col as int),
{
}

/// A character as it is copied: nothing becomes a space.
pub open spec fn copied(ch: char) -> char {
    if ch == '\0' {
        ' '
    } else {
        ch
    }
}

/// The characters of a line in the columns `[from, to)`, as far as it has them.
pub open spec fn line_part(line: Option<Line>, from: int, to: int) -> Seq<char> {
    match line {
        Some(cells) => {
            let end = if to <= cells.len() {
                to
            } else {
                cells.len() as int
            };
            if from < end {
                Seq::new((end - from) as nat, |i: int| copied(cells[from + i].ch))
            } else {
                Seq::empty()
            }
        },
        None => Seq::empty(),
    }
}

/// A text without the spaces at its end.
pub open spec fn without_spaces(text: Seq<char>) -> Seq<char>
    decreases text.len(),
{
    if text.len() > 0 && text.last() == ' ' {
        without_spaces(text.drop_last())
    } else {
        text
    }
}

/// What is copied of one row.
pub open spec fn copied_row(grid: GridModel, sel: Selection, offset: nat, row: int) -> Seq<char> {
    let (r0, c0, r1, c1) = sel.bounds();
    without_spaces(
        line_part(
            grid.viewport_line(row, offset),
            if row == r0 {
                c0 as int
            } else {
                0
            },
            if row == r1 {
                c1 + 1
            } else {
                grid.cols as int
            },
        ),
    )
}

/// What is copied of the first `count` rows of a selection: the rows with line ends between them.
pub open spec fn copied_rows(grid: GridModel, sel: Selection, offset: nat, count: nat) -> Seq<char>
    decreases count,
{
    let top = sel.bounds().0;
    if count == 0 {
        Seq::empty()
    } else if count == 1 {
        copied_row(grid, sel, offset, top as int)
    } else {
        copied_rows(grid, sel, offset, (count - 1) as nat).push('\n') + copied_row(
            grid,
            sel,
            offset,
            top + count - 1,
        )
    }
}

/// The text of a selection.
pub open spec fn selected_text(grid: GridModel, sel: Selection, offset: nat) -> Seq<char> {
    copied_rows(grid, sel, offset, (sel.bounds().2 - sel.bounds().0 + 1) as nat)
}

/// What is copied of one row.
fn copy_row(grid: &Grid, sel: &Selection, offset: usize, row: usize) -> (text: Vec<char>)
    requires
        grid.wf(),
    ensures
        text@ == copied_row(grid@, *sel, offset as nat, row as int),
{
    let (r0, c0, r1, c1) = sel.ordered();
    let from: usize = if row == r0 {
        c0
    } else {
        0
    };
    let last = row == r1;
    let cols: usize = grid.cols();
    let ghost line = grid@.viewport_line(row as int, offset as nat);
    let ghost to = if last {
        c1 + 1
    } else {
        cols as int
    };
    let mut text: Vec<char> = Vec::new();
    let mut col: usize = from;
    let mut more = if last {
        col <= c1
    } else {
        col < cols
    };
    assert(text@ =~= line_part(line, from as int, from as int));
    while more
        invariant
            grid.wf(),
            from <= col,
            line == grid@.viewport_line(row as int, offset as nat),
            to == (if last {
                c1 + 1
            } else {
                cols as int
            }),
            more ==> col < to,
            more ==> text@ == line_part(line, from as int, col as int),
            !more ==> text@ == line_part(line, from as int, to),
        decreases
                (if more {
                    to - col
                } else {
                    0
                }),
    {
        match grid.cell_scrolled(row, col, offset) {
            Some(cell) => {
                let ch: char = cell.ch;
                text.push(
                    if ch == '\0' {
                        ' '
                    } else {
                        ch
                    },
                );
                assert(text@ =~= line_part(line, from as int, col + 1));
                if last {
                    if col < c1 {
                        col = col + 1;
                    } else {
                        more = false;
                    }
                } else {
                    col = col + 1;
                    more = col < cols;
                }
            },
            None => {
                // The line has no cells from here on.
                assert(line_part(line, from as int, to) =~= line_part(
                    line,
                    from as int,
                    col as int,
                ));
                more = false;
            },
        }
    }
    let ghost whole = text@;
    while text.len() > 0 && text[text.len() - 1] == ' '
        invariant
            without_spaces(whole) == without_spaces(text@),
        decreases text@.len(),
    {
        text.pop();
    }
    text
}

/// Extract selected text from the grid.
pub fn extract_selection_text(grid: &Grid, sel: &Selection, scroll_offset: usize) -> (text: String)
    requires
        grid.wf(),
    ensures
        text@ == selected_text(grid@, *sel, scroll_offset as nat),
{
    let (r0, _, r1, _) = sel.ordered();
    let mut result = copy_row(grid, sel, scroll_offset, r0);
    let mut row: usize = r0;
    while row < r1
        invariant
            grid.wf(),
            r0 == sel.bounds().0,
            r1 == sel.bounds().2,
            r0 <= row <= r1,
            result@ == copied_rows(grid@, *sel, scroll_offset as nat, (row - r0 + 1) as nat),
        decreases r1 - row,
    {
        row = row + 1;
        result.push('\n');
        let mut line = copy_row(grid, sel, scroll_offset, row);
        result.append(&mut line);
    }
    crate::text::string_of(&result)
}

/// What is copied of cells in one row is their characters in order, with blanks for cells without
/// one, and without the blanks at the end.
pub proof fn one_row_is_copied(grid: GridModel, row: usize, from: usize, to: usize, i: int)
    requires
        row < grid.lines.len(),
        from <= to < grid.lines[row as int].len(),
        to < usize::MAX,
        grid.lines[row as int][to as int].ch != ' ',
        grid.lines[row as int][to as int].ch != '\0',
        from <= i <= to,
    ensures
        ({
            let sel = Selection { start_row: row, start_col: from, end_row: row, end_col: to };
            let text = selected_text(grid, sel, 0);
            let ch = grid.lines[row as int][i].ch;
            &&& text.len() == to - from + 1
            &&& ch != '\0' ==> text[i - from] == ch
            &&& ch == '\0' ==> text[i - from] == ' '
        }),
{
    let sel = Selection { start_row: row, start_col: from, end_row: row, end_col: to };
    let shown = grid.history.skip(grid.history.len() as int) + grid.lines;
    assert(shown =~= grid.lines);
    let part = line_part(grid.viewport_line(row as int, 0), from as int, to + 1);
    assert(part.last() != ' ');
    assert(without_spaces(part) == part);
    assert(copied_rows(grid, sel, 0, 1) == copied_row(grid, sel, 0, row as int));
}

/// A selection of several rows is copied from its first cell to the end of the first row, and so
/// on to its last cell, with a line break between every two rows.
pub proof fn rows_are_copied_one_after_another(grid: GridModel, sel: Selection, offset: nat)
    requires
        sel.start_row < sel.end_row,
        sel.start_col < grid.cols <= usize::MAX,
    ensures
        selected_text(grid, sel, offset) == selected_text(
            grid,
            Selection {
                end_row: (sel.end_row - 1) as usize,
                end_col: (grid.cols - 1) as usize,
                ..sel
            },
            offset,
        ).push('\n') + selected_text(
            grid,
            Selection { start_row: sel.end_row, start_col: 0, ..sel },
            offset,
        ),
{
    let upper = Selection {
        end_row: (sel.end_row - 1) as usize,
        end_col: (grid.cols - 1) as usize,
        ..sel
    };
    let last = Selection { start_row: sel.end_row, start_col: 0, ..sel };
    let count = (sel.end_row - sel.start_row + 1) as nat;
    upper_rows(grid, sel, upper, offset, (count - 1) as nat);
    assert(copied_rows(grid, last, offset, 1) == copied_row(
        grid,
        last,
        offset,
        sel.end_row as int,
    ));
    assert(copied_row(grid, last, offset, sel.end_row as int) == copied_row(
        grid,
        sel,
        offset,
        sel.end_row as int,
    ));
}

proof fn upper_rows(grid: GridModel, sel: Selection, upper: Selection, offset: nat, count: nat)
    requires
        sel.start_row < sel.end_row,
        upper.start_row == sel.start_row,
        upper.start_col == sel.start_col,
        upper.end_row == sel.end_row - 1,
        upper.end_col == grid.cols - 1,
        upper.forward(),
        0 < grid.cols,
        count <= sel.end_row - sel.start_row,
    ensures
        copied_rows(grid, sel, offset, count) == copied_rows(grid, upper, offset, count),
    decreases count,
{
    if count > 0 {
        upper_rows(grid, sel, upper, offset, (count - 1) as nat);
        let row = sel.start_row + count - 1;
        assert(copied_row(grid, sel, offset, row) == copied_row(grid, upper, offset, row));
    }
}

/// A selection covers the cells from its start to its end in reading order: in one row those
/// between the two columns; in several rows the first row from its start on, the rows between as a
/// whole, and the last row up to its end.
pub proof fn selections_run_in_reading_order(s: Selection, row: int, col: int)
    requires
        s.start_row < s.end_row || (s.start_row == s.end_row && s.start_col <= s.end_col),
    ensures
        s.start_row == s.end_row ==> (s.covers(row, col) <==> row == s.start_row && s.start_col
            <= col <= s.end_col),
        s.start_row < s.end_row && row == s.start_row ==> (s.covers(row, col) <==> s.start_col
            <= col),
        s.start_row < row < s.end_row ==> s.covers(row, col),
        s.start_row < s.end_row && row == s.end_row ==> (s.covers(row, col) <==> col <= s.end_col),
        row < s.start_row || row > s.end_row ==> !s.covers(row, col),
{
}

/// Blanks at the end of a row are not copied: the text ends with the last cell that shows something.
pub proof fn trailing_blanks_are_not_copied(
    grid: GridModel,
    row: usize,
    from: usize,
    last: usize,
    to: usize,
)
    requires
        row < grid.lines.len(),
        from <= last <= to < grid.lines[row as int].len(),
        to < usize::MAX,
        grid.lines[row as int][last as int].ch != ' ',
        grid.lines[row as int][last as int].ch != '\0',
        forall|i: int|
            last < i <= to ==> (#[trigger] grid.lines[row as int][i]).ch == ' '
                || grid.lines[row as int][i].ch == '\0',
    ensures
        selected_text(
            grid,
            Selection { start_row: row, start_col: from, end_row: row, end_col: to },
            0,
        ) == selected_text(
            grid,
            Selection { start_row: row, start_col: from, end_row: row, end_col: last },
            0,
        ),
        selected_text(
            grid,
            Selection { start_row: row, start_col: from, end_row: row, end_col: to },
            0,
        ).len() == last - from + 1,
{
    let sel = Selection { start_row: row, start_col: from, end_row: row, end_col: to };
    let short = Selection { end_col: last, ..sel };
    let shown = grid.history.skip(grid.history.len() as int) + grid.lines;
    assert(shown =~= grid.lines);
    let line = grid.viewport_line(row as int, 0);
    let part = line_part(line, from as int, to + 1);
    let front = line_part(line, from as int, last + 1);
    let blanks = part.skip(front.len() as int);
    assert(part =~= front + blanks);
    spaces_go(front, blanks);
    spaces_go(front, Seq::empty());
    assert(front + Seq::<char>::empty() =~= front);
    assert(copied_rows(grid, sel, 0, 1) == copied_row(grid, sel, 0, row as int));
    assert(copied_rows(grid, short, 0, 1) == copied_row(grid, short, 0, row as int));
}

proof fn spaces_go(front: Seq<char>, blanks: Seq<char>)
    requires
        front.len() > 0,
        front.last() != ' ',
        forall|i: int| 0 <= i < blanks.len() ==> #[trigger] blanks[i] == ' ',
    ensures
        without_spaces(front + blanks) == front,
    decreases blanks.len(),
{
    if blanks.len() > 0 {
        assert((front + blanks).drop_last() =~= front + blanks.drop_last());
        spaces_go(front, blanks.drop_last());
    } else {
        assert(front + blanks =~= front);
    }
}

} // verus!
