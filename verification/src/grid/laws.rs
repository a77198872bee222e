//! What holds of every operation on the grid.

use vstd::prelude::*;

use super::row::{blanked, fitted, room, with_deleted, with_inserted};
use super::storage::{blank_lines, fitted_lines, newest, GridModel, Line};
use crate::grid::cell::Cell;

verus! {

/// Scrolling keeps the number of lines, the width of the grid and the width of uniform lines, and
/// the history within its limit.
pub proof fn scrolling_keeps_the_shape(grid: GridModel, top: int, bottom: int, count: nat)
    ensures
        grid.scrolled_up(top, bottom, count).lines.len() == grid.lines.len(),
        grid.scrolled_down(top, bottom, count).lines.len() == grid.lines.len(),
        grid.scrolled_up(top, bottom, count).cols == grid.cols,
        grid.scrolled_down(top, bottom, count).cols == grid.cols,
        grid.uniform() ==> grid.scrolled_up(top, bottom, count).uniform(),
        grid.uniform() ==> grid.scrolled_down(top, bottom, count).uniform(),
        grid.bounded() ==> grid.scrolled_up(top, bottom, count).bounded(),
        grid.bounded() ==> grid.scrolled_down(top, bottom, count).bounded(),
{
}

/// Scrolling touches no line outside its region.
pub proof fn scrolling_stays_in_its_region(
    grid: GridModel,
    top: int,
    bottom: int,
    count: nat,
    row: int,
)
    requires
        0 <= row < grid.lines.len(),
        row < top || row >= bottom,
    ensures
        grid.scrolled_up(top, bottom, count).lines[row] == grid.lines[row],
        grid.scrolled_down(top, bottom, count).lines[row] == grid.lines[row],
{
}

/// Scrolling the whole screen up loses no line: the history followed by the screen is what it was,
/// followed by the blank lines that came in, and only the oldest lines beyond the limit are gone.
pub proof fn scrolling_up_conserves_lines(grid: GridModel, count: nat)
    requires
        grid.bounded(),
        !grid.suppress,
        0 < count <= grid.lines.len(),
    ensures
        ({
            let after = grid.scrolled_up(0, grid.lines.len() as int, count);
            let all = grid.history + grid.lines + blank_lines(count, grid.cols);
            after.history + after.lines == newest(
                all,
                after.history.len() + after.lines.len(),
            ) && after.history.len() == (if grid.history.len() + count <= grid.limit {
                grid.history.len() + count
            } else {
                grid.limit
            })
        }),
{
    let after = grid.scrolled_up(0, grid.lines.len() as int, count);
    let all = grid.history + grid.lines + blank_lines(count, grid.cols);
    assert(after.history + after.lines =~= newest(all, after.history.len() + after.lines.len()));
}

/// Lines that a resize pushes off the screen go to the history, in order.
pub proof fn resizing_conserves_lines(grid: GridModel, rows: nat, cols: nat)
    requires
        grid.bounded(),
        rows <= grid.lines.len(),
        grid.history.len() + grid.lines.len() - rows <= grid.limit,
    ensures
        grid.resized(rows, cols).history + grid.resized(rows, cols).lines == grid.history
            + fitted_lines(grid.lines, cols),
{
    assert(grid.resized(rows, cols).history + grid.resized(rows, cols).lines =~= grid.history
        + fitted_lines(grid.lines, cols));
}

/// A resize gives the wanted shape, and keeps the history within its limit.
pub proof fn resizing_gives_the_shape(grid: GridModel, rows: nat, cols: nat)
    ensures
        grid.resized(rows, cols).lines.len() == rows,
        grid.resized(rows, cols).cols == cols,
        grid.resized(rows, cols).uniform(),
        grid.bounded() ==> grid.resized(rows, cols).bounded(),
{
}

/// A resize to the size that a uniform grid has changes nothing.
pub proof fn resizing_to_the_same_size_changes_nothing(grid: GridModel)
    requires
        grid.uniform(),
        grid.bounded(),
    ensures
        grid.resized(grid.lines.len(), grid.cols) == grid,
{
    let after = grid.resized(grid.lines.len(), grid.cols);
    assert forall|i: int| 0 <= i < grid.lines.len() implies #[trigger] after.lines[i]
        == grid.lines[i] by {
        assert(grid.lines[i].len() == grid.cols);
        assert(fitted(grid.lines[i], grid.cols) =~= grid.lines[i]);
    }
    assert(after.lines =~= grid.lines);
    assert(after.history =~= grid.history);
}

/// Without a scroll offset the view shows the live screen.
pub proof fn no_offset_shows_the_screen(grid: GridModel, row: int, col: int)
    ensures
        grid.cell_scrolled(row, col, 0) == grid.cell(row, col),
{
    assert(grid.history.skip(grid.history.len() as int) + grid.lines =~= grid.lines);
}

/// Shifting the view one line further moves every line down by one.
pub proof fn one_more_offset_shows_one_line_earlier(
    grid: GridModel,
    row: int,
    col: int,
    offset: nat,
)
    requires
        offset < grid.history.len(),
        0 <= row,
    ensures
        grid.cell_scrolled(row + 1, col, offset + 1) == grid.cell_scrolled(row, col, offset),
{
    let h = grid.history;
    let further = h.skip(h.len() - offset - 1) + grid.lines;
    let shown = h.skip(h.len() - offset) + grid.lines;
    assert(further.skip(1) =~= shown);
    if row < shown.len() {
        assert(further[row + 1] == further.skip(1)[row]);
    }
}

/// Deleting as many cells as were inserted restores the row, but for the cells pushed past its
/// end.
pub proof fn deleting_undoes_inserting(cells: Seq<Cell>, col: int, count: nat)
    requires
        0 <= col,
    ensures
        with_deleted(with_inserted(cells, col, count), col, count) == blanked(
            cells,
            cells.len() - room(cells, col, count),
            cells.len() as int,
        ),
{
    assert(with_deleted(with_inserted(cells, col, count), col, count) =~= blanked(
        cells,
        cells.len() - room(cells, col, count),
        cells.len() as int,
    ));
}

/// Clearing leaves only empty cells, and keeps the shape.
pub proof fn clearing_leaves_blanks(grid: GridModel, row: int, col: int)
    ensures
        grid.all_cleared().lines.len() == grid.lines.len(),
        grid.cell(row, col) is Some ==> grid.all_cleared().cell(row, col) == Some(Cell::empty()),
        grid.cell(row, col) is None ==> grid.all_cleared().cell(row, col) is None,
        grid.all_cleared().history == grid.history,
{
}

/// The history holds the newest lines that scrolled off, oldest first, up to its limit.
pub proof fn the_history_keeps_the_newest_lines(lines: Seq<Line>, limit: nat, i: int)
    requires
        0 <= i < newest(lines, limit).len(),
    ensures
        newest(lines, limit).len() == if lines.len() < limit {
            lines.len()
        } else {
            limit
        },
        newest(lines, limit)[i] == lines[lines.len() - newest(lines, limit).len() + i],
{
}

/// A line that scrolls off the top of the whole screen is the newest of the history, unless lines
/// are forgotten; the lines below move up, and the last one is blank. Where the region begins
/// below the top, or lines are forgotten, or lines move down, the history stays.
pub proof fn the_top_line_goes_to_the_history(grid: GridModel, top: int, i: int)
    requires
        grid.lines.len() > 0,
        grid.limit > 0,
        0 <= top < grid.lines.len(),
        top <= i < grid.lines.len(),
    ensures
        ({
            let len = grid.lines.len() as int;
            let up = grid.scrolled_up(top, len, 1);
            let down = grid.scrolled_down(top, len, 1);
            &&& top == 0 && !grid.suppress ==> up.history.len() > 0 && up.history.last()
                == grid.lines[0]
            &&& top > 0 || grid.suppress ==> up.history == grid.history
            &&& down.history == grid.history
            &&& i + 1 < len ==> up.lines[i] == grid.lines[i + 1]
            &&& i + 1 < len ==> down.lines[i + 1] == grid.lines[i]
            &&& forall|col: int|
                0 <= col < up.lines[len - 1].len() ==> (#[trigger] up.lines[len - 1][col]).ch == ' '
            &&& forall|col: int|
                0 <= col < down.lines[top].len() ==> (#[trigger] down.lines[top][col]).ch == ' '
        }),
{
    let all = grid.history + grid.lines.take(1);
    assert(all.last() == grid.lines[0]);
}

} // verus!
