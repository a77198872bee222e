use vstd::prelude::*;

use crate::grid::cell::{Cell, Color};
use crate::grid::row::Row;

verus! {

/// Text broken into lines: those that are complete, and the one in progress.
#[verifier::ext_equal]
pub struct Broken {
    pub complete: Seq<Seq<char>>,
    pub open: Seq<char>,
}

/// Text broken at newlines, and wherever a line has `cols` characters and another one follows.
pub open spec fn broken(text: Seq<char>, cols: nat) -> Broken
    decreases text.len(),
{
    if text.len() == 0 {
        Broken { complete: Seq::empty(), open: Seq::empty() }
    } else {
        let before = broken(text.drop_last(), cols);
        let ch = text.last();
        if ch == '\n' {
            Broken { complete: before.complete.push(before.open), open: Seq::empty() }
        } else if before.open.len() >= cols {
            Broken { complete: before.complete.push(before.open), open: seq![ch] }
        } else {
            Broken { open: before.open.push(ch), ..before }
        }
    }
}

/// The lines of a text; the last one counts only where it has content.
pub open spec fn text_lines(text: Seq<char>, cols: nat) -> Seq<Seq<char>> {
    let b = broken(text, cols);
    if cols == 0 {
        Seq::empty()
    } else if b.open.len() > 0 {
        b.complete.push(b.open)
    } else {
        b.complete
    }
}

/// The cells that show a line of text in a row of `cols` cells.
pub open spec fn text_cells(line: Seq<char>, cols: nat) -> Seq<Cell> {
    Seq::new(
        cols,
        |i: int|
            if i < line.len() {
                Cell::plain(line[i])
            } else {
                Cell::empty()
            },
    )
}

/// Whether rows show the given lines of text.
pub open spec fn shows(rows: Seq<Row>, lines: Seq<Seq<char>>, cols: nat) -> bool {
    &&& rows.len() == lines.len()
    &&& forall|i: int| 0 <= i < rows.len() ==> (#[trigger] rows[i])@ == text_cells(lines[i], cols)
}

/// The characters of lines, one after the other.
pub open spec fn all_chars(lines: Seq<Seq<char>>) -> Seq<char>
    decreases lines.len(),
{
    if lines.len() == 0 {
        Seq::empty()
    } else {
        all_chars(lines.drop_last()) + lines.last()
    }
}

/// A text without its newlines.
pub open spec fn without_newlines(text: Seq<char>) -> Seq<char>
    decreases text.len(),
{
    if text.len() == 0 {
        Seq::empty()
    } else if text.last() == '\n' {
        without_newlines(text.drop_last())
    } else {
        without_newlines(text.drop_last()).push(text.last())
    }
}

proof fn breaking_conserves_text(text: Seq<char>, cols: nat)
    ensures
        all_chars(broken(text, cols).complete) + broken(text, cols).open == without_newlines(text),
    decreases text.len(),
{
    if text.len() == 0 {
        assert(all_chars(Seq::empty()) + Seq::<char>::empty() =~= Seq::empty());
    } else {
        breaking_conserves_text(text.drop_last(), cols);
        let before = broken(text.drop_last(), cols);
        let pushed = before.complete.push(before.open);
        assert(pushed.drop_last() =~= before.complete);
        assert(all_chars(broken(text, cols).complete) + broken(text, cols).open
            =~= without_newlines(text));
    }
}

/// Every character but the newlines is shown, in order.
pub proof fn rendering_conserves_text(text: Seq<char>, cols: nat)
    requires
        cols > 0,
    ensures
        all_chars(text_lines(text, cols)) == without_newlines(text),
{
    breaking_conserves_text(text, cols);
    let b = broken(text, cols);
    if b.open.len() > 0 {
        assert(b.complete.push(b.open).drop_last() =~= b.complete);
    } else {
        assert(b.complete =~= text_lines(text, cols));
        assert(all_chars(b.complete) + b.open =~= all_chars(b.complete));
    }
}

/// No line is longer than the row that shows it.
pub proof fn lines_fit(text: Seq<char>, cols: nat)
    requires
        cols > 0,
    ensures
        broken(text, cols).open.len() <= cols,
        forall|i: int|
            0 <= i < text_lines(text, cols).len() ==> (#[trigger] text_lines(text, cols)[i]).len()
                <= cols,
    decreases text.len(),
{
    if text.len() > 0 {
        lines_fit(text.drop_last(), cols);
        let before = broken(text.drop_last(), cols);
        assert forall|i: int| 0 <= i < before.complete.len() implies (
        #[trigger] before.complete[i]).len() <= cols by {
            assert(text_lines(text.drop_last(), cols)[i] == before.complete[i]);
        }
    }
}

/// Converts text output to grid rows.
pub struct SessionRenderer;

impl SessionRenderer {
    /// Render a text string into rows of cells, wrapping at column boundaries.
    pub fn render_text(text: &str, cols: usize) -> (rows: Vec<Row>)
        ensures
            shows(rows@, text_lines(text@, cols as nat), cols as nat),
    {
        if cols == 0 {
            return Vec::new();
        }
        let mut rows: Vec<Row> = Vec::new();
        let mut current_row = Row::new(cols);
        let mut col: usize = 0;
        assert(current_row@ =~= text_cells(Seq::empty(), cols as nat));
        assert(text@.take(0) =~= Seq::empty());
        for ch in it: text.chars()
            invariant
                it.seq() == text@,
                0 < cols,
                col <= cols,
                col == broken(text@.take(it.index() as int), cols as nat).open.len(),
                shows(
                    rows@,
                    broken(text@.take(it.index() as int), cols as nat).complete,
                    cols as nat,
                ),
                current_row@ == text_cells(
                    broken(text@.take(it.index() as int), cols as nat).open,
                    cols as nat,
                ),
        {
            let ghost upto = text@.take(it.index() + 1);
            assert(upto.drop_last() =~= text@.take(it.index() as int));
            assert(upto.last() == ch);
            if ch == '\n' {
                rows.push(current_row);
                current_row = Row::new(cols);
                col = 0;
                assert(current_row@ =~= text_cells(Seq::empty(), cols as nat));
            } else {
                if col >= cols {
                    rows.push(current_row);
                    current_row = Row::new(cols);
                    col = 0;
                }
                if let Some(cell) = current_row.get_mut(col) {
                    *cell = Cell::with_char(ch);
                }
                col = col + 1;
                assert(current_row@ =~= text_cells(
                    broken(upto, cols as nat).open,
                    cols as nat,
                ));
            }
        }
        assert(text@.take(text@.len() as int) =~= text@);
        if col > 0 {
            rows.push(current_row);
        }
        rows
    }
}

/// Without line breaks in it a text fills its lines one after another: the first `cols` characters
/// stand in the first line, and so on, so that only the last line may be shorter.
pub proof fn long_texts_fill_their_lines(text: Seq<char>, cols: nat, i: int)
    requires
        cols > 0,
        forall|k: int| 0 <= k < text.len() ==> #[trigger] text[k] != '\n',
        0 <= i < text.len(),
    ensures
        0 <= i / (cols as int) < text_lines(text, cols).len(),
        i % (cols as int) < text_lines(text, cols)[i / (cols as int)].len(),
        text_lines(text, cols)[i / (cols as int)][i % (cols as int)] == text[i],
        forall|k: int|
            0 <= k < text_lines(text, cols).len() - 1 ==> (#[trigger] text_lines(
                text,
                cols,
            )[k]).len() == cols,
{
    full_lines(text, cols);
    let b = broken(text, cols);
    let k = b.complete.len() as int;
    let c = cols as int;
    assert(i / c <= k && (i / c == k ==> i % c == i - k * c && i - k * c < b.open.len()))
        by (nonlinear_arith)
        requires
            c > 0,
            k >= 0,
            0 <= i < k * c + b.open.len(),
            b.open.len() <= c,
    ;
    assert(i / c < k ==> (i / c) * c + i % c == i && 0 <= i % c < c) by (nonlinear_arith)
        requires
            c > 0,
    ;
    assert(0 <= i / c) by (nonlinear_arith)
        requires
            c > 0,
            i >= 0,
    ;
}

proof fn full_lines(text: Seq<char>, cols: nat)
    requires
        cols > 0,
        forall|k: int| 0 <= k < text.len() ==> #[trigger] text[k] != '\n',
    ensures
        ({
            let b = broken(text, cols);
            &&& b.open.len() <= cols
            &&& text.len() > 0 ==> b.open.len() > 0
            &&& text.len() == b.complete.len() * cols + b.open.len()
            &&& forall|k: int| 0 <= k < b.complete.len() ==> (#[trigger] b.complete[k]).len() == cols
            &&& forall|k: int, j: int|
                #![trigger b.complete[k][j]]
                0 <= k < b.complete.len() && 0 <= j < cols ==> b.complete[k][j] == text[k * cols + j]
            &&& forall|j: int|
                0 <= j < b.open.len() ==> #[trigger] b.open[j] == text[b.complete.len() * cols + j]
        }),
    decreases text.len(),
{
    if text.len() > 0 {
        let before = broken(text.drop_last(), cols);
        full_lines(text.drop_last(), cols);
        let b = broken(text, cols);
        assert((before.complete.len() + 1) * cols == before.complete.len() * cols + cols)
            by (nonlinear_arith);
        assert forall|k: int, j: int|
            #![trigger b.complete[k][j]]
            0 <= k < b.complete.len() && 0 <= j < cols implies b.complete[k][j] == text[k * cols
            + j] by {
            if k < before.complete.len() {
                assert(b.complete[k] == before.complete[k]);
                assert(before.complete[k][j] == text.drop_last()[k * cols + j]);
                assert(k * cols + j < before.complete.len() * cols) by (nonlinear_arith)
                    requires
                        0 <= k < before.complete.len(),
                        0 <= j < cols,
                ;
            } else {
                assert(b.complete[k] == before.open);
                assert(before.open[j] == text.drop_last()[before.complete.len() * cols + j]);
            }
        }
        assert forall|j: int| 0 <= j < b.open.len() implies #[trigger] b.open[j]
            == text[b.complete.len() * cols + j] by {
            if before.open.len() < cols && j < before.open.len() {
                assert(before.open[j] == text.drop_last()[before.complete.len() * cols + j]);
            }
        }
    }
}

/// A line break ends a line, whatever stands in it; the line after it is broken for itself.
pub proof fn line_breaks_end_lines(text: Seq<char>, cols: nat)
    requires
        cols > 0,
        text.len() > 0 ==> text.last() != '\n',
        text.len() > 0,
    ensures
        text_lines(text.push('\n'), cols) == text_lines(text, cols),
        text_lines(text.push('\n').push('\n'), cols) == text_lines(text, cols).push(Seq::empty()),
{
    let ended = text.push('\n');
    assert(ended.drop_last() =~= text);
    assert(ended.push('\n').drop_last() =~= ended);
    assert(broken(ended, cols).open =~= Seq::empty());
    open_after_a_character(text, cols);
}

proof fn open_after_a_character(text: Seq<char>, cols: nat)
    requires
        text.len() > 0,
        text.last() != '\n',
    ensures
        broken(text, cols).open.len() > 0,
{
}

/// A row of text shows the characters of its line in order, in plain style, and blanks behind them.
pub proof fn rows_show_their_line(line: Seq<char>, cols: nat, i: int)
    requires
        0 <= i < cols,
    ensures
        text_cells(line, cols).len() == cols,
        i < line.len() ==> text_cells(line, cols)[i].ch == line[i],
        i >= line.len() ==> text_cells(line, cols)[i].ch == ' ',
        text_cells(line, cols)[i].fg == Color::Default,
        text_cells(line, cols)[i].bg == Color::Default,
        !text_cells(line, cols)[i].flags.bold && !text_cells(line, cols)[i].flags.inverse,
{
}

} // verus!
