//! What the control functions of a terminal mean: where the cursor goes, which cells change and
//! how, and how the functions relate to each other.

use vstd::prelude::*;

use super::model::{ActionModel, ParamLists, ScreenModel};
use super::state::MouseMode;
use crate::gpu::frame::{named_index, resolved, Paint};
use crate::grid::cell::{Cell, CellFlags, Color};
use crate::grid::storage::GridModel;

verus! {

/// A control sequence without intermediate bytes.
pub open spec fn control(params: ParamLists, action: char) -> ActionModel {
    ActionModel::Csi { params, intermediates: Seq::empty(), action }
}

/// A control sequence with one parameter.
pub open spec fn control1(n: u16, action: char) -> ActionModel {
    control(seq![seq![n]], action)
}

/// A control sequence with two parameters.
pub open spec fn control2(a: u16, b: u16, action: char) -> ActionModel {
    control(seq![seq![a], seq![b]], action)
}

impl ScreenModel {
    /// Whether another screen differs in nothing but where the cursor stands and whether a wrap is
    /// pending.
    pub open spec fn only_moved(self, after: ScreenModel) -> bool {
        &&& after.grid == self.grid
        &&& after.dirty == self.dirty
        &&& after.term.cursor.visible == self.term.cursor.visible
        &&& after.term == (super::state::TerminalModel {
            cursor: after.term.cursor,
            pending_wrap: after.term.pending_wrap,
            ..self.term
        })
    }
}

proof fn is_a_movement(s: ScreenModel, n: u16, action: char)
    requires
        n > 0,
        action == 'A' || action == 'B' || action == 'C' || action == 'D' || action == 'G' || action
            == 'd',
    ensures
        s.after(control1(n, action)) == s.cursor_moved(n, action),
{
    reveal(ScreenModel::after);
}

/// `CSI n A`, `B`, `C` and `D` move the cursor `n` cells up, down, right and left, and stop at the
/// edges of the screen. They change nothing else but to forget a pending wrap.
pub proof fn the_cursor_moves_by_its_count(s: ScreenModel, n: u16)
    requires
        s.consistent(),
        n > 0,
    ensures
        ({
            let c = s.term.cursor;
            let up = s.after(control1(n, 'A'));
            let down = s.after(control1(n, 'B'));
            let right = s.after(control1(n, 'C'));
            let left = s.after(control1(n, 'D'));
            &&& s.only_moved(up) && s.only_moved(down) && s.only_moved(right) && s.only_moved(left)
            &&& !up.term.pending_wrap && !down.term.pending_wrap
            &&& !right.term.pending_wrap && !left.term.pending_wrap
            &&& up.term.cursor.col == c.col && down.term.cursor.col == c.col
            &&& right.term.cursor.row == c.row && left.term.cursor.row == c.row
            &&& up.term.cursor.row + n == c.row || (n > c.row && up.term.cursor.row == 0)
            &&& down.term.cursor.row == c.row + n || (c.row + n >= s.grid.lines.len()
                && down.term.cursor.row == s.grid.lines.len() - 1)
            &&& left.term.cursor.col + n == c.col || (n > c.col && left.term.cursor.col == 0)
            &&& right.term.cursor.col == c.col + n || (c.col + n >= s.grid.cols
                && right.term.cursor.col == s.grid.cols - 1)
        }),
{
    reveal(ScreenModel::after);
}

/// A movement and its opposite bring the cursor back, unless the first one met an edge.
pub proof fn opposite_movements_cancel_out(s: ScreenModel, n: u16)
    requires
        s.consistent(),
        n > 0,
        !s.term.pending_wrap,
    ensures
        n <= s.term.cursor.row ==> s.after(control1(n, 'A')).after(control1(n, 'B')) == s,
        s.term.cursor.row + n < s.grid.lines.len() ==> s.after(control1(n, 'B')).after(
            control1(n, 'A'),
        ) == s,
        n <= s.term.cursor.col ==> s.after(control1(n, 'D')).after(control1(n, 'C')) == s,
        s.term.cursor.col + n < s.grid.cols ==> s.after(control1(n, 'C')).after(control1(n, 'D'))
            == s,
{
    is_a_movement(s, n, 'A');
    is_a_movement(s, n, 'B');
    is_a_movement(s, n, 'C');
    is_a_movement(s, n, 'D');
    is_a_movement(s.cursor_moved(n, 'A'), n, 'B');
    is_a_movement(s.cursor_moved(n, 'B'), n, 'A');
    is_a_movement(s.cursor_moved(n, 'D'), n, 'C');
    is_a_movement(s.cursor_moved(n, 'C'), n, 'D');
}

/// A count that is left out or 0 counts as 1.
pub proof fn a_missing_count_is_one(s: ScreenModel, action: char)
    requires
        action == 'A' || action == 'B' || action == 'C' || action == 'D' || action == 'G'
            || action == 'd' || action == 'L' || action == 'M' || action == 'S' || action == 'T'
            || action == '@' || action == 'P' || action == 'X' || action == 'H' || action == 'f',
    ensures
        s.after(control(Seq::empty(), action)) == s.after(control1(1, action)),
        s.after(control1(0, action)) == s.after(control1(1, action)),
        s.after(control2(0, 0, 'H')) == s.after(control2(1, 1, 'H')),
{
    reveal(ScreenModel::after);
}

/// `CSI r ; c H` puts the cursor on row `r` and column `c`, counted from 1 at the top left, and
/// stops at the edges of the screen. `CSI r d` and `CSI c G` set one of the two alone.
pub proof fn positions_are_counted_from_one(s: ScreenModel, r: u16, c: u16)
    requires
        s.consistent(),
        r > 0,
        c > 0,
        !s.term.origin_mode,
    ensures
        ({
            let put = s.after(control2(r, c, 'H'));
            &&& s.only_moved(put)
            &&& !put.term.pending_wrap
            &&& put.term.cursor.row + 1 == (if r <= s.grid.lines.len() {
                r as int
            } else {
                s.grid.lines.len() as int
            })
            &&& put.term.cursor.col + 1 == (if c <= s.grid.cols {
                c as int
            } else {
                s.grid.cols as int
            })
            &&& s.after(control1(r, 'd')).after(control1(c, 'G')) == put
            &&& s.after(control1(c, 'G')).after(control1(r, 'd')) == put
            &&& s.after(control1(r, 'd')).term.cursor.col == s.term.cursor.col
            &&& s.after(control1(c, 'G')).term.cursor.row == s.term.cursor.row
            &&& s.after(control2(r, c, 'f')) == put
        }),
{
    is_a_movement(s, r, 'd');
    is_a_movement(s, c, 'G');
    is_a_movement(s.cursor_moved(r, 'd'), c, 'G');
    is_a_movement(s.cursor_moved(c, 'G'), r, 'd');
    is_a_position(s, r, c, 'H');
    is_a_position(s, r, c, 'f');
}

proof fn is_a_position(s: ScreenModel, r: u16, c: u16, action: char)
    requires
        action == 'H' || action == 'f',
    ensures
        s.after(control2(r, c, action)) == s.cursor_position(seq![seq![r], seq![c]]),
{
    reveal(ScreenModel::after);
}

/// In origin mode rows are counted from the top of the scroll region, and the cursor does not
/// leave it.
pub proof fn origin_mode_counts_from_the_region(s: ScreenModel, r: u16, c: u16)
    requires
        s.consistent(),
        r > 0,
        0 < c <= s.grid.cols,
        s.term.origin_mode,
    ensures
        ({
            let put = s.after(control2(r, c, 'H')).term.cursor;
            let (top, bottom) = s.term.scroll_region;
            &&& put.col + 1 == c
            &&& top <= put.row < bottom
            &&& top + r <= bottom ==> put.row + 1 == top + r
            &&& top + r > bottom ==> put.row + 1 == bottom
        }),
{
    reveal(ScreenModel::after);
}

/// Whether a cell shows nothing: a space in the default colours, without any attribute.
pub open spec fn is_blank(cell: Option<Cell>) -> bool {
    match cell {
        Some(c) => {
            &&& c.ch == ' '
            &&& c.fg == Color::Default
            &&& c.bg == Color::Default
            &&& !c.flags.bold && !c.flags.dim && !c.flags.italic && !c.flags.underline
            &&& !c.flags.inverse && !c.flags.hidden && !c.flags.strikethrough
        },
        None => false,
    }
}

/// Whether a position comes before another one in reading order.
pub open spec fn reads_before(r: int, c: int, row: int, col: int) -> bool {
    r < row || (r == row && c < col)
}

/// `CSI 0 J` blanks the cursor's cell and all after it in reading order, `CSI 1 J` the cursor's
/// cell and all before it, `CSI 2 J` and `CSI 3 J` the whole screen. All other cells, the cursor
/// and the history stay.
pub proof fn the_display_is_erased_from_the_cursor(s: ScreenModel, r: int, c: int)
    requires
        s.consistent(),
        0 <= r < s.grid.lines.len(),
        0 <= c < s.grid.cols,
    ensures
        ({
            let below = s.after(control1(0, 'J'));
            let above = s.after(control1(1, 'J'));
            let row = s.term.cursor.row as int;
            let col = s.term.cursor.col as int;
            &&& reads_before(r, c, row, col) ==> below.grid.cell(r, c) == s.grid.cell(r, c)
            &&& !reads_before(r, c, row, col) ==> is_blank(below.grid.cell(r, c))
            &&& reads_before(row, col, r, c) ==> above.grid.cell(r, c) == s.grid.cell(r, c)
            &&& !reads_before(row, col, r, c) ==> is_blank(above.grid.cell(r, c))
            &&& is_blank(s.after(control1(2, 'J')).grid.cell(r, c))
            &&& is_blank(s.after(control1(3, 'J')).grid.cell(r, c))
            &&& below.term == s.term && above.term == s.term
            &&& s.after(control1(2, 'J')).term == s.term
            &&& below.grid.history == s.grid.history && above.grid.history == s.grid.history
            &&& s.after(control1(2, 'J')).grid.history == s.grid.history
            &&& s.after(control(Seq::empty(), 'J')) == below
        }),
{
    assert(s.grid.lines[r].len() == s.grid.cols);
    assert(s.grid.lines[s.term.cursor.row as int].len() == s.grid.cols);
    is_an_erasure(s, 0);
    is_an_erasure(s, 1);
    is_an_erasure(s, 2);
    is_an_erasure(s, 3);
}

proof fn is_an_erasure(s: ScreenModel, mode: u16)
    ensures
        s.after(control1(mode, 'J')) == s.erase_display(mode),
        s.after(control(Seq::empty(), 'J')) == s.erase_display(0),
{
    reveal(ScreenModel::after);
}

/// `CSI 0 K`, `1 K` and `2 K` blank the cursor's line from the cursor on, up to the cursor, and
/// all of it. No other line changes.
pub proof fn a_line_is_erased_from_the_cursor(s: ScreenModel, r: int, c: int)
    requires
        s.consistent(),
        0 <= r < s.grid.lines.len(),
        0 <= c < s.grid.cols,
    ensures
        ({
            let right = s.after(control1(0, 'K'));
            let left = s.after(control1(1, 'K'));
            let whole = s.after(control1(2, 'K'));
            let row = s.term.cursor.row;
            let col = s.term.cursor.col;
            &&& r == row && c >= col ==> is_blank(right.grid.cell(r, c))
            &&& r != row || c < col ==> right.grid.cell(r, c) == s.grid.cell(r, c)
            &&& r == row && c <= col ==> is_blank(left.grid.cell(r, c))
            &&& r != row || c > col ==> left.grid.cell(r, c) == s.grid.cell(r, c)
            &&& r == row ==> is_blank(whole.grid.cell(r, c))
            &&& r != row ==> whole.grid.cell(r, c) == s.grid.cell(r, c)
            &&& right.term == s.term && left.term == s.term && whole.term == s.term
            &&& s.after(control(Seq::empty(), 'K')) == right
        }),
{
    reveal(ScreenModel::after);
    assert(s.grid.lines[r].len() == s.grid.cols);
    assert(s.grid.lines[s.term.cursor.row as int].len() == s.grid.cols);
}

/// A printed character stands where the cursor was, in the colours and attributes that are set,
/// and the cursor goes on to the next column; at the last column it stays, and with autowrap the
/// next character wraps. In insert mode the rest of the line moves to the right; otherwise no
/// other cell changes.
pub proof fn a_character_is_printed_at_the_cursor(s: ScreenModel, ch: char, r: int, c: int)
    requires
        s.consistent(),
        !s.term.pending_wrap,
        0 <= r < s.grid.lines.len(),
        0 <= c < s.grid.cols,
    ensures
        ({
            let p = s.after(ActionModel::Print(ch));
            let row = s.term.cursor.row as int;
            let col = s.term.cursor.col as int;
            &&& p.grid.cell(row, col) == Some(
                Cell {
                    ch,
                    fg: s.term.attrs.0,
                    bg: s.term.attrs.1,
                    flags: s.term.attrs.2,
                },
            )
            &&& r != row || c < col ==> p.grid.cell(r, c) == s.grid.cell(r, c)
            &&& r == row && c > col ==> p.grid.cell(r, c) == (if s.term.insert_mode {
                s.grid.cell(r, c - 1)
            } else {
                s.grid.cell(r, c)
            })
            &&& p.grid.history == s.grid.history
            &&& p.term.cursor.row == row
            &&& p.term.cursor.visible == s.term.cursor.visible
            &&& p.term.attrs == s.term.attrs
            &&& col + 1 < s.grid.cols ==> p.term.cursor.col == col + 1 && !p.term.pending_wrap
            &&& col + 1 == s.grid.cols ==> p.term.cursor.col == col && p.term.pending_wrap
                == s.term.autowrap
        }),
{
    reveal(ScreenModel::after);
    assert(s.grid.lines[r].len() == s.grid.cols);
    assert(s.grid.lines[s.term.cursor.row as int].len() == s.grid.cols);
}

/// A character after a pending wrap is printed as at the beginning of the next line: a carriage
/// return and a line feed come first.
pub proof fn a_pending_wrap_comes_first(s: ScreenModel, ch: char)
    requires
        s.term.pending_wrap,
    ensures
        s.after(ActionModel::Print(ch)) == s.after(ActionModel::Execute(0x0d)).after(
            ActionModel::Execute(0x0a),
        ).after(ActionModel::Print(ch)),
        s.after(ActionModel::Execute(0x0d)).term.cursor.col == 0,
        s.only_moved(s.after(ActionModel::Execute(0x0d))),
        s.after(ActionModel::Execute(0x0d)).term.cursor.row == s.term.cursor.row,
{
    reveal(ScreenModel::after);
}

/// A line feed, as each of the three control characters gives it, moves the cursor down; on the
/// last line of the scroll region the region moves up by a line instead. A reverse index does the
/// opposite. Neither changes the column.
pub proof fn line_feeds_move_down_or_scroll(s: ScreenModel, byte: u8)
    requires
        s.consistent(),
        0x0a <= byte <= 0x0c,
    ensures
        ({
            let down = s.after(ActionModel::Execute(byte));
            let index = s.after(ActionModel::Esc { intermediates: Seq::empty(), byte: 0x44 });
            let up = s.after(ActionModel::Esc { intermediates: Seq::empty(), byte: 0x4d });
            let row = s.term.cursor.row;
            let (top, bottom) = s.term.scroll_region;
            &&& index == down
            &&& down.term.cursor.col == s.term.cursor.col
            &&& up.term.cursor.col == s.term.cursor.col
            &&& row + 1 < bottom ==> s.only_moved(down) && down.term.cursor.row == row + 1
            &&& row + 1 >= bottom ==> down.term == s.term && down.grid.lines == s.after(
                control1(1, 'S'),
            ).grid.lines
            &&& row > top ==> s.only_moved(up) && up.term.cursor.row == row - 1
            &&& row <= top ==> up.term == s.term && up.grid.lines == s.after(
                control1(1, 'T'),
            ).grid.lines
        }),
{
    reveal(ScreenModel::after);
}

/// `CSI n S` and `CSI n T` move the lines of the scroll region `n` lines up and down; blank lines
/// come in. `CSI n M` and `CSI n L` do the same from the cursor's line to the region's end.
pub proof fn lines_move_inside_the_region(s: ScreenModel, n: u16, r: int, c: int)
    requires
        s.consistent(),
        n > 0,
        0 <= r < s.grid.lines.len(),
        0 <= c < s.grid.cols,
    ensures
        ({
            let up = s.after(control1(n, 'S')).grid;
            let down = s.after(control1(n, 'T')).grid;
            let deleted = s.after(control1(n, 'M')).grid;
            let inserted = s.after(control1(n, 'L')).grid;
            let row = s.term.cursor.row;
            let (top, bottom) = s.term.scroll_region;
            &&& top <= r && r + n < bottom ==> up.cell(r, c) == s.grid.cell(r + n, c)
            &&& top <= r < bottom <= r + n ==> is_blank(up.cell(r, c))
            &&& top + n <= r < bottom ==> down.cell(r, c) == s.grid.cell(r - n, c)
            &&& top <= r < bottom && r < top + n ==> is_blank(down.cell(r, c))
            &&& r < top || r >= bottom ==> up.cell(r, c) == s.grid.cell(r, c) && down.cell(r, c)
                == s.grid.cell(r, c)
            &&& top <= row < bottom && row <= r && r + n < bottom ==> deleted.cell(r, c)
                == s.grid.cell(r + n, c)
            &&& top <= row < bottom && row <= r < bottom <= r + n ==> is_blank(deleted.cell(r, c))
            &&& top <= row < bottom && row + n <= r < bottom ==> inserted.cell(r, c)
                == s.grid.cell(r - n, c)
            &&& top <= row < bottom && row <= r < bottom && r < row + n ==> is_blank(
                inserted.cell(r, c),
            )
            &&& r < row || r >= bottom || row < top || row >= bottom ==> deleted.cell(r, c)
                == s.grid.cell(r, c) && inserted.cell(r, c) == s.grid.cell(r, c)
        }),
{
    let row = s.term.cursor.row as int;
    let top = s.term.scroll_region.0 as int;
    let bottom = s.term.scroll_region.1 as int;
    is_a_line_move(s, n, 'S');
    is_a_line_move(s, n, 'T');
    is_a_line_move(s, n, 'M');
    is_a_line_move(s, n, 'L');
    lines_shift(s.grid, top, bottom, n as nat, r, c);
    if top <= row < bottom {
        lines_shift(s.grid, row, bottom, n as nat, r, c);
    }
}

proof fn is_a_line_move(s: ScreenModel, n: u16, action: char)
    requires
        n > 0,
        action == 'S' || action == 'T' || action == 'M' || action == 'L',
    ensures
        s.after(control1(n, action)) == s.lines_moved(n, action),
{
    reveal(ScreenModel::after);
}

/// Lines of a region moved up and down.
proof fn lines_shift(grid: GridModel, top: int, bottom: int, n: nat, r: int, c: int)
    requires
        grid.uniform(),
        0 <= top < bottom <= grid.lines.len(),
        n > 0,
        0 <= r < grid.lines.len(),
        0 <= c < grid.cols,
    ensures
        ({
            let up = grid.scrolled_up(top, bottom, n);
            let down = grid.scrolled_down(top, bottom, n);
            &&& top <= r && r + n < bottom ==> up.cell(r, c) == grid.cell(r + n, c)
            &&& top <= r < bottom <= r + n ==> is_blank(up.cell(r, c))
            &&& top + n <= r < bottom ==> down.cell(r, c) == grid.cell(r - n, c)
            &&& top <= r < bottom && r < top + n ==> is_blank(down.cell(r, c))
            &&& r < top || r >= bottom ==> up.cell(r, c) == grid.cell(r, c) && down.cell(r, c)
                == grid.cell(r, c)
        }),
{
    let k = GridModel::shift(top, bottom, n);
    assert(grid.lines[r].len() == grid.cols);
    if top <= r && r + k < bottom {
        assert(grid.lines[r + k].len() == grid.cols);
    }
    if top + k <= r < bottom {
        assert(grid.lines[r - k].len() == grid.cols);
    }
    if top <= r < bottom {
        let up = grid.scrolled_up(top, bottom, n);
        let down = grid.scrolled_down(top, bottom, n);
        if r + k >= bottom {
            assert(grid.lines[top + (r - (bottom - k))].len() == grid.cols);
            assert(up.lines[r].len() == grid.cols);
        }
        if r < top + k {
            assert(grid.lines[bottom - k + (r - top)].len() == grid.cols);
            assert(down.lines[r].len() == grid.cols);
        }
    }
}

/// `CSI n @` puts `n` blanks in at the cursor, `CSI n P` takes `n` cells out there, and the rest of
/// the line moves; `CSI n X` blanks `n` cells where they stand.
pub proof fn cells_move_inside_the_line(s: ScreenModel, n: u16, r: int, c: int)
    requires
        s.consistent(),
        n > 0,
        0 <= r < s.grid.lines.len(),
        0 <= c < s.grid.cols,
    ensures
        ({
            let inserted = s.after(control1(n, '@')).grid;
            let deleted = s.after(control1(n, 'P')).grid;
            let erased = s.after(control1(n, 'X')).grid;
            let row = s.term.cursor.row;
            let col = s.term.cursor.col;
            &&& r != row || c < col ==> inserted.cell(r, c) == s.grid.cell(r, c) && deleted.cell(
                r,
                c,
            ) == s.grid.cell(r, c) && erased.cell(r, c) == s.grid.cell(r, c)
            &&& r == row && col <= c < col + n ==> is_blank(inserted.cell(r, c)) && is_blank(
                erased.cell(r, c),
            )
            &&& r == row && col + n <= c ==> inserted.cell(r, c) == s.grid.cell(r, c - n)
                && erased.cell(r, c) == s.grid.cell(r, c)
            &&& r == row && col <= c && c + n < s.grid.cols ==> deleted.cell(r, c) == s.grid.cell(
                r,
                c + n,
            )
            &&& r == row && col <= c && c + n >= s.grid.cols ==> is_blank(deleted.cell(r, c))
        }),
{
    reveal(ScreenModel::after);
    assert(s.grid.lines[r].len() == s.grid.cols);
    assert(s.grid.lines[s.term.cursor.row as int].len() == s.grid.cols);
}

/// A control sequence that selects colours or attributes.
pub open spec fn style(params: ParamLists) -> ActionModel {
    control(params, 'm')
}

impl ScreenModel {
    /// Whether another screen differs in nothing but the attributes for what is printed next.
    pub open spec fn only_restyled(self, after: ScreenModel) -> bool {
        &&& after.grid == self.grid
        &&& after.dirty == self.dirty
        &&& after.term == (super::state::TerminalModel { attrs: after.term.attrs, ..self.term })
    }
}

proof fn is_a_style(s: ScreenModel, p: u16)
    requires
        p != 38,
        p != 48,
    ensures
        s.after(style(seq![seq![p]])) == s.styled(super::model::simple_sgr(s.term.attrs, p)),
{
    reveal(ScreenModel::after);
    reveal_with_fuel(super::model::sgr, 2);
}

/// For each of the 8 basic colours, codes 30 and 40 on select it as the foreground and the
/// background: it is the colour with that index in the scheme. Codes 90 and 100 on select its
/// bright form, whose index is higher by 8. The other colour and the attributes stay. The colour
/// is painted as `38;5` with its index is.
pub proof fn basic_and_bright_colors_have_their_index(s: ScreenModel, k: u16)
    requires
        k < 8,
    ensures
        ({
            let old = s.term.attrs;
            let fg = s.after(style(seq![seq![(30 + k) as u16]]));
            let bg = s.after(style(seq![seq![(40 + k) as u16]]));
            let bright_fg = s.after(style(seq![seq![(90 + k) as u16]]));
            let bright_bg = s.after(style(seq![seq![(100 + k) as u16]]));
            &&& s.only_restyled(fg) && s.only_restyled(bg)
            &&& s.only_restyled(bright_fg) && s.only_restyled(bright_bg)
            &&& fg.term.attrs.0 matches Color::Named(n) && named_index(n) == k
            &&& bg.term.attrs.1 matches Color::Named(n) && named_index(n) == k
            &&& bright_fg.term.attrs.0 matches Color::Named(n) && named_index(n) == k + 8
            &&& bright_bg.term.attrs.1 matches Color::Named(n) && named_index(n) == k + 8
            &&& fg.term.attrs.1 == old.1 && fg.term.attrs.2 == old.2
            &&& bg.term.attrs.0 == old.0 && bg.term.attrs.2 == old.2
            &&& bright_fg.term.attrs.1 == old.1 && bright_fg.term.attrs.2 == old.2
            &&& bright_bg.term.attrs.0 == old.0 && bright_bg.term.attrs.2 == old.2
            &&& resolved(fg.term.attrs.0, true) == resolved(Color::Indexed(k as u8), true)
            &&& resolved(bright_fg.term.attrs.0, true) == resolved(
                Color::Indexed((k + 8) as u8),
                true,
            )
            &&& resolved(bright_fg.term.attrs.0, true) == Paint::Ansi((k + 8) as u8)
        }),
{
    is_a_style(s, (30 + k) as u16);
    is_a_style(s, (40 + k) as u16);
    is_a_style(s, (90 + k) as u16);
    is_a_style(s, (100 + k) as u16);
}

/// Codes 39 and 49 bring back the default foreground and the default background; 0, or no code at
/// all, brings back both and switches all attributes off.
pub proof fn defaults_are_brought_back(s: ScreenModel)
    ensures
        ({
            let fg = s.after(style(seq![seq![39u16]]));
            let bg = s.after(style(seq![seq![49u16]]));
            let none = s.after(style(seq![seq![0u16]]));
            &&& s.only_restyled(fg) && s.only_restyled(bg) && s.only_restyled(none)
            &&& fg.term.attrs == (Color::Default, s.term.attrs.1, s.term.attrs.2)
            &&& bg.term.attrs == (s.term.attrs.0, Color::Default, s.term.attrs.2)
            &&& none.term.attrs.0 == Color::Default && none.term.attrs.1 == Color::Default
            &&& !none.term.attrs.2.bold && !none.term.attrs.2.dim && !none.term.attrs.2.italic
            &&& !none.term.attrs.2.underline && !none.term.attrs.2.inverse
            &&& !none.term.attrs.2.hidden && !none.term.attrs.2.strikethrough
            &&& s.after(style(Seq::empty())) == none
        }),
{
    is_a_style(s, 39);
    is_a_style(s, 49);
    is_a_style(s, 0);
    reveal(ScreenModel::after);
}

/// The text attribute that a code stands for.
pub open spec fn flag_of(code: u16, flags: CellFlags) -> bool {
    match code {
        1 => flags.bold,
        2 => flags.dim,
        3 => flags.italic,
        4 => flags.underline,
        7 => flags.inverse,
        8 => flags.hidden,
        _ => flags.strikethrough,
    }
}

/// Each text attribute is switched on by its code and off by the code that is higher by 20, and no
/// other attribute and no colour changes; only 22 ends both bold and dim text, as 21 ends bold
/// alone.
pub proof fn attributes_are_switched_on_and_off(s: ScreenModel, code: u16, other: u16)
    requires
        code == 1 || code == 2 || code == 3 || code == 4 || code == 7 || code == 8 || code == 9,
        other == 1 || other == 2 || other == 3 || other == 4 || other == 7 || other == 8 || other
            == 9,
    ensures
        ({
            let on = s.after(style(seq![seq![code]]));
            let off = s.after(style(seq![seq![(code + 20) as u16]]));
            &&& s.only_restyled(on) && s.only_restyled(off)
            &&& on.term.attrs.0 == s.term.attrs.0 && on.term.attrs.1 == s.term.attrs.1
            &&& off.term.attrs.0 == s.term.attrs.0 && off.term.attrs.1 == s.term.attrs.1
            &&& flag_of(code, on.term.attrs.2)
            &&& !flag_of(code, off.term.attrs.2)
            &&& other != code ==> flag_of(other, on.term.attrs.2) == flag_of(
                other,
                s.term.attrs.2,
            )
            &&& other != code ==> flag_of(other, off.term.attrs.2) == (flag_of(
                other,
                s.term.attrs.2,
            ) && !(code == 2 && other == 1))
        }),
{
    is_a_style(s, code);
    is_a_style(s, (code + 20) as u16);
}

/// Extended colours are the same however they are written: `38;2;r;g;b`, `38:2:r:g:b` and, with a
/// colour space, `38:2:cs:r:g:b` all select the colour with these three parts as the foreground,
/// and `38;5;i` and `38:5:i` the colour with the index; 48 does so for the background.
pub proof fn extended_colors_are_the_same_in_each_form(
    s: ScreenModel,
    r: u16,
    g: u16,
    b: u16,
    cs: u16,
)
    requires
        r < 256,
        g < 256,
        b < 256,
    ensures
        ({
            let parts = s.after(style(seq![seq![38u16], seq![2u16], seq![r], seq![g], seq![b]]));
            let parts_bg = s.after(
                style(seq![seq![48u16], seq![2u16], seq![r], seq![g], seq![b]]),
            );
            let index = s.after(style(seq![seq![38u16], seq![5u16], seq![r]]));
            let index_bg = s.after(style(seq![seq![48u16], seq![5u16], seq![r]]));
            let old = s.term.attrs;
            &&& s.only_restyled(parts) && s.only_restyled(parts_bg)
            &&& s.only_restyled(index) && s.only_restyled(index_bg)
            &&& parts.term.attrs == (Color::Rgb(r as u8, g as u8, b as u8), old.1, old.2)
            &&& parts_bg.term.attrs == (old.0, Color::Rgb(r as u8, g as u8, b as u8), old.2)
            &&& index.term.attrs == (Color::Indexed(r as u8), old.1, old.2)
            &&& index_bg.term.attrs == (old.0, Color::Indexed(r as u8), old.2)
            &&& s.after(style(seq![seq![38u16, 2u16, r, g, b]])) == parts
            &&& s.after(style(seq![seq![38u16, 2u16, cs, r, g, b]])) == parts
            &&& s.after(style(seq![seq![48u16, 2u16, r, g, b]])) == parts_bg
            &&& s.after(style(seq![seq![48u16, 2u16, cs, r, g, b]])) == parts_bg
            &&& s.after(style(seq![seq![38u16, 5u16, r]])) == index
            &&& s.after(style(seq![seq![48u16, 5u16, r]])) == index_bg
        }),
{
    in_one_list(s, 38, seq![38u16, 2u16, r, g, b]);
    in_one_list(s, 38, seq![38u16, 2u16, cs, r, g, b]);
    in_one_list(s, 48, seq![48u16, 2u16, r, g, b]);
    in_one_list(s, 48, seq![48u16, 2u16, cs, r, g, b]);
    in_one_list(s, 38, seq![38u16, 5u16, r]);
    in_one_list(s, 48, seq![48u16, 5u16, r]);
    in_lists(s, 38, seq![seq![38u16], seq![2u16], seq![r], seq![g], seq![b]]);
    in_lists(s, 48, seq![seq![48u16], seq![2u16], seq![r], seq![g], seq![b]]);
    in_lists(s, 38, seq![seq![38u16], seq![5u16], seq![r]]);
    in_lists(s, 48, seq![seq![48u16], seq![5u16], seq![r]]);
}

/// An extended colour taken over.
spec fn recolored(s: ScreenModel, code: u16, color: Option<Color>) -> ScreenModel {
    let old = s.term.attrs;
    match color {
        Some(c) => s.styled(
            if code == 38 {
                (c, old.1, old.2)
            } else {
                (old.0, c, old.2)
            },
        ),
        None => s.styled(old),
    }
}

proof fn in_one_list(s: ScreenModel, code: u16, values: Seq<u16>)
    requires
        code == 38 || code == 48,
        values.len() > 1,
        values[0] == code,
    ensures
        s.after(style(seq![values])) == recolored(
            s,
            code,
            super::model::extended_color(seq![values], 0).0,
        ),
{
    reveal(ScreenModel::after);
    reveal_with_fuel(super::model::sgr, 2);
}

proof fn in_lists(s: ScreenModel, code: u16, params: ParamLists)
    requires
        code == 38 || code == 48,
        params.len() > 0,
        params[0] == seq![code],
        super::model::extended_color(params, 0).1 == params.len() - 1,
    ensures
        s.after(style(params)) == recolored(
            s,
            code,
            super::model::extended_color(params, 0).0,
        ),
{
    reveal(ScreenModel::after);
    reveal_with_fuel(super::model::sgr, 2);
}

/// Several codes in one sequence do what they do one after the other.
pub proof fn codes_are_applied_in_order(s: ScreenModel, p: u16, rest: ParamLists)
    requires
        p != 38,
        p != 48,
        rest.len() > 0,
    ensures
        s.after(style(seq![seq![p]] + rest)) == s.after(style(seq![seq![p]])).after(style(rest)),
{
    is_a_style(s, p);
    reveal(ScreenModel::after);
    let all = seq![seq![p]] + rest;
    let next = super::model::simple_sgr(s.term.attrs, p);
    assert(all.skip(1) =~= rest);
    later_codes(next, all, rest, 0);
    assert(super::model::sgr(s.term.attrs, all, 0) == super::model::sgr(next, all, 1));
}

/// The codes after the first one mean what they mean without it.
proof fn later_codes(
    attrs: crate::grid::cell::CellAttributes,
    all: ParamLists,
    rest: ParamLists,
    i: int,
)
    requires
        all.len() == rest.len() + 1,
        all.skip(1) == rest,
        0 <= i,
    ensures
        super::model::sgr(attrs, all, i + 1) == super::model::sgr(attrs, rest, i),
    decreases
            (if i < rest.len() {
                rest.len() - i
            } else {
                0
            }),
{
    assert forall|k: int| 0 <= k < rest.len() implies rest[k] == #[trigger] all[k + 1] by {
        assert(all.skip(1)[k] == all[k + 1]);
    }
    if i < rest.len() {
        assert(rest[i] == all[i + 1]);
        let p = super::model::first_of(rest, i);
        assert(p == super::model::first_of(all, i + 1));
        if p == 38 || p == 48 {
            assert forall|k: int| i <= k < rest.len() implies rest[k] == #[trigger] all[k + 1] by {}
            if i + 1 < rest.len() {
                assert(rest[i + 1] == all[i + 2]);
            }
            assert(super::model::first_of(rest, i + 2) == super::model::first_of(all, i + 3)) by {
                if i + 2 < rest.len() {
                    assert(rest[i + 2] == all[i + 3]);
                }
            }
            assert(super::model::first_of(rest, i + 3) == super::model::first_of(all, i + 4)) by {
                if i + 3 < rest.len() {
                    assert(rest[i + 3] == all[i + 4]);
                }
            }
            assert(super::model::first_of(rest, i + 4) == super::model::first_of(all, i + 5)) by {
                if i + 4 < rest.len() {
                    assert(rest[i + 4] == all[i + 5]);
                }
            }
            let (color, taken) = super::model::extended_color(rest, i);
            assert(super::model::extended_color(all, i + 1) == (color, taken));
            let next = match color {
                Some(c) => if p == 38 {
                    (c, attrs.1, attrs.2)
                } else {
                    (attrs.0, c, attrs.2)
                },
                None => attrs,
            };
            later_codes(next, all, rest, i + taken + 1);
        } else {
            later_codes(super::model::simple_sgr(attrs, p), all, rest, i + 1);
        }
    }
}

/// A control sequence that switches private modes.
pub open spec fn private(mode: u16, action: char) -> ActionModel {
    ActionModel::Csi { params: seq![seq![mode]], intermediates: seq![0x3fu8], action }
}

proof fn is_a_mode(s: ScreenModel, mode: u16)
    ensures
        s.after(private(mode, 'h')) == s.private_mode(mode, true),
        s.after(private(mode, 'l')) == s.private_mode(mode, false),
        s.after(control1(mode, 'h')) == s.one_mode(mode, false, true),
        s.after(control1(mode, 'l')) == s.one_mode(mode, false, false),
{
    reveal(ScreenModel::after);
    reveal_with_fuel(ScreenModel::set_mode, 2);
    let params = seq![seq![mode]];
    assert(params.drop_last() =~= Seq::empty());
}

/// The switch that a private mode turns.
pub open spec fn switch_of(mode: u16, s: ScreenModel) -> bool {
    match mode {
        1 => s.term.application_cursor_keys,
        7 => s.term.autowrap,
        25 => s.term.cursor.visible,
        _ => s.term.bracketed_paste,
    }
}

/// The private modes for application cursor keys, autowrap, the visible cursor and bracketed paste
/// are switched on by `h` and off by `l`, each without a change to the others, the screen or the
/// place of the cursor; so is insert mode, which is not private.
pub proof fn modes_are_switched_on_and_off(s: ScreenModel, mode: u16, other: u16)
    requires
        mode == 1 || mode == 7 || mode == 25 || mode == 2004,
        other == 1 || other == 7 || other == 25 || other == 2004,
    ensures
        ({
            let on = s.after(private(mode, 'h'));
            let off = s.after(private(mode, 'l'));
            &&& switch_of(mode, on) && !switch_of(mode, off)
            &&& other != mode ==> switch_of(other, on) == switch_of(other, s) && switch_of(
                other,
                off,
            ) == switch_of(other, s)
            &&& on.grid == s.grid && off.grid == s.grid
            &&& on.dirty == s.dirty && off.dirty == s.dirty
            &&& on.term.cursor.row == s.term.cursor.row && on.term.cursor.col == s.term.cursor.col
            &&& on.term.attrs == s.term.attrs && off.term.attrs == s.term.attrs
            &&& on.term.insert_mode == s.term.insert_mode
            &&& on.term.origin_mode == s.term.origin_mode
            &&& on.term.mouse_mode == s.term.mouse_mode
            &&& switch_of(mode, s) ==> off.after(private(mode, 'h')) == s
            &&& !switch_of(mode, s) ==> on.after(private(mode, 'l')) == s
            &&& s.after(control1(4, 'h')).term.insert_mode
            &&& !s.after(control1(4, 'l')).term.insert_mode
            &&& s.after(control1(mode, 'h')) == s && s.after(control1(mode, 'l')) == s
        }),
{
    is_a_mode(s, mode);
    is_a_mode(s, 4);
    is_a_mode(s.private_mode(mode, true), mode);
    is_a_mode(s.private_mode(mode, false), mode);
}

/// Of the mouse modes, each one is selected by its number, and switching any of them off leaves
/// none. Origin mode puts the cursor at the top of the scroll region.
pub proof fn mouse_and_origin_modes(s: ScreenModel, mode: u16)
    requires
        mode == 1000 || mode == 1002 || mode == 1006,
    ensures
        s.after(private(1000, 'h')).term.mouse_mode == MouseMode::Press,
        s.after(private(1002, 'h')).term.mouse_mode == MouseMode::PressRelease,
        s.after(private(1006, 'h')).term.mouse_mode == MouseMode::Sgr,
        s.after(private(mode, 'l')).term.mouse_mode == MouseMode::Off,
        s.after(private(mode, 'h')).grid == s.grid,
        s.after(private(6, 'h')).term.origin_mode,
        s.after(private(6, 'h')).term.cursor.row == s.term.scroll_region.0,
        s.after(private(6, 'h')).term.cursor.col == 0,
        !s.after(private(6, 'l')).term.origin_mode,
        s.after(private(6, 'l')).term.cursor == s.term.cursor,
        s.after(private(6, 'h')).grid == s.grid,
{
    is_a_mode(s, 1000);
    is_a_mode(s, 1002);
    is_a_mode(s, 1006);
    is_a_mode(s, 6);
}

/// Entering the alternate screen blanks the screen; entering it again, or leaving it when it is
/// not shown, does nothing.
pub proof fn the_alternate_screen_begins_blank(s: ScreenModel, r: int, c: int)
    requires
        s.consistent(),
        0 <= r < s.grid.lines.len(),
        0 <= c < s.grid.cols,
    ensures
        !s.term.alternate_screen ==> is_blank(s.after(private(1049, 'h')).grid.cell(r, c))
            && s.after(private(1049, 'h')).term.alternate_screen && s.after(
            private(1049, 'l'),
        ) == s,
        s.term.alternate_screen ==> s.after(private(1049, 'h')) == s && !s.after(
            private(1049, 'l'),
        ).term.alternate_screen,
        s.after(private(1049, 'h')).grid.history == s.grid.history,
{
    is_a_mode(s, 1049);
    assert(s.grid.lines[r].len() == s.grid.cols);
}

/// `CSI t ; b r` makes the lines from the `t`-th to the `b`-th the scroll region, counted from 1
/// with both in it, where that is at least one line of the screen; the cursor goes to the top
/// left, of the region in origin mode. Without parameters the whole screen is the region.
pub proof fn the_scroll_region_has_both_its_lines(s: ScreenModel, t: u16, b: u16)
    requires
        s.consistent(),
        0 < t <= b <= s.grid.lines.len(),
    ensures
        ({
            let set = s.after(control2(t, b, 'r'));
            &&& set.term.scroll_region.0 + 1 == t
            &&& set.term.scroll_region.1 == b
            &&& set.grid == s.grid
            &&& set.term.cursor.col == 0
            &&& !s.term.origin_mode ==> set.term.cursor.row == 0
            &&& s.term.origin_mode ==> set.term.cursor.row + 1 == t
            &&& s.after(control(Seq::empty(), 'r')).term.scroll_region == (
            0u16,
            s.grid.lines.len() as u16,
            )
            &&& t < b ==> s.after(control2(b, (t - 1) as u16, 'r')) == s || t == 1
        }),
{
    reveal(ScreenModel::after);
}

/// In a fresh terminal a tab moves the cursor to the next column that is a multiple of 8, or to the
/// last column.
pub proof fn tabs_stop_every_eight_columns(s: ScreenModel)
    requires
        s.consistent(),
        s.term.tab_stops == super::state::TerminalModel::fresh(
            s.grid.lines.len() as u16,
            s.grid.cols as u16,
        ).tab_stops,
    ensures
        ({
            let t = s.after(ActionModel::Execute(0x09));
            let next = (s.term.cursor.col / 8) * 8 + 8;
            &&& t.term.cursor.row == s.term.cursor.row
            &&& t.term.cursor.col == (if next < s.grid.cols {
                next as int
            } else {
                s.grid.cols - 1
            })
            &&& t.grid == s.grid
        }),
{
    reveal(ScreenModel::after);
    let stops = s.term.tab_stops;
    let col = s.term.cursor.col;
    let k = (col / 8) as int + 1;
    next_stop_is(stops, col, k, 0);
    assert(stops.skip(0) =~= stops);
}

/// The first of the stops at the multiples of 8 that lies beyond a column.
proof fn next_stop_is(stops: Seq<u16>, col: u16, k: int, i: int)
    requires
        forall|j: int| 0 <= j < stops.len() ==> #[trigger] stops[j] == 8 * j,
        8 * stops.len() <= 0xffff + 8,
        k == col / 8 + 1,
        0 <= i <= k,
    ensures
        super::model::next_stop(
            if i <= stops.len() {
                stops.skip(i)
            } else {
                Seq::empty()
            },
            col,
        ) == (if k < stops.len() {
            Some((8 * k) as u16)
        } else {
            None
        }),
    decreases k - i,
{
    if i < stops.len() {
        let rest = stops.skip(i);
        assert(rest[0] == stops[i]);
        assert(rest.drop_first() =~= stops.skip(i + 1));
        if i < k {
            next_stop_is(stops, col, k, i + 1);
        }
    }
}

/// A backspace moves the cursor one column to the left, and not beyond the first one; it erases
/// nothing.
pub proof fn a_backspace_moves_left(s: ScreenModel)
    ensures
        ({
            let b = s.after(ActionModel::Execute(0x08));
            &&& s.only_moved(b)
            &&& b.term.cursor.row == s.term.cursor.row
            &&& s.term.cursor.col > 0 ==> b.term.cursor.col + 1 == s.term.cursor.col
            &&& s.term.cursor.col == 0 ==> b.term.cursor.col == 0
            &&& !b.term.pending_wrap
        }),
{
    reveal(ScreenModel::after);
}

/// Commands 0 and 2 set the window title to the text that follows; the grid and the cursor stay.
/// Other commands, and the strings for devices, do nothing.
pub proof fn titles_are_set(s: ScreenModel, title: Seq<u8>, command: u8)
    requires
        vstd::utf8::valid_utf8(title),
    ensures
        ({
            let set = s.after(ActionModel::Osc { fields: seq![seq![command], title] });
            &&& set.grid == s.grid && set.dirty == s.dirty && set.term.cursor == s.term.cursor
            &&& command == 0x30 || command == 0x32 ==> set.term.window_title
                == vstd::utf8::decode_utf8(title)
            &&& command != 0x30 && command != 0x32 ==> set == s
            &&& s.after(ActionModel::Hook) == s
            &&& s.after(ActionModel::Put) == s
            &&& s.after(ActionModel::Unhook) == s
        }),
{
    reveal(ScreenModel::after);
    let fields = seq![seq![command], title];
    assert(fields[0][0] == command);
    assert(seq![0x30u8][0] == 0x30u8);
    assert(seq![0x32u8][0] == 0x32u8);
    if command == 0x30 {
        assert(fields[0] =~= seq![0x30u8]);
    }
    if command == 0x32 {
        assert(fields[0] =~= seq![0x32u8]);
    }
}

/// What is printed after an escape sequence with intermediate bytes, or after a control character
/// that has no meaning here, is printed as without it.
pub proof fn the_rest_is_ignored(s: ScreenModel, intermediates: Seq<u8>, byte: u8)
    ensures
        intermediates.len() > 0 ==> s.after(ActionModel::Esc { intermediates, byte }) == s,
        byte < 0x08 || byte > 0x0d ==> s.after(ActionModel::Execute(byte)) == s,
{
    reveal(ScreenModel::after);
}

/// A reset terminal has the whole screen as its scroll region, wraps, shows its cursor at the top
/// left and has every other mode off.
pub proof fn a_reset_terminal_is_plain(s: ScreenModel)
    requires
        s.consistent(),
    ensures
        ({
            let t = s.after(ActionModel::Esc { intermediates: Seq::empty(), byte: 0x63 }).term;
            &&& t.cursor.row == 0 && t.cursor.col == 0 && t.cursor.visible
            &&& t.scroll_region == (0u16, s.grid.lines.len() as u16)
            &&& t.autowrap
            &&& !t.origin_mode && !t.insert_mode && !t.bracketed_paste && !t.alternate_screen
            &&& !t.application_cursor_keys && !t.pending_wrap
            &&& t.mouse_mode == MouseMode::Off
            &&& t.saved_cursor is None
            &&& t.window_title.len() == 0
            &&& t.attrs.0 == Color::Default && t.attrs.1 == Color::Default
            &&& t == super::state::TerminalModel::fresh(
                s.grid.lines.len() as u16,
                s.grid.cols as u16,
            )
        }),
{
    reveal(ScreenModel::after);
}

/// `ESC 7` and `ESC 8` save the cursor and bring it back, whatever has become of the screen in
/// between; saving changes nothing that shows. Without a saved cursor nothing is brought back.
pub proof fn the_cursor_is_saved_and_brought_back(s: ScreenModel, later: ScreenModel)
    ensures
        ({
            let save = ActionModel::Esc { intermediates: Seq::empty(), byte: 0x37 };
            let restore = ActionModel::Esc { intermediates: Seq::empty(), byte: 0x38 };
            let saved = s.after(save);
            &&& saved.grid == s.grid && saved.dirty == s.dirty && saved.term.cursor == s.term.cursor
            &&& later.term.saved_cursor == saved.term.saved_cursor ==> later.after(
                restore,
            ).term.cursor == s.term.cursor && later.after(restore).grid == later.grid
            &&& s.term.saved_cursor is None ==> s.after(restore) == s
        }),
{
    reveal(ScreenModel::after);
}

/// A carriage return brings the cursor to the first column of its row and changes nothing else but
/// to forget a pending wrap.
pub proof fn a_carriage_return_goes_to_the_first_column(s: ScreenModel)
    ensures
        s.after(ActionModel::Execute(0x0d)).term.cursor.col == 0,
        s.after(ActionModel::Execute(0x0d)).term.cursor.row == s.term.cursor.row,
        s.after(ActionModel::Execute(0x0d)).grid == s.grid,
        s.after(ActionModel::Execute(0x0d)).term.attrs == s.term.attrs,
{
    reveal(ScreenModel::after);
}

} // verus!
