use vstd::prelude::*;

use crate::config::{ColorScheme, Rgb};
use crate::grid::cell::{Cell, CellFlags, Color, NamedColor};
use crate::grid::storage::{Grid, GridModel};
use crate::primitives::dirty_rows::{bit_set, mask_has};
use crate::selection::Selection;
use crate::vt::model::ansi_color;
use crate::vt::state::CursorState;

verus! {

/// A colour of a frame: one of the scheme's, or a fixed one.
#[derive(Debug, Clone, Copy, PartialEq, Eq, Structural)]
pub enum Paint {
    Foreground,
    Background,
    /// One of the 16 colours of the scheme.
    Ansi(u8),
    Rgb(u8, u8, u8),
}

/// A level of the colour cube: 0, 95, 135, 175, 215 or 255.
pub open spec fn cube_level(n: int) -> u8 {
    if n == 0 {
        0
    } else {
        (55 + 40 * n) as u8
    }
}

/// The colour of an index beyond the 16 of the scheme: a cube of 6 levels, then 24 greys.
pub open spec fn indexed_color(idx: u8) -> Paint {
    if idx < 16 {
        Paint::Ansi(idx)
    } else if idx < 232 {
        let c = idx - 16;
        Paint::Rgb(cube_level(c / 36), cube_level(c % 36 / 6), cube_level(c % 6))
    } else {
        let v = (8 + 10 * (idx - 232)) as u8;
        Paint::Rgb(v, v, v)
    }
}

/// The colour in which a cell's colour is drawn.
pub open spec fn resolved(color: Color, is_fg: bool) -> Paint {
    match color {
        Color::Default => if is_fg {
            Paint::Foreground
        } else {
            Paint::Background
        },
        Color::Named(named) => Paint::Ansi(named_index(named)),
        Color::Indexed(idx) => indexed_color(idx),
        Color::Rgb(r, g, b) => Paint::Rgb(r, g, b),
    }
}

/// The index of a named colour in the scheme.
pub open spec fn named_index(named: NamedColor) -> u8 {
    match named {
        NamedColor::Black => 0,
        NamedColor::Red => 1,
        NamedColor::Green => 2,
        NamedColor::Yellow => 3,
        NamedColor::Blue => 4,
        NamedColor::Magenta => 5,
        NamedColor::Cyan => 6,
        NamedColor::White => 7,
        NamedColor::BrightBlack => 8,
        NamedColor::BrightRed => 9,
        NamedColor::BrightGreen => 10,
        NamedColor::BrightYellow => 11,
        NamedColor::BrightBlue => 12,
        NamedColor::BrightMagenta => 13,
        NamedColor::BrightCyan => 14,
        NamedColor::BrightWhite => 15,
    }
}

/// A named colour and its index are drawn the same.
pub proof fn named_and_indexed_colors_agree(idx: u8, is_fg: bool)
    requires
        idx < 16,
    ensures
        resolved(Color::Named(ansi_color(idx as int)), is_fg) == resolved(
            Color::Indexed(idx),
            is_fg,
        ),
{
}

fn level(n: u8) -> (v: u8)
    requires
        n < 6,
    ensures
        v == cube_level(n as int),
{
    if n == 0 {
        0
    } else {
        55 + 40 * n
    }
}

/// The colour in which a cell's colour is drawn.
pub fn resolve_color(color: Color, is_fg: bool) -> (paint: Paint)
    ensures
        paint == resolved(color, is_fg),
{
    match color {
        Color::Default => if is_fg {
            Paint::Foreground
        } else {
            Paint::Background
        },
        Color::Named(named) => Paint::Ansi(
            match named {
                NamedColor::Black => 0,
                NamedColor::Red => 1,
                NamedColor::Green => 2,
                NamedColor::Yellow => 3,
                NamedColor::Blue => 4,
                NamedColor::Magenta => 5,
                NamedColor::Cyan => 6,
                NamedColor::White => 7,
                NamedColor::BrightBlack => 8,
                NamedColor::BrightRed => 9,
                NamedColor::BrightGreen => 10,
                NamedColor::BrightYellow => 11,
                NamedColor::BrightBlue => 12,
                NamedColor::BrightMagenta => 13,
                NamedColor::BrightCyan => 14,
                NamedColor::BrightWhite => 15,
            },
        ),
        Color::Indexed(idx) => if idx < 16 {
            Paint::Ansi(idx)
        } else if idx < 232 {
            let c: u8 = idx - 16;
            Paint::Rgb(level(c / 36), level(c % 36 / 6), level(c % 6))
        } else {
            let v: u8 = 8 + 10 * (idx - 232);
            Paint::Rgb(v, v, v)
        },
        Color::Rgb(r, g, b) => Paint::Rgb(r, g, b),
    }
}

impl Paint {
    /// The colour in a scheme.
    pub open spec fn in_scheme(self, colors: ColorScheme) -> Rgb {
        match self {
            Paint::Foreground => colors.foreground,
            Paint::Background => colors.background,
            Paint::Ansi(idx) => if idx < 16 {
                colors.ansi@[idx as int]
            } else {
                colors.foreground
            },
            Paint::Rgb(r, g, b) => Rgb { r, g, b },
        }
    }

    /// The colour in a scheme.
    pub fn rgb(self, colors: &ColorScheme) -> (rgb: Rgb)
        ensures
            rgb == self.in_scheme(*colors),
    {
        match self {
            Paint::Foreground => colors.foreground,
            Paint::Background => colors.background,
            Paint::Ansi(idx) => if idx < 16 {
                colors.ansi[idx as usize]
            } else {
                colors.foreground
            },
            Paint::Rgb(r, g, b) => Rgb { r, g, b },
        }
    }
}

/// A cell of a frame.
#[derive(Debug, Clone, Copy, PartialEq, Eq, Structural)]
pub struct FrameCell {
    /// The character; a cell beyond the grid has none.
    pub ch: Option<char>,
    pub fg: Paint,
    pub bg: Paint,
    pub flags: CellFlags,
}

impl FrameCell {
    /// A cell beyond the grid: white on black, without a character.
    pub open spec fn outside() -> FrameCell {
        FrameCell {
            ch: None,
            fg: Paint::Rgb(255, 255, 255),
            bg: Paint::Rgb(0, 0, 0),
            flags: CellFlags::none(),
        }
    }

    /// What is drawn for a cell of the grid.
    pub open spec fn of(cell: Option<Cell>) -> FrameCell {
        match cell {
            Some(c) => FrameCell {
                ch: Some(c.ch),
                fg: resolved(c.fg, true),
                bg: resolved(c.bg, false),
                flags: c.flags,
            },
            None => FrameCell::outside(),
        }
    }

    /// The cell with its colours exchanged, where that is asked for.
    pub open spec fn inverted(self, yes: bool) -> FrameCell {
        if yes {
            FrameCell { fg: self.bg, bg: self.fg, ..self }
        } else {
            self
        }
    }

    fn invert(self) -> (cell: FrameCell)
        ensures
            cell == self.inverted(true),
    {
        FrameCell { ch: self.ch, fg: self.bg, bg: self.fg, flags: self.flags }
    }
}

/// What a frame shows besides the grid.
pub struct FrameView {
    /// How many lines the view is shifted into the history.
    pub scroll_offset: usize,
    pub cursor: CursorState,
    /// Whether the cursor is in the visible phase of its blinking.
    pub blink_visible: bool,
    pub selection: Option<Selection>,
}

impl FrameView {
    /// Whether the block cursor stands on a cell: only the live screen shows it.
    pub open spec fn cursor_at(self, row: int, col: int) -> bool {
        &&& self.scroll_offset == 0
        &&& self.cursor.visible
        &&& self.blink_visible
        &&& row == self.cursor.row
        &&& col == self.cursor.col
    }

    pub open spec fn selected_at(self, row: int, col: int) -> bool {
        match self.selection {
            Some(selection) => selection.covers(row, col),
            None => false,
        }
    }

    /// What is drawn at a position: the cursor and the selection each exchange the colours.
    pub open spec fn shown(self, grid: GridModel, row: int, col: int) -> FrameCell {
        FrameCell::of(grid.cell_scrolled(row, col, self.scroll_offset as nat)).inverted(
            self.cursor_at(row, col),
        ).inverted(self.selected_at(row, col))
    }

    /// What is drawn at a position.
    pub fn frame_cell(&self, grid: &Grid, row: usize, col: usize) -> (cell: FrameCell)
        requires
            grid.wf(),
        ensures
            cell == self.shown(grid@, row as int, col as int),
    {
        let mut cell = match grid.cell_scrolled(row, col, self.scroll_offset) {
            Some(c) => FrameCell {
                ch: Some(c.ch),
                fg: resolve_color(c.fg, true),
                bg: resolve_color(c.bg, false),
                flags: c.flags,
            },
            None => FrameCell {
                ch: None,
                fg: Paint::Rgb(255, 255, 255),
                bg: Paint::Rgb(0, 0, 0),
                flags: CellFlags::empty(),
            },
        };
        if self.scroll_offset == 0 && self.cursor.visible && self.blink_visible && row
            == self.cursor.row as usize && col == self.cursor.col as usize {
            cell = cell.invert();
        }
        if let Some(selection) = &self.selection {
            if selection.contains(row, col) {
                cell = cell.invert();
            }
        }
        cell
    }
}

/// A row of a frame that has to be drawn again.
pub struct FrameRow {
    pub row: u16,
    pub cells: Vec<FrameCell>,
}

/// The rows below `count` that a mask marks, in order.
pub open spec fn marked_rows(mask: Seq<u64>, count: int) -> Seq<u16>
    decreases count,
{
    if count <= 0 {
        Seq::empty()
    } else if mask_has(mask, count - 1) {
        marked_rows(mask, count - 1).push((count - 1) as u16)
    } else {
        marked_rows(mask, count - 1)
    }
}

/// Exactly the marked rows of the screen are drawn, each one once and from the top down.
pub proof fn marked_rows_are_drawn_once(mask: Seq<u64>, count: int)
    requires
        0 <= count <= 256,
    ensures
        forall|row: u16| #[trigger]
            marked_rows(mask, count).contains(row) <==> row < count && mask_has(mask, row as int),
        forall|i: int, k: int|
            0 <= i < k < marked_rows(mask, count).len() ==> marked_rows(mask, count)[i]
                < marked_rows(mask, count)[k],
    decreases count,
{
    if count > 0 {
        marked_rows_are_drawn_once(mask, count - 1);
        let above = marked_rows(mask, count - 1);
        let all = marked_rows(mask, count);
        assert forall|i: int| 0 <= i < above.len() implies #[trigger] above[i] < count - 1 by {
            assert(above.contains(above[i]));
        }
        assert forall|row: u16| #[trigger] all.contains(row) <==> row < count && mask_has(
            mask,
            row as int,
        ) by {
            if all.contains(row) {
                let i = choose|i: int| 0 <= i < all.len() && all[i] == row;
                if i < above.len() {
                    assert(above[i] == row);
                    assert(above.contains(row));
                }
            }
            if row < count && mask_has(mask, row as int) {
                if row == count - 1 {
                    assert(all.last() == row);
                } else {
                    assert(above.contains(row));
                    let i = choose|i: int| 0 <= i < above.len() && above[i] == row;
                    assert(all[i] == row);
                }
            }
        }
    }
}

/// How many cells of a row fit into a buffer.
pub open spec fn cells_that_fit(row: int, cols: u16, capacity: usize) -> int {
    if row * cols >= capacity {
        0
    } else if row * cols + cols <= capacity {
        cols as int
    } else {
        capacity - row * cols
    }
}

impl FrameView {
    /// Whether rows are what is drawn of the given rows.
    pub open spec fn draws(
        self,
        grid: GridModel,
        rows: Seq<FrameRow>,
        wanted: Seq<u16>,
        cols: u16,
        capacity: usize,
    ) -> bool {
        &&& rows.len() == wanted.len()
        &&& forall|i: int|
            0 <= i < rows.len() ==> {
                let drawn = #[trigger] rows[i];
                &&& drawn.row == wanted[i]
                &&& drawn.cells@ == Seq::new(
                    cells_that_fit(drawn.row as int, cols, capacity) as nat,
                    |col: int| self.shown(grid, drawn.row as int, col),
                )
            }
    }

    fn draw_row(&self, grid: &Grid, row: u16, cols: u16, capacity: usize) -> (drawn: FrameRow)
        requires
            grid.wf(),
        ensures
            drawn.row == row,
            drawn.cells@ == Seq::new(
                cells_that_fit(row as int, cols, capacity) as nat,
                |col: int| self.shown(grid@, row as int, col),
            ),
    {
        proof {
            assert(0 <= row * cols <= 0xffff * 0xffff) by (nonlinear_arith)
                requires
                    0 <= row <= 0xffff,
                    0 <= cols <= 0xffff,
            ;
        }
        let start: usize = row as usize * cols as usize;
        let count: usize = if start >= capacity {
            0
        } else if cols as usize <= capacity - start {
            cols as usize
        } else {
            capacity - start
        };
        let mut cells: Vec<FrameCell> = Vec::new();
        let mut col: usize = 0;
        while col < count
            invariant
                grid.wf(),
                col <= count,
                cells@ == Seq::new(col as nat, |c: int| self.shown(grid@, row as int, c)),
            decreases count - col,
        {
            cells.push(self.frame_cell(grid, row as usize, col));
            col = col + 1;
            assert(cells@ =~= Seq::new(col as nat, |c: int| self.shown(grid@, row as int, c)));
        }
        FrameRow { row, cells }
    }

    /// What is drawn of the rows that a mask marks, on a screen of the given size, as far as it
    /// fits into a buffer.
    pub fn draw_marked(
        &self,
        grid: &Grid,
        mask: &[u64; 4],
        cols: u16,
        rows: u16,
        capacity: usize,
    ) -> (drawn: Vec<FrameRow>)
        requires
            grid.wf(),
        ensures
            self.draws(
                grid@,
                drawn@,
                marked_rows(
                    mask@,
                    if rows <= 256 {
                        rows as int
                    } else {
                        256
                    },
                ),
                cols,
                capacity,
            ),
    {
        let count: u16 = if rows <= 256 {
            rows
        } else {
            256
        };
        let mut drawn: Vec<FrameRow> = Vec::new();
        let mut row: u16 = 0;
        while row < count
            invariant
                grid.wf(),
                row <= count <= 256,
                self.draws(grid@, drawn@, marked_rows(mask@, row as int), cols, capacity),
            decreases count - row,
        {
            let word: u64 = mask[(row / 64) as usize];
            let bit: u64 = (row % 64) as u64;
            assert(mask_has(mask@, row as int) == bit_set(word, bit));
            if (word >> bit) & 1 == 1 {
                drawn.push(self.draw_row(grid, row, cols, capacity));
            }
            row = row + 1;
        }
        drawn
    }
}

/// Every cell of the grid that is in view is drawn with its own character and its own text
/// attributes, whatever the cursor, the selection and the scroll offset are; its two colours are
/// those of the cell, exchanged where exactly one of the cursor and the selection covers it.
pub proof fn cells_are_drawn_as_they_are(view: FrameView, grid: GridModel, row: int, col: int)
    requires
        grid.cell_scrolled(row, col, view.scroll_offset as nat) is Some,
    ensures
        ({
            let cell = grid.cell_scrolled(row, col, view.scroll_offset as nat)->0;
            let drawn = view.shown(grid, row, col);
            let covered = match view.selection {
                Some(selection) => selection.covers(row, col),
                None => false,
            };
            let under_cursor = view.scroll_offset == 0 && view.cursor.visible
                && view.blink_visible && view.cursor.row == row && view.cursor.col == col;
            &&& drawn.ch == Some(cell.ch)
            &&& drawn.flags.bold == cell.flags.bold
            &&& drawn.flags.dim == cell.flags.dim
            &&& drawn.flags.italic == cell.flags.italic
            &&& drawn.flags.underline == cell.flags.underline
            &&& drawn.flags.inverse == cell.flags.inverse
            &&& drawn.flags.hidden == cell.flags.hidden
            &&& drawn.flags.strikethrough == cell.flags.strikethrough
            &&& covered == under_cursor ==> drawn.fg == resolved(cell.fg, true) && drawn.bg
                == resolved(cell.bg, false)
            &&& covered != under_cursor ==> drawn.fg == resolved(cell.bg, false) && drawn.bg
                == resolved(cell.fg, true)
        }),
{
}

/// Default colours are painted as the scheme's foreground and background; a fixed colour as
/// itself; each of the 16 named colours as the scheme's colour with its number, no two alike.
pub proof fn colors_keep_their_parts(r: u8, g: u8, b: u8, a: NamedColor, c: NamedColor)
    ensures
        resolved(Color::Default, true) == Paint::Foreground,
        resolved(Color::Default, false) == Paint::Background,
        resolved(Color::Rgb(r, g, b), true) == Paint::Rgb(r, g, b),
        resolved(Color::Rgb(r, g, b), false) == Paint::Rgb(r, g, b),
        named_index(a) < 16,
        named_index(a) == named_index(c) ==> a == c,
        named_index(NamedColor::Black) == 0,
        named_index(NamedColor::BrightBlack) == 8,
        named_index(NamedColor::Red) + 8 == named_index(NamedColor::BrightRed),
        named_index(NamedColor::Green) + 8 == named_index(NamedColor::BrightGreen),
        named_index(NamedColor::Yellow) + 8 == named_index(NamedColor::BrightYellow),
        named_index(NamedColor::Blue) + 8 == named_index(NamedColor::BrightBlue),
        named_index(NamedColor::Magenta) + 8 == named_index(NamedColor::BrightMagenta),
        named_index(NamedColor::Cyan) + 8 == named_index(NamedColor::BrightCyan),
        named_index(NamedColor::White) + 8 == named_index(NamedColor::BrightWhite),
        named_index(NamedColor::Red) == 1,
        named_index(NamedColor::Green) == 2,
        named_index(NamedColor::Yellow) == 3,
        named_index(NamedColor::Blue) == 4,
        named_index(NamedColor::Magenta) == 5,
        named_index(NamedColor::Cyan) == 6,
        named_index(NamedColor::White) == 7,
{
}

/// The indexed colours from 16 on are a cube with 6 levels for each of the three parts: index
/// `16 + 36 r + 6 g + b` has these levels, which begin at 0 and 95 and go up in steps of 40. The
/// last 24 are greys that begin at 8 and go up in steps of 10.
pub proof fn indexed_colors_form_a_cube_and_a_ramp(r: int, g: int, b: int, n: int)
    requires
        0 <= r < 6,
        0 <= g < 6,
        0 <= b < 6,
        0 <= n < 24,
    ensures
        resolved(Color::Indexed((16 + 36 * r + 6 * g + b) as u8), true) == Paint::Rgb(
            cube_level(r),
            cube_level(g),
            cube_level(b),
        ),
        cube_level(0) == 0,
        cube_level(1) == 95,
        r >= 1 ==> cube_level(r) == 95 + 40 * (r - 1),
        resolved(Color::Indexed((232 + n) as u8), true) == Paint::Rgb(
            (8 + 10 * n) as u8,
            (8 + 10 * n) as u8,
            (8 + 10 * n) as u8,
        ),
{
    let c = 36 * r + 6 * g + b;
    assert(c / 36 == r && c % 36 == 6 * g + b && (6 * g + b) / 6 == g && c % 6 == b);
}

/// Where all cells of a screen fit, every cell of a row that is drawn is drawn at its column; where
/// they do not, those are left out that come after the cells that fit, counted in reading order.
pub proof fn rows_are_drawn_whole(
    view: FrameView,
    grid: GridModel,
    rows: Seq<FrameRow>,
    wanted: Seq<u16>,
    cols: u16,
    capacity: usize,
    i: int,
    col: int,
)
    requires
        view.draws(grid, rows, wanted, cols, capacity),
        0 <= i < wanted.len(),
        0 <= col < cols,
    ensures
        rows.len() == wanted.len(),
        rows[i].row == wanted[i],
        wanted[i] * cols + col < capacity <==> col < rows[i].cells@.len(),
        col < rows[i].cells@.len() ==> rows[i].cells@[col] == view.shown(
            grid,
            wanted[i] as int,
            col,
        ),
{
    assert(rows[i].row == wanted[i]);
    assert(wanted[i] * cols >= 0) by (nonlinear_arith);
}

/// A cell beyond the grid shows no character, in white on black and without attributes.
pub proof fn cells_beyond_the_grid_are_empty(
    view: FrameView,
    grid: GridModel,
    row: int,
    col: int,
)
    requires
        grid.cell_scrolled(row, col, view.scroll_offset as nat) is None,
        view.selection is None,
        !view.cursor.visible,
    ensures
        view.shown(grid, row, col).ch is None,
        view.shown(grid, row, col).fg == Paint::Rgb(255, 255, 255),
        view.shown(grid, row, col).bg == Paint::Rgb(0, 0, 0),
        !view.shown(grid, row, col).flags.bold && !view.shown(grid, row, col).flags.underline,
{
}

/// A colour scheme gives the default colours and the 16 numbered ones; fixed colours are what they
/// are in every scheme.
pub proof fn schemes_give_their_colors(colors: ColorScheme, i: u8, r: u8, g: u8, b: u8)
    ensures
        Paint::Foreground.in_scheme(colors) == colors.foreground,
        Paint::Background.in_scheme(colors) == colors.background,
        i < 16 ==> Paint::Ansi(i).in_scheme(colors) == colors.ansi@[i as int],
        Paint::Rgb(r, g, b).in_scheme(colors).r == r,
        Paint::Rgb(r, g, b).in_scheme(colors).g == g,
        Paint::Rgb(r, g, b).in_scheme(colors).b == b,
{
}

} // verus!
