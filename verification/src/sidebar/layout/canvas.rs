use vstd::prelude::*;

use crate::text::chars_of;

verus! {

/// The colours of the side panel.
#[derive(Debug, Clone, Copy, PartialEq, Eq, Structural)]
pub enum SidebarColor {
    /// The colour of a cell that nothing was drawn on.
    Unset,
    SidebarBg,
    CardBg,
    CardActiveBg,
    HoverBg,
    Header,
    Label,
    Value,
    Dim,
    Green,
    Yellow,
    Red,
    BarEmpty,
    Separator,
    Accent,
}

/// A cell of the side panel. A cell without a glyph has the glyph 0.
#[derive(Debug, Clone, Copy, PartialEq, Eq, Structural)]
pub struct SidebarCell {
    pub glyph: u32,
    pub fg: SidebarColor,
    pub bg: SidebarColor,
}

impl SidebarCell {
    /// A cell that nothing was drawn on.
    pub open spec fn background() -> SidebarCell {
        SidebarCell { glyph: 0, fg: SidebarColor::Unset, bg: SidebarColor::SidebarBg }
    }

    /// A cell that shows a character.
    pub open spec fn showing(ch: char, fg: SidebarColor, bg: SidebarColor) -> SidebarCell {
        SidebarCell { glyph: ch as u32, fg, bg }
    }

    /// The cell with another background, unless it shows a character.
    pub open spec fn lifted(self, bg: SidebarColor) -> SidebarCell {
        if self.glyph == 0 {
            SidebarCell { bg, ..self }
        } else {
            self
        }
    }
}

/// How many of `len` characters fit from a column up to the last one.
pub open spec fn fitting(len: nat, col: u16, max_col: u16) -> int {
    if col >= max_col {
        0
    } else if len <= max_col - col {
        len as int
    } else {
        max_col - col
    }
}

/// A drawing surface: cells in rows of `cols`.
#[verifier::ext_equal]
pub struct CanvasModel {
    pub cells: Seq<SidebarCell>,
    pub cols: u16,
}

impl CanvasModel {
    /// A surface on which nothing was drawn.
    pub open spec fn blank(cols: u16, rows: nat) -> CanvasModel {
        CanvasModel { cells: Seq::new(cols as nat * rows, |i: int| SidebarCell::background()), cols }
    }

    /// The position of a cell.
    pub open spec fn offset(self, row: int, col: int) -> int {
        row * self.cols + col
    }

    /// A text from a column on, cut before `max_col`. What lies outside the surface is not drawn.
    pub open spec fn text(
        self,
        row: int,
        col: u16,
        max_col: u16,
        text: Seq<char>,
        fg: SidebarColor,
        bg: SidebarColor,
    ) -> CanvasModel {
        let from = self.offset(row, col as int);
        let n = fitting(text.len(), col, max_col);
        CanvasModel {
            cells: Seq::new(
                self.cells.len(),
                |o: int|
                    if from <= o < from + n {
                        SidebarCell::showing(text[o - from], fg, bg)
                    } else {
                        self.cells[o]
                    },
            ),
            ..self
        }
    }

    /// A horizontal rule from a column up to `max_col`.
    pub open spec fn rule(self, row: int, col: u16, max_col: u16) -> CanvasModel {
        self.text(
            row,
            col,
            max_col,
            Seq::new(fitting(0xffff, col, max_col) as nat, |i: int| '\u{2500}'),
            SidebarColor::Separator,
            SidebarColor::SidebarBg,
        )
    }

    /// A progress bar of `width` cells of which `filled` are full, cut at the last column.
    pub open spec fn bar(
        self,
        row: int,
        col: u16,
        width: u16,
        filled: u16,
        fill: SidebarColor,
    ) -> CanvasModel {
        let from = self.offset(row, col as int);
        let n = fitting(width as nat, col, self.cols);
        CanvasModel {
            cells: Seq::new(
                self.cells.len(),
                |o: int|
                    if from <= o < from + n {
                        if o - from < filled {
                            SidebarCell::showing('\u{2584}', fill, SidebarColor::CardBg)
                        } else {
                            SidebarCell::showing(
                                '\u{2581}',
                                SidebarColor::BarEmpty,
                                SidebarColor::CardBg,
                            )
                        }
                    } else {
                        self.cells[o]
                    },
            ),
            ..self
        }
    }

    /// Whether a position lies in the rows `[top, bottom)` and the columns `[left, right)`.
    pub open spec fn inside(self, o: int, top: int, bottom: int, left: u16, right: u16) -> bool {
        exists|r: int, c: int|
            #![trigger self.offset(r, c)]
            top <= r < bottom && left <= c < right && o == self.offset(r, c)
    }

    /// The background of a card; cells that show a character keep theirs.
    pub open spec fn card(
        self,
        top: int,
        bottom: int,
        left: u16,
        right: u16,
        bg: SidebarColor,
    ) -> CanvasModel {
        CanvasModel {
            cells: Seq::new(
                self.cells.len(),
                |o: int|
                    if self.inside(o, top, bottom, left, right) {
                        self.cells[o].lifted(bg)
                    } else {
                        self.cells[o]
                    },
            ),
            ..self
        }
    }

    /// A vertical stripe in a column, on the background that is there.
    pub open spec fn stripe(self, top: int, bottom: int, col: u16) -> CanvasModel {
        CanvasModel {
            cells: Seq::new(
                self.cells.len(),
                |o: int|
                    if self.inside(o, top, bottom, col, (col + 1) as u16) {
                        SidebarCell::showing('\u{2503}', SidebarColor::Accent, self.cells[o].bg)
                    } else {
                        self.cells[o]
                    },
            ),
            ..self
        }
    }

    /// The part of the surface that shows from a row on, in `rows` rows; rows beyond the surface
    /// are blank.
    pub open spec fn window(self, first: nat, rows: nat) -> Seq<SidebarCell> {
        Seq::new(
            self.cols as nat * rows,
            |o: int|
                if o + first * self.cols < self.cells.len() {
                    self.cells[o + first * self.cols]
                } else {
                    SidebarCell::background()
                },
        )
    }
}

/// A drawing surface.
pub struct Canvas {
    cells: Vec<SidebarCell>,
    cols: u16,
}

impl View for Canvas {
    type V = CanvasModel;

    closed spec fn view(&self) -> CanvasModel {
        CanvasModel { cells: self.cells@, cols: self.cols }
    }
}

/// A row and a column of 16 bits give a position of 32 bits.
proof fn offset_fits(row: int, cols: int, col: int)
    requires
        0 <= row <= 0xffff,
        0 <= cols <= 0xffff,
        0 <= col <= 0xffff,
    ensures
        0 <= row * cols,
        0 <= row * cols + col <= 0xffff_ffff,
{
    assert(0 <= row * cols <= 0xffff * 0xffff) by (nonlinear_arith)
        requires
            0 <= row <= 0xffff,
            0 <= cols <= 0xffff,
    ;
}

impl Canvas {
    /// A surface on which nothing was drawn.
    pub fn new(cols: u16, rows: usize) -> (canvas: Canvas)
        requires
            cols * rows <= usize::MAX,
        ensures
            canvas@ == CanvasModel::blank(cols, rows as nat),
    {
        let background = SidebarCell {
            glyph: 0,
            fg: SidebarColor::Unset,
            bg: SidebarColor::SidebarBg,
        };
        let count: usize = cols as usize * rows;
        let canvas = Canvas { cells: vec![background; count], cols };
        assert(canvas@ =~= CanvasModel::blank(cols, rows as nat));
        canvas
    }

    /// The width of the surface.
    pub fn cols(&self) -> (cols: u16)
        ensures
            cols == self@.cols,
    {
        self.cols
    }

    /// Set a cell, where it lies on the surface.
    fn set(&mut self, offset: usize, cell: SidebarCell)
        ensures
            final(self)@ == (CanvasModel {
                cells: if offset < old(self)@.cells.len() {
                    old(self)@.cells.update(offset as int, cell)
                } else {
                    old(self)@.cells
                },
                ..old(self)@
            }),
    {
        if offset < self.cells.len() {
            self.cells[offset] = cell;
        }
    }

    /// Draw a text from a column on, cut before `max_col`.
    pub fn write_str(
        &mut self,
        row: u16,
        col: u16,
        max_col: u16,
        text: &str,
        fg: SidebarColor,
        bg: SidebarColor,
    )
        ensures
            final(self)@ == old(self)@.text(row as int, col, max_col, text@, fg, bg),
    {
        let chars = chars_of(text);
        let ghost before = self@;
        proof {
            offset_fits(row as int, self.cols as int, 0);
        }
        let base: usize = row as usize * self.cols as usize;
        let mut c: u16 = col;
        let mut i: usize = 0;
        assert(self@ =~= before.text(row as int, col, max_col, text@.take(0), fg, bg));
        while i < chars.len() && c < max_col
            invariant
                i <= chars@.len(),
                chars@ == text@,
                base == row * self.cols,
                before.cols == self.cols,
                c == col + i,
                c <= max_col || i == 0,
                self@ == before.text(row as int, col, max_col, text@.take(i as int), fg, bg),
            decreases chars@.len() - i,
        {
            let ch: char = chars[i];
            proof {
                offset_fits(row as int, self.cols as int, c as int);
            }
            self.set(base + c as usize, SidebarCell { glyph: ch as u32, fg, bg });
            c = c + 1;
            i = i + 1;
            assert(self@ =~= before.text(row as int, col, max_col, text@.take(i as int), fg, bg));
        }
        assert(self@ =~= before.text(row as int, col, max_col, text@, fg, bg));
    }

    /// Draw a horizontal rule.
    pub fn write_separator(&mut self, row: u16, col: u16, max_col: u16)
        ensures
            final(self)@ == old(self)@.rule(row as int, col, max_col),
    {
        let ghost before = self@;
        let mut rule = String::new();
        let width: u16 = max_col.saturating_sub(col);
        let mut i: u16 = 0;
        while i < width
            invariant
                i <= width,
                rule@ == Seq::new(i as nat, |k: int| '\u{2500}'),
            decreases width - i,
        {
            rule.push('\u{2500}');
            i = i + 1;
            assert(rule@ =~= Seq::new(i as nat, |k: int| '\u{2500}'));
        }
        assert(rule@ =~= Seq::new(fitting(0xffff, col, max_col) as nat, |i: int| '\u{2500}'));
        self.write_str(
            row,
            col,
            max_col,
            rule.as_str(),
            SidebarColor::Separator,
            SidebarColor::SidebarBg,
        );
    }

    /// Draw a progress bar.
    pub fn render_progress_bar(
        &mut self,
        row: u16,
        col: u16,
        width: u16,
        filled: u16,
        fill: SidebarColor,
    )
        ensures
            final(self)@ == old(self)@.bar(row as int, col, width, filled, fill),
    {
        let ghost before = self@;
        proof {
            offset_fits(row as int, self.cols as int, 0);
        }
        let base: usize = row as usize * self.cols as usize;
        let mut i: u16 = 0;
        assert(self@ =~= before.bar(row as int, col, 0, filled, fill));
        while i < width && (col as u32) + (i as u32) < self.cols as u32
            invariant
                i <= width,
                base == row * self.cols,
                before.cols == self.cols,
                i > 0 ==> col + i <= self.cols,
                self@ == before.bar(row as int, col, i, filled, fill),
            decreases width - i,
        {
            proof {
                offset_fits(row as int, self.cols as int, col + i);
            }
            let offset: usize = base + (col + i) as usize;
            let cell = if i < filled {
                SidebarCell { glyph: '\u{2584}' as u32, fg: fill, bg: SidebarColor::CardBg }
            } else {
                SidebarCell {
                    glyph: '\u{2581}' as u32,
                    fg: SidebarColor::BarEmpty,
                    bg: SidebarColor::CardBg,
                }
            };
            self.set(offset, cell);
            i = i + 1;
            assert(self@ =~= before.bar(row as int, col, i, filled, fill));
        }
        assert(self@ =~= before.bar(row as int, col, width, filled, fill));
    }

    /// Fill the background of a card.
    pub fn fill_card_bg(&mut self, top: u16, bottom: u16, left: u16, right: u16, bg: SidebarColor)
        ensures
            final(self)@ == old(self)@.card(top as int, bottom as int, left, right, bg),
    {
        let ghost before = self@;
        let mut r: u16 = top;
        assert(self@ =~= before.card(top as int, top as int, left, right, bg));
        while r < bottom
            invariant
                top <= r,
                r <= bottom || r == top,
                before.cols == self.cols,
                self@ == before.card(top as int, r as int, left, right, bg),
            decreases bottom - r,
        {
            let ghost rows_done = self@;
            proof {
                offset_fits(r as int, self.cols as int, 0);
            }
            let base: usize = r as usize * self.cols as usize;
            let mut c: u16 = left;
            assert(self@ =~= rows_done.card(r as int, r + 1, left, left, bg));
            while c < right
                invariant
                    left <= c,
                    c <= right || c == left,
                    base == r * self.cols,
                    rows_done.cols == self.cols,
                    self@ == rows_done.card(r as int, r + 1, left, c, bg),
                decreases right - c,
            {
                proof {
                    offset_fits(r as int, self.cols as int, c as int);
                    assert(rows_done.offset(r as int, c as int) == base + c);
                }
                let offset: usize = base + c as usize;
                let ghost now = self@;
                if offset < self.cells.len() && self.cells[offset].glyph == 0 {
                    let cell = self.cells[offset];
                    self.cells[offset] = SidebarCell { bg, ..cell };
                }
                proof {
                    assert forall|o: int| 0 <= o < now.cells.len() implies #[trigger] self@.cells[o]
                        == rows_done.card(r as int, r + 1, left, (c + 1) as u16, bg).cells[o] by {
                        wider_by_one(rows_done, o, r as int, left, c);
                    }
                }
                c = c + 1;
                assert(self@ =~= rows_done.card(r as int, r + 1, left, c, bg));
            }
            proof {
                assert forall|o: int| 0 <= o < before.cells.len() implies #[trigger] self@.cells[o]
                    == before.card(top as int, r + 1, left, right, bg).cells[o] by {
                    higher_by_one(before, o, top as int, r as int, left, right);
                    same_place(before, rows_done, o, r as int, r + 1, left, right);
                    if c < right || c > right {
                        assert(!rows_done.inside(o, r as int, r + 1, left, right));
                    }
                }
            }
            r = r + 1;
            assert(self@ =~= before.card(top as int, r as int, left, right, bg));
        }
        assert(self@ =~= before.card(top as int, bottom as int, left, right, bg));
    }

    /// Paint a thin vertical accent in a column, on the background that is there.
    pub fn paint_left_accent(&mut self, top: u16, bottom: u16, col: u16)
        requires
            col < 0xffff,
        ensures
            final(self)@ == old(self)@.stripe(top as int, bottom as int, col),
    {
        let ghost before = self@;
        let mut r: u16 = top;
        assert(self@ =~= before.stripe(top as int, top as int, col));
        while r < bottom
            invariant
                top <= r,
                r <= bottom || r == top,
                col < 0xffff,
                before.cols == self.cols,
                self@ == before.stripe(top as int, r as int, col),
            decreases bottom - r,
        {
            proof {
                offset_fits(r as int, self.cols as int, col as int);
                assert(before.offset(r as int, col as int) == r * self.cols + col);
            }
            let offset: usize = r as usize * self.cols as usize + col as usize;
            let ghost now = self@;
            if offset < self.cells.len() {
                let bg = self.cells[offset].bg;
                self.cells[offset] = SidebarCell {
                    glyph: '\u{2503}' as u32,
                    fg: SidebarColor::Accent,
                    bg,
                };
            }
            proof {
                assert forall|o: int| 0 <= o < now.cells.len() implies #[trigger] self@.cells[o]
                    == before.stripe(top as int, r + 1, col).cells[o] by {
                    higher_by_one(before, o, top as int, r as int, col, (col + 1) as u16);
                    wider_by_one(before, o, r as int, col, col);
                }
            }
            r = r + 1;
            assert(self@ =~= before.stripe(top as int, r as int, col));
        }
        assert(self@ =~= before.stripe(top as int, bottom as int, col));
    }

    /// The part that shows from a row on.
    pub fn visible_window(&self, first: u16, rows: u16) -> (cells: Vec<SidebarCell>)
        ensures
            cells@ == self@.window(first as nat, rows as nat),
    {
        proof {
            offset_fits(rows as int, self.cols as int, 0);
            offset_fits(first as int, self.cols as int, 0);
            assert(self.cols * rows == rows * self.cols) by (nonlinear_arith);
        }
        let count: usize = rows as usize * self.cols as usize;
        let skip: usize = first as usize * self.cols as usize;
        let mut cells: Vec<SidebarCell> = Vec::new();
        let mut o: usize = 0;
        while o < count
            invariant
                o <= count,
                count == self.cols * rows,
                skip == first * self.cols,
                self@.cells == self.cells@,
                self@.cols == self.cols,
                cells@ == self@.window(first as nat, rows as nat).take(o as int),
            decreases count - o,
        {
            let cell = if skip < self.cells.len() && o < self.cells.len() - skip {
                self.cells[skip + o]
            } else {
                SidebarCell { glyph: 0, fg: SidebarColor::Unset, bg: SidebarColor::SidebarBg }
            };
            cells.push(cell);
            o = o + 1;
            assert(cells@ =~= self@.window(first as nat, rows as nat).take(o as int));
        }
        assert(cells@ =~= self@.window(first as nat, rows as nat));
        cells
    }
}

/// One more column of a row.
proof fn wider_by_one(canvas: CanvasModel, o: int, r: int, left: u16, c: u16)
    requires
        left <= c < 0xffff,
    ensures
        canvas.inside(o, r, r + 1, left, (c + 1) as u16) == (canvas.inside(o, r, r + 1, left, c)
            || o == canvas.offset(r, c as int)),
{
    if o == canvas.offset(r, c as int) {
        assert(canvas.inside(o, r, r + 1, left, (c + 1) as u16));
    }
    if canvas.inside(o, r, r + 1, left, c) {
        let (r0, c0) = choose|r0: int, c0: int|
            #![trigger canvas.offset(r0, c0)]
            r <= r0 < r + 1 && left <= c0 < c && o == canvas.offset(r0, c0);
        assert(r <= r0 < r + 1 && left <= c0 < c + 1 && o == canvas.offset(r0, c0));
    }
    if canvas.inside(o, r, r + 1, left, (c + 1) as u16) {
        let (r0, c0) = choose|r0: int, c0: int|
            #![trigger canvas.offset(r0, c0)]
            r <= r0 < r + 1 && left <= c0 < c + 1 && o == canvas.offset(r0, c0);
        if c0 < c {
            assert(canvas.inside(o, r, r + 1, left, c));
        }
    }
}

/// One more row.
proof fn higher_by_one(canvas: CanvasModel, o: int, top: int, r: int, left: u16, right: u16)
    requires
        top <= r,
    ensures
        canvas.inside(o, top, r + 1, left, right) == (canvas.inside(o, top, r, left, right)
            || canvas.inside(o, r, r + 1, left, right)),
{
    if canvas.inside(o, top, r + 1, left, right) {
        let (r0, c0) = choose|r0: int, c0: int|
            #![trigger canvas.offset(r0, c0)]
            top <= r0 < r + 1 && left <= c0 < right && o == canvas.offset(r0, c0);
        if r0 < r {
            assert(canvas.inside(o, top, r, left, right));
        } else {
            assert(canvas.inside(o, r, r + 1, left, right));
        }
    }
    if canvas.inside(o, top, r, left, right) {
        let (r0, c0) = choose|r0: int, c0: int|
            #![trigger canvas.offset(r0, c0)]
            top <= r0 < r && left <= c0 < right && o == canvas.offset(r0, c0);
        assert(top <= r0 < r + 1 && o == canvas.offset(r0, c0));
    }
    if canvas.inside(o, r, r + 1, left, right) {
        let (r0, c0) = choose|r0: int, c0: int|
            #![trigger canvas.offset(r0, c0)]
            r <= r0 < r + 1 && left <= c0 < right && o == canvas.offset(r0, c0);
        assert(top <= r0 < r + 1 && o == canvas.offset(r0, c0));
    }
}

/// Positions do not depend on what is drawn.
proof fn same_place(
    canvas: CanvasModel,
    other: CanvasModel,
    o: int,
    top: int,
    bottom: int,
    left: u16,
    right: u16,
)
    requires
        canvas.cols == other.cols,
    ensures
        canvas.inside(o, top, bottom, left, right) == other.inside(o, top, bottom, left, right),
{
    if canvas.inside(o, top, bottom, left, right) {
        let (r, c) = choose|r: int, c: int|
            #![trigger canvas.offset(r, c)]
            top <= r < bottom && left <= c < right && o == canvas.offset(r, c);
        assert(o == other.offset(r, c));
    }
    if other.inside(o, top, bottom, left, right) {
        let (r, c) = choose|r: int, c: int|
            #![trigger other.offset(r, c)]
            top <= r < bottom && left <= c < right && o == other.offset(r, c);
        assert(o == canvas.offset(r, c));
    }
}

} // verus!
