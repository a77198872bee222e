use vstd::prelude::*;

use super::model::{
    ansi_color, at_most, extended_color, first_of, low_byte, next_stop, param_or, restyled, sgr,
    simple_sgr, ParamLists, ScreenModel,
};
use super::state::{MouseMode, TerminalState};
use crate::grid::cell::{Cell, CellAttributes, CellFlags, Color, NamedColor};
use crate::grid::storage::Grid;
use crate::primitives::DirtyRows;
use crate::text::text_from_utf8;

verus! {

/// The parameters of a control sequence as mathematical values.
pub open spec fn param_values(params: Seq<Vec<u16>>) -> ParamLists {
    Seq::new(params.len(), |i: int| params[i]@)
}

/// The fields of an operating system command as mathematical values.
pub open spec fn field_values(params: Seq<Vec<u8>>) -> Seq<Seq<u8>> {
    Seq::new(params.len(), |i: int| params[i]@)
}

/// Writes to the grid based on escape sequences.
pub struct VtHandler<'a> {
    pub grid: &'a mut Grid,
    pub state: &'a mut TerminalState,
    pub dirty: &'a mut DirtyRows,
}

impl<'a> View for VtHandler<'a> {
    type V = ScreenModel;

    open spec fn view(&self) -> ScreenModel {
        ScreenModel { grid: self.grid@, term: self.state@, dirty: self.dirty@ }
    }
}

/// The smaller of a value and its limit.
fn limited(n: u32, max: u16) -> (limited: u16)
    ensures
        limited == at_most(n as int, max),
{
    if n <= max as u32 {
        n as u16
    } else {
        max
    }
}

/// The first value of parameter `idx`; 0 where it is missing.
fn first_value(params: &Vec<Vec<u16>>, idx: usize) -> (value: u16)
    ensures
        value == first_of(param_values(params@), idx as int),
{
    if idx < params.len() && params[idx].len() > 0 {
        params[idx][0]
    } else {
        0
    }
}

/// The first value of parameter `idx`; `default` where it is missing or 0.
fn value_or(params: &Vec<Vec<u16>>, idx: usize, default: u16) -> (value: u16)
    ensures
        value == param_or(param_values(params@), idx as int, default),
{
    let value: u16 = first_value(params, idx);
    if value == 0 {
        default
    } else {
        value
    }
}

/// The low byte of a parameter value.
fn byte_of(v: u16) -> (b: u8)
    ensures
        b == low_byte(v),
{
    (v % 256) as u8
}

/// The named colour with the given index.
fn named_color(idx: u16) -> (color: NamedColor)
    ensures
        color == ansi_color(idx as int),
{
    match idx {
        0 => NamedColor::Black,
        1 => NamedColor::Red,
        2 => NamedColor::Green,
        3 => NamedColor::Yellow,
        4 => NamedColor::Blue,
        5 => NamedColor::Magenta,
        6 => NamedColor::Cyan,
        7 => NamedColor::White,
        8 => NamedColor::BrightBlack,
        9 => NamedColor::BrightRed,
        10 => NamedColor::BrightGreen,
        11 => NamedColor::BrightYellow,
        12 => NamedColor::BrightBlue,
        13 => NamedColor::BrightMagenta,
        14 => NamedColor::BrightCyan,
        _ => NamedColor::BrightWhite,
    }
}

/// The flags after the attribute code `p`.
fn restyle(flags: CellFlags, p: u16) -> (styled: CellFlags)
    ensures
        styled == restyled(flags, p),
{
    let mut styled = flags;
    match p {
        1 => styled.bold = true,
        2 => styled.dim = true,
        3 => styled.italic = true,
        4 => styled.underline = true,
        7 => styled.inverse = true,
        8 => styled.hidden = true,
        9 => styled.strikethrough = true,
        21 => styled.bold = false,
        22 => {
            styled.bold = false;
            styled.dim = false;
        },
        23 => styled.italic = false,
        24 => styled.underline = false,
        27 => styled.inverse = false,
        28 => styled.hidden = false,
        29 => styled.strikethrough = false,
        _ => {},
    }
    styled
}

/// The attributes after the code `p`, which takes no further parameters.
fn apply_simple_sgr(attrs: CellAttributes, p: u16) -> (styled: CellAttributes)
    ensures
        styled == simple_sgr(attrs, p),
{
    match p {
        0 => (Color::Default, Color::Default, CellFlags::empty()),
        30..=37 => (Color::Named(named_color(p - 30)), attrs.1, attrs.2),
        39 => (Color::Default, attrs.1, attrs.2),
        40..=47 => (attrs.0, Color::Named(named_color(p - 40)), attrs.2),
        49 => (attrs.0, Color::Default, attrs.2),
        90..=97 => (Color::Named(named_color(p - 90 + 8)), attrs.1, attrs.2),
        100..=107 => (attrs.0, Color::Named(named_color(p - 100 + 8)), attrs.2),
        _ => (attrs.0, attrs.1, restyle(attrs.2, p)),
    }
}

/// The first value of the parameter `k` places after parameter `i`; 0 where it is missing.
fn first_value_after(params: &Vec<Vec<u16>>, i: usize, k: usize) -> (value: u16)
    requires
        i <= params@.len(),
    ensures
        value == first_of(param_values(params@), i + k),
{
    if k < params.len() - i {
        first_value(params, i + k)
    } else {
        0
    }
}

/// The colour of the extended colour sequence at parameter `i` (`38;2;r;g;b`, `38;5;idx` or their
/// colon forms, `38:2:r:g:b` with a colour space before the red or without one), and how many of the parameters after it belong to it.
pub fn parse_extended_color(params: &Vec<Vec<u16>>, i: usize) -> (parsed: (Option<Color>, usize))
    ensures
        (parsed.0, parsed.1 as int) == extended_color(param_values(params@), i as int),
{
    if i >= params.len() {
        return (None, 0);
    }
    let current: &Vec<u16> = &params[i];
    if current.len() > 1 {
        let color = match current[1] {
            2 => {
                if current.len() >= 6 {
                    Some(
                        Color::Rgb(byte_of(current[3]), byte_of(current[4]), byte_of(current[5])),
                    )
                } else if current.len() >= 4 {
                    let b: u16 = if current.len() == 5 {
                        current[4]
                    } else {
                        0
                    };
                    Some(Color::Rgb(byte_of(current[2]), byte_of(current[3]), byte_of(b)))
                } else {
                    None
                }
            },
            5 => {
                if current.len() > 2 {
                    Some(Color::Indexed(byte_of(current[2])))
                } else {
                    None
                }
            },
            _ => None,
        };
        return (color, 0);
    }
    if params.len() - i <= 1 || params[i + 1].len() == 0 {
        return (None, 0);
    }
    match params[i + 1][0] {
        2 => {
            let r: u8 = byte_of(first_value_after(params, i, 2));
            let g: u8 = byte_of(first_value_after(params, i, 3));
            let b: u8 = byte_of(first_value_after(params, i, 4));
            (Some(Color::Rgb(r, g, b)), 4)
        },
        5 => (Some(Color::Indexed(byte_of(first_value_after(params, i, 2)))), 2),
        _ => (None, 0),
    }
}

impl<'a> VtHandler<'a> {
    pub fn new(
        grid: &'a mut Grid,
        state: &'a mut TerminalState,
        dirty: &'a mut DirtyRows,
    ) -> (handler: VtHandler<'a>)
        ensures
            *handler.grid == *old(grid),
            *handler.state == *old(state),
            *handler.dirty == *old(dirty),
            *final(handler.grid) == *final(grid),
            *final(handler.state) == *final(state),
            *final(handler.dirty) == *final(dirty),
    {
        VtHandler { grid, state, dirty }
    }

    fn mark_dirty(&mut self, row: u16)
        ensures
            final(self)@ == old(self)@.marked(row),
            *final(self).grid == *old(self).grid,
            *final(final(self).grid) == *final(old(self).grid),
            *final(final(self).state) == *final(old(self).state),
            *final(final(self).dirty) == *final(old(self).dirty),
    {
        self.dirty.mark(row);
    }

    fn mark_region(&mut self, top: usize, bottom: usize)
        requires
            bottom <= 0xffff,
        ensures
            final(self)@ == old(self)@.region_marked(top as int, bottom as int),
            *final(self).grid == *old(self).grid,
            *final(final(self).grid) == *final(old(self).grid),
            *final(final(self).state) == *final(old(self).state),
            *final(final(self).dirty) == *final(old(self).dirty),
    {
        let ghost start = self@;
        let mut r: usize = top;
        assert(start =~= start.region_marked(top as int, top as int));
        while r < bottom
            invariant
                r <= bottom || r == top,
                top <= r,
                bottom <= 0xffff,
                self@ == start.region_marked(top as int, r as int),
                *self.grid == *old(self).grid,
                *final(self.grid) == *final(old(self).grid),
                *final(self.state) == *final(old(self).state),
                *final(self.dirty) == *final(old(self).dirty),
            decreases bottom - r,
        {
            self.dirty.mark(r as u16);
            r = r + 1;
            assert(self@ =~= start.region_marked(top as int, r as int));
        }
        assert(self@ =~= start.region_marked(top as int, bottom as int));
    }

    fn cols(&self) -> (cols: u16)
        ensures
            cols == self@.cols(),
    {
        self.grid.cols() as u16
    }

    fn rows(&self) -> (rows: u16)
        ensures
            rows == self@.rows(),
    {
        self.grid.visible_rows() as u16
    }

    fn carriage_return(&mut self)
        ensures
            final(self)@ == old(self)@.carriage_return(),
            *final(self).grid == *old(self).grid,
            *final(final(self).grid) == *final(old(self).grid),
            *final(final(self).state) == *final(old(self).state),
            *final(final(self).dirty) == *final(old(self).dirty),
    {
        self.state.pending_wrap = false;
        self.state.cursor.col = 0;
    }

    fn linefeed(&mut self)
        requires
            old(self).grid.wf(),
        ensures
            final(self).grid.wf(),
            final(self)@ == old(self)@.linefeed(),
            *final(final(self).grid) == *final(old(self).grid),
            *final(final(self).state) == *final(old(self).state),
            *final(final(self).dirty) == *final(old(self).dirty),
    {
        let bottom: u16 = self.state.scroll_bottom();
        if self.state.cursor.row as u32 + 1 >= bottom as u32 {
            // At the bottom of the scroll region: scroll up
            let top: usize = self.state.scroll_top() as usize;
            let bot: usize = bottom as usize;
            self.grid.scroll_up(top, bot, 1);
            self.mark_region(top, bot);
        } else {
            self.state.cursor.row = self.state.cursor.row + 1;
        }
    }

    fn reverse_index(&mut self)
        requires
            old(self).grid.wf(),
        ensures
            final(self).grid.wf(),
            final(self)@ == old(self)@.reverse_index(),
            *final(final(self).grid) == *final(old(self).grid),
            *final(final(self).state) == *final(old(self).state),
            *final(final(self).dirty) == *final(old(self).dirty),
    {
        let top: u16 = self.state.scroll_top();
        if self.state.cursor.row <= top {
            // At the top of the scroll region: scroll down
            let bot: usize = self.state.scroll_bottom() as usize;
            self.grid.scroll_down(top as usize, bot, 1);
            self.mark_region(top as usize, bot);
        } else {
            self.state.cursor.row = self.state.cursor.row - 1;
        }
    }

    /// Write a character at the current cursor position and advance.
    /// Uses delayed wrap: when printing at the last column, `pending_wrap` is set instead of wrapping
    /// at once. The wrap happens on the next printable character.
    fn put_char(&mut self, c: char)
        requires
            old(self).grid.wf(),
        ensures
            final(self).grid.wf(),
            final(self)@ == old(self)@.put_char(c),
            *final(final(self).grid) == *final(old(self).grid),
            *final(final(self).state) == *final(old(self).state),
            *final(final(self).dirty) == *final(old(self).dirty),
    {
        if self.state.pending_wrap {
            self.carriage_return();
            self.linefeed();
        }
        let row: usize = self.state.cursor.row as usize;
        let col: usize = self.state.cursor.col as usize;
        let (fg, bg, flags) = self.state.attrs;
        if self.state.insert_mode {
            if let Some(line) = self.grid.row_mut(row) {
                line.insert_cells(col, 1);
            }
        }
        if let Some(cell) = self.grid.cell_mut(row, col) {
            *cell = Cell { ch: c, fg, bg, flags };
        }
        self.mark_dirty(self.state.cursor.row);
        let cols: u16 = self.cols();
        if (self.state.cursor.col as u32) + 1 < cols as u32 {
            self.state.cursor.col = self.state.cursor.col + 1;
        } else if self.state.autowrap {
            self.state.pending_wrap = true;
        }
    }

    fn tab(&mut self)
        requires
            old(self).grid.wf(),
        ensures
            final(self).grid.wf(),
            final(self)@ == old(self)@.tab(),
            *final(final(self).grid) == *final(old(self).grid),
            *final(final(self).state) == *final(old(self).state),
            *final(final(self).dirty) == *final(old(self).dirty),
    {
        let cols: u16 = self.cols();
        let last: u16 = cols.saturating_sub(1);
        let ghost start = self@;
        let cur: u16 = self.state.cursor.col;
        let mut i: usize = 0;
        let mut next: Option<u16> = None;
        assert(self.state.tab_stops@.skip(0) =~= self.state.tab_stops@);
        while i < self.state.tab_stops.len() && next.is_none()
            invariant
                i <= self.state.tab_stops@.len(),
                self@ == start,
                self.grid.wf(),
                match next {
                    Some(t) => next_stop(start.term.tab_stops, cur) == Some(t),
                    None => next_stop(start.term.tab_stops, cur) == next_stop(
                        start.term.tab_stops.skip(i as int),
                        cur,
                    ),
                },
                *final(self.grid) == *final(old(self).grid),
                *final(self.state) == *final(old(self).state),
                *final(self.dirty) == *final(old(self).dirty),
            decreases self.state.tab_stops@.len() - i,
        {
            let stop: u16 = self.state.tab_stops[i];
            assert(start.term.tab_stops.skip(i as int).drop_first()
                =~= start.term.tab_stops.skip(i + 1));
            if stop > cur {
                next = Some(stop);
            }
            i = i + 1;
        }
        self.state.cursor.col = match next {
            Some(t) => limited(t as u32, last),
            None => last,
        };
    }

    fn backspace(&mut self)
        requires
            old(self).grid.wf(),
        ensures
            final(self).grid.wf(),
            final(self)@ == old(self)@.backspace(),
            *final(final(self).grid) == *final(old(self).grid),
            *final(final(self).state) == *final(old(self).state),
            *final(final(self).dirty) == *final(old(self).dirty),
    {
        self.state.pending_wrap = false;
        if self.state.cursor.col > 0 {
            self.state.cursor.col = self.state.cursor.col - 1;
        }
    }

    /// Clear the lines `[from, to)` and mark them.
    fn clear_lines(&mut self, from: usize, to: usize)
        requires
            old(self).grid.wf(),
            to <= 0xffff,
        ensures
            final(self).grid.wf(),
            final(self)@ == old(self)@.lines_cleared(from as int, to as int),
            *final(final(self).grid) == *final(old(self).grid),
            *final(final(self).state) == *final(old(self).state),
            *final(final(self).dirty) == *final(old(self).dirty),
    {
        let ghost start = self@;
        let mut r: usize = from;
        assert(start =~~= start.lines_cleared(from as int, from as int));
        while r < to
            invariant
                from <= r,
                r <= to || r == from,
                to <= 0xffff,
                self.grid.wf(),
                self@ == start.lines_cleared(from as int, r as int),
                *final(self.grid) == *final(old(self).grid),
                *final(self.state) == *final(old(self).state),
                *final(self.dirty) == *final(old(self).dirty),
            decreases to - r,
        {
            if let Some(line) = self.grid.row_mut(r) {
                line.clear();
            }
            self.dirty.mark(r as u16);
            r = r + 1;
            assert(self@ =~= start.lines_cleared(from as int, r as int));
        }
        assert(self@ =~= start.lines_cleared(from as int, to as int));
    }

    /// Erase part of the display: from the cursor, up to the cursor, or all of it.
    fn erase_display(&mut self, mode: u16)
        requires
            old(self).grid.wf(),
        ensures
            final(self).grid.wf(),
            final(self)@ == old(self)@.erase_display(mode),
            *final(final(self).grid) == *final(old(self).grid),
            *final(final(self).state) == *final(old(self).state),
            *final(final(self).dirty) == *final(old(self).dirty),
    {
        let ghost start = self@;
        let rows: usize = self.rows() as usize;
        let row: usize = self.state.cursor.row as usize;
        let col: usize = self.state.cursor.col as usize;
        match mode {
            0 => {
                if let Some(line) = self.grid.row_mut(row) {
                    line.clear_from(col);
                }
                self.mark_dirty(self.state.cursor.row);
                self.clear_lines(row + 1, rows);
            },
            1 => {
                self.clear_lines(0, row);
                if let Some(line) = self.grid.row_mut(row) {
                    line.clear_to(col + 1);
                }
                self.mark_dirty(self.state.cursor.row);
            },
            2 | 3 => {
                self.grid.clear_visible();
                self.dirty.mark_all();
            },
            _ => {},
        }
        assert(self@ =~= start.erase_display(mode));
    }

    /// Erase part of the cursor's line: from the cursor, up to the cursor, or all of it.
    fn erase_line(&mut self, mode: u16)
        requires
            old(self).grid.wf(),
        ensures
            final(self).grid.wf(),
            final(self)@ == old(self)@.erase_line(mode),
            *final(final(self).grid) == *final(old(self).grid),
            *final(final(self).state) == *final(old(self).state),
            *final(final(self).dirty) == *final(old(self).dirty),
    {
        let row: usize = self.state.cursor.row as usize;
        let col: usize = self.state.cursor.col as usize;
        match mode {
            0 => {
                if let Some(line) = self.grid.row_mut(row) {
                    line.clear_from(col);
                }
            },
            1 => {
                if let Some(line) = self.grid.row_mut(row) {
                    line.clear_to(col + 1);
                }
            },
            2 => {
                if let Some(line) = self.grid.row_mut(row) {
                    line.clear();
                }
            },
            _ => {},
        }
        self.mark_dirty(self.state.cursor.row);
    }

    /// Select the graphic rendition of the characters that follow.
    fn sgr(&mut self, params: &Vec<Vec<u16>>)
        requires
            old(self).grid.wf(),
        ensures
            final(self).grid.wf(),
            final(self)@ == old(self)@.styled(sgr(old(self)@.term.attrs, param_values(params@), 0)),
            *final(final(self).grid) == *final(old(self).grid),
            *final(final(self).state) == *final(old(self).state),
            *final(final(self).dirty) == *final(old(self).dirty),
    {
        let ghost start = self@;
        let ghost values = param_values(params@);
        let mut i: usize = 0;
        while i < params.len()
            invariant
                i <= params@.len(),
                values == param_values(params@),
                self.grid.wf(),
                self@ == start.styled(self@.term.attrs),
                sgr(self@.term.attrs, values, i as int) == sgr(start.term.attrs, values, 0),
                *final(self.grid) == *final(old(self).grid),
                *final(self.state) == *final(old(self).state),
                *final(self.dirty) == *final(old(self).dirty),
            decreases params@.len() - i,
        {
            let p: u16 = first_value(params, i);
            let mut taken: usize = 0;
            if p == 38 || p == 48 {
                let (color, used) = parse_extended_color(params, i);
                taken = used;
                if let Some(c) = color {
                    if p == 38 {
                        self.state.attrs.0 = c;
                    } else {
                        self.state.attrs.1 = c;
                    }
                }
            } else {
                self.state.attrs = apply_simple_sgr(self.state.attrs, p);
            }
            if taken >= params.len() - i {
                // The sequence ends before all the parameters that it calls for.
                assert(sgr(self@.term.attrs, values, i + taken + 1) == self@.term.attrs);
                i = params.len();
            } else {
                i = i + taken + 1;
            }
        }
    }

    /// Switch one private mode on or off.
    fn set_private_mode(&mut self, mode: u16, enable: bool)
        requires
            old(self).grid.wf(),
        ensures
            final(self).grid.wf(),
            final(self)@ == old(self)@.private_mode(mode, enable),
            *final(final(self).grid) == *final(old(self).grid),
            *final(final(self).state) == *final(old(self).state),
            *final(final(self).dirty) == *final(old(self).dirty),
    {
        match mode {
            1 => self.state.application_cursor_keys = enable,
            6 => {
                self.state.origin_mode = enable;
                if enable {
                    self.state.cursor.row = self.state.scroll_top();
                    self.state.cursor.col = 0;
                }
            },
            7 => self.state.autowrap = enable,
            25 => self.state.cursor.visible = enable,
            1000 => {
                self.state.mouse_mode = if enable {
                    MouseMode::Press
                } else {
                    MouseMode::Off
                };
            },
            1002 => {
                self.state.mouse_mode = if enable {
                    MouseMode::PressRelease
                } else {
                    MouseMode::Off
                };
            },
            1006 => {
                self.state.mouse_mode = if enable {
                    MouseMode::Sgr
                } else {
                    MouseMode::Off
                };
            },
            1049 => {
                // Alternate screen buffer
                if enable && !self.state.alternate_screen {
                    self.state.saved_cursor = Some(self.state.cursor);
                    self.grid.clear_visible();
                    self.state.alternate_screen = true;
                    self.dirty.mark_all();
                } else if !enable && self.state.alternate_screen {
                    if let Some(saved) = self.state.saved_cursor.take() {
                        self.state.cursor = saved;
                    }
                    self.state.alternate_screen = false;
                    self.dirty.mark_all();
                }
            },
            2004 => self.state.bracketed_paste = enable,
            _ => {},
        }
    }

    /// Switch the modes of all parameters on or off, in order.
    fn set_mode(&mut self, params: &Vec<Vec<u16>>, intermediates: &Vec<u8>, enable: bool)
        requires
            old(self).grid.wf(),
        ensures
            final(self).grid.wf(),
            final(self)@ == old(self)@.set_mode(param_values(params@), intermediates@, enable),
            *final(final(self).grid) == *final(old(self).grid),
            *final(final(self).state) == *final(old(self).state),
            *final(final(self).dirty) == *final(old(self).dirty),
    {
        let ghost start = self@;
        let ghost values = param_values(params@);
        let private = intermediates.len() > 0 && intermediates[0] == 0x3f;
        let mut i: usize = 0;
        while i < params.len()
            invariant
                i <= params@.len(),
                values == param_values(params@),
                private == (intermediates@.len() > 0 && intermediates@[0] == 0x3f),
                self.grid.wf(),
                self@ == start.set_mode(values.take(i as int), intermediates@, enable),
                *final(self.grid) == *final(old(self).grid),
                *final(self.state) == *final(old(self).state),
                *final(self.dirty) == *final(old(self).dirty),
            decreases params@.len() - i,
        {
            let mode: u16 = first_value(params, i);
            if private {
                self.set_private_mode(mode, enable);
            } else if mode == 4 {
                self.state.insert_mode = enable;
            }
            i = i + 1;
            proof {
                let done = values.take(i as int);
                assert(done.drop_last() =~= values.take(i - 1));
                assert(first_of(done, i - 1) == mode);
            }
        }
        assert(values.take(i as int) =~= values);
    }

    /// Print a character.
    pub fn print(&mut self, c: char)
        requires
            old(self).grid.wf(),
        ensures
            final(self).grid.wf(),
            final(self)@ == old(self)@.put_char(c),
            *final(final(self).grid) == *final(old(self).grid),
            *final(final(self).state) == *final(old(self).state),
            *final(final(self).dirty) == *final(old(self).dirty),
    {
        self.put_char(c);
    }

    /// Execute a control character.
    pub fn execute(&mut self, byte: u8)
        requires
            old(self).grid.wf(),
        ensures
            final(self).grid.wf(),
            final(self)@ == old(self)@.execute(byte),
            *final(final(self).grid) == *final(old(self).grid),
            *final(final(self).state) == *final(old(self).state),
            *final(final(self).dirty) == *final(old(self).dirty),
    {
        match byte {
            0x08 => self.backspace(),
            0x09 => self.tab(),
            0x0A..=0x0C => self.linefeed(),
            0x0D => self.carriage_return(),
            _ => {},
        }
    }

    /// Move the cursor to an absolute position.
    fn move_to(&mut self, params: &Vec<Vec<u16>>)
        requires
            old(self).grid.wf(),
        ensures
            final(self).grid.wf(),
            final(self)@ == old(self)@.cursor_position(param_values(params@)),
            *final(final(self).grid) == *final(old(self).grid),
            *final(final(self).state) == *final(old(self).state),
            *final(final(self).dirty) == *final(old(self).dirty),
    {
        self.state.pending_wrap = false;
        let row: u16 = value_or(params, 0, 1).saturating_sub(1);
        let col: u16 = value_or(params, 1, 1).saturating_sub(1);
        let max_row: u16 = self.rows().saturating_sub(1);
        let max_col: u16 = self.cols().saturating_sub(1);
        if self.state.origin_mode {
            let top: u16 = self.state.scroll_top();
            let bottom: u16 = self.state.scroll_bottom();
            self.state.cursor.row = limited(top as u32 + row as u32, bottom.saturating_sub(1));
        } else {
            self.state.cursor.row = limited(row as u32, max_row);
        }
        self.state.cursor.col = limited(col as u32, max_col);
    }

    /// Set the scroll region.
    fn limit_scrolling(&mut self, params: &Vec<Vec<u16>>)
        requires
            old(self).grid.wf(),
        ensures
            final(self).grid.wf(),
            final(self)@ == old(self)@.set_scroll_region(param_values(params@)),
            *final(final(self).grid) == *final(old(self).grid),
            *final(final(self).state) == *final(old(self).state),
            *final(final(self).dirty) == *final(old(self).dirty),
    {
        let top: u16 = value_or(params, 0, 1).saturating_sub(1);
        let wanted: u16 = first_value(params, 1);
        let bottom: u16 = if wanted == 0 {
            self.rows()
        } else {
            limited(wanted as u32, self.rows())
        };
        if top < bottom {
            self.state.scroll_region = (top, bottom);
            if self.state.origin_mode {
                self.state.cursor.row = top;
            } else {
                self.state.cursor.row = 0;
            }
            self.state.cursor.col = 0;
        }
    }

    /// Move the cursor: relative for A, B, C and D, absolute for G and d.
    fn move_cursor(&mut self, n: u16, action: char)
        requires
            old(self).grid.wf(),
        ensures
            final(self).grid.wf(),
            final(self)@ == old(self)@.cursor_moved(n, action),
            *final(final(self).grid) == *final(old(self).grid),
            *final(final(self).state) == *final(old(self).state),
            *final(final(self).dirty) == *final(old(self).dirty),
    {
        self.state.pending_wrap = false;
        let max_row: u16 = self.rows().saturating_sub(1);
        let max_col: u16 = self.cols().saturating_sub(1);
        let row: u16 = self.state.cursor.row;
        let col: u16 = self.state.cursor.col;
        match action {
            'A' => self.state.cursor.row = row.saturating_sub(n),
            'B' => self.state.cursor.row = limited(row as u32 + n as u32, max_row),
            'C' => self.state.cursor.col = limited(col as u32 + n as u32, max_col),
            'D' => self.state.cursor.col = col.saturating_sub(n),
            'G' => self.state.cursor.col = limited(n.saturating_sub(1) as u32, max_col),
            _ => self.state.cursor.row = limited(n.saturating_sub(1) as u32, max_row),
        }
    }

    /// Insert (L) or delete (M) lines at the cursor, or scroll the region up (S) or down (T).
    fn move_lines(&mut self, n: u16, action: char)
        requires
            old(self).grid.wf(),
        ensures
            final(self).grid.wf(),
            final(self)@ == old(self)@.lines_moved(n, action),
            *final(final(self).grid) == *final(old(self).grid),
            *final(final(self).state) == *final(old(self).state),
            *final(final(self).dirty) == *final(old(self).dirty),
    {
        let row: usize = self.state.cursor.row as usize;
        let top: usize = self.state.scroll_top() as usize;
        let bottom: usize = self.state.scroll_bottom() as usize;
        match action {
            'L' => self.grid.insert_lines(row, n as usize, top, bottom),
            'M' => self.grid.delete_lines(row, n as usize, top, bottom),
            'S' => self.grid.scroll_up(top, bottom, n as usize),
            _ => self.grid.scroll_down(top, bottom, n as usize),
        }
        self.mark_region(top, bottom);
    }

    /// Insert (@), delete (P) or erase (X) characters at the cursor.
    fn edit_line(&mut self, n: u16, action: char)
        requires
            old(self).grid.wf(),
        ensures
            final(self).grid.wf(),
            final(self)@ == old(self)@.line_edited(n, action),
            *final(final(self).grid) == *final(old(self).grid),
            *final(final(self).state) == *final(old(self).state),
            *final(final(self).dirty) == *final(old(self).dirty),
    {
        let row: usize = self.state.cursor.row as usize;
        let col: usize = self.state.cursor.col as usize;
        if let Some(line) = self.grid.row_mut(row) {
            match action {
                '@' => line.insert_cells(col, n as usize),
                'P' => line.delete_cells(col, n as usize),
                _ => line.clear_range(col, col + n as usize),
            }
        }
        self.mark_dirty(self.state.cursor.row);
    }

    /// Perform a control sequence.
    pub fn csi_dispatch(&mut self, params: &Vec<Vec<u16>>, intermediates: &Vec<u8>, action: char)
        requires
            old(self).grid.wf(),
        ensures
            final(self).grid.wf(),
            final(self)@ == old(self)@.csi(param_values(params@), intermediates@, action),
            *final(final(self).grid) == *final(old(self).grid),
            *final(final(self).state) == *final(old(self).state),
            *final(final(self).dirty) == *final(old(self).dirty),
    {
        let n: u16 = value_or(params, 0, 1);
        match action {
            'A' | 'B' | 'C' | 'D' | 'G' | 'd' => self.move_cursor(n, action),
            'L' | 'M' | 'S' | 'T' => self.move_lines(n, action),
            '@' | 'P' | 'X' => self.edit_line(n, action),
            'H' | 'f' => self.move_to(params),
            'J' => {
                let mode: u16 = value_or(params, 0, 0);
                self.erase_display(mode);
            },
            'K' => {
                let mode: u16 = value_or(params, 0, 0);
                self.erase_line(mode);
            },
            'm' => {
                if params.len() == 0 {
                    self.state.attrs = (Color::Default, Color::Default, CellFlags::empty());
                } else {
                    self.sgr(params);
                }
            },
            'r' => self.limit_scrolling(params),
            'h' => self.set_mode(params, intermediates, true),
            'l' => self.set_mode(params, intermediates, false),
            _ => {},
        }
    }

    /// Perform an escape sequence.
    pub fn esc_dispatch(&mut self, intermediates: &Vec<u8>, byte: u8)
        requires
            old(self).grid.wf(),
        ensures
            final(self).grid.wf(),
            final(self)@ == old(self)@.esc(intermediates@, byte),
            *final(final(self).grid) == *final(old(self).grid),
            *final(final(self).state) == *final(old(self).state),
            *final(final(self).dirty) == *final(old(self).dirty),
    {
        if intermediates.len() > 0 {
            return;
        }
        match byte {
            0x37 => {
                // '7': save cursor
                self.state.saved_cursor = Some(self.state.cursor);
            },
            0x38 => {
                // '8': restore cursor
                if let Some(saved) = self.state.saved_cursor {
                    self.state.cursor = saved;
                }
            },
            0x44 => self.linefeed(),
            0x4d => self.reverse_index(),
            0x63 => {
                // 'c': full reset
                let rows: u16 = self.rows();
                let cols: u16 = self.cols();
                *self.state = TerminalState::new(rows, cols);
                self.grid.clear_visible();
                self.dirty.mark_all();
            },
            _ => {},
        }
    }

    /// Perform an operating system command: 0 and 2 set the window title.
    pub fn osc_dispatch(&mut self, params: &Vec<Vec<u8>>)
        requires
            old(self).grid.wf(),
        ensures
            final(self).grid.wf(),
            final(self)@ == old(self)@.osc(field_values(params@)),
            *final(final(self).grid) == *final(old(self).grid),
            *final(final(self).state) == *final(old(self).state),
            *final(final(self).dirty) == *final(old(self).dirty),
    {
        if params.len() <= 1 {
            return;
        }
        let command: &Vec<u8> = &params[0];
        let titled = command.len() == 1 && (command[0] == 0x30 || command[0] == 0x32);
        proof {
            if titled {
                assert(command@ =~= seq![command@[0]]);
            } else {
                assert(command@ != seq![0x30u8]);
                assert(command@ != seq![0x32u8]);
            }
        }
        if titled {
            if let Some(title) = text_from_utf8(params[1].as_slice()) {
                self.state.window_title = title;
            }
        }
    }
}

/// Write a character at the cursor position, over what is there. Uses delayed wrap.
pub fn bulk_print_char(grid: &mut Grid, state: &mut TerminalState, dirty: &mut DirtyRows, c: char)
    requires
        old(grid).wf(),
    ensures
        final(grid).wf(),
        (ScreenModel { grid: final(grid)@, term: final(state)@, dirty: final(dirty)@ }) == (
        ScreenModel { grid: old(grid)@, term: old(state)@, dirty: old(dirty)@ }).overprinted(c),
{
    if state.pending_wrap {
        let mut handler = VtHandler::new(grid, state, dirty);
        handler.carriage_return();
        handler.linefeed();
    }
    let row: usize = state.cursor.row as usize;
    let col: usize = state.cursor.col as usize;
    let (fg, bg, flags) = state.attrs;
    if let Some(cell) = grid.cell_mut(row, col) {
        *cell = Cell { ch: c, fg, bg, flags };
    }
    dirty.mark(state.cursor.row);
    let cols: u16 = grid.cols() as u16;
    if (state.cursor.col as u32) + 1 < cols as u32 {
        state.cursor.col = state.cursor.col + 1;
    } else if state.autowrap {
        state.pending_wrap = true;
    }
}

} // verus!
