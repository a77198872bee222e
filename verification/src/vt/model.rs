//! What each control function does to the screen, as mathematical functions.

use vstd::prelude::*;
use vstd::utf8::{decode_utf8, valid_utf8};

use super::state::{plain_attributes, CursorState, MouseMode, TerminalModel};
use crate::grid::cell::{Cell, CellAttributes, CellFlags, Color, NamedColor};
use crate::grid::row::{blanked, blanks, with_deleted, with_inserted};
use crate::grid::storage::GridModel;

verus! {

/// The grid, the terminal's state and the rows to draw again.
#[verifier::ext_equal]
pub struct ScreenModel {
    pub grid: GridModel,
    pub term: TerminalModel,
    pub dirty: Set<int>,
}

/// The parameters of a control sequence: each one a list of colon-separated values.
pub type ParamLists = Seq<Seq<u16>>;

/// What the parser reports.
#[verifier::ext_equal]
pub enum ActionModel {
    Print(char),
    Execute(u8),
    Csi { params: ParamLists, intermediates: Seq<u8>, action: char },
    Esc { intermediates: Seq<u8>, byte: u8 },
    Osc { fields: Seq<Seq<u8>> },
    Hook,
    Unhook,
    Put,
}

/// All rows that can be marked.
pub open spec fn all_rows() -> Set<int> {
    Set::new(|row: int| 0 <= row < 256)
}

/// `n - 1`, or 0.
pub open spec fn before(n: u16) -> u16 {
    if n > 0 {
        (n - 1) as u16
    } else {
        0
    }
}

/// `n`, but no more than `max`.
pub open spec fn at_most(n: int, max: u16) -> u16 {
    if n <= max {
        n as u16
    } else {
        max
    }
}

/// The first value of parameter `idx`; `default` where it is missing or 0.
pub open spec fn param_or(params: ParamLists, idx: int, default: u16) -> u16 {
    if first_of(params, idx) == 0 {
        default
    } else {
        first_of(params, idx)
    }
}

/// The first value of parameter `idx`; 0 where it is missing.
pub open spec fn first_of(params: ParamLists, idx: int) -> u16 {
    if 0 <= idx < params.len() && params[idx].len() > 0 {
        params[idx][0]
    } else {
        0
    }
}

/// The first tab stop right of `col`.
pub open spec fn next_stop(stops: Seq<u16>, col: u16) -> Option<u16>
    decreases stops.len(),
{
    if stops.len() == 0 {
        None
    } else if stops[0] > col {
        Some(stops[0])
    } else {
        next_stop(stops.drop_first(), col)
    }
}

/// The low byte of a parameter value.
pub open spec fn low_byte(v: u16) -> u8 {
    (v % 256) as u8
}

/// The colour that an extended colour sequence at parameter `i` selects, and how many of the
/// parameters after it belong to it.
pub open spec fn extended_color(params: ParamLists, i: int) -> (Option<Color>, int) {
    if i >= params.len() {
        (None, 0)
    } else if params[i].len() > 1 {
        // Values separated by colons; from six on, the third one is a colour space.
        let p = params[i];
        let color = if p[1] == 2 && p.len() >= 6 {
            Some(Color::Rgb(low_byte(p[3]), low_byte(p[4]), low_byte(p[5])))
        } else if p[1] == 2 && p.len() >= 4 {
            Some(
                Color::Rgb(
                    low_byte(p[2]),
                    low_byte(p[3]),
                    if p.len() == 5 {
                        low_byte(p[4])
                    } else {
                        0
                    },
                ),
            )
        } else if p[1] == 5 && p.len() > 2 {
            Some(Color::Indexed(low_byte(p[2])))
        } else {
            None
        };
        (color, 0)
    } else if i + 1 >= params.len() || params[i + 1].len() == 0 {
        (None, 0)
    } else if params[i + 1][0] == 2 {
        let color = Color::Rgb(
            low_byte(first_of(params, i + 2)),
            low_byte(first_of(params, i + 3)),
            low_byte(first_of(params, i + 4)),
        );
        (Some(color), 4)
    } else if params[i + 1][0] == 5 {
        (Some(Color::Indexed(low_byte(first_of(params, i + 2)))), 2)
    } else {
        (None, 0)
    }
}

/// The named colour with the given index.
pub open spec fn ansi_color(idx: int) -> NamedColor {
    if idx == 0 {
        NamedColor::Black
    } else if idx == 1 {
        NamedColor::Red
    } else if idx == 2 {
        NamedColor::Green
    } else if idx == 3 {
        NamedColor::Yellow
    } else if idx == 4 {
        NamedColor::Blue
    } else if idx == 5 {
        NamedColor::Magenta
    } else if idx == 6 {
        NamedColor::Cyan
    } else if idx == 7 {
        NamedColor::White
    } else if idx == 8 {
        NamedColor::BrightBlack
    } else if idx == 9 {
        NamedColor::BrightRed
    } else if idx == 10 {
        NamedColor::BrightGreen
    } else if idx == 11 {
        NamedColor::BrightYellow
    } else if idx == 12 {
        NamedColor::BrightBlue
    } else if idx == 13 {
        NamedColor::BrightMagenta
    } else if idx == 14 {
        NamedColor::BrightCyan
    } else {
        NamedColor::BrightWhite
    }
}

/// The flags after the attribute code `p`.
pub open spec fn restyled(flags: CellFlags, p: u16) -> CellFlags {
    if p == 1 {
        CellFlags { bold: true, ..flags }
    } else if p == 2 {
        CellFlags { dim: true, ..flags }
    } else if p == 3 {
        CellFlags { italic: true, ..flags }
    } else if p == 4 {
        CellFlags { underline: true, ..flags }
    } else if p == 7 {
        CellFlags { inverse: true, ..flags }
    } else if p == 8 {
        CellFlags { hidden: true, ..flags }
    } else if p == 9 {
        CellFlags { strikethrough: true, ..flags }
    } else if p == 21 {
        CellFlags { bold: false, ..flags }
    } else if p == 22 {
        CellFlags { bold: false, dim: false, ..flags }
    } else if p == 23 {
        CellFlags { italic: false, ..flags }
    } else if p == 24 {
        CellFlags { underline: false, ..flags }
    } else if p == 27 {
        CellFlags { inverse: false, ..flags }
    } else if p == 28 {
        CellFlags { hidden: false, ..flags }
    } else if p == 29 {
        CellFlags { strikethrough: false, ..flags }
    } else {
        flags
    }
}

/// The attributes after the code `p`, which takes no further parameters.
pub open spec fn simple_sgr(attrs: CellAttributes, p: u16) -> CellAttributes {
    if p == 0 {
        plain_attributes()
    } else if 30 <= p <= 37 {
        (Color::Named(ansi_color(p - 30)), attrs.1, attrs.2)
    } else if p == 39 {
        (Color::Default, attrs.1, attrs.2)
    } else if 40 <= p <= 47 {
        (attrs.0, Color::Named(ansi_color(p - 40)), attrs.2)
    } else if p == 49 {
        (attrs.0, Color::Default, attrs.2)
    } else if 90 <= p <= 97 {
        (Color::Named(ansi_color(p - 90 + 8)), attrs.1, attrs.2)
    } else if 100 <= p <= 107 {
        (attrs.0, Color::Named(ansi_color(p - 100 + 8)), attrs.2)
    } else {
        (attrs.0, attrs.1, restyled(attrs.2, p))
    }
}

/// The attributes after the codes from parameter `i` on.
pub open spec fn sgr(attrs: CellAttributes, params: ParamLists, i: int) -> CellAttributes
    decreases
            (if i < params.len() {
                params.len() - i
            } else {
                0
            }),
{
    if i < 0 || i >= params.len() {
        attrs
    } else {
        let p = first_of(params, i);
        if p == 38 || p == 48 {
            let (color, taken) = extended_color(params, i);
            let next = match color {
                Some(c) => if p == 38 {
                    (c, attrs.1, attrs.2)
                } else {
                    (attrs.0, c, attrs.2)
                },
                None => attrs,
            };
            sgr(next, params, i + taken + 1)
        } else {
            sgr(simple_sgr(attrs, p), params, i + 1)
        }
    }
}

impl ScreenModel {
    /// The number of columns.
    pub open spec fn cols(self) -> u16 {
        self.grid.cols as u16
    }

    /// The number of visible rows.
    pub open spec fn rows(self) -> u16 {
        self.grid.lines.len() as u16
    }

    pub open spec fn at(self, row: u16, col: u16) -> ScreenModel {
        ScreenModel { term: self.term.at(row, col), ..self }
    }

    pub open spec fn without_wrap(self) -> ScreenModel {
        ScreenModel { term: TerminalModel { pending_wrap: false, ..self.term }, ..self }
    }

    /// One row marked.
    pub open spec fn marked(self, row: u16) -> ScreenModel {
        ScreenModel {
            dirty: if row < 256 {
                self.dirty.insert(row as int)
            } else {
                self.dirty
            },
            ..self
        }
    }

    /// The rows of `[top, bottom)` marked.
    pub open spec fn region_marked(self, top: int, bottom: int) -> ScreenModel {
        ScreenModel {
            dirty: self.dirty.union(Set::new(|row: int| top <= row < bottom && 0 <= row < 256)),
            ..self
        }
    }

    pub open spec fn all_marked(self) -> ScreenModel {
        ScreenModel { dirty: all_rows(), ..self }
    }

    /// A line of the grid replaced.
    pub open spec fn with_line(self, row: int, line: Seq<Cell>) -> ScreenModel {
        ScreenModel { grid: self.grid.with_line(row, line), ..self }
    }

    pub open spec fn carriage_return(self) -> ScreenModel {
        self.without_wrap().at(self.term.cursor.row, 0)
    }

    /// Move down; at the bottom of the scroll region, scroll the region up instead.
    pub open spec fn linefeed(self) -> ScreenModel {
        let top = self.term.scroll_region.0 as int;
        let bottom = self.term.scroll_region.1 as int;
        if self.term.cursor.row + 1 >= bottom {
            ScreenModel { grid: self.grid.scrolled_up(top, bottom, 1), ..self }.region_marked(
                top,
                bottom,
            )
        } else {
            self.at((self.term.cursor.row + 1) as u16, self.term.cursor.col)
        }
    }

    /// Move up; at the top of the scroll region, scroll the region down instead.
    pub open spec fn reverse_index(self) -> ScreenModel {
        let top = self.term.scroll_region.0 as int;
        let bottom = self.term.scroll_region.1 as int;
        if self.term.cursor.row <= top {
            ScreenModel { grid: self.grid.scrolled_down(top, bottom, 1), ..self }.region_marked(
                top,
                bottom,
            )
        } else {
            self.at((self.term.cursor.row - 1) as u16, self.term.cursor.col)
        }
    }

    /// The wrap that an earlier character at the end of the line left pending.
    pub open spec fn wrapped(self) -> ScreenModel {
        if self.term.pending_wrap {
            self.carriage_return().linefeed()
        } else {
            self
        }
    }

    /// The cell under the cursor set to `c` in the current attributes.
    pub open spec fn stamped(self, c: char) -> ScreenModel {
        let (fg, bg, flags) = self.term.attrs;
        ScreenModel {
            grid: self.grid.with_cell(
                self.term.cursor.row as int,
                self.term.cursor.col as int,
                Cell { ch: c, fg, bg, flags },
            ),
            ..self
        }.marked(self.term.cursor.row)
    }

    /// The cursor moved on by one column; at the last column, a wrap becomes pending.
    pub open spec fn advanced(self) -> ScreenModel {
        if self.term.cursor.col + 1 < self.cols() {
            self.at(self.term.cursor.row, (self.term.cursor.col + 1) as u16)
        } else if self.term.autowrap {
            ScreenModel { term: TerminalModel { pending_wrap: true, ..self.term }, ..self }
        } else {
            self
        }
    }

    /// In insert mode, room for one character under the cursor.
    pub open spec fn made_room(self) -> ScreenModel {
        let row = self.term.cursor.row as int;
        if self.term.insert_mode {
            self.with_line(
                row,
                with_inserted(self.grid.lines[row], self.term.cursor.col as int, 1),
            )
        } else {
            self
        }
    }

    /// Print a character: an earlier wrap happens first.
    pub open spec fn put_char(self, c: char) -> ScreenModel {
        self.wrapped().made_room().stamped(c).advanced()
    }

    /// Print a character over what is there.
    pub open spec fn overprinted(self, c: char) -> ScreenModel {
        self.wrapped().stamped(c).advanced()
    }

    pub open spec fn tab(self) -> ScreenModel {
        let last = before(self.cols());
        let col = match next_stop(self.term.tab_stops, self.term.cursor.col) {
            Some(t) => at_most(t as int, last),
            None => last,
        };
        self.at(self.term.cursor.row, col)
    }

    pub open spec fn backspace(self) -> ScreenModel {
        self.without_wrap().at(self.term.cursor.row, before(self.term.cursor.col))
    }

    /// The lines of `[from, to)` cleared and marked.
    pub open spec fn lines_cleared(self, from: int, to: int) -> ScreenModel {
        let lines = self.grid.lines;
        ScreenModel {
            grid: GridModel {
                lines: Seq::new(
                    lines.len(),
                    |i: int|
                        if from <= i < to {
                            blanks(lines[i].len())
                        } else {
                            lines[i]
                        },
                ),
                ..self.grid
            },
            ..self
        }.region_marked(from, to)
    }

    /// The attributes for the characters that follow replaced.
    pub open spec fn styled(self, attrs: CellAttributes) -> ScreenModel {
        ScreenModel { term: TerminalModel { attrs, ..self.term }, ..self }
    }

    pub open spec fn erase_display(self, mode: u16) -> ScreenModel {
        let row = self.term.cursor.row;
        let col = self.term.cursor.col as int;
        let line = self.grid.lines[row as int];
        if mode == 0 {
            self.with_line(row as int, blanked(line, col, line.len() as int)).marked(
                row,
            ).lines_cleared(row + 1, self.rows() as int)
        } else if mode == 1 {
            self.lines_cleared(0, row as int).with_line(
                row as int,
                blanked(line, 0, col + 1),
            ).marked(row)
        } else if mode == 2 || mode == 3 {
            ScreenModel { grid: self.grid.all_cleared(), ..self }.all_marked()
        } else {
            self
        }
    }

    pub open spec fn erase_line(self, mode: u16) -> ScreenModel {
        let row = self.term.cursor.row as int;
        let col = self.term.cursor.col as int;
        let line = self.grid.lines[row];
        let erased = if mode == 0 {
            self.with_line(row, blanked(line, col, line.len() as int))
        } else if mode == 1 {
            self.with_line(row, blanked(line, 0, col + 1))
        } else if mode == 2 {
            self.with_line(row, blanks(line.len()))
        } else {
            self
        };
        erased.marked(self.term.cursor.row)
    }

    /// One private mode switched on or off.
    pub open spec fn private_mode(self, mode: u16, enable: bool) -> ScreenModel {
        let t = self.term;
        if mode == 1 {
            ScreenModel { term: TerminalModel { application_cursor_keys: enable, ..t }, ..self }
        } else if mode == 6 {
            let s = ScreenModel { term: TerminalModel { origin_mode: enable, ..t }, ..self };
            if enable {
                s.at(t.scroll_region.0, 0)
            } else {
                s
            }
        } else if mode == 7 {
            ScreenModel { term: TerminalModel { autowrap: enable, ..t }, ..self }
        } else if mode == 25 {
            ScreenModel {
                term: TerminalModel { cursor: CursorState { visible: enable, ..t.cursor }, ..t },
                ..self
            }
        } else if mode == 1000 || mode == 1002 || mode == 1006 {
            let wanted = if !enable {
                MouseMode::Off
            } else if mode == 1000 {
                MouseMode::Press
            } else if mode == 1002 {
                MouseMode::PressRelease
            } else {
                MouseMode::Sgr
            };
            ScreenModel { term: TerminalModel { mouse_mode: wanted, ..t }, ..self }
        } else if mode == 1049 && enable && !t.alternate_screen {
            ScreenModel {
                grid: self.grid.all_cleared(),
                term: TerminalModel { saved_cursor: Some(t.cursor), alternate_screen: true, ..t },
                ..self
            }.all_marked()
        } else if mode == 1049 && !enable && t.alternate_screen {
            ScreenModel {
                term: TerminalModel {
                    cursor: match t.saved_cursor {
                        Some(saved) => saved,
                        None => t.cursor,
                    },
                    saved_cursor: None,
                    alternate_screen: false,
                    ..t
                },
                ..self
            }.all_marked()
        } else if mode == 2004 {
            ScreenModel { term: TerminalModel { bracketed_paste: enable, ..t }, ..self }
        } else {
            self
        }
    }

    /// One mode switched on or off.
    pub open spec fn one_mode(self, mode: u16, private: bool, enable: bool) -> ScreenModel {
        if private {
            self.private_mode(mode, enable)
        } else if mode == 4 {
            ScreenModel { term: TerminalModel { insert_mode: enable, ..self.term }, ..self }
        } else {
            self
        }
    }

    /// The modes of all parameters switched on or off, in order.
    pub open spec fn set_mode(
        self,
        params: ParamLists,
        intermediates: Seq<u8>,
        enable: bool,
    ) -> ScreenModel
        decreases params.len(),
    {
        if params.len() == 0 {
            self
        } else {
            let private = intermediates.len() > 0 && intermediates[0] == 0x3f;
            self.set_mode(params.drop_last(), intermediates, enable).one_mode(
                first_of(params, params.len() - 1),
                private,
                enable,
            )
        }
    }

    /// Cursor position: counted from 1, and from the scroll region's top in origin mode.
    pub open spec fn cursor_position(self, params: ParamLists) -> ScreenModel {
        let row = before(param_or(params, 0, 1));
        let col = before(param_or(params, 1, 1));
        let (top, bottom) = self.term.scroll_region;
        self.without_wrap().at(
            if self.term.origin_mode {
                at_most(top + row, before(bottom))
            } else {
                at_most(row as int, before(self.rows()))
            },
            at_most(col as int, before(self.cols())),
        )
    }

    /// Scroll region: counted from 1; the cursor goes home where the region is not empty.
    pub open spec fn set_scroll_region(self, params: ParamLists) -> ScreenModel {
        let top = before(param_or(params, 0, 1));
        let wanted = first_of(params, 1);
        let bottom = if wanted == 0 {
            self.rows()
        } else {
            at_most(wanted as int, self.rows())
        };
        if top < bottom {
            ScreenModel {
                term: TerminalModel { scroll_region: (top, bottom), ..self.term },
                ..self
            }.at(
                if self.term.origin_mode {
                    top
                } else {
                    0
                },
                0,
            )
        } else {
            self
        }
    }

    /// The cursor moved by `n`, or to `n`, as the final character says.
    pub open spec fn cursor_moved(self, n: u16, action: char) -> ScreenModel {
        let row = self.term.cursor.row;
        let col = self.term.cursor.col;
        let moved = self.without_wrap();
        if action == 'A' {
            moved.at(
                if row >= n {
                    (row - n) as u16
                } else {
                    0
                },
                col,
            )
        } else if action == 'B' {
            moved.at(at_most(row + n, before(self.rows())), col)
        } else if action == 'C' {
            moved.at(row, at_most(col + n, before(self.cols())))
        } else if action == 'D' {
            moved.at(
                row,
                if col >= n {
                    (col - n) as u16
                } else {
                    0
                },
            )
        } else if action == 'G' {
            moved.at(row, at_most(before(n) as int, before(self.cols())))
        } else {
            moved.at(at_most(before(n) as int, before(self.rows())), col)
        }
    }

    /// Lines moved inside the scroll region, as the final character says.
    pub open spec fn lines_moved(self, n: u16, action: char) -> ScreenModel {
        let row = self.term.cursor.row as int;
        let top = self.term.scroll_region.0 as int;
        let bottom = self.term.scroll_region.1 as int;
        let grid = if action == 'L' {
            if top <= row < bottom {
                self.grid.scrolled_down(row, bottom, n as nat)
            } else {
                self.grid
            }
        } else if action == 'M' {
            if top <= row < bottom {
                self.grid.scrolled_up(row, bottom, n as nat)
            } else {
                self.grid
            }
        } else if action == 'S' {
            self.grid.scrolled_up(top, bottom, n as nat)
        } else {
            self.grid.scrolled_down(top, bottom, n as nat)
        };
        ScreenModel { grid, ..self }.region_marked(top, bottom)
    }

    /// The cursor's line edited, as the final character says.
    pub open spec fn line_edited(self, n: u16, action: char) -> ScreenModel {
        let row = self.term.cursor.row;
        let col = self.term.cursor.col as int;
        let line = self.grid.lines[row as int];
        let edited = if action == '@' {
            with_inserted(line, col, n as nat)
        } else if action == 'P' {
            with_deleted(line, col, n as nat)
        } else {
            blanked(line, col, col + n)
        };
        self.with_line(row as int, edited).marked(row)
    }

    /// A control sequence by its final character.
    pub open spec fn csi(self, params: ParamLists, intermediates: Seq<u8>, action: char) -> ScreenModel {
        let n = param_or(params, 0, 1);
        if action == 'A' || action == 'B' || action == 'C' || action == 'D' || action == 'G'
            || action == 'd' {
            self.cursor_moved(n, action)
        } else if action == 'L' || action == 'M' || action == 'S' || action == 'T' {
            self.lines_moved(n, action)
        } else if action == '@' || action == 'P' || action == 'X' {
            self.line_edited(n, action)
        } else if action == 'H' || action == 'f' {
            self.cursor_position(params)
        } else if action == 'J' {
            self.erase_display(first_of(params, 0))
        } else if action == 'K' {
            self.erase_line(first_of(params, 0))
        } else if action == 'm' {
            self.styled(
                if params.len() == 0 {
                    plain_attributes()
                } else {
                    sgr(self.term.attrs, params, 0)
                },
            )
        } else if action == 'r' {
            self.set_scroll_region(params)
        } else if action == 'h' {
            self.set_mode(params, intermediates, true)
        } else if action == 'l' {
            self.set_mode(params, intermediates, false)
        } else {
            self
        }
    }

    /// An escape sequence by its final byte.
    pub open spec fn esc(self, intermediates: Seq<u8>, byte: u8) -> ScreenModel {
        if intermediates.len() > 0 {
            self
        } else if byte == 0x37 {
            // '7': save the cursor
            ScreenModel {
                term: TerminalModel { saved_cursor: Some(self.term.cursor), ..self.term },
                ..self
            }
        } else if byte == 0x38 {
            // '8': restore the cursor
            match self.term.saved_cursor {
                Some(saved) => ScreenModel {
                    term: TerminalModel { cursor: saved, ..self.term },
                    ..self
                },
                None => self,
            }
        } else if byte == 0x44 {
            // 'D': index
            self.linefeed()
        } else if byte == 0x4d {
            // 'M': reverse index
            self.reverse_index()
        } else if byte == 0x63 {
            // 'c': full reset
            ScreenModel {
                grid: self.grid.all_cleared(),
                term: TerminalModel::fresh(self.rows(), self.cols()),
                ..self
            }.all_marked()
        } else {
            self
        }
    }

    /// An operating system command: 0 and 2 set the window title.
    pub open spec fn osc(self, params: Seq<Seq<u8>>) -> ScreenModel {
        if params.len() > 1 && (params[0] == seq![0x30u8] || params[0] == seq![0x32u8])
            && valid_utf8(params[1]) {
            ScreenModel {
                term: TerminalModel { window_title: decode_utf8(params[1]), ..self.term },
                ..self
            }
        } else {
            self
        }
    }

    /// A control character.
    pub open spec fn execute(self, byte: u8) -> ScreenModel {
        if byte == 0x08 {
            self.backspace()
        } else if byte == 0x09 {
            self.tab()
        } else if 0x0a <= byte <= 0x0c {
            self.linefeed()
        } else if byte == 0x0d {
            self.carriage_return()
        } else {
            self
        }
    }

    /// What the screen shows after one report of the parser.
    #[verifier::opaque]
    pub open spec fn after(self, action: ActionModel) -> ScreenModel {
        match action {
            ActionModel::Print(c) => self.put_char(c),
            ActionModel::Execute(byte) => self.execute(byte),
            ActionModel::Csi { params, intermediates, action } => self.csi(
                params,
                intermediates,
                action,
            ),
            ActionModel::Esc { intermediates, byte } => self.esc(intermediates, byte),
            ActionModel::Osc { fields } => self.osc(fields),
            ActionModel::Hook => self,
            ActionModel::Unhook => self,
            ActionModel::Put => self,
        }
    }

    /// What the screen shows after a series of reports.
    pub open spec fn after_all(self, actions: Seq<ActionModel>) -> ScreenModel
        decreases actions.len(),
    {
        if actions.len() == 0 {
            self
        } else {
            self.after_all(actions.drop_last()).after(actions.last())
        }
    }
}

} // verus!
