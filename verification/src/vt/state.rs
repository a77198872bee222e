use vstd::prelude::*;

use crate::grid::cell::{CellAttributes, CellFlags, Color};

verus! {

/// Which mouse events the program in the terminal asked for.
#[derive(Debug, Clone, Copy, PartialEq, Eq, Structural)]
pub enum MouseMode {
    Off,
    Press,
    PressRelease,
    Sgr,
}

impl Default for MouseMode {
    fn default() -> (mode: MouseMode)
        ensures
            mode == MouseMode::Off,
    {
        MouseMode::Off
    }
}

/// Where the cursor stands and whether it is shown.
#[derive(Debug, Clone, Copy, PartialEq, Eq, Structural)]
pub struct CursorState {
    pub row: u16,
    pub col: u16,
    pub visible: bool,
}

impl CursorState {
    /// The visible cursor at the top left.
    pub open spec fn home() -> CursorState {
        CursorState { row: 0, col: 0, visible: true }
    }
}

impl Default for CursorState {
    fn default() -> (cursor: CursorState)
        ensures
            cursor == CursorState::home(),
    {
        CursorState { row: 0, col: 0, visible: true }
    }
}

/// The attributes of text that no sequence has styled.
pub open spec fn plain_attributes() -> CellAttributes {
    (Color::Default, Color::Default, CellFlags::none())
}

/// Tab stops every 8 columns.
pub open spec fn default_tab_stops(cols: u16) -> Seq<u16> {
    Seq::new(((cols + 7) / 8) as nat, |i: int| (8 * i) as u16)
}

/// What the terminal's state holds, as mathematical values.
#[verifier::ext_equal]
pub struct TerminalModel {
    pub cursor: CursorState,
    pub saved_cursor: Option<CursorState>,
    pub attrs: CellAttributes,
    pub scroll_region: (u16, u16),
    pub alternate_screen: bool,
    pub autowrap: bool,
    pub origin_mode: bool,
    pub bracketed_paste: bool,
    pub mouse_mode: MouseMode,
    pub application_cursor_keys: bool,
    pub tab_stops: Seq<u16>,
    pub insert_mode: bool,
    pub pending_wrap: bool,
    pub window_title: Seq<char>,
}

impl TerminalModel {
    /// The state of a fresh terminal.
    pub open spec fn fresh(rows: u16, cols: u16) -> TerminalModel {
        TerminalModel {
            cursor: CursorState::home(),
            saved_cursor: None,
            attrs: plain_attributes(),
            scroll_region: (0, rows),
            alternate_screen: false,
            autowrap: true,
            origin_mode: false,
            bracketed_paste: false,
            mouse_mode: MouseMode::Off,
            application_cursor_keys: false,
            tab_stops: default_tab_stops(cols),
            insert_mode: false,
            pending_wrap: false,
            window_title: Seq::empty(),
        }
    }

    /// The cursor moved to `(row, col)`.
    pub open spec fn at(self, row: u16, col: u16) -> TerminalModel {
        TerminalModel { cursor: CursorState { row, col, ..self.cursor }, ..self }
    }
}

/// The modes and registers of the virtual terminal.
#[derive(Debug)]
pub struct TerminalState {
    pub cursor: CursorState,
    pub saved_cursor: Option<CursorState>,
    pub attrs: CellAttributes,
    /// (top, bottom), 0-indexed, bottom is exclusive
    pub scroll_region: (u16, u16),
    pub alternate_screen: bool,
    pub autowrap: bool,
    pub origin_mode: bool,
    pub bracketed_paste: bool,
    pub mouse_mode: MouseMode,
    pub application_cursor_keys: bool,
    pub tab_stops: Vec<u16>,
    pub insert_mode: bool,
    pub pending_wrap: bool,
    pub window_title: String,
}

impl View for TerminalState {
    type V = TerminalModel;

    open spec fn view(&self) -> TerminalModel {
        TerminalModel {
            cursor: self.cursor,
            saved_cursor: self.saved_cursor,
            attrs: self.attrs,
            scroll_region: self.scroll_region,
            alternate_screen: self.alternate_screen,
            autowrap: self.autowrap,
            origin_mode: self.origin_mode,
            bracketed_paste: self.bracketed_paste,
            mouse_mode: self.mouse_mode,
            application_cursor_keys: self.application_cursor_keys,
            tab_stops: self.tab_stops@,
            insert_mode: self.insert_mode,
            pending_wrap: self.pending_wrap,
            window_title: self.window_title@,
        }
    }
}

/// Tab stops every 8 columns.
fn stops_every_eight(cols: u16) -> (stops: Vec<u16>)
    ensures
        stops@ == default_tab_stops(cols),
{
    let mut stops: Vec<u16> = Vec::new();
    let mut col: u32 = 0;
    while col < cols as u32
        invariant
            col == 8 * stops@.len(),
            col <= cols + 7,
            stops@ == default_tab_stops(cols).take(stops@.len() as int),
            stops@.len() <= default_tab_stops(cols).len(),
        decreases cols + 8 - col,
    {
        stops.push(col as u16);
        col = col + 8;
        assert(stops@ =~= default_tab_stops(cols).take(stops@.len() as int));
    }
    assert(stops@ =~= default_tab_stops(cols));
    stops
}

impl TerminalState {
    pub fn new(rows: u16, cols: u16) -> (state: TerminalState)
        ensures
            state@ == TerminalModel::fresh(rows, cols),
    {
        TerminalState {
            cursor: CursorState { row: 0, col: 0, visible: true },
            saved_cursor: None,
            attrs: (Color::Default, Color::Default, CellFlags::empty()),
            scroll_region: (0, rows),
            alternate_screen: false,
            autowrap: true,
            origin_mode: false,
            bracketed_paste: false,
            mouse_mode: MouseMode::Off,
            application_cursor_keys: false,
            tab_stops: stops_every_eight(cols),
            insert_mode: false,
            pending_wrap: false,
            window_title: String::new(),
        }
    }

    /// Clamp cursor to within visible bounds.
    pub fn clamp_cursor(&mut self, rows: u16, cols: u16)
        ensures
            final(self)@ == old(self)@.at(
                if rows > 0 && old(self).cursor.row >= rows {
                    (rows - 1) as u16
                } else {
                    old(self).cursor.row
                },
                if cols > 0 && old(self).cursor.col >= cols {
                    (cols - 1) as u16
                } else {
                    old(self).cursor.col
                },
            ),
    {
        if cols > 0 && self.cursor.col >= cols {
            self.cursor.col = cols - 1;
        }
        if rows > 0 && self.cursor.row >= rows {
            self.cursor.row = rows - 1;
        }
    }

    /// Get the effective scroll region top.
    pub fn scroll_top(&self) -> (top: u16)
        ensures
            top == self@.scroll_region.0,
    {
        self.scroll_region.0
    }

    /// Get the effective scroll region bottom (exclusive).
    pub fn scroll_bottom(&self) -> (bottom: u16)
        ensures
            bottom == self@.scroll_region.1,
    {
        self.scroll_region.1
    }
}

} // verus!
