use vstd::prelude::*;

use super::keys::{arrow, arrow_bytes};
use crate::grid::storage::Grid;
use crate::primitives::DirtyRows;
use crate::sidebar::discovery::tab_session::{ClaudeSession, SessionModel};
use crate::text::{
    chars_of, decimal, decimal_text, first_chars, joined, joined3, shortened, string_of,
};
use crate::vt::model::{all_rows, ScreenModel};
use crate::vt::parser::{FeedModel, VtParser};
use crate::vt::state::{TerminalModel, TerminalState};

verus! {

/// A terminal with its own grid, parser and state, as mathematical values.
#[verifier::ext_equal]
pub struct TabModel {
    /// The grid, the terminal's state and the rows to draw again.
    pub screen: ScreenModel,
    /// The chunks that went to the parser.
    pub fed: Seq<Seq<u8>>,
    pub cols: u16,
    pub rows: u16,
    pub sidebar_cols: u16,
    /// The width of the window's sidebar, in pixels.
    pub sidebar_width: u32,
    /// The version of the sidebar that was drawn last.
    pub drawn_version: u64,
    pub shell_pid: u32,
    pub session: Option<SessionModel>,
    pub custom_title: Option<Seq<char>>,
    /// The name that is being typed, while the tab is being renamed.
    pub edited: Option<Seq<char>>,
    /// The title that the window was last given.
    pub set_title: Seq<char>,
    /// How many lines the view is shifted into the history.
    pub scroll_offset: nat,
}

impl TabModel {
    pub open spec fn feed(self) -> FeedModel {
        FeedModel { fed: self.fed, screen: self.screen }
    }

    pub open spec fn all_dirty(self) -> TabModel {
        TabModel { screen: self.screen.all_marked(), ..self }
    }

    /// The view on the live screen.
    pub open spec fn live(self) -> TabModel {
        if self.scroll_offset > 0 {
            TabModel { scroll_offset: 0, ..self }.all_dirty()
        } else {
            self
        }
    }

    /// Output of the program read, with the view back on the live screen.
    pub open spec fn fed_with(self, data: Seq<u8>) -> TabModel {
        if data.len() == 0 {
            self
        } else {
            let next = self.feed().processed(data);
            TabModel { screen: next.screen, fed: next.fed, ..self }.live()
        }
    }

    /// The grid brought to a new size.
    pub open spec fn resized(self, cols: u16, rows: u16) -> TabModel {
        let term = TerminalModel { scroll_region: (0, rows), ..self.screen.term };
        let clamped = term.at(
            if rows > 0 && term.cursor.row >= rows {
                (rows - 1) as u16
            } else {
                term.cursor.row
            },
            if cols > 0 && term.cursor.col >= cols {
                (cols - 1) as u16
            } else {
                term.cursor.col
            },
        );
        TabModel {
            screen: ScreenModel {
                grid: self.screen.grid.resized(rows as nat, cols as nat),
                term: clamped,
                dirty: all_rows(),
            },
            cols,
            rows,
            ..self
        }
    }

    /// The title that is shown: the custom one, else the session's topic, else the one that the
    /// program set, else the tab's number.
    pub open spec fn title(self, index: int) -> Seq<char> {
        if self.custom_title is Some {
            self.custom_title->0
        } else if self.session is Some && self.session->0.topic.len() > 0 {
            shortened(self.session->0.topic, 40)
        } else if self.screen.term.window_title.len() > 0 {
            self.screen.term.window_title
        } else {
            "Tab "@ + decimal_text((index + 1) as nat)
        }
    }

    /// The name that was typed taken over, unless it is empty.
    pub open spec fn renamed(self) -> TabModel {
        match self.edited {
            Some(name) => TabModel {
                custom_title: if name.len() > 0 {
                    Some(name)
                } else {
                    self.custom_title
                },
                edited: None,
                set_title: Seq::empty(),
                ..self
            },
            None => self,
        }
    }

    /// The name that was typed forgotten.
    pub open spec fn not_renamed(self) -> TabModel {
        TabModel { edited: None, set_title: Seq::empty(), ..self }
    }

    /// The view moved by lines: upwards into the history where negative.
    pub open spec fn scrolled(self, lines: int) -> TabModel {
        let limit = self.screen.grid.history.len();
        let wanted = self.scroll_offset - lines;
        let next = if lines < 0 {
            if wanted <= limit {
                wanted
            } else {
                limit as int
            }
        } else if wanted >= 0 {
            wanted
        } else {
            0
        };
        if next != self.scroll_offset {
            TabModel { scroll_offset: next as nat, ..self }.all_dirty()
        } else {
            self
        }
    }
}

/// What is shown while a tab is being renamed.
pub open spec fn rename_text(name: Seq<char>) -> Seq<char> {
    "Rename: "@ + name + "_"@
}

/// A terminal with its own grid, parser and state.
pub struct TerminalWindow {
    pub grid: Grid,
    pub dirty_rows: DirtyRows,
    pub vt_parser: VtParser,
    pub vt_state: TerminalState,
    pub grid_cols: u16,
    pub grid_rows: u16,
    pub sidebar_cols: u16,
    /// The width of this window's sidebar, in pixels.
    pub sidebar_width: u32,
    /// Sidebar version last rendered by this window (for dirty detection).
    pub sidebar_rendered_version: u64,
    pub shell_pid: u32,
    /// Session detected as a child of this tab's shell.
    pub claude_session: Option<ClaudeSession>,
    /// User-set custom title. Overrides all auto-detected titles.
    pub custom_title: Option<String>,
    /// The name that is being typed, while the tab is being renamed.
    pub title_edit: Option<Vec<char>>,
    /// Last title set on the native window, to skip redundant updates.
    pub last_set_title: String,
    /// Scroll offset: 0 = live (bottom), >0 = scrolled up N lines into history.
    pub scroll_offset: usize,
}

impl View for TerminalWindow {
    type V = TabModel;

    open spec fn view(&self) -> TabModel {
        TabModel {
            screen: ScreenModel {
                grid: self.grid@,
                term: self.vt_state@,
                dirty: self.dirty_rows@,
            },
            fed: self.vt_parser@,
            cols: self.grid_cols,
            rows: self.grid_rows,
            sidebar_cols: self.sidebar_cols,
            sidebar_width: self.sidebar_width,
            drawn_version: self.sidebar_rendered_version,
            shell_pid: self.shell_pid,
            session: match self.claude_session {
                Some(session) => Some(session@),
                None => None,
            },
            custom_title: match self.custom_title {
                Some(title) => Some(title@),
                None => None,
            },
            edited: match self.title_edit {
                Some(name) => Some(name@),
                None => None,
            },
            set_title: self.last_set_title@,
            scroll_offset: self.scroll_offset as nat,
        }
    }
}

impl TerminalWindow {
    pub open spec fn wf(&self) -> bool {
        self.grid.wf() && self.vt_parser.wf()
    }

    /// A terminal of the given size, in which nothing has happened; all of it has to be drawn.
    pub fn new(
        cols: u16,
        rows: u16,
        sidebar_cols: u16,
        sidebar_width: u32,
        scrollback_lines: usize,
        shell_pid: u32,
    ) -> (tab: TerminalWindow)
        ensures
            tab.wf(),
            tab.grid@.lines == crate::grid::storage::blank_lines(rows as nat, cols as nat),
            tab.grid@.cols == cols,
            tab.grid@.history == Seq::<crate::grid::storage::Line>::empty(),
            tab.grid@.limit == scrollback_lines,
            !tab.grid@.suppress,
            tab@ == (TabModel {
                screen: ScreenModel {
                    grid: tab.grid@,
                    term: TerminalModel::fresh(rows, cols),
                    dirty: all_rows(),
                },
                fed: Seq::empty(),
                cols,
                rows,
                sidebar_cols,
                sidebar_width,
                drawn_version: 0,
                shell_pid,
                session: None,
                custom_title: None,
                edited: None,
                set_title: Seq::empty(),
                scroll_offset: 0,
            }),
    {
        let mut dirty_rows = DirtyRows::new();
        dirty_rows.mark_all();
        TerminalWindow {
            grid: Grid::new(rows as usize, cols as usize, scrollback_lines),
            dirty_rows,
            vt_parser: VtParser::new(),
            vt_state: TerminalState::new(rows, cols),
            grid_cols: cols,
            grid_rows: rows,
            sidebar_cols,
            sidebar_width,
            sidebar_rendered_version: 0,
            shell_pid,
            claude_session: None,
            custom_title: None,
            title_edit: None,
            last_set_title: String::new(),
            scroll_offset: 0,
        }
    }

    /// Snap to the live screen.
    pub fn snap_to_live(&mut self)
        requires
            old(self).wf(),
        ensures
            final(self).wf(),
            final(self)@ == old(self)@.live(),
    {
        if self.scroll_offset > 0 {
            self.scroll_offset = 0;
            self.dirty_rows.mark_all();
        }
    }

    /// Feed output of the program through the VT parser into the grid. Says whether there was any.
    pub fn feed_output(&mut self, data: &[u8]) -> (any: bool)
        requires
            old(self).wf(),
        ensures
            final(self).wf(),
            final(self)@ == old(self)@.fed_with(data@),
            any == (data@.len() > 0),
    {
        if data.len() == 0 {
            return false;
        }
        self.vt_parser.process(data, &mut self.grid, &mut self.vt_state, &mut self.dirty_rows);
        self.snap_to_live();
        true
    }

    /// Bring the grid to a new size.
    pub fn resize(&mut self, cols: u16, rows: u16)
        requires
            old(self).wf(),
        ensures
            final(self).wf(),
            final(self)@ == old(self)@.resized(cols, rows),
    {
        self.grid.resize(rows as usize, cols as usize);
        self.vt_state.scroll_region = (0, rows);
        self.vt_state.clamp_cursor(rows, cols);
        self.dirty_rows.mark_all();
        self.grid_cols = cols;
        self.grid_rows = rows;
    }

    /// The title that is shown for the tab at an index.
    pub fn resolve_tab_title(&self, index: usize) -> (title: String)
        requires
            index < usize::MAX,
        ensures
            title@ == self@.title(index as int),
    {
        if let Some(title) = &self.custom_title {
            return title.clone();
        }
        if let Some(session) = &self.claude_session {
            if !session.topic.as_str().is_empty() {
                return first_chars(session.topic.as_str(), 40);
            }
        }
        if !self.vt_state.window_title.as_str().is_empty() {
            return self.vt_state.window_title.clone();
        }
        joined("Tab ", decimal((index + 1) as u64).as_str())
    }

    /// The title that the window has to be given, where it is another one than it has; while the
    /// tab is being renamed it keeps the one that shows that.
    pub fn title_update(&mut self, index: usize) -> (title: Option<String>)
        requires
            old(self).wf(),
            index < usize::MAX,
        ensures
            final(self).wf(),
            final(self)@ == (if old(self)@.edited is None {
                TabModel { set_title: old(self)@.title(index as int), ..old(self)@ }
            } else {
                old(self)@
            }),
            match title {
                Some(t) => {
                    &&& old(self)@.edited is None
                    &&& t@ == old(self)@.title(index as int)
                    &&& t@ != old(self)@.set_title
                },
                None => old(self)@.edited is Some || old(self)@.title(index as int)
                    == old(self)@.set_title,
            },
    {
        if self.title_edit.is_some() {
            return None;
        }
        let title = self.resolve_tab_title(index);
        if title == self.last_set_title {
            return None;
        }
        self.last_set_title = title.clone();
        Some(title)
    }

    /// Begin to rename the tab. Gives the text that shows it.
    pub fn begin_rename(&mut self) -> (shown: String)
        requires
            old(self).wf(),
        ensures
            final(self).wf(),
            final(self)@ == (TabModel { edited: Some(Seq::empty()), ..old(self)@ }),
            shown@ == rename_text(Seq::empty()),
    {
        self.title_edit = Some(Vec::new());
        assert(self.title_edit->0@ =~= Seq::empty());
        rename_string(&Vec::new())
    }

    /// Take over the name that was typed.
    pub fn commit_rename(&mut self)
        requires
            old(self).wf(),
        ensures
            final(self).wf(),
            final(self)@ == old(self)@.renamed(),
    {
        let mut edit: Option<Vec<char>> = None;
        std::mem::swap(&mut edit, &mut self.title_edit);
        if let Some(name) = edit {
            if name.len() > 0 {
                self.custom_title = Some(string_of(&name));
            }
            self.last_set_title = String::new();
            assert(self@ =~= old(self)@.renamed());
        }
    }

    /// Forget the name that was typed.
    pub fn cancel_rename(&mut self)
        requires
            old(self).wf(),
        ensures
            final(self).wf(),
            final(self)@ == old(self)@.not_renamed(),
    {
        self.title_edit = None;
        self.last_set_title = String::new();
        assert(self@ =~= old(self)@.not_renamed());
    }

    /// Take the last character of the name back, or add characters to it. Gives the text that
    /// shows the name.
    pub fn edit_name(&mut self, typed: Option<&str>) -> (shown: Option<String>)
        requires
            old(self).wf(),
        ensures
            final(self).wf(),
            match old(self)@.edited {
                Some(name) => {
                    let next = match typed {
                        Some(s) => name + s@,
                        None => if name.len() > 0 {
                            name.drop_last()
                        } else {
                            name
                        },
                    };
                    &&& final(self)@ == (TabModel { edited: Some(next), ..old(self)@ })
                    &&& shown matches Some(text) && text@ == rename_text(next)
                },
                None => final(self)@ == old(self)@ && shown is None,
            },
    {
        let mut edit: Option<Vec<char>> = None;
        std::mem::swap(&mut edit, &mut self.title_edit);
        match edit {
            Some(mut name) => {
                let ghost before = name@;
                match typed {
                    Some(s) => {
                        let mut more = chars_of(s);
                        name.append(&mut more);
                    },
                    None => {
                        name.pop();
                        assert(before.len() == 0 ==> name@ =~= before);
                    },
                }
                let shown = rename_string(&name);
                self.title_edit = Some(name);
                Some(shown)
            },
            None => None,
        }
    }

    /// Move the view by lines: upwards into the history where negative.
    pub fn scroll_view(&mut self, lines: isize)
        requires
            old(self).wf(),
            lines > isize::MIN,
        ensures
            final(self).wf(),
            final(self)@ == old(self)@.scrolled(lines as int),
    {
        let max_offset: usize = self.grid.scrollback_len();
        let new_offset: usize = if lines < 0 {
            let wanted: usize = self.scroll_offset.saturating_add((-lines) as usize);
            if wanted < max_offset {
                wanted
            } else {
                max_offset
            }
        } else {
            self.scroll_offset.saturating_sub(lines as usize)
        };
        if new_offset != self.scroll_offset {
            self.scroll_offset = new_offset;
            self.dirty_rows.mark_all();
        }
    }

    /// The bytes that move the program's cursor to a column that was clicked: as many arrow keys
    /// as there are columns between, where the live cursor's row was clicked.
    pub fn click_to_position(&self, row: usize, col: usize) -> (bytes: Vec<u8>)
        ensures
            bytes@ == moves_to(self@, row as int, col as int),
    {
        let mut bytes: Vec<u8> = Vec::new();
        let cursor_row: usize = self.vt_state.cursor.row as usize;
        let cursor_col: usize = self.vt_state.cursor.col as usize;
        let app_cursor = self.vt_state.application_cursor_keys;
        assert(repeated(Seq::empty(), 0) =~= Seq::empty());
        if self.scroll_offset == 0 && row == cursor_row && col != cursor_col {
            let right = col > cursor_col;
            let letter: u8 = if right {
                0x43
            } else {
                0x44
            };
            let count: usize = if right {
                col - cursor_col
            } else {
                cursor_col - col
            };
            let key = arrow_bytes(letter, app_cursor);
            let mut i: usize = 0;
            while i < count
                invariant
                    i <= count,
                    bytes@ == repeated(key@, i as nat),
                decreases count - i,
            {
                bytes.extend_from_slice(key.as_slice());
                i = i + 1;
            }
        }
        bytes
    }
}

/// A sequence repeated.
pub open spec fn repeated(bytes: Seq<u8>, count: nat) -> Seq<u8>
    decreases count,
{
    if count == 0 {
        Seq::empty()
    } else {
        repeated(bytes, (count - 1) as nat) + bytes
    }
}

/// The bytes that move the program's cursor to a column that was clicked.
pub open spec fn moves_to(tab: TabModel, row: int, col: int) -> Seq<u8> {
    let cursor = tab.screen.term.cursor;
    let app = tab.screen.term.application_cursor_keys;
    if tab.scroll_offset != 0 || row != cursor.row {
        Seq::empty()
    } else if col > cursor.col {
        repeated(arrow(0x43, app), (col - cursor.col) as nat)
    } else {
        repeated(arrow(0x44, app), (cursor.col - col) as nat)
    }
}

/// What is shown while a tab is being renamed.
fn rename_string(name: &Vec<char>) -> (text: String)
    ensures
        text@ == rename_text(name@),
{
    joined3("Rename: ", string_of(name).as_str(), "_")
}

/// A custom title is shown whatever else is known of the tab.
pub proof fn custom_titles_come_first(tab: TabModel, title: Seq<char>, index: int)
    ensures
        (TabModel { custom_title: Some(title), ..tab }).title(index) == title,
{
}

/// Renaming a tab gives it the name that was typed; an empty name changes no title, and neither
/// does giving up.
pub proof fn renaming_gives_the_name(tab: TabModel, name: Seq<char>, index: int)
    ensures
        name.len() > 0 ==> (TabModel { edited: Some(name), ..tab }).renamed().title(index) == name,
        (TabModel { edited: Some(Seq::empty()), ..tab }).renamed().title(index) == tab.title(index),
        (TabModel { edited: Some(name), ..tab }).not_renamed().title(index) == tab.title(index),
{
}

/// The view never leaves the history, however it is scrolled.
pub proof fn views_stay_in_the_history(tab: TabModel, lines: int)
    requires
        tab.scroll_offset <= tab.screen.grid.history.len(),
    ensures
        tab.scrolled(lines).scroll_offset <= tab.screen.grid.history.len(),
        tab.scrolled(lines).screen.grid == tab.screen.grid,
{
}

/// Scrolling back undoes scrolling up, as long as the history reaches.
pub proof fn scrolling_back_undoes_scrolling_up(tab: TabModel, lines: nat)
    requires
        tab.scroll_offset + lines <= tab.screen.grid.history.len(),
    ensures
        tab.scrolled(-lines).scrolled(lines as int).scroll_offset == tab.scroll_offset,
{
}

/// A resize leaves a consistent screen of the wanted size, where the saved cursor fits on it.
pub proof fn resized_screens_are_consistent(tab: TabModel, cols: u16, rows: u16)
    requires
        tab.screen.consistent(),
        cols > 0,
        rows > 0,
        tab.screen.term.saved_cursor matches Some(saved) ==> saved.row < rows && saved.col < cols,
    ensures
        tab.resized(cols, rows).screen.consistent(),
        tab.resized(cols, rows).screen.grid.lines.len() == rows,
        tab.resized(cols, rows).screen.grid.cols == cols,
{
    crate::grid::laws::resizing_gives_the_shape(tab.screen.grid, rows as nat, cols as nat);
}

} // verus!
