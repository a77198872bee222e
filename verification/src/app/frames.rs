use vstd::prelude::*;

use super::state::{sidebar_model, tab_replaced, App, AppModel, SidebarModel};
use super::tab::TabModel;
use crate::gpu::frame::{marked_rows, FrameRow, FrameView};
use crate::primitives::dirty_rows::mask_has;
use crate::sidebar::layout::canvas::{CanvasModel, SidebarCell};
use crate::sidebar::layout::panels::{
    content_rows, entry_hits, panel_drawn, panel_fits, render_sidebar, scroll_end, scroll_limit,
    sidebar_rows, surface_rows, visible_hits, BarFill,
};
use crate::sidebar::state::{entry_values, SidebarHitEntry, SidebarPanel, SidebarState};
use crate::sidebar::usage::api::Timestamp;
use crate::vt::model::ScreenModel;

verus! {

/// What has to be drawn of a window.
pub struct FrameDue {
    /// The rows of the terminal.
    pub mask: [u64; 4],
    pub terminal: bool,
    pub sidebar: bool,
}

/// The hit areas of a sidebar as it is drawn, from a row of its content on.
pub open spec fn shown_hits(state: SidebarState, first: u16, rows: u16) -> Seq<SidebarHitEntry> {
    visible_hits(
        if state.panel == SidebarPanel::Sessions {
            entry_hits(entry_values(state.tab_entries@))
        } else {
            Seq::empty()
        },
        first,
        rows,
    )
}

impl AppModel {
    /// Whether anything of a window has to be drawn.
    pub open spec fn frame_due(self, i: int) -> bool {
        &&& 0 <= i < self.tabs.len()
        &&& self.tabs[i].screen.dirty != Set::<int>::empty() || self.tabs[i].drawn_version
            != self.version
    }

    /// A frame of a window begun: its rows count as drawn.
    pub open spec fn frame_begun(self, i: int) -> AppModel {
        if 0 <= i < self.tabs.len() {
            let tab = self.tabs[i];
            self.with_tab(
                i,
                TabModel {
                    screen: ScreenModel { dirty: Set::<int>::empty(), ..tab.screen },
                    ..tab
                },
            )
        } else {
            self
        }
    }

    /// What a frame of a window shows besides its grid.
    pub open spec fn frame_view(self, i: int) -> FrameView {
        FrameView {
            scroll_offset: self.tabs[i].scroll_offset as usize,
            cursor: self.tabs[i].screen.term.cursor,
            blink_visible: self.blink_visible,
            selection: self.selection,
        }
    }

    /// How far a view of `rows` rows can be scrolled down on the sidebar.
    pub open spec fn sidebar_limit(self, rows: u16) -> u16 {
        scroll_limit(
            content_rows(self.sidebar.panel, self.sidebar.accounts, self.sidebar.entries),
            rows,
        )
    }

    /// The first row of the sidebar's content that shows in a view of `rows` rows. Where the
    /// content has become shorter, its end shows.
    pub open spec fn sidebar_first(self, rows: u16) -> u16 {
        if self.sidebar.scroll <= self.sidebar_limit(rows) {
            self.sidebar.scroll
        } else {
            self.sidebar_limit(rows)
        }
    }

    /// The sidebar scrolled by lines in a view of `rows` rows: down where positive, and neither
    /// over the top nor over the end of its content.
    pub open spec fn sidebar_scrolled(self, rows: u16, lines: int) -> AppModel {
        let wanted = self.sidebar_first(rows) + lines;
        let next = if wanted < 0 {
            0u16
        } else if wanted > self.sidebar_limit(rows) {
            self.sidebar_limit(rows)
        } else {
            wanted as u16
        };
        if next != self.sidebar.scroll {
            AppModel { sidebar: SidebarModel { scroll: next, ..self.sidebar }, ..self }.touched()
        } else {
            self
        }
    }

    /// Whether a window has to be brought to a size: one that shows something, and that it does
    /// not have.
    pub open spec fn resize_due(self, i: int, cols: u16, rows: u16, sidebar_cols: u16) -> bool {
        &&& 0 <= i < self.tabs.len()
        &&& cols > 0
        &&& rows > 0
        &&& cols != self.tabs[i].cols || rows != self.tabs[i].rows || sidebar_cols
            != self.tabs[i].sidebar_cols
    }

    /// The sidebar of a window given another width.
    pub open spec fn sidebar_dragged(self, i: int, width: u32) -> AppModel {
        if 0 <= i < self.tabs.len() {
            self.with_tab(i, TabModel { sidebar_width: width, ..self.tabs[i] })
        } else {
            self
        }
    }

    /// A window brought to a size; its sidebar has to be drawn again.
    pub open spec fn window_resized(
        self,
        i: int,
        cols: u16,
        rows: u16,
        sidebar_cols: u16,
    ) -> AppModel {
        self.with_tab(
            i,
            TabModel { sidebar_cols, drawn_version: 0, ..self.tabs[i].resized(cols, rows) },
        )
    }
}

impl App {
    /// Begin a frame of a window: what has to be drawn, where anything has to be.
    pub fn begin_frame(&mut self, idx: usize) -> (due: Option<FrameDue>)
        requires
            old(self).wf(),
        ensures
            final(self).wf(),
            final(self)@ == old(self)@.frame_begun(idx as int),
            due is Some == old(self)@.frame_due(idx as int),
            due matches Some(d) ==> {
                let tab = old(self)@.tabs[idx as int];
                &&& forall|row: int| #[trigger]
                    mask_has(d.mask@, row) == tab.screen.dirty.contains(row)
                &&& d.terminal == (tab.screen.dirty != Set::<int>::empty())
                &&& d.sidebar == (tab.drawn_version != old(self)@.version)
            },
    {
        if idx >= self.windows.len() {
            return None;
        }
        let terminal = self.windows[idx].dirty_rows.any_dirty();
        let sidebar = self.windows[idx].sidebar_rendered_version != self.sidebar_version;
        let ghost before = self.windows@;
        let mask = self.windows[idx].dirty_rows.drain();
        proof {
            tab_replaced(before, self.windows@, idx as int);
        }
        if terminal || sidebar {
            Some(FrameDue { mask, terminal, sidebar })
        } else {
            None
        }
    }

    /// What is drawn of the rows of a window that a mask marks, as far as it fits into a buffer.
    pub fn draw_terminal(&self, idx: usize, mask: &[u64; 4], capacity: usize) -> (drawn: Vec<
        FrameRow,
    >)
        requires
            self.wf(),
            idx < self.windows@.len(),
        ensures
            self@.frame_view(idx as int).draws(
                self@.tabs[idx as int].screen.grid,
                drawn@,
                marked_rows(
                    mask@,
                    if self@.tabs[idx as int].rows <= 256 {
                        self@.tabs[idx as int].rows as int
                    } else {
                        256
                    },
                ),
                self@.tabs[idx as int].cols,
                capacity,
            ),
    {
        let tab = &self.windows[idx];
        let view = FrameView {
            scroll_offset: tab.scroll_offset,
            cursor: tab.vt_state.cursor,
            blink_visible: self.cursor_blink_visible,
            selection: self.selection,
        };
        view.draw_marked(&tab.grid, mask, tab.grid_cols, tab.grid_rows, capacity)
    }

    /// Whether a window shows the sidebar.
    pub fn shows_sidebar(&self, idx: usize) -> (shown: bool)
        requires
            idx < self.windows@.len(),
        ensures
            shown == (self@.sidebar.visible && self@.tabs[idx as int].sidebar_cols > 0),
    {
        self.sidebar.visible && self.windows[idx].sidebar_cols > 0
    }

    /// Scroll the sidebar by lines, as it shows in a window: down where positive.
    pub fn scroll_sidebar(&mut self, idx: usize, lines: isize)
        requires
            old(self).wf(),
            old(self).sidebar_version < u64::MAX,
            lines > isize::MIN,
        ensures
            final(self).wf(),
            final(self)@ == (if idx < old(self)@.tabs.len() {
                old(self)@.sidebar_scrolled(old(self)@.tabs[idx as int].rows, lines as int)
            } else {
                old(self)@
            }),
    {
        if idx >= self.windows.len() {
            return ;
        }
        let rows: u16 = self.windows[idx].grid_rows;
        let limit: u16 = scroll_end(&self.sidebar, rows);
        let first: u16 = if self.sidebar.scroll_offset <= limit {
            self.sidebar.scroll_offset
        } else {
            limit
        };
        let next: u16 = if lines < 0 {
            let up: usize = (-lines) as usize;
            if up >= first as usize {
                0
            } else {
                first - up as u16
            }
        } else {
            let down: usize = lines as usize;
            if down >= (limit - first) as usize {
                limit
            } else {
                first + down as u16
            }
        };
        if next != self.sidebar.scroll_offset {
            self.sidebar.scroll_offset = next;
            self.touch();
        }
    }

    /// Give the sidebar of a window another width, in pixels; those of the other windows keep
    /// theirs. Says whether the window has to be resized.
    pub fn drag_sidebar(&mut self, idx: usize, width: u32) -> (changed: bool)
        requires
            old(self).wf(),
        ensures
            final(self).wf(),
            final(self)@ == old(self)@.sidebar_dragged(idx as int, width),
            changed == (final(self)@ != old(self)@),
    {
        if idx >= self.windows.len() || self.windows[idx].sidebar_width == width {
            return false;
        }
        let ghost before = self.windows@;
        self.windows[idx].sidebar_width = width;
        proof {
            tab_replaced(before, self.windows@, idx as int);
            assert(self@.tabs[idx as int].sidebar_width != old(self)@.tabs[idx as int].sidebar_width);
        }
        true
    }

    /// The width of a window's sidebar in pixels, where the sidebar is visible.
    pub fn sidebar_width(&self, idx: usize) -> (width: Option<u32>)
        ensures
            width == (if self@.sidebar.visible && idx < self@.tabs.len() {
                Some(self@.tabs[idx as int].sidebar_width)
            } else {
                None
            }),
    {
        if self.sidebar.visible && idx < self.windows.len() {
            Some(self.windows[idx].sidebar_width)
        } else {
            None
        }
    }

    /// Draw the sidebar of a window in the given size, scrolled as it is, and note where its cards
    /// stand. It counts as drawn only where the buffer could be brought to its size.
    pub fn draw_sidebar(
        &mut self,
        idx: usize,
        cols: u16,
        rows: u16,
        buffer_resized: bool,
        fills: &Vec<BarFill>,
        now: Timestamp,
    ) -> (cells: Vec<SidebarCell>)
        requires
            old(self).wf(),
            idx < old(self).windows@.len(),
            panel_fits(old(self).sidebar, cols, rows),
            old(self).sidebar.panel == SidebarPanel::Usage ==> fills@.len() == old(
                self,
            ).sidebar.accounts@.len(),
        ensures
            final(self).wf(),
            cells@ == panel_drawn(
                old(self).sidebar,
                CanvasModel::blank(cols, surface_rows(rows, sidebar_rows(old(self).sidebar))),
                old(self).active_tab,
                old(self).sidebar.hovered_tab,
                fills@,
                now,
            ).canvas.window(old(self)@.sidebar_first(rows) as nat, rows as nat),
            final(self)@ == ({
                let tab = old(self)@.tabs[idx as int];
                let next = AppModel {
                    sidebar: SidebarModel {
                        hits: shown_hits(
                            old(self).sidebar,
                            old(self)@.sidebar_first(rows),
                            rows,
                        ),
                        ..old(self)@.sidebar
                    },
                    ..old(self)@
                };
                if buffer_resized {
                    next.with_tab(
                        idx as int,
                        TabModel { drawn_version: old(self).sidebar_version, ..tab },
                    )
                } else {
                    next
                }
            }),
    {
        let limit: u16 = scroll_end(&self.sidebar, rows);
        let first: u16 = if self.sidebar.scroll_offset <= limit {
            self.sidebar.scroll_offset
        } else {
            limit
        };
        let drawn = render_sidebar(
            &self.sidebar,
            cols,
            rows,
            self.active_tab,
            self.sidebar.hovered_tab,
            first,
            fills,
            now,
        );
        self.sidebar.hit_map = drawn.hit_map;
        if buffer_resized {
            let ghost before = self.windows@;
            self.windows[idx].sidebar_rendered_version = self.sidebar_version;
            proof {
                tab_replaced(before, self.windows@, idx as int);
            }
        }
        assert(sidebar_model(self.sidebar) =~= (SidebarModel {
            hits: shown_hits(old(self).sidebar, first, rows),
            ..old(self)@.sidebar
        }));
        drawn.cells
    }

    /// Whether a window has to be brought to a size.
    pub fn needs_resize(&self, idx: usize, cols: u16, rows: u16, sidebar_cols: u16) -> (due: bool)
        ensures
            due == self@.resize_due(idx as int, cols, rows, sidebar_cols),
    {
        if idx >= self.windows.len() || cols == 0 || rows == 0 {
            return false;
        }
        let tab = &self.windows[idx];
        cols != tab.grid_cols || rows != tab.grid_rows || sidebar_cols != tab.sidebar_cols
    }

    /// Bring a window to a size.
    pub fn resize_window(&mut self, idx: usize, cols: u16, rows: u16, sidebar_cols: u16)
        requires
            old(self).wf(),
            idx < old(self).windows@.len(),
        ensures
            final(self).wf(),
            final(self)@ == old(self)@.window_resized(idx as int, cols, rows, sidebar_cols),
    {
        let ghost before = self.windows@;
        self.windows[idx].resize(cols, rows);
        self.windows[idx].sidebar_cols = sidebar_cols;
        self.windows[idx].sidebar_rendered_version = 0;
        proof {
            tab_replaced(before, self.windows@, idx as int);
        }
    }

    /// The glyphs of a window were made anew: all of it has to be drawn again.
    pub fn glyphs_replaced(&mut self, idx: usize)
        requires
            old(self).wf(),
        ensures
            final(self).wf(),
            final(self)@ == (if idx < old(self)@.tabs.len() {
                old(self)@.with_tab(
                    idx as int,
                    TabModel { drawn_version: 0, ..old(self)@.tabs[idx as int].all_dirty() },
                )
            } else {
                old(self)@
            }),
    {
        if idx < self.windows.len() {
            let ghost before = self.windows@;
            self.windows[idx].dirty_rows.mark_all();
            self.windows[idx].sidebar_rendered_version = 0;
            proof {
                tab_replaced(before, self.windows@, idx as int);
            }
        }
    }
}

/// Right after a frame in which the sidebar was drawn, nothing of the window has to be drawn; and
/// whatever changes the sidebar makes it due again.
pub proof fn frames_settle(app: AppModel, i: int)
    requires
        0 <= i < app.tabs.len(),
        app.tabs[i].drawn_version == app.version,
    ensures
        !app.frame_begun(i).frame_due(i),
        app.frame_begun(i).bumped().frame_due(i),
{
}

/// However the sidebar is scrolled, its view stays on the content.
pub proof fn sidebar_views_stay_in_the_content(app: AppModel, rows: u16, lines: int)
    ensures
        app.sidebar_scrolled(rows, lines).sidebar.scroll <= app.sidebar_limit(rows),
        app.sidebar_scrolled(rows, lines).sidebar_limit(rows) == app.sidebar_limit(rows),
{
}

/// Each row of the sidebar's content can be scrolled into view, however long the content is.
pub proof fn every_row_can_be_scrolled_to(app: AppModel, rows: u16, row: u16)
    requires
        rows > 0,
        row < content_rows(app.sidebar.panel, app.sidebar.accounts, app.sidebar.entries) <= 0xffff,
    ensures
        ({
            let lines = row - app.sidebar_first(rows);
            let first = app.sidebar_scrolled(rows, lines).sidebar_first(rows);
            first <= row < first + rows
        }),
{
    sidebar_views_stay_in_the_content(app, rows, row - app.sidebar_first(rows));
}

/// Scrolling the sidebar back undoes scrolling it, as long as no end was reached.
pub proof fn scrolling_the_sidebar_back_undoes_it(app: AppModel, rows: u16, lines: int)
    requires
        0 <= app.sidebar_first(rows) + lines <= app.sidebar_limit(rows),
    ensures
        app.sidebar_scrolled(rows, lines).sidebar_scrolled(rows, -lines).sidebar_first(rows)
            == app.sidebar_first(rows),
{
    let there = app.sidebar_scrolled(rows, lines);
    sidebar_views_stay_in_the_content(app, rows, lines);
    sidebar_views_stay_in_the_content(there, rows, -lines);
}

/// A drag gives one window's sidebar its width and leaves that of every other as it is.
pub proof fn each_window_has_its_own_sidebar_width(app: AppModel, i: int, width: u32, other: int)
    requires
        0 <= i < app.tabs.len(),
        0 <= other < app.tabs.len(),
        other != i,
    ensures
        app.sidebar_dragged(i, width).tabs[i].sidebar_width == width,
        app.sidebar_dragged(i, width).tabs[other] == app.tabs[other],
        app.sidebar_dragged(i, width).sidebar == app.sidebar,
{
}

/// A window that was brought to a size has that size: it does not have to be resized again.
pub proof fn resizes_settle(app: AppModel, i: int, cols: u16, rows: u16, sidebar_cols: u16)
    requires
        0 <= i < app.tabs.len(),
    ensures
        !app.window_resized(i, cols, rows, sidebar_cols).resize_due(i, cols, rows, sidebar_cols),
        app.version > 0 ==> app.window_resized(i, cols, rows, sidebar_cols).frame_due(i),
{
}

/// A window is drawn as its tab is: with the tab's scroll offset and cursor, the phase of the
/// blinking and the selection.
pub proof fn windows_are_drawn_as_their_tabs_are(app: AppModel, i: int)
    requires
        0 <= i < app.tabs.len(),
        app.tabs[i].scroll_offset <= usize::MAX,
    ensures
        app.frame_view(i).scroll_offset == app.tabs[i].scroll_offset,
        app.frame_view(i).cursor == app.tabs[i].screen.term.cursor,
        app.frame_view(i).blink_visible == app.blink_visible,
        app.frame_view(i).selection == app.selection,
{
}

/// A frame is due where a row of the tab is marked or the sidebar was drawn from an older version,
/// and only then.
pub proof fn frames_are_due_after_changes(app: AppModel, i: int, row: int)
    requires
        0 <= i < app.tabs.len(),
    ensures
        app.tabs[i].screen.dirty.contains(row) ==> app.frame_due(i),
        app.tabs[i].drawn_version != app.version ==> app.frame_due(i),
        app.tabs[i].drawn_version == app.version && (forall|r: int|
            !#[trigger] app.tabs[i].screen.dirty.contains(r)) ==> !app.frame_due(i),
{
    if forall|r: int| !#[trigger] app.tabs[i].screen.dirty.contains(r) {
        assert(app.tabs[i].screen.dirty =~= Set::<int>::empty());
    }
}

/// The sidebar scrolls by as many rows as it is asked to, between the top of its content and the
/// view of its end.
pub proof fn the_sidebar_scrolls_by_rows(app: AppModel, rows: u16, lines: int)
    requires
        app.sidebar.scroll <= app.sidebar_limit(rows),
    ensures
        0 <= app.sidebar.scroll + lines <= app.sidebar_limit(rows) ==> app.sidebar_scrolled(
            rows,
            lines,
        ).sidebar.scroll == app.sidebar.scroll + lines,
        app.sidebar.scroll + lines < 0 ==> app.sidebar_scrolled(rows, lines).sidebar.scroll == 0,
        app.sidebar.scroll + lines > app.sidebar_limit(rows) ==> app.sidebar_scrolled(
            rows,
            lines,
        ).sidebar.scroll == app.sidebar_limit(rows),
{
}

} // verus!
