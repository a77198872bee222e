use vstd::prelude::*;

use super::keys::{key_action, Key, KeyAction, Modifiers, NamedKey};
use super::tab::{moves_to, rename_text, TabModel, TerminalWindow};
use crate::config::CockpitConfig;
use crate::selection::{extract_selection_text, selected_text, Selection};
use crate::sidebar::discovery::poller::{TabScanRequest, TabScanResult};
use crate::sidebar::discovery::tab_session::{ClaudeSession, SessionModel};
use crate::sidebar::state::{
    account_usage_values, entry_values, hit_test, tab_at, AccountUsage, AccountUsageModel,
    EntryModel, SidebarHitEntry, SidebarPanel, SidebarState, TabSessionEntry,
};
use crate::sidebar::usage::api::UsageData;
use crate::sidebar::usage::poller::UsageUpdate;
use crate::text::same_text;

verus! {

/// The sidebar, as mathematical values.
#[verifier::ext_equal]
pub struct SidebarModel {
    pub visible: bool,
    pub width_px: u32,
    pub panel: SidebarPanel,
    pub accounts: Seq<AccountUsageModel>,
    pub usage_error: Option<Seq<char>>,
    pub entries: Seq<EntryModel>,
    pub hits: Seq<SidebarHitEntry>,
    pub hovered: Option<usize>,
    /// How many rows of the panel are scrolled out of view at its top.
    pub scroll: u16,
    pub dirty: bool,
}

/// What a sidebar's state holds.
pub open spec fn sidebar_model(state: SidebarState) -> SidebarModel {
    SidebarModel {
        visible: state.visible,
        width_px: state.width_px,
        panel: state.panel,
        accounts: account_usage_values(state.accounts@),
        usage_error: match state.usage_error {
            Some(e) => Some(e@),
            None => None,
        },
        entries: entry_values(state.tab_entries@),
        hits: state.hit_map@,
        hovered: state.hovered_tab,
        scroll: state.scroll_offset,
        dirty: state.dirty,
    }
}

/// The application, as mathematical values. Times are in nanoseconds on a steady clock.
#[verifier::ext_equal]
pub struct AppModel {
    pub tabs: Seq<TabModel>,
    pub sidebar: SidebarModel,
    /// Counts the changes of what the sidebar shows.
    pub version: int,
    pub active: usize,
    /// When and on which tab the sidebar was last clicked.
    pub last_click: Option<(u64, usize)>,
    pub blink_visible: bool,
    pub blink_toggled: u64,
    pub selection: Option<Selection>,
    pub selecting: bool,
    pub dragging: bool,
}

/// The entries of the sessions panel: one for each tab.
pub open spec fn tab_entries(tabs: Seq<TabModel>) -> Seq<EntryModel> {
    Seq::new(
        tabs.len(),
        |i: int|
            EntryModel {
                tab_index: i as usize,
                title: tabs[i].title(i),
                session: tabs[i].session,
            },
    )
}

impl AppModel {
    /// What the sidebar shows has changed.
    pub open spec fn bumped(self) -> AppModel {
        AppModel { version: self.version + 1, ..self }
    }

    /// The sidebar's state has changed.
    pub open spec fn touched(self) -> AppModel {
        AppModel { sidebar: SidebarModel { dirty: true, ..self.sidebar }, ..self }.bumped()
    }

    /// The entries of the sessions panel built anew.
    pub open spec fn relisted(self) -> AppModel {
        AppModel {
            sidebar: SidebarModel { entries: tab_entries(self.tabs), ..self.sidebar },
            ..self
        }.bumped()
    }

    pub open spec fn with_tab(self, i: int, tab: TabModel) -> AppModel {
        AppModel { tabs: self.tabs.update(i, tab), ..self }
    }

    /// Another tab made the active one.
    pub open spec fn focused(self, i: usize) -> AppModel {
        if self.active != i {
            AppModel { active: i, ..self }.touched()
        } else {
            self
        }
    }

    /// The active tab brought back among the tabs, where there are any.
    pub open spec fn active_kept(self) -> AppModel {
        if self.active >= self.tabs.len() && self.tabs.len() > 0 {
            AppModel { active: (self.tabs.len() - 1) as usize, ..self }
        } else {
            self
        }
    }

    pub open spec fn without_tab(self, i: int) -> AppModel {
        AppModel { tabs: self.tabs.remove(i), ..self }
    }
}

/// The tabs and the sidebar, and what the user is doing with them.
pub struct App {
    pub windows: Vec<TerminalWindow>,
    pub sidebar: SidebarState,
    /// Incremented whenever sidebar data changes. Each window compares against its own
    /// `sidebar_rendered_version` to know when to re-render.
    pub sidebar_version: u64,
    /// Index of the currently focused/active tab (for sidebar highlight).
    pub active_tab: usize,
    /// Double-click detection for sidebar cards.
    pub last_sidebar_click: Option<(u64, usize)>,
    pub cursor_blink_visible: bool,
    pub cursor_blink_last_toggle: u64,
    pub selection: Option<Selection>,
    pub selecting: bool,
    pub dragging_sidebar: bool,
}

/// Tabs as mathematical values.
pub open spec fn tab_values(tabs: Seq<TerminalWindow>) -> Seq<TabModel> {
    Seq::new(tabs.len(), |i: int| tabs[i]@)
}

impl View for App {
    type V = AppModel;

    open spec fn view(&self) -> AppModel {
        AppModel {
            tabs: tab_values(self.windows@),
            sidebar: sidebar_model(self.sidebar),
            version: self.sidebar_version as int,
            active: self.active_tab,
            last_click: self.last_sidebar_click,
            blink_visible: self.cursor_blink_visible,
            blink_toggled: self.cursor_blink_last_toggle,
            selection: self.selection,
            selecting: self.selecting,
            dragging: self.dragging_sidebar,
        }
    }
}

impl App {
    pub open spec fn wf(&self) -> bool {
        forall|i: int| 0 <= i < self.windows@.len() ==> (#[trigger] self.windows@[i]).wf()
    }

    /// No tabs yet. The version begins at 1, so that the first rendering is due.
    pub fn new(config: &CockpitConfig, now: u64) -> (app: App)
        ensures
            app.wf(),
            app@ == (AppModel {
                tabs: Seq::empty(),
                sidebar: SidebarModel {
                    visible: config.sidebar_visible,
                    width_px: config.sidebar_width,
                    panel: SidebarPanel::Sessions,
                    accounts: Seq::empty(),
                    usage_error: None,
                    entries: Seq::empty(),
                    hits: Seq::empty(),
                    hovered: None,
                    scroll: 0,
                    dirty: true,
                },
                version: 1,
                active: 0,
                last_click: None,
                blink_visible: true,
                blink_toggled: now,
                selection: None,
                selecting: false,
                dragging: false,
            }),
    {
        let app = App {
            windows: Vec::new(),
            sidebar: SidebarState::new(config),
            sidebar_version: 1,
            active_tab: 0,
            last_sidebar_click: None,
            cursor_blink_visible: true,
            cursor_blink_last_toggle: now,
            selection: None,
            selecting: false,
            dragging_sidebar: false,
        };
        assert(app@.tabs =~= Seq::empty());
        assert(app@.sidebar.accounts =~= Seq::empty());
        assert(app@.sidebar.entries =~= Seq::empty());
        assert(app@.sidebar.hits =~= Seq::empty());
        app
    }

    /// The entries of the sessions panel: one for each tab.
    pub fn build_tab_entries(&self) -> (entries: Vec<TabSessionEntry>)
        ensures
            entry_values(entries@) == tab_entries(self@.tabs),
    {
        let mut entries: Vec<TabSessionEntry> = Vec::new();
        let count: usize = self.windows.len();
        let mut i: usize = 0;
        while i < count
            invariant
                i <= count == self.windows@.len(),
                entry_values(entries@) == tab_entries(self@.tabs).take(i as int),
                entries@.len() == i,
            decreases count - i,
        {
            let ghost before = entries@;
            let tab = &self.windows[i];
            let session = match &tab.claude_session {
                Some(session) => Some(session.copy()),
                None => None,
            };
            let entry = TabSessionEntry {
                tab_index: i,
                display_title: tab.resolve_tab_title(i),
                session,
            };
            entries.push(entry);
            i = i + 1;
            assert(entry_values(entries@) =~= entry_values(before).push(entry@));
            assert(entry_values(entries@) =~= tab_entries(self@.tabs).take(i as int));
        }
        assert(entry_values(entries@) =~= tab_entries(self@.tabs));
        entries
    }

    /// Build the entries of the sessions panel anew.
    pub fn relist_tabs(&mut self)
        requires
            old(self).wf(),
            old(self).sidebar_version < u64::MAX,
        ensures
            final(self).wf(),
            final(self)@ == old(self)@.relisted(),
    {
        self.sidebar.tab_entries = self.build_tab_entries();
        self.sidebar_version = self.sidebar_version + 1;
    }

    pub(crate) fn touch(&mut self)
        requires
            old(self).wf(),
            old(self).sidebar_version < u64::MAX,
        ensures
            final(self).wf(),
            final(self)@ == old(self)@.touched(),
    {
        self.sidebar.dirty = true;
        self.sidebar_version = self.sidebar_version + 1;
    }

    /// A window got the focus.
    pub fn focus(&mut self, idx: usize)
        requires
            old(self).wf(),
            old(self).sidebar_version < u64::MAX,
        ensures
            final(self).wf(),
            final(self)@ == old(self)@.focused(idx),
    {
        if self.active_tab != idx {
            self.active_tab = idx;
            self.touch();
        }
    }

    /// Add the first tab, which is listed with the next change.
    pub fn add_first_tab(&mut self, tab: TerminalWindow)
        requires
            old(self).wf(),
            tab.wf(),
        ensures
            final(self).wf(),
            final(self)@ == (AppModel { tabs: old(self)@.tabs.push(tab@), ..old(self)@ }),
    {
        self.windows.push(tab);
        assert(self@.tabs =~= old(self)@.tabs.push(tab@));
    }

    /// Add a tab.
    pub fn add_tab(&mut self, tab: TerminalWindow)
        requires
            old(self).wf(),
            tab.wf(),
            old(self).sidebar_version < u64::MAX,
        ensures
            final(self).wf(),
            final(self)@ == (AppModel {
                tabs: old(self)@.tabs.push(tab@),
                ..old(self)@
            }).relisted(),
    {
        self.add_first_tab(tab);
        self.relist_tabs();
    }

    /// Close a tab by its shortcut. Says whether it was the last one.
    pub fn close_tab(&mut self, idx: usize) -> (last: bool)
        requires
            old(self).wf(),
            old(self).sidebar_version < u64::MAX,
            idx < old(self).windows@.len(),
        ensures
            final(self).wf(),
            final(self)@ == old(self)@.without_tab(idx as int).relisted(),
            last == (final(self)@.tabs.len() == 0),
    {
        self.windows.remove(idx);
        assert(self@.tabs =~= old(self)@.tabs.remove(idx as int));
        self.relist_tabs();
        self.windows.len() == 0
    }

    /// Close a tab whose window was asked to close. Says whether it was the last one.
    pub fn close_requested(&mut self, idx: usize) -> (last: bool)
        requires
            old(self).wf(),
            old(self).sidebar_version < u64::MAX,
            idx < old(self).windows@.len(),
        ensures
            final(self).wf(),
            final(self)@ == old(self)@.without_tab(idx as int).relisted().active_kept(),
            last == (final(self)@.tabs.len() == 0),
    {
        let last = self.close_tab(idx);
        let count: usize = self.windows.len();
        if self.active_tab >= count && count > 0 {
            self.active_tab = count - 1;
        }
        last
    }
}

/// The tabs whose shells still run, in order.
pub open spec fn surviving(tabs: Seq<TabModel>, alive: Seq<bool>) -> Seq<TabModel>
    decreases tabs.len(),
{
    if tabs.len() == 0 {
        Seq::empty()
    } else {
        let rest = surviving(tabs.drop_first(), alive.drop_first());
        if alive[0] {
            seq![tabs[0]] + rest
        } else {
            rest
        }
    }
}

/// Nothing leaves where all shells run.
proof fn all_survive(tabs: Seq<TabModel>, alive: Seq<bool>)
    requires
        alive.len() == tabs.len(),
        forall|i: int| 0 <= i < alive.len() ==> #[trigger] alive[i],
    ensures
        surviving(tabs, alive) == tabs,
    decreases tabs.len(),
{
    if tabs.len() > 0 {
        let rest = alive.drop_first();
        assert forall|i: int| 0 <= i < rest.len() implies #[trigger] rest[i] by {
            assert(rest[i] == alive[i + 1]);
        }
        all_survive(tabs.drop_first(), rest);
        assert(seq![tabs[0]] + tabs.drop_first() =~= tabs);
    } else {
        assert(tabs =~= Seq::empty());
    }
}

/// One step of the removal, from the end.
pub(crate) proof fn surviving_from_the_end(tabs: Seq<TabModel>, alive: Seq<bool>)
    requires
        alive.len() == tabs.len(),
        tabs.len() > 0,
    ensures
        surviving(tabs, alive) == (if alive.last() {
            surviving(tabs.drop_last(), alive.drop_last()).push(tabs.last())
        } else {
            surviving(tabs.drop_last(), alive.drop_last())
        }),
    decreases tabs.len(),
{
    if tabs.len() == 1 {
        assert(tabs.drop_first() =~= Seq::empty());
        assert(tabs.drop_last() =~= Seq::empty());
        assert(surviving(Seq::empty(), alive.drop_first()) =~= Seq::empty());
        assert(surviving(tabs, alive) =~= (if alive.last() {
            surviving(tabs.drop_last(), alive.drop_last()).push(tabs.last())
        } else {
            surviving(tabs.drop_last(), alive.drop_last())
        }));
    } else {
        surviving_from_the_end(tabs.drop_first(), alive.drop_first());
        assert(tabs.drop_first().drop_last() =~= tabs.drop_last().drop_first());
        assert(alive.drop_first().drop_last() =~= alive.drop_last().drop_first());
        assert(surviving(tabs, alive) =~= (if alive.last() {
            surviving(tabs.drop_last(), alive.drop_last()).push(tabs.last())
        } else {
            surviving(tabs.drop_last(), alive.drop_last())
        }));
    }
}

/// How long the cursor shows and how long it does not, in nanoseconds.
pub const BLINK_NANOS: u64 = 500_000_000;

/// Two clicks count as one double click within this time, in nanoseconds.
pub const DOUBLE_CLICK_NANOS: u64 = 400_000_000;

/// The time since a moment; none where the clock went back.
pub open spec fn since(now: u64, then: u64) -> int {
    if now >= then {
        now - then
    } else {
        0
    }
}

impl AppModel {
    /// The tabs whose shells have exited closed, where there are any.
    pub open spec fn without_dead(self, alive: Seq<bool>) -> AppModel {
        if exists|i: int| 0 <= i < alive.len() && !#[trigger] alive[i] {
            AppModel { tabs: surviving(self.tabs, alive), ..self }.active_kept().relisted()
        } else {
            self
        }
    }

    /// The cursor's blinking at a time: it changes every half second, and the active tab's cursor
    /// row is then drawn again.
    pub open spec fn blinked(self, now: u64) -> AppModel {
        if since(now, self.blink_toggled) >= BLINK_NANOS {
            let next = AppModel {
                blink_visible: !self.blink_visible,
                blink_toggled: now,
                ..self
            };
            if self.active < self.tabs.len() {
                let tab = self.tabs[self.active as int];
                next.with_tab(
                    self.active as int,
                    TabModel { screen: tab.screen.marked(tab.screen.term.cursor.row), ..tab },
                )
            } else {
                next
            }
        } else {
            self
        }
    }
}

impl App {
    /// Close the tabs whose shells have exited. Says whether no tab is left.
    pub fn remove_dead(&mut self, alive: &Vec<bool>) -> (none_left: bool)
        requires
            old(self).wf(),
            old(self).sidebar_version < u64::MAX,
            alive@.len() == old(self).windows@.len(),
        ensures
            final(self).wf(),
            final(self)@ == old(self)@.without_dead(alive@),
            none_left == (final(self)@.tabs.len() == 0 && (exists|i: int|
                0 <= i < alive@.len() && !#[trigger] alive@[i])),
    {
        let ghost tabs = self@.tabs;
        let ghost before = *self;
        let mut any_dead = false;
        let mut i: usize = alive.len();
        assert(tabs.take(i as int) =~= tabs);
        assert(alive@.take(i as int) =~= alive@);
        assert(self@.tabs =~= self@.tabs.take(i as int) + Seq::empty());
        let ghost mut tail: Seq<TabModel> = Seq::empty();
        assert(surviving(tabs, alive@) =~= surviving(tabs, alive@) + tail);
        while i > 0
            invariant
                i <= alive@.len() == tabs.len(),
                self.wf(),
                self@ == (AppModel { tabs: tabs.take(i as int) + tail, ..before@ }),
                self.sidebar_version == before.sidebar_version,
                surviving(tabs, alive@) == surviving(
                    tabs.take(i as int),
                    alive@.take(i as int),
                ) + tail,
                any_dead == exists|k: int| i <= k < alive@.len() && !#[trigger] alive@[k],
            decreases i,
        {
            proof {
                surviving_from_the_end(tabs.take(i as int), alive@.take(i as int));
                assert(tabs.take(i as int).drop_last() =~= tabs.take(i - 1));
                assert(alive@.take(i as int).drop_last() =~= alive@.take(i - 1));
            }
            let ghost now = self@.tabs;
            i = i - 1;
            assert(now.len() == self.windows@.len());
            if !alive[i] {
                self.windows.remove(i);
                any_dead = true;
                proof {
                    assert(self@.tabs =~= now.remove(i as int));
                    assert(self@.tabs =~= tabs.take(i as int) + tail);
                    assert(!alive@[i as int]);
                }
            } else {
                proof {
                    let longer = seq![tabs[i as int]] + tail;
                    assert(tabs.take(i as int) + longer =~= tabs.take(i + 1) + tail);
                    assert(surviving(tabs.take(i as int), alive@.take(i as int)).push(
                        tabs[i as int],
                    ) + tail =~= surviving(tabs.take(i as int), alive@.take(i as int)) + longer);
                    tail = longer;
                }
            }
        }
        proof {
            assert(tabs.take(0) + tail =~= tail);
            assert(surviving(tabs.take(0), alive@.take(0)) + tail =~= tail);
            if !any_dead {
                all_survive(tabs, alive@);
            }
        }
        if !any_dead {
            assert(self@ =~= before@);
            return false;
        }
        let count: usize = self.windows.len();
        if count > 0 && self.active_tab >= count {
            self.active_tab = count - 1;
        }
        self.relist_tabs();
        self.windows.len() == 0
    }

    /// Show the cursor, as after a key press.
    pub fn reset_blink(&mut self, now: u64)
        requires
            old(self).wf(),
        ensures
            final(self).wf(),
            final(self)@ == (AppModel { blink_visible: true, blink_toggled: now, ..old(self)@ }),
    {
        self.cursor_blink_visible = true;
        self.cursor_blink_last_toggle = now;
    }

    /// Let the cursor blink.
    pub fn blink(&mut self, now: u64)
        requires
            old(self).wf(),
        ensures
            final(self).wf(),
            final(self)@ == old(self)@.blinked(now),
    {
        if now.saturating_sub(self.cursor_blink_last_toggle) >= BLINK_NANOS {
            self.cursor_blink_visible = !self.cursor_blink_visible;
            self.cursor_blink_last_toggle = now;
            let active: usize = self.active_tab;
            if active < self.windows.len() {
                let row: u16 = self.windows[active].vt_state.cursor.row;
                self.windows[active].dirty_rows.mark(row);
                proof {
                    let tab = old(self)@.tabs[active as int];
                    assert(self@.tabs =~= old(self)@.tabs.update(
                        active as int,
                        TabModel { screen: tab.screen.marked(tab.screen.term.cursor.row), ..tab },
                    ));
                }
            }
        }
    }

    /// Whether a window has to be drawn: rows of it, or the sidebar.
    pub fn needs_redraw(&self, idx: usize) -> (due: bool)
        requires
            idx < self.windows@.len(),
        ensures
            due == (!(self@.tabs[idx as int].screen.dirty =~= Set::<int>::empty())
                || self@.tabs[idx as int].drawn_version != self@.version),
    {
        let tab = &self.windows[idx];
        tab.dirty_rows.any_dirty() || tab.sidebar_rendered_version != self.sidebar_version
    }

    /// Show or hide the sidebar; all windows have to be resized then.
    pub fn toggle_sidebar(&mut self)
        requires
            old(self).wf(),
        ensures
            final(self).wf(),
            final(self)@ == (AppModel {
                sidebar: SidebarModel {
                    visible: !old(self)@.sidebar.visible,
                    dirty: true,
                    ..old(self)@.sidebar
                },
                ..old(self)@
            }),
    {
        self.sidebar.toggle_visibility();
    }

    /// Show the next panel, from its top.
    pub fn cycle_panel(&mut self)
        requires
            old(self).wf(),
            old(self).sidebar_version < u64::MAX,
        ensures
            final(self).wf(),
            final(self)@ == (AppModel {
                sidebar: SidebarModel {
                    panel: old(self)@.sidebar.panel.following(),
                    scroll: 0,
                    dirty: true,
                    ..old(self)@.sidebar
                },
                ..old(self)@
            }).bumped(),
    {
        let next = self.sidebar.panel.next();
        self.sidebar.switch_panel(next);
        self.sidebar_version = self.sidebar_version + 1;
    }
}

impl AppModel {
    /// Renaming the active tab begun, or its name taken over where it was being renamed.
    pub open spec fn rename_toggled(self) -> AppModel {
        if self.active < self.tabs.len() {
            let i = self.active as int;
            let tab = self.tabs[i];
            if tab.edited is Some {
                self.with_tab(i, tab.renamed()).relisted()
            } else {
                self.with_tab(i, TabModel { edited: Some(Seq::empty()), ..tab })
            }
        } else {
            self
        }
    }

    /// Whether the active tab is being renamed.
    pub open spec fn editing_name(self) -> bool {
        self.active < self.tabs.len() && self.tabs[self.active as int].edited is Some
    }

    /// A key pressed while the active tab is being renamed.
    pub open spec fn name_edited(self, key: Key) -> AppModel {
        let i = self.active as int;
        let tab = self.tabs[i];
        let name = tab.edited->0;
        match key {
            Key::Named(NamedKey::Enter) => self.with_tab(i, tab.renamed()).relisted(),
            Key::Named(NamedKey::Escape) => self.with_tab(i, tab.not_renamed()).relisted(),
            Key::Named(NamedKey::Backspace) => self.with_tab(
                i,
                TabModel {
                    edited: Some(
                        if name.len() > 0 {
                            name.drop_last()
                        } else {
                            name
                        },
                    ),
                    ..tab
                },
            ),
            Key::Named(NamedKey::Space) => self.with_tab(
                i,
                TabModel { edited: Some(name + " "@), ..tab },
            ),
            Key::Character(s) => self.with_tab(i, TabModel { edited: Some(name + s@), ..tab }),
            _ => self,
        }
    }
}

/// Replacing a tab replaces its values.
pub(crate) proof fn tab_replaced(before: Seq<TerminalWindow>, after: Seq<TerminalWindow>, i: int)
    requires
        0 <= i < before.len() == after.len(),
        forall|k: int| 0 <= k < before.len() && k != i ==> after[k] == before[k],
    ensures
        tab_values(after) == tab_values(before).update(i, after[i]@),
{
    assert(tab_values(after) =~= tab_values(before).update(i, after[i]@));
}

impl App {
    /// Begin to rename the active tab, or take over its name. Gives the title that the active
    /// window has to be given.
    pub fn toggle_rename(&mut self) -> (title: Option<String>)
        requires
            old(self).wf(),
            old(self).sidebar_version < u64::MAX,
        ensures
            final(self).wf(),
            final(self)@ == old(self)@.rename_toggled(),
            match title {
                Some(t) => {
                    &&& old(self)@.active < old(self)@.tabs.len()
                    &&& !old(self)@.editing_name()
                    &&& t@ == rename_text(Seq::empty())
                },
                None => old(self)@.active >= old(self)@.tabs.len() || old(self)@.editing_name(),
            },
    {
        let active: usize = self.active_tab;
        if active >= self.windows.len() {
            return None;
        }
        if self.windows[active].title_edit.is_some() {
            self.windows[active].commit_rename();
            proof {
                tab_replaced(old(self).windows@, self.windows@, active as int);
            }
            self.relist_tabs();
            None
        } else {
            let shown = self.windows[active].begin_rename();
            proof {
                tab_replaced(old(self).windows@, self.windows@, active as int);
            }
            Some(shown)
        }
    }

    /// Whether the active tab is being renamed.
    pub fn editing_name(&self) -> (editing: bool)
        ensures
            editing == self@.editing_name(),
    {
        self.active_tab < self.windows.len() && self.windows[self.active_tab].title_edit.is_some()
    }

    /// Give a key to the name that is being edited. Gives the title that the active window has to
    /// be given.
    pub fn edit_name(&mut self, key: &Key) -> (title: Option<String>)
        requires
            old(self).wf(),
            old(self)@.editing_name(),
            old(self).sidebar_version < u64::MAX,
        ensures
            final(self).wf(),
            final(self)@ == old(self)@.name_edited(*key),
            match title {
                Some(t) => {
                    &&& *key is Character || *key == Key::Named(NamedKey::Backspace) || *key
                        == Key::Named(NamedKey::Space)
                    &&& t@ == rename_text(final(self)@.tabs[old(self)@.active as int].edited->0)
                },
                None => !(*key is Character || *key == Key::Named(NamedKey::Backspace) || *key
                    == Key::Named(NamedKey::Space)),
            },
    {
        let active: usize = self.active_tab;
        match key {
            Key::Named(NamedKey::Enter) => {
                self.windows[active].commit_rename();
                proof {
                    tab_replaced(old(self).windows@, self.windows@, active as int);
                }
                self.relist_tabs();
                None
            },
            Key::Named(NamedKey::Escape) => {
                self.windows[active].cancel_rename();
                proof {
                    tab_replaced(old(self).windows@, self.windows@, active as int);
                }
                self.relist_tabs();
                None
            },
            Key::Named(NamedKey::Backspace) => {
                let shown = self.windows[active].edit_name(None);
                proof {
                    tab_replaced(old(self).windows@, self.windows@, active as int);
                }
                shown
            },
            Key::Named(NamedKey::Space) => {
                let shown = self.windows[active].edit_name(Some(" "));
                proof {
                    tab_replaced(old(self).windows@, self.windows@, active as int);
                }
                shown
            },
            Key::Character(s) => {
                let shown = self.windows[active].edit_name(Some(s.as_str()));
                proof {
                    tab_replaced(old(self).windows@, self.windows@, active as int);
                }
                shown
            },
            _ => None,
        }
    }

    /// What a key press asks for.
    pub fn key_pressed(&mut self, key: &Key, held: Modifiers, now: u64) -> (action: KeyAction)
        requires
            old(self).wf(),
        ensures
            final(self).wf(),
            final(self)@ == (AppModel { blink_visible: true, blink_toggled: now, ..old(self)@ }),
            action == super::keys::action_for(*key, held, old(self)@.editing_name()),
    {
        let editing = self.editing_name();
        self.reset_blink(now);
        key_action(key, held, editing)
    }
}

/// What copying comes to.
pub enum CopyOutcome {
    /// Put the text on the clipboard, unless it is empty.
    Clipboard(Option<String>),
    /// Interrupt the program: send the byte.
    Interrupt(u8),
}

impl AppModel {
    pub open spec fn tab_all_dirty(self, i: int) -> AppModel {
        if 0 <= i < self.tabs.len() {
            self.with_tab(i, self.tabs[i].all_dirty())
        } else {
            self
        }
    }

    /// A selection begun at a cell.
    pub open spec fn selection_begun(self, i: int, row: usize, col: usize) -> AppModel {
        AppModel {
            selection: Some(
                Selection { start_row: row, start_col: col, end_row: row, end_col: col },
            ),
            selecting: true,
            ..self
        }.tab_all_dirty(i)
    }

    /// The selection drawn to a cell, while one is being made.
    pub open spec fn selection_dragged(self, i: int, row: usize, col: usize) -> AppModel {
        match self.selection {
            Some(sel) => if self.selecting && 0 <= i < self.tabs.len() && (sel.end_row != row
                || sel.end_col != col) {
                AppModel {
                    selection: Some(Selection { end_row: row, end_col: col, ..sel }),
                    ..self
                }.tab_all_dirty(i)
            } else {
                self
            },
            None => self,
        }
    }

    /// Whether the mouse was pressed and released on the same cell.
    pub open spec fn clicked(self) -> bool {
        self.selecting && self.selection is Some && self.selection->0.start_row
            == self.selection->0.end_row && self.selection->0.start_col
            == self.selection->0.end_col
    }

    /// The mouse button released: a click leaves no selection.
    pub open spec fn mouse_released(self, i: int) -> AppModel {
        let next = AppModel { dragging: false, selecting: false, ..self };
        if self.clicked() {
            AppModel { selection: None, ..next }.tab_all_dirty(i)
        } else {
            next
        }
    }
}

impl App {
    fn mark_tab(&mut self, idx: usize)
        requires
            old(self).wf(),
        ensures
            final(self).wf(),
            final(self)@ == old(self)@.tab_all_dirty(idx as int),
    {
        if idx < self.windows.len() {
            self.windows[idx].dirty_rows.mark_all();
            proof {
                tab_replaced(old(self).windows@, self.windows@, idx as int);
            }
        }
    }

    /// Copy the selection from a window, which stays visible; without one, interrupt the program.
    pub fn copy(&mut self, idx: usize) -> (outcome: CopyOutcome)
        requires
            old(self).wf(),
        ensures
            final(self).wf(),
            match old(self)@.selection {
                Some(sel) => {
                    &&& final(self)@ == old(self)@.tab_all_dirty(idx as int)
                    &&& outcome matches CopyOutcome::Clipboard(text) && {
                        let tabs = old(self)@.tabs;
                        match text {
                            Some(t) => idx < tabs.len() && t@.len() > 0 && t@ == selected_text(
                                tabs[idx as int].screen.grid,
                                sel,
                                tabs[idx as int].scroll_offset,
                            ),
                            None => idx < tabs.len() ==> selected_text(
                                tabs[idx as int].screen.grid,
                                sel,
                                tabs[idx as int].scroll_offset,
                            ).len() == 0,
                        }
                    }
                },
                None => {
                    &&& final(self)@ == old(self)@
                    &&& outcome == CopyOutcome::Interrupt(3)
                },
            },
    {
        match self.selection {
            Some(sel) => {
                let mut text: Option<String> = None;
                if idx < self.windows.len() {
                    let tab = &self.windows[idx];
                    let copied = extract_selection_text(&tab.grid, &sel, tab.scroll_offset);
                    if !copied.as_str().is_empty() {
                        text = Some(copied);
                    }
                }
                self.mark_tab(idx);
                CopyOutcome::Clipboard(text)
            },
            None => CopyOutcome::Interrupt(3),
        }
    }

    /// The mouse was pressed on a cell of a window.
    pub fn begin_selection(&mut self, idx: usize, row: usize, col: usize)
        requires
            old(self).wf(),
        ensures
            final(self).wf(),
            final(self)@ == old(self)@.selection_begun(idx as int, row, col),
    {
        self.selection = Some(
            Selection { start_row: row, start_col: col, end_row: row, end_col: col },
        );
        self.selecting = true;
        self.mark_tab(idx);
    }

    /// The mouse was moved to a cell of a window.
    pub fn drag_selection(&mut self, idx: usize, row: usize, col: usize)
        requires
            old(self).wf(),
        ensures
            final(self).wf(),
            final(self)@ == old(self)@.selection_dragged(idx as int, row, col),
    {
        if self.selecting && idx < self.windows.len() {
            if let Some(sel) = self.selection {
                if sel.end_row != row || sel.end_col != col {
                    self.selection = Some(Selection { end_row: row, end_col: col, ..sel });
                    self.mark_tab(idx);
                }
            }
        }
    }

    /// The mouse was pressed on the sidebar's edge.
    pub fn begin_drag(&mut self)
        requires
            old(self).wf(),
        ensures
            final(self).wf(),
            final(self)@ == (AppModel { dragging: true, ..old(self)@ }),
    {
        self.dragging_sidebar = true;
    }

    /// The mouse button was released over a window. Gives the bytes that move the program's
    /// cursor to a cell that was clicked.
    pub fn release_mouse(&mut self, idx: usize) -> (bytes: Vec<u8>)
        requires
            old(self).wf(),
        ensures
            final(self).wf(),
            final(self)@ == old(self)@.mouse_released(idx as int),
            bytes@ == (if old(self)@.clicked() && idx < old(self)@.tabs.len() {
                moves_to(
                    old(self)@.tabs[idx as int],
                    old(self)@.selection->0.start_row as int,
                    old(self)@.selection->0.start_col as int,
                )
            } else {
                Seq::empty()
            }),
    {
        let mut bytes: Vec<u8> = Vec::new();
        self.dragging_sidebar = false;
        if self.selecting {
            self.selecting = false;
            if let Some(sel) = self.selection {
                if sel.start_row == sel.end_row && sel.start_col == sel.end_col {
                    self.selection = None;
                    if idx < self.windows.len() {
                        bytes = self.windows[idx].click_to_position(sel.start_row, sel.start_col);
                    }
                    self.mark_tab(idx);
                }
            }
        }
        assert(bytes@.len() == 0 ==> bytes@ =~= Seq::empty());
        bytes
    }
}

/// What a click on a card of the sidebar comes to.
pub enum CardClick {
    /// No card was hit.
    Missed,
    /// Show the tab.
    Select(usize),
    /// The tab is being renamed; its window, where there is one, has to be given the title.
    Rename(usize, Option<String>),
}

impl AppModel {
    /// Whether a click on a tab's card comes soon enough after another one.
    pub open spec fn double_click(self, tab: usize, now: u64) -> bool {
        match self.last_click {
            Some((then, other)) => other == tab && since(now, then) < DOUBLE_CLICK_NANOS,
            None => false,
        }
    }

    /// A tab's card clicked: it becomes the active one, and a double click begins to rename it.
    pub open spec fn card_clicked(self, tab: usize, now: u64) -> AppModel {
        if self.double_click(tab, now) {
            let next = AppModel { last_click: None, active: tab, ..self }.touched();
            if tab < self.tabs.len() {
                next.with_tab(
                    tab as int,
                    TabModel { edited: Some(Seq::empty()), ..self.tabs[tab as int] },
                )
            } else {
                next
            }
        } else {
            AppModel { last_click: Some((now, tab)), ..self }.focused(tab)
        }
    }

    /// The mouse over a tab's card, or over none.
    pub open spec fn hovered_over(self, tab: Option<usize>) -> AppModel {
        if self.sidebar.hovered != tab {
            AppModel { sidebar: SidebarModel { hovered: tab, ..self.sidebar }, ..self }.touched()
        } else {
            self
        }
    }
}

impl App {
    /// The mouse was pressed on a row of the sidebar.
    pub fn click_card(&mut self, row: u16, now: u64) -> (click: CardClick)
        requires
            old(self).wf(),
            old(self).sidebar_version < u64::MAX,
        ensures
            final(self).wf(),
            match tab_at(old(self)@.sidebar.hits, row) {
                Some(tab) => {
                    &&& final(self)@ == old(self)@.card_clicked(tab, now)
                    &&& if old(self)@.double_click(tab, now) {
                        click matches CardClick::Rename(t, title) && t == tab && match title {
                            Some(shown) => tab < old(self)@.tabs.len() && shown@ == rename_text(
                                Seq::empty(),
                            ),
                            None => tab >= old(self)@.tabs.len(),
                        }
                    } else {
                        click == CardClick::Select(tab)
                    }
                },
                None => final(self)@ == old(self)@ && click is Missed,
            },
    {
        let tab: usize = match hit_test(&self.sidebar.hit_map, row) {
            Some(tab) => tab,
            None => {
                return CardClick::Missed;
            },
        };
        let double = match self.last_sidebar_click {
            Some((then, other)) => other == tab && now.saturating_sub(then) < DOUBLE_CLICK_NANOS,
            None => false,
        };
        if double {
            self.last_sidebar_click = None;
            self.active_tab = tab;
            self.touch();
            if tab < self.windows.len() {
                let ghost before = self.windows@;
                let shown = self.windows[tab].begin_rename();
                proof {
                    tab_replaced(before, self.windows@, tab as int);
                }
                CardClick::Rename(tab, Some(shown))
            } else {
                CardClick::Rename(tab, None)
            }
        } else {
            self.last_sidebar_click = Some((now, tab));
            self.focus(tab);
            CardClick::Select(tab)
        }
    }

    /// The mouse was moved to a row of the sidebar, or out of it.
    pub fn hover(&mut self, row: Option<u16>)
        requires
            old(self).wf(),
            old(self).sidebar_version < u64::MAX,
        ensures
            final(self).wf(),
            final(self)@ == old(self)@.hovered_over(
                match row {
                    Some(r) => tab_at(old(self)@.sidebar.hits, r),
                    None => None,
                },
            ),
    {
        let tab: Option<usize> = match row {
            Some(r) => hit_test(&self.sidebar.hit_map, r),
            None => None,
        };
        if self.sidebar.hovered_tab != tab {
            self.sidebar.hovered_tab = tab;
            self.touch();
        }
    }
}

/// The usage of accounts after another report: that of the account replaced, or added at the end.
pub open spec fn usage_noted(
    accounts: Seq<AccountUsageModel>,
    name: Seq<char>,
    data: UsageData,
) -> Seq<AccountUsageModel>
    decreases accounts.len(),
{
    if accounts.len() == 0 {
        seq![AccountUsageModel { account_name: name, data }]
    } else if accounts[0].account_name == name {
        accounts.update(0, AccountUsageModel { data, ..accounts[0] })
    } else {
        seq![accounts[0]] + usage_noted(accounts.drop_first(), name, data)
    }
}

/// The tabs after the scan of a shell: the session of the first tab with that shell replaced.
pub open spec fn scan_noted(
    tabs: Seq<TabModel>,
    shell_pid: u32,
    session: Option<SessionModel>,
) -> Seq<TabModel>
    decreases tabs.len(),
{
    if tabs.len() == 0 {
        tabs
    } else if tabs[0].shell_pid == shell_pid {
        tabs.update(0, TabModel { session, ..tabs[0] })
    } else {
        seq![tabs[0]] + scan_noted(tabs.drop_first(), shell_pid, session)
    }
}

/// What a scan says of a session.
pub open spec fn session_value(session: Option<ClaudeSession>) -> Option<SessionModel> {
    match session {
        Some(s) => Some(s@),
        None => None,
    }
}

impl AppModel {
    /// A report on usage noted.
    pub open spec fn usage_reported(self, update: UsageUpdate) -> AppModel {
        AppModel {
            sidebar: match update {
                UsageUpdate::Data { account_name, data } => SidebarModel {
                    accounts: usage_noted(self.sidebar.accounts, account_name@, data),
                    usage_error: None,
                    ..self.sidebar
                },
                UsageUpdate::Error(e) => SidebarModel { usage_error: Some(e@), ..self.sidebar },
            },
            ..self
        }
    }
}

impl App {
    /// Note a report on usage; what the sidebar shows has changed then.
    pub fn note_usage(&mut self, update: UsageUpdate)
        requires
            old(self).wf(),
        ensures
            final(self).wf(),
            final(self)@ == old(self)@.usage_reported(update),
    {
        match update {
            UsageUpdate::Data { account_name, data } => {
                note_account(&mut self.sidebar.accounts, account_name, data);
                self.sidebar.usage_error = None;
            },
            UsageUpdate::Error(e) => {
                self.sidebar.usage_error = Some(e);
            },
        }
    }

    /// Note what a scan found. Says whether a tab's session is another one now.
    pub fn note_scan(&mut self, result: TabScanResult) -> (changed: bool)
        requires
            old(self).wf(),
        ensures
            final(self).wf(),
            final(self)@ == (AppModel {
                tabs: scan_noted(old(self)@.tabs, result.shell_pid, session_value(result.session)),
                ..old(self)@
            }),
            changed == !(final(self)@.tabs =~= old(self)@.tabs),
    {
        let ghost tabs = self@.tabs;
        let ghost before = *self;
        let pid: u32 = result.shell_pid;
        let ghost found = session_value(result.session);
        let mut i: usize = 0;
        assert(tabs.skip(0) =~= tabs);
        assert(tabs.take(0) + scan_noted(tabs, pid, found) =~= scan_noted(tabs, pid, found));
        while i < self.windows.len()
            invariant
                i <= self.windows@.len(),
                self.wf(),
                *self == before,
                before@.tabs == tabs,
                before == *old(self),
                found == session_value(result.session),
                pid == result.shell_pid,
                scan_noted(tabs, pid, found) == tabs.take(i as int) + scan_noted(
                    tabs.skip(i as int),
                    pid,
                    found,
                ),
            decreases self.windows@.len() - i,
        {
            let ghost rest = tabs.skip(i as int);
            assert(rest[0] == self.windows@[i as int]@);
            if self.windows[i].shell_pid == pid {
                let same = match (&self.windows[i].claude_session, &result.session) {
                    (Some(a), Some(b)) => a.same(b),
                    (None, None) => true,
                    _ => false,
                };
                assert(same == (rest[0].session == found));
                let ghost updated = TabModel { session: found, ..rest[0] };
                if same {
                    assert(updated =~= rest[0]);
                    assert(tabs.take(i as int) + rest.update(0, updated) =~= tabs);
                    return false;
                }
                self.windows[i].claude_session = result.session;
                proof {
                    tab_replaced(before.windows@, self.windows@, i as int);
                    assert(tabs.take(i as int) + rest.update(0, updated) =~= tabs.update(
                        i as int,
                        updated,
                    ));
                    assert(self@.tabs[i as int].session != tabs[i as int].session);
                }
                return true;
            }
            assert(rest.drop_first() =~= tabs.skip(i + 1));
            i = i + 1;
            assert(tabs.take(i as int) + scan_noted(tabs.skip(i as int), pid, found) =~= tabs.take(
                i - 1,
            ) + (seq![rest[0]] + scan_noted(rest.drop_first(), pid, found)));
        }
        assert(tabs.skip(i as int) =~= Seq::empty());
        assert(tabs.take(i as int) + Seq::<TabModel>::empty() =~= tabs);
        false
    }

    /// Ask for the sessions below the shells of all tabs.
    pub fn scan_requests(&self) -> (requests: Vec<TabScanRequest>)
        ensures
            requests@.len() == self@.tabs.len(),
            forall|i: int|
                0 <= i < requests@.len() ==> (#[trigger] requests@[i]).shell_pid
                    == self@.tabs[i].shell_pid,
    {
        let mut requests: Vec<TabScanRequest> = Vec::new();
        let mut i: usize = 0;
        while i < self.windows.len()
            invariant
                i <= self.windows@.len(),
                requests@.len() == i,
                forall|k: int|
                    0 <= k < i ==> (#[trigger] requests@[k]).shell_pid == self@.tabs[k].shell_pid,
            decreases self.windows@.len() - i,
        {
            requests.push(TabScanRequest { shell_pid: self.windows[i].shell_pid });
            i = i + 1;
        }
        requests
    }
}

/// Note the usage of an account.
fn note_account(accounts: &mut Vec<AccountUsage>, name: String, data: UsageData)
    ensures
        account_usage_values(final(accounts)@) == usage_noted(
            account_usage_values(old(accounts)@),
            name@,
            data,
        ),
{
    let ghost values = account_usage_values(accounts@);
    let mut i: usize = 0;
    assert(values.skip(0) =~= values);
    assert(values.take(0) + usage_noted(values, name@, data) =~= usage_noted(values, name@, data));
    while i < accounts.len()
        invariant
            i <= accounts@.len(),
            *accounts == *old(accounts),
            values == account_usage_values(accounts@),
            usage_noted(values, name@, data) == values.take(i as int) + usage_noted(
                values.skip(i as int),
                name@,
                data,
            ),
        decreases accounts@.len() - i,
    {
        let ghost rest = values.skip(i as int);
        assert(rest[0] == accounts@[i as int]@);
        if same_text(accounts[i].account_name.as_str(), name.as_str()) {
            accounts[i].data = data;
            assert(account_usage_values(accounts@) =~= values.take(i as int) + rest.update(
                0,
                AccountUsageModel { data, ..rest[0] },
            ));
            return;
        }
        assert(rest.drop_first() =~= values.skip(i + 1));
        i = i + 1;
        assert(values.take(i as int) + usage_noted(values.skip(i as int), name@, data)
            =~= values.take(i - 1) + (seq![rest[0]] + usage_noted(rest.drop_first(), name@, data)));
    }
    assert(values.skip(i as int) =~= Seq::empty());
    let account = AccountUsage { account_name: name, data };
    accounts.push(account);
    assert(account_usage_values(accounts@) =~= values + seq![account@]);
    assert(values.take(i as int) =~= values);
}

} // verus!
