use vstd::prelude::*;

use super::discovery::tab_session::{ClaudeSession, SessionModel};
use super::usage::api::UsageData;
use crate::config::CockpitConfig;

verus! {

/// Which panel is displayed in the sidebar.
#[derive(Debug, Clone, Copy, PartialEq, Eq, Structural)]
pub enum SidebarPanel {
    Output,
    Sessions,
    Usage,
}

impl SidebarPanel {
    /// The panel that comes after this one: sessions, usage, shortcuts, and sessions again.
    pub open spec fn following(self) -> SidebarPanel {
        match self {
            SidebarPanel::Sessions => SidebarPanel::Usage,
            SidebarPanel::Usage => SidebarPanel::Output,
            SidebarPanel::Output => SidebarPanel::Sessions,
        }
    }

    pub fn next(self) -> (panel: SidebarPanel)
        ensures
            panel == self.following(),
    {
        match self {
            SidebarPanel::Sessions => SidebarPanel::Usage,
            SidebarPanel::Usage => SidebarPanel::Output,
            SidebarPanel::Output => SidebarPanel::Sessions,
        }
    }
}

/// Cycling three times comes back to the same panel, and to no panel before that.
pub proof fn panels_cycle(panel: SidebarPanel)
    ensures
        panel.following().following().following() == panel,
        panel.following() != panel,
        panel.following().following() != panel,
{
}

/// Per-account usage data.
#[derive(Debug)]
pub struct AccountUsage {
    pub account_name: String,
    pub data: UsageData,
}

/// Usage of an account, as mathematical values.
pub struct AccountUsageModel {
    pub account_name: Seq<char>,
    pub data: UsageData,
}

impl View for AccountUsage {
    type V = AccountUsageModel;

    open spec fn view(&self) -> AccountUsageModel {
        AccountUsageModel { account_name: self.account_name@, data: self.data }
    }
}

/// Usage of accounts as mathematical values.
pub open spec fn account_usage_values(accounts: Seq<AccountUsage>) -> Seq<AccountUsageModel> {
    Seq::new(accounts.len(), |i: int| accounts[i]@)
}

/// One entry per tab in the sessions panel.
#[derive(Debug)]
pub struct TabSessionEntry {
    /// Index of the tab -- for click-to-activate.
    pub tab_index: usize,
    /// Resolved display title (custom > topic > VT title > "Tab N").
    pub display_title: String,
    /// Session info if a session is running in this tab.
    pub session: Option<ClaudeSession>,
}

/// An entry of the sessions panel, as mathematical values.
pub struct EntryModel {
    pub tab_index: usize,
    pub title: Seq<char>,
    pub session: Option<SessionModel>,
}

impl View for TabSessionEntry {
    type V = EntryModel;

    open spec fn view(&self) -> EntryModel {
        EntryModel {
            tab_index: self.tab_index,
            title: self.display_title@,
            session: match self.session {
                Some(session) => Some(session@),
                None => None,
            },
        }
    }
}

/// Entries as mathematical values.
pub open spec fn entry_values(entries: Seq<TabSessionEntry>) -> Seq<EntryModel> {
    Seq::new(entries.len(), |i: int| entries[i]@)
}

/// Maps a range of sidebar rows to a tab entry (for click/hover hit-testing).
#[derive(Debug, Clone, Copy, PartialEq, Eq, Structural)]
pub struct SidebarHitEntry {
    pub start_row: u16,
    /// Exclusive.
    pub end_row: u16,
    pub tab_index: usize,
}

impl SidebarHitEntry {
    pub open spec fn covers(self, row: u16) -> bool {
        self.start_row <= row < self.end_row
    }
}

/// The tab of the first entry that covers a row.
pub open spec fn tab_at(hits: Seq<SidebarHitEntry>, row: u16) -> Option<usize>
    decreases hits.len(),
{
    if hits.len() == 0 {
        None
    } else if hits[0].covers(row) {
        Some(hits[0].tab_index)
    } else {
        tab_at(hits.drop_first(), row)
    }
}

/// The tab of the first entry that covers a row.
pub fn hit_test(hits: &Vec<SidebarHitEntry>, row: u16) -> (tab: Option<usize>)
    ensures
        tab == tab_at(hits@, row),
{
    let mut i: usize = 0;
    assert(hits@.skip(0) =~= hits@);
    while i < hits.len()
        invariant
            i <= hits@.len(),
            tab_at(hits@, row) == tab_at(hits@.skip(i as int), row),
        decreases hits@.len() - i,
    {
        assert(hits@.skip(i as int).drop_first() =~= hits@.skip(i + 1));
        let hit = hits[i];
        if hit.start_row <= row && row < hit.end_row {
            return Some(hit.tab_index);
        }
        i = i + 1;
    }
    None
}

/// Complete sidebar state.
pub struct SidebarState {
    pub visible: bool,
    pub width_px: u32,
    pub panel: SidebarPanel,
    pub accounts: Vec<AccountUsage>,
    pub usage_error: Option<String>,
    pub tab_entries: Vec<TabSessionEntry>,
    /// Row to tab mapping for click/hover in sessions panel.
    pub hit_map: Vec<SidebarHitEntry>,
    /// Which tab is currently hovered in the sidebar (for highlight).
    pub hovered_tab: Option<usize>,
    /// How many rows of the panel are scrolled out of view at its top.
    pub scroll_offset: u16,
    pub dirty: bool,
}

impl SidebarState {
    pub fn new(config: &CockpitConfig) -> (state: SidebarState)
        ensures
            state.visible == config.sidebar_visible,
            state.width_px == config.sidebar_width,
            state.panel == SidebarPanel::Sessions,
            state.accounts@.len() == 0,
            state.usage_error is None,
            state.tab_entries@.len() == 0,
            state.hit_map@.len() == 0,
            state.hovered_tab is None,
            state.scroll_offset == 0,
            state.dirty,
    {
        SidebarState {
            visible: config.sidebar_visible,
            width_px: config.sidebar_width,
            panel: SidebarPanel::Sessions,
            accounts: Vec::new(),
            usage_error: None,
            tab_entries: Vec::new(),
            hit_map: Vec::new(),
            hovered_tab: None,
            scroll_offset: 0,
            dirty: true,
        }
    }

    pub fn toggle_visibility(&mut self)
        ensures
            *final(self) == (SidebarState {
                visible: !old(self).visible,
                dirty: true,
                ..*old(self)
            }),
    {
        self.visible = !self.visible;
        self.dirty = true;
    }

    /// Show a panel, from its top.
    pub fn switch_panel(&mut self, panel: SidebarPanel)
        ensures
            *final(self) == (SidebarState { panel, scroll_offset: 0, dirty: true, ..*old(self) }),
    {
        self.panel = panel;
        self.scroll_offset = 0;
        self.dirty = true;
    }
}

} // verus!
