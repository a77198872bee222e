use pylon::app::keys::{
    arrow_bytes, key_action, named_key_bytes, paste_bytes, sent_bytes, Key, KeyAction, Modifiers,
    NamedKey,
};
use pylon::app::state::{CardClick, CopyOutcome, BLINK_NANOS, DOUBLE_CLICK_NANOS};
use pylon::app::{App, TerminalWindow};
use pylon::config::{CockpitConfig, FontStep};
use pylon::sidebar::discovery::{ClaudeSession, ClaudeStatus, TabScanResult};
use pylon::sidebar::layout::panels::can_render;
use pylon::sidebar::usage::{Timestamp, UsageData, UsageUpdate};
use pylon::sidebar::SidebarPanel;

const NONE: Modifiers = Modifiers { super_key: false, shift_key: false, control_key: false };
const COMMAND: Modifiers = Modifiers { super_key: true, ..NONE };
const COMMAND_SHIFT: Modifiers = Modifiers { shift_key: true, ..COMMAND };
const NOW: Timestamp = Timestamp { secs: 0, nanos: 0 };

fn character(s: &str) -> Key {
    Key::Character(s.to_string())
}

fn tab(pid: u32) -> TerminalWindow {
    TerminalWindow::new(10, 4, 20, 280, 100, pid)
}

fn app_with(tabs: u32) -> App {
    let mut app = App::new(&CockpitConfig::default(), 0);
    for pid in 0..tabs {
        app.add_tab(tab(100 + pid));
    }
    app
}

fn session(topic: &str) -> ClaudeSession {
    ClaudeSession {
        pid: 7,
        session_id: "id".to_string(),
        status: ClaudeStatus::Idle,
        context_pct: 0,
        topic: topic.to_string(),
        git_branch: String::new(),
        project: String::new(),
        cwd: String::new(),
    }
}

fn usage(utilization: u32) -> UsageData {
    UsageData { utilization, resets_at: None, weekly_utilization: None, weekly_resets_at: None }
}

/// Draw the sidebar of the first window, so that its cards can be hit.
fn draw_cards(app: &mut App) {
    assert!(can_render(&app.sidebar, 20, 40));
    app.draw_sidebar(0, 20, 40, true, &vec![], NOW);
}

#[test]
fn named_keys_send_their_bytes() {
    let sent = |key: NamedKey, app: bool| named_key_bytes(key, app);
    assert_eq!(sent(NamedKey::Enter, false).unwrap(), b"\r");
    assert_eq!(sent(NamedKey::Backspace, false).unwrap(), b"\x7f");
    assert_eq!(sent(NamedKey::Space, false).unwrap(), b" ");
    assert_eq!(sent(NamedKey::Tab, false).unwrap(), b"\t");
    assert_eq!(sent(NamedKey::Escape, false).unwrap(), b"\x1b");
    assert_eq!(sent(NamedKey::ArrowUp, false).unwrap(), b"\x1b[A");
    assert_eq!(sent(NamedKey::ArrowUp, true).unwrap(), b"\x1bOA");
    assert_eq!(sent(NamedKey::ArrowLeft, true).unwrap(), b"\x1bOD");
    assert_eq!(sent(NamedKey::Home, true).unwrap(), b"\x1b[H");
    assert_eq!(sent(NamedKey::PageDown, false).unwrap(), b"\x1b[6~");
    assert_eq!(sent(NamedKey::Delete, false).unwrap(), b"\x1b[3~");
    assert_eq!(sent(NamedKey::F1, false).unwrap(), b"\x1bOP");
    assert_eq!(sent(NamedKey::F5, false).unwrap(), b"\x1b[15~");
    assert_eq!(sent(NamedKey::F12, false).unwrap(), b"\x1b[24~");
    assert!(sent(NamedKey::Unmapped, false).is_none());
    assert_eq!(arrow_bytes(0x43, false), b"\x1b[C");
    assert_eq!(sent_bytes(&character("\u{e9}"), false).unwrap(), b"\xc3\xa9");
    assert_eq!(sent_bytes(&Key::Named(NamedKey::F3), false).unwrap(), b"\x1bOR");
    assert!(sent_bytes(&Key::Unidentified, false).is_none());
}

#[test]
fn pasted_text_is_bracketed_on_demand() {
    assert_eq!(paste_bytes("ab", false).unwrap(), b"ab");
    assert_eq!(paste_bytes("ab", true).unwrap(), b"\x1b[200~ab\x1b[201~");
    assert!(paste_bytes("", true).is_none());
}

#[test]
fn shortcuts() {
    let action = |s: &str, held: Modifiers| key_action(&character(s), held, false);
    assert_eq!(action("+", COMMAND), KeyAction::Font(FontStep::Larger));
    assert_eq!(action("=", COMMAND), KeyAction::Font(FontStep::Larger));
    assert_eq!(action("-", COMMAND), KeyAction::Font(FontStep::Smaller));
    assert_eq!(action("0", COMMAND), KeyAction::Font(FontStep::Reset));
    assert_eq!(action("b", COMMAND), KeyAction::ToggleSidebar);
    assert_eq!(action("B", COMMAND_SHIFT), KeyAction::CyclePanel);
    assert_eq!(action("R", COMMAND_SHIFT), KeyAction::Rename);
    assert_eq!(action("r", COMMAND), KeyAction::Ignore);
    assert_eq!(action("c", COMMAND), KeyAction::Copy);
    assert_eq!(action("v", COMMAND), KeyAction::Paste);
    assert_eq!(action("t", COMMAND), KeyAction::NewTab);
    assert_eq!(action("n", COMMAND), KeyAction::NewTab);
    assert_eq!(action("w", COMMAND), KeyAction::CloseTab);
    assert_eq!(action("1", COMMAND), KeyAction::SelectTab(0));
    assert_eq!(action("9", COMMAND), KeyAction::SelectTab(8));
    assert_eq!(action("q", COMMAND), KeyAction::Ignore);
    assert_eq!(action("q", NONE), KeyAction::Send);
    assert_eq!(key_action(&character("q"), NONE, true), KeyAction::EditName);
    assert_eq!(key_action(&character("v"), COMMAND, true), KeyAction::Paste);
    let tab = Key::Named(NamedKey::Tab);
    let control = Modifiers { control_key: true, ..NONE };
    assert_eq!(key_action(&tab, control, true), KeyAction::NextTab);
    let back = Modifiers { shift_key: true, ..control };
    assert_eq!(key_action(&tab, back, false), KeyAction::PreviousTab);
    assert_eq!(key_action(&tab, COMMAND, false), KeyAction::Ignore);
    assert_eq!(key_action(&tab, NONE, false), KeyAction::Send);
}

#[test]
fn output_reaches_the_grid_and_snaps_the_view() {
    let mut tab = tab(1);
    assert!(!tab.feed_output(b""));
    assert!(tab.feed_output(b"1\r\n2\r\n3\r\n4\r\n5\r\n6"));
    assert_eq!(tab.grid.scrollback_len(), 2);
    tab.dirty_rows.drain();
    tab.scroll_view(-9);
    assert_eq!(tab.scroll_offset, 2);
    assert!(tab.dirty_rows.any_dirty());
    tab.scroll_view(1);
    assert_eq!(tab.scroll_offset, 1);
    assert!(tab.feed_output(b"x"));
    assert_eq!(tab.scroll_offset, 0);
    tab.dirty_rows.drain();
    tab.scroll_view(5);
    assert!(!tab.dirty_rows.any_dirty());
    tab.scroll_view(-1);
    tab.snap_to_live();
    assert_eq!(tab.scroll_offset, 0);
}

#[test]
fn a_resized_tab_fits() {
    let mut tab = tab(1);
    tab.feed_output(b"\x1b[4;10H");
    tab.resize(6, 2);
    assert_eq!((tab.grid_cols, tab.grid_rows), (6, 2));
    assert_eq!((tab.grid.cols(), tab.grid.visible_rows()), (6, 2));
    assert_eq!((tab.vt_state.cursor.row, tab.vt_state.cursor.col), (1, 5));
    assert_eq!(tab.vt_state.scroll_region, (0, 2));
}

#[test]
fn titles_come_from_the_best_source() {
    let mut tab = tab(1);
    assert_eq!(tab.resolve_tab_title(2), "Tab 3");
    tab.feed_output(b"\x1b]0;shell\x07");
    assert_eq!(tab.resolve_tab_title(2), "shell");
    tab.claude_session = Some(session(""));
    assert_eq!(tab.resolve_tab_title(2), "shell");
    tab.claude_session = Some(session(&"t".repeat(50)));
    assert_eq!(tab.resolve_tab_title(2), "t".repeat(40));
    tab.custom_title = Some("mine".to_string());
    assert_eq!(tab.resolve_tab_title(2), "mine");
    assert_eq!(tab.title_update(2).unwrap(), "mine");
    assert!(tab.title_update(2).is_none());
}

#[test]
fn a_tab_is_renamed() {
    let mut tab = tab(1);
    assert_eq!(tab.begin_rename(), "Rename: _");
    assert!(tab.title_update(0).is_none());
    assert_eq!(tab.edit_name(Some("a\u{e9}")).unwrap(), "Rename: a\u{e9}_");
    assert_eq!(tab.edit_name(None).unwrap(), "Rename: a_");
    tab.commit_rename();
    assert_eq!(tab.custom_title.as_deref(), Some("a"));
    assert!(tab.edit_name(Some("x")).is_none());
    tab.begin_rename();
    tab.edit_name(Some("b"));
    tab.cancel_rename();
    assert_eq!(tab.resolve_tab_title(0), "a");
    tab.begin_rename();
    assert_eq!(tab.edit_name(None).unwrap(), "Rename: _");
    tab.commit_rename();
    assert_eq!(tab.resolve_tab_title(0), "a");
}

#[test]
fn a_click_moves_the_programs_cursor() {
    let mut tab = tab(1);
    tab.feed_output(b"abcd");
    assert_eq!(tab.click_to_position(0, 6), b"\x1b[C\x1b[C");
    assert_eq!(tab.click_to_position(0, 3), b"\x1b[D");
    assert!(tab.click_to_position(0, 4).is_empty());
    assert!(tab.click_to_position(1, 6).is_empty());
    tab.feed_output(b"\x1b[?1h");
    assert_eq!(tab.click_to_position(0, 5), b"\x1bOC");
    tab.feed_output(b"\r\n\n\n\n\n");
    tab.scroll_view(-1);
    assert!(tab.click_to_position(3, 5).is_empty());
}

#[test]
fn tabs_are_added_and_closed() {
    let mut app = App::new(&CockpitConfig::default(), 0);
    assert_eq!(app.sidebar_version, 1);
    app.add_first_tab(tab(1));
    assert!(app.sidebar.tab_entries.is_empty());
    app.add_tab(tab(2));
    app.add_tab(tab(3));
    assert_eq!(app.sidebar_version, 3);
    let titles: Vec<&str> =
        app.sidebar.tab_entries.iter().map(|e| e.display_title.as_str()).collect();
    assert_eq!(titles, ["Tab 1", "Tab 2", "Tab 3"]);
    app.focus(2);
    assert_eq!((app.active_tab, app.sidebar_version), (2, 4));
    app.focus(2);
    assert_eq!(app.sidebar_version, 4);
    assert!(!app.close_requested(2));
    assert_eq!(app.active_tab, 1);
    assert!(!app.close_tab(0));
    assert!(app.close_requested(0));
}

#[test]
fn dead_shells_lose_their_tabs() {
    let mut app = app_with(4);
    app.focus(3);
    let version = app.sidebar_version;
    assert!(!app.remove_dead(&vec![true; 4]));
    assert_eq!(app.sidebar_version, version);
    assert!(!app.remove_dead(&vec![true, false, true, false]));
    let pids: Vec<u32> = app.windows.iter().map(|t| t.shell_pid).collect();
    assert_eq!(pids, [100, 102]);
    assert_eq!(app.active_tab, 1);
    assert!(app.remove_dead(&vec![false, false]));
    assert!(app.windows.is_empty());
}

#[test]
fn the_cursor_blinks() {
    let mut app = app_with(1);
    app.windows[0].dirty_rows.drain();
    app.blink(BLINK_NANOS - 1);
    assert!(app.cursor_blink_visible);
    app.blink(BLINK_NANOS);
    assert!(!app.cursor_blink_visible);
    assert_eq!(app.windows[0].dirty_rows.drain(), [1, 0, 0, 0]);
    assert_eq!(app.key_pressed(&character("a"), NONE, BLINK_NANOS + 5), KeyAction::Send);
    assert!(app.cursor_blink_visible);
    app.blink(BLINK_NANOS + 6);
    assert!(app.cursor_blink_visible);
}

#[test]
fn the_active_tab_is_renamed_by_keys() {
    let mut app = app_with(2);
    app.focus(1);
    assert_eq!(app.toggle_rename().unwrap(), "Rename: _");
    assert!(app.editing_name());
    assert_eq!(app.edit_name(&character("ab")).unwrap(), "Rename: ab_");
    assert_eq!(app.edit_name(&Key::Named(NamedKey::Space)).unwrap(), "Rename: ab _");
    assert_eq!(app.edit_name(&Key::Named(NamedKey::Backspace)).unwrap(), "Rename: ab_");
    assert!(app.edit_name(&Key::Named(NamedKey::F1)).is_none());
    assert!(app.editing_name());
    assert!(app.edit_name(&Key::Named(NamedKey::Enter)).is_none());
    assert!(!app.editing_name());
    assert_eq!(app.sidebar.tab_entries[1].display_title, "ab");
    app.toggle_rename();
    app.edit_name(&character("x"));
    app.edit_name(&Key::Named(NamedKey::Escape));
    assert_eq!(app.sidebar.tab_entries[1].display_title, "ab");
    app.toggle_rename();
    app.edit_name(&character("y"));
    assert!(app.toggle_rename().is_none());
    assert_eq!(app.sidebar.tab_entries[1].display_title, "y");
    app.focus(9);
    assert!(app.toggle_rename().is_none());
    assert!(!app.editing_name());
}

#[test]
fn text_is_selected_and_copied() {
    let mut app = app_with(1);
    app.windows[0].feed_output(b"hello");
    assert!(matches!(app.copy(0), CopyOutcome::Interrupt(3)));
    app.begin_selection(0, 0, 1);
    app.drag_selection(0, 0, 3);
    assert!(app.release_mouse(0).is_empty());
    assert!(matches!(app.copy(0), CopyOutcome::Clipboard(Some(text)) if text == "ell"));
    app.drag_selection(0, 2, 2);
    assert!(matches!(app.copy(0), CopyOutcome::Clipboard(Some(text)) if text == "ell"));
    app.begin_selection(0, 0, 0);
    assert_eq!(app.release_mouse(0), b"\x1b[D\x1b[D\x1b[D\x1b[D\x1b[D");
    assert!(app.selection.is_none());
    app.begin_selection(0, 2, 1);
    app.drag_selection(0, 2, 3);
    assert!(matches!(app.copy(0), CopyOutcome::Clipboard(None)));
    app.begin_drag();
    assert!(app.dragging_sidebar);
    app.release_mouse(0);
    assert!(!app.dragging_sidebar);
}

#[test]
fn cards_are_clicked() {
    let mut app = app_with(2);
    draw_cards(&mut app);
    assert!(matches!(app.click_card(0, 0), CardClick::Missed));
    assert!(matches!(app.click_card(7, 1_000), CardClick::Select(1)));
    assert_eq!(app.active_tab, 1);
    match app.click_card(7, 1_000 + DOUBLE_CLICK_NANOS - 1) {
        CardClick::Rename(1, Some(title)) => assert_eq!(title, "Rename: _"),
        _ => panic!("a double click"),
    }
    assert!(app.editing_name());
    assert!(matches!(app.click_card(7, 1_000 + DOUBLE_CLICK_NANOS), CardClick::Select(1)));
    assert!(matches!(app.click_card(5, 1_001 + DOUBLE_CLICK_NANOS), CardClick::Select(0)));
    assert!(matches!(app.click_card(5, 1_001 + 2 * DOUBLE_CLICK_NANOS), CardClick::Select(0)));
}

#[test]
fn cards_are_hovered() {
    let mut app = app_with(2);
    draw_cards(&mut app);
    let version = app.sidebar_version;
    app.hover(Some(0));
    assert_eq!((app.sidebar.hovered_tab, app.sidebar_version), (None, version));
    app.hover(Some(7));
    assert_eq!((app.sidebar.hovered_tab, app.sidebar_version), (Some(1), version + 1));
    app.hover(Some(7));
    assert_eq!(app.sidebar_version, version + 1);
    app.hover(None);
    assert_eq!((app.sidebar.hovered_tab, app.sidebar_version), (None, version + 2));
}

#[test]
fn pollers_are_drained() {
    let mut app = app_with(2);
    let version = app.sidebar_version;
    app.drain_pollers(vec![], vec![]);
    assert_eq!(app.sidebar_version, version);
    let name = || "me".to_string();
    app.drain_pollers(
        vec![
            UsageUpdate::Error("bad".to_string()),
            UsageUpdate::Data { account_name: name(), data: usage(1) },
            UsageUpdate::Data { account_name: "you".to_string(), data: usage(2) },
            UsageUpdate::Data { account_name: name(), data: usage(3) },
        ],
        vec![TabScanResult { shell_pid: 101, session: Some(session("topic")) }],
    );
    assert_eq!(app.sidebar_version, version + 1);
    let used: Vec<(&str, u32)> = app
        .sidebar
        .accounts
        .iter()
        .map(|a| (a.account_name.as_str(), a.data.utilization))
        .collect();
    assert_eq!(used, [("me", 3), ("you", 2)]);
    assert!(app.sidebar.usage_error.is_none());
    assert_eq!(app.sidebar.tab_entries[1].display_title, "topic");
    app.drain_pollers(
        vec![],
        vec![
            TabScanResult { shell_pid: 101, session: Some(session("topic")) },
            TabScanResult { shell_pid: 999, session: None },
            TabScanResult { shell_pid: 100, session: None },
        ],
    );
    assert_eq!(app.sidebar_version, version + 1);
    assert!(app.note_scan(TabScanResult { shell_pid: 101, session: None }));
    app.note_usage(UsageUpdate::Error("late".to_string()));
    assert_eq!(app.sidebar.usage_error.as_deref(), Some("late"));
    let pids: Vec<u32> = app.scan_requests().iter().map(|r| r.shell_pid).collect();
    assert_eq!(pids, [100, 101]);
}

#[test]
fn keys_and_texts_are_sent() {
    let mut app = app_with(1);
    app.windows[0].feed_output(b"\n\n\n\n\n\n\x1b[?1h\x1b[?2004h");
    app.scroll(0, -2);
    assert_eq!(app.windows[0].scroll_offset, 2);
    assert!(app.send_key(0, &Key::Unidentified).is_none());
    assert_eq!(app.windows[0].scroll_offset, 2);
    assert_eq!(app.send_key(0, &Key::Named(NamedKey::ArrowUp)).unwrap(), b"\x1bOA");
    assert_eq!(app.windows[0].scroll_offset, 0);
    assert!(app.send_key(1, &character("a")).is_none());
    assert_eq!(app.paste(0, "x").unwrap(), b"\x1b[200~x\x1b[201~");
    assert!(app.paste(1, "x").is_none());
    app.scroll(7, -2);
}

#[test]
fn the_sidebar_is_shown_and_its_panels_cycle() {
    let mut app = app_with(1);
    assert!(app.shows_sidebar(0));
    app.toggle_sidebar();
    assert!(!app.shows_sidebar(0));
    let version = app.sidebar_version;
    app.cycle_panel();
    assert_eq!((app.sidebar.panel, app.sidebar_version), (SidebarPanel::Usage, version + 1));
}

#[test]
fn frames_are_drawn_when_they_are_due() {
    let mut app = app_with(1);
    assert!(app.needs_redraw(0));
    let due = app.begin_frame(0).unwrap();
    assert!(due.terminal && due.sidebar);
    let rows = app.draw_terminal(0, &due.mask, 1000);
    assert_eq!(rows.len(), 4);
    assert!(rows.iter().all(|row| row.cells.len() == 10));
    let cells = app.draw_sidebar(0, 20, 4, false, &vec![], NOW);
    assert_eq!(cells.len(), 80);
    assert!(app.needs_redraw(0));
    app.draw_sidebar(0, 20, 4, true, &vec![], NOW);
    assert!(!app.needs_redraw(0));
    assert!(app.begin_frame(0).is_none());
    assert!(app.begin_frame(1).is_none());
    app.windows[0].feed_output(b"x");
    let due = app.begin_frame(0).unwrap();
    assert!(due.terminal && !due.sidebar);
    assert_eq!(due.mask, [1, 0, 0, 0]);
}

#[test]
fn windows_are_resized_when_they_have_to_be() {
    let mut app = app_with(1);
    assert!(!app.needs_resize(0, 10, 4, 20));
    assert!(!app.needs_resize(0, 0, 4, 20));
    assert!(!app.needs_resize(0, 12, 0, 20));
    assert!(!app.needs_resize(1, 12, 4, 20));
    assert!(app.needs_resize(0, 10, 4, 21));
    app.begin_frame(0);
    app.resize_window(0, 12, 5, 21);
    assert!(!app.needs_resize(0, 12, 5, 21));
    assert!(app.needs_redraw(0));
    assert_eq!(app.windows[0].grid.visible_rows(), 5);
    app.begin_frame(0);
    app.glyphs_replaced(0);
    assert_eq!(app.begin_frame(0).unwrap().mask, [u64::MAX; 4]);
}

#[test]
fn a_long_sidebar_is_scrolled() {
    // The header takes 5 rows and each of the tabs 2, so that the content is 25 rows high.
    let mut app = app_with(10);
    let whole = app.draw_sidebar(0, 20, 25, true, &vec![], NOW);
    assert_eq!(app.sidebar.hit_map.len(), 10);
    let top = app.draw_sidebar(0, 20, 4, true, &vec![], NOW);
    assert_eq!(&whole[..80], &top[..]);
    assert!(app.sidebar.hit_map.is_empty());

    app.scroll_sidebar(0, 7);
    assert_eq!(app.sidebar.scroll_offset, 7);
    assert!(app.needs_redraw(0));
    let down = app.draw_sidebar(0, 20, 4, true, &vec![], NOW);
    assert_eq!(&whole[140..220], &down[..]);
    assert!(matches!(app.click_card(0, 0), CardClick::Select(1)));
    assert!(matches!(app.click_card(2, 0), CardClick::Select(2)));

    // It stops at the ends of the content.
    app.scroll_sidebar(0, 1000);
    assert_eq!(app.sidebar.scroll_offset, 21);
    let version = app.sidebar_version;
    app.scroll_sidebar(0, 1);
    app.scroll_sidebar(9999, -5);
    assert_eq!((app.sidebar.scroll_offset, app.sidebar_version), (21, version));
    app.scroll_sidebar(0, -2);
    assert_eq!(app.sidebar.scroll_offset, 19);
    app.scroll_sidebar(0, -1000);
    assert_eq!(app.sidebar.scroll_offset, 0);

    // Another panel shows from its top.
    app.scroll_sidebar(0, 3);
    app.cycle_panel();
    assert_eq!(app.sidebar.scroll_offset, 0);
}

#[test]
fn a_shorter_sidebar_shows_its_end() {
    let mut app = app_with(10);
    app.scroll_sidebar(0, 21);
    for _ in 0..6 {
        app.close_tab(3);
    }
    // Now the content is 13 rows high.
    let whole = app.draw_sidebar(0, 20, 13, true, &vec![], NOW);
    let end = app.draw_sidebar(0, 20, 4, true, &vec![], NOW);
    assert_eq!(&whole[180..], &end[..]);
    app.scroll_sidebar(0, -1);
    assert_eq!(app.sidebar.scroll_offset, 8);
}

#[test]
fn content_beyond_the_usual_surface_is_drawn() {
    let mut app = app_with(150);
    app.scroll_sidebar(0, 10_000);
    assert_eq!(app.sidebar.scroll_offset, 5 + 300 - 4);
    app.draw_sidebar(0, 20, 4, true, &vec![], NOW);
    assert!(matches!(app.click_card(0, 0), CardClick::Select(148)));
    assert!(matches!(app.click_card(2, 0), CardClick::Select(149)));
}

#[test]
fn each_window_has_a_sidebar_of_its_own_width() {
    let mut app = app_with(3);
    assert_eq!(app.sidebar_width(1), Some(280));
    assert!(app.drag_sidebar(1, 350));
    assert!(!app.drag_sidebar(1, 350));
    assert!(!app.drag_sidebar(3, 350));
    let widths: Vec<Option<u32>> = (0..4).map(|i| app.sidebar_width(i)).collect();
    assert_eq!(widths, [Some(280), Some(350), Some(280), None]);
    app.toggle_sidebar();
    assert_eq!(app.sidebar_width(1), None);
}
