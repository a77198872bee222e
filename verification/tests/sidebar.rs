use pylon::config::CockpitConfig;
use pylon::sidebar::discovery::{ClaudeSession, ClaudeStatus};
use pylon::sidebar::layout::canvas::{Canvas, SidebarCell, SidebarColor};
use pylon::sidebar::layout::panels::{
    bar_width, can_render, content_width, max_col, minutes_until, render_output_panel,
    render_sessions_panel, render_usage_panel, short_name, utilization_color, BarFill,
};
use pylon::sidebar::layout::render_sidebar;
use pylon::sidebar::state::{hit_test, AccountUsage, SidebarHitEntry, TabSessionEntry};
use pylon::sidebar::usage::{Timestamp, UsageData};
use pylon::sidebar::{
    SessionList, SessionStatus, SessionSummary, SidebarPanel, SidebarState, UsageTracker,
};

const NOW: Timestamp = Timestamp { secs: 1_000_000, nanos: 0 };

fn line(cells: &[SidebarCell], cols: usize, row: usize) -> String {
    cells[row * cols..(row + 1) * cols]
        .iter()
        .map(|c| if c.glyph == 0 { ' ' } else { char::from_u32(c.glyph).unwrap() })
        .collect::<String>()
        .trim_end()
        .to_string()
}

fn session(project: &str, status: ClaudeStatus) -> ClaudeSession {
    ClaudeSession {
        pid: 1,
        session_id: "0123456789abcdef".to_string(),
        status,
        context_pct: 0,
        topic: String::new(),
        git_branch: String::new(),
        project: project.to_string(),
        cwd: String::new(),
    }
}

fn entry(tab_index: usize, title: &str, session: Option<ClaudeSession>) -> TabSessionEntry {
    TabSessionEntry { tab_index, display_title: title.to_string(), session }
}

fn account(name: &str, data: UsageData) -> AccountUsage {
    AccountUsage { account_name: name.to_string(), data }
}

#[test]
fn panels_follow_each_other() {
    let mut panel = SidebarPanel::Sessions;
    let mut seen = Vec::new();
    for _ in 0..3 {
        panel = panel.next();
        seen.push(panel);
    }
    assert_eq!(seen, [SidebarPanel::Usage, SidebarPanel::Output, SidebarPanel::Sessions]);
}

#[test]
fn the_sidebar_is_switched() {
    let mut state = SidebarState::new(&CockpitConfig::default());
    assert!(state.visible && state.dirty);
    assert_eq!((state.width_px, state.panel), (280, SidebarPanel::Sessions));
    state.dirty = false;
    state.toggle_visibility();
    assert!(!state.visible && state.dirty);
    state.dirty = false;
    state.switch_panel(SidebarPanel::Output);
    assert!(state.dirty);
    assert_eq!(state.panel, SidebarPanel::Output);
}

#[test]
fn rows_hit_the_card_they_belong_to() {
    let hits = vec![
        SidebarHitEntry { start_row: 5, end_row: 8, tab_index: 2 },
        SidebarHitEntry { start_row: 9, end_row: 10, tab_index: 0 },
        SidebarHitEntry { start_row: 5, end_row: 99, tab_index: 7 },
    ];
    assert_eq!(hit_test(&hits, 4), None);
    assert_eq!(hit_test(&hits, 5), Some(2));
    assert_eq!(hit_test(&hits, 7), Some(2));
    assert_eq!(hit_test(&hits, 8), Some(7));
    assert_eq!(hit_test(&hits, 9), Some(0));
    assert_eq!(hit_test(&vec![], 9), None);
}

#[test]
fn a_list_keeps_its_sessions() {
    let summary = |id: &str| SessionSummary {
        session_id: id.to_string(),
        status: SessionStatus::Active,
        turn_count: 0,
        total_cost_usd_bits: 0,
    };
    let mut list = SessionList::default();
    assert!(list.active().is_none());
    list.add(summary("a"));
    list.add(summary("b"));
    list.add(summary("a"));
    list.update("a", SessionStatus::Finished);
    list.update("c", SessionStatus::Error);
    let statuses: Vec<SessionStatus> = list.iter().iter().map(|s| s.status).collect();
    assert_eq!(
        statuses,
        [SessionStatus::Finished, SessionStatus::Active, SessionStatus::Active]
    );
    assert_eq!(list.active().unwrap().session_id, "a");
}

#[test]
fn usage_is_tracked() {
    let mut tracker = UsageTracker::default();
    assert_eq!((tracker.status.as_str(), tracker.turn_count), ("normal", 0));
    tracker.record_rate_limit(0.25f64.to_bits(), "warning".to_string(), 9);
    tracker.record_turn();
    tracker.update_context(77);
    assert_eq!(f64::from_bits(tracker.utilization_bits), 0.25);
    assert_eq!(tracker.status, "warning");
    assert_eq!(tracker.resets_at, Some(9));
    assert_eq!((tracker.turn_count, tracker.context_tokens), (1, 77));
}

#[test]
fn widths_leave_margins() {
    assert_eq!((content_width(30), max_col(30), bar_width(30)), (27, 29, 26));
    assert_eq!((content_width(2), max_col(0), bar_width(3)), (0, 0, 0));
}

#[test]
fn shares_have_their_color() {
    for (percent, color) in [
        (0, SidebarColor::Green),
        (49, SidebarColor::Green),
        (50, SidebarColor::Yellow),
        (79, SidebarColor::Yellow),
        (80, SidebarColor::Red),
        (u32::MAX, SidebarColor::Red),
    ] {
        assert_eq!(utilization_color(percent), color);
    }
}

#[test]
fn remaining_minutes_are_counted() {
    let at = |secs: i64, nanos: u32| Timestamp { secs, nanos };
    assert_eq!(minutes_until(at(1_000_119, 999_999_999), NOW), 1);
    assert_eq!(minutes_until(at(1_000_120, 0), NOW), 2);
    assert_eq!(minutes_until(at(999_000, 0), NOW), 0);
    assert_eq!(minutes_until(NOW, NOW), 0);
}

#[test]
fn names_are_shortened() {
    assert_eq!(short_name("me@example.com", 20), "me");
    assert_eq!(short_name("someone", 4), "some");
    assert_eq!(short_name("@x", 4), "");
}

#[test]
fn texts_are_cut_at_the_margin() {
    let mut canvas = Canvas::new(6, 2);
    assert_eq!(canvas.cols(), 6);
    canvas.write_str(1, 2, 5, "abcdef", SidebarColor::Value, SidebarColor::CardBg);
    canvas.write_str(9, 0, 5, "x", SidebarColor::Value, SidebarColor::CardBg);
    canvas.write_separator(0, 1, 4);
    let cells = canvas.visible_window(0, 2);
    assert_eq!(line(&cells, 6, 0), " \u{2500}\u{2500}\u{2500}");
    assert_eq!(line(&cells, 6, 1), "  abc");
    assert_eq!(cells[8].fg, SidebarColor::Value);
    assert_eq!(cells[0].bg, SidebarColor::SidebarBg);
    assert_eq!(line(&canvas.visible_window(1, 2), 6, 0), "  abc");
    assert_eq!(canvas.visible_window(1, 2).len(), 12);
}

#[test]
fn bars_cards_and_accents_are_drawn() {
    let mut canvas = Canvas::new(6, 3);
    canvas.render_progress_bar(0, 1, 9, 2, SidebarColor::Red);
    canvas.write_str(1, 2, 6, "x", SidebarColor::Value, SidebarColor::SidebarBg);
    canvas.fill_card_bg(1, 2, 1, 4, SidebarColor::CardActiveBg);
    canvas.paint_left_accent(1, 2, 1);
    let cells = canvas.visible_window(0, 3);
    assert_eq!(line(&cells, 6, 0), " \u{2584}\u{2584}\u{2581}\u{2581}\u{2581}");
    assert_eq!(cells[1].fg, SidebarColor::Red);
    assert_eq!(cells[3].fg, SidebarColor::BarEmpty);
    assert_eq!(line(&cells, 6, 1), " \u{2503}x");
    assert_eq!(cells[7].bg, SidebarColor::CardActiveBg);
    assert_eq!(cells[7].fg, SidebarColor::Accent);
    assert_eq!(cells[8].bg, SidebarColor::SidebarBg);
    assert_eq!(cells[9].bg, SidebarColor::CardActiveBg);
    assert_eq!(cells[10].bg, SidebarColor::SidebarBg);
}

#[test]
fn sessions_are_listed_on_cards() {
    let entries = vec![
        entry(0, "First", Some(session("proj", ClaudeStatus::Working))),
        entry(1, "Second", None),
        entry(2, "Third", Some(session("", ClaudeStatus::Idle))),
    ];
    let mut canvas = Canvas::new(20, 30);
    let (height, hits) = render_sessions_panel(&mut canvas, &entries, 1, Some(2));
    let cells = canvas.visible_window(0, 30);
    assert_eq!(line(&cells, 20, 1), "  SESSIONS (3)");
    assert_eq!(line(&cells, 20, 3), "  ".to_string() + &"\u{2500}".repeat(17));
    assert_eq!(line(&cells, 20, 5), "    \u{25cf} First");
    assert_eq!(line(&cells, 20, 6), "     proj");
    assert_eq!(line(&cells, 20, 7), "     01234567");
    assert_eq!(line(&cells, 20, 9), "  \u{2503} \u{25cb} Second");
    assert_eq!(line(&cells, 20, 11), "    \u{25cf} Third");
    assert_eq!(line(&cells, 20, 12), "     01234567");
    assert_eq!(height, 14);
    let rows: Vec<(u16, u16, usize)> =
        hits.iter().map(|h| (h.start_row, h.end_row, h.tab_index)).collect();
    assert_eq!(rows, [(5, 8, 0), (9, 10, 1), (11, 13, 2)]);
    assert_eq!(cells[5 * 20 + 4].fg, SidebarColor::Yellow);
    assert_eq!(cells[11 * 20 + 4].fg, SidebarColor::Green);
    assert_eq!(cells[5 * 20 + 3].bg, SidebarColor::CardBg);
    assert_eq!(cells[9 * 20 + 3].bg, SidebarColor::CardActiveBg);
    assert_eq!(cells[11 * 20 + 3].bg, SidebarColor::HoverBg);
    assert_eq!(cells[11 * 20 + 19].bg, SidebarColor::SidebarBg);
}

#[test]
fn no_sessions_are_said() {
    let mut canvas = Canvas::new(20, 30);
    let (height, hits) = render_sessions_panel(&mut canvas, &vec![], 0, None);
    assert_eq!(height, 6);
    assert!(hits.is_empty());
    assert_eq!(line(&canvas.visible_window(0, 30), 20, 5), "  No sessions");
}

#[test]
fn usage_is_drawn() {
    let accounts = vec![
        account(
            "me@example.com",
            UsageData {
                utilization: 85,
                resets_at: Some(Timestamp { secs: NOW.secs + 3600 + 120, nanos: 0 }),
                weekly_utilization: Some(50),
                weekly_resets_at: Some(Timestamp { secs: NOW.secs + 90000, nanos: 0 }),
            },
        ),
        account(
            "you",
            UsageData {
                utilization: 3,
                resets_at: None,
                weekly_utilization: None,
                weekly_resets_at: None,
            },
        ),
    ];
    let fills = vec![BarFill { five_hour: 14, weekly: 8 }, BarFill { five_hour: 0, weekly: 0 }];
    let mut canvas = Canvas::new(20, 40);
    let height = render_usage_panel(&mut canvas, &accounts, &fills, NOW);
    let cells = canvas.visible_window(0, 40);
    assert_eq!(line(&cells, 20, 1), "  USAGE (2)");
    assert_eq!(line(&cells, 20, 5), "   me");
    assert_eq!(line(&cells, 20, 7), "   5h window    85%");
    assert_eq!(
        line(&cells, 20, 8),
        "   ".to_string() + &"\u{2584}".repeat(14) + &"\u{2581}".repeat(2)
    );
    assert_eq!(line(&cells, 20, 9), "   \u{21bb} 1h 2m");
    assert_eq!(line(&cells, 20, 11), "   7d window    50%");
    assert_eq!(line(&cells, 20, 13), "   \u{21bb} 1d 1h");
    assert_eq!(line(&cells, 20, 15), "   ".to_string() + &"\u{2500}".repeat(16));
    assert_eq!(line(&cells, 20, 16), "   you");
    assert_eq!(line(&cells, 20, 18), "   5h window     3%");
    assert_eq!(height, 22);
    assert_eq!(cells[7 * 20 + 17].fg, SidebarColor::Red);
    assert_eq!(cells[11 * 20 + 17].fg, SidebarColor::Yellow);
    assert_eq!(cells[18 * 20 + 18].fg, SidebarColor::Green);
}

#[test]
fn missing_usage_is_loading() {
    let mut canvas = Canvas::new(20, 30);
    assert_eq!(render_usage_panel(&mut canvas, &vec![], &vec![], NOW), 6);
    assert_eq!(line(&canvas.visible_window(0, 30), 20, 5), "  Loading...");
}

#[test]
fn shortcuts_are_listed() {
    let mut canvas = Canvas::new(30, 30);
    let height = render_output_panel(&mut canvas);
    let cells = canvas.visible_window(0, 30);
    assert_eq!(line(&cells, 30, 1), "  SHORTCUTS");
    assert_eq!(line(&cells, 30, 5), "   \u{2318}B   Toggle sidebar");
    assert_eq!(line(&cells, 30, 7), "   \u{2318}\u{21e7}B  Cycle panel");
    assert_eq!(line(&cells, 30, 13), "   \u{2318}\u{21e7}R  Rename tab");
    assert_eq!(height, 15);
}

#[test]
fn the_view_is_scrolled_with_its_hits() {
    let mut state = SidebarState::new(&CockpitConfig::default());
    state.tab_entries = (0..4).map(|i| entry(i, "Tab", None)).collect();
    assert!(can_render(&state, 20, 6));
    let drawn = render_sidebar(&state, 20, 6, 0, None, 6, &vec![], NOW);
    assert_eq!(drawn.cells.len(), 120);
    assert_eq!(drawn.content_height, 13);
    assert_eq!(line(&drawn.cells, 20, 1), "    \u{25cb} Tab");
    let rows: Vec<(u16, u16, usize)> =
        drawn.hit_map.iter().map(|h| (h.start_row, h.end_row, h.tab_index)).collect();
    assert_eq!(rows, [(1, 2, 1), (3, 4, 2), (5, 6, 3)]);
    state.panel = SidebarPanel::Output;
    let drawn = render_sidebar(&state, 20, 6, 0, None, 0, &vec![], NOW);
    assert!(drawn.hit_map.is_empty());
    assert_eq!(line(&drawn.cells, 20, 1), "  SHORTCUTS");
}

#[test]
fn endless_content_cannot_be_drawn() {
    let mut state = SidebarState::new(&CockpitConfig::default());
    state.tab_entries = (0..32_765).map(|i| entry(i, "", None)).collect();
    assert!(can_render(&state, 1, 1));
    state.tab_entries.push(entry(0, "", None));
    assert!(!can_render(&state, 1, 1));
    state.panel = SidebarPanel::Usage;
    assert!(can_render(&state, 1, 1));
}
