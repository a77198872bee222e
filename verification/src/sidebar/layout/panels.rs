use vstd::prelude::*;

use super::canvas::{Canvas, CanvasModel, SidebarCell, SidebarColor};
use crate::sidebar::discovery::tab_session::{nanos_of, ClaudeStatus};
use crate::sidebar::state::{
    account_usage_values, entry_values, tab_at, AccountUsage, AccountUsageModel, EntryModel,
    SidebarHitEntry, SidebarPanel, SidebarState, TabSessionEntry,
};
use crate::sidebar::usage::api::{Timestamp, UsageData};
use crate::text::{
    chars_of, decimal, decimal_text, first_chars, joined, joined3, shortened, string_between,
};

verus! {

/// Left margin inside the sidebar.
pub const PAD_LEFT: u16 = 2;

/// Right margin.
pub const PAD_RIGHT: u16 = 1;

/// Indent inside cards.
pub const CARD_PAD_LEFT: u16 = 3;

/// Indent for sub-content inside cards.
pub const CARD_PAD_INNER: u16 = 4;

/// `n` less `less`, but not below 0.
pub open spec fn reduced(n: u16, less: int) -> u16 {
    if n >= less {
        (n - less) as u16
    } else {
        0
    }
}

/// Usable content width given the sidebar column count.
pub fn content_width(cols: u16) -> (width: u16)
    ensures
        width == reduced(cols, 3),
{
    cols.saturating_sub(PAD_LEFT + PAD_RIGHT)
}

/// Max column for text (exclusive) -- prevents right-edge clipping.
pub fn max_col(cols: u16) -> (max: u16)
    ensures
        max == reduced(cols, 1),
{
    cols.saturating_sub(PAD_RIGHT)
}

/// The width of a progress bar, given the sidebar column count.
pub fn bar_width(cols: u16) -> (width: u16)
    ensures
        width == reduced(reduced(cols, 1), 3),
{
    max_col(cols).saturating_sub(CARD_PAD_LEFT)
}

/// The colour of a share of a limit: red from 80 percent on, yellow from 50 percent on.
pub open spec fn share_color(percent: u32) -> SidebarColor {
    if percent >= 80 {
        SidebarColor::Red
    } else if percent >= 50 {
        SidebarColor::Yellow
    } else {
        SidebarColor::Green
    }
}

pub fn utilization_color(percent: u32) -> (color: SidebarColor)
    ensures
        color == share_color(percent),
{
    if percent >= 80 {
        SidebarColor::Red
    } else if percent >= 50 {
        SidebarColor::Yellow
    } else {
        SidebarColor::Green
    }
}

/// The whole minutes until a point in time; 0 where it has passed.
pub open spec fn minutes_left(time: Timestamp, now: Timestamp) -> int {
    if nanos_of(time) > nanos_of(now) {
        (nanos_of(time) - nanos_of(now)) / 60_000_000_000
    } else {
        0
    }
}

pub fn minutes_until(time: Timestamp, now: Timestamp) -> (minutes: u64)
    ensures
        minutes == minutes_left(time, now),
{
    let then: i128 = time.secs as i128 * 1_000_000_000 + time.nanos as i128;
    let start: i128 = now.secs as i128 * 1_000_000_000 + now.nanos as i128;
    if then > start {
        let delta: u128 = (then - start) as u128;
        (delta / 60_000_000_000) as u64
    } else {
        0
    }
}

/// How long until the window of five hours is reset: hours and minutes.
pub open spec fn hours_text(minutes: int) -> Seq<char> {
    "\u{21BB} "@ + decimal_text((minutes / 60) as nat) + "h "@ + decimal_text(
        (minutes % 60) as nat,
    ) + "m"@
}

fn hours_string(minutes: u64) -> (text: String)
    ensures
        text@ == hours_text(minutes as int),
{
    let hours = joined3("\u{21BB} ", decimal(minutes / 60).as_str(), "h ");
    joined3(hours.as_str(), decimal(minutes % 60).as_str(), "m")
}

/// How long until the week is reset: days and hours.
pub open spec fn days_text(minutes: int) -> Seq<char> {
    "\u{21BB} "@ + decimal_text((minutes / 1440) as nat) + "d "@ + decimal_text(
        (minutes % 1440 / 60) as nat,
    ) + "h"@
}

fn days_string(minutes: u64) -> (text: String)
    ensures
        text@ == days_text(minutes as int),
{
    let days = joined3("\u{21BB} ", decimal(minutes / 1440).as_str(), "d ");
    joined3(days.as_str(), decimal(minutes % 1440 / 60).as_str(), "h")
}

/// The part of a name before its first `@`.
pub open spec fn before_at(name: Seq<char>) -> Seq<char>
    decreases name.len(),
{
    if name.len() == 0 || name[0] == '@' {
        Seq::empty()
    } else {
        seq![name[0]] + before_at(name.drop_first())
    }
}

/// The part of a name before its first `@`.
pub fn short_name(name: &str, max: usize) -> (short: String)
    ensures
        short@ == shortened(before_at(name@), max as nat),
{
    let chars = chars_of(name);
    let mut to: usize = 0;
    assert(chars@.skip(0) =~= chars@);
    assert(before_at(chars@) =~= chars@.take(0) + before_at(chars@));
    while to < chars.len() && chars[to] != '@'
        invariant
            to <= chars@.len(),
            before_at(chars@) == chars@.take(to as int) + before_at(chars@.skip(to as int)),
        decreases chars@.len() - to,
    {
        let ghost rest = chars@.skip(to as int);
        assert(rest.drop_first() =~= chars@.skip(to + 1));
        to = to + 1;
        assert(chars@.take(to as int) =~= chars@.take(to - 1) + seq![rest[0]]);
        assert(before_at(chars@) =~= chars@.take(to as int) + before_at(chars@.skip(to as int)));
    }
    let whole = string_between(&chars, 0, to);
    assert(whole@ =~= before_at(chars@));
    first_chars(whole.as_str(), max)
}

/// A panel in progress: what is drawn, and the row that comes next.
#[verifier::ext_equal]
pub struct PanelModel {
    pub canvas: CanvasModel,
    pub row: int,
}

/// The header of a panel.
pub open spec fn headed(canvas: CanvasModel, title: Seq<char>) -> CanvasModel {
    let max = reduced(canvas.cols, 1);
    canvas.text(
        1,
        PAD_LEFT,
        max,
        title,
        SidebarColor::Header,
        SidebarColor::SidebarBg,
    ).rule(3, PAD_LEFT, max)
}

/// Draw the header of a panel; its content begins in row 5.
fn draw_header(canvas: &mut Canvas, title: &str)
    ensures
        final(canvas)@ == headed(old(canvas)@, title@),
{
    let mc: u16 = max_col(canvas.cols());
    canvas.write_str(1, PAD_LEFT, mc, title, SidebarColor::Header, SidebarColor::SidebarBg);
    canvas.write_separator(3, PAD_LEFT, mc);
}

/// A percentage as text.
pub open spec fn percent_text(percent: u32) -> Seq<char> {
    decimal_text(percent as nat) + "%"@
}

/// A window of usage: its label on the left, the percentage on the right, and a bar below them.
pub open spec fn window_drawn(
    canvas: CanvasModel,
    row: int,
    label: Seq<char>,
    percent: u32,
    filled: u16,
) -> CanvasModel {
    let max = reduced(canvas.cols, 1);
    let text = percent_text(percent);
    canvas.text(
        row,
        CARD_PAD_LEFT,
        max,
        label,
        SidebarColor::Label,
        SidebarColor::CardBg,
    ).text(
        row,
        reduced(max, text.len() as int),
        max,
        text,
        share_color(percent),
        SidebarColor::CardBg,
    ).bar(row + 1, CARD_PAD_LEFT, reduced(max, 3), filled, share_color(percent))
}

proof fn percentages_are_short(percent: u32)
    ensures
        percent_text(percent).len() <= 11,
{
    reveal_strlit("%");
    digits_of(percent as nat, 10);
}

/// How many digits a number below a power of ten has.
proof fn digits_of(n: nat, count: nat)
    requires
        count > 0,
        count == 10 ==> n < 10_000_000_000,
        count == 9 ==> n < 1_000_000_000,
        count == 8 ==> n < 100_000_000,
        count == 7 ==> n < 10_000_000,
        count == 6 ==> n < 1_000_000,
        count == 5 ==> n < 100_000,
        count == 4 ==> n < 10_000,
        count == 3 ==> n < 1_000,
        count == 2 ==> n < 100,
        count == 1 ==> n < 10,
        count <= 10,
    ensures
        decimal_text(n).len() <= count,
    decreases count,
{
    if n >= 10 {
        digits_of(n / 10, (count - 1) as nat);
    }
}

fn draw_window(canvas: &mut Canvas, row: u16, label: &str, percent: u32, filled: u16)
    requires
        row < 0xffff,
    ensures
        final(canvas)@ == window_drawn(old(canvas)@, row as int, label@, percent, filled),
{
    let mc: u16 = max_col(canvas.cols());
    let text = joined(decimal(percent as u64).as_str(), "%");
    proof {
        percentages_are_short(percent);
    }
    let color = utilization_color(percent);
    canvas.write_str(row, CARD_PAD_LEFT, mc, label, SidebarColor::Label, SidebarColor::CardBg);
    let width: usize = chars_of(text.as_str()).len();
    let percent_col: u16 = mc.saturating_sub(width as u16);
    canvas.write_str(row, percent_col, mc, text.as_str(), color, SidebarColor::CardBg);
    canvas.render_progress_bar(
        row + 1,
        CARD_PAD_LEFT,
        mc.saturating_sub(CARD_PAD_LEFT),
        filled,
        color,
    );
}

/// How full the bars of an account are, in cells.
#[derive(Debug, Clone, Copy, PartialEq, Eq, Structural)]
pub struct BarFill {
    pub five_hour: u16,
    pub weekly: u16,
}

/// The five-hour part of an account's card: its window, and when that is reset.
pub open spec fn five_hour_drawn(
    panel: PanelModel,
    data: UsageData,
    filled: u16,
    now: Timestamp,
) -> PanelModel {
    let canvas = window_drawn(panel.canvas, panel.row, "5h window"@, data.utilization, filled);
    match data.resets_at {
        Some(time) => PanelModel {
            canvas: canvas.text(
                panel.row + 2,
                CARD_PAD_LEFT,
                reduced(canvas.cols, 1),
                hours_text(minutes_left(time, now)),
                SidebarColor::Dim,
                SidebarColor::CardBg,
            ),
            row: panel.row + 3,
        },
        None => PanelModel { canvas, row: panel.row + 2 },
    }
}

fn draw_five_hour(canvas: &mut Canvas, row: u16, data: &UsageData, filled: u16, now: Timestamp) -> (
    next: u16)
    requires
        row <= 0xffff - 3,
    ensures
        (PanelModel { canvas: final(canvas)@, row: next as int }) == five_hour_drawn(
            PanelModel { canvas: old(canvas)@, row: row as int },
            *data,
            filled,
            now,
        ),
{
    let mc: u16 = max_col(canvas.cols());
    draw_window(canvas, row, "5h window", data.utilization, filled);
    match data.resets_at {
        Some(time) => {
            let text = hours_string(minutes_until(time, now));
            canvas.write_str(
                row + 2,
                CARD_PAD_LEFT,
                mc,
                text.as_str(),
                SidebarColor::Dim,
                SidebarColor::CardBg,
            );
            row + 3
        },
        None => row + 2,
    }
}

/// The weekly part of an account's card, where there is one.
pub open spec fn weekly_drawn(
    panel: PanelModel,
    data: UsageData,
    filled: u16,
    now: Timestamp,
) -> PanelModel {
    match data.weekly_utilization {
        Some(percent) => {
            let canvas = window_drawn(panel.canvas, panel.row, "7d window"@, percent, filled);
            match data.weekly_resets_at {
                Some(time) => PanelModel {
                    canvas: canvas.text(
                        panel.row + 2,
                        CARD_PAD_LEFT,
                        reduced(canvas.cols, 1),
                        days_text(minutes_left(time, now)),
                        SidebarColor::Dim,
                        SidebarColor::CardBg,
                    ),
                    row: panel.row + 3,
                },
                None => PanelModel { canvas, row: panel.row + 2 },
            }
        },
        None => panel,
    }
}

fn draw_weekly(canvas: &mut Canvas, row: u16, data: &UsageData, filled: u16, now: Timestamp) -> (
    next: u16)
    requires
        data.weekly_utilization is Some ==> row <= 0xffff - 3,
    ensures
        (PanelModel { canvas: final(canvas)@, row: next as int }) == weekly_drawn(
            PanelModel { canvas: old(canvas)@, row: row as int },
            *data,
            filled,
            now,
        ),
{
    let mc: u16 = max_col(canvas.cols());
    match data.weekly_utilization {
        Some(percent) => {
            draw_window(canvas, row, "7d window", percent, filled);
            match data.weekly_resets_at {
                Some(time) => {
                    let text = days_string(minutes_until(time, now));
                    canvas.write_str(
                        row + 2,
                        CARD_PAD_LEFT,
                        mc,
                        text.as_str(),
                        SidebarColor::Dim,
                        SidebarColor::CardBg,
                    );
                    row + 3
                },
                None => row + 2,
            }
        },
        None => row,
    }
}

/// An account's card: its name, the five-hour part, a free row, the weekly part, and the
/// background behind them.
pub open spec fn account_drawn(
    panel: PanelModel,
    account: AccountUsageModel,
    fill: BarFill,
    now: Timestamp,
) -> PanelModel {
    let max = reduced(panel.canvas.cols, 1);
    let named = panel.canvas.text(
        panel.row,
        CARD_PAD_LEFT,
        max,
        shortened(before_at(account.account_name), reduced(panel.canvas.cols, 3) as nat),
        SidebarColor::Value,
        SidebarColor::CardBg,
    );
    let first = five_hour_drawn(
        PanelModel { canvas: named, row: panel.row + 2 },
        account.data,
        fill.five_hour,
        now,
    );
    let second = weekly_drawn(
        PanelModel { canvas: first.canvas, row: first.row + 1 },
        account.data,
        fill.weekly,
        now,
    );
    PanelModel {
        canvas: second.canvas.card(panel.row, second.row, PAD_LEFT, max, SidebarColor::CardBg),
        row: second.row + 1,
    }
}

/// How many rows an account takes: two for its name, two for each window, one for each reset
/// time, one free row between the windows and one after the card.
pub open spec fn account_rows(data: UsageData) -> int {
    6 + (if data.resets_at is Some {
        1int
    } else {
        0
    }) + (if data.weekly_utilization is Some {
        if data.weekly_resets_at is Some {
            3int
        } else {
            2
        }
    } else {
        0
    })
}

fn draw_account(
    canvas: &mut Canvas,
    row: u16,
    account: &AccountUsage,
    fill: BarFill,
    now: Timestamp,
) -> (next: u16)
    requires
        row + account_rows(account.data) <= 0xffff,
    ensures
        (PanelModel { canvas: final(canvas)@, row: next as int }) == account_drawn(
            PanelModel { canvas: old(canvas)@, row: row as int },
            account@,
            fill,
            now,
        ),
        next == row + account_rows(account.data),
{
    let cols: u16 = canvas.cols();
    let mc: u16 = max_col(cols);
    let name = short_name(account.account_name.as_str(), content_width(cols) as usize);
    canvas.write_str(
        row,
        CARD_PAD_LEFT,
        mc,
        name.as_str(),
        SidebarColor::Value,
        SidebarColor::CardBg,
    );
    let middle: u16 = draw_five_hour(canvas, row + 2, &account.data, fill.five_hour, now);
    let end: u16 = draw_weekly(canvas, middle + 1, &account.data, fill.weekly, now);
    canvas.fill_card_bg(row, end, PAD_LEFT, mc, SidebarColor::CardBg);
    end + 1
}

/// The cards of the first `n` accounts, with a rule between every two.
pub open spec fn accounts_drawn(
    panel: PanelModel,
    accounts: Seq<AccountUsageModel>,
    fills: Seq<BarFill>,
    now: Timestamp,
    n: int,
) -> PanelModel
    decreases n,
{
    if n <= 0 {
        panel
    } else {
        let before = accounts_drawn(panel, accounts, fills, now, n - 1);
        let card = account_drawn(before, accounts[n - 1], fills[n - 1], now);
        if n < accounts.len() {
            PanelModel {
                canvas: card.canvas.rule(card.row, CARD_PAD_LEFT, reduced(card.canvas.cols, 1)),
                row: card.row + 1,
            }
        } else {
            card
        }
    }
}

/// The row after the first `n` accounts.
pub open spec fn usage_rows(accounts: Seq<AccountUsageModel>, n: int) -> int
    decreases n,
{
    if n <= 0 {
        5
    } else {
        usage_rows(accounts, n - 1) + account_rows(accounts[n - 1].data) + (if n < accounts.len() {
            1int
        } else {
            0
        })
    }
}

proof fn usage_rows_grow(accounts: Seq<AccountUsageModel>, n: int, m: int)
    requires
        0 <= n <= m,
    ensures
        5 <= usage_rows(accounts, n) <= usage_rows(accounts, m),
    decreases m,
{
    if n < m {
        usage_rows_grow(accounts, n, m - 1);
    } else if n > 0 {
        usage_rows_grow(accounts, 0, n - 1);
    }
}

/// The usage panel.
pub open spec fn usage_panel(
    canvas: CanvasModel,
    accounts: Seq<AccountUsageModel>,
    fills: Seq<BarFill>,
    now: Timestamp,
) -> PanelModel {
    let start = headed(canvas, "USAGE ("@ + decimal_text(accounts.len()) + ")"@);
    if accounts.len() == 0 {
        PanelModel {
            canvas: start.text(
                5,
                PAD_LEFT,
                reduced(canvas.cols, 1),
                "Loading..."@,
                SidebarColor::Dim,
                SidebarColor::SidebarBg,
            ),
            row: 6,
        }
    } else {
        accounts_drawn(
            PanelModel { canvas: start, row: 5 },
            accounts,
            fills,
            now,
            accounts.len() as int,
        )
    }
}

/// The rows that the usage panel takes.
proof fn usage_panel_rows(
    canvas: CanvasModel,
    accounts: Seq<AccountUsageModel>,
    fills: Seq<BarFill>,
    now: Timestamp,
)
    ensures
        accounts.len() > 0 ==> usage_panel(canvas, accounts, fills, now).row == usage_rows(
            accounts,
            accounts.len() as int,
        ),
{
    let start = headed(canvas, "USAGE ("@ + decimal_text(accounts.len()) + ")"@);
    accounts_rows(
        PanelModel { canvas: start, row: 5 },
        accounts,
        fills,
        now,
        accounts.len() as int,
    );
}

/// The rows that the cards of the first `n` accounts take.
proof fn accounts_rows(
    panel: PanelModel,
    accounts: Seq<AccountUsageModel>,
    fills: Seq<BarFill>,
    now: Timestamp,
    n: int,
)
    requires
        panel.row == 5,
    ensures
        accounts_drawn(panel, accounts, fills, now, n).row == usage_rows(accounts, n),
    decreases n,
{
    if n > 0 {
        accounts_rows(panel, accounts, fills, now, n - 1);
    }
}

/// Draw the usage panel. Gives the height of its content.
pub fn render_usage_panel(
    canvas: &mut Canvas,
    accounts: &Vec<AccountUsage>,
    fills: &Vec<BarFill>,
    now: Timestamp,
) -> (height: u16)
    requires
        fills@.len() == accounts@.len(),
        usage_rows(account_usage_values(accounts@), accounts@.len() as int) <= 0xffff,
    ensures
        (PanelModel { canvas: final(canvas)@, row: height as int }) == usage_panel(
            old(canvas)@,
            account_usage_values(accounts@),
            fills@,
            now,
        ),
{
    let ghost values = account_usage_values(accounts@);
    let mc: u16 = max_col(canvas.cols());
    let title = joined3("USAGE (", decimal(accounts.len() as u64).as_str(), ")");
    draw_header(canvas, title.as_str());
    if accounts.len() == 0 {
        canvas.write_str(
            5,
            PAD_LEFT,
            mc,
            "Loading...",
            SidebarColor::Dim,
            SidebarColor::SidebarBg,
        );
        return 6;
    }
    let ghost start = PanelModel { canvas: canvas@, row: 5 };
    let mut row: u16 = 5;
    let mut i: usize = 0;
    while i < accounts.len()
        invariant
            i <= accounts@.len() == fills@.len(),
            values == account_usage_values(accounts@),
            usage_rows(values, accounts@.len() as int) <= 0xffff,
            row == usage_rows(values, i as int),
            (PanelModel { canvas: canvas@, row: row as int }) == accounts_drawn(
                start,
                values,
                fills@,
                now,
                i as int,
            ),
        decreases accounts@.len() - i,
    {
        proof {
            usage_rows_grow(values, i + 1, accounts@.len() as int);
            assert(usage_rows(values, i + 1) == row + account_rows(values[i as int].data) + (if i
                + 1 < values.len() {
                1int
            } else {
                0
            }));
        }
        row = draw_account(canvas, row, &accounts[i], fills[i], now);
        if i + 1 < accounts.len() {
            let inner: u16 = max_col(canvas.cols());
            canvas.write_separator(row, CARD_PAD_LEFT, inner);
            row = row + 1;
        }
        i = i + 1;
    }
    row
}

/// The column of the status dot in a session's card.
pub const DOT_COL: u16 = 4;

/// The column of the title in a session's card.
pub const TITLE_COL: u16 = 6;

/// The column of the lines below the title.
pub const DETAIL_COL: u16 = CARD_PAD_INNER + 1;

/// The background of a session's card.
pub open spec fn card_color(active: bool, hovered: bool) -> SidebarColor {
    if active {
        SidebarColor::CardActiveBg
    } else if hovered {
        SidebarColor::HoverBg
    } else {
        SidebarColor::CardBg
    }
}

/// The colour of a session's status dot.
pub open spec fn status_color(status: ClaudeStatus) -> SidebarColor {
    match status {
        ClaudeStatus::Working => SidebarColor::Yellow,
        ClaudeStatus::Idle => SidebarColor::Green,
    }
}

/// A title with a dot before it.
pub open spec fn title_drawn(
    canvas: CanvasModel,
    row: int,
    dot: Seq<char>,
    dot_fg: SidebarColor,
    title: Seq<char>,
    title_fg: SidebarColor,
    bg: SidebarColor,
) -> CanvasModel {
    let max = reduced(canvas.cols, 1);
    canvas.text(row, DOT_COL, max, dot, dot_fg, bg).text(row, TITLE_COL, max, title, title_fg, bg)
}

/// How many lines an entry has: its title, the folder where it is known, and the session.
pub open spec fn entry_lines(entry: EntryModel) -> int {
    match entry.session {
        Some(session) => if session.project.len() > 0 {
            3
        } else {
            2
        },
        None => 1,
    }
}

/// The lines of an entry.
pub open spec fn entry_text(
    canvas: CanvasModel,
    row: int,
    entry: EntryModel,
    bg: SidebarColor,
) -> CanvasModel {
    let max = reduced(canvas.cols, 1);
    match entry.session {
        Some(session) => {
            let titled = title_drawn(
                canvas,
                row,
                "\u{25CF}"@,
                status_color(session.status),
                entry.title,
                SidebarColor::Value,
                bg,
            );
            let placed = if session.project.len() > 0 {
                titled.text(row + 1, DETAIL_COL, max, session.project, SidebarColor::Label, bg)
            } else {
                titled
            };
            placed.text(
                row + entry_lines(entry) - 1,
                DETAIL_COL,
                max,
                shortened(session.session_id, 8),
                SidebarColor::Dim,
                bg,
            )
        },
        None => title_drawn(
            canvas,
            row,
            "\u{25CB}"@,
            SidebarColor::Dim,
            entry.title,
            SidebarColor::Dim,
            bg,
        ),
    }
}

/// An entry's card: its lines, the background behind them, and a stripe at the active one.
pub open spec fn entry_drawn(
    canvas: CanvasModel,
    row: int,
    entry: EntryModel,
    active: bool,
    hovered: bool,
) -> CanvasModel {
    let bg = card_color(active, hovered);
    let end = row + entry_lines(entry);
    let card = entry_text(canvas, row, entry, bg).card(
        row,
        end,
        PAD_LEFT,
        reduced(canvas.cols, 1),
        bg,
    );
    if active {
        card.stripe(row, end, PAD_LEFT)
    } else {
        card
    }
}

fn draw_title(
    canvas: &mut Canvas,
    row: u16,
    dot: &str,
    dot_fg: SidebarColor,
    title: &str,
    title_fg: SidebarColor,
    bg: SidebarColor,
)
    ensures
        final(canvas)@ == title_drawn(old(canvas)@, row as int, dot@, dot_fg, title@, title_fg, bg),
{
    let mc: u16 = max_col(canvas.cols());
    canvas.write_str(row, DOT_COL, mc, dot, dot_fg, bg);
    canvas.write_str(row, TITLE_COL, mc, title, title_fg, bg);
}

fn draw_entry_text(canvas: &mut Canvas, row: u16, entry: &TabSessionEntry, bg: SidebarColor) -> (
    end: u16)
    requires
        row + entry_lines(entry@) <= 0xffff,
    ensures
        final(canvas)@ == entry_text(old(canvas)@, row as int, entry@, bg),
        end == row + entry_lines(entry@),
{
    let mc: u16 = max_col(canvas.cols());
    match &entry.session {
        Some(session) => {
            let dot_fg = match session.status {
                ClaudeStatus::Working => SidebarColor::Yellow,
                ClaudeStatus::Idle => SidebarColor::Green,
            };
            draw_title(
                canvas,
                row,
                "\u{25CF}",
                dot_fg,
                entry.display_title.as_str(),
                SidebarColor::Value,
                bg,
            );
            let mut next: u16 = row + 1;
            if !session.project.as_str().is_empty() {
                canvas.write_str(
                    next,
                    DETAIL_COL,
                    mc,
                    session.project.as_str(),
                    SidebarColor::Label,
                    bg,
                );
                next = next + 1;
            }
            let id = first_chars(session.session_id.as_str(), 8);
            canvas.write_str(next, DETAIL_COL, mc, id.as_str(), SidebarColor::Dim, bg);
            next + 1
        },
        None => {
            draw_title(
                canvas,
                row,
                "\u{25CB}",
                SidebarColor::Dim,
                entry.display_title.as_str(),
                SidebarColor::Dim,
                bg,
            );
            row + 1
        },
    }
}

fn draw_entry(
    canvas: &mut Canvas,
    row: u16,
    entry: &TabSessionEntry,
    active: bool,
    hovered: bool,
) -> (end: u16)
    requires
        row + entry_lines(entry@) <= 0xffff,
    ensures
        final(canvas)@ == entry_drawn(old(canvas)@, row as int, entry@, active, hovered),
        end == row + entry_lines(entry@),
{
    let bg = if active {
        SidebarColor::CardActiveBg
    } else if hovered {
        SidebarColor::HoverBg
    } else {
        SidebarColor::CardBg
    };
    let mc: u16 = max_col(canvas.cols());
    let end: u16 = draw_entry_text(canvas, row, entry, bg);
    canvas.fill_card_bg(row, end, PAD_LEFT, mc, bg);
    if active {
        canvas.paint_left_accent(row, end, PAD_LEFT);
    }
    end
}

/// The row after the first `n` entries: each one is followed by a free row.
pub open spec fn session_rows(entries: Seq<EntryModel>, n: int) -> int
    decreases n,
{
    if n <= 0 {
        5
    } else {
        session_rows(entries, n - 1) + entry_lines(entries[n - 1]) + 1
    }
}

/// The cards of the first `n` entries.
pub open spec fn entries_drawn(
    canvas: CanvasModel,
    entries: Seq<EntryModel>,
    active_tab: usize,
    hovered_tab: Option<usize>,
    n: int,
) -> CanvasModel
    decreases n,
{
    if n <= 0 {
        canvas
    } else {
        let entry = entries[n - 1];
        entry_drawn(
            entries_drawn(canvas, entries, active_tab, hovered_tab, n - 1),
            session_rows(entries, n - 1),
            entry,
            entry.tab_index == active_tab,
            hovered_tab == Some(entry.tab_index),
        )
    }
}

/// The rows that the cards of entries take.
pub open spec fn entry_hits(entries: Seq<EntryModel>) -> Seq<SidebarHitEntry> {
    Seq::new(
        entries.len(),
        |i: int|
            SidebarHitEntry {
                start_row: session_rows(entries, i) as u16,
                end_row: (session_rows(entries, i) + entry_lines(entries[i])) as u16,
                tab_index: entries[i].tab_index,
            },
    )
}

proof fn session_rows_grow(entries: Seq<EntryModel>, n: int, m: int)
    requires
        0 <= n <= m,
    ensures
        5 <= session_rows(entries, n) <= session_rows(entries, m),
    decreases m,
{
    if n < m {
        session_rows_grow(entries, n, m - 1);
    } else if n > 0 {
        session_rows_grow(entries, 0, n - 1);
    }
}

/// The sessions panel.
pub open spec fn sessions_panel(
    canvas: CanvasModel,
    entries: Seq<EntryModel>,
    active_tab: usize,
    hovered_tab: Option<usize>,
) -> PanelModel {
    let start = headed(canvas, "SESSIONS ("@ + decimal_text(entries.len()) + ")"@);
    if entries.len() == 0 {
        PanelModel {
            canvas: start.text(
                5,
                PAD_LEFT,
                reduced(canvas.cols, 1),
                "No sessions"@,
                SidebarColor::Dim,
                SidebarColor::SidebarBg,
            ),
            row: 6,
        }
    } else {
        PanelModel {
            canvas: entries_drawn(start, entries, active_tab, hovered_tab, entries.len() as int),
            row: session_rows(entries, entries.len() as int),
        }
    }
}

/// Draw the sessions panel. Gives the height of its content and the rows of its cards.
pub fn render_sessions_panel(
    canvas: &mut Canvas,
    entries: &Vec<TabSessionEntry>,
    active_tab: usize,
    hovered_tab: Option<usize>,
) -> (drawn: (u16, Vec<SidebarHitEntry>))
    requires
        session_rows(entry_values(entries@), entries@.len() as int) <= 0xffff,
    ensures
        (PanelModel { canvas: final(canvas)@, row: drawn.0 as int }) == sessions_panel(
            old(canvas)@,
            entry_values(entries@),
            active_tab,
            hovered_tab,
        ),
        drawn.1@ == entry_hits(entry_values(entries@)),
{
    let ghost values = entry_values(entries@);
    let mc: u16 = max_col(canvas.cols());
    let title = joined3("SESSIONS (", decimal(entries.len() as u64).as_str(), ")");
    draw_header(canvas, title.as_str());
    let mut hits: Vec<SidebarHitEntry> = Vec::new();
    if entries.len() == 0 {
        canvas.write_str(
            5,
            PAD_LEFT,
            mc,
            "No sessions",
            SidebarColor::Dim,
            SidebarColor::SidebarBg,
        );
        assert(hits@ =~= entry_hits(values));
        return (6, hits);
    }
    let ghost start = canvas@;
    let mut row: u16 = 5;
    let mut i: usize = 0;
    while i < entries.len()
        invariant
            i <= entries@.len(),
            values == entry_values(entries@),
            session_rows(values, entries@.len() as int) <= 0xffff,
            row == session_rows(values, i as int),
            canvas@ == entries_drawn(start, values, active_tab, hovered_tab, i as int),
            hits@ == entry_hits(values).take(i as int),
        decreases entries@.len() - i,
    {
        proof {
            session_rows_grow(values, i + 1, entries@.len() as int);
            assert(session_rows(values, i + 1) == row + entry_lines(values[i as int]) + 1);
        }
        let entry = &entries[i];
        let hovered = match hovered_tab {
            Some(tab) => tab == entry.tab_index,
            None => false,
        };
        let end: u16 = draw_entry(canvas, row, entry, entry.tab_index == active_tab, hovered);
        hits.push(SidebarHitEntry { start_row: row, end_row: end, tab_index: entry.tab_index });
        row = end + 1;
        i = i + 1;
        assert(hits@ =~= entry_hits(values).take(i as int));
    }
    assert(hits@ =~= entry_hits(values));
    (row, hits)
}

/// A shortcut and what it does.
pub open spec fn shortcut_drawn(
    canvas: CanvasModel,
    row: int,
    key: Seq<char>,
    meaning: Seq<char>,
) -> CanvasModel {
    let max = reduced(canvas.cols, 1);
    canvas.text(
        row,
        CARD_PAD_LEFT,
        max,
        key,
        SidebarColor::Header,
        SidebarColor::SidebarBg,
    ).text(row, 8, max, meaning, SidebarColor::Label, SidebarColor::SidebarBg)
}

fn draw_shortcut(canvas: &mut Canvas, row: u16, key: &str, meaning: &str)
    ensures
        final(canvas)@ == shortcut_drawn(old(canvas)@, row as int, key@, meaning@),
{
    let mc: u16 = max_col(canvas.cols());
    canvas.write_str(
        row,
        CARD_PAD_LEFT,
        mc,
        key,
        SidebarColor::Header,
        SidebarColor::SidebarBg,
    );
    canvas.write_str(row, 8, mc, meaning, SidebarColor::Label, SidebarColor::SidebarBg);
}

/// The panel with the shortcuts.
pub open spec fn shortcuts_panel(canvas: CanvasModel) -> PanelModel {
    let start = headed(canvas, "SHORTCUTS"@);
    let first = shortcut_drawn(start, 5, "\u{2318}B"@, "Toggle sidebar"@);
    let second = shortcut_drawn(first, 7, "\u{2318}\u{21E7}B"@, "Cycle panel"@);
    let third = shortcut_drawn(second, 9, "\u{2318}T"@, "New tab"@);
    let fourth = shortcut_drawn(third, 11, "\u{2318}W"@, "Close tab"@);
    PanelModel {
        canvas: shortcut_drawn(fourth, 13, "\u{2318}\u{21E7}R"@, "Rename tab"@),
        row: 15,
    }
}

/// Draw the panel with the shortcuts. Gives the height of its content.
pub fn render_output_panel(canvas: &mut Canvas) -> (height: u16)
    ensures
        (PanelModel { canvas: final(canvas)@, row: height as int }) == shortcuts_panel(
            old(canvas)@,
        ),
{
    draw_header(canvas, "SHORTCUTS");
    draw_shortcut(canvas, 5, "\u{2318}B", "Toggle sidebar");
    draw_shortcut(canvas, 7, "\u{2318}\u{21E7}B", "Cycle panel");
    draw_shortcut(canvas, 9, "\u{2318}T", "New tab");
    draw_shortcut(canvas, 11, "\u{2318}W", "Close tab");
    draw_shortcut(canvas, 13, "\u{2318}\u{21E7}R", "Rename tab");
    15
}

/// How many rows the content of a panel takes.
pub open spec fn content_rows(
    panel: SidebarPanel,
    accounts: Seq<AccountUsageModel>,
    entries: Seq<EntryModel>,
) -> int {
    match panel {
        SidebarPanel::Usage => if accounts.len() == 0 {
            6
        } else {
            usage_rows(accounts, accounts.len() as int)
        },
        SidebarPanel::Sessions => if entries.len() == 0 {
            6
        } else {
            session_rows(entries, entries.len() as int)
        },
        SidebarPanel::Output => 15,
    }
}

/// How many rows the content of a sidebar takes.
pub open spec fn sidebar_rows(state: SidebarState) -> int {
    content_rows(
        state.panel,
        account_usage_values(state.accounts@),
        entry_values(state.tab_entries@),
    )
}

/// How tall the surface is on which all content is drawn, given the rows that are visible and
/// those that the content takes.
pub open spec fn surface_rows(rows: u16, content: int) -> nat {
    let least = if rows * 4 >= 200 {
        rows * 4
    } else {
        200
    };
    if content > least {
        content as nat
    } else {
        least as nat
    }
}

/// How far a view of `rows` rows can be scrolled down on content: until its end shows.
pub open spec fn scroll_limit(content: int, rows: u16) -> u16 {
    if rows < content <= 0xffff {
        (content - rows) as u16
    } else {
        0
    }
}

/// The panel of a sidebar.
pub open spec fn panel_drawn(
    state: SidebarState,
    canvas: CanvasModel,
    active_tab: usize,
    hovered_tab: Option<usize>,
    fills: Seq<BarFill>,
    now: Timestamp,
) -> PanelModel {
    match state.panel {
        SidebarPanel::Usage => usage_panel(
            canvas,
            account_usage_values(state.accounts@),
            fills,
            now,
        ),
        SidebarPanel::Sessions => sessions_panel(
            canvas,
            entry_values(state.tab_entries@),
            active_tab,
            hovered_tab,
        ),
        SidebarPanel::Output => shortcuts_panel(canvas),
    }
}

/// A hit area in a view that begins at a row.
pub open spec fn scrolled(hit: SidebarHitEntry, first: u16) -> SidebarHitEntry {
    SidebarHitEntry {
        start_row: reduced(hit.start_row, first as int),
        end_row: reduced(hit.end_row, first as int),
        ..hit
    }
}

/// The hit areas that show in `rows` rows from a row on.
pub open spec fn visible_hits(hits: Seq<SidebarHitEntry>, first: u16, rows: u16) -> Seq<
    SidebarHitEntry,
>
    decreases hits.len(),
{
    if hits.len() == 0 {
        Seq::empty()
    } else {
        let rest = visible_hits(hits.drop_last(), first, rows);
        let hit = scrolled(hits.last(), first);
        if hit.end_row > 0 && hit.start_row < rows {
            rest.push(hit)
        } else {
            rest
        }
    }
}

fn scroll_hits(hits: &Vec<SidebarHitEntry>, first: u16, rows: u16) -> (visible: Vec<
    SidebarHitEntry,
>)
    ensures
        visible@ == visible_hits(hits@, first, rows),
{
    let mut visible: Vec<SidebarHitEntry> = Vec::new();
    let mut i: usize = 0;
    while i < hits.len()
        invariant
            i <= hits@.len(),
            visible@ == visible_hits(hits@.take(i as int), first, rows),
        decreases hits@.len() - i,
    {
        let hit = hits[i];
        let moved = SidebarHitEntry {
            start_row: hit.start_row.saturating_sub(first),
            end_row: hit.end_row.saturating_sub(first),
            tab_index: hit.tab_index,
        };
        if moved.end_row > 0 && moved.start_row < rows {
            visible.push(moved);
        }
        i = i + 1;
        assert(hits@.take(i as int).drop_last() =~= hits@.take(i - 1));
    }
    assert(hits@.take(i as int) =~= hits@);
    visible
}

/// Whether a sidebar of a size can be drawn: its surface can be held, and its rows counted.
pub open spec fn panel_fits(state: SidebarState, cols: u16, rows: u16) -> bool {
    &&& sidebar_rows(state) <= 0xffff
    &&& cols * surface_rows(rows, sidebar_rows(state)) <= usize::MAX
}

/// How many rows the cards of accounts take with the header, as far as they can be counted.
fn usage_height(accounts: &Vec<AccountUsage>) -> (height: Option<u16>)
    ensures
        ({
            let rows = usage_rows(account_usage_values(accounts@), accounts@.len() as int);
            match height {
                Some(h) => h == rows,
                None => rows > 0xffff,
            }
        }),
{
    let ghost values = account_usage_values(accounts@);
    let mut height: u32 = 5;
    let mut i: usize = 0;
    while i < accounts.len()
        invariant
            i <= accounts@.len(),
            values == account_usage_values(accounts@),
            height == usage_rows(values, i as int) <= 0xffff,
        decreases accounts@.len() - i,
    {
        let data = &accounts[i].data;
        assert(values[i as int].data == *data);
        height = height + 6;
        if data.resets_at.is_some() {
            height = height + 1;
        }
        if data.weekly_utilization.is_some() {
            height = height + if data.weekly_resets_at.is_some() {
                3
            } else {
                2
            };
        }
        i = i + 1;
        if i < accounts.len() {
            height = height + 1;
        }
        if height > 0xffff {
            proof {
                usage_rows_grow(values, i as int, accounts@.len() as int);
            }
            return None;
        }
    }
    Some(height as u16)
}

/// How many rows the cards of tabs take with the header, as far as they can be counted.
fn sessions_height(entries: &Vec<TabSessionEntry>) -> (height: Option<u16>)
    ensures
        ({
            let rows = session_rows(entry_values(entries@), entries@.len() as int);
            match height {
                Some(h) => h == rows,
                None => rows > 0xffff,
            }
        }),
{
    let ghost values = entry_values(entries@);
    let mut height: u32 = 5;
    let mut i: usize = 0;
    while i < entries.len()
        invariant
            i <= entries@.len(),
            values == entry_values(entries@),
            height == session_rows(values, i as int) <= 0xffff,
        decreases entries@.len() - i,
    {
        let entry = &entries[i];
        assert(values[i as int] == entry@);
        let lines: u32 = match &entry.session {
            Some(session) => if session.project.as_str().is_empty() {
                2
            } else {
                3
            },
            None => 1,
        };
        height = height + lines + 1;
        i = i + 1;
        if height > 0xffff {
            proof {
                session_rows_grow(values, i as int, entries@.len() as int);
            }
            return None;
        }
    }
    Some(height as u16)
}

/// How many rows the content of a sidebar takes, as far as they can be counted.
pub fn content_height(state: &SidebarState) -> (height: Option<u16>)
    ensures
        match height {
            Some(h) => h == sidebar_rows(*state),
            None => sidebar_rows(*state) > 0xffff,
        },
{
    match state.panel {
        SidebarPanel::Usage => if state.accounts.len() == 0 {
            Some(6)
        } else {
            usage_height(&state.accounts)
        },
        SidebarPanel::Sessions => if state.tab_entries.len() == 0 {
            Some(6)
        } else {
            sessions_height(&state.tab_entries)
        },
        SidebarPanel::Output => Some(15),
    }
}

/// How far a view of `rows` rows can be scrolled down on a sidebar.
pub fn scroll_end(state: &SidebarState, rows: u16) -> (limit: u16)
    ensures
        limit == scroll_limit(sidebar_rows(*state), rows),
{
    match content_height(state) {
        Some(height) => height.saturating_sub(rows),
        None => 0,
    }
}

fn surface_height(rows: u16, content: u16) -> (height: u32)
    ensures
        height == surface_rows(rows, content as int),
        height <= 0x3ffff,
{
    let least: u32 = if rows as u32 * 4 >= 200 {
        rows as u32 * 4
    } else {
        200
    };
    if content as u32 > least {
        content as u32
    } else {
        least
    }
}

/// Whether a sidebar of a size can be drawn.
pub fn can_render(state: &SidebarState, cols: u16, rows: u16) -> (fits: bool)
    ensures
        fits == panel_fits(*state, cols, rows),
{
    match content_height(state) {
        Some(content) => {
            let surface: u64 = surface_height(rows, content) as u64;
            assert(cols * surface <= 0xffff * 0x3ffff) by (nonlinear_arith)
                requires
                    0 <= cols <= 0xffff,
                    0 <= surface <= 0x3ffff,
            ;
            cols as u64 * surface <= usize::MAX as u64
        },
        None => false,
    }
}

/// A sidebar as it is drawn.
pub struct RenderedSidebar {
    pub cells: Vec<SidebarCell>,
    /// The height of the content, of which only a part may show.
    pub content_height: u16,
    pub hit_map: Vec<SidebarHitEntry>,
}

/// Render the sidebar. `scroll_offset` shifts the view down by that many rows; `fills` says how
/// full the bars of each account are.
pub fn render_sidebar(
    state: &SidebarState,
    cols: u16,
    rows: u16,
    active_tab: usize,
    hovered_tab: Option<usize>,
    scroll_offset: u16,
    fills: &Vec<BarFill>,
    now: Timestamp,
) -> (drawn: RenderedSidebar)
    requires
        panel_fits(*state, cols, rows),
        state.panel == SidebarPanel::Usage ==> fills@.len() == state.accounts@.len(),
    ensures
        ({
            let panel = panel_drawn(
                *state,
                CanvasModel::blank(cols, surface_rows(rows, sidebar_rows(*state))),
                active_tab,
                hovered_tab,
                fills@,
                now,
            );
            let hits = if state.panel == SidebarPanel::Sessions {
                entry_hits(entry_values(state.tab_entries@))
            } else {
                Seq::empty()
            };
            &&& drawn.cells@ == panel.canvas.window(scroll_offset as nat, rows as nat)
            &&& drawn.content_height == panel.row == sidebar_rows(*state)
            &&& drawn.hit_map@ == visible_hits(hits, scroll_offset, rows)
        }),
{
    let content: u16 = match content_height(state) {
        Some(content) => content,
        None => 0,
    };
    let mut canvas = Canvas::new(cols, surface_height(rows, content) as usize);
    let mut hits: Vec<SidebarHitEntry> = Vec::new();
    let content_height: u16 = match state.panel {
        SidebarPanel::Usage => render_usage_panel(&mut canvas, &state.accounts, fills, now),
        SidebarPanel::Sessions => {
            let (height, cards) = render_sessions_panel(
                &mut canvas,
                &state.tab_entries,
                active_tab,
                hovered_tab,
            );
            hits = cards;
            height
        },
        SidebarPanel::Output => render_output_panel(&mut canvas),
    };
    assert(state.panel != SidebarPanel::Sessions ==> hits@ =~= Seq::empty());
    proof {
        usage_panel_rows(
            CanvasModel::blank(cols, surface_rows(rows, content as int)),
            account_usage_values(state.accounts@),
            fills@,
            now,
        );
    }
    RenderedSidebar {
        cells: canvas.visible_window(scroll_offset, rows),
        content_height,
        hit_map: scroll_hits(&hits, scroll_offset, rows),
    }
}

/// In a scrolled view, a row shows the card that stands on that row of the panel.
pub proof fn cards_are_found_when_scrolled(
    hits: Seq<SidebarHitEntry>,
    first: u16,
    rows: u16,
    row: u16,
)
    requires
        row < rows,
        first + row <= 0xffff,
    ensures
        tab_at(visible_hits(hits, first, rows), row) == tab_at(hits, (first + row) as u16),
    decreases hits.len(),
{
    if hits.len() > 0 {
        let most = hits.drop_last();
        let seen = visible_hits(most, first, rows);
        cards_are_found_when_scrolled(most, first, rows, row);
        found_in_parts(most, hits.last(), (first + row) as u16);
        assert(most.push(hits.last()) =~= hits);
        found_in_parts(seen, scrolled(hits.last(), first), row);
    }
}

/// The card at a row among some cards and another one after them.
proof fn found_in_parts(hits: Seq<SidebarHitEntry>, last: SidebarHitEntry, row: u16)
    ensures
        tab_at(hits.push(last), row) == (if tab_at(hits, row) is Some {
            tab_at(hits, row)
        } else if last.covers(row) {
            Some(last.tab_index)
        } else {
            None
        }),
    decreases hits.len(),
{
    if hits.len() > 0 {
        found_in_parts(hits.drop_first(), last, row);
        assert(hits.push(last).drop_first() =~= hits.drop_first().push(last));
    } else {
        assert(hits.push(last).drop_first() =~= hits);
        assert(tab_at(hits, row) is None);
    }
}

/// Every card of the sessions panel is found by each of its rows, and by no other card's rows.
pub proof fn cards_are_found_by_their_rows(entries: Seq<EntryModel>, i: int, row: u16)
    requires
        0 <= i < entries.len(),
        session_rows(entries, entries.len() as int) <= 0xffff,
        entry_hits(entries)[i].covers(row),
    ensures
        tab_at(entry_hits(entries), row) == Some(entries[i].tab_index),
        forall|k: int|
            0 <= k < entries.len() && k != i ==> !(#[trigger] entry_hits(entries)[k]).covers(row),
{
    let hits = entry_hits(entries);
    assert forall|k: int| 0 <= k < entries.len() && k != i implies !(
    #[trigger] hits[k]).covers(row) by {
        session_rows_grow(entries, k, entries.len() as int);
        session_rows_grow(entries, i, entries.len() as int);
        session_rows_grow(entries, k + 1, entries.len() as int);
        session_rows_grow(entries, i + 1, entries.len() as int);
        if k < i {
            session_rows_grow(entries, k + 1, i);
        } else {
            session_rows_grow(entries, i + 1, k);
        }
    }
    found_at(hits, i, row);
}

proof fn found_at(hits: Seq<SidebarHitEntry>, i: int, row: u16)
    requires
        0 <= i < hits.len(),
        hits[i].covers(row),
        forall|k: int| 0 <= k < i ==> !(#[trigger] hits[k]).covers(row),
    ensures
        tab_at(hits, row) == Some(hits[i].tab_index),
    decreases hits.len(),
{
    if i > 0 {
        let rest = hits.drop_first();
        assert forall|k: int| 0 <= k < i - 1 implies !(#[trigger] rest[k]).covers(row) by {
            assert(rest[k] == hits[k + 1]);
        }
        found_at(rest, i - 1, row);
    }
}

} // verus!
