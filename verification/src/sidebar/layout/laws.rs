//! What the panels show, read off the cells that are drawn.

use vstd::prelude::*;

use super::canvas::{CanvasModel, SidebarCell, SidebarColor};
use super::panels::{
    before_at, card_color, days_text, five_hour_drawn, hours_text, minutes_left, share_color,
    shortcut_drawn, status_color, title_drawn, weekly_drawn, window_drawn, PanelModel,
};
use crate::sidebar::discovery::tab_session::ClaudeStatus;
use crate::sidebar::usage::api::{Timestamp, UsageData};
use crate::text::{
    decimal_notation_denotes_its_number, decimal_text, different_numbers_are_written_differently,
};

verus! {

/// Whether a text stands in a row from a column on, in these colours.
pub open spec fn reads(
    canvas: CanvasModel,
    row: int,
    col: int,
    text: Seq<char>,
    fg: SidebarColor,
    bg: SidebarColor,
) -> bool {
    forall|i: int|
        0 <= i < text.len() ==> canvas.cells[row * canvas.cols + col + i] == (SidebarCell {
            glyph: #[trigger] text[i] as u32,
            fg,
            bg,
        })
}

/// Whether a surface has a row.
pub open spec fn has_row(canvas: CanvasModel, row: int) -> bool {
    row >= 0 && (row + 1) * canvas.cols <= canvas.cells.len()
}

/// A text is drawn from its column on, one character in a cell, up to the last column; all other
/// cells stay as they are.
pub proof fn texts_stand_where_they_are_drawn(
    canvas: CanvasModel,
    row: int,
    col: u16,
    max_col: u16,
    text: Seq<char>,
    fg: SidebarColor,
    bg: SidebarColor,
)
    requires
        has_row(canvas, row),
        col <= max_col <= canvas.cols,
    ensures
        ({
            let drawn = canvas.text(row, col, max_col, text, fg, bg);
            let room = max_col - col;
            let shown = if text.len() <= room {
                text
            } else {
                text.take(room)
            };
            &&& reads(drawn, row, col as int, shown, fg, bg)
            &&& drawn.cols == canvas.cols
            &&& drawn.cells.len() == canvas.cells.len()
            &&& forall|o: int|
                0 <= o < canvas.cells.len() && !(row * canvas.cols + col <= o < row * canvas.cols
                    + col + shown.len()) ==> #[trigger] drawn.cells[o] == canvas.cells[o]
        }),
{
    rows_follow_each_other(canvas.cols as int, row);
}

proof fn rows_follow_each_other(cols: int, row: int)
    requires
        cols >= 0,
        row >= 0,
    ensures
        row * cols >= 0,
        (row + 1) * cols == row * cols + cols,
        (row + 2) * cols == row * cols + cols + cols,
        (row + 3) * cols == row * cols + cols + cols + cols,
{
    assert(row * cols >= 0 && (row + 1) * cols == row * cols + cols && (row + 2) * cols == row
        * cols + cols + cols && (row + 3) * cols == row * cols + cols + cols + cols)
        by (nonlinear_arith)
        requires
            cols >= 0,
            row >= 0,
    ;
}

/// A window of usage shows its label from the fourth column on, and its percentage so that it ends
/// before the last column. Below them stands a bar from the fourth column to before the last one,
/// with as many full cells as it is told, all before the empty ones.
pub proof fn windows_show_label_share_and_bar(
    canvas: CanvasModel,
    row: int,
    label: Seq<char>,
    percent: u32,
    filled: u16,
    i: int,
)
    requires
        has_row(canvas, row + 1),
        row >= 0,
        3 + label.len() + decimal_text(percent as nat).len() + 1 <= canvas.cols - 1,
        3 <= i < canvas.cols - 1,
    ensures
        ({
            let drawn = window_drawn(canvas, row, label, percent, filled);
            let share = decimal_text(percent as nat) + seq!['%'];
            let cell = drawn.cells[(row + 1) * canvas.cols + i];
            &&& reads(drawn, row, 3, label, SidebarColor::Label, SidebarColor::CardBg)
            &&& reads(
                drawn,
                row,
                canvas.cols - 1 - share.len(),
                share,
                share_color(percent),
                SidebarColor::CardBg,
            )
            &&& i - 3 < filled ==> cell.glyph == '\u{2584}' as u32 && cell.fg == share_color(percent)
            &&& i - 3 >= filled ==> cell.glyph == '\u{2581}' as u32 && cell.fg
                == SidebarColor::BarEmpty
        }),
{
    reveal_strlit("%");
    assert("%"@ =~= seq!['%']);
    rows_follow_each_other(canvas.cols as int, row);
}

/// A share of a limit is red from 80 percent on, yellow from 50 to 79 percent, and green below.
pub proof fn shares_are_colored_by_their_size(percent: u32)
    ensures
        share_color(percent) == SidebarColor::Red <==> 80 <= percent,
        share_color(percent) == SidebarColor::Yellow <==> 50 <= percent < 80,
        share_color(percent) == SidebarColor::Green <==> percent < 50,
{
}

/// With `h` hours and `m` minutes left until the window of five hours is reset, its card says so
/// below the bar: `\u{21BB}`, then the hours with an `h` and the minutes, fewer than 60, with an
/// `m`. A part of a minute does not count.
pub proof fn the_countdown_says_hours_and_minutes(
    panel: PanelModel,
    data: UsageData,
    filled: u16,
    now: Timestamp,
    h: nat,
    m: nat,
)
    requires
        panel.row >= 0,
        has_row(panel.canvas, panel.row + 2),
        m < 60,
        data.resets_at is Some,
        ({
            let left = (data.resets_at->0.secs - now.secs) * 1_000_000_000 + (
            data.resets_at->0.nanos - now.nanos);
            (60 * h + m) * 60_000_000_000 <= left < (60 * h + m + 1) * 60_000_000_000
        }),
        3 + 2 + decimal_text(h).len() + 2 + decimal_text(m).len() + 1 <= panel.canvas.cols - 1,
    ensures
        reads(
            five_hour_drawn(panel, data, filled, now).canvas,
            panel.row + 2,
            3,
            seq!['\u{21BB}', ' '] + decimal_text(h) + seq!['h', ' '] + decimal_text(m) + seq!['m'],
            SidebarColor::Dim,
            SidebarColor::CardBg,
        ),
{
    countdown_texts(h, m);
    rows_follow_each_other(panel.canvas.cols as int, panel.row);
}

/// With `d` days and `h` hours left until the week is reset, its card says so below the bar:
/// `\u{21BB}`, then the days with a `d` and the hours, fewer than 24, with an `h`. A part of an hour
/// does not count.
pub proof fn the_weekly_countdown_says_days_and_hours(
    panel: PanelModel,
    data: UsageData,
    filled: u16,
    now: Timestamp,
    d: nat,
    h: nat,
)
    requires
        panel.row >= 0,
        has_row(panel.canvas, panel.row + 2),
        h < 24,
        data.weekly_utilization is Some,
        data.weekly_resets_at is Some,
        ({
            let left = (data.weekly_resets_at->0.secs - now.secs) * 1_000_000_000 + (
            data.weekly_resets_at->0.nanos - now.nanos);
            (24 * d + h) * 3600_000_000_000 <= left < (24 * d + h + 1) * 3600_000_000_000
        }),
        3 + 2 + decimal_text(d).len() + 2 + decimal_text(h).len() + 1 <= panel.canvas.cols - 1,
    ensures
        reads(
            weekly_drawn(panel, data, filled, now).canvas,
            panel.row + 2,
            3,
            seq!['\u{21BB}', ' '] + decimal_text(d) + seq!['d', ' '] + decimal_text(h) + seq!['h'],
            SidebarColor::Dim,
            SidebarColor::CardBg,
        ),
{
    let left = (data.weekly_resets_at->0.secs - now.secs) * 1_000_000_000 + (
    data.weekly_resets_at->0.nanos - now.nanos);
    weekly_texts(d, h, left / 60_000_000_000);
    rows_follow_each_other(panel.canvas.cols as int, panel.row);
}

proof fn countdown_texts(h: nat, m: nat)
    requires
        m < 60,
    ensures
        hours_text((60 * h + m) as int) == seq!['\u{21BB}', ' '] + decimal_text(h) + seq!['h', ' ']
            + decimal_text(m) + seq!['m'],
{
    reveal_strlit("\u{21BB} ");
    reveal_strlit("h ");
    reveal_strlit("m");
    assert("\u{21BB} "@ =~= seq!['\u{21BB}', ' ']);
    assert("h "@ =~= seq!['h', ' ']);
    assert("m"@ =~= seq!['m']);
    assert((60 * h + m) / 60 == h && (60 * h + m) % 60 == m);
}

proof fn weekly_texts(d: nat, h: nat, minutes: int)
    requires
        h < 24,
        60 * (24 * d + h) <= minutes < 60 * (24 * d + h + 1),
    ensures
        days_text(minutes) == seq!['\u{21BB}', ' '] + decimal_text(d) + seq!['d', ' ']
            + decimal_text(h) + seq!['h'],
{
    reveal_strlit("\u{21BB} ");
    reveal_strlit("d ");
    reveal_strlit("h");
    assert("\u{21BB} "@ =~= seq!['\u{21BB}', ' ']);
    assert("d "@ =~= seq!['d', ' ']);
    assert("h"@ =~= seq!['h']);
    assert(minutes / 1440 == d && minutes % 1440 / 60 == h);
}

/// Different numbers of minutes are told apart by what the countdown says.
pub proof fn different_minutes_read_differently(a: int, b: int)
    requires
        0 <= a,
        0 <= b,
        a != b,
    ensures
        hours_text(a) != hours_text(b),
{
    let h1 = (a / 60) as nat;
    let m1 = (a % 60) as nat;
    let h2 = (b / 60) as nat;
    let m2 = (b % 60) as nat;
    assert(60 * h1 + m1 == a && 60 * h2 + m2 == b);
    countdown_texts(h1, m1);
    countdown_texts(h2, m2);
    if hours_text(a) == hours_text(b) {
        let x1 = decimal_text(h1);
        let x2 = decimal_text(h2);
        let y1 = decimal_text(m1);
        let y2 = decimal_text(m2);
        let text = hours_text(a);
        decimal_notation_denotes_its_number(h1);
        decimal_notation_denotes_its_number(h2);
        assert(text[2 + x1.len() as int] == 'h');
        assert(text[2 + x2.len() as int] == 'h');
        if x1.len() < x2.len() {
            assert(text[2 + x1.len() as int] == x2[x1.len() as int]);
        }
        if x2.len() < x1.len() {
            assert(text[2 + x2.len() as int] == x1[x2.len() as int]);
        }
        assert forall|i: int| 0 <= i < x1.len() implies x1[i] == x2[i] by {
            assert(text[2 + i] == x1[i]);
            assert(text[2 + i] == x2[i]);
        }
        assert(x1 =~= x2);
        assert(text.len() == 5 + x1.len() + y1.len());
        assert(text.len() == 5 + x2.len() + y2.len());
        assert forall|i: int| 0 <= i < y1.len() implies y1[i] == y2[i] by {
            assert(text[4 + x1.len() + i] == y1[i]);
            assert(text[4 + x1.len() + i] == y2[i]);
        }
        assert(y1 =~= y2);
        if h1 != h2 {
            different_numbers_are_written_differently(h1, h2);
        }
        if m1 != m2 {
            different_numbers_are_written_differently(m1, m2);
        }
    }
}

/// The short form of a name is what stands before its first `@`: all of a name without one.
pub proof fn names_end_at_their_at_sign(name: Seq<char>, rest: Seq<char>)
    requires
        forall|i: int| 0 <= i < name.len() ==> #[trigger] name[i] != '@',
    ensures
        before_at(name) == name,
        before_at(name + seq!['@'] + rest) == name,
    decreases name.len(),
{
    if name.len() > 0 {
        let tail = name.drop_first();
        names_end_at_their_at_sign(tail, rest);
        assert((name + seq!['@'] + rest).drop_first() =~= tail + seq!['@'] + rest);
        assert(seq![name[0]] + tail =~= name);
    } else {
        assert(before_at(name) =~= name);
        assert((name + seq!['@'] + rest)[0] == '@');
    }
}

/// The card of the active tab has a background of its own, whether or not the pointer is on it; of
/// the others the one under the pointer has another.
pub proof fn cards_show_active_and_hovered(active: bool, hovered: bool)
    ensures
        card_color(active, hovered) == SidebarColor::CardActiveBg <==> active,
        card_color(active, hovered) == SidebarColor::HoverBg <==> hovered && !active,
        card_color(active, hovered) == SidebarColor::CardBg <==> !hovered && !active,
        status_color(ClaudeStatus::Working) == SidebarColor::Yellow,
        status_color(ClaudeStatus::Idle) == SidebarColor::Green,
{
}

/// A title stands two columns after its dot, which is in the fifth column; a shortcut's meaning
/// stands in the ninth column, five after the keys.
pub proof fn titles_stand_after_their_dot(
    canvas: CanvasModel,
    row: int,
    dot: char,
    dot_fg: SidebarColor,
    title: Seq<char>,
    title_fg: SidebarColor,
    bg: SidebarColor,
    keys: Seq<char>,
    meaning: Seq<char>,
)
    requires
        has_row(canvas, row),
        6 + title.len() <= canvas.cols - 1,
        8 + meaning.len() <= canvas.cols - 1,
        keys.len() <= 5,
    ensures
        ({
            let drawn = title_drawn(canvas, row, seq![dot], dot_fg, title, title_fg, bg);
            &&& reads(drawn, row, 4, seq![dot], dot_fg, bg)
            &&& reads(drawn, row, 6, title, title_fg, bg)
        }),
        ({
            let drawn = shortcut_drawn(canvas, row, keys, meaning);
            &&& reads(drawn, row, 3, keys, SidebarColor::Header, SidebarColor::SidebarBg)
            &&& reads(drawn, row, 8, meaning, SidebarColor::Label, SidebarColor::SidebarBg)
        }),
{
    rows_follow_each_other(canvas.cols as int, row);
}

/// A window that is due to be reset now, or was before, has no time left.
pub proof fn past_resets_leave_no_time(time: Timestamp, now: Timestamp)
    requires
        time.secs * 1_000_000_000 + time.nanos <= now.secs * 1_000_000_000 + now.nanos,
    ensures
        hours_text(minutes_left(time, now)) == seq!['\u{21BB}', ' ', '0', 'h', ' ', '0', 'm'],
        days_text(minutes_left(time, now)) == seq!['\u{21BB}', ' ', '0', 'd', ' ', '0', 'h'],
{
    countdown_texts(0, 0);
    weekly_texts(0, 0, 0);
    assert(decimal_text(0) =~= seq!['0']);
    assert(hours_text(0) =~= seq!['\u{21BB}', ' ', '0', 'h', ' ', '0', 'm']);
    assert(days_text(0) =~= seq!['\u{21BB}', ' ', '0', 'd', ' ', '0', 'h']);
}

} // verus!
