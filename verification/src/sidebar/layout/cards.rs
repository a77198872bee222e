//! What the cards of the panels show, row by row.

use vstd::prelude::*;

use super::canvas::{fitting, CanvasModel, SidebarCell, SidebarColor};
use super::laws::{
    has_row, names_end_at_their_at_sign, reads, the_countdown_says_hours_and_minutes,
    titles_stand_after_their_dot,
};
use super::panels::{
    account_drawn, account_rows, accounts_drawn, before_at, card_color, days_text, entry_drawn,
    entry_lines, entry_text, five_hour_drawn, headed, hours_text, minutes_left, percent_text,
    reduced, share_color, shortcut_drawn, shortcuts_panel, status_color, title_drawn, usage_panel,
    usage_rows, weekly_drawn, window_drawn, BarFill, PanelModel,
};
use crate::sidebar::discovery::tab_session::ClaudeStatus;
use crate::sidebar::state::{AccountUsageModel, EntryModel};
use crate::sidebar::usage::api::{Timestamp, UsageData};
use crate::text::{decimal_text, shortened};

verus! {

/// The cell in a row and a column.
pub open spec fn cell_at(canvas: CanvasModel, row: int, col: int) -> SidebarCell {
    canvas.cells[row * canvas.cols + col]
}

/// Whether a row shows the same on two surfaces.
pub open spec fn same_row(before: CanvasModel, after: CanvasModel, row: int) -> bool {
    &&& before.cols == after.cols
    &&& before.cells.len() == after.cells.len()
    &&& forall|c: int|
        0 <= c < before.cols ==> before.cells[row * before.cols + c] == #[trigger] after.cells[row
            * before.cols + c]
}

proof fn places_differ(cols: int, r: int, c: int, row: int, col: int)
    requires
        0 <= c < cols,
        0 <= col < cols,
        r * cols + c == row * cols + col,
    ensures
        r == row,
        c == col,
{
    assert(r == row) by (nonlinear_arith)
        requires
            0 <= c < cols,
            0 <= col < cols,
            r * cols + c == row * cols + col,
    ;
}

proof fn row_in_surface(canvas: CanvasModel, row: int, last: int)
    requires
        has_row(canvas, last),
        0 <= row <= last,
    ensures
        has_row(canvas, row),
        row * canvas.cols >= 0,
        row * canvas.cols + canvas.cols <= canvas.cells.len(),
{
    let cols = canvas.cols as int;
    assert((row + 1) * cols <= (last + 1) * cols && row * cols >= 0 && (row + 1) * cols == row * cols
        + cols) by (nonlinear_arith)
        requires
            0 <= row <= last,
            cols >= 0,
    ;
}

proof fn text_keeps_other_rows(
    canvas: CanvasModel,
    row: int,
    col: u16,
    max_col: u16,
    text: Seq<char>,
    fg: SidebarColor,
    bg: SidebarColor,
    r: int,
)
    requires
        has_row(canvas, r),
        r != row,
        max_col <= canvas.cols,
    ensures
        same_row(canvas, canvas.text(row, col, max_col, text, fg, bg), r),
{
    let after = canvas.text(row, col, max_col, text, fg, bg);
    let cols = canvas.cols as int;
    row_in_surface(canvas, r, r);
    assert forall|c: int| 0 <= c < cols implies canvas.cells[r * cols + c]
        == #[trigger] after.cells[r * cols + c] by {
        let o = r * cols + c;
        let from = row * cols + col;
        if from <= o < from + fitting(text.len(), col, max_col) {
            places_differ(cols, r, c, row, col + (o - from));
        }
    }
}

proof fn bar_keeps_other_rows(
    canvas: CanvasModel,
    row: int,
    col: u16,
    width: u16,
    filled: u16,
    fill: SidebarColor,
    r: int,
)
    requires
        has_row(canvas, r),
        r != row,
    ensures
        same_row(canvas, canvas.bar(row, col, width, filled, fill), r),
{
    let after = canvas.bar(row, col, width, filled, fill);
    let cols = canvas.cols as int;
    row_in_surface(canvas, r, r);
    assert forall|c: int| 0 <= c < cols implies canvas.cells[r * cols + c]
        == #[trigger] after.cells[r * cols + c] by {
        let o = r * cols + c;
        let from = row * cols + col;
        if from <= o < from + fitting(width as nat, col, canvas.cols) {
            places_differ(cols, r, c, row, col + (o - from));
        }
    }
}

proof fn same_rows_read_alike(
    before: CanvasModel,
    after: CanvasModel,
    row: int,
    col: int,
    text: Seq<char>,
    fg: SidebarColor,
    bg: SidebarColor,
)
    requires
        same_row(before, after, row),
        reads(before, row, col, text, fg, bg),
        0 <= col,
        col + text.len() <= before.cols,
    ensures
        reads(after, row, col, text, fg, bg),
{
    assert forall|i: int| 0 <= i < text.len() implies after.cells[row * after.cols + col + i] == (
    SidebarCell { glyph: #[trigger] text[i] as u32, fg, bg }) by {
        let c = col + i;
        assert(after.cells[row * before.cols + c] == before.cells[row * before.cols + c]);
        assert(before.cells[row * before.cols + col + i] == (SidebarCell {
            glyph: text[i] as u32,
            fg,
            bg,
        }));
    }
}

proof fn window_keeps_other_rows(
    canvas: CanvasModel,
    row: int,
    label: Seq<char>,
    percent: u32,
    filled: u16,
    r: int,
)
    requires
        has_row(canvas, r),
        r != row,
        r != row + 1,
    ensures
        same_row(canvas, window_drawn(canvas, row, label, percent, filled), r),
{
    let max = reduced(canvas.cols, 1);
    let text = percent_text(percent);
    let first = canvas.text(row, 3, max, label, SidebarColor::Label, SidebarColor::CardBg);
    text_keeps_other_rows(
        canvas,
        row,
        3,
        max,
        label,
        SidebarColor::Label,
        SidebarColor::CardBg,
        r,
    );
    let at = reduced(max, text.len() as int);
    let second = first.text(row, at, max, text, share_color(percent), SidebarColor::CardBg);
    text_keeps_other_rows(
        first,
        row,
        at,
        max,
        text,
        share_color(percent),
        SidebarColor::CardBg,
        r,
    );
    bar_keeps_other_rows(second, row + 1, 3, reduced(max, 3), filled, share_color(percent), r);
}

proof fn five_hours_keep_other_rows(
    panel: PanelModel,
    data: UsageData,
    filled: u16,
    now: Timestamp,
    r: int,
)
    requires
        has_row(panel.canvas, r),
        r < panel.row || r > panel.row + 2,
    ensures
        same_row(panel.canvas, five_hour_drawn(panel, data, filled, now).canvas, r),
{
    let canvas = window_drawn(panel.canvas, panel.row, "5h window"@, data.utilization, filled);
    window_keeps_other_rows(panel.canvas, panel.row, "5h window"@, data.utilization, filled, r);
    if let Some(time) = data.resets_at {
        text_keeps_other_rows(
            canvas,
            panel.row + 2,
            3,
            reduced(canvas.cols, 1),
            hours_text(minutes_left(time, now)),
            SidebarColor::Dim,
            SidebarColor::CardBg,
            r,
        );
    }
}

proof fn weeks_keep_other_rows(
    panel: PanelModel,
    data: UsageData,
    filled: u16,
    now: Timestamp,
    r: int,
)
    requires
        has_row(panel.canvas, r),
        r < panel.row,
    ensures
        same_row(panel.canvas, weekly_drawn(panel, data, filled, now).canvas, r),
{
    if let Some(percent) = data.weekly_utilization {
        let canvas = window_drawn(panel.canvas, panel.row, "7d window"@, percent, filled);
        window_keeps_other_rows(panel.canvas, panel.row, "7d window"@, percent, filled, r);
        if let Some(time) = data.weekly_resets_at {
            text_keeps_other_rows(
                canvas,
                panel.row + 2,
                3,
                reduced(canvas.cols, 1),
                days_text(minutes_left(time, now)),
                SidebarColor::Dim,
                SidebarColor::CardBg,
                r,
            );
        }
    }
}

/// A card's background lies behind its rows and columns; what is written on it stays, and so does
/// everything beside it.
pub proof fn cards_lie_behind_their_text(
    canvas: CanvasModel,
    top: int,
    bottom: int,
    left: u16,
    right: u16,
    bg: SidebarColor,
    row: int,
    col: int,
)
    requires
        has_row(canvas, row),
        0 <= col < canvas.cols,
        right <= canvas.cols,
    ensures
        ({
            let cell = cell_at(canvas, row, col);
            let after = cell_at(canvas.card(top, bottom, left, right, bg), row, col);
            let inside = top <= row < bottom && left <= col < right;
            &&& inside && cell.glyph == 0 ==> after == (SidebarCell { bg, ..cell })
            &&& !inside || cell.glyph != 0 ==> after == cell
        }),
{
    places_inside(canvas, top, bottom, left, right, row, col);
    row_in_surface(canvas, row, row);
}

proof fn places_inside(
    canvas: CanvasModel,
    top: int,
    bottom: int,
    left: u16,
    right: u16,
    row: int,
    col: int,
)
    requires
        0 <= col < canvas.cols,
        right <= canvas.cols,
    ensures
        canvas.inside(canvas.offset(row, col), top, bottom, left, right) <==> top <= row < bottom
            && left <= col < right,
{
    let o = canvas.offset(row, col);
    if canvas.inside(o, top, bottom, left, right) {
        let (r, c) = choose|r: int, c: int|
            #![trigger canvas.offset(r, c)]
            top <= r < bottom && left <= c < right && o == canvas.offset(r, c);
        places_differ(canvas.cols as int, r, c, row, col);
    }
}

/// A stripe stands in one column of its rows and leaves all other cells as they are.
pub proof fn stripes_stand_in_their_column(
    canvas: CanvasModel,
    top: int,
    bottom: int,
    at: u16,
    row: int,
    col: int,
)
    requires
        has_row(canvas, row),
        0 <= col < canvas.cols,
        at < canvas.cols,
    ensures
        ({
            let cell = cell_at(canvas, row, col);
            let after = cell_at(canvas.stripe(top, bottom, at), row, col);
            &&& top <= row < bottom && col == at ==> after == (SidebarCell {
                glyph: '\u{2503}' as u32,
                fg: SidebarColor::Accent,
                bg: cell.bg,
            })
            &&& !(top <= row < bottom && col == at) ==> after == cell
        }),
{
    places_inside(canvas, top, bottom, at, (at + 1) as u16, row, col);
    row_in_surface(canvas, row, row);
}

/// A view that begins at a row shows in each of its rows what the surface has that many rows
/// further down.
pub proof fn views_show_their_rows(canvas: CanvasModel, first: nat, rows: nat, row: int, col: int)
    requires
        0 <= row < rows,
        0 <= col < canvas.cols,
        has_row(canvas, first + row),
    ensures
        canvas.window(first, rows).len() == rows * canvas.cols,
        canvas.window(first, rows)[row * canvas.cols + col] == cell_at(canvas, first + row, col),
{
    let cols = canvas.cols as int;
    assert(row * cols + col < cols * rows && row * cols >= 0 && (first + row) * cols == first * cols
        + row * cols && (first + row + 1) * cols == first * cols + row * cols + cols && first * cols
        >= 0 && cols * rows == rows * cols) by (nonlinear_arith)
        requires
            0 <= row < rows,
            0 <= col < cols,
            first >= 0,
    ;
}

/// A panel has its title in its second row, from the third column on, and a rule in its fourth
/// row, up to the last column but one.
pub proof fn panels_have_their_title(canvas: CanvasModel, title: Seq<char>, col: int)
    requires
        has_row(canvas, 3),
        2 + title.len() <= canvas.cols - 1,
        2 <= col < canvas.cols - 1,
    ensures
        reads(headed(canvas, title), 1, 2, title, SidebarColor::Header, SidebarColor::SidebarBg),
        cell_at(headed(canvas, title), 3, col).glyph == '\u{2500}' as u32,
        cell_at(headed(canvas, title), 3, col).fg == SidebarColor::Separator,
{
    row_in_surface(canvas, 1, 3);
    row_in_surface(canvas, 3, 3);
}

/// An account's card begins with the part of its name before the `@`, as far as there is room. Two
/// rows below stands the five-hour window; the weekly one stands a row after its end, and the card
/// ends a row before the next one.
pub proof fn account_cards_show_name_and_windows(
    panel: PanelModel,
    account: AccountUsageModel,
    fill: BarFill,
    now: Timestamp,
    name: Seq<char>,
    rest: Seq<char>,
)
    requires
        panel.row >= 0,
        has_row(panel.canvas, panel.row),
        account.account_name == name + seq!['@'] + rest,
        forall|i: int| 0 <= i < name.len() ==> #[trigger] name[i] != '@' && name[i] != '\0',
        name.len() <= panel.canvas.cols - 4,
        panel.canvas.cols >= 4,
    ensures
        ({
            let after = account_drawn(panel, account, fill, now);
            let first = if account.data.resets_at is Some {
                3int
            } else {
                2
            };
            let second = if account.data.weekly_utilization is None {
                0int
            } else if account.data.weekly_resets_at is Some {
                3
            } else {
                2
            };
            &&& reads(
                after.canvas,
                panel.row,
                3,
                name,
                SidebarColor::Value,
                SidebarColor::CardBg,
            )
            &&& after.row == panel.row + 2 + first + 1 + second + 1
        }),
{
    names_end_at_their_at_sign(name, rest);
    let max = reduced(panel.canvas.cols, 1);
    let short = shortened(before_at(account.account_name), reduced(panel.canvas.cols, 3) as nat);
    assert(short == name);
    row_in_surface(panel.canvas, panel.row, panel.row);
    let named = panel.canvas.text(
        panel.row,
        3,
        max,
        short,
        SidebarColor::Value,
        SidebarColor::CardBg,
    );
    assert(reads(named, panel.row, 3, name, SidebarColor::Value, SidebarColor::CardBg));
    let start = PanelModel { canvas: named, row: panel.row + 2 };
    let first = five_hour_drawn(start, account.data, fill.five_hour, now);
    five_hours_keep_other_rows(start, account.data, fill.five_hour, now, panel.row);
    let next = PanelModel { canvas: first.canvas, row: first.row + 1 };
    let second = weekly_drawn(next, account.data, fill.weekly, now);
    weeks_keep_other_rows(next, account.data, fill.weekly, now, panel.row);
    same_rows_read_alike(
        named,
        first.canvas,
        panel.row,
        3,
        name,
        SidebarColor::Value,
        SidebarColor::CardBg,
    );
    same_rows_read_alike(
        first.canvas,
        second.canvas,
        panel.row,
        3,
        name,
        SidebarColor::Value,
        SidebarColor::CardBg,
    );
    card_keeps_text(
        second.canvas,
        panel.row,
        second.row,
        max,
        SidebarColor::CardBg,
        panel.row,
        3,
        name,
        SidebarColor::Value,
    );
}

/// A card keeps the text on it, as long as that has the card's background.
proof fn card_keeps_text(
    canvas: CanvasModel,
    top: int,
    bottom: int,
    right: u16,
    bg: SidebarColor,
    row: int,
    col: int,
    text: Seq<char>,
    fg: SidebarColor,
)
    requires
        has_row(canvas, row),
        right <= canvas.cols,
        0 <= col,
        col + text.len() <= canvas.cols,
        reads(canvas, row, col, text, fg, bg),
    ensures
        reads(canvas.card(top, bottom, 2, right, bg), row, col, text, fg, bg),
{
    let after = canvas.card(top, bottom, 2, right, bg);
    assert forall|i: int| 0 <= i < text.len() implies after.cells[row * after.cols + col + i] == (
    SidebarCell { glyph: #[trigger] text[i] as u32, fg, bg }) by {
        cards_lie_behind_their_text(canvas, top, bottom, 2, right, bg, row, col + i);
        assert(canvas.cells[row * canvas.cols + col + i] == (SidebarCell {
            glyph: text[i] as u32,
            fg,
            bg,
        }));
    }
}

/// A stripe in the third column keeps the text behind it.
proof fn stripe_keeps_text(
    canvas: CanvasModel,
    top: int,
    bottom: int,
    row: int,
    col: int,
    text: Seq<char>,
    fg: SidebarColor,
    bg: SidebarColor,
)
    requires
        has_row(canvas, row),
        2 < canvas.cols,
        2 < col,
        col + text.len() <= canvas.cols,
        reads(canvas, row, col, text, fg, bg),
    ensures
        reads(canvas.stripe(top, bottom, 2), row, col, text, fg, bg),
{
    let after = canvas.stripe(top, bottom, 2);
    assert forall|i: int| 0 <= i < text.len() implies after.cells[row * after.cols + col + i] == (
    SidebarCell { glyph: #[trigger] text[i] as u32, fg, bg }) by {
        stripes_stand_in_their_column(canvas, top, bottom, 2, row, col + i);
        assert(canvas.cells[row * canvas.cols + col + i] == (SidebarCell {
            glyph: text[i] as u32,
            fg,
            bg,
        }));
    }
}

/// The card of a tab with a session shows a full dot in the colour of the session's status before
/// the tab's title; below it the folder, where it is known; and last the first 8 characters of the
/// session's identifier. All have the background of the card.
pub proof fn session_cards_show_title_folder_and_session(
    canvas: CanvasModel,
    row: int,
    entry: EntryModel,
    active: bool,
    hovered: bool,
)
    requires
        has_row(canvas, row + 2),
        row >= 0,
        entry.session is Some,
        entry.session->0.project.len() > 0,
        entry.session->0.session_id.len() >= 8,
        canvas.cols >= 5 + 8 + 1,
        6 + entry.title.len() <= canvas.cols - 1,
        5 + entry.session->0.project.len() <= canvas.cols - 1,
    ensures
        ({
            let session = entry.session->0;
            let drawn = entry_drawn(canvas, row, entry, active, hovered);
            let bg = if active {
                SidebarColor::CardActiveBg
            } else if hovered {
                SidebarColor::HoverBg
            } else {
                SidebarColor::CardBg
            };
            let dot = if session.status == ClaudeStatus::Working {
                SidebarColor::Yellow
            } else {
                SidebarColor::Green
            };
            &&& reads(drawn, row, 4, seq!['\u{25CF}'], dot, bg)
            &&& reads(drawn, row, 6, entry.title, SidebarColor::Value, bg)
            &&& reads(drawn, row + 1, 5, session.project, SidebarColor::Label, bg)
            &&& reads(drawn, row + 2, 5, session.session_id.take(8), SidebarColor::Dim, bg)
            &&& entry_lines(entry) == 3
        }),
{
    reveal_strlit("\u{25CF}");
    assert("\u{25CF}"@ =~= seq!['\u{25CF}']);
    let session = entry.session->0;
    let bg = card_color(active, hovered);
    let dot = status_color(session.status);
    let max = reduced(canvas.cols, 1);
    row_in_surface(canvas, row, row + 2);
    row_in_surface(canvas, row + 1, row + 2);
    row_in_surface(canvas, row + 2, row + 2);
    let cols = canvas.cols as int;
    let titled = title_drawn(
        canvas,
        row,
        "\u{25CF}"@,
        dot,
        entry.title,
        SidebarColor::Value,
        bg,
    );
    assert(reads(titled, row, 4, seq!['\u{25CF}'], dot, bg));
    assert(reads(titled, row, 6, entry.title, SidebarColor::Value, bg));
    let placed = titled.text(row + 1, 5, max, session.project, SidebarColor::Label, bg);
    text_keeps_other_rows(titled, row + 1, 5, max, session.project, SidebarColor::Label, bg, row);
    assert(reads(placed, row + 1, 5, session.project, SidebarColor::Label, bg));
    let short = session.session_id.take(8);
    let last = placed.text(row + 2, 5, max, short, SidebarColor::Dim, bg);
    text_keeps_other_rows(placed, row + 2, 5, max, short, SidebarColor::Dim, bg, row);
    text_keeps_other_rows(placed, row + 2, 5, max, short, SidebarColor::Dim, bg, row + 1);
    assert(shortened(session.session_id, 8) =~= short);
    assert(reads(last, row + 2, 5, short, SidebarColor::Dim, bg));
    let mark = seq!['\u{25CF}'];
    same_rows_read_alike(titled, placed, row, 4, mark, dot, bg);
    same_rows_read_alike(placed, last, row, 4, mark, dot, bg);
    same_rows_read_alike(titled, placed, row, 6, entry.title, SidebarColor::Value, bg);
    same_rows_read_alike(placed, last, row, 6, entry.title, SidebarColor::Value, bg);
    same_rows_read_alike(placed, last, row + 1, 5, session.project, SidebarColor::Label, bg);
    assert(entry_text(canvas, row, entry, bg) == last);
    let end = row + 3;
    card_keeps_text(last, row, end, max, bg, row, 4, mark, dot);
    card_keeps_text(last, row, end, max, bg, row, 6, entry.title, SidebarColor::Value);
    card_keeps_text(last, row, end, max, bg, row + 1, 5, session.project, SidebarColor::Label);
    card_keeps_text(last, row, end, max, bg, row + 2, 5, short, SidebarColor::Dim);
    let card = last.card(row, end, 2, max, bg);
    if active {
        stripe_keeps_text(card, row, end, row, 4, mark, dot, bg);
        stripe_keeps_text(card, row, end, row, 6, entry.title, SidebarColor::Value, bg);
        stripe_keeps_text(card, row, end, row + 1, 5, session.project, SidebarColor::Label, bg);
        stripe_keeps_text(card, row, end, row + 2, 5, short, SidebarColor::Dim, bg);
    }
}

/// The card of a tab without a session is one line: an empty dot and the title, both dim.
pub proof fn plain_cards_show_their_title(
    canvas: CanvasModel,
    row: int,
    entry: EntryModel,
    active: bool,
    hovered: bool,
)
    requires
        has_row(canvas, row),
        entry.session is None,
        6 + entry.title.len() <= canvas.cols - 1,
    ensures
        ({
            let drawn = entry_drawn(canvas, row, entry, active, hovered);
            let bg = if active {
                SidebarColor::CardActiveBg
            } else if hovered {
                SidebarColor::HoverBg
            } else {
                SidebarColor::CardBg
            };
            &&& reads(drawn, row, 4, seq!['\u{25CB}'], SidebarColor::Dim, bg)
            &&& reads(drawn, row, 6, entry.title, SidebarColor::Dim, bg)
            &&& entry_lines(entry) == 1
            &&& active ==> cell_at(drawn, row, 2).glyph == '\u{2503}' as u32
        }),
{
    reveal_strlit("\u{25CB}");
    assert("\u{25CB}"@ =~= seq!['\u{25CB}']);
    let bg = card_color(active, hovered);
    let max = reduced(canvas.cols, 1);
    row_in_surface(canvas, row, row);
    let mark = seq!['\u{25CB}'];
    let titled = title_drawn(
        canvas,
        row,
        "\u{25CB}"@,
        SidebarColor::Dim,
        entry.title,
        SidebarColor::Dim,
        bg,
    );
    assert(reads(titled, row, 4, mark, SidebarColor::Dim, bg));
    assert(reads(titled, row, 6, entry.title, SidebarColor::Dim, bg));
    card_keeps_text(titled, row, row + 1, max, bg, row, 4, mark, SidebarColor::Dim);
    card_keeps_text(titled, row, row + 1, max, bg, row, 6, entry.title, SidebarColor::Dim);
    let card = titled.card(row, row + 1, 2, max, bg);
    if active {
        stripe_keeps_text(card, row, row + 1, row, 4, mark, SidebarColor::Dim, bg);
        stripe_keeps_text(card, row, row + 1, row, 6, entry.title, SidebarColor::Dim, bg);
        stripes_stand_in_their_column(card, row, row + 1, 2, row, 2);
    }
}

/// A card's background changes no row but its own.
proof fn card_keeps_other_rows(
    canvas: CanvasModel,
    top: int,
    bottom: int,
    right: u16,
    bg: SidebarColor,
    r: int,
)
    requires
        has_row(canvas, r),
        right <= canvas.cols,
        r < top || r >= bottom,
    ensures
        same_row(canvas, canvas.card(top, bottom, 2, right, bg), r),
{
    let after = canvas.card(top, bottom, 2, right, bg);
    let cols = canvas.cols as int;
    row_in_surface(canvas, r, r);
    assert forall|c: int| 0 <= c < cols implies canvas.cells[r * cols + c]
        == #[trigger] after.cells[r * cols + c] by {
        cards_lie_behind_their_text(canvas, top, bottom, 2, right, bg, r, c);
    }
}

proof fn account_keeps_earlier_rows(
    panel: PanelModel,
    account: AccountUsageModel,
    fill: BarFill,
    now: Timestamp,
    r: int,
)
    requires
        has_row(panel.canvas, r),
        r < panel.row,
    ensures
        same_row(panel.canvas, account_drawn(panel, account, fill, now).canvas, r),
        account_drawn(panel, account, fill, now).row == panel.row + account_rows(account.data),
{
    let max = reduced(panel.canvas.cols, 1);
    let short = shortened(before_at(account.account_name), reduced(panel.canvas.cols, 3) as nat);
    let named = panel.canvas.text(
        panel.row,
        3,
        max,
        short,
        SidebarColor::Value,
        SidebarColor::CardBg,
    );
    text_keeps_other_rows(
        panel.canvas,
        panel.row,
        3,
        max,
        short,
        SidebarColor::Value,
        SidebarColor::CardBg,
        r,
    );
    let start = PanelModel { canvas: named, row: panel.row + 2 };
    let first = five_hour_drawn(start, account.data, fill.five_hour, now);
    five_hours_keep_other_rows(start, account.data, fill.five_hour, now, r);
    let next = PanelModel { canvas: first.canvas, row: first.row + 1 };
    let second = weekly_drawn(next, account.data, fill.weekly, now);
    weeks_keep_other_rows(next, account.data, fill.weekly, now, r);
    card_keeps_other_rows(second.canvas, panel.row, second.row, max, SidebarColor::CardBg, r);
}

/// With `h` hours and `m` minutes left, an account's card says so in its fifth row.
pub proof fn account_cards_count_down(
    panel: PanelModel,
    account: AccountUsageModel,
    fill: BarFill,
    now: Timestamp,
    h: nat,
    m: nat,
)
    requires
        panel.row >= 0,
        has_row(panel.canvas, panel.row + 4),
        m < 60,
        account.data.resets_at is Some,
        ({
            let time = account.data.resets_at->0;
            let left = (time.secs - now.secs) * 1_000_000_000 + (time.nanos - now.nanos);
            (60 * h + m) * 60_000_000_000 <= left < (60 * h + m + 1) * 60_000_000_000
        }),
        3 + 2 + decimal_text(h).len() + 2 + decimal_text(m).len() + 1 <= panel.canvas.cols - 1,
    ensures
        reads(
            account_drawn(panel, account, fill, now).canvas,
            panel.row + 4,
            3,
            seq!['\u{21BB}', ' '] + decimal_text(h) + seq!['h', ' '] + decimal_text(m) + seq!['m'],
            SidebarColor::Dim,
            SidebarColor::CardBg,
        ),
{
    let text = seq!['\u{21BB}', ' '] + decimal_text(h) + seq!['h', ' '] + decimal_text(m) + seq!['m'];
    let max = reduced(panel.canvas.cols, 1);
    let short = shortened(before_at(account.account_name), reduced(panel.canvas.cols, 3) as nat);
    let named = panel.canvas.text(
        panel.row,
        3,
        max,
        short,
        SidebarColor::Value,
        SidebarColor::CardBg,
    );
    let start = PanelModel { canvas: named, row: panel.row + 2 };
    let first = five_hour_drawn(start, account.data, fill.five_hour, now);
    the_countdown_says_hours_and_minutes(
        start,
        account.data,
        fill.five_hour,
        now,
        h,
        m,
    );
    let next = PanelModel { canvas: first.canvas, row: first.row + 1 };
    let second = weekly_drawn(next, account.data, fill.weekly, now);
    weeks_keep_other_rows(next, account.data, fill.weekly, now, panel.row + 4);
    same_rows_read_alike(
        first.canvas,
        second.canvas,
        panel.row + 4,
        3,
        text,
        SidebarColor::Dim,
        SidebarColor::CardBg,
    );
    card_keeps_text(
        second.canvas,
        panel.row,
        second.row,
        max,
        SidebarColor::CardBg,
        panel.row + 4,
        3,
        text,
        SidebarColor::Dim,
    );
}

/// Cards from the `n`th on change no row above them.
proof fn later_accounts_keep_earlier_rows(
    panel: PanelModel,
    accounts: Seq<AccountUsageModel>,
    fills: Seq<BarFill>,
    now: Timestamp,
    n: int,
    m: int,
    r: int,
)
    requires
        0 <= n <= m,
        has_row(panel.canvas, r),
        r < accounts_drawn(panel, accounts, fills, now, n).row,
    ensures
        same_row(
            accounts_drawn(panel, accounts, fills, now, n).canvas,
            accounts_drawn(panel, accounts, fills, now, m).canvas,
            r,
        ),
        accounts_drawn(panel, accounts, fills, now, n).row <= accounts_drawn(
            panel,
            accounts,
            fills,
            now,
            m,
        ).row,
        accounts_drawn(panel, accounts, fills, now, m).canvas.cols == panel.canvas.cols,
        accounts_drawn(panel, accounts, fills, now, m).canvas.cells.len()
            == panel.canvas.cells.len(),
    decreases m,
{
    if n < m {
        later_accounts_keep_earlier_rows(panel, accounts, fills, now, n, m - 1, r);
        let before = accounts_drawn(panel, accounts, fills, now, m - 1);
        let card = account_drawn(before, accounts[m - 1], fills[m - 1], now);
        account_keeps_earlier_rows(before, accounts[m - 1], fills[m - 1], now, r);
        if m < accounts.len() {
            let max = reduced(card.canvas.cols, 1);
            text_keeps_other_rows(
                card.canvas,
                card.row,
                3,
                max,
                Seq::new(
                    fitting(0xffff, 3, max) as nat,
                    |i: int| '\u{2500}',
                ),
                SidebarColor::Separator,
                SidebarColor::SidebarBg,
                r,
            );
        }
    } else {
        accounts_keep_the_surface(panel, accounts, fills, now, m);
    }
}

proof fn accounts_keep_the_surface(
    panel: PanelModel,
    accounts: Seq<AccountUsageModel>,
    fills: Seq<BarFill>,
    now: Timestamp,
    n: int,
)
    ensures
        accounts_drawn(panel, accounts, fills, now, n).canvas.cols == panel.canvas.cols,
        accounts_drawn(panel, accounts, fills, now, n).canvas.cells.len()
            == panel.canvas.cells.len(),
    decreases n,
{
    if n > 0 {
        accounts_keep_the_surface(panel, accounts, fills, now, n - 1);
    }
}

/// The usage panel counts the accounts in its title. Every account whose window of five hours is
/// known to be reset has its own countdown, four rows below the beginning of its card.
pub proof fn every_account_counts_down(
    canvas: CanvasModel,
    accounts: Seq<AccountUsageModel>,
    fills: Seq<BarFill>,
    now: Timestamp,
    i: int,
    h: nat,
    m: nat,
)
    requires
        0 <= i < accounts.len(),
        has_row(canvas, usage_rows(accounts, i) + 4),
        m < 60,
        accounts[i].data.resets_at is Some,
        ({
            let time = accounts[i].data.resets_at->0;
            let left = (time.secs - now.secs) * 1_000_000_000 + (time.nanos - now.nanos);
            (60 * h + m) * 60_000_000_000 <= left < (60 * h + m + 1) * 60_000_000_000
        }),
        3 + 2 + decimal_text(h).len() + 2 + decimal_text(m).len() + 1 <= canvas.cols - 1,
        2 + 8 + decimal_text(accounts.len()).len() <= canvas.cols - 1,
    ensures
        reads(
            usage_panel(canvas, accounts, fills, now).canvas,
            usage_rows(accounts, i) + 4,
            3,
            seq!['\u{21BB}', ' '] + decimal_text(h) + seq!['h', ' '] + decimal_text(m) + seq!['m'],
            SidebarColor::Dim,
            SidebarColor::CardBg,
        ),
        reads(
            usage_panel(canvas, accounts, fills, now).canvas,
            1,
            2,
            seq!['U', 'S', 'A', 'G', 'E', ' ', '('] + decimal_text(accounts.len()) + seq![')'],
            SidebarColor::Header,
            SidebarColor::SidebarBg,
        ),
{
    reveal_strlit("USAGE (");
    reveal_strlit(")");
    assert("USAGE ("@ =~= seq!['U', 'S', 'A', 'G', 'E', ' ', '(']);
    assert(")"@ =~= seq![')']);
    let title = "USAGE ("@ + decimal_text(accounts.len()) + ")"@;
    let text = seq!['\u{21BB}', ' '] + decimal_text(h) + seq!['h', ' '] + decimal_text(m) + seq!['m'];
    let start = PanelModel { canvas: headed(canvas, title), row: 5 };
    let row = usage_rows(accounts, i) + 4;
    let len = accounts.len() as int;
    accounts_take_their_rows(start, accounts, fills, now, i);
    accounts_take_their_rows(start, accounts, fills, now, i + 1);
    accounts_keep_the_surface(start, accounts, fills, now, i);
    accounts_keep_the_surface(start, accounts, fills, now, i + 1);
    row_in_surface(canvas, 3, row);
    row_in_surface(canvas, 1, row);
    panels_have_their_title(canvas, title, 2);
    later_accounts_keep_earlier_rows(start, accounts, fills, now, 0, len, 1);
    same_rows_read_alike(
        start.canvas,
        accounts_drawn(start, accounts, fills, now, len).canvas,
        1,
        2,
        title,
        SidebarColor::Header,
        SidebarColor::SidebarBg,
    );
    let before = accounts_drawn(start, accounts, fills, now, i);
    let card = account_drawn(before, accounts[i], fills[i], now);
    account_cards_count_down(before, accounts[i], fills[i], now, h, m);
    let after = accounts_drawn(start, accounts, fills, now, i + 1);
    if i + 1 < accounts.len() {
        let max = reduced(card.canvas.cols, 1);
        text_keeps_other_rows(
            card.canvas,
            card.row,
            3,
            max,
            Seq::new(fitting(0xffff, 3, max) as nat, |i: int| '\u{2500}'),
            SidebarColor::Separator,
            SidebarColor::SidebarBg,
            row,
        );
    }
    same_rows_read_alike(
        card.canvas,
        after.canvas,
        row,
        3,
        text,
        SidebarColor::Dim,
        SidebarColor::CardBg,
    );
    later_accounts_keep_earlier_rows(start, accounts, fills, now, i + 1, len, row);
    same_rows_read_alike(
        after.canvas,
        accounts_drawn(start, accounts, fills, now, len).canvas,
        row,
        3,
        text,
        SidebarColor::Dim,
        SidebarColor::CardBg,
    );
}

proof fn accounts_take_their_rows(
    panel: PanelModel,
    accounts: Seq<AccountUsageModel>,
    fills: Seq<BarFill>,
    now: Timestamp,
    n: int,
)
    requires
        panel.row == 5,
        0 <= n <= accounts.len(),
    ensures
        accounts_drawn(panel, accounts, fills, now, n).row == usage_rows(accounts, n),
        usage_rows(accounts, n) >= 5,
    decreases n,
{
    if n > 0 {
        accounts_take_their_rows(panel, accounts, fills, now, n - 1);
    }
}

/// The panel with the shortcuts tells each one and what it does, in every other row from the sixth
/// on.
pub proof fn the_shortcuts_are_told(canvas: CanvasModel)
    requires
        has_row(canvas, 13),
        8 + 14 <= canvas.cols - 1,
    ensures
        ({
            let shown = shortcuts_panel(canvas).canvas;
            let key = SidebarColor::Header;
            let says = SidebarColor::Label;
            let bg = SidebarColor::SidebarBg;
            &&& reads(shown, 1, 2, "SHORTCUTS"@, key, bg)
            &&& reads(shown, 5, 3, seq!['\u{2318}', 'B'], key, bg)
            &&& reads(shown, 5, 8, "Toggle sidebar"@, says, bg)
            &&& reads(shown, 7, 3, seq!['\u{2318}', '\u{21E7}', 'B'], key, bg)
            &&& reads(shown, 7, 8, "Cycle panel"@, says, bg)
            &&& reads(shown, 9, 3, seq!['\u{2318}', 'T'], key, bg)
            &&& reads(shown, 9, 8, "New tab"@, says, bg)
            &&& reads(shown, 11, 3, seq!['\u{2318}', 'W'], key, bg)
            &&& reads(shown, 11, 8, "Close tab"@, says, bg)
            &&& reads(shown, 13, 3, seq!['\u{2318}', '\u{21E7}', 'R'], key, bg)
            &&& reads(shown, 13, 8, "Rename tab"@, says, bg)
        }),
{
    reveal_strlit("SHORTCUTS");
    reveal_strlit("\u{2318}B");
    reveal_strlit("Toggle sidebar");
    reveal_strlit("\u{2318}\u{21E7}B");
    reveal_strlit("Cycle panel");
    reveal_strlit("\u{2318}T");
    reveal_strlit("New tab");
    reveal_strlit("\u{2318}W");
    reveal_strlit("Close tab");
    reveal_strlit("\u{2318}\u{21E7}R");
    reveal_strlit("Rename tab");
    assert("\u{2318}B"@ =~= seq!['\u{2318}', 'B']);
    assert("\u{2318}\u{21E7}B"@ =~= seq!['\u{2318}', '\u{21E7}', 'B']);
    assert("\u{2318}T"@ =~= seq!['\u{2318}', 'T']);
    assert("\u{2318}W"@ =~= seq!['\u{2318}', 'W']);
    assert("\u{2318}\u{21E7}R"@ =~= seq!['\u{2318}', '\u{21E7}', 'R']);
    row_in_surface(canvas, 3, 13);
    panels_have_their_title(canvas, "SHORTCUTS"@, 2);
    let start = headed(canvas, "SHORTCUTS"@);
    let key = SidebarColor::Header;
    let bg = SidebarColor::SidebarBg;
    let first = shortcut_drawn(start, 5, "\u{2318}B"@, "Toggle sidebar"@);
    shortcut_stands_in_its_row(start, 5, "\u{2318}B"@, "Toggle sidebar"@);
    shortcut_keeps_text(start, 5, "\u{2318}B"@, "Toggle sidebar"@, 1, 2, "SHORTCUTS"@, key);
    let second = shortcut_drawn(first, 7, "\u{2318}\u{21E7}B"@, "Cycle panel"@);
    shortcut_stands_in_its_row(first, 7, "\u{2318}\u{21E7}B"@, "Cycle panel"@);
    told_above(first, 7, "\u{2318}\u{21E7}B"@, "Cycle panel"@, 5, "\u{2318}B"@, "Toggle sidebar"@);
    shortcut_keeps_text(
        first,
        7,
        "\u{2318}\u{21E7}B"@,
        "Cycle panel"@,
        1,
        2,
        "SHORTCUTS"@,
        key,
    );
    let third = shortcut_drawn(second, 9, "\u{2318}T"@, "New tab"@);
    shortcut_stands_in_its_row(second, 9, "\u{2318}T"@, "New tab"@);
    shortcut_keeps_text(second, 9, "\u{2318}T"@, "New tab"@, 1, 2, "SHORTCUTS"@, key);
    told_above(second, 9, "\u{2318}T"@, "New tab"@, 5, "\u{2318}B"@, "Toggle sidebar"@);
    told_above(second, 9, "\u{2318}T"@, "New tab"@, 7, "\u{2318}\u{21E7}B"@, "Cycle panel"@);
    let fourth = shortcut_drawn(third, 11, "\u{2318}W"@, "Close tab"@);
    shortcut_stands_in_its_row(third, 11, "\u{2318}W"@, "Close tab"@);
    shortcut_keeps_text(third, 11, "\u{2318}W"@, "Close tab"@, 1, 2, "SHORTCUTS"@, key);
    told_above(third, 11, "\u{2318}W"@, "Close tab"@, 5, "\u{2318}B"@, "Toggle sidebar"@);
    told_above(third, 11, "\u{2318}W"@, "Close tab"@, 7, "\u{2318}\u{21E7}B"@, "Cycle panel"@);
    told_above(third, 11, "\u{2318}W"@, "Close tab"@, 9, "\u{2318}T"@, "New tab"@);
    let last = "\u{2318}\u{21E7}R"@;
    shortcut_stands_in_its_row(fourth, 13, last, "Rename tab"@);
    shortcut_keeps_text(fourth, 13, last, "Rename tab"@, 1, 2, "SHORTCUTS"@, key);
    told_above(fourth, 13, last, "Rename tab"@, 5, "\u{2318}B"@, "Toggle sidebar"@);
    told_above(fourth, 13, last, "Rename tab"@, 7, "\u{2318}\u{21E7}B"@, "Cycle panel"@);
    told_above(fourth, 13, last, "Rename tab"@, 9, "\u{2318}T"@, "New tab"@);
    told_above(fourth, 13, last, "Rename tab"@, 11, "\u{2318}W"@, "Close tab"@);
}

/// A shortcut in a row.
spec fn told(canvas: CanvasModel, row: int, keys: Seq<char>, meaning: Seq<char>) -> bool {
    &&& reads(canvas, row, 3, keys, SidebarColor::Header, SidebarColor::SidebarBg)
    &&& reads(canvas, row, 8, meaning, SidebarColor::Label, SidebarColor::SidebarBg)
}

proof fn shortcut_stands_in_its_row(
    canvas: CanvasModel,
    row: int,
    keys: Seq<char>,
    meaning: Seq<char>,
)
    requires
        has_row(canvas, 13),
        0 <= row <= 13,
        keys.len() <= 5,
        8 + meaning.len() <= canvas.cols - 1,
    ensures
        told(shortcut_drawn(canvas, row, keys, meaning), row, keys, meaning),
        shortcut_drawn(canvas, row, keys, meaning).cols == canvas.cols,
        shortcut_drawn(canvas, row, keys, meaning).cells.len() == canvas.cells.len(),
{
    row_in_surface(canvas, row, 13);
    titles_stand_after_their_dot(
        canvas,
        row,
        ' ',
        SidebarColor::Dim,
        Seq::empty(),
        SidebarColor::Dim,
        SidebarColor::Dim,
        keys,
        meaning,
    );
}

proof fn shortcut_keeps_text(
    canvas: CanvasModel,
    row: int,
    keys: Seq<char>,
    meaning: Seq<char>,
    r: int,
    col: int,
    text: Seq<char>,
    fg: SidebarColor,
)
    requires
        has_row(canvas, 13),
        0 <= r <= 13,
        r != row,
        0 <= col,
        col + text.len() <= canvas.cols,
        reads(canvas, r, col, text, fg, SidebarColor::SidebarBg),
    ensures
        reads(
            shortcut_drawn(canvas, row, keys, meaning),
            r,
            col,
            text,
            fg,
            SidebarColor::SidebarBg,
        ),
{
    let max = reduced(canvas.cols, 1);
    let bg = SidebarColor::SidebarBg;
    row_in_surface(canvas, r, 13);
    let first = canvas.text(row, 3, max, keys, SidebarColor::Header, bg);
    text_keeps_other_rows(canvas, row, 3, max, keys, SidebarColor::Header, bg, r);
    text_keeps_other_rows(first, row, 8, max, meaning, SidebarColor::Label, bg, r);
    same_rows_read_alike(canvas, first, r, col, text, fg, bg);
    same_rows_read_alike(
        first,
        shortcut_drawn(canvas, row, keys, meaning),
        r,
        col,
        text,
        fg,
        bg,
    );
}

proof fn told_above(
    canvas: CanvasModel,
    row: int,
    keys: Seq<char>,
    meaning: Seq<char>,
    r: int,
    above: Seq<char>,
    said: Seq<char>,
)
    requires
        has_row(canvas, 13),
        0 <= r < row <= 13,
        above.len() <= 5,
        8 + said.len() <= canvas.cols - 1,
        told(canvas, r, above, said),
    ensures
        told(shortcut_drawn(canvas, row, keys, meaning), r, above, said),
{
    shortcut_keeps_text(canvas, row, keys, meaning, r, 3, above, SidebarColor::Header);
    shortcut_keeps_text(canvas, row, keys, meaning, r, 8, said, SidebarColor::Label);
}

} // verus!
