//! What the user's actions do to the windows.

use vstd::prelude::*;

use super::keys::{key_bytes, Key, NamedKey};
use super::state::{
    scan_noted, surviving, surviving_from_the_end, tab_entries, usage_noted, AppModel,
};
use super::tab::{moves_to, rename_text, repeated, TabModel};
use crate::selection::Selection;
use crate::sidebar::discovery::tab_session::SessionModel;
use crate::sidebar::layout::panels::{
    entry_hits, entry_lines, scrolled, session_rows, visible_hits,
};
use crate::sidebar::state::{tab_at, AccountUsageModel, EntryModel, SidebarHitEntry};
use crate::sidebar::usage::api::UsageData;
use crate::sidebar::usage::poller::UsageUpdate;
use crate::text::decimal_text;

verus! {

/// A tab without a name of its own is called by the topic of its session, of which the first 40
/// characters are taken; without one by the title that the program has set; and without either by
/// its number, counted from 1.
pub proof fn titles_are_taken_in_order(tab: TabModel, index: nat)
    requires
        tab.custom_title is None,
    ensures
        ({
            let topic = match tab.session {
                Some(session) => session.topic,
                None => Seq::<char>::empty(),
            };
            let title = tab.title(index as int);
            &&& 0 < topic.len() <= 40 ==> title == topic
            &&& topic.len() > 40 ==> title.len() == 40 && title == topic.take(40)
            &&& topic.len() == 0 && tab.screen.term.window_title.len() > 0 ==> title
                == tab.screen.term.window_title
            &&& topic.len() == 0 && tab.screen.term.window_title.len() == 0 ==> title == seq![
                'T',
                'a',
                'b',
                ' ',
            ] + decimal_text(index + 1)
        }),
{
    reveal_strlit("Tab ");
    assert("Tab "@ =~= seq!['T', 'a', 'b', ' ']);
}

/// While a tab is being renamed its title is `Rename: `, the name so far and an underscore.
pub proof fn the_typed_name_is_shown(name: Seq<char>)
    ensures
        rename_text(name) == seq!['R', 'e', 'n', 'a', 'm', 'e', ':', ' '] + name + seq!['_'],
{
    reveal_strlit("Rename: ");
    reveal_strlit("_");
    assert("Rename: "@ =~= seq!['R', 'e', 'n', 'a', 'm', 'e', ':', ' ']);
    assert("_"@ =~= seq!['_']);
}

/// While a name is typed, characters and blanks are put to its end, backspace takes the last one
/// away again, enter makes it the tab's name, and escape leaves the tab's name as it was. Keys of
/// other kinds do nothing; no key touches another tab.
pub proof fn names_are_typed(app: AppModel, typed: String, other: int)
    requires
        app.active < app.tabs.len(),
        app.tabs[app.active as int].edited is Some,
    ensures
        ({
            let i = app.active as int;
            let name = app.tabs[i].edited->0;
            let written = app.name_edited(Key::Character(typed)).tabs[i];
            let blank = app.name_edited(Key::Named(NamedKey::Space)).tabs[i];
            let erased = app.name_edited(Key::Named(NamedKey::Backspace)).tabs[i];
            let entered = app.name_edited(Key::Named(NamedKey::Enter)).tabs[i];
            let left = app.name_edited(Key::Named(NamedKey::Escape)).tabs[i];
            &&& written.edited == Some(name + typed@)
            &&& blank.edited == Some(name.push(' '))
            &&& name.len() > 0 ==> erased.edited == Some(name.take(name.len() - 1))
            &&& name.len() == 0 ==> erased.edited == Some(name)
            &&& entered.edited is None && left.edited is None
            &&& name.len() > 0 ==> entered.custom_title == Some(name)
            &&& name.len() == 0 ==> entered.custom_title == app.tabs[i].custom_title
            &&& left.custom_title == app.tabs[i].custom_title
            &&& app.name_edited(Key::Named(NamedKey::Tab)) == app
            &&& app.name_edited(Key::Named(NamedKey::ArrowLeft)) == app
            &&& app.name_edited(Key::Unidentified) == app
        }),
        other != app.active && 0 <= other < app.tabs.len() ==> {
            &&& app.name_edited(Key::Character(typed)).tabs[other] == app.tabs[other]
            &&& app.name_edited(Key::Named(NamedKey::Enter)).tabs[other] == app.tabs[other]
            &&& app.name_edited(Key::Named(NamedKey::Escape)).tabs[other] == app.tabs[other]
            &&& app.name_edited(Key::Named(NamedKey::Backspace)).tabs[other] == app.tabs[other]
        },
{
    reveal_strlit(" ");
    let name = app.tabs[app.active as int].edited->0;
    assert(name + " "@ =~= name.push(' '));
    if name.len() > 0 {
        assert(name.drop_last() =~= name.take(name.len() - 1));
    }
}

/// Scrolling a view by some lines into the history shows every line that many rows lower than
/// before, as far as the history reaches.
pub proof fn scrolling_shows_earlier_lines(tab: TabModel, lines: nat, row: int)
    requires
        tab.scroll_offset + lines <= tab.screen.grid.history.len(),
        row >= lines,
    ensures
        ({
            let after = tab.scrolled(-lines);
            &&& after.screen.grid == tab.screen.grid
            &&& tab.screen.grid.viewport_line(row, after.scroll_offset)
                == tab.screen.grid.viewport_line(row - lines, tab.scroll_offset)
        }),
{
    let grid = tab.screen.grid;
    let before = grid.history.skip(grid.history.len() - tab.scroll_offset) + grid.lines;
    let after = grid.history.skip(grid.history.len() - tab.scroll_offset - lines) + grid.lines;
    assert(after.len() == before.len() + lines);
    if row < after.len() {
        assert(after[row] == before[row - lines]);
    }
}

/// Scrolling beyond the oldest line shows it at the top; scrolling back beyond the live screen
/// shows the live screen.
pub proof fn scrolling_stops_at_both_ends(tab: TabModel, lines: nat)
    requires
        tab.scroll_offset <= tab.screen.grid.history.len(),
    ensures
        tab.scroll_offset + lines >= tab.screen.grid.history.len() ==> tab.scrolled(
            -lines,
        ).scroll_offset == tab.screen.grid.history.len() || lines == 0,
        lines >= tab.scroll_offset ==> tab.scrolled(lines as int).scroll_offset == 0,
        tab.scrolled(0) == tab,
{
}

/// Output that comes while the view is in the history brings the view back to the live screen, and
/// has all rows drawn again. No output changes nothing.
pub proof fn output_shows_the_live_screen(tab: TabModel, data: Seq<u8>)
    ensures
        data.len() > 0 ==> tab.fed_with(data).scroll_offset == 0,
        data.len() > 0 && tab.scroll_offset > 0 ==> forall|row: int|
            0 <= row < 256 ==> #[trigger] tab.fed_with(data).screen.dirty.contains(row),
        data.len() > 0 ==> tab.fed_with(data).screen.grid == tab.feed().processed(data).screen.grid,
        data.len() > 0 ==> tab.fed_with(data).screen.term == tab.feed().processed(data).screen.term,
        data.len() == 0 ==> tab.fed_with(data) == tab,
{
}

/// After a resize the cursor stands where it stood, if there still is such a cell, and else in the
/// last row or column; lines scroll on the whole screen, and all rows are drawn again.
pub proof fn resizing_keeps_the_cursor(tab: TabModel, cols: u16, rows: u16)
    requires
        cols > 0,
        rows > 0,
    ensures
        ({
            let after = tab.resized(cols, rows);
            let c = tab.screen.term.cursor;
            &&& c.row < rows ==> after.screen.term.cursor.row == c.row
            &&& c.row >= rows ==> after.screen.term.cursor.row == rows - 1
            &&& c.col < cols ==> after.screen.term.cursor.col == c.col
            &&& c.col >= cols ==> after.screen.term.cursor.col == cols - 1
            &&& after.screen.term.scroll_region == (0u16, rows)
            &&& after.cols == cols && after.rows == rows
            &&& after.scroll_offset == tab.scroll_offset
            &&& forall|row: int|
                0 <= row < 256 ==> #[trigger] after.screen.dirty.contains(row)
        }),
{
}

/// A click in the cursor's row sends as many presses of the right or the left arrow as there are
/// columns between; a click in another row, or on a view of the history, sends nothing.
pub proof fn clicks_press_arrows(tab: TabModel, row: int, col: int, i: int)
    ensures
        ({
            let c = tab.screen.term.cursor;
            let app = tab.screen.term.application_cursor_keys;
            let sent = moves_to(tab, row, col);
            let right = key_bytes(NamedKey::ArrowRight, app)->0;
            let left = key_bytes(NamedKey::ArrowLeft, app)->0;
            &&& tab.scroll_offset != 0 || row != c.row ==> sent.len() == 0
            &&& tab.scroll_offset == 0 && row == c.row && col >= c.col ==> sent.len() == 3 * (col
                - c.col) && (0 <= i < sent.len() ==> sent[i] == right[i % 3])
            &&& tab.scroll_offset == 0 && row == c.row && col <= c.col ==> sent.len() == 3 * (c.col
                - col) && (0 <= i < sent.len() ==> sent[i] == left[i % 3])
        }),
{
    let c = tab.screen.term.cursor;
    let app = tab.screen.term.application_cursor_keys;
    if col >= c.col {
        presses_repeat(key_bytes(NamedKey::ArrowRight, app)->0, (col - c.col) as nat);
    }
    if col <= c.col {
        presses_repeat(key_bytes(NamedKey::ArrowLeft, app)->0, (c.col - col) as nat);
    }
}

proof fn presses_repeat(bytes: Seq<u8>, count: nat)
    requires
        bytes.len() == 3,
    ensures
        repeated(bytes, count).len() == 3 * count,
        forall|i: int|
            0 <= i < 3 * count ==> #[trigger] repeated(bytes, count)[i] == bytes[i % 3],
    decreases count,
{
    if count > 0 {
        presses_repeat(bytes, (count - 1) as nat);
        let before = repeated(bytes, (count - 1) as nat);
        assert forall|i: int| 0 <= i < 3 * count implies #[trigger] repeated(bytes, count)[i]
            == bytes[i % 3] by {
            if i >= before.len() {
                assert(i - before.len() == i % 3);
            } else {
                assert(repeated(bytes, count)[i] == before[i]);
            }
        }
    }
}

/// The cursor changes between visible and not as soon as half a second has passed since it last
/// did, and no earlier; then its row in the active tab is drawn again.
pub proof fn the_cursor_blinks_twice_a_second(app: AppModel, now: u64)
    requires
        now >= app.blink_toggled,
    ensures
        now - app.blink_toggled < 500_000_000 ==> app.blinked(now) == app,
        now - app.blink_toggled >= 500_000_000 ==> {
            &&& app.blinked(now).blink_visible == !app.blink_visible
            &&& app.blinked(now).blink_toggled == now
            &&& app.active < app.tabs.len() && app.tabs[app.active as int].screen.term.cursor.row
                < 256 ==> app.blinked(now).tabs[app.active as int].screen.dirty.contains(
                app.tabs[app.active as int].screen.term.cursor.row as int,
            )
        },
{
}

/// A click on a card shows its tab. Where the card was clicked less than four tenths of a second
/// ago, it has the tab renamed too; where another card was, or earlier, it does not.
pub proof fn cards_are_clicked(app: AppModel, tab: usize, then: u64, before: usize, now: u64)
    requires
        app.last_click == Some((then, before)),
        now >= then,
        tab < app.tabs.len(),
    ensures
        ({
            let after = app.card_clicked(tab, now);
            &&& after.active == tab
            &&& before == tab && now - then < 400_000_000 ==> after.tabs[tab as int].edited == Some(
                Seq::<char>::empty(),
            ) && after.last_click is None
            &&& before != tab || now - then >= 400_000_000 ==> after.tabs == app.tabs
                && after.last_click == Some((now, tab))
            &&& app.active != tab ==> after.version > app.version
        }),
{
}

/// A drag selects from the cell where the button went down to the cell where the pointer is. A
/// button that comes up where it went down leaves nothing selected; elsewhere the selection stays.
pub proof fn drags_select(app: AppModel, i: int, r0: usize, c0: usize, r1: usize, c1: usize)
    requires
        0 <= i < app.tabs.len(),
    ensures
        ({
            let down = app.selection_begun(i, r0, c0);
            let moved = down.selection_dragged(i, r1, c1);
            let up = moved.mouse_released(i);
            let selected = Selection { start_row: r0, start_col: c0, end_row: r1, end_col: c1 };
            &&& down.selecting && moved.selecting && !up.selecting && !up.dragging
            &&& moved.selection == Some(selected)
            &&& r0 == r1 && c0 == c1 ==> up.selection is None
            &&& r0 != r1 || c0 != c1 ==> up.selection == Some(selected)
            &&& up.selection_dragged(i, r0, c1) == up
        }),
{
}

/// What is reported of an account's usage stands in the list under its name afterwards; what is
/// there of other accounts stays, in its place.
pub proof fn reported_usage_is_listed(
    accounts: Seq<AccountUsageModel>,
    name: Seq<char>,
    data: UsageData,
)
    ensures
        ({
            let after = usage_noted(accounts, name, data);
            &&& exists|k: int|
                0 <= k < after.len() && (#[trigger] after[k]).account_name == name && after[k].data
                    == data
            &&& forall|k: int|
                0 <= k < accounts.len() ==> (#[trigger] after[k]).account_name
                    == accounts[k].account_name && (accounts[k].account_name != name ==> after[k]
                    == accounts[k])
            &&& after.len() == accounts.len() + (if exists|k: int|
                0 <= k < accounts.len() && (#[trigger] accounts[k]).account_name == name {
                0int
            } else {
                1int
            })
        }),
    decreases accounts.len(),
{
    let after = usage_noted(accounts, name, data);
    if accounts.len() == 0 {
        assert(after[0].account_name == name);
    } else if accounts[0].account_name == name {
        assert(after[0].account_name == name);
    } else {
        let rest = accounts.drop_first();
        reported_usage_is_listed(rest, name, data);
        let next = usage_noted(rest, name, data);
        let k = choose|k: int|
            0 <= k < next.len() && (#[trigger] next[k]).account_name == name && next[k].data
                == data;
        assert(after[k + 1] == next[k]);
        assert forall|k: int| 0 <= k < accounts.len() implies (#[trigger] after[k]).account_name
            == accounts[k].account_name && (accounts[k].account_name != name ==> after[k]
            == accounts[k]) by {
            if k > 0 {
                assert(after[k] == next[k - 1]);
                assert(rest[k - 1] == accounts[k]);
            }
        }
        if exists|k: int| 0 <= k < accounts.len() && (#[trigger] accounts[k]).account_name == name {
            let k = choose|k: int|
                0 <= k < accounts.len() && (#[trigger] accounts[k]).account_name == name;
            assert(rest[k - 1].account_name == name);
        }
        if exists|k: int| 0 <= k < rest.len() && (#[trigger] rest[k]).account_name == name {
            let k = choose|k: int| 0 <= k < rest.len() && (#[trigger] rest[k]).account_name == name;
            assert(accounts[k + 1].account_name == name);
        }
    }
}

/// A session that was found below a shell is noted at the first tab of that shell, in place of
/// what was noted there; all else about the tabs stays.
pub proof fn found_sessions_are_noted(
    tabs: Seq<TabModel>,
    shell_pid: u32,
    session: Option<SessionModel>,
    i: int,
)
    requires
        0 <= i < tabs.len(),
    ensures
        ({
            let after = scan_noted(tabs, shell_pid, session);
            let first = tabs[i].shell_pid == shell_pid && forall|k: int|
                0 <= k < i ==> (#[trigger] tabs[k]).shell_pid != shell_pid;
            &&& after.len() == tabs.len()
            &&& first ==> after[i] == (TabModel { session, ..tabs[i] })
            &&& !first ==> after[i] == tabs[i]
        }),
    decreases tabs.len(),
{
    let after = scan_noted(tabs, shell_pid, session);
    if tabs[0].shell_pid == shell_pid {
        assert(i > 0 ==> after[i] == tabs[i]);
    } else if i > 0 {
        let rest = tabs.drop_first();
        found_sessions_are_noted(rest, shell_pid, session, i - 1);
        assert(after[i] == scan_noted(rest, shell_pid, session)[i - 1]);
        assert(rest[i - 1] == tabs[i]);
        if forall|k: int| 0 <= k < i ==> (#[trigger] tabs[k]).shell_pid != shell_pid {
            assert forall|k: int| 0 <= k < i - 1 implies (#[trigger] rest[k]).shell_pid
                != shell_pid by {
                assert(rest[k] == tabs[k + 1]);
            }
        }
        if forall|k: int| 0 <= k < i - 1 ==> (#[trigger] rest[k]).shell_pid != shell_pid {
            assert forall|k: int| 0 <= k < i implies (#[trigger] tabs[k]).shell_pid
                != shell_pid by {
                if k > 0 {
                    assert(rest[k - 1] == tabs[k]);
                }
            }
        }
    } else {
        let rest = tabs.drop_first();
        if rest.len() > 0 {
            found_sessions_are_noted(rest, shell_pid, session, 0);
        }
        assert(after[0] == tabs[0]);
    }
    same_number_of_tabs(tabs, shell_pid, session);
}

proof fn same_number_of_tabs(tabs: Seq<TabModel>, shell_pid: u32, session: Option<SessionModel>)
    ensures
        scan_noted(tabs, shell_pid, session).len() == tabs.len(),
    decreases tabs.len(),
{
    if tabs.len() > 0 {
        same_number_of_tabs(tabs.drop_first(), shell_pid, session);
    }
}

/// The tabs are listed in their order, each with its number, its title and its session.
pub proof fn tabs_are_listed_in_order(tabs: Seq<TabModel>, i: int)
    requires
        0 <= i < tabs.len() <= usize::MAX,
    ensures
        tab_entries(tabs).len() == tabs.len(),
        tab_entries(tabs)[i].tab_index == i,
        tab_entries(tabs)[i].title == tabs[i].title(i),
        tab_entries(tabs)[i].session == tabs[i].session,
{
}

/// The first card stands in the sixth row, and each other one a row after the end of the one
/// before. A row belongs to a tab where it is a row of that tab's card; the rows between cards
/// belong to none.
pub proof fn rows_belong_to_their_cards(entries: Seq<EntryModel>, i: int, row: u16)
    requires
        0 <= i < entries.len(),
        session_rows(entries, entries.len() as int) <= 0xffff,
        session_rows(entries, i) <= row,
        row <= session_rows(entries, i) + entry_lines(entries[i]),
    ensures
        session_rows(entries, 0) == 5,
        session_rows(entries, i + 1) == session_rows(entries, i) + entry_lines(entries[i]) + 1,
        row < session_rows(entries, i) + entry_lines(entries[i]) ==> tab_at(
            entry_hits(entries),
            row,
        ) == Some(entries[i].tab_index),
        row == session_rows(entries, i) + entry_lines(entries[i]) ==> tab_at(
            entry_hits(entries),
            row,
        ) is None,
{
    let hits = entry_hits(entries);
    assert forall|k: int| 0 <= k < hits.len() && k != i implies !(#[trigger] hits[k]).covers(
        row,
    ) by {
        cards_follow_each_other(entries, k, entries.len() as int);
        cards_follow_each_other(entries, i, entries.len() as int);
        if k < i {
            cards_follow_each_other(entries, k, i);
        } else {
            cards_follow_each_other(entries, i, k);
        }
    }
    cards_follow_each_other(entries, i, entries.len() as int);
    only_hit(hits, i, row);
}

proof fn cards_follow_each_other(entries: Seq<EntryModel>, k: int, n: int)
    requires
        0 <= k <= n,
    ensures
        k < n ==> session_rows(entries, k) + entry_lines(entries[k]) + 1 <= session_rows(
            entries,
            n,
        ),
        5 <= session_rows(entries, k) <= session_rows(entries, n),
    decreases n,
{
    if k < n {
        cards_follow_each_other(entries, k, n - 1);
    } else if n > 0 {
        cards_follow_each_other(entries, 0, n - 1);
    }
}

proof fn only_hit(hits: Seq<SidebarHitEntry>, i: int, row: u16)
    requires
        0 <= i < hits.len(),
        forall|k: int| 0 <= k < hits.len() && k != i ==> !(#[trigger] hits[k]).covers(row),
    ensures
        hits[i].covers(row) ==> tab_at(hits, row) == Some(hits[i].tab_index),
        !hits[i].covers(row) ==> tab_at(hits, row) is None,
    decreases hits.len(),
{
    let rest = hits.drop_first();
    assert forall|k: int| 0 <= k < rest.len() && k != i - 1 implies !(#[trigger] rest[k]).covers(
        row,
    ) by {
        assert(rest[k] == hits[k + 1]);
    }
    if i > 0 {
        only_hit(rest, i - 1, row);
        assert(rest[i - 1] == hits[i]);
        assert(!hits[0].covers(row));
    } else if rest.len() > 0 {
        assert forall|k: int| 0 <= k < rest.len() && k != 0 implies !(#[trigger] rest[k]).covers(
            row,
        ) by {}
        assert(!rest[0].covers(row));
        only_hit(rest, 0, row);
    } else {
        assert(tab_at(rest, row) is None);
    }
}

/// Characters go to the program in UTF-8; the other keys as the bytes that stand for them.
pub proof fn keys_reach_their_program(app: AppModel, i: int, typed: String, named: NamedKey)
    requires
        0 <= i < app.tabs.len(),
    ensures
        app.bytes_sent(i, Key::Character(typed)) == Some(vstd::utf8::encode_utf8(typed@)),
        app.bytes_sent(i, Key::Named(named)) == key_bytes(
            named,
            app.tabs[i].screen.term.application_cursor_keys,
        ),
        app.bytes_sent(i, Key::Unidentified) is None,
        app.bytes_sent(app.tabs.len() as int, Key::Named(named)) is None,
{
}

/// Text is pasted as it is where the program has not asked for brackets; no text is not pasted.
pub proof fn plain_pastes_are_plain(app: AppModel, i: int, text: Seq<char>)
    requires
        0 <= i < app.tabs.len(),
        !app.tabs[i].screen.term.bracketed_paste,
    ensures
        text.len() > 0 ==> app.bytes_pasted(i, text) == Some(vstd::utf8::encode_utf8(text)),
        app.bytes_pasted(i, Seq::empty()) is None,
{
}

/// A row of a scrolled sidebar belongs to the tab that the row of its content belongs to.
pub proof fn scrolled_rows_belong_to_their_cards(
    hits: Seq<SidebarHitEntry>,
    first: u16,
    rows: u16,
    row: u16,
)
    requires
        row < rows,
        first + row <= 0xffff,
    ensures
        tab_at(visible_hits(hits, first, rows), row) == tab_at(hits, (first + row) as u16),
    decreases hits.len(),
{
    if hits.len() > 0 {
        let before = hits.drop_last();
        scrolled_rows_belong_to_their_cards(before, first, rows, row);
        one_more_hit(before, hits.last(), (first + row) as u16);
        assert(before.push(hits.last()) =~= hits);
        one_more_hit(visible_hits(before, first, rows), scrolled(hits.last(), first), row);
    }
}

proof fn one_more_hit(hits: Seq<SidebarHitEntry>, last: SidebarHitEntry, row: u16)
    ensures
        tab_at(hits.push(last), row) == if tab_at(hits, row) is Some {
            tab_at(hits, row)
        } else if last.covers(row) {
            Some(last.tab_index)
        } else {
            None
        },
    decreases hits.len(),
{
    let all = hits.push(last);
    if hits.len() == 0 {
        assert(all.drop_first() =~= Seq::empty());
        assert(tab_at(all.drop_first(), row) is None);
    } else {
        one_more_hit(hits.drop_first(), last, row);
        assert(all.drop_first() =~= hits.drop_first().push(last));
    }
}

/// The tabs whose shells still run keep their order, and they are all of those that are left.
pub proof fn tabs_left_keep_their_order(tabs: Seq<TabModel>, alive: Seq<bool>, tab: TabModel)
    requires
        alive.len() == tabs.len(),
    ensures
        surviving(tabs.push(tab), alive.push(true)) == surviving(tabs, alive).push(tab),
        surviving(tabs.push(tab), alive.push(false)) == surviving(tabs, alive),
        surviving(Seq::empty(), Seq::empty()) == Seq::<TabModel>::empty(),
{
    surviving_from_the_end(tabs.push(tab), alive.push(true));
    surviving_from_the_end(tabs.push(tab), alive.push(false));
    assert(tabs.push(tab).drop_last() =~= tabs);
    assert(alive.push(true).drop_last() =~= alive);
    assert(alive.push(false).drop_last() =~= alive);
}

/// Where the active tab was the last one and tabs have gone, the last of those left is active;
/// otherwise the number of the active tab stays.
pub proof fn the_last_tab_takes_over(app: AppModel)
    ensures
        app.active < app.tabs.len() ==> app.active_kept() == app,
        0 < app.tabs.len() <= app.active ==> app.active_kept().active == app.tabs.len() - 1,
        app.active_kept().tabs == app.tabs,
{
}

/// The rename shortcut begins to rename the active tab with no name typed, and a second one takes
/// the name that was typed in between. Other tabs are not renamed.
pub proof fn the_rename_shortcut_begins_and_ends(app: AppModel, typed: Seq<char>, other: int)
    requires
        app.active < app.tabs.len(),
        typed.len() > 0,
    ensures
        ({
            let i = app.active as int;
            let after = app.rename_toggled();
            &&& app.tabs[i].edited is None ==> after.tabs[i].edited == Some(Seq::<char>::empty())
            &&& app.tabs[i].edited == Some(typed) ==> after.tabs[i].edited is None
                && after.tabs[i].custom_title == Some(typed)
            &&& other != i && 0 <= other < app.tabs.len() ==> after.tabs[other] == app.tabs[other]
        }),
{
}

/// What the pointer is on, or which tab is active, is noted, and where it has changed the sidebar
/// is drawn again.
pub proof fn changes_have_the_sidebar_drawn(app: AppModel, tab: Option<usize>, i: usize)
    ensures
        app.hovered_over(tab).sidebar.hovered == tab,
        app.sidebar.hovered != tab ==> app.hovered_over(tab).version == app.version + 1,
        app.sidebar.hovered == tab ==> app.hovered_over(tab) == app,
        app.focused(i).active == i,
        app.active != i ==> app.focused(i).version == app.version + 1,
        app.active == i ==> app.focused(i) == app,
        app.relisted().version == app.version + 1,
{
}

/// Usage that is reported ends an error that was reported before; an error leaves the usage that is
/// known.
pub proof fn reports_replace_errors(app: AppModel, name: String, data: UsageData, reason: String)
    ensures
        app.usage_reported(UsageUpdate::Data { account_name: name, data }).sidebar.usage_error
            is None,
        app.usage_reported(UsageUpdate::Data { account_name: name, data }).sidebar.accounts
            == usage_noted(app.sidebar.accounts, name@, data),
        app.usage_reported(UsageUpdate::Error(reason)).sidebar.usage_error == Some(reason@),
        app.usage_reported(UsageUpdate::Error(reason)).sidebar.accounts == app.sidebar.accounts,
        app.usage_reported(UsageUpdate::Error(reason)).tabs == app.tabs,
{
}

/// Scrolling and typing concern the window that they happen in alone.
pub proof fn other_windows_stay(app: AppModel, i: int, lines: int, other: int)
    requires
        0 <= i < app.tabs.len(),
        0 <= other < app.tabs.len(),
        other != i,
    ensures
        app.view_scrolled(i, lines).tabs[other] == app.tabs[other],
        app.view_scrolled(i, lines).tabs[i] == app.tabs[i].scrolled(lines),
        app.view_live(i).tabs[other] == app.tabs[other],
        app.view_live(i).tabs[i].scroll_offset == 0,
        app.view_scrolled(app.tabs.len() as int, lines) == app,
{
}

} // verus!
