use vstd::prelude::*;

use super::keys::{action_for, paste_begin, paste_end, Key, KeyAction, Modifiers};
use super::state::{surviving, AppModel, DOUBLE_CLICK_NANOS};
use super::tab::TabModel;
use crate::vt::laws::every_input_is_sound;

verus! {

/// Once a window was closed by its button, or shells have exited, the active tab is one of those
/// left, where any is.
pub proof fn the_active_tab_is_one_of_the_tabs(app: AppModel, i: int, alive: Seq<bool>)
    requires
        0 <= i < app.tabs.len(),
        app.active < app.tabs.len(),
        alive.len() == app.tabs.len(),
    ensures
        ({
            let closed = app.without_tab(i).relisted().active_kept();
            closed.tabs.len() > 0 ==> closed.active < closed.tabs.len()
        }),
        ({
            let left = app.without_dead(alive);
            left.tabs.len() > 0 ==> left.active < left.tabs.len()
        }),
{
}

/// The sessions panel lists every tab once, in order, under its title.
pub proof fn every_tab_is_listed(app: AppModel, i: int)
    requires
        0 <= i < app.tabs.len() <= usize::MAX,
    ensures
        app.relisted().sidebar.entries.len() == app.tabs.len(),
        app.relisted().sidebar.entries[i].tab_index == i,
        app.relisted().sidebar.entries[i].title == app.tabs[i].title(i),
        app.relisted().sidebar.entries[i].session == app.tabs[i].session,
{
}

/// Closing a tab changes no other one.
pub proof fn closing_keeps_the_other_tabs(app: AppModel, i: int, k: int)
    requires
        0 <= i < app.tabs.len(),
        0 <= k < app.tabs.len(),
        k != i,
    ensures
        app.without_tab(i).tabs[if k < i {
            k
        } else {
            k - 1
        }] == app.tabs[k],
{
}

/// A tab stays exactly if its shell still runs.
pub proof fn tabs_stay_with_their_shells(tabs: Seq<TabModel>, alive: Seq<bool>, tab: TabModel)
    requires
        alive.len() == tabs.len(),
    ensures
        surviving(tabs, alive).contains(tab) <==> exists|i: int|
            0 <= i < tabs.len() && #[trigger] tabs[i] == tab && alive[i],
    decreases tabs.len(),
{
    if tabs.len() > 0 {
        let rest = tabs.drop_first();
        let rest_alive = alive.drop_first();
        let left = surviving(rest, rest_alive);
        tabs_stay_with_their_shells(rest, rest_alive, tab);
        let all = surviving(tabs, alive);
        if all.contains(tab) {
            let at = choose|k: int| 0 <= k < all.len() && all[k] == tab;
            if alive[0] && at == 0 {
                assert(tabs[0] == tab);
            } else {
                let from = if alive[0] {
                    at - 1
                } else {
                    at
                };
                assert(left[from] == tab);
                let i = choose|i: int|
                    0 <= i < rest.len() && #[trigger] rest[i] == tab && rest_alive[i];
                assert(tabs[i + 1] == tab && alive[i + 1]);
            }
        }
        if exists|i: int| 0 <= i < tabs.len() && #[trigger] tabs[i] == tab && alive[i] {
            let i = choose|i: int| 0 <= i < tabs.len() && #[trigger] tabs[i] == tab && alive[i];
            if i == 0 {
                assert(all[0] == tab);
            } else {
                assert(rest[i - 1] == tab && rest_alive[i - 1]);
                let at = choose|k: int| 0 <= k < left.len() && left[k] == tab;
                if alive[0] {
                    assert(all[at + 1] == tab);
                } else {
                    assert(all[at] == tab);
                }
            }
        }
    }
}

/// A second click on a card soon after the first renames the tab; it takes two more clicks to
/// rename it again.
pub proof fn two_clicks_rename(app: AppModel, tab: usize, first: u64, second: u64, third: u64)
    requires
        !app.double_click(tab, first),
        first <= second < first + DOUBLE_CLICK_NANOS,
        tab < app.tabs.len(),
    ensures
        ({
            let once = app.card_clicked(tab, first);
            let twice = once.card_clicked(tab, second);
            &&& once.active == tab
            &&& once.tabs == app.tabs
            &&& twice.editing_name()
            &&& !twice.double_click(tab, third)
        }),
{
}

/// Whatever a program writes, its screen stays consistent, keeps its size and has every line
/// marked that changes; and the view is on the live screen.
pub proof fn output_is_sound(tab: TabModel, data: Seq<u8>)
    requires
        tab.screen.consistent(),
        data.len() > 0,
    ensures
        tab.fed_with(data).screen.consistent(),
        tab.fed_with(data).screen.same_size(tab.screen),
        tab.fed_with(data).screen.marks_changes_of(tab.screen),
        tab.fed_with(data).scroll_offset == 0,
{
    every_input_is_sound(tab.feed(), data);
}

/// In brackets, the program gets the text between the two marks and nothing else.
pub proof fn pasted_text_stands_between_its_marks(app: AppModel, i: int, text: Seq<char>)
    requires
        0 <= i < app.tabs.len(),
        text.len() > 0,
        app.tabs[i].screen.term.bracketed_paste,
    ensures
        ({
            let sent = app.bytes_pasted(i, text)->0;
            &&& sent.take(6) == paste_begin()
            &&& sent.subrange(6, sent.len() - 6) == vstd::utf8::encode_utf8(text)
            &&& sent.skip(sent.len() - 6) == paste_end()
        }),
{
    let sent = app.bytes_pasted(i, text)->0;
    assert(sent.take(6) =~= paste_begin());
    assert(sent.subrange(6, sent.len() - 6) =~= vstd::utf8::encode_utf8(text));
    assert(sent.skip(sent.len() - 6) =~= paste_end());
}

/// No key reaches the program while a name is being edited or the command key is held.
pub proof fn shortcuts_and_names_keep_their_keys(key: Key, held: Modifiers, editing: bool)
    ensures
        action_for(key, held, editing) == KeyAction::Send ==> !editing && !held.super_key,
{
}

} // verus!
