use vstd::prelude::*;

use super::keys::{key_bytes, paste_begin, paste_bytes, paste_end, sent_bytes, Key};
use super::state::{scan_noted, session_value, tab_replaced, App, AppModel};
use super::tab::TabModel;
use crate::sidebar::discovery::poller::TabScanResult;
use crate::sidebar::usage::poller::UsageUpdate;

verus! {

/// The tabs after the scans of several shells, one after the other, and whether the session of one
/// was replaced by another on the way.
pub open spec fn scans_noted(tabs: Seq<TabModel>, results: Seq<TabScanResult>) -> (
    Seq<TabModel>,
    bool,
)
    decreases results.len(),
{
    if results.len() == 0 {
        (tabs, false)
    } else {
        let before = scans_noted(tabs, results.drop_last());
        let last = results.last();
        let after = scan_noted(before.0, last.shell_pid, session_value(last.session));
        (after, before.1 || after != before.0)
    }
}

impl AppModel {
    /// Reports on usage noted, one after the other.
    pub open spec fn usages_reported(self, updates: Seq<UsageUpdate>) -> AppModel
        decreases updates.len(),
    {
        if updates.len() == 0 {
            self
        } else {
            self.usages_reported(updates.drop_last()).usage_reported(updates.last())
        }
    }

    /// What the pollers sent noted; the sessions panel is listed again where something changed.
    pub open spec fn drained(
        self,
        updates: Seq<UsageUpdate>,
        results: Seq<TabScanResult>,
    ) -> AppModel {
        let reported = self.usages_reported(updates);
        let scanned = scans_noted(reported.tabs, results);
        let next = AppModel { tabs: scanned.0, ..reported };
        if updates.len() > 0 || scanned.1 {
            next.relisted()
        } else {
            next
        }
    }

    /// The view of a window moved by lines.
    pub open spec fn view_scrolled(self, i: int, lines: int) -> AppModel {
        if 0 <= i < self.tabs.len() {
            self.with_tab(i, self.tabs[i].scrolled(lines))
        } else {
            self
        }
    }

    /// The view of a window on the live screen.
    pub open spec fn view_live(self, i: int) -> AppModel {
        if 0 <= i < self.tabs.len() {
            self.with_tab(i, self.tabs[i].live())
        } else {
            self
        }
    }

    /// What a key sends to the program in a window.
    pub open spec fn bytes_sent(self, i: int, key: Key) -> Option<Seq<u8>> {
        if 0 <= i < self.tabs.len() {
            match key {
                Key::Character(s) => Some(vstd::utf8::encode_utf8(s@)),
                Key::Named(named) => key_bytes(
                    named,
                    self.tabs[i].screen.term.application_cursor_keys,
                ),
                Key::Unidentified => None,
            }
        } else {
            None
        }
    }

    /// What a pasted text sends to the program in a window.
    pub open spec fn bytes_pasted(self, i: int, text: Seq<char>) -> Option<Seq<u8>> {
        if text.len() > 0 && 0 <= i < self.tabs.len() {
            Some(
                if self.tabs[i].screen.term.bracketed_paste {
                    paste_begin() + vstd::utf8::encode_utf8(text) + paste_end()
                } else {
                    vstd::utf8::encode_utf8(text)
                },
            )
        } else {
            None
        }
    }
}

/// Bytes, where there are any, as mathematical values.
pub open spec fn bytes_value(bytes: Option<Vec<u8>>) -> Option<Seq<u8>> {
    match bytes {
        Some(b) => Some(b@),
        None => None,
    }
}

impl App {
    /// Note what the pollers sent, in the order in which it came.
    pub fn drain_pollers(&mut self, updates: Vec<UsageUpdate>, results: Vec<TabScanResult>)
        requires
            old(self).wf(),
            old(self).sidebar_version < u64::MAX,
        ensures
            final(self).wf(),
            final(self)@ == old(self)@.drained(updates@, results@),
    {
        let ghost all = updates@;
        let ghost start = self@;
        let mut changed = updates.len() > 0;
        let mut rest = updates;
        let mut done: usize = 0;
        while rest.len() > 0
            invariant
                self.wf(),
                self.sidebar_version == old(self).sidebar_version,
                done + rest@.len() == all.len(),
                rest@ == all.skip(done as int),
                self@ == start.usages_reported(all.take(done as int)),
                all.len() <= usize::MAX,
            decreases rest@.len(),
        {
            let update = rest.remove(0);
            self.note_usage(update);
            proof {
                assert(update == all[done as int]);
                assert(all.take(done + 1).drop_last() =~= all.take(done as int));
                assert(rest@ =~= all.skip(done + 1));
            }
            done = done + 1;
        }
        assert(all.take(done as int) =~= all);
        let ghost reported = self@;
        let ghost found = results@;
        let count: usize = results.len();
        let mut rest = results;
        let mut done: usize = 0;
        while rest.len() > 0
            invariant
                self.wf(),
                self.sidebar_version == old(self).sidebar_version,
                done + rest@.len() == found.len(),
                rest@ == found.skip(done as int),
                self@ == (AppModel {
                    tabs: scans_noted(reported.tabs, found.take(done as int)).0,
                    ..reported
                }),
                changed == (all.len() > 0 || scans_noted(
                    reported.tabs,
                    found.take(done as int),
                ).1),
                count == found.len(),
            decreases rest@.len(),
        {
            let result = rest.remove(0);
            proof {
                assert(result == found[done as int]);
                assert(found.take(done + 1).drop_last() =~= found.take(done as int));
                assert(rest@ =~= found.skip(done + 1));
            }
            if self.note_scan(result) {
                changed = true;
            }
            done = done + 1;
        }
        assert(found.take(done as int) =~= found);
        if changed {
            self.relist_tabs();
        }
    }

    /// The mouse wheel was turned over a window.
    pub fn scroll(&mut self, idx: usize, lines: isize)
        requires
            old(self).wf(),
            lines > isize::MIN,
        ensures
            final(self).wf(),
            final(self)@ == old(self)@.view_scrolled(idx as int, lines as int),
    {
        if idx < self.windows.len() {
            let ghost before = self.windows@;
            self.windows[idx].scroll_view(lines);
            proof {
                tab_replaced(before, self.windows@, idx as int);
            }
        }
    }

    /// A key for the program in a window was pressed: the view goes back to the live screen. Gives
    /// the bytes to send.
    pub fn send_key(&mut self, idx: usize, key: &Key) -> (bytes: Option<Vec<u8>>)
        requires
            old(self).wf(),
        ensures
            final(self).wf(),
            bytes_value(bytes) == old(self)@.bytes_sent(idx as int, *key),
            final(self)@ == (if bytes is Some {
                old(self)@.view_live(idx as int)
            } else {
                old(self)@
            }),
    {
        if idx >= self.windows.len() {
            return None;
        }
        let bytes = sent_bytes(key, self.windows[idx].vt_state.application_cursor_keys);
        if bytes.is_some() {
            let ghost before = self.windows@;
            self.windows[idx].snap_to_live();
            proof {
                tab_replaced(before, self.windows@, idx as int);
            }
        }
        bytes
    }

    /// A text was pasted into a window. Gives the bytes to send.
    pub fn paste(&self, idx: usize, text: &str) -> (bytes: Option<Vec<u8>>)
        ensures
            bytes_value(bytes) == self@.bytes_pasted(idx as int, text@),
    {
        if idx >= self.windows.len() {
            return None;
        }
        paste_bytes(text, self.windows[idx].vt_state.bracketed_paste)
    }
}

} // verus!
