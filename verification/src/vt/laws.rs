//! What holds of the screen after every report of the parser.

use vstd::prelude::*;

use super::parser::{all_printable, grounded, overprinted_all, printable_prefix, FeedModel};
use super::model::{all_rows, first_of, ActionModel, ParamLists, ScreenModel};
use super::state::{CursorState, TerminalModel};
use crate::grid::laws::{scrolling_keeps_the_shape, scrolling_stays_in_its_region};
use crate::grid::storage::GridModel;

verus! {

/// Whether a cursor stands on a screen of the given size.
pub open spec fn on_screen(cursor: CursorState, rows: nat, cols: nat) -> bool {
    cursor.row < rows && cursor.col < cols
}

impl ScreenModel {
    /// Whether the screen has a size that coordinates can express, every line has its width, and
    /// the cursor, the saved cursor and the scroll region lie on it, and the marks in their range.
    pub open spec fn consistent(self) -> bool {
        let rows = self.grid.lines.len();
        let cols = self.grid.cols;
        &&& 0 < rows <= 0xffff
        &&& 0 < cols <= 0xffff
        &&& self.grid.uniform()
        &&& self.grid.bounded()
        &&& on_screen(self.term.cursor, rows, cols)
        &&& self.term.saved_cursor is Some ==> on_screen(self.term.saved_cursor->0, rows, cols)
        &&& self.term.scroll_region.0 < self.term.scroll_region.1 <= rows
        &&& self.dirty.subset_of(all_rows())
    }

    /// Whether another screen has the same size.
    pub open spec fn same_size(self, other: ScreenModel) -> bool {
        self.grid.lines.len() == other.grid.lines.len() && self.grid.cols == other.grid.cols
    }

    /// Whether every line that differs from another screen is marked, and every mark of the other
    /// screen is kept. Marks reach to row 255.
    pub open spec fn marks_changes_of(self, before: ScreenModel) -> bool {
        &&& before.dirty.subset_of(self.dirty)
        &&& forall|row: int|
            0 <= row < 256 && row < before.grid.lines.len() && #[trigger] self.grid.lines[row]
                != before.grid.lines[row] ==> self.dirty.contains(row)
    }
}

/// A fresh terminal on a new grid is consistent.
pub proof fn starts_consistent(rows: u16, cols: u16, limit: nat, dirty: Set<int>)
    requires
        rows > 0,
        cols > 0,
        dirty.subset_of(all_rows()),
    ensures
        (ScreenModel {
            grid: GridModel {
                lines: crate::grid::storage::blank_lines(rows as nat, cols as nat),
                cols: cols as nat,
                history: Seq::empty(),
                limit,
                suppress: false,
            },
            term: TerminalModel::fresh(rows, cols),
            dirty,
        }).consistent(),
{
}

proof fn linefeed_is_sound(s: ScreenModel)
    requires
        s.consistent(),
    ensures
        s.linefeed().consistent(),
        s.linefeed().same_size(s),
        s.linefeed().marks_changes_of(s),
{
    let (top, bottom) = s.term.scroll_region;
    scrolling_keeps_the_shape(s.grid, top as int, bottom as int, 1);
    assert forall|row: int|
        0 <= row < 256 && row < s.grid.lines.len() && #[trigger] s.linefeed().grid.lines[row]
            != s.grid.lines[row] implies s.linefeed().dirty.contains(row) by {
        if row < top || row >= bottom {
            scrolling_stays_in_its_region(s.grid, top as int, bottom as int, 1, row);
        }
    }
}

proof fn reverse_index_is_sound(s: ScreenModel)
    requires
        s.consistent(),
    ensures
        s.reverse_index().consistent(),
        s.reverse_index().same_size(s),
        s.reverse_index().marks_changes_of(s),
{
    let (top, bottom) = s.term.scroll_region;
    scrolling_keeps_the_shape(s.grid, top as int, bottom as int, 1);
    assert forall|row: int|
        0 <= row < 256 && row < s.grid.lines.len() && #[trigger] s.reverse_index().grid.lines[row]
            != s.grid.lines[row] implies s.reverse_index().dirty.contains(row) by {
        if row < top || row >= bottom {
            scrolling_stays_in_its_region(s.grid, top as int, bottom as int, 1, row);
        }
    }
}

proof fn put_char_is_sound(s: ScreenModel, c: char)
    requires
        s.consistent(),
    ensures
        s.put_char(c).consistent(),
        s.put_char(c).same_size(s),
        s.put_char(c).marks_changes_of(s),
{
    if s.term.pending_wrap {
        linefeed_is_sound(s.carriage_return());
    }
    let w = s.wrapped();
    assert(w.consistent() && w.marks_changes_of(s));
    let m = w.made_room();
    assert(m.consistent());
    let t = m.stamped(c);
    assert(t.consistent());
    assert(t.marks_changes_of(s));
    assert(t.advanced().grid == t.grid && t.advanced().dirty == t.dirty);
}

proof fn erasing_is_sound(s: ScreenModel, mode: u16)
    requires
        s.consistent(),
    ensures
        s.erase_display(mode).consistent(),
        s.erase_display(mode).same_size(s),
        s.erase_display(mode).marks_changes_of(s),
        s.erase_line(mode).consistent(),
        s.erase_line(mode).same_size(s),
        s.erase_line(mode).marks_changes_of(s),
{
    let e = s.erase_display(mode);
    assert(e.grid.uniform());
    assert(e.marks_changes_of(s));
}

proof fn one_mode_is_sound(s: ScreenModel, mode: u16, private: bool, enable: bool)
    requires
        s.consistent(),
    ensures
        s.one_mode(mode, private, enable).consistent(),
        s.one_mode(mode, private, enable).same_size(s),
        s.one_mode(mode, private, enable).marks_changes_of(s),
{
}

proof fn set_mode_is_sound(s: ScreenModel, params: ParamLists, intermediates: Seq<u8>, enable: bool)
    requires
        s.consistent(),
    ensures
        s.set_mode(params, intermediates, enable).consistent(),
        s.set_mode(params, intermediates, enable).same_size(s),
        s.set_mode(params, intermediates, enable).marks_changes_of(s),
    decreases params.len(),
{
    if params.len() > 0 {
        set_mode_is_sound(s, params.drop_last(), intermediates, enable);
        let t = s.set_mode(params.drop_last(), intermediates, enable);
        let private = intermediates.len() > 0 && intermediates[0] == 0x3f;
        let mode = first_of(params, params.len() - 1);
        one_mode_is_sound(t, mode, private, enable);
    }
}

proof fn lines_moved_is_sound(s: ScreenModel, n: u16, action: char)
    requires
        s.consistent(),
    ensures
        s.lines_moved(n, action).consistent(),
        s.lines_moved(n, action).same_size(s),
        s.lines_moved(n, action).marks_changes_of(s),
{
    let (top, bottom) = s.term.scroll_region;
    let row = s.term.cursor.row as int;
    let m = s.lines_moved(n, action);
    scrolling_keeps_the_shape(s.grid, top as int, bottom as int, n as nat);
    scrolling_keeps_the_shape(s.grid, row, bottom as int, n as nat);
    assert forall|r: int|
        0 <= r < 256 && r < s.grid.lines.len() && #[trigger] m.grid.lines[r]
            != s.grid.lines[r] implies m.dirty.contains(r) by {
        if r < top || r >= bottom {
            scrolling_stays_in_its_region(s.grid, top as int, bottom as int, n as nat, r);
            if top <= row < bottom {
                scrolling_stays_in_its_region(s.grid, row, bottom as int, n as nat, r);
            }
        }
    }
}

proof fn csi_is_sound(s: ScreenModel, params: ParamLists, intermediates: Seq<u8>, action: char)
    requires
        s.consistent(),
    ensures
        s.csi(params, intermediates, action).consistent(),
        s.csi(params, intermediates, action).same_size(s),
        s.csi(params, intermediates, action).marks_changes_of(s),
{
    let n = super::model::param_or(params, 0, 1);
    if action == 'L' || action == 'M' || action == 'S' || action == 'T' {
        lines_moved_is_sound(s, n, action);
    } else if action == '@' || action == 'P' || action == 'X' {
        assert(s.line_edited(n, action).grid.uniform());
    } else if action == 'J' || action == 'K' {
        erasing_is_sound(s, first_of(params, 0));
    } else if action == 'h' {
        set_mode_is_sound(s, params, intermediates, true);
    } else if action == 'l' {
        set_mode_is_sound(s, params, intermediates, false);
    }
}

/// Whatever the parser reports, the screen keeps its size; the cursor, the saved cursor and the
/// scroll region stay on it; and every visible line that changes is marked to be drawn again.
pub proof fn every_report_is_sound(s: ScreenModel, action: ActionModel)
    requires
        s.consistent(),
    ensures
        s.after(action).consistent(),
        s.after(action).same_size(s),
        s.after(action).marks_changes_of(s),
{
    reveal(ScreenModel::after);
    match action {
        ActionModel::Print(c) => put_char_is_sound(s, c),
        ActionModel::Execute(byte) => {
            linefeed_is_sound(s);
        },
        ActionModel::Csi { params, intermediates, action } => csi_is_sound(
            s,
            params,
            intermediates,
            action,
        ),
        ActionModel::Esc { intermediates, byte } => {
            linefeed_is_sound(s);
            reverse_index_is_sound(s);
        },
        _ => {},
    }
}

/// What holds after every report holds after any series of reports.
pub proof fn every_series_of_reports_is_sound(s: ScreenModel, actions: Seq<ActionModel>)
    requires
        s.consistent(),
    ensures
        s.after_all(actions).consistent(),
        s.after_all(actions).same_size(s),
        s.after_all(actions).marks_changes_of(s),
    decreases actions.len(),
{
    if actions.len() > 0 {
        every_series_of_reports_is_sound(s, actions.drop_last());
        let t = s.after_all(actions.drop_last());
        every_report_is_sound(t, actions.last());
    }
}

proof fn overprinting_is_sound(s: ScreenModel, bytes: Seq<u8>)
    requires
        s.consistent(),
    ensures
        overprinted_all(s, bytes).consistent(),
        overprinted_all(s, bytes).same_size(s),
        overprinted_all(s, bytes).marks_changes_of(s),
    decreases bytes.len(),
{
    if bytes.len() > 0 {
        overprinting_is_sound(s, bytes.drop_last());
        let t = overprinted_all(s, bytes.drop_last());
        if t.term.pending_wrap {
            linefeed_is_sound(t.carriage_return());
        }
        let w = t.wrapped();
        assert(w.consistent() && w.marks_changes_of(t));
        let st = w.stamped(bytes.last() as char);
        assert(st.consistent() && st.marks_changes_of(s));
        assert(st.advanced().grid == st.grid && st.advanced().dirty == st.dirty);
    }
}

/// Whatever bytes are read, the screen keeps its size; the cursor, the saved cursor and the scroll
/// region stay on it; and every visible line that changes is marked to be drawn again.
pub proof fn every_input_is_sound(f: FeedModel, bytes: Seq<u8>)
    requires
        f.screen.consistent(),
    ensures
        f.processed(bytes).screen.consistent(),
        f.processed(bytes).screen.same_size(f.screen),
        f.processed(bytes).screen.marks_changes_of(f.screen),
    decreases bytes.len(),
{
    reveal(FeedModel::dispatched);
    reveal(FeedModel::overprinted);
    if bytes.len() == 0 {
    } else if !grounded(f.fed) {
        let next = f.dispatched(bytes.take(1));
        dispatching_is_sound(f, bytes.take(1));
        every_input_is_sound(next, bytes.skip(1));
    } else if bytes.len() >= 16 && all_printable(bytes.take(16)) {
        let next = f.overprinted(bytes.take(16));
        overprinting_is_sound(f.screen, bytes.take(16));
        every_input_is_sound(next, bytes.skip(16));
    } else {
        let k = printable_prefix(bytes) as int;
        let ahead = if k > 0 {
            f.dispatched(bytes.take(k))
        } else {
            f
        };
        if k > 0 {
            dispatching_is_sound(f, bytes.take(k));
        }
        if k < bytes.len() {
            let next = ahead.dispatched(bytes.subrange(k, k + 1));
            dispatching_is_sound(ahead, bytes.subrange(k, k + 1));
            every_input_is_sound(next, bytes.skip(k + 1));
        }
    }
}

proof fn dispatching_is_sound(f: FeedModel, chunk: Seq<u8>)
    requires
        f.screen.consistent(),
    ensures
        f.dispatched(chunk).screen.consistent(),
        f.dispatched(chunk).screen.same_size(f.screen),
        f.dispatched(chunk).screen.marks_changes_of(f.screen),
{
    reveal(FeedModel::dispatched);
    every_series_of_reports_is_sound(f.screen, super::parser::reports(f.fed, chunk));
}

/// Restoring brings back the cursor that was saved, whatever happened to the rest of the screen.
pub proof fn restoring_brings_back_the_saved_cursor(s: ScreenModel, later: ScreenModel)
    requires
        later.term.saved_cursor == s.esc(Seq::empty(), 0x37).term.saved_cursor,
    ensures
        later.esc(Seq::empty(), 0x38).term.cursor == s.term.cursor,
{
}

/// Leaving the alternate screen brings back the cursor of the main screen, unless it was saved
/// anew in between.
pub proof fn leaving_the_alternate_screen_restores_the_cursor(s: ScreenModel, later: ScreenModel)
    requires
        !s.term.alternate_screen,
        later.term.alternate_screen,
        later.term.saved_cursor == s.private_mode(1049, true).term.saved_cursor,
    ensures
        later.private_mode(1049, false).term.cursor == s.term.cursor,
        !later.private_mode(1049, false).term.alternate_screen,
        s.private_mode(1049, true).term.alternate_screen,
{
}

/// A full reset leaves a fresh terminal and a blank screen, whatever was there; the history stays.
pub proof fn reset_leaves_nothing(s: ScreenModel, t: ScreenModel)
    requires
        s.same_size(t),
        s.grid.uniform(),
        t.grid.uniform(),
    ensures
        s.esc(Seq::empty(), 0x63).term == t.esc(Seq::empty(), 0x63).term,
        s.esc(Seq::empty(), 0x63).grid.lines == t.esc(Seq::empty(), 0x63).grid.lines,
        s.esc(Seq::empty(), 0x63).grid.history == s.grid.history,
{
    assert forall|i: int| 0 <= i < s.grid.lines.len() implies #[trigger] s.grid.lines[i].len()
        == t.grid.lines[i].len() by {
        assert(t.grid.lines[i].len() == t.grid.cols);
    }
    assert(s.grid.all_cleared().lines =~= t.grid.all_cleared().lines);
}

} // verus!
