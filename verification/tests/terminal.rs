use pylon::grid::{CellFlags, Color, Grid, NamedColor};
use pylon::primitives::DirtyRows;
use pylon::vt::handler::{bulk_print_char, parse_extended_color};
use pylon::vt::parser::{all_printable_16, perform, perform_all, VtAction};
use pylon::vt::{CursorState, MouseMode, TerminalState, VtParser};

struct Terminal {
    parser: VtParser,
    grid: Grid,
    state: TerminalState,
    dirty: DirtyRows,
}

impl Terminal {
    fn new(rows: u16, cols: u16) -> Terminal {
        Terminal {
            parser: VtParser::new(),
            grid: Grid::new(rows as usize, cols as usize, 100),
            state: TerminalState::new(rows, cols),
            dirty: DirtyRows::new(),
        }
    }

    fn feed(&mut self, bytes: &[u8]) -> &mut Terminal {
        self.parser.process(bytes, &mut self.grid, &mut self.state, &mut self.dirty);
        self
    }

    fn type_text(&mut self, text: &str) -> &mut Terminal {
        self.feed(text.as_bytes())
    }

    fn line(&self, row: usize) -> String {
        let row = self.grid.row(row).unwrap();
        (0..row.len()).map(|i| row.get(i).unwrap().ch).collect()
    }

    fn screen(&self) -> Vec<String> {
        (0..self.grid.visible_rows()).map(|i| self.line(i)).collect()
    }

    fn cursor(&self) -> (u16, u16) {
        (self.state.cursor.row, self.state.cursor.col)
    }

    fn marked(&mut self) -> Vec<usize> {
        let mask = self.dirty.drain();
        (0..256).filter(|row| mask[row / 64] >> (row % 64) & 1 == 1).collect()
    }
}

#[test]
fn a_fresh_terminal() {
    let state = TerminalState::new(24, 20);
    assert_eq!(state.cursor, CursorState::default());
    assert_eq!(state.scroll_region, (0, 24));
    assert_eq!((state.scroll_top(), state.scroll_bottom()), (0, 24));
    assert_eq!(state.tab_stops, vec![0, 8, 16]);
    assert_eq!(state.mouse_mode, MouseMode::default());
    assert!(state.autowrap && state.cursor.visible);
    assert!(!state.insert_mode && !state.origin_mode && !state.pending_wrap);
    assert!(state.saved_cursor.is_none() && state.window_title.is_empty());
}

#[test]
fn clamping_brings_the_cursor_back() {
    let mut state = TerminalState::new(24, 80);
    state.cursor.row = 30;
    state.cursor.col = 90;
    state.clamp_cursor(10, 20);
    assert_eq!((state.cursor.row, state.cursor.col), (9, 19));
    state.clamp_cursor(0, 0);
    assert_eq!((state.cursor.row, state.cursor.col), (9, 19));
}

#[test]
fn printing_wraps_late() {
    let mut t = Terminal::new(3, 4);
    t.type_text("abcd");
    assert_eq!(t.screen(), ["abcd", "    ", "    "]);
    assert_eq!(t.cursor(), (0, 3));
    assert!(t.state.pending_wrap);
    t.type_text("e");
    assert_eq!(t.screen(), ["abcd", "e   ", "    "]);
    assert_eq!(t.cursor(), (1, 1));
    assert_eq!(t.marked(), [0, 1]);
}

#[test]
fn without_autowrap_the_last_column_is_overwritten() {
    let mut t = Terminal::new(2, 3);
    t.type_text("\x1b[?7labcdef");
    assert_eq!(t.screen(), ["abf", "   "]);
    assert_eq!(t.cursor(), (0, 2));
}

#[test]
fn long_text_takes_the_fast_path_and_looks_the_same() {
    let text = "The quick brown fox jumps over the lazy dog, and does it again.";
    let mut fast = Terminal::new(4, 20);
    fast.type_text(text);
    let mut slow = Terminal::new(4, 20);
    for byte in text.bytes() {
        slow.feed(&[byte]);
    }
    assert_eq!(fast.screen(), slow.screen());
    assert_eq!(fast.cursor(), slow.cursor());
    assert_eq!(fast.marked(), slow.marked());
    assert_eq!(fast.line(0), "The quick brown fox ");
    assert_eq!(fast.line(3), "in. ".to_string() + &" ".repeat(16));
}

#[test]
fn text_inside_a_title_is_not_printed() {
    let mut t = Terminal::new(2, 40);
    t.type_text("\x1b]0;");
    t.type_text("a title that is longer than sixteen bytes");
    t.type_text("\x07after the title there is plain text again");
    assert_eq!(t.state.window_title, "a title that is longer than sixteen bytes");
    assert_eq!(t.line(0), "after the title there is plain text agai");
    assert_eq!(t.line(1).trim_end(), "n");
}

#[test]
fn text_after_a_title_ended_by_an_escape() {
    let mut t = Terminal::new(1, 40);
    t.feed(b"\x1b]2;title\x1b");
    t.feed(b"\\sixteen or more bytes of text");
    assert_eq!(t.state.window_title, "title");
    assert_eq!(t.line(0).trim_end(), "sixteen or more bytes of text");
}

#[test]
fn a_control_character_inside_a_sequence_does_not_end_it() {
    let mut t = Terminal::new(3, 40);
    t.feed(b"\x1b[3\r");
    t.feed(b"1mred text of sixteen bytes");
    assert_eq!(t.line(0).trim_end(), "red text of sixteen bytes");
    assert_eq!(t.grid.cell(0, 0).unwrap().fg, Color::Named(NamedColor::Red));
}

#[test]
fn characters_of_several_bytes_can_be_cut() {
    let mut t = Terminal::new(1, 20);
    t.feed(&[0x61, 0xe2]);
    t.feed(&[0x82]);
    t.feed(&[0xac, 0x62]);
    assert_eq!(t.line(0).trim_end(), "a\u{20ac}b");
}

#[test]
fn invalid_bytes_are_replaced() {
    let mut t = Terminal::new(1, 20);
    t.feed(b"a\xffb");
    assert_eq!(t.line(0).trim_end(), "a\u{fffd}b");
}

#[test]
fn control_characters_move_the_cursor() {
    let mut t = Terminal::new(3, 20);
    t.type_text("ab\x08c\tx");
    assert_eq!(t.line(0).trim_end(), "ac      x");
    t.type_text("\r\ny\x0b\x0cz\x07");
    assert_eq!(t.cursor(), (2, 2));
    assert_eq!(t.screen()[2].trim_end(), " z");
    t.type_text("\r\x08");
    assert_eq!(t.cursor(), (2, 0));
    t.type_text("\t\t\t\t");
    assert_eq!(t.cursor(), (2, 19));
}

#[test]
fn the_bottom_line_scrolls() {
    let mut t = Terminal::new(2, 3);
    t.type_text("a\r\nb\r\nc");
    assert_eq!(t.screen(), ["b  ", "c  "]);
    assert_eq!(t.grid.scrollback_len(), 1);
    assert_eq!(t.grid.scrollback_row(0).unwrap().get(0).unwrap().ch, 'a');
}

#[test]
fn a_region_scrolls_alone() {
    let mut t = Terminal::new(4, 3);
    t.type_text("a\r\nb\r\nc\r\nd\x1b[2;3r");
    assert_eq!(t.state.scroll_region, (1, 3));
    assert_eq!(t.cursor(), (0, 0));
    t.type_text("\x1b[3;1H\n");
    assert_eq!(t.screen(), ["a  ", "c  ", "   ", "d  "]);
    t.type_text("\x1b[2;1H\x1bM");
    assert_eq!(t.screen(), ["a  ", "   ", "c  ", "d  "]);
    t.type_text("\x1b[1S");
    assert_eq!(t.screen(), ["a  ", "c  ", "   ", "d  "]);
    t.type_text("\x1b[T");
    assert_eq!(t.screen(), ["a  ", "   ", "c  ", "d  "]);
    assert_eq!(t.grid.scrollback_len(), 0);
    t.type_text("\x1b[3;2r");
    assert_eq!(t.state.scroll_region, (1, 3));
    t.type_text("\x1b[r");
    assert_eq!(t.state.scroll_region, (0, 4));
    t.type_text("\x1b[2;99r");
    assert_eq!(t.state.scroll_region, (1, 4));
}

#[test]
fn lines_are_inserted_and_deleted_at_the_cursor() {
    let mut t = Terminal::new(3, 3);
    t.type_text("a\r\nb\r\nc\x1b[2;1H\x1b[L");
    assert_eq!(t.screen(), ["a  ", "   ", "b  "]);
    t.type_text("\x1b[2M");
    assert_eq!(t.screen(), ["a  ", "   ", "   "]);
}

#[test]
fn the_cursor_is_moved_and_stays_on_the_screen() {
    let mut t = Terminal::new(10, 20);
    t.type_text("\x1b[5;7H");
    assert_eq!(t.cursor(), (4, 6));
    t.type_text("\x1b[2A\x1b[3C");
    assert_eq!(t.cursor(), (2, 9));
    t.type_text("\x1b[B\x1b[D");
    assert_eq!(t.cursor(), (3, 8));
    t.type_text("\x1b[99B\x1b[99C");
    assert_eq!(t.cursor(), (9, 19));
    t.type_text("\x1b[99A\x1b[99D");
    assert_eq!(t.cursor(), (0, 0));
    t.type_text("\x1b[4G\x1b[6d");
    assert_eq!(t.cursor(), (5, 3));
    t.type_text("\x1b[99G\x1b[99d");
    assert_eq!(t.cursor(), (9, 19));
    t.type_text("\x1b[f");
    assert_eq!(t.cursor(), (0, 0));
    t.type_text("\x1b[65535B\x1b[65535C\x1b[65535B");
    assert_eq!(t.cursor(), (9, 19));
}

#[test]
fn origin_mode_counts_from_the_region() {
    let mut t = Terminal::new(10, 20);
    t.type_text("\x1b[3;6r\x1b[?6h");
    assert_eq!(t.cursor(), (2, 0));
    t.type_text("\x1b[2;5H");
    assert_eq!(t.cursor(), (3, 4));
    t.type_text("\x1b[99;1H");
    assert_eq!(t.cursor(), (5, 0));
    t.type_text("\x1b[4;7r");
    assert_eq!(t.cursor(), (3, 0));
    t.type_text("\x1b[?6l\x1b[99;1H");
    assert_eq!(t.cursor(), (9, 0));
}

#[test]
fn the_display_is_erased() {
    let full = "aaa\r\nbbb\r\nccc\x1b[2;2H";
    let mut t = Terminal::new(3, 3);
    t.type_text(full).type_text("\x1b[J");
    assert_eq!(t.screen(), ["aaa", "b  ", "   "]);
    let mut t = Terminal::new(3, 3);
    t.type_text(full).type_text("\x1b[1J");
    assert_eq!(t.screen(), ["   ", "  b", "ccc"]);
    for mode in ["2", "3"] {
        let mut t = Terminal::new(3, 3);
        t.type_text(full).type_text("\x1b[").type_text(mode).type_text("J");
        assert_eq!(t.screen(), ["   ", "   ", "   "]);
        assert_eq!(t.cursor(), (1, 1));
        assert_eq!(t.marked().len(), 256);
    }
    let mut t = Terminal::new(3, 3);
    t.type_text(full).type_text("\x1b[7J");
    assert_eq!(t.screen(), ["aaa", "bbb", "ccc"]);
}

#[test]
fn a_line_is_erased() {
    for (mode, left) in [("", "ab   "), ("1", "   de"), ("2", "     "), ("3", "abcde")] {
        let mut t = Terminal::new(1, 5);
        t.type_text("abcde\x1b[3G");
        t.marked();
        t.type_text("\x1b[").type_text(mode).type_text("K");
        assert_eq!(t.line(0), left);
        assert_eq!(t.marked(), [0]);
    }
}

#[test]
fn a_line_is_edited() {
    let mut t = Terminal::new(1, 6);
    t.type_text("abcdef\x1b[2G\x1b[2@");
    assert_eq!(t.line(0), "a  bcd");
    t.type_text("\x1b[3P");
    assert_eq!(t.line(0), "acd   ");
    t.type_text("\x1b[X");
    assert_eq!(t.line(0), "a d   ");
}

#[test]
fn insert_mode_makes_room() {
    let mut t = Terminal::new(1, 6);
    t.type_text("abc\r\x1b[4hxy");
    assert_eq!(t.line(0), "xyabc ");
    t.type_text("\x1b[4l\rz");
    assert_eq!(t.line(0), "zyabc ");
}

#[test]
fn text_is_styled() {
    let mut t = Terminal::new(1, 20);
    t.type_text("\x1b[1;3;31;42ma\x1b[22;23;39;49mb\x1b[2;4;7;8;9mc\x1b[24;27;28;29;21;22md\x1b[me");
    let cell = |i: usize| *t.grid.cell(0, i).unwrap();
    assert_eq!(cell(0).fg, Color::Named(NamedColor::Red));
    assert_eq!(cell(0).bg, Color::Named(NamedColor::Green));
    assert_eq!(cell(0).flags.bits(), 1 + 4);
    assert_eq!((cell(1).fg, cell(1).bg), (Color::Default, Color::Default));
    assert_eq!(cell(1).flags, CellFlags::empty());
    assert_eq!(cell(2).flags.bits(), 2 + 8 + 16 + 32 + 64);
    assert_eq!(cell(3).flags, CellFlags::empty());
    assert_eq!(cell(4).flags, CellFlags::empty());
}

#[test]
fn bright_and_extended_colors() {
    let mut t = Terminal::new(1, 20);
    t.type_text("\x1b[97;100ma\x1b[38;5;200;48;2;1;2;3mb\x1b[38:5:9;48:2:7:10:20:30mc\x1b[38;9md");
    let cell = |i: usize| *t.grid.cell(0, i).unwrap();
    assert_eq!(cell(0).fg, Color::Named(NamedColor::BrightWhite));
    assert_eq!(cell(0).bg, Color::Named(NamedColor::BrightBlack));
    assert_eq!(cell(1).fg, Color::Indexed(200));
    assert_eq!(cell(1).bg, Color::Rgb(1, 2, 3));
    assert_eq!(cell(2).fg, Color::Indexed(9));
    assert_eq!(cell(2).bg, Color::Rgb(10, 20, 30));
    assert_eq!(cell(3).fg, Color::Indexed(9));
    assert!(cell(3).flags.strikethrough);
}

#[test]
fn extended_colors_by_their_parameters() {
    assert_eq!(
        parse_extended_color(&vec![vec![38], vec![2], vec![300], vec![5]], 0),
        (Some(Color::Rgb(44, 5, 0)), 4)
    );
    assert_eq!(parse_extended_color(&vec![vec![0], vec![48], vec![5], vec![7]], 1), (
        Some(Color::Indexed(7)),
        2
    ));
    assert_eq!(parse_extended_color(&vec![vec![38]], 0), (None, 0));
    assert_eq!(parse_extended_color(&vec![vec![38], vec![7]], 0), (None, 0));
    assert_eq!(parse_extended_color(&vec![], 0), (None, 0));
    assert_eq!(parse_extended_color(&vec![vec![38, 2, 9, 8]], 0), (Some(Color::Rgb(9, 8, 0)), 0));
    assert_eq!(
        parse_extended_color(&vec![vec![38, 2, 10, 20, 30]], 0),
        (Some(Color::Rgb(10, 20, 30)), 0)
    );
    assert_eq!(
        parse_extended_color(&vec![vec![38, 2, 0, 9, 8, 7]], 0),
        (Some(Color::Rgb(9, 8, 7)), 0)
    );
    assert_eq!(parse_extended_color(&vec![vec![38, 5]], 0), (None, 0));
    assert_eq!(parse_extended_color(&vec![vec![38, 6, 1]], 0), (None, 0));
}

#[test]
fn modes_are_switched() {
    let mut t = Terminal::new(3, 3);
    t.type_text("\x1b[?1;25;2004h\x1b[?25l");
    assert!(t.state.application_cursor_keys && t.state.bracketed_paste && !t.state.cursor.visible);
    for (mode, wanted) in
        [("1000", MouseMode::Press), ("1002", MouseMode::PressRelease), ("1006", MouseMode::Sgr)]
    {
        t.type_text("\x1b[?").type_text(mode).type_text("h");
        assert_eq!(t.state.mouse_mode, wanted);
        t.type_text("\x1b[?").type_text(mode).type_text("l");
        assert_eq!(t.state.mouse_mode, MouseMode::Off);
    }
    t.type_text("\x1b[?1;2004l");
    assert!(!t.state.application_cursor_keys && !t.state.bracketed_paste);
}

#[test]
fn the_alternate_screen_brings_the_cursor_back() {
    let mut t = Terminal::new(3, 5);
    t.type_text("abc\x1b[2;4H\x1b[?1049h");
    assert!(t.state.alternate_screen);
    assert_eq!(t.screen(), ["     ", "     ", "     "]);
    t.type_text("\x1b[1;1Hxyz\x1b[?1049h\x1b[?1049l");
    assert!(!t.state.alternate_screen);
    assert_eq!(t.cursor(), (1, 3));
    assert!(t.state.saved_cursor.is_none());
}

#[test]
fn the_cursor_is_saved_and_restored() {
    let mut t = Terminal::new(5, 5);
    t.type_text("\x1b8\x1b[3;4H\x1b7\x1b[1;1H\x1b8");
    assert_eq!(t.cursor(), (2, 3));
    t.type_text("\x1bD");
    assert_eq!(t.cursor(), (3, 3));
    t.type_text("\x1b8");
    assert_eq!(t.cursor(), (2, 3));
}

#[test]
fn a_reset_leaves_a_fresh_terminal() {
    let mut t = Terminal::new(2, 8);
    t.type_text("\x1b]0;t\x07\x1b[31;1mabc\r\n\n\x1b[?1h\x1b[4h\x1bc");
    assert_eq!(t.screen(), [" ".repeat(8), " ".repeat(8)]);
    assert_eq!(t.cursor(), (0, 0));
    assert!(t.state.window_title.is_empty());
    assert!(!t.state.application_cursor_keys && !t.state.insert_mode);
    assert_eq!(t.state.attrs, (Color::Default, Color::Default, CellFlags::empty()));
    assert_eq!(t.grid.scrollback_len(), 1);
}

#[test]
fn titles_are_set_by_two_commands() {
    let mut t = Terminal::new(1, 5);
    t.feed(b"\x1b]0;one\x07");
    assert_eq!(t.state.window_title, "one");
    t.feed(b"\x1b]2;two\xc3\xa9\x07");
    assert_eq!(t.state.window_title, "two\u{e9}");
    t.feed(b"\x1b]1;three\x07\x1b]2\x07\x1b]2;\xff\x07");
    assert_eq!(t.state.window_title, "two\u{e9}");
}

#[test]
fn sixteen_printable_bytes() {
    assert!(all_printable_16(b"0123456789abcdef"));
    assert!(all_printable_16(b" ~0123456789abcd\x1b"));
    assert!(!all_printable_16(b"0123456789abcde"));
    assert!(!all_printable_16(b"0123456789abcde\x7f"));
    assert!(!all_printable_16(b"\n123456789abcdef"));
}

#[test]
fn reports_are_performed_one_by_one() {
    let mut t = Terminal::default_size();
    let actions = vec![
        VtAction::Print('a'),
        VtAction::Execute(0x0d),
        VtAction::Csi { params: vec![vec![3]], intermediates: vec![], action: 'C' },
        VtAction::Osc { fields: vec![vec![0x30], vec![0x74]] },
        VtAction::Esc { intermediates: vec![], byte: 0x37 },
        VtAction::Hook,
        VtAction::Put,
        VtAction::Unhook,
    ];
    perform_all(&actions, &mut t.grid, &mut t.state, &mut t.dirty);
    assert_eq!(t.cursor(), (0, 3));
    assert_eq!(t.state.window_title, "t");
    assert_eq!(t.state.saved_cursor.unwrap().col, 3);
    perform(&VtAction::Print('b'), &mut t.grid, &mut t.state, &mut t.dirty);
    assert_eq!(t.line(0).trim_end(), "a  b");
    bulk_print_char(&mut t.grid, &mut t.state, &mut t.dirty, 'c');
    assert_eq!(t.line(0).trim_end(), "a  bc");
}

impl Terminal {
    fn default_size() -> Terminal {
        Terminal::new(24, 80)
    }
}

#[test]
fn rows_beyond_the_mask_are_not_marked() {
    let mut t = Terminal::new(300, 2);
    t.type_text("\x1b[300;1Ha");
    assert_eq!(t.line(299), "a ");
    assert!(!t.dirty.any_dirty());
}

#[test]
fn it_does_not_matter_where_the_input_is_cut() {
    let mut input = Vec::new();
    input.extend_from_slice(b"a line of plain text, longer than sixteen\r\n\x1b[1;38:2:10:20:30mbold\x1b[0m");
    input.extend_from_slice("h\u{e9}llo \u{20ac} \u{1f600} ".as_bytes());
    input.extend_from_slice(b"\xe2\x82x\xff\x9b\x1b]0;a title of some length\x07after the title, some text");
    input.extend_from_slice(b"\x1b[2;3Hmoved\x1bPq some device data\x1b\\then text again, and more of it\x1b7");
    let mut whole = Terminal::new(6, 20);
    whole.feed(&input);
    let marked = whole.marked();
    for cut in 0..=input.len() {
        let mut parts = Terminal::new(6, 20);
        parts.feed(&input[..cut]).feed(&input[cut..]);
        assert_eq!(parts.screen(), whole.screen(), "cut at {cut}");
        assert_eq!(parts.cursor(), whole.cursor());
        assert_eq!(parts.state.window_title, whole.state.window_title);
        assert_eq!(parts.marked(), marked);
    }
}
