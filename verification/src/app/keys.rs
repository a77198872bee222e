use vstd::prelude::*;

use crate::config::FontStep;
use crate::text::{chars_of, decimal_text, same_text};
use crate::vt::model::{ActionModel, ScreenModel};

verus! {

/// Keys that have a name and no character.
#[derive(Debug, Clone, Copy, PartialEq, Eq, Structural)]
pub enum NamedKey {
    Space,
    Enter,
    Tab,
    Backspace,
    Escape,
    ArrowUp,
    ArrowDown,
    ArrowRight,
    ArrowLeft,
    Home,
    End,
    PageUp,
    PageDown,
    Insert,
    Delete,
    F1,
    F2,
    F3,
    F4,
    F5,
    F6,
    F7,
    F8,
    F9,
    F10,
    F11,
    F12,
    /// A key that sends nothing.
    Unmapped,
}

/// A key that was pressed.
#[derive(Debug)]
pub enum Key {
    Character(String),
    Named(NamedKey),
    /// A key without a meaning.
    Unidentified,
}

/// The modifier keys that are held.
#[derive(Debug, Clone, Copy, PartialEq, Eq, Structural)]
pub struct Modifiers {
    pub super_key: bool,
    pub shift_key: bool,
    pub control_key: bool,
}

/// The escape byte and the bytes after it.
pub open spec fn escape(rest: Seq<u8>) -> Seq<u8> {
    seq![0x1bu8] + rest
}

/// `ESC [ n ~`, where `n` is two digits.
pub open spec fn tilde(tens: u8, ones: u8) -> Seq<u8> {
    escape(seq![0x5bu8, tens, ones, 0x7eu8])
}

/// An arrow key: `ESC O` and its letter in application mode, else `ESC [` and its letter.
pub open spec fn arrow(letter: u8, app_cursor: bool) -> Seq<u8> {
    if app_cursor {
        escape(seq![0x4fu8, letter])
    } else {
        escape(seq![0x5bu8, letter])
    }
}

/// The bytes that a named key sends.
pub open spec fn key_bytes(key: NamedKey, app_cursor: bool) -> Option<Seq<u8>> {
    match key {
        NamedKey::Space => Some(seq![0x20u8]),
        NamedKey::Enter => Some(seq![0x0du8]),
        NamedKey::Tab => Some(seq![0x09u8]),
        NamedKey::Backspace => Some(seq![0x7fu8]),
        NamedKey::Escape => Some(seq![0x1bu8]),
        NamedKey::ArrowUp => Some(arrow(0x41, app_cursor)),
        NamedKey::ArrowDown => Some(arrow(0x42, app_cursor)),
        NamedKey::ArrowRight => Some(arrow(0x43, app_cursor)),
        NamedKey::ArrowLeft => Some(arrow(0x44, app_cursor)),
        NamedKey::Home => Some(escape(seq![0x5bu8, 0x48u8])),
        NamedKey::End => Some(escape(seq![0x5bu8, 0x46u8])),
        NamedKey::PageUp => Some(escape(seq![0x5bu8, 0x35u8, 0x7eu8])),
        NamedKey::PageDown => Some(escape(seq![0x5bu8, 0x36u8, 0x7eu8])),
        NamedKey::Insert => Some(escape(seq![0x5bu8, 0x32u8, 0x7eu8])),
        NamedKey::Delete => Some(escape(seq![0x5bu8, 0x33u8, 0x7eu8])),
        NamedKey::F1 => Some(escape(seq![0x4fu8, 0x50u8])),
        NamedKey::F2 => Some(escape(seq![0x4fu8, 0x51u8])),
        NamedKey::F3 => Some(escape(seq![0x4fu8, 0x52u8])),
        NamedKey::F4 => Some(escape(seq![0x4fu8, 0x53u8])),
        NamedKey::F5 => Some(tilde(0x31, 0x35)),
        NamedKey::F6 => Some(tilde(0x31, 0x37)),
        NamedKey::F7 => Some(tilde(0x31, 0x38)),
        NamedKey::F8 => Some(tilde(0x31, 0x39)),
        NamedKey::F9 => Some(tilde(0x32, 0x30)),
        NamedKey::F10 => Some(tilde(0x32, 0x31)),
        NamedKey::F11 => Some(tilde(0x32, 0x33)),
        NamedKey::F12 => Some(tilde(0x32, 0x34)),
        NamedKey::Unmapped => None,
    }
}

fn esc3(a: u8, b: u8) -> (bytes: Vec<u8>)
    ensures
        bytes@ == escape(seq![a, b]),
{
    let bytes = vec![0x1b, a, b];
    assert(bytes@ =~= escape(seq![a, b]));
    bytes
}

fn esc4(a: u8, b: u8, c: u8) -> (bytes: Vec<u8>)
    ensures
        bytes@ == escape(seq![a, b, c]),
{
    let bytes = vec![0x1b, a, b, c];
    assert(bytes@ =~= escape(seq![a, b, c]));
    bytes
}

fn esc_tilde(tens: u8, ones: u8) -> (bytes: Vec<u8>)
    ensures
        bytes@ == tilde(tens, ones),
{
    let bytes = vec![0x1b, 0x5b, tens, ones, 0x7e];
    assert(bytes@ =~= tilde(tens, ones));
    bytes
}

fn single(byte: u8) -> (bytes: Vec<u8>)
    ensures
        bytes@ == seq![byte],
{
    let bytes = vec![byte];
    assert(bytes@ =~= seq![byte]);
    bytes
}

/// The bytes of an arrow key.
pub fn arrow_bytes(letter: u8, app_cursor: bool) -> (bytes: Vec<u8>)
    ensures
        bytes@ == arrow(letter, app_cursor),
{
    if app_cursor {
        esc3(0x4f, letter)
    } else {
        esc3(0x5b, letter)
    }
}

/// The bytes that a named key sends.
pub fn named_key_bytes(key: NamedKey, app_cursor: bool) -> (bytes: Option<Vec<u8>>)
    ensures
        match bytes {
            Some(b) => key_bytes(key, app_cursor) == Some(b@),
            None => key_bytes(key, app_cursor) is None,
        },
{
    match key {
        NamedKey::Space => Some(single(0x20)),
        NamedKey::Enter => Some(single(0x0d)),
        NamedKey::Tab => Some(single(0x09)),
        NamedKey::Backspace => Some(single(0x7f)),
        NamedKey::Escape => Some(single(0x1b)),
        NamedKey::ArrowUp => Some(arrow_bytes(0x41, app_cursor)),
        NamedKey::ArrowDown => Some(arrow_bytes(0x42, app_cursor)),
        NamedKey::ArrowRight => Some(arrow_bytes(0x43, app_cursor)),
        NamedKey::ArrowLeft => Some(arrow_bytes(0x44, app_cursor)),
        NamedKey::Home => Some(esc3(0x5b, 0x48)),
        NamedKey::End => Some(esc3(0x5b, 0x46)),
        NamedKey::PageUp => Some(esc4(0x5b, 0x35, 0x7e)),
        NamedKey::PageDown => Some(esc4(0x5b, 0x36, 0x7e)),
        NamedKey::Insert => Some(esc4(0x5b, 0x32, 0x7e)),
        NamedKey::Delete => Some(esc4(0x5b, 0x33, 0x7e)),
        NamedKey::F1 => Some(esc3(0x4f, 0x50)),
        NamedKey::F2 => Some(esc3(0x4f, 0x51)),
        NamedKey::F3 => Some(esc3(0x4f, 0x52)),
        NamedKey::F4 => Some(esc3(0x4f, 0x53)),
        NamedKey::F5 => Some(esc_tilde(0x31, 0x35)),
        NamedKey::F6 => Some(esc_tilde(0x31, 0x37)),
        NamedKey::F7 => Some(esc_tilde(0x31, 0x38)),
        NamedKey::F8 => Some(esc_tilde(0x31, 0x39)),
        NamedKey::F9 => Some(esc_tilde(0x32, 0x30)),
        NamedKey::F10 => Some(esc_tilde(0x32, 0x31)),
        NamedKey::F11 => Some(esc_tilde(0x32, 0x33)),
        NamedKey::F12 => Some(esc_tilde(0x32, 0x34)),
        NamedKey::Unmapped => None,
    }
}

/// What a key press asks for.
#[derive(Debug, Clone, Copy, PartialEq, Eq, Structural)]
pub enum KeyAction {
    Font(FontStep),
    CyclePanel,
    ToggleSidebar,
    /// Begin to rename the active tab, or end it.
    Rename,
    /// Copy the selection, or interrupt the program where there is none.
    Copy,
    Paste,
    NewTab,
    CloseTab,
    /// Show the tab with the given index.
    SelectTab(u32),
    NextTab,
    PreviousTab,
    /// The key belongs to the name that is being edited.
    EditName,
    /// The key goes to the program in the terminal.
    Send,
    /// The key is left to the system.
    Ignore,
}

/// What a character asks for while the command key is held.
pub open spec fn command_action(s: Seq<char>, shift: bool) -> KeyAction {
    if s == "+"@ || s == "="@ {
        KeyAction::Font(FontStep::Larger)
    } else if s == "-"@ {
        KeyAction::Font(FontStep::Smaller)
    } else if s == "0"@ {
        KeyAction::Font(FontStep::Reset)
    } else if s == "b"@ || s == "B"@ {
        if shift {
            KeyAction::CyclePanel
        } else {
            KeyAction::ToggleSidebar
        }
    } else if (s == "r"@ || s == "R"@) && shift {
        KeyAction::Rename
    } else if s == "c"@ {
        KeyAction::Copy
    } else if s == "v"@ {
        KeyAction::Paste
    } else if s == "t"@ || s == "n"@ {
        KeyAction::NewTab
    } else if s == "w"@ {
        KeyAction::CloseTab
    } else if s.len() > 0 && '1' <= s[0] <= '9' {
        KeyAction::SelectTab((s[0] as u32 - '1' as u32) as u32)
    } else {
        KeyAction::Ignore
    }
}

/// What a key press asks for. Shortcuts come first, then the name that is being edited, then the
/// program in the terminal.
pub open spec fn action_for(key: Key, held: Modifiers, editing_name: bool) -> KeyAction {
    if held.super_key {
        match key {
            Key::Character(s) => command_action(s@, held.shift_key),
            _ => KeyAction::Ignore,
        }
    } else if held.control_key && key == Key::Named(NamedKey::Tab) {
        if held.shift_key {
            KeyAction::PreviousTab
        } else {
            KeyAction::NextTab
        }
    } else if editing_name {
        KeyAction::EditName
    } else {
        KeyAction::Send
    }
}

fn command_key(s: &str, shift: bool) -> (action: KeyAction)
    ensures
        action == command_action(s@, shift),
{
    if same_text(s, "+") || same_text(s, "=") {
        return KeyAction::Font(FontStep::Larger);
    }
    if same_text(s, "-") {
        return KeyAction::Font(FontStep::Smaller);
    }
    if same_text(s, "0") {
        return KeyAction::Font(FontStep::Reset);
    }
    if same_text(s, "b") || same_text(s, "B") {
        return if shift {
            KeyAction::CyclePanel
        } else {
            KeyAction::ToggleSidebar
        };
    }
    if (same_text(s, "r") || same_text(s, "R")) && shift {
        return KeyAction::Rename;
    }
    if same_text(s, "c") {
        return KeyAction::Copy;
    }
    if same_text(s, "v") {
        return KeyAction::Paste;
    }
    if same_text(s, "t") || same_text(s, "n") {
        return KeyAction::NewTab;
    }
    if same_text(s, "w") {
        return KeyAction::CloseTab;
    }
    let chars = chars_of(s);
    if chars.len() > 0 && '1' <= chars[0] && chars[0] <= '9' {
        return KeyAction::SelectTab(chars[0] as u32 - '1' as u32);
    }
    KeyAction::Ignore
}

/// What a key press asks for.
pub fn key_action(key: &Key, held: Modifiers, editing_name: bool) -> (action: KeyAction)
    ensures
        action == action_for(*key, held, editing_name),
{
    if held.super_key {
        return match key {
            Key::Character(s) => command_key(s.as_str(), held.shift_key),
            _ => KeyAction::Ignore,
        };
    }
    if held.control_key {
        if let Key::Named(NamedKey::Tab) = key {
            return if held.shift_key {
                KeyAction::PreviousTab
            } else {
                KeyAction::NextTab
            };
        }
    }
    if editing_name {
        KeyAction::EditName
    } else {
        KeyAction::Send
    }
}

/// The bytes that a key sends: a character its encoding, a named key its sequence.
pub fn sent_bytes(key: &Key, app_cursor: bool) -> (bytes: Option<Vec<u8>>)
    ensures
        match key {
            Key::Character(s) => bytes matches Some(b) && b@ == vstd::utf8::encode_utf8(s@),
            Key::Named(named) => match bytes {
                Some(b) => key_bytes(*named, app_cursor) == Some(b@),
                None => key_bytes(*named, app_cursor) is None,
            },
            Key::Unidentified => bytes is None,
        },
{
    match key {
        Key::Character(s) => Some(crate::text::utf8_of(s.as_str())),
        Key::Named(named) => named_key_bytes(*named, app_cursor),
        Key::Unidentified => None,
    }
}

/// The bytes that begin a bracketed paste.
pub open spec fn paste_begin() -> Seq<u8> {
    escape(seq![0x5bu8, 0x32u8, 0x30u8, 0x30u8, 0x7eu8])
}

/// The bytes that end a bracketed paste.
pub open spec fn paste_end() -> Seq<u8> {
    escape(seq![0x5bu8, 0x32u8, 0x30u8, 0x31u8, 0x7eu8])
}

/// What is sent to paste a text: its encoding, in brackets where the program asked for them. An
/// empty text is not pasted.
pub fn paste_bytes(text: &str, bracketed: bool) -> (bytes: Option<Vec<u8>>)
    ensures
        match bytes {
            Some(b) => text@.len() > 0 && b@ == (if bracketed {
                paste_begin() + vstd::utf8::encode_utf8(text@) + paste_end()
            } else {
                vstd::utf8::encode_utf8(text@)
            }),
            None => text@.len() == 0,
        },
{
    if text.is_empty() {
        return None;
    }
    let mut body = crate::text::utf8_of(text);
    if !bracketed {
        return Some(body);
    }
    let mut bytes = vec![0x1b, 0x5b, 0x32, 0x30, 0x30, 0x7e];
    assert(bytes@ =~= paste_begin());
    let mut end = vec![0x1b, 0x5b, 0x32, 0x30, 0x31, 0x7e];
    assert(end@ =~= paste_end());
    bytes.append(&mut body);
    bytes.append(&mut end);
    Some(bytes)
}

/// What the bytes of a key mean when a terminal reads them: `ESC [` and a letter are a control
/// sequence without parameters.
pub open spec fn read_as(bytes: Seq<u8>) -> ActionModel {
    ActionModel::Csi { params: Seq::empty(), intermediates: Seq::empty(), action: bytes[2] as char }
}

/// Each arrow key sends, outside application mode, the sequence that moves a cursor by one cell in
/// its own direction, and the home key the one that moves it to the top left. In application mode
/// the arrows send the same letters after `ESC O`.
pub proof fn arrows_point_in_their_direction(s: ScreenModel)
    requires
        s.consistent(),
        !s.term.origin_mode,
    ensures
        forall|key: NamedKey|
            #![trigger key_bytes(key, false)]
            key == NamedKey::ArrowUp || key == NamedKey::ArrowDown || key == NamedKey::ArrowRight
                || key == NamedKey::ArrowLeft || key == NamedKey::Home ==> {
                let bytes = key_bytes(key, false)->0;
                &&& key_bytes(key, false) is Some
                &&& bytes.len() == 3 && bytes[0] == 0x1b && bytes[1] == 0x5b
                &&& key != NamedKey::Home ==> key_bytes(key, true) == Some(
                    seq![0x1bu8, 0x4fu8, bytes[2]],
                )
            },
        ({
            let c = s.term.cursor;
            let up = s.after(read_as(key_bytes(NamedKey::ArrowUp, false)->0)).term.cursor;
            let down = s.after(read_as(key_bytes(NamedKey::ArrowDown, false)->0)).term.cursor;
            let right = s.after(read_as(key_bytes(NamedKey::ArrowRight, false)->0)).term.cursor;
            let left = s.after(read_as(key_bytes(NamedKey::ArrowLeft, false)->0)).term.cursor;
            let home = s.after(read_as(key_bytes(NamedKey::Home, false)->0)).term.cursor;
            &&& up.col == c.col && down.col == c.col && right.row == c.row && left.row == c.row
            &&& c.row > 0 ==> up.row == c.row - 1
            &&& c.row + 1 < s.grid.lines.len() ==> down.row == c.row + 1
            &&& c.col + 1 < s.grid.cols ==> right.col == c.col + 1
            &&& c.col > 0 ==> left.col == c.col - 1
            &&& home.row == 0 && home.col == 0
        }),
{
    reveal(ScreenModel::after);
    assert(key_bytes(NamedKey::ArrowUp, true)->0 =~= seq![0x1bu8, 0x4fu8, 0x41u8]);
    assert(key_bytes(NamedKey::ArrowDown, true)->0 =~= seq![0x1bu8, 0x4fu8, 0x42u8]);
    assert(key_bytes(NamedKey::ArrowRight, true)->0 =~= seq![0x1bu8, 0x4fu8, 0x43u8]);
    assert(key_bytes(NamedKey::ArrowLeft, true)->0 =~= seq![0x1bu8, 0x4fu8, 0x44u8]);
}

/// The number that an editing key or a function key sends between `ESC [` and a tilde. From F5 on
/// the function keys are numbered by ten more than their own number, and by one more after F5 and
/// again after F10.
pub open spec fn key_number(key: NamedKey) -> Option<nat> {
    match key {
        NamedKey::Insert => Some(2),
        NamedKey::Delete => Some(3),
        NamedKey::PageUp => Some(5),
        NamedKey::PageDown => Some(6),
        NamedKey::F5 => Some(10 + 5),
        NamedKey::F6 => Some(10 + 6 + 1),
        NamedKey::F7 => Some(10 + 7 + 1),
        NamedKey::F8 => Some(10 + 8 + 1),
        NamedKey::F9 => Some(10 + 9 + 1),
        NamedKey::F10 => Some(10 + 10 + 1),
        NamedKey::F11 => Some(10 + 11 + 2),
        NamedKey::F12 => Some(10 + 12 + 2),
        _ => None,
    }
}

/// The characters that bytes of ASCII stand for.
pub open spec fn as_text(bytes: Seq<u8>) -> Seq<char> {
    Seq::new(bytes.len(), |i: int| bytes[i] as char)
}

/// Keys with a number send it in decimal notation between `ESC [` and a tilde. F1 to F4 send
/// `ESC O` and the letters from P to S. All of them send the same in application mode.
pub proof fn numbered_keys_send_their_number(key: NamedKey, app_cursor: bool)
    ensures
        key_number(key) matches Some(n) ==> key_bytes(key, app_cursor) is Some && as_text(
            key_bytes(key, app_cursor)->0,
        ) == seq!['\u{1b}', '['] + decimal_text(n) + seq!['~'],
        key == NamedKey::F1 ==> as_text(key_bytes(key, app_cursor)->0) == seq!['\u{1b}', 'O', 'P'],
        key == NamedKey::F2 ==> as_text(key_bytes(key, app_cursor)->0) == seq!['\u{1b}', 'O', 'Q'],
        key == NamedKey::F3 ==> as_text(key_bytes(key, app_cursor)->0) == seq!['\u{1b}', 'O', 'R'],
        key == NamedKey::F4 ==> as_text(key_bytes(key, app_cursor)->0) == seq!['\u{1b}', 'O', 'S'],
        key == NamedKey::Home ==> as_text(key_bytes(key, app_cursor)->0) == seq!['\u{1b}', '[', 'H'],
        key == NamedKey::End ==> as_text(key_bytes(key, app_cursor)->0) == seq!['\u{1b}', '[', 'F'],
        key == NamedKey::Space ==> as_text(key_bytes(key, app_cursor)->0) == seq![' '],
        key == NamedKey::Enter ==> as_text(key_bytes(key, app_cursor)->0) == seq!['\r'],
        key == NamedKey::Tab ==> as_text(key_bytes(key, app_cursor)->0) == seq!['\t'],
        key == NamedKey::Backspace ==> as_text(key_bytes(key, app_cursor)->0) == seq!['\u{7f}'],
        key == NamedKey::Escape ==> as_text(key_bytes(key, app_cursor)->0) == seq!['\u{1b}'],
        key == NamedKey::Unmapped <==> key_bytes(key, app_cursor) is None,
{
    if let Some(n) = key_number(key) {
        reveal_with_fuel(decimal_text, 3);
        assert(as_text(key_bytes(key, app_cursor)->0) =~= seq!['\u{1b}', '['] + decimal_text(n)
            + seq!['~']);
    }
    if key == NamedKey::F1 || key == NamedKey::F2 || key == NamedKey::F3 || key == NamedKey::F4
        || key == NamedKey::Home || key == NamedKey::End {
        let text = as_text(key_bytes(key, app_cursor)->0);
        assert(text =~= seq![text[0], text[1], text[2]]);
    }
    if key == NamedKey::Space || key == NamedKey::Enter || key == NamedKey::Tab || key
        == NamedKey::Backspace || key == NamedKey::Escape {
        let text = as_text(key_bytes(key, app_cursor)->0);
        assert(text =~= seq![text[0]]);
    }
}

/// No two keys send the same bytes.
pub proof fn keys_send_different_bytes(a: NamedKey, b: NamedKey, app_cursor: bool)
    requires
        a != b,
        a != NamedKey::Unmapped,
        b != NamedKey::Unmapped,
    ensures
        key_bytes(a, app_cursor) != key_bytes(b, app_cursor),
{
    let x = key_bytes(a, app_cursor)->0;
    let y = key_bytes(b, app_cursor)->0;
    if x == y {
        assert(x.len() == y.len());
        assert(x[0] == y[0]);
        if x.len() > 2 {
            assert(x[1] == y[1]);
            assert(x[2] == y[2]);
        }
        if x.len() > 4 {
            assert(x[3] == y[3]);
        }
    }
}

/// The marks of a bracketed paste are the numbers 200 and 201 between `ESC [` and a tilde.
pub proof fn paste_marks_have_their_numbers()
    ensures
        as_text(paste_begin()) == seq!['\u{1b}', '['] + decimal_text(200) + seq!['~'],
        as_text(paste_end()) == seq!['\u{1b}', '['] + decimal_text(201) + seq!['~'],
{
    reveal_with_fuel(decimal_text, 4);
    assert(as_text(paste_begin()) =~= seq!['\u{1b}', '['] + decimal_text(200) + seq!['~']);
    assert(as_text(paste_end()) =~= seq!['\u{1b}', '['] + decimal_text(201) + seq!['~']);
}

/// With the command key each shortcut does what it stands for: plus, minus and zero change the
/// font, `b` shows or hides the sidebar or, with shift, cycles its panels, `r` with shift renames,
/// `c` and `v` copy and paste, `t` and `n` open a tab, `w` closes one, and the digits from 1 on
/// select the tab with that number, counted from 1.
pub proof fn shortcuts_do_what_they_stand_for(c: char, shift: bool, editing: bool)
    ensures
        ({
            let held = Modifiers { super_key: true, shift_key: shift, control_key: false };
            let does = |ch: char, action: KeyAction|
                forall|s: String|
                    s@ == seq![ch] ==> (#[trigger] action_for(Key::Character(s), held, editing))
                        == action;
            &&& does('+', KeyAction::Font(FontStep::Larger))
            &&& does('=', KeyAction::Font(FontStep::Larger))
            &&& does('-', KeyAction::Font(FontStep::Smaller))
            &&& does('0', KeyAction::Font(FontStep::Reset))
            &&& does(
                'b',
                if shift {
                    KeyAction::CyclePanel
                } else {
                    KeyAction::ToggleSidebar
                },
            )
            &&& does(
                'B',
                if shift {
                    KeyAction::CyclePanel
                } else {
                    KeyAction::ToggleSidebar
                },
            )
            &&& shift ==> does('r', KeyAction::Rename) && does('R', KeyAction::Rename)
            &&& !shift ==> does('r', KeyAction::Ignore) && does('R', KeyAction::Ignore)
            &&& does('c', KeyAction::Copy)
            &&& does('v', KeyAction::Paste)
            &&& does('t', KeyAction::NewTab)
            &&& does('n', KeyAction::NewTab)
            &&& does('w', KeyAction::CloseTab)
            &&& '1' <= c && c <= '9' ==> does(
                c,
                KeyAction::SelectTab((c as u32 - '0' as u32 - 1) as u32),
            )
        }),
{
    reveal_strlit("+");
    reveal_strlit("=");
    reveal_strlit("-");
    reveal_strlit("0");
    reveal_strlit("b");
    reveal_strlit("B");
    reveal_strlit("r");
    reveal_strlit("R");
    reveal_strlit("c");
    reveal_strlit("v");
    reveal_strlit("t");
    reveal_strlit("n");
    reveal_strlit("w");
    single_letters();
    assert(seq![c][0] == c);
}

/// Texts of one letter are told apart by the letter.
proof fn single_letters()
    ensures
        "+"@ =~= seq!['+'],
        "="@ =~= seq!['='],
        "-"@ =~= seq!['-'],
        "0"@ =~= seq!['0'],
        "b"@ =~= seq!['b'],
        "B"@ =~= seq!['B'],
        "r"@ =~= seq!['r'],
        "R"@ =~= seq!['R'],
        "c"@ =~= seq!['c'],
        "v"@ =~= seq!['v'],
        "t"@ =~= seq!['t'],
        "n"@ =~= seq!['n'],
        "w"@ =~= seq!['w'],
        forall|a: char, b: char| #![trigger seq![a], seq![b]] seq![a] == seq![b] ==> a == b,
{
    reveal_strlit("+");
    reveal_strlit("=");
    reveal_strlit("-");
    reveal_strlit("0");
    reveal_strlit("b");
    reveal_strlit("B");
    reveal_strlit("r");
    reveal_strlit("R");
    reveal_strlit("c");
    reveal_strlit("v");
    reveal_strlit("t");
    reveal_strlit("n");
    reveal_strlit("w");
    assert forall|a: char, b: char| #![trigger seq![a], seq![b]] seq![a] == seq![b] implies a
        == b by {
        assert(seq![a][0] == seq![b][0]);
    }
}

/// With the control key the tab key goes to the next tab, and with shift to the one before.
pub proof fn control_tab_changes_the_tab(editing: bool)
    ensures
        action_for(
            Key::Named(NamedKey::Tab),
            Modifiers { super_key: false, shift_key: false, control_key: true },
            editing,
        ) == KeyAction::NextTab,
        action_for(
            Key::Named(NamedKey::Tab),
            Modifiers { super_key: false, shift_key: true, control_key: true },
            editing,
        ) == KeyAction::PreviousTab,
{
}

/// Without the command key, and but for the tab key with control, every key belongs to the name that
/// is being edited, and to the program where none is. With the command key, keys without a
/// character are left to the system.
pub proof fn other_keys_are_typed(key: Key, held: Modifiers, named: NamedKey)
    ensures
        !held.super_key && (!held.control_key || key != Key::Named(NamedKey::Tab)) ==> action_for(
            key,
            held,
            true,
        ) == KeyAction::EditName && action_for(key, held, false) == KeyAction::Send,
        held.super_key ==> action_for(Key::Named(named), held, true) == KeyAction::Ignore
            && action_for(Key::Named(named), held, false) == KeyAction::Ignore,
{
}

} // verus!
