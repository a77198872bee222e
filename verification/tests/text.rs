use pylon::error::CockpitError;
use pylon::text::{
    chars_of, contains_text, copy_of, decimal, find_text, first_chars, joined, joined3, lines_of,
    parse_u32, same_text, string_between, string_of, trim, utf8_of,
};

#[test]
fn texts_are_taken_apart_and_put_together() {
    assert_eq!(chars_of("a\u{20ac}b"), vec!['a', '\u{20ac}', 'b']);
    assert_eq!(string_of(&vec!['x', '\u{e9}']), "x\u{e9}");
    assert_eq!(string_between(&vec!['a', 'b', 'c', 'd'], 1, 3), "bc");
    assert_eq!(copy_of("abc"), "abc");
    assert_eq!(joined("ab", "cd"), "abcd");
    assert_eq!(joined3("a", "", "c"), "ac");
    assert_eq!(utf8_of("\u{20ac}"), vec![0xe2, 0x82, 0xac]);
    assert!(same_text("x", "x") && !same_text("x", "X"));
    assert_eq!(first_chars("\u{e9}\u{e8}\u{ea}", 2), "\u{e9}\u{e8}");
    assert_eq!(first_chars("ab", 5), "ab");
}

#[test]
fn numbers_become_text_and_back() {
    assert_eq!(decimal(0), "0");
    assert_eq!(decimal(u64::MAX), "18446744073709551615");
    assert_eq!(parse_u32("4294967295"), Some(u32::MAX));
    assert_eq!(parse_u32("+7"), Some(7));
    for bad in ["", "+", "-1", "4294967296", "1a", " 1", "99999999999999999999"] {
        assert_eq!(parse_u32(bad), None);
        assert_eq!(bad.parse::<u32>().ok(), None);
    }
}

#[test]
fn texts_are_found_in_texts() {
    assert!(contains_text("HTTP 401 Unauthorized", "401"));
    assert!(!contains_text("HTTP 41", "401"));
    assert!(contains_text("", ""));
    assert_eq!(find_text(&chars_of("aab"), &chars_of("ab")), Some(1));
    assert_eq!(find_text(&chars_of("ab"), &chars_of("abc")), None);
}

#[test]
fn white_space_is_trimmed() {
    for s in ["  a b\t\n", "", " \u{3000}\u{a0}", "x", "\u{200b}y\u{2028}", "\u{85}z"] {
        assert_eq!(trim(s), s.trim());
    }
}

#[test]
fn lines_end_with_or_without_a_return() {
    for s in ["", "a", "a\n", "a\r\nb\n\nc", "\n", "\r", "a\rb\r\n\r"] {
        let lines: Vec<&str> = s.lines().collect();
        assert_eq!(lines_of(s), lines);
    }
}

#[test]
fn errors_say_where_they_come_from() {
    let m = || "x".to_string();
    assert_eq!(CockpitError::Pty(m()).message(), "PTY error: x");
    assert_eq!(CockpitError::Parse(m()).message(), "Parse error: x");
    assert_eq!(CockpitError::Render(m()).message(), "Render error: x");
    assert_eq!(CockpitError::Metal(m()).message(), "Metal error: x");
    assert_eq!(CockpitError::Glyph(m()).message(), "Glyph error: x");
    assert_eq!(CockpitError::Config(m()).message(), "Config error: x");
    assert_eq!(CockpitError::Session(m()).message(), "Session error: x");
    assert_eq!(CockpitError::Sidebar(m()).message(), "Sidebar error: x");
    let io = CockpitError::Io { path: "/p".to_string(), source: m() };
    assert_eq!(io.message(), "I/O error at /p: x");
}
