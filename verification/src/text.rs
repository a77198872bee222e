//! Character-level text functions: everything here works on the characters of a string, not on
//! its bytes.

use vstd::prelude::*;
use vstd::string::StringExecFns;
use vstd::utf8::{decode_utf8, encode_utf8, valid_utf8};

verus! {

/// `String::push`: appends the given character to the end of the string.
pub assume_specification[ String::push ](s: &mut String, ch: char)
    ensures
        final(s)@ == old(s)@.push(ch),
;

/// `std::str::from_utf8`: the bytes as text where they are valid UTF-8, an error otherwise.
#[verifier::external_body]
pub(crate) fn text_from_utf8(bytes: &[u8]) -> (text: Option<String>)
    ensures
        match text {
            Some(s) => valid_utf8(bytes@) && s@ == decode_utf8(bytes@),
            None => !valid_utf8(bytes@),
        },
{
    std::str::from_utf8(bytes).ok().map(String::from)
}

/// `String::from_utf8_lossy`: what the bytes say, with a replacement character for every part that
/// is no valid UTF-8.
pub uninterp spec fn lossy_text(bytes: Seq<u8>) -> Seq<char>;

/// `String::from_utf8_lossy`: depends on the bytes alone; valid UTF-8 is taken as it is.
#[verifier::external_body]
pub(crate) fn text_from_utf8_lossy(bytes: &[u8]) -> (text: String)
    ensures
        text@ == lossy_text(bytes@),
        valid_utf8(bytes@) ==> text@ == decode_utf8(bytes@),
{
    String::from_utf8_lossy(bytes).into_owned()
}

/// The UTF-8 encoding of a string.
pub fn utf8_of(s: &str) -> (bytes: Vec<u8>)
    ensures
        bytes@ == encode_utf8(s@),
{
    let mut bytes: Vec<u8> = Vec::new();
    bytes.extend_from_slice(s.as_bytes());
    assert(bytes@ =~= encode_utf8(s@));
    bytes
}

/// The characters of a string.
pub fn chars_of(s: &str) -> (chars: Vec<char>)
    ensures
        chars@ == s@,
{
    let mut chars: Vec<char> = Vec::new();
    for c in it: s.chars()
        invariant
            it.seq() == s@,
            chars@ == s@.take(it.index() as int),
    {
        chars.push(c);
    }
    assert(s@.take(s@.len() as int) =~= s@);
    chars
}

/// The string with the characters `[from, to)` of `chars`.
pub fn string_between(chars: &Vec<char>, from: usize, to: usize) -> (s: String)
    requires
        from <= to <= chars@.len(),
    ensures
        s@ == chars@.subrange(from as int, to as int),
{
    let mut s = String::new();
    let mut i: usize = from;
    assert(s@ =~= chars@.subrange(from as int, from as int));
    while i < to
        invariant
            from <= i <= to <= chars@.len(),
            s@ == chars@.subrange(from as int, i as int),
        decreases to - i,
    {
        s.push(chars[i]);
        i = i + 1;
        assert(s@ =~= chars@.subrange(from as int, i as int));
    }
    s
}

/// The string with the given characters.
pub fn string_of(chars: &Vec<char>) -> (s: String)
    ensures
        s@ == chars@,
{
    let s = string_between(chars, 0, chars.len());
    assert(s@ =~= chars@);
    s
}

/// A copy of a string.
pub fn copy_of(s: &str) -> (copy: String)
    ensures
        copy@ == s@,
{
    let mut copy = String::new();
    copy.append(s);
    assert(copy@ =~= s@);
    copy
}

/// Two strings joined.
pub fn joined(a: &str, b: &str) -> (s: String)
    ensures
        s@ == a@ + b@,
{
    let mut s = copy_of(a);
    s.append(b);
    s
}

/// Three strings joined.
pub fn joined3(a: &str, b: &str, c: &str) -> (s: String)
    ensures
        s@ == a@ + b@ + c@,
{
    let mut s = joined(a, b);
    s.append(c);
    s
}

/// Whether two strings hold the same characters.
pub fn same_text(a: &str, b: &str) -> (same: bool)
    ensures
        same == (a@ == b@),
{
    copy_of(a) == copy_of(b)
}

/// The first `max` characters of a text; all of them where there are no more.
pub open spec fn shortened(text: Seq<char>, max: nat) -> Seq<char> {
    if text.len() <= max {
        text
    } else {
        text.take(max as int)
    }
}

/// The first `max` characters of a string.
pub fn first_chars(s: &str, max: usize) -> (head: String)
    ensures
        head@ == shortened(s@, max as nat),
{
    let chars = chars_of(s);
    let n: usize = if chars.len() <= max {
        chars.len()
    } else {
        max
    };
    let head = string_between(&chars, 0, n);
    assert(head@ =~= shortened(s@, max as nat));
    head
}

/// The character of a decimal digit.
pub open spec fn digit_char(d: nat) -> char {
    (('0' as u32) + d) as char
}

/// A number in decimal notation.
pub open spec fn decimal_text(n: nat) -> Seq<char>
    decreases n,
{
    if n < 10 {
        seq![digit_char(n)]
    } else {
        decimal_text(n / 10).push(digit_char(n % 10))
    }
}

/// The character of a decimal digit.
fn digit(d: u8) -> (c: char)
    requires
        d < 10,
    ensures
        c == digit_char(d as nat),
{
    (0x30u8 + d) as char
}

/// A number in decimal notation.
pub fn decimal(n: u64) -> (s: String)
    ensures
        s@ == decimal_text(n as nat),
    decreases n,
{
    if n < 10 {
        let mut s = String::new();
        s.push(digit(n as u8));
        assert(s@ =~= decimal_text(n as nat));
        s
    } else {
        let mut s = decimal(n / 10);
        s.push(digit((n % 10) as u8));
        s
    }
}

/// Whether a text occurs in another one.
pub open spec fn occurs_in(part: Seq<char>, text: Seq<char>) -> bool {
    exists|i: int| occurs_at(part, text, i)
}

/// Whether a text occurs in another one at a position.
pub open spec fn occurs_at(part: Seq<char>, text: Seq<char>, i: int) -> bool {
    0 <= i <= text.len() - part.len() && text.subrange(i, i + part.len()) == part
}

/// The first position at which a text occurs in another one.
pub fn find_text(text: &Vec<char>, part: &Vec<char>) -> (at: Option<usize>)
    ensures
        match at {
            Some(i) => occurs_at(part@, text@, i as int) && forall|k: int|
                0 <= k < i ==> !occurs_at(part@, text@, k),
            None => !occurs_in(part@, text@),
        },
{
    let len: usize = text.len();
    let mut i: usize = 0;
    while i < len && part.len() <= len - i
        invariant
            i <= len == text@.len(),
            forall|k: int| 0 <= k < i ==> !occurs_at(part@, text@, k),
        decreases text@.len() - i,
    {
        let mut k: usize = 0;
        while k < part.len() && text[i + k] == part[k]
            invariant
                i + part@.len() <= text@.len() <= usize::MAX,
                k <= part@.len(),
                forall|j: int| 0 <= j < k ==> text@[i + j] == part@[j],
            decreases part@.len() - k,
        {
            k = k + 1;
        }
        if k == part.len() {
            assert(text@.subrange(i as int, i + part@.len()) =~= part@);
            return Some(i);
        }
        assert(text@.subrange(i as int, i + part@.len())[k as int] == text@[i + k]);
        i = i + 1;
    }
    if part.len() == 0 && i == len {
        assert(text@.subrange(i as int, i as int) =~= part@);
        return Some(i);
    }
    None
}

/// Whether a string occurs in another one.
pub fn contains_text(text: &str, part: &str) -> (found: bool)
    ensures
        found == occurs_in(part@, text@),
{
    find_text(&chars_of(text), &chars_of(part)).is_some()
}

/// Whether a character has the Unicode property White_Space.
pub open spec fn white_space(c: char) -> bool {
    let n = c as u32;
    ||| 0x09 <= n <= 0x0d
    ||| n == 0x20
    ||| n == 0x85
    ||| n == 0xa0
    ||| n == 0x1680
    ||| 0x2000 <= n <= 0x200a
    ||| n == 0x2028
    ||| n == 0x2029
    ||| n == 0x202f
    ||| n == 0x205f
    ||| n == 0x3000
}

/// `char::is_whitespace`: whether the character has the property White_Space.
pub assume_specification[ char::is_whitespace ](c: char) -> (white: bool)
    ensures
        white == white_space(c),
;

/// A text without white space at its front.
pub open spec fn trimmed_front(text: Seq<char>) -> Seq<char>
    decreases text.len(),
{
    if text.len() > 0 && white_space(text[0]) {
        trimmed_front(text.drop_first())
    } else {
        text
    }
}

/// A text without white space at its end.
pub open spec fn trimmed_end(text: Seq<char>) -> Seq<char>
    decreases text.len(),
{
    if text.len() > 0 && white_space(text.last()) {
        trimmed_end(text.drop_last())
    } else {
        text
    }
}

/// A text without white space at its front and its end.
pub open spec fn trimmed(text: Seq<char>) -> Seq<char> {
    trimmed_end(trimmed_front(text))
}

/// A string without white space at its front and its end.
pub fn trim(s: &str) -> (inner: String)
    ensures
        inner@ == trimmed(s@),
{
    let chars = chars_of(s);
    let len: usize = chars.len();
    let mut from: usize = 0;
    assert(chars@.skip(0) =~= chars@);
    while from < len && chars[from].is_whitespace()
        invariant
            from <= len == chars@.len(),
            trimmed_front(chars@) == trimmed_front(chars@.skip(from as int)),
        decreases len - from,
    {
        assert(chars@.skip(from as int).drop_first() =~= chars@.skip(from + 1));
        from = from + 1;
    }
    let ghost front = chars@.skip(from as int);
    assert(trimmed_front(front) == front);
    let mut to: usize = len;
    assert(chars@.subrange(from as int, len as int) =~= front);
    while to > from && chars[to - 1].is_whitespace()
        invariant
            from <= to <= len == chars@.len(),
            trimmed_end(front) == trimmed_end(chars@.subrange(from as int, to as int)),
        decreases to,
    {
        assert(chars@.subrange(from as int, to as int).drop_last() =~= chars@.subrange(
            from as int,
            to - 1,
        ));
        to = to - 1;
    }
    assert(to > from ==> chars@.subrange(from as int, to as int).last() == chars@[to - 1]);
    string_between(&chars, from, to)
}

/// Text split at line ends: the lines that are complete, and what follows the last line end.
#[verifier::ext_equal]
pub struct SplitLines {
    pub complete: Seq<Seq<char>>,
    pub open: Seq<char>,
}

/// A line without the carriage return of its line end.
pub open spec fn without_return(line: Seq<char>) -> Seq<char> {
    if line.len() > 0 && line.last() == '\r' {
        line.drop_last()
    } else {
        line
    }
}

/// Text split at line ends, which are newlines, each with a carriage return before it or not.
pub open spec fn split_lines(text: Seq<char>) -> SplitLines
    decreases text.len(),
{
    if text.len() == 0 {
        SplitLines { complete: Seq::empty(), open: Seq::empty() }
    } else {
        let before = split_lines(text.drop_last());
        if text.last() == '\n' {
            SplitLines {
                complete: before.complete.push(without_return(before.open)),
                open: Seq::empty(),
            }
        } else {
            SplitLines { open: before.open.push(text.last()), ..before }
        }
    }
}

/// The lines of a text; the last line end is optional.
pub open spec fn lines_in(text: Seq<char>) -> Seq<Seq<char>> {
    let split = split_lines(text);
    if split.open.len() > 0 {
        split.complete.push(split.open)
    } else {
        split.complete
    }
}

/// Strings as sequences of characters.
pub open spec fn texts_of(strings: Seq<String>) -> Seq<Seq<char>> {
    Seq::new(strings.len(), |i: int| strings[i]@)
}

/// The lines of a string.
pub fn lines_of(s: &str) -> (lines: Vec<String>)
    ensures
        texts_of(lines@) == lines_in(s@),
{
    let mut lines: Vec<String> = Vec::new();
    let mut open: Vec<char> = Vec::new();
    assert(s@.take(0) =~= Seq::empty());
    assert(texts_of(lines@) =~= Seq::empty());
    for c in it: s.chars()
        invariant
            it.seq() == s@,
            texts_of(lines@) == split_lines(s@.take(it.index() as int)).complete,
            open@ == split_lines(s@.take(it.index() as int)).open,
    {
        let ghost upto = s@.take(it.index() + 1);
        assert(upto.drop_last() =~= s@.take(it.index() as int));
        let ghost before = lines@;
        if c == '\n' {
            let n: usize = open.len();
            let end: usize = if n > 0 && open[n - 1] == '\r' {
                n - 1
            } else {
                n
            };
            let line = string_between(&open, 0, end);
            assert(line@ =~= without_return(open@));
            lines.push(line);
            assert(texts_of(lines@) =~= texts_of(before).push(line@));
            open = Vec::new();
        } else {
            open.push(c);
        }
    }
    assert(s@.take(s@.len() as int) =~= s@);
    if open.len() > 0 {
        let ghost before = lines@;
        let line = string_of(&open);
        lines.push(line);
        assert(texts_of(lines@) =~= texts_of(before).push(line@));
    }
    lines
}

/// Bytes split at line ends: the lines that are complete, and what follows the last line end.
#[verifier::ext_equal]
pub struct SplitBytes {
    pub complete: Seq<Seq<u8>>,
    pub open: Seq<u8>,
}

/// Bytes split at line ends, which are newlines, each with a carriage return before it or not.
pub open spec fn split_bytes(bytes: Seq<u8>) -> SplitBytes
    decreases bytes.len(),
{
    if bytes.len() == 0 {
        SplitBytes { complete: Seq::empty(), open: Seq::empty() }
    } else {
        let before = split_bytes(bytes.drop_last());
        if bytes.last() == 0x0a {
            let line = if before.open.len() > 0 && before.open.last() == 0x0d {
                before.open.drop_last()
            } else {
                before.open
            };
            SplitBytes { complete: before.complete.push(line), open: Seq::empty() }
        } else {
            SplitBytes { open: before.open.push(bytes.last()), ..before }
        }
    }
}

/// The texts of lines of bytes; a line that is no valid UTF-8 is left out.
pub open spec fn readable(lines: Seq<Seq<u8>>) -> Seq<Seq<char>>
    decreases lines.len(),
{
    if lines.len() == 0 {
        Seq::empty()
    } else if valid_utf8(lines.last()) {
        readable(lines.drop_last()).push(decode_utf8(lines.last()))
    } else {
        readable(lines.drop_last())
    }
}

/// The lines of a file that are valid UTF-8; the last line end is optional.
pub open spec fn readable_lines(bytes: Seq<u8>) -> Seq<Seq<char>> {
    let split = split_bytes(bytes);
    readable(
        if split.open.len() > 0 {
            split.complete.push(split.open)
        } else {
            split.complete
        },
    )
}

/// Push the text of a line of bytes, where it is valid UTF-8.
fn push_readable(texts: &mut Vec<String>, line: &Vec<u8>, Ghost(before): Ghost<Seq<Seq<u8>>>)
    requires
        texts_of(old(texts)@) == readable(before),
    ensures
        texts_of(final(texts)@) == readable(before.push(line@)),
{
    assert(before.push(line@).drop_last() =~= before);
    if let Some(text) = text_from_utf8(line.as_slice()) {
        let ghost earlier = texts@;
        texts.push(text);
        assert(texts_of(texts@) =~= texts_of(earlier).push(text@));
    }
}

/// The lines of a file that are valid UTF-8.
pub fn readable_lines_of(bytes: &[u8]) -> (lines: Vec<String>)
    ensures
        texts_of(lines@) == readable_lines(bytes@),
{
    let mut lines: Vec<String> = Vec::new();
    let mut open: Vec<u8> = Vec::new();
    let mut i: usize = 0;
    assert(bytes@.take(0) =~= Seq::empty());
    assert(texts_of(lines@) =~= Seq::empty());
    while i < bytes.len()
        invariant
            i <= bytes@.len(),
            texts_of(lines@) == readable(split_bytes(bytes@.take(i as int)).complete),
            open@ == split_bytes(bytes@.take(i as int)).open,
        decreases bytes@.len() - i,
    {
        let ghost split = split_bytes(bytes@.take(i as int));
        let ghost upto = bytes@.take(i + 1);
        assert(upto.drop_last() =~= bytes@.take(i as int));
        let byte: u8 = bytes[i];
        if byte == 0x0a {
            if open.len() > 0 && open[open.len() - 1] == 0x0d {
                open.pop();
            }
            push_readable(&mut lines, &open, Ghost(split.complete));
            open = Vec::new();
        } else {
            open.push(byte);
        }
        i = i + 1;
    }
    assert(bytes@.take(i as int) =~= bytes@);
    if open.len() > 0 {
        push_readable(&mut lines, &open, Ghost(split_bytes(bytes@).complete));
    }
    lines
}

/// Whether a character is a decimal digit.
pub open spec fn is_digit(c: char) -> bool {
    '0' <= c <= '9'
}

/// The number that decimal digits denote.
pub open spec fn decimal_value(digits: Seq<char>) -> nat
    decreases digits.len(),
{
    if digits.len() == 0 {
        0
    } else {
        decimal_value(digits.drop_last()) * 10 + (digits.last() as u32 - '0' as u32) as nat
    }
}

/// Whether all characters are decimal digits.
pub open spec fn all_digits(text: Seq<char>) -> bool {
    forall|i: int| 0 <= i < text.len() ==> is_digit(#[trigger] text[i])
}

/// The number that a text denotes: digits, with or without a plus sign before them.
pub open spec fn parsed_u32(text: Seq<char>) -> Option<u32> {
    let digits = if text.len() > 0 && text[0] == '+' {
        text.drop_first()
    } else {
        text
    };
    if digits.len() > 0 && all_digits(digits) && decimal_value(digits) <= u32::MAX {
        Some(decimal_value(digits) as u32)
    } else {
        None
    }
}

/// More digits do not make a number smaller.
proof fn decimal_value_grows(digits: Seq<char>, n: int)
    requires
        0 <= n <= digits.len(),
        all_digits(digits),
    ensures
        decimal_value(digits.take(n)) <= decimal_value(digits),
    decreases digits.len(),
{
    if n < digits.len() {
        decimal_value_grows(digits.drop_last(), n);
        assert(digits.drop_last().take(n) =~= digits.take(n));
    } else {
        assert(digits.take(n) =~= digits);
    }
}

/// The number that a string denotes.
pub fn parse_u32(s: &str) -> (n: Option<u32>)
    ensures
        n == parsed_u32(s@),
{
    let chars = chars_of(s);
    let len: usize = chars.len();
    let from: usize = if len > 0 && chars[0] == '+' {
        1
    } else {
        0
    };
    let ghost digits = chars@.skip(from as int);
    assert(from == 1 ==> digits =~= chars@.drop_first());
    assert(from == 0 ==> digits =~= chars@);
    if from == len {
        return None;
    }
    let mut n: u32 = 0;
    let mut i: usize = from;
    assert(digits.take(0) =~= Seq::empty());
    while i < len
        invariant
            from <= i <= len == chars@.len(),
            digits == chars@.skip(from as int),
            digits == (if s@.len() > 0 && s@[0] == '+' {
                s@.drop_first()
            } else {
                s@
            }),
            all_digits(digits.take(i - from)),
            n == decimal_value(digits.take(i - from)),
        decreases len - i,
    {
        let c: char = chars[i];
        let ghost next = digits.take(i - from + 1);
        assert(next.drop_last() =~= digits.take(i - from));
        assert(next.last() == c);
        assert(digits[i - from] == c);
        if !('0' <= c && c <= '9') {
            return None;
        }
        assert(all_digits(next)) by {
            assert forall|k: int| 0 <= k < next.len() implies is_digit(#[trigger] next[k]) by {
                if k < i - from {
                    assert(digits.take(i - from)[k] == next[k]);
                }
            }
        }
        let value: u64 = n as u64 * 10 + (c as u64 - '0' as u64);
        assert(value == decimal_value(next));
        if value > 0xffff_ffff {
            proof {
                if all_digits(digits) {
                    decimal_value_grows(digits, i - from + 1);
                }
            }
            return None;
        }
        n = value as u32;
        i = i + 1;
    }
    assert(digits.take(i - from) =~= digits);
    Some(n)
}

/// In decimal notation each digit stands for ten times the one behind it, and a digit is the
/// character that many places after zero.
pub proof fn digits_stand_for_tens(n: nat, d: nat)
    requires
        d < 10,
    ensures
        decimal_text(d) == seq![('0' as u32 + d) as char],
        n > 0 ==> decimal_text(10 * n + d) == decimal_text(n) + seq![('0' as u32 + d) as char],
{
    assert(decimal_text(d) =~= seq![('0' as u32 + d) as char]);
    if n > 0 {
        assert((10 * n + d) / 10 == n && (10 * n + d) % 10 == d);
        assert(decimal_text(10 * n + d) =~= decimal_text(n) + seq![('0' as u32 + d) as char]);
    }
}

/// The decimal notation of a number holds digits alone and denotes the number.
pub proof fn decimal_notation_denotes_its_number(n: nat)
    ensures
        decimal_text(n).len() > 0,
        forall|i: int|
            0 <= i < decimal_text(n).len() ==> '0' <= #[trigger] decimal_text(n)[i]
                && decimal_text(n)[i] <= '9',
        decimal_value(decimal_text(n)) == n,
        n <= u32::MAX ==> parsed_u32(decimal_text(n)) == Some(n as u32),
        n <= u32::MAX ==> parsed_u32(seq!['+'] + decimal_text(n)) == Some(n as u32),
    decreases n,
{
    let text = decimal_text(n);
    if n < 10 {
        reveal_with_fuel(decimal_value, 2);
        assert(text.drop_last() =~= Seq::empty());
    } else {
        decimal_notation_denotes_its_number(n / 10);
        assert(text.drop_last() =~= decimal_text(n / 10));
    }
    assert((seq!['+'] + text).drop_first() =~= text);
    assert(all_digits(text));
}

/// Different numbers are written differently.
pub proof fn different_numbers_are_written_differently(a: nat, b: nat)
    requires
        a != b,
    ensures
        decimal_text(a) != decimal_text(b),
{
    decimal_notation_denotes_its_number(a);
    decimal_notation_denotes_its_number(b);
}

/// A text with anything but digits in it is no number, up to a plus sign at its front; nor is one
/// without digits.
pub proof fn other_texts_are_no_numbers(text: Seq<char>, i: int)
    requires
        0 <= i < text.len(),
        !('0' <= text[i] && text[i] <= '9'),
        i == 0 ==> text[i] != '+' || text.len() == 1,
    ensures
        parsed_u32(text) is None,
        parsed_u32(Seq::empty()) is None,
{
    if text[0] == '+' && text.len() > 1 {
        assert(text.drop_first()[i - 1] == text[i]);
    }
}

/// Trimming takes away the white space at both ends and nothing else: not the text between, nor
/// the white space inside it.
pub proof fn trimming_leaves_the_inner_text(front: Seq<char>, inner: Seq<char>, back: Seq<char>)
    requires
        forall|i: int| 0 <= i < front.len() ==> white_space(#[trigger] front[i]),
        forall|i: int| 0 <= i < back.len() ==> white_space(#[trigger] back[i]),
        inner.len() > 0,
        !white_space(inner[0]),
        !white_space(inner.last()),
    ensures
        trimmed(front + inner + back) == inner,
        trimmed(front) == Seq::<char>::empty(),
{
    trimming_the_front(front, inner + back);
    assert(front + inner + back =~= front + (inner + back));
    trimming_the_end(inner, back);
    trimming_the_front(front, Seq::empty());
    assert(front + Seq::<char>::empty() =~= front);
}

proof fn trimming_the_front(front: Seq<char>, rest: Seq<char>)
    requires
        forall|i: int| 0 <= i < front.len() ==> white_space(#[trigger] front[i]),
        rest.len() > 0 ==> !white_space(rest[0]),
    ensures
        trimmed_front(front + rest) == rest,
    decreases front.len(),
{
    if front.len() > 0 {
        assert((front + rest).drop_first() =~= front.drop_first() + rest);
        trimming_the_front(front.drop_first(), rest);
    } else {
        assert(front + rest =~= rest);
    }
}

proof fn trimming_the_end(rest: Seq<char>, back: Seq<char>)
    requires
        forall|i: int| 0 <= i < back.len() ==> white_space(#[trigger] back[i]),
        rest.len() > 0,
        !white_space(rest.last()),
    ensures
        trimmed_end(rest + back) == rest,
    decreases back.len(),
{
    if back.len() > 0 {
        assert((rest + back).drop_last() =~= rest + back.drop_last());
        trimming_the_end(rest, back.drop_last());
    } else {
        assert(rest + back =~= rest);
    }
}

/// Blanks, tabs and line ends are white space; printable ASCII characters are not.
pub proof fn blanks_are_white_space(c: char)
    ensures
        white_space(' '),
        white_space('\t'),
        white_space('\n'),
        white_space('\r'),
        white_space('\u{a0}'),
        white_space('\u{3000}'),
        '!' <= c && c <= '~' ==> !white_space(c),
{
}

/// A line and a line end after complete lines are one more line, whether or not a carriage return
/// belongs to the line end; without a line end a line is the last one.
pub proof fn lines_end_at_newlines(text: Seq<char>, line: Seq<char>)
    requires
        split_lines(text).open.len() == 0,
        forall|i: int| 0 <= i < line.len() ==> #[trigger] line[i] != '\n',
    ensures
        (line.len() > 0 ==> line.last() != '\r') ==> lines_in(text + line + seq!['\n']) == lines_in(
            text,
        ).push(line),
        lines_in(text + line + seq!['\r', '\n']) == lines_in(text).push(line),
        line.len() > 0 ==> lines_in(text + line) == lines_in(text).push(line),
        line.len() == 0 ==> lines_in(text + line) == lines_in(text),
        lines_in(Seq::empty()) == Seq::<Seq<char>>::empty(),
{
    an_open_line(text, line);
    let ended = text + line + seq!['\n'];
    assert(ended.drop_last() =~= text + line);
    assert(line.len() > 0 ==> line.push('\r').last() == '\r');
    let returned = text + line + seq!['\r', '\n'];
    assert(returned.drop_last() =~= text + line.push('\r'));
    an_open_line(text, line.push('\r'));
    assert(line.push('\r').drop_last() =~= line);
    if line.len() == 0 {
        assert(text + line =~= text);
    }
}

proof fn an_open_line(text: Seq<char>, line: Seq<char>)
    requires
        split_lines(text).open.len() == 0,
        forall|i: int| 0 <= i < line.len() ==> #[trigger] line[i] != '\n',
    ensures
        split_lines(text + line).complete == split_lines(text).complete,
        split_lines(text + line).open == line,
    decreases line.len(),
{
    if line.len() == 0 {
        assert(text + line =~= text);
        assert(split_lines(text).open =~= line);
    } else {
        an_open_line(text, line.drop_last());
        assert((text + line).drop_last() =~= text + line.drop_last());
        assert(line.drop_last().push(line.last()) =~= line);
    }
}

/// In a file, too, a line and a line end after complete lines are one more line; a line that is no
/// valid UTF-8 is passed over.
pub proof fn lines_of_a_file_end_at_newlines(bytes: Seq<u8>, line: Seq<u8>)
    requires
        split_bytes(bytes).open.len() == 0,
        forall|i: int| 0 <= i < line.len() ==> #[trigger] line[i] != 0x0a,
        line.len() > 0 ==> line.last() != 0x0d,
    ensures
        readable_lines(bytes + line + seq![0x0au8]) == if valid_utf8(line) {
            readable_lines(bytes).push(decode_utf8(line))
        } else {
            readable_lines(bytes)
        },
        readable_lines(bytes + line + seq![0x0du8, 0x0au8]) == readable_lines(
            bytes + line + seq![0x0au8],
        ),
        line.len() > 0 ==> readable_lines(bytes + line) == readable_lines(
            bytes + line + seq![0x0au8],
        ),
        readable_lines(Seq::empty()) == Seq::<Seq<char>>::empty(),
{
    an_open_line_of_bytes(bytes, line);
    let ended = bytes + line + seq![0x0au8];
    assert(ended.drop_last() =~= bytes + line);
    let returned = bytes + line + seq![0x0du8, 0x0au8];
    assert(returned.drop_last() =~= bytes + line.push(0x0d));
    an_open_line_of_bytes(bytes, line.push(0x0d));
    assert(line.push(0x0d).drop_last() =~= line);
    let before = split_bytes(bytes).complete;
    assert(before.push(line).drop_last() =~= before);
}

proof fn an_open_line_of_bytes(bytes: Seq<u8>, line: Seq<u8>)
    requires
        split_bytes(bytes).open.len() == 0,
        forall|i: int| 0 <= i < line.len() ==> #[trigger] line[i] != 0x0a,
    ensures
        split_bytes(bytes + line).complete == split_bytes(bytes).complete,
        split_bytes(bytes + line).open == line,
    decreases line.len(),
{
    if line.len() == 0 {
        assert(bytes + line =~= bytes);
        assert(split_bytes(bytes).open =~= line);
    } else {
        an_open_line_of_bytes(bytes, line.drop_last());
        assert((bytes + line).drop_last() =~= bytes + line.drop_last());
        assert(line.drop_last().push(line.last()) =~= line);
    }
}

/// A shortened text is the front of the text, as long as it may be.
pub proof fn shortened_texts_are_fronts(text: Seq<char>, max: nat)
    ensures
        shortened(text, max).len() == if text.len() < max {
            text.len()
        } else {
            max
        },
        shortened(text, max).is_prefix_of(text),
{
}

} // verus!
