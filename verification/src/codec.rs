//! The building blocks of the token grammar: fixed words, quoted strings and
//! decimal numbers. Each has a writer, a reader that takes it off the front
//! of a text, and the two facts that make them inverse to each other.

use crate::text::{chars_of, push_char};
use vstd::prelude::*;
use vstd::string::*;

verus! {

/// Whether `s` begins with the characters of `word`.
pub open spec fn starts_with(s: Seq<char>, word: Seq<char>) -> bool {
    word.len() <= s.len() && s.take(word.len() as int) == word
}

/// The letter that stands behind a backslash for `c`, for the characters
/// that have one.
pub open spec fn short_escape(c: char) -> Option<char> {
    if c == '"' {
        Some('"')
    } else if c == '\\' {
        Some('\\')
    } else if c == '\u{8}' {
        Some('b')
    } else if c == '\u{c}' {
        Some('f')
    } else if c == '\n' {
        Some('n')
    } else if c == '\r' {
        Some('r')
    } else if c == '\t' {
        Some('t')
    } else {
        None
    }
}

/// The character that the letter `letter` stands for behind a backslash.
pub open spec fn short_unescape(letter: char) -> Option<char> {
    if letter == '"' {
        Some('"')
    } else if letter == '\\' {
        Some('\\')
    } else if letter == 'b' {
        Some('\u{8}')
    } else if letter == 'f' {
        Some('\u{c}')
    } else if letter == 'n' {
        Some('\n')
    } else if letter == 'r' {
        Some('\r')
    } else if letter == 't' {
        Some('\t')
    } else {
        None
    }
}

/// Whether `c` is a control character, which is never written as itself.
pub open spec fn is_control(c: char) -> bool {
    (c as u32) < 0x20
}

/// The character for the hexadecimal digit `d`, in lower case.
pub open spec fn hex_digit(d: int) -> char {
    if d < 10 {
        (48 + d) as char
    } else {
        (87 + d) as char
    }
}

/// The hexadecimal digit that `c` stands for, in lower case.
pub open spec fn hex_value(c: char) -> Option<int> {
    if '0' <= c <= '9' {
        Some(c as int - 48)
    } else if 'a' <= c <= 'f' {
        Some(c as int - 87)
    } else {
        None
    }
}

/// How one character is written between quotes: a quote, a backslash and
/// the common control characters as a backslash and a letter, the other
/// control characters by their number, everything else as itself.
pub open spec fn escaped_char(c: char) -> Seq<char> {
    match short_escape(c) {
        Some(letter) => seq!['\\', letter],
        None => if is_control(c) {
            seq!['\\', 'u', '0', '0', hex_digit(c as int / 16), hex_digit(c as int % 16)]
        } else {
            seq![c]
        },
    }
}

/// The control character written by its number at the front of `s`, which
/// starts behind the backslash; nothing where `s` starts otherwise or the
/// character has a letter of its own.
pub open spec fn numbered_unescape(s: Seq<char>) -> Option<char> {
    if s.len() >= 5 && s[0] == 'u' && s[1] == '0' && s[2] == '0' {
        match (hex_value(s[3]), hex_value(s[4])) {
            (Some(high), Some(low)) => {
                let c = (high * 16 + low) as char;
                if high * 16 + low < 0x20 && short_escape(c) is None {
                    Some(c)
                } else {
                    None
                }
            },
            _ => None,
        }
    } else {
        None
    }
}

/// How a string is written between quotes.
pub open spec fn escaped(s: Seq<char>) -> Seq<char>
    decreases s.len(),
{
    if s.len() == 0 {
        Seq::empty()
    } else {
        escaped_char(s[0]) + escaped(s.drop_first())
    }
}

/// A string in quotes, with the quotes and backslashes inside it escaped.
pub open spec fn quoted(s: Seq<char>) -> Seq<char> {
    seq!['"'] + escaped(s) + seq!['"']
}

/// Whether `c` is one of `0` to `9`.
pub open spec fn is_digit(c: char) -> bool {
    '0' <= c <= '9'
}

/// The character for the digit `d`.
pub open spec fn digit(d: int) -> char {
    (48 + d) as char
}

/// The digit that the character `c` stands for.
pub open spec fn digit_value(c: char) -> int {
    c as int - 48
}

/// A number in decimal, without leading zeros.
pub open spec fn decimal(n: nat) -> Seq<char>
    decreases n,
{
    if n < 10 {
        seq![digit(n as int)]
    } else {
        decimal(n / 10).push(digit((n % 10) as int))
    }
}

/// The character that the escape at the front of `s` stands for, and how
/// many characters the escape takes; `s` starts at the backslash.
spec fn parse_escape(s: Seq<char>) -> Option<(char, int)> {
    if s.len() >= 2 && short_unescape(s[1]) is Some {
        Some((short_unescape(s[1])->0, 2))
    } else if numbered_unescape(s.skip(1)) is Some {
        Some((numbered_unescape(s.skip(1))->0, 6))
    } else {
        None
    }
}

/// The string read from the front of `s` up to its closing quote, and how
/// many characters that took; `s` starts after the opening quote.
spec fn parse_escaped(s: Seq<char>) -> Option<(Seq<char>, int)>
    decreases s.len(),
{
    if s.len() == 0 {
        None
    } else if s[0] == '"' {
        Some((Seq::empty(), 1))
    } else if s[0] == '\\' {
        match parse_escape(s) {
            Some((c, k)) => match parse_escaped(s.skip(k)) {
                Some((v, n)) => Some((seq![c] + v, n + k)),
                None => None,
            },
            None => None,
        }
    } else if is_control(s[0]) {
        None
    } else {
        match parse_escaped(s.skip(1)) {
            Some((v, n)) => Some((seq![s[0]] + v, n + 1)),
            None => None,
        }
    }
}

/// The quoted string at the front of `s`, and how many characters it takes.
pub closed spec fn parse_quoted(s: Seq<char>) -> Option<(Seq<char>, int)> {
    if s.len() > 0 && s[0] == '"' {
        match parse_escaped(s.skip(1)) {
            Some((v, n)) => Some((v, n + 1)),
            None => None,
        }
    } else {
        None
    }
}

/// The number that the digits of `d` spell after the digits that gave `acc`.
spec fn value_from(d: Seq<char>, acc: nat) -> nat
    decreases d.len(),
{
    if d.len() == 0 {
        acc
    } else {
        value_from(d.skip(1), (acc * 10 + digit_value(d[0])) as nat)
    }
}

/// Reads the digits at the front of `s` after digits that gave `acc`: the
/// number read and how many digits it took, or nothing where the number
/// leaves the range of `usize`.
spec fn parse_digits(s: Seq<char>, acc: nat) -> Option<(nat, int)>
    decreases s.len(),
{
    if s.len() > 0 && is_digit(s[0]) {
        let next = (acc * 10 + digit_value(s[0])) as nat;
        if next > usize::MAX {
            None
        } else {
            match parse_digits(s.skip(1), next) {
                Some((v, n)) => Some((v, n + 1)),
                None => None,
            }
        }
    } else {
        Some((acc, 0))
    }
}

/// The decimal number at the front of `s`, and how many characters it takes.
pub closed spec fn parse_decimal(s: Seq<char>) -> Option<(usize, int)> {
    if !(s.len() > 0 && is_digit(s[0])) {
        None
    } else if s[0] == '0' && s.len() > 1 && is_digit(s[1]) {
        None
    } else {
        match parse_digits(s, 0) {
            Some((v, n)) => Some((v as usize, n)),
            None => None,
        }
    }
}

pub proof fn escaped_concat(a: Seq<char>, b: Seq<char>)
    ensures
        escaped(a + b) == escaped(a) + escaped(b),
    decreases a.len(),
{
    if a.len() == 0 {
        assert(a + b == b);
    } else {
        escaped_concat(a.drop_first(), b);
        assert((a + b).drop_first() == a.drop_first() + b);
    }
}

proof fn parse_escape_complete(c: char, rest: Seq<char>)
    requires
        short_escape(c) is Some || is_control(c),
    ensures
        parse_escape(escaped_char(c) + rest) == Some((c, escaped_char(c).len() as int)),
{
    let s = escaped_char(c) + rest;
    if short_escape(c) is Some {
        assert(s[1] == short_escape(c)->0);
    } else {
        let behind = s.skip(1);
        let high = c as int / 16;
        let low = c as int % 16;
        assert(s[1] == 'u');
        assert(behind[0] == 'u' && behind[1] == '0' && behind[2] == '0');
        assert(behind[3] == hex_digit(high));
        assert(behind[4] == hex_digit(low));
        assert(hex_value(hex_digit(high)) == Some(high));
        assert(hex_value(hex_digit(low)) == Some(low));
        assert((high * 16 + low) as char == c);
    }
}

proof fn parse_escape_sound(s: Seq<char>)
    requires
        s.len() > 0,
        s[0] == '\\',
    ensures
        parse_escape(s) matches Some((c, k)) ==> 2 <= k <= s.len() && s.take(k) == escaped_char(
            c,
        ),
{
    if s.len() >= 2 && short_unescape(s[1]) is Some {
        let c = short_unescape(s[1])->0;
        assert(escaped_char(c) == seq!['\\', s[1]]);
        assert(s.take(2) == seq!['\\', s[1]]);
    } else if numbered_unescape(s.skip(1)) is Some {
        let behind = s.skip(1);
        let c = numbered_unescape(behind)->0;
        assert(behind[0] == s[1] && behind[1] == s[2] && behind[2] == s[3] && behind[3] == s[4]
            && behind[4] == s[5]);
        let high = hex_value(s[4])->0;
        let low = hex_value(s[5])->0;
        assert(c as int == high * 16 + low);
        assert(hex_digit(c as int / 16) == s[4]);
        assert(hex_digit(c as int % 16) == s[5]);
        assert(escaped_char(c) == seq!['\\', 'u', '0', '0', s[4], s[5]]);
        assert(s.take(6) == seq!['\\', 'u', '0', '0', s[4], s[5]]);
    }
}

proof fn parse_escaped_complete(v: Seq<char>, rest: Seq<char>)
    ensures
        parse_escaped(escaped(v) + seq!['"'] + rest) == Some((v, escaped(v).len() as int + 1)),
    decreases v.len(),
{
    let s = escaped(v) + seq!['"'] + rest;
    if v.len() > 0 {
        let c = v[0];
        let tail = v.drop_first();
        let after = escaped(tail) + seq!['"'] + rest;
        parse_escaped_complete(tail, rest);
        assert(seq![c] + tail == v);
        assert(s == escaped_char(c) + after);
        assert(s.skip(escaped_char(c).len() as int) == after);
        if short_escape(c) is Some || is_control(c) {
            parse_escape_complete(c, after);
            assert(s[0] == '\\');
        } else {
            assert(s[0] == c);
        }
    }
}

proof fn parse_escaped_sound(s: Seq<char>)
    ensures
        parse_escaped(s) matches Some((v, n)) ==> 1 <= n <= s.len() && s.take(n) == escaped(v)
            + seq!['"'],
    decreases s.len(),
{
    if s.len() == 0 {
    } else if s[0] == '"' {
        assert(s.take(1) == Seq::<char>::empty() + seq!['"']);
    } else if s[0] == '\\' {
        parse_escape_sound(s);
        if let Some((c, k)) = parse_escape(s) {
            parse_escaped_sound(s.skip(k));
            if let Some((v, n)) = parse_escaped(s.skip(k)) {
                let whole = seq![c] + v;
                assert(whole.drop_first() == v);
                assert(s.take(n + k) == s.take(k) + s.skip(k).take(n));
            }
        }
    } else if is_control(s[0]) {
    } else {
        parse_escaped_sound(s.skip(1));
        if let Some((v, n)) = parse_escaped(s.skip(1)) {
            let whole = seq![s[0]] + v;
            assert(whole.drop_first() == v);
            assert(s.take(n + 1) == seq![s[0]] + s.skip(1).take(n));
        }
    }
}

/// A quoted string at the front of a text is read back as it was written.
pub proof fn parse_quoted_complete(v: Seq<char>, rest: Seq<char>)
    ensures
        parse_quoted(quoted(v) + rest) == Some((v, quoted(v).len() as int)),
{
    let s = quoted(v) + rest;
    parse_escaped_complete(v, rest);
    assert(s.skip(1) == escaped(v) + seq!['"'] + rest);
}

/// Whatever is read as a quoted string is the quoted form of what was read.
pub proof fn parse_quoted_sound(s: Seq<char>)
    ensures
        parse_quoted(s) matches Some((v, n)) ==> 2 <= n <= s.len() && s.take(n) == quoted(v),
{
    if s.len() > 0 && s[0] == '"' {
        parse_escaped_sound(s.skip(1));
        if let Some((v, n)) = parse_escaped(s.skip(1)) {
            assert(s.take(n + 1) == seq!['"'] + s.skip(1).take(n));
        }
    }
}

proof fn value_from_at_least(d: Seq<char>, acc: nat)
    requires
        forall|j: int| 0 <= j < d.len() ==> is_digit(d[j]),
    ensures
        value_from(d, acc) >= acc,
    decreases d.len(),
{
    if d.len() > 0 {
        value_from_at_least(d.skip(1), (acc * 10 + digit_value(d[0])) as nat);
    }
}

proof fn value_from_push(d: Seq<char>, c: char, acc: nat)
    requires
        forall|j: int| 0 <= j < d.len() ==> is_digit(d[j]),
        is_digit(c),
    ensures
        value_from(d.push(c), acc) == value_from(d, acc) * 10 + digit_value(c),
    decreases d.len(),
{
    if d.len() == 0 {
        assert(d.push(c).skip(1) == Seq::<char>::empty());
        assert(value_from(d.push(c).skip(1), (acc * 10 + digit_value(c)) as nat) == acc * 10
            + digit_value(c));
    } else {
        assert(d.push(c).skip(1) == d.skip(1).push(c));
        value_from_push(d.skip(1), c, (acc * 10 + digit_value(d[0])) as nat);
    }
}

/// The decimal form of a number is made of digits and starts with a zero
/// only for a number under ten.
pub proof fn decimal_spells(n: nat)
    ensures
        decimal(n).len() >= 1,
        forall|j: int| 0 <= j < decimal(n).len() ==> is_digit(#[trigger] decimal(n)[j]),
        n >= 10 ==> decimal(n).len() >= 2 && decimal(n)[0] != '0',
        n < 10 ==> decimal(n) == seq![digit(n as int)],
    decreases n,
{
    if n >= 10 {
        decimal_spells(n / 10);
    }
}

proof fn decimal_has_its_value(n: nat)
    ensures
        value_from(decimal(n), 0) == n,
    decreases n,
{
    decimal_spells(n);
    if n < 10 {
        let d = decimal(n);
        assert(d.skip(1) == Seq::<char>::empty());
        assert(value_from(d.skip(1), n) == n);
    } else {
        decimal_spells(n / 10);
        decimal_has_its_value(n / 10);
        value_from_push(decimal(n / 10), digit((n % 10) as int), 0);
    }
}

proof fn decimal_of_value(d: Seq<char>)
    requires
        d.len() >= 1,
        forall|j: int| 0 <= j < d.len() ==> is_digit(d[j]),
        d.len() > 1 ==> d[0] != '0',
    ensures
        decimal(value_from(d, 0)) == d,
    decreases d.len(),
{
    let head = d.drop_last();
    let last = d.last();
    assert(d == head.push(last));
    value_from_push(head, last, 0);
    if head.len() == 0 {
        assert(value_from(head, 0) == 0);
        assert(decimal(digit_value(last) as nat) == seq![last]);
    } else {
        decimal_of_value(head);
        assert(value_from(head, 0) >= 1) by {
            value_from_at_least(head.skip(1), digit_value(head[0]) as nat);
        }
        let v = value_from(d, 0);
        assert(v / 10 == value_from(head, 0) && v % 10 == digit_value(last));
    }
}

proof fn parse_digits_complete(d: Seq<char>, rest: Seq<char>, acc: nat)
    requires
        forall|j: int| 0 <= j < d.len() ==> is_digit(d[j]),
        rest.len() == 0 || !is_digit(rest[0]),
        value_from(d, acc) <= usize::MAX,
    ensures
        parse_digits(d + rest, acc) == Some((value_from(d, acc), d.len() as int)),
    decreases d.len(),
{
    let s = d + rest;
    if d.len() == 0 {
        assert(s == rest);
    } else {
        let next = (acc * 10 + digit_value(d[0])) as nat;
        value_from_at_least(d.skip(1), next);
        assert(s.skip(1) == d.skip(1) + rest);
        parse_digits_complete(d.skip(1), rest, next);
    }
}

proof fn parse_digits_sound(s: Seq<char>, acc: nat)
    ensures
        parse_digits(s, acc) matches Some((v, n)) ==> {
            &&& 0 <= n <= s.len()
            &&& forall|j: int| 0 <= j < n ==> is_digit(s[j])
            &&& n == s.len() || !is_digit(s[n])
            &&& v == value_from(s.take(n), acc)
            &&& v <= usize::MAX || n == 0
        },
    decreases s.len(),
{
    if s.len() > 0 && is_digit(s[0]) {
        let next = (acc * 10 + digit_value(s[0])) as nat;
        if next <= usize::MAX {
            parse_digits_sound(s.skip(1), next);
            if let Some((v, n)) = parse_digits(s.skip(1), next) {
                assert(s.take(n + 1).skip(1) == s.skip(1).take(n));
                assert forall|j: int| 0 <= j < n + 1 implies is_digit(s[j]) by {
                    if j > 0 {
                        assert(s[j] == s.skip(1)[j - 1]);
                    }
                }
                value_from_at_least(s.skip(1).take(n), next);
            }
        }
    } else {
        assert(s.take(0) == Seq::<char>::empty());
    }
}

/// A decimal number at the front of a text is read back as it was written,
/// as long as no digit follows it.
pub proof fn parse_decimal_complete(n: usize, rest: Seq<char>)
    requires
        rest.len() == 0 || !is_digit(rest[0]),
    ensures
        parse_decimal(decimal(n as nat) + rest) == Some((n, decimal(n as nat).len() as int)),
{
    let d = decimal(n as nat);
    let s = d + rest;
    decimal_spells(n as nat);
    decimal_has_its_value(n as nat);
    parse_digits_complete(d, rest, 0);
    assert(s[0] == d[0]);
    if d.len() > 1 {
        assert(s[1] == d[1]);
    } else if rest.len() > 0 {
        assert(s[1] == rest[0]);
    }
}

/// Whatever is read as a decimal number is the decimal form of what was
/// read, and no digit follows it.
pub proof fn parse_decimal_sound(s: Seq<char>)
    ensures
        parse_decimal(s) matches Some((v, n)) ==> {
            &&& 1 <= n <= s.len()
            &&& s.take(n) == decimal(v as nat)
            &&& n == s.len() || !is_digit(s[n])
        },
{
    parse_digits_sound(s, 0);
    if let Some((v, n)) = parse_decimal(s) {
        let d = s.take(n);
        assert(forall|j: int| 0 <= j < n ==> d[j] == s[j]);
        decimal_of_value(d);
    }
}

/// Looks for `word` in `text` at `pos`; gives the position after it.
pub(crate) fn expect(text: &Vec<char>, pos: usize, word: &str) -> (next: Option<usize>)
    requires
        pos <= text.len(),
    ensures
        match next {
            Some(next) => starts_with(text@.skip(pos as int), word@) && next == pos + word@.len(),
            None => !starts_with(text@.skip(pos as int), word@),
        },
{
    let wanted = chars_of(word);
    let ghost rest = text@.skip(pos as int);
    if wanted.len() > text.len() - pos {
        return None;
    }
    let mut i: usize = 0;
    while i < wanted.len()
        invariant
            i <= wanted.len() <= text.len() - pos,
            wanted@ == word@,
            rest == text@.skip(pos as int),
            forall|j: int| 0 <= j < i ==> rest[j] == wanted@[j],
        decreases wanted.len() - i,
    {
        assert(rest[i as int] == text@[pos + i]);
        if text[pos + i] != wanted[i] {
            assert(rest.take(wanted@.len() as int)[i as int] != wanted@[i as int]);
            return None;
        }
        i += 1;
    }
    assert(rest.take(wanted@.len() as int) == wanted@);
    Some(pos + wanted.len())
}

fn letter_of(c: char) -> (letter: Option<char>)
    ensures
        letter == short_escape(c),
{
    if c == '"' {
        Some('"')
    } else if c == '\\' {
        Some('\\')
    } else if c == '\u{8}' {
        Some('b')
    } else if c == '\u{c}' {
        Some('f')
    } else if c == '\n' {
        Some('n')
    } else if c == '\r' {
        Some('r')
    } else if c == '\t' {
        Some('t')
    } else {
        None
    }
}

fn char_of_letter(letter: char) -> (c: Option<char>)
    ensures
        c == short_unescape(letter),
{
    if letter == '"' {
        Some('"')
    } else if letter == '\\' {
        Some('\\')
    } else if letter == 'b' {
        Some('\u{8}')
    } else if letter == 'f' {
        Some('\u{c}')
    } else if letter == 'n' {
        Some('\n')
    } else if letter == 'r' {
        Some('\r')
    } else if letter == 't' {
        Some('\t')
    } else {
        None
    }
}

fn hex_char(d: u8) -> (c: char)
    requires
        d < 16,
    ensures
        c == hex_digit(d as int),
{
    if d < 10 {
        (d + 48) as char
    } else {
        (d + 87) as char
    }
}

fn hex_of(c: char) -> (d: Option<u8>)
    ensures
        match d {
            Some(d) => hex_value(c) == Some(d as int) && d < 16,
            None => hex_value(c) is None,
        },
{
    if '0' <= c && c <= '9' {
        Some((c as u32 - 48) as u8)
    } else if 'a' <= c && c <= 'f' {
        Some((c as u32 - 87) as u8)
    } else {
        None
    }
}

/// Reads the escape in `text` at the backslash at `pos`; gives the
/// character it stands for and the position after it.
fn read_escape(text: &Vec<char>, pos: usize) -> (found: Option<(char, usize)>)
    requires
        pos < text.len(),
    ensures
        match found {
            Some((c, next)) => pos < next <= text.len() && parse_escape(text@.skip(pos as int))
                == Some((c, next - pos)),
            None => parse_escape(text@.skip(pos as int)) is None,
        },
{
    let ghost s = text@.skip(pos as int);
    let ghost behind = s.skip(1);
    if pos + 1 < text.len() {
        assert(s[1] == text@[pos + 1]);
        if let Some(c) = char_of_letter(text[pos + 1]) {
            return Some((c, pos + 2));
        }
    }
    if text.len() - pos < 6 {
        return None;
    }
    assert(behind[0] == text@[pos + 1] && behind[1] == text@[pos + 2] && behind[2] == text@[pos
        + 3] && behind[3] == text@[pos + 4] && behind[4] == text@[pos + 5]);
    if text[pos + 1] != 'u' || text[pos + 2] != '0' || text[pos + 3] != '0' {
        return None;
    }
    let high = match hex_of(text[pos + 4]) {
        Some(high) => high,
        None => { return None; },
    };
    let low = match hex_of(text[pos + 5]) {
        Some(low) => low,
        None => { return None; },
    };
    if high >= 2 {
        return None;
    }
    let c = (high * 16 + low) as char;
    if letter_of(c).is_some() {
        return None;
    }
    Some((c, pos + 6))
}

/// Reads the quoted string in `text` at `pos`; gives the string and the
/// position after its closing quote.
pub(crate) fn read_quoted(text: &Vec<char>, pos: usize) -> (found: Option<(String, usize)>)
    requires
        pos <= text.len(),
    ensures
        match found {
            Some((s, next)) => pos <= next <= text.len() && parse_quoted(text@.skip(pos as int))
                == Some((s@, next - pos)),
            None => parse_quoted(text@.skip(pos as int)) is None,
        },
{
    if pos >= text.len() || text[pos] != '"' {
        return None;
    }
    let ghost body = text@.skip(pos as int).skip(1);
    assert(body == text@.skip(pos + 1));
    assert(text@.skip(pos as int)[0] == '"');
    let mut s = String::new();
    let mut i: usize = pos + 1;
    loop
        invariant
            pos < i <= text.len(),
            body == text@.skip(pos + 1),
            body == text@.skip(pos as int).skip(1),
            text@.skip(pos as int)[0] == '"',
            parse_escaped(body) == match parse_escaped(text@.skip(i as int)) {
                Some((v, n)) => Some((s@ + v, n + i - (pos + 1))),
                None => None,
            },
        decreases text.len() - i,
    {
        let ghost here = text@.skip(i as int);
        let ghost before = s@;
        if i >= text.len() {
            return None;
        }
        let c = text[i];
        assert(here[0] == c);
        if c == '"' {
            assert(before + Seq::<char>::empty() == before);
            return Some((s, i + 1));
        } else if c == '\\' {
            let (plain, next) = match read_escape(text, i) {
                Some(found) => found,
                None => { return None; },
            };
            assert(here.skip(next - i) == text@.skip(next as int));
            push_char(&mut s, plain);
            i = next;
            assert(forall|v: Seq<char>| before.push(plain) + v == before + (seq![plain] + v));
        } else if (c as u32) < 0x20 {
            return None;
        } else {
            assert(here.skip(1) == text@.skip(i + 1));
            push_char(&mut s, c);
            i += 1;
            assert(forall|v: Seq<char>| before.push(c) + v == before + (seq![c] + v));
        }
    }
}

/// Reads the decimal number in `text` at `pos`; gives the number and the
/// position after its last digit.
pub(crate) fn read_decimal(text: &Vec<char>, pos: usize) -> (found: Option<(usize, usize)>)
    requires
        pos <= text.len(),
    ensures
        match found {
            Some((n, next)) => pos <= next <= text.len() && parse_decimal(text@.skip(pos as int))
                == Some((n, next - pos)),
            None => parse_decimal(text@.skip(pos as int)) is None,
        },
{
    let ghost start = text@.skip(pos as int);
    if pos >= text.len() || !('0' <= text[pos] && text[pos] <= '9') {
        return None;
    }
    if text[pos] == '0' && pos + 1 < text.len() && '0' <= text[pos + 1] && text[pos + 1] <= '9' {
        assert(start[1] == text@[pos + 1]);
        return None;
    }
    if pos + 1 < text.len() {
        assert(start[1] == text@[pos + 1]);
    }
    let mut n: usize = 0;
    let mut i: usize = pos;
    while i < text.len() && '0' <= text[i] && text[i] <= '9'
        invariant
            pos <= i <= text.len(),
            parse_digits(text@.skip(pos as int), 0) == match parse_digits(
                text@.skip(i as int),
                n as nat,
            ) {
                Some((v, k)) => Some((v, k + i - pos)),
                None => None,
            },
        decreases text.len() - i,
    {
        let ghost here = text@.skip(i as int);
        assert(here[0] == text@[i as int]);
        assert(here.skip(1) == text@.skip(i + 1));
        let d = (text[i] as u32 - 48) as usize;
        if n > (usize::MAX - d) / 10 {
            return None;
        }
        n = n * 10 + d;
        i += 1;
    }
    proof {
        let here = text@.skip(i as int);
        if i < text.len() {
            assert(here[0] == text@[i as int]);
        }
    }
    Some((n, i))
}

/// Appends to `out` what stands for `c` between quotes.
fn write_escaped_char(out: &mut String, c: char)
    ensures
        final(out)@ == old(out)@ + escaped_char(c),
{
    match letter_of(c) {
        Some(letter) => {
            push_char(out, '\\');
            push_char(out, letter);
            assert(out@ == old(out)@ + seq!['\\', letter]);
        },
        None => {
            let code = c as u32;
            if code < 0x20 {
                push_char(out, '\\');
                push_char(out, 'u');
                push_char(out, '0');
                push_char(out, '0');
                push_char(out, hex_char((code / 16) as u8));
                push_char(out, hex_char((code % 16) as u8));
                assert(out@ == old(out)@ + seq![
                    '\\',
                    'u',
                    '0',
                    '0',
                    hex_digit(c as int / 16),
                    hex_digit(c as int % 16),
                ]);
            } else {
                push_char(out, c);
                assert(out@ == old(out)@ + seq![c]);
            }
        },
    }
}

/// Appends the quoted form of `s` to `out`.
pub(crate) fn write_quoted(out: &mut String, s: &str)
    ensures
        final(out)@ == old(out)@ + quoted(s@),
{
    let chars = chars_of(s);
    push_char(out, '"');
    let mut i: usize = 0;
    while i < chars.len()
        invariant
            i <= chars.len(),
            chars@ == s@,
            out@ == old(out)@ + seq!['"'] + escaped(chars@.take(i as int)),
        decreases chars.len() - i,
    {
        let c = chars[i];
        proof {
            let done = chars@.take(i as int);
            escaped_concat(done, seq![c]);
            assert(seq![c].drop_first() == Seq::<char>::empty());
            assert(escaped(seq![c]) == escaped_char(c) + escaped(seq![c].drop_first()));
            assert(chars@.take(i + 1) == done + seq![c]);
        }
        write_escaped_char(out, c);
        i += 1;
    }
    assert(chars@.take(i as int) == chars@);
    push_char(out, '"');
}

/// Appends the decimal form of `n` to `out`.
pub(crate) fn write_decimal(out: &mut String, n: usize)
    ensures
        final(out)@ == old(out)@ + decimal(n as nat),
    decreases n,
{
    if n >= 10 {
        write_decimal(out, n / 10);
    }
    push_char(out, ((n % 10 + 48) as u8) as char);
}

} // verus!
