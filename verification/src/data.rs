//! The argument an action is called with: a serialized value, capped in
//! length, and an optional pagination window.

use crate::codec::quoted;
use vstd::prelude::*;
use vstd::string::*;
use vstd::utf8::*;

verus! {

/// The greatest number of UTF-8 bytes that the value of a [`Data`] made by
/// [`Data::new`] or [`Data::with_value`] may take.
pub const MAX_VALUE_AUTORIZED: usize = 500;

/// A pagination window: `.0` elements are skipped, then at most `.1` are shown.
#[derive(Debug, Clone, Copy, PartialEq, Eq, Structural)]
pub struct Page(pub usize, pub usize);

impl Default for Page {
    /// The first ten elements.
    fn default() -> (page: Page)
        ensures
            page == Page(0, 10),
    {
        Page(0, 10)
    }
}

impl Page {
    /// The window after this one: as wide, and starting where this one ends.
    pub open spec fn advanced(self) -> Page {
        Page((self.0 + self.1) as usize, self.1)
    }

    /// The window reached from this one in `turns` steps forward.
    pub open spec fn advanced_by(self, turns: nat) -> Page
        decreases turns,
    {
        if turns == 0 {
            self
        } else {
            self.advanced_by((turns - 1) as nat).advanced()
        }
    }

    /// Slides the window forward by its own width.
    pub fn next(&mut self)
        requires
            old(self).0 + old(self).1 <= usize::MAX,
        ensures
            *final(self) == old(self).advanced(),
    {
        self.0 = self.0 + self.1;
    }
}

/// Stepping a window forward `turns` times moves its start by `turns` times
/// its width and keeps the width, as long as the start stays in range.
pub proof fn advancing_is_linear(page: Page, turns: nat)
    requires
        page.0 + turns * page.1 <= usize::MAX,
    ensures
        page.advanced_by(turns) == Page((page.0 + turns * page.1) as usize, page.1),
    decreases turns,
{
    if turns > 0 {
        assert((turns - 1) * page.1 + page.1 == turns * page.1) by (nonlinear_arith);
        assert((turns - 1) * page.1 >= 0) by (nonlinear_arith)
            requires
                turns >= 1,
        ;
        advancing_is_linear(page, (turns - 1) as nat);
    } else {
        assert(turns * page.1 == 0) by (nonlinear_arith)
            requires
                turns == 0,
        ;
    }
}

/// The number of bytes that `s` takes in UTF-8.
pub open spec fn utf8_len(s: Seq<char>) -> nat {
    encode_utf8(s).len()
}

/// How many leading characters of `s` fit, together, in `cap` bytes of UTF-8.
pub open spec fn fitting_chars(s: Seq<char>, cap: int) -> int
    decreases s.len(),
{
    if s.len() == 0 {
        0
    } else {
        let width = encode_scalar(s[0] as u32).len() as int;
        if width > cap {
            0
        } else {
            1 + fitting_chars(s.drop_first(), cap - width)
        }
    }
}

/// The longest prefix of `value` that takes at most [`MAX_VALUE_AUTORIZED`]
/// bytes in UTF-8.
pub open spec fn truncated(value: Seq<char>) -> Seq<char> {
    value.take(fitting_chars(value, MAX_VALUE_AUTORIZED as int))
}

proof fn encode_utf8_concat(a: Seq<char>, b: Seq<char>)
    ensures
        encode_utf8(a + b) == encode_utf8(a) + encode_utf8(b),
    decreases a.len(),
{
    if a.len() == 0 {
        assert(a + b == b);
    } else {
        encode_utf8_concat(a.drop_first(), b);
        assert((a + b).drop_first() == a.drop_first() + b);
    }
}

proof fn encode_utf8_single(c: char)
    ensures
        encode_utf8(seq![c]) == encode_scalar(c as u32),
        1 <= encode_scalar(c as u32).len() <= 4,
{
    assert(seq![c].drop_first() == Seq::<char>::empty());
    assert(encode_utf8(seq![c]) == encode_scalar(c as u32) + encode_utf8(seq![c].drop_first()));
}

proof fn prefix_ends_on_boundary(a: Seq<char>, b: Seq<char>)
    ensures
        is_char_boundary(encode_utf8(a + b), encode_utf8(a).len() as int),
    decreases a.len(),
{
    let bytes = encode_utf8(a + b);
    encode_utf8_valid_utf8(a + b);
    if a.len() > 0 {
        encode_utf8_first_scalar(a + b);
        assert((a + b).drop_first() == a.drop_first() + b);
        assert(pop_first_scalar(bytes) == encode_utf8(a.drop_first() + b));
        prefix_ends_on_boundary(a.drop_first(), b);
    }
}

proof fn fitting_chars_is(s: Seq<char>, cap: int, count: int)
    requires
        0 <= count <= s.len(),
        utf8_len(s.take(count)) <= cap,
        count < s.len() ==> utf8_len(s.take(count + 1)) > cap,
    ensures
        fitting_chars(s, cap) == count,
    decreases s.len(),
{
    if s.len() > 0 {
        let rest = s.drop_first();
        if count == 0 {
            assert(s.take(1).drop_first() == Seq::<char>::empty());
            assert(encode_utf8(s.take(1).drop_first()).len() == 0);
        } else {
            assert(s.take(count).drop_first() == rest.take(count - 1));
            if count < s.len() {
                assert(s.take(count + 1).drop_first() == rest.take(count));
            }
            fitting_chars_is(rest, cap - encode_scalar(s[0] as u32).len(), count - 1);
        }
    }
}

proof fn fitting_chars_fits(s: Seq<char>, cap: int)
    requires
        0 <= cap,
    ensures
        0 <= fitting_chars(s, cap) <= s.len(),
        utf8_len(s.take(fitting_chars(s, cap))) <= cap,
        fitting_chars(s, cap) < s.len() ==> utf8_len(s.take(fitting_chars(s, cap) + 1)) > cap,
    decreases s.len(),
{
    if s.len() > 0 {
        let width = encode_scalar(s[0] as u32).len() as int;
        let rest = s.drop_first();
        encode_utf8_single(s[0]);
        if width > cap {
            assert(s.take(1) == seq![s[0]]);
            assert(s.take(0) == Seq::<char>::empty());
        } else {
            let count = fitting_chars(rest, cap - width);
            fitting_chars_fits(rest, cap - width);
            assert(s.take(count + 1).drop_first() == rest.take(count));
            if count < rest.len() {
                assert(s.take(count + 2).drop_first() == rest.take(count + 1));
            }
        }
    } else {
        assert(s.take(0) == s);
    }
}

proof fn utf8_len_grows(s: Seq<char>, shorter: int, longer: int)
    requires
        0 <= shorter <= longer <= s.len(),
    ensures
        utf8_len(s.take(shorter)) <= utf8_len(s.take(longer)),
{
    assert(s.take(longer) == s.take(shorter) + s.subrange(shorter, longer));
    encode_utf8_concat(s.take(shorter), s.subrange(shorter, longer));
}

proof fn boundary_ends_a_prefix(s: Seq<char>, index: int)
    requires
        is_char_boundary(encode_utf8(s), index),
    ensures
        exists|count: int| 0 <= count <= s.len() && utf8_len(#[trigger] s.take(count)) == index,
    decreases s.len(),
{
    let bytes = encode_utf8(s);
    encode_utf8_valid_utf8(s);
    if index == 0 {
        assert(s.take(0) == Seq::<char>::empty());
        assert(utf8_len(s.take(0)) == 0);
    } else if s.len() == 0 {
    } else {
        let rest = s.drop_first();
        encode_utf8_first_scalar(s);
        assert(pop_first_scalar(bytes) == encode_utf8(rest));
        boundary_ends_a_prefix(rest, index - length_of_first_scalar(bytes));
        let count = choose|count: int|
            0 <= count <= rest.len() && utf8_len(#[trigger] rest.take(count)) == index
                - length_of_first_scalar(bytes);
        assert(s.take(count + 1).drop_first() == rest.take(count));
        assert(utf8_len(s.take(count + 1)) == index);
    }
}

/// What is kept of a value: a prefix of it that fits under the cap; all of
/// it where it fits; and of a value that does not fit, so much that not one
/// character more would, which is the whole cap where a character ends
/// there.
pub proof fn truncation_bounds(value: Seq<char>)
    ensures
        truncated(value).len() <= value.len(),
        truncated(value) == value.take(truncated(value).len() as int),
        utf8_len(truncated(value)) <= MAX_VALUE_AUTORIZED,
        utf8_len(value) <= MAX_VALUE_AUTORIZED ==> truncated(value) == value,
        utf8_len(value) >= MAX_VALUE_AUTORIZED ==> utf8_len(truncated(value))
            > MAX_VALUE_AUTORIZED - 4,
        is_char_boundary(encode_utf8(value), MAX_VALUE_AUTORIZED as int) ==> utf8_len(
            truncated(value),
        ) == MAX_VALUE_AUTORIZED,
{
    let cap = MAX_VALUE_AUTORIZED as int;
    let count = fitting_chars(value, cap);
    fitting_chars_fits(value, cap);
    if utf8_len(value) <= MAX_VALUE_AUTORIZED {
        short_value_is_kept(value);
    }
    if count < value.len() {
        assert(value.take(count + 1) == value.take(count) + seq![value[count]]);
        encode_utf8_concat(value.take(count), seq![value[count]]);
        encode_utf8_single(value[count]);
    } else {
        assert(value.take(count) == value);
    }
    encode_utf8_valid_utf8(value);
    if is_char_boundary(encode_utf8(value), cap) {
        boundary_ends_a_prefix(value, cap);
        let at = choose|at: int|
            0 <= at <= value.len() && utf8_len(#[trigger] value.take(at)) == cap;
        if at <= count {
            utf8_len_grows(value, at, count);
        } else {
            utf8_len_grows(value, count + 1, at);
        }
    }
}

/// A value that already fits under the cap is left as it is.
pub proof fn short_value_is_kept(value: Seq<char>)
    requires
        utf8_len(value) <= MAX_VALUE_AUTORIZED,
    ensures
        truncated(value) == value,
{
    assert(value.take(value.len() as int) == value);
    fitting_chars_is(value, MAX_VALUE_AUTORIZED as int, value.len() as int);
}

/// Cuts `value` down to the longest prefix that takes at most
/// [`MAX_VALUE_AUTORIZED`] bytes, never splitting a character.
pub fn truncate_value(value: &str) -> (kept: String)
    ensures
        kept@ == truncated(value@),
        utf8_len(kept@) <= MAX_VALUE_AUTORIZED,
        utf8_len(value@) >= MAX_VALUE_AUTORIZED ==> utf8_len(kept@) > MAX_VALUE_AUTORIZED - 4,
        is_char_boundary(encode_utf8(value@), MAX_VALUE_AUTORIZED as int) ==> utf8_len(kept@)
            == MAX_VALUE_AUTORIZED,
{
    let ghost bytes = encode_utf8(value@);
    proof {
        encode_utf8_valid_utf8(value@);
        encode_utf8_decode_utf8(value@);
        is_char_boundary_start_end_of_seq(bytes);
    }
    if value.as_bytes().len() < MAX_VALUE_AUTORIZED {
        proof {
            short_value_is_kept(value@);
            truncation_bounds(value@);
        }
        return value.to_owned();
    }
    let mut cut: usize = MAX_VALUE_AUTORIZED;
    while !value.is_char_boundary(cut)
        invariant
            cut <= MAX_VALUE_AUTORIZED <= bytes.len(),
            bytes == encode_utf8(value@),
            valid_utf8(bytes),
            is_char_boundary(bytes, 0),
            forall|j: int| cut < j <= MAX_VALUE_AUTORIZED ==> !is_char_boundary(bytes, j),
        decreases cut,
    {
        cut -= 1;
    }
    let (head, tail) = value.split_at(cut);
    proof {
        let count = head@.len() as int;
        decode_utf8_split(bytes, cut as int);
        encode_utf8_decode_utf8(head@);
        encode_utf8_decode_utf8(tail@);
        assert(value@ == head@ + tail@);
        assert(value@.take(count) == head@);
        if count < value@.len() {
            let longer = value@.take(count + 1);
            let rest = value@.skip(count + 1);
            let next = value@[count];
            assert(longer == head@ + seq![next]);
            assert(value@ == longer + rest);
            encode_utf8_concat(head@, seq![next]);
            encode_utf8_single(next);
            prefix_ends_on_boundary(longer, rest);
        }
        fitting_chars_is(value@, MAX_VALUE_AUTORIZED as int, count);
        truncation_bounds(value@);
    }
    head.to_owned()
}

/// The string that `serde_json::from_str` reads from a JSON text, where the
/// text is one JSON string.
pub uninterp spec fn str_of_json_text(text: Seq<char>) -> Option<Seq<char>>;

/// The serialized form that a [`Data`] keeps of `value`: its JSON text, which
/// is the string in quotes with what JSON escapes escaped.
pub open spec fn serialized(value: Seq<char>) -> Seq<char> {
    quoted(value)
}

/// The string that a serialized value stands for, or the empty string where
/// it is not the JSON text of a string.
pub open spec fn deserialized(text: Seq<char>) -> Seq<char> {
    match str_of_json_text(text) {
        Some(value) => value,
        None => Seq::empty(),
    }
}

/// Serializes a string slice as JSON.
///
/// Calls `serde_json::to_string` on the slice. For a string slice the
/// serializer cannot fail, and what it writes is the slice in quotes, with a
/// quote, a backslash and the control characters escaped: this is taken on
/// trust from its source.
#[verifier::external_body]
fn serialize_str(value: &str) -> (text: Option<String>)
    ensures
        text is Some,
        text->0@ == quoted(value@),
{
    serde_json::to_string(value).ok()
}

/// Reads a JSON text as one string.
///
/// Calls `serde_json::from_str` for a `String`. The contract gives its
/// result a name, and a text that is refused is reported as `None`. Taken
/// on trust from the source of the reader is one thing more: a string in
/// quotes, escaped as [`quoted`] has it, is read as that string.
#[verifier::external_body]
fn deserialize_str(text: &str) -> (value: Option<String>)
    ensures
        match value {
            Some(v) => str_of_json_text(text@) == Some(v@),
            None => str_of_json_text(text@) is None,
        },
        forall|written: Seq<char>|
            text@ == #[trigger] quoted(written) ==> value is Some && value->0@ == written,
{
    serde_json::from_str::<String>(text).ok()
}

/// The argument of an action: a serialized value and, for actions that list
/// things, the window to show.
#[derive(Debug)]
pub struct Data {
    value: String,
    page: Option<Page>,
}

/// What a [`Data`] holds.
pub struct DataView {
    pub value: Seq<char>,
    pub page: Option<Page>,
}

impl View for Data {
    type V = DataView;

    closed spec fn view(&self) -> DataView {
        DataView { value: self.value@, page: self.page }
    }
}

impl Clone for Data {
    fn clone(&self) -> (copy: Data)
        ensures
            copy@ == self@,
    {
        Data { value: self.value.clone(), page: self.page }
    }
}

impl Default for Data {
    /// No value and no window.
    fn default() -> (data: Data)
        ensures
            data@ == (DataView { value: Seq::empty(), page: None }),
    {
        Data { value: String::new(), page: None }
    }
}

/// The window after `page`, counting from the default window where there is
/// none.
pub open spec fn following(page: Option<Page>) -> Page {
    match page {
        Some(page) => page.advanced(),
        None => Page(0, 10).advanced(),
    }
}

impl Data {
    /// Serializes `value` as JSON and keeps what fits under the cap: all of
    /// it where it fits.
    pub fn new(value: &str, page: Option<Page>) -> (data: Data)
        ensures
            data@ == (DataView { value: truncated(serialized(value@)), page }),
            utf8_len(serialized(value@)) <= MAX_VALUE_AUTORIZED ==> data@.value == serialized(
                value@,
            ),
    {
        let text = match serialize_str(value) {
            Some(text) => text,
            None => String::new(),
        };
        Data::with_value(text.as_str(), page)
    }

    /// Keeps what fits under the cap of a value that is serialized already.
    pub fn with_value(serialized: &str, page: Option<Page>) -> (data: Data)
        ensures
            data@ == (DataView { value: truncated(serialized@), page }),
            utf8_len(data@.value) <= MAX_VALUE_AUTORIZED,
            utf8_len(serialized@) <= MAX_VALUE_AUTORIZED ==> data@.value == serialized@,
            is_char_boundary(encode_utf8(serialized@), MAX_VALUE_AUTORIZED as int) ==> utf8_len(
                data@.value,
            ) == MAX_VALUE_AUTORIZED,
    {
        proof {
            if utf8_len(serialized@) <= MAX_VALUE_AUTORIZED {
                short_value_is_kept(serialized@);
            }
        }
        Data { value: truncate_value(serialized), page }
    }

    /// A data with exactly this value and window, as read from a token.
    pub(crate) fn from_parts(value: String, page: Option<Page>) -> (data: Data)
        ensures
            data@ == (DataView { value: value@, page }),
    {
        Data { value, page }
    }

    /// The serialized value, as it is kept.
    pub fn value(&self) -> (value: &str)
        ensures
            value@ == self@.value,
    {
        self.value.as_str()
    }

    /// The string that the value stands for, or the empty string where the
    /// value is not the JSON text of a string. A string that was serialized
    /// whole is given back as it was.
    pub fn get_value(&self) -> (value: String)
        ensures
            value@ == deserialized(self@.value),
            forall|written: Seq<char>|
                self@.value == #[trigger] serialized(written) ==> value@ == written,
    {
        match deserialize_str(self.value.as_str()) {
            Some(value) => value,
            None => String::new(),
        }
    }

    /// The window to show, if the data carries one.
    pub fn get_page(&self) -> (page: Option<Page>)
        ensures
            page == self@.page,
    {
        self.page
    }

    /// Moves to the window after the current one, starting from the default
    /// window where the data carries none.
    pub fn next_page(&mut self)
        requires
            old(self)@.page matches Some(page) ==> page.0 + page.1 <= usize::MAX,
        ensures
            final(self)@.value == old(self)@.value,
            final(self)@.page == Some(following(old(self)@.page)),
    {
        let mut page = match self.page {
            Some(page) => page,
            None => Page::default(),
        };
        page.next();
        self.page = Some(page);
    }
}

} // verus!
