//! Instructions and the tokens that carry them: which action to run, with
//! which data, written as one string that a button can hold and that is read
//! back when the button is pressed.

use crate::codec::{
    decimal, decimal_spells, expect, parse_decimal, parse_decimal_complete, parse_decimal_sound,
    parse_quoted, parse_quoted_complete, parse_quoted_sound, quoted, read_decimal, read_quoted,
    starts_with, write_decimal, write_quoted,
};
use crate::data::{
    truncated, truncation_bounds, utf8_len, Data, DataView, Page, MAX_VALUE_AUTORIZED,
};
use crate::text::{chars_of, push_char};
use vstd::prelude::*;
use vstd::string::*;
use vstd::utf8::{encode_utf8, is_char_boundary};

verus! {

/// The path of the root action: where a conversation starts, and what is
/// run when nothing else can be.
pub const ROOT_PATH: &'static str = "Main";

/// The path of the root action, as a sequence of characters.
pub open spec fn root_path() -> Seq<char> {
    ROOT_PATH@
}

/// The word that opens a token, before the path.
pub open spec fn path_key() -> Seq<char> {
    "{\"path\":"@
}

/// The word between the path and the data of a token.
pub open spec fn data_key() -> Seq<char> {
    ",\"data\":"@
}

/// The word that opens a data, before the value.
pub open spec fn value_key() -> Seq<char> {
    "{\"value\":"@
}

/// The word between the value and the page of a data.
pub open spec fn page_key() -> Seq<char> {
    ",\"page\":"@
}

/// The word that stands where a data or a page is absent.
pub open spec fn null_word() -> Seq<char> {
    "null"@
}

/// How a pagination window is written.
pub open spec fn page_text(page: Option<Page>) -> Seq<char> {
    match page {
        Some(page) => seq!['['] + decimal(page.0 as nat) + seq![','] + decimal(page.1 as nat)
            + seq![']'],
        None => null_word(),
    }
}

/// How a data is written.
pub open spec fn data_text(data: DataView) -> Seq<char> {
    value_key() + quoted(data.value) + page_key() + page_text(data.page) + seq!['}']
}

/// How the data of an instruction is written, where it may be absent.
pub open spec fn optional_data_text(data: Option<DataView>) -> Seq<char> {
    match data {
        Some(data) => data_text(data),
        None => null_word(),
    }
}

/// What a [`Payload`] holds.
pub struct PayloadView {
    pub path: Seq<char>,
    pub data: Option<DataView>,
}

/// The token that carries an instruction.
pub open spec fn token_text(payload: PayloadView) -> Seq<char> {
    path_key() + quoted(payload.path) + data_key() + optional_data_text(payload.data) + seq!['}']
}

/// The instruction that is run for a token that carries none: the root
/// action, without data.
pub open spec fn default_payload() -> PayloadView {
    PayloadView { path: root_path(), data: None }
}

/// The data that stands for an absent or unreadable one.
pub open spec fn default_data() -> DataView {
    DataView { value: Seq::empty(), page: None }
}

/// Whether `token` carries an instruction.
pub open spec fn is_token(token: Seq<char>) -> bool {
    exists|payload: PayloadView| token_text(payload) == token
}

/// The instruction that `token` carries, or the default one.
pub open spec fn decoded(token: Seq<char>) -> PayloadView {
    if is_token(token) {
        choose|payload: PayloadView| token_text(payload) == token
    } else {
        default_payload()
    }
}

/// Whether `text` is the written form of a data.
pub open spec fn is_data_text(text: Seq<char>) -> bool {
    exists|data: DataView| data_text(data) == text
}

/// The data that `text` is the written form of, or the default one.
pub open spec fn decoded_data(text: Seq<char>) -> DataView {
    if is_data_text(text) {
        choose|data: DataView| data_text(data) == text
    } else {
        default_data()
    }
}

spec fn parse_page(s: Seq<char>) -> Option<(Option<Page>, int)> {
    if starts_with(s, null_word()) {
        Some((None, null_word().len() as int))
    } else if s.len() > 0 && s[0] == '[' {
        match parse_decimal(s.skip(1)) {
            Some((offset, n1)) => {
                let comma = 1 + n1;
                if comma < s.len() && s[comma] == ',' {
                    match parse_decimal(s.skip(comma + 1)) {
                        Some((limit, n2)) => {
                            let close = comma + 1 + n2;
                            if close < s.len() && s[close] == ']' {
                                Some((Some(Page(offset, limit)), close + 1))
                            } else {
                                None
                            }
                        },
                        None => None,
                    }
                } else {
                    None
                }
            },
            None => None,
        }
    } else {
        None
    }
}

spec fn parse_data(s: Seq<char>) -> Option<(DataView, int)> {
    if starts_with(s, value_key()) {
        let a = value_key().len() as int;
        match parse_quoted(s.skip(a)) {
            Some((value, n1)) => {
                let b = a + n1;
                if 0 <= b <= s.len() && starts_with(s.skip(b), page_key()) {
                    let c = b + page_key().len();
                    match parse_page(s.skip(c)) {
                        Some((page, n2)) => {
                            let d = c + n2;
                            if 0 <= d < s.len() && s[d] == '}' {
                                Some((DataView { value, page }, d + 1))
                            } else {
                                None
                            }
                        },
                        None => None,
                    }
                } else {
                    None
                }
            },
            None => None,
        }
    } else {
        None
    }
}

spec fn parse_optional_data(s: Seq<char>) -> Option<(Option<DataView>, int)> {
    if starts_with(s, null_word()) {
        Some((None, null_word().len() as int))
    } else {
        match parse_data(s) {
            Some((data, n)) => Some((Some(data), n)),
            None => None,
        }
    }
}

spec fn parse_payload(s: Seq<char>) -> Option<(PayloadView, int)> {
    if starts_with(s, path_key()) {
        let a = path_key().len() as int;
        match parse_quoted(s.skip(a)) {
            Some((path, n1)) => {
                let b = a + n1;
                if 0 <= b <= s.len() && starts_with(s.skip(b), data_key()) {
                    let c = b + data_key().len();
                    match parse_optional_data(s.skip(c)) {
                        Some((data, n2)) => {
                            let d = c + n2;
                            if 0 <= d < s.len() && s[d] == '}' {
                                Some((PayloadView { path, data }, d + 1))
                            } else {
                                None
                            }
                        },
                        None => None,
                    }
                } else {
                    None
                }
            },
            None => None,
        }
    } else {
        None
    }
}

proof fn word_facts()
    ensures
        null_word().len() == 4,
        null_word()[0] == 'n',
        value_key().len() == 9,
        value_key()[0] == '{',
        page_key().len() == 8,
        path_key().len() == 8,
        data_key().len() == 8,
{
    reveal_strlit("null");
    reveal_strlit("{\"value\":");
    reveal_strlit(",\"page\":");
    reveal_strlit("{\"path\":");
    reveal_strlit(",\"data\":");
}

proof fn parse_page_complete(page: Option<Page>, rest: Seq<char>)
    ensures
        parse_page(page_text(page) + rest) == Some((page, page_text(page).len() as int)),
{
    let s = page_text(page) + rest;
    word_facts();
    match page {
        None => {
            assert(s.take(null_word().len() as int) == null_word());
        },
        Some(p) => {
            let first = decimal(p.0 as nat);
            let second = decimal(p.1 as nat);
            let after_first = seq![','] + second + seq![']'] + rest;
            let after_second = seq![']'] + rest;
            decimal_spells(p.0 as nat);
            decimal_spells(p.1 as nat);
            assert(s[0] == '[');
            assert(!starts_with(s, null_word())) by {
                if starts_with(s, null_word()) {
                    assert(s.take(4)[0] == null_word()[0]);
                }
            }
            assert(s.skip(1) == first + after_first);
            parse_decimal_complete(p.0, after_first);
            let comma = 1 + first.len() as int;
            assert(s[comma] == ',');
            assert(s.skip(comma + 1) == second + after_second);
            parse_decimal_complete(p.1, after_second);
            let close = comma + 1 + second.len() as int;
            assert(s[close] == ']');
        },
    }
}

proof fn parse_page_sound(s: Seq<char>)
    ensures
        parse_page(s) matches Some((page, n)) ==> 0 <= n <= s.len() && s.take(n) == page_text(
            page,
        ),
{
    if starts_with(s, null_word()) {
    } else if s.len() > 0 && s[0] == '[' {
        parse_decimal_sound(s.skip(1));
        if let Some((offset, n1)) = parse_decimal(s.skip(1)) {
            let comma = 1 + n1;
            if comma < s.len() && s[comma] == ',' {
                parse_decimal_sound(s.skip(comma + 1));
                if let Some((limit, n2)) = parse_decimal(s.skip(comma + 1)) {
                    let close = comma + 1 + n2;
                    if close < s.len() && s[close] == ']' {
                        assert(s.take(close + 1) == seq!['['] + s.skip(1).take(n1) + seq![','] + s.skip(
                            comma + 1,
                        ).take(n2) + seq![']']);
                    }
                }
            }
        }
    }
}

proof fn parse_data_complete(data: DataView, rest: Seq<char>)
    ensures
        parse_data(data_text(data) + rest) == Some((data, data_text(data).len() as int)),
{
    let s = data_text(data) + rest;
    let a = value_key().len() as int;
    let after_value = page_key() + page_text(data.page) + seq!['}'] + rest;
    let after_page = seq!['}'] + rest;
    assert(s.take(a) == value_key());
    assert(s.skip(a) == quoted(data.value) + after_value);
    parse_quoted_complete(data.value, after_value);
    let b = a + quoted(data.value).len();
    assert(s.skip(b) == after_value);
    assert(after_value.take(page_key().len() as int) == page_key());
    let c = b + page_key().len();
    assert(s.skip(c) == page_text(data.page) + after_page);
    parse_page_complete(data.page, after_page);
    let d = c + page_text(data.page).len();
    assert(s[d] == '}');
}

proof fn parse_data_sound(s: Seq<char>)
    ensures
        parse_data(s) matches Some((data, n)) ==> 0 <= n <= s.len() && s.take(n) == data_text(
            data,
        ),
{
    if starts_with(s, value_key()) {
        let a = value_key().len() as int;
        parse_quoted_sound(s.skip(a));
        if let Some((value, n1)) = parse_quoted(s.skip(a)) {
            let b = a + n1;
            if 0 <= b <= s.len() && starts_with(s.skip(b), page_key()) {
                let c = b + page_key().len();
                parse_page_sound(s.skip(c));
                if let Some((page, n2)) = parse_page(s.skip(c)) {
                    let d = c + n2;
                    if 0 <= d < s.len() && s[d] == '}' {
                        assert(s.take(d + 1) == s.take(a) + s.skip(a).take(n1) + s.skip(b).take(
                            page_key().len() as int,
                        ) + s.skip(c).take(n2) + seq!['}']);
                    }
                }
            }
        }
    }
}

proof fn parse_optional_data_complete(data: Option<DataView>, rest: Seq<char>)
    ensures
        parse_optional_data(optional_data_text(data) + rest) == Some(
            (data, optional_data_text(data).len() as int),
        ),
{
    let s = optional_data_text(data) + rest;
    word_facts();
    match data {
        None => {
            assert(s.take(null_word().len() as int) == null_word());
        },
        Some(d) => {
            assert(s[0] == value_key()[0]);
            assert(!starts_with(s, null_word())) by {
                if starts_with(s, null_word()) {
                    assert(s.take(4)[0] == null_word()[0]);
                }
            }
            parse_data_complete(d, rest);
        },
    }
}

proof fn parse_optional_data_sound(s: Seq<char>)
    ensures
        parse_optional_data(s) matches Some((data, n)) ==> 0 <= n <= s.len() && s.take(n)
            == optional_data_text(data),
{
    parse_data_sound(s);
}

proof fn parse_payload_complete(payload: PayloadView, rest: Seq<char>)
    ensures
        parse_payload(token_text(payload) + rest) == Some(
            (payload, token_text(payload).len() as int),
        ),
{
    let s = token_text(payload) + rest;
    let a = path_key().len() as int;
    let after_path = data_key() + optional_data_text(payload.data) + seq!['}'] + rest;
    let after_data = seq!['}'] + rest;
    assert(s.take(a) == path_key());
    assert(s.skip(a) == quoted(payload.path) + after_path);
    parse_quoted_complete(payload.path, after_path);
    let b = a + quoted(payload.path).len();
    assert(s.skip(b) == after_path);
    assert(after_path.take(data_key().len() as int) == data_key());
    let c = b + data_key().len();
    assert(s.skip(c) == optional_data_text(payload.data) + after_data);
    parse_optional_data_complete(payload.data, after_data);
    let d = c + optional_data_text(payload.data).len();
    assert(s[d] == '}');
}

proof fn parse_payload_sound(s: Seq<char>)
    ensures
        parse_payload(s) matches Some((payload, n)) ==> 0 <= n <= s.len() && s.take(n)
            == token_text(payload),
{
    if starts_with(s, path_key()) {
        let a = path_key().len() as int;
        parse_quoted_sound(s.skip(a));
        if let Some((path, n1)) = parse_quoted(s.skip(a)) {
            let b = a + n1;
            if 0 <= b <= s.len() && starts_with(s.skip(b), data_key()) {
                let c = b + data_key().len();
                parse_optional_data_sound(s.skip(c));
                if let Some((data, n2)) = parse_optional_data(s.skip(c)) {
                    let d = c + n2;
                    if 0 <= d < s.len() && s[d] == '}' {
                        assert(s.take(d + 1) == s.take(a) + s.skip(a).take(n1) + s.skip(b).take(
                            data_key().len() as int,
                        ) + s.skip(c).take(n2) + seq!['}']);
                    }
                }
            }
        }
    }
}

/// Two instructions with the same token are the same instruction.
pub proof fn token_text_is_injective(first: PayloadView, second: PayloadView)
    requires
        token_text(first) == token_text(second),
    ensures
        first == second,
{
    parse_payload_complete(first, Seq::empty());
    parse_payload_complete(second, Seq::empty());
}

/// Decoding the token of an instruction gives that instruction back.
pub proof fn decoding_inverts_encoding(payload: PayloadView)
    ensures
        is_token(token_text(payload)),
        decoded(token_text(payload)) == payload,
{
    let found = decoded(token_text(payload));
    token_text_is_injective(found, payload);
}

/// A value that was cut to the cap travels in a token as it was cut: the
/// token is read back with the path it was given and with the cut value,
/// which fills the cap exactly where a character of the value ends there.
pub proof fn capped_value_is_carried(path: Seq<char>, value: Seq<char>, page: Option<Page>)
    ensures
        ({
            let sent = PayloadView { path, data: Some(DataView { value: truncated(value), page }) };
            decoded(token_text(sent)) == sent
        }),
        utf8_len(truncated(value)) <= MAX_VALUE_AUTORIZED,
        utf8_len(value) >= MAX_VALUE_AUTORIZED ==> utf8_len(truncated(value))
            > MAX_VALUE_AUTORIZED - 4,
        is_char_boundary(encode_utf8(value), MAX_VALUE_AUTORIZED as int) ==> utf8_len(
            truncated(value),
        ) == MAX_VALUE_AUTORIZED,
{
    truncation_bounds(value);
    decoding_inverts_encoding(
        PayloadView { path, data: Some(DataView { value: truncated(value), page }) },
    );
}

/// Two datas with the same written form are the same data.
pub proof fn data_text_is_injective(first: DataView, second: DataView)
    requires
        data_text(first) == data_text(second),
    ensures
        first == second,
{
    parse_data_complete(first, Seq::empty());
    parse_data_complete(second, Seq::empty());
}

/// Reading the written form of a data gives that data back.
pub proof fn reading_inverts_writing(data: DataView)
    ensures
        is_data_text(data_text(data)),
        decoded_data(data_text(data)) == data,
{
    let found = decoded_data(data_text(data));
    data_text_is_injective(found, data);
}

fn write_page(out: &mut String, page: Option<Page>)
    ensures
        final(out)@ == old(out)@ + page_text(page),
{
    match page {
        Some(page) => {
            push_char(out, '[');
            write_decimal(out, page.0);
            push_char(out, ',');
            write_decimal(out, page.1);
            push_char(out, ']');
            assert(out@ == old(out)@ + page_text(Some(page)));
        },
        None => {
            out.append("null");
        },
    }
}

fn write_data(out: &mut String, data: &Data)
    ensures
        final(out)@ == old(out)@ + data_text(data@),
{
    out.append("{\"value\":");
    write_quoted(out, data.value());
    out.append(",\"page\":");
    write_page(out, data.get_page());
    push_char(out, '}');
    assert(out@ == old(out)@ + data_text(data@));
}

fn read_page(text: &Vec<char>, pos: usize) -> (found: Option<(Option<Page>, usize)>)
    requires
        pos <= text.len(),
    ensures
        match found {
            Some((page, next)) => pos <= next <= text.len() && parse_page(text@.skip(pos as int))
                == Some((page, next - pos)),
            None => parse_page(text@.skip(pos as int)) is None,
        },
{
    let ghost s = text@.skip(pos as int);
    if let Some(next) = expect(text, pos, "null") {
        return Some((None, next));
    }
    if pos >= text.len() || text[pos] != '[' {
        return None;
    }
    assert(s[0] == text@[pos as int]);
    assert(s.skip(1) == text@.skip(pos + 1));
    let (offset, comma) = match read_decimal(text, pos + 1) {
        Some(found) => found,
        None => { return None; },
    };
    if comma >= text.len() || text[comma] != ',' {
        if comma < text.len() {
            assert(s[comma - pos] == text@[comma as int]);
        }
        return None;
    }
    assert(s[comma - pos] == text@[comma as int]);
    assert(s.skip(comma - pos + 1) == text@.skip(comma + 1));
    let (limit, close) = match read_decimal(text, comma + 1) {
        Some(found) => found,
        None => { return None; },
    };
    if close < text.len() {
        assert(s[close - pos] == text@[close as int]);
    }
    if close >= text.len() || text[close] != ']' {
        return None;
    }
    Some((Some(Page(offset, limit)), close + 1))
}

fn read_data(text: &Vec<char>, pos: usize) -> (found: Option<(Data, usize)>)
    requires
        pos <= text.len(),
    ensures
        match found {
            Some((data, next)) => pos <= next <= text.len() && parse_data(text@.skip(pos as int))
                == Some((data@, next - pos)),
            None => parse_data(text@.skip(pos as int)) is None,
        },
{
    let ghost s = text@.skip(pos as int);
    let value_at = match expect(text, pos, "{\"value\":") {
        Some(next) => next,
        None => { return None; },
    };
    assert(s.skip(value_at - pos) == text@.skip(value_at as int));
    let (value, key_at) = match read_quoted(text, value_at) {
        Some(found) => found,
        None => { return None; },
    };
    assert(s.skip(key_at - pos) == text@.skip(key_at as int));
    let page_at = match expect(text, key_at, ",\"page\":") {
        Some(next) => next,
        None => { return None; },
    };
    assert(s.skip(page_at - pos) == text@.skip(page_at as int));
    let (page, close) = match read_page(text, page_at) {
        Some(found) => found,
        None => { return None; },
    };
    if close < text.len() {
        assert(s[close - pos] == text@[close as int]);
    }
    if close >= text.len() || text[close] != '}' {
        return None;
    }
    Some((Data::from_parts(value, page), close + 1))
}

fn read_optional_data(text: &Vec<char>, pos: usize) -> (found: Option<(Option<Data>, usize)>)
    requires
        pos <= text.len(),
    ensures
        match found {
            Some((data, next)) => pos <= next <= text.len() && parse_optional_data(
                text@.skip(pos as int),
            ) == Some((optional_view(data), next - pos)),
            None => parse_optional_data(text@.skip(pos as int)) is None,
        },
{
    if let Some(next) = expect(text, pos, "null") {
        return Some((None, next));
    }
    match read_data(text, pos) {
        Some((data, next)) => Some((Some(data), next)),
        None => None,
    }
}

/// What an optional data holds.
pub open spec fn optional_view(data: Option<Data>) -> Option<DataView> {
    match data {
        Some(data) => Some(data@),
        None => None,
    }
}

/// A token that carries no instruction.
#[derive(Debug)]
pub struct InvalidToken;

/// An instruction: the path of the action to run, and the data to run it
/// with.
#[derive(Debug)]
pub struct Payload {
    path: String,
    data: Option<Data>,
}

impl View for Payload {
    type V = PayloadView;

    closed spec fn view(&self) -> PayloadView {
        PayloadView { path: self.path@, data: optional_view(self.data) }
    }
}

impl Clone for Payload {
    fn clone(&self) -> (copy: Payload)
        ensures
            copy@ == self@,
    {
        let data = match &self.data {
            Some(data) => Some(data.clone()),
            None => None,
        };
        Payload { path: self.path.clone(), data }
    }
}

impl Default for Payload {
    /// The root action, without data.
    fn default() -> (payload: Payload)
        ensures
            payload@ == default_payload(),
    {
        Payload { path: ROOT_PATH.to_owned(), data: None }
    }
}

fn read_payload(text: &Vec<char>, pos: usize) -> (found: Option<(Payload, usize)>)
    requires
        pos <= text.len(),
    ensures
        match found {
            Some((payload, next)) => pos <= next <= text.len() && parse_payload(
                text@.skip(pos as int),
            ) == Some((payload@, next - pos)),
            None => parse_payload(text@.skip(pos as int)) is None,
        },
{
    let ghost s = text@.skip(pos as int);
    let path_at = match expect(text, pos, "{\"path\":") {
        Some(next) => next,
        None => { return None; },
    };
    assert(s.skip(path_at - pos) == text@.skip(path_at as int));
    let (path, key_at) = match read_quoted(text, path_at) {
        Some(found) => found,
        None => { return None; },
    };
    assert(s.skip(key_at - pos) == text@.skip(key_at as int));
    let data_at = match expect(text, key_at, ",\"data\":") {
        Some(next) => next,
        None => { return None; },
    };
    assert(s.skip(data_at - pos) == text@.skip(data_at as int));
    let (data, close) = match read_optional_data(text, data_at) {
        Some(found) => found,
        None => { return None; },
    };
    if close < text.len() {
        assert(s[close - pos] == text@[close as int]);
    }
    if close >= text.len() || text[close] != '}' {
        return None;
    }
    Some((Payload { path, data }, close + 1))
}

impl Payload {
    /// The instruction to run the action at `path` with `data`.
    pub fn new(path: &str, data: Option<Data>) -> (payload: Payload)
        ensures
            payload@ == (PayloadView { path: path@, data: optional_view(data) }),
    {
        Payload { path: path.to_owned(), data }
    }

    /// The path of the action to run.
    pub fn get_path(&self) -> (path: String)
        ensures
            path@ == self@.path,
    {
        self.path.clone()
    }

    /// The data to run the action with; the default data where the
    /// instruction carries none.
    pub fn get_data(&self) -> (data: Data)
        ensures
            data@ == match self@.data {
                Some(data) => data,
                None => default_data(),
            },
    {
        match &self.data {
            Some(data) => data.clone(),
            None => Data::default(),
        }
    }

    /// The token that carries this instruction. Reading the token gives the
    /// instruction back.
    pub fn to_string(&self) -> (token: String)
        ensures
            token@ == token_text(self@),
            decoded(token@) == self@,
    {
        proof {
            decoding_inverts_encoding(self@);
        }
        let mut token = String::new();
        token.append("{\"path\":");
        write_quoted(&mut token, self.path.as_str());
        token.append(",\"data\":");
        match &self.data {
            Some(data) => write_data(&mut token, data),
            None => token.append("null"),
        }
        push_char(&mut token, '}');
        assert(token@ == token_text(self@));
        token
    }

    /// Reads a token. It is accepted exactly when it is the token of some
    /// instruction, and that instruction is returned.
    ///
    /// Only the form that [`Payload::to_string`] writes is read: the JSON
    /// object without spaces, with its keys in that order and its strings
    /// escaped in that way. Any other layout of the same JSON is no token.
    pub fn from_str(token: &str) -> (outcome: Result<Payload, InvalidToken>)
        ensures
            match outcome {
                Ok(payload) => token_text(payload@) == token@,
                Err(_) => !is_token(token@),
            },
    {
        let text = chars_of(token);
        assert(text@.skip(0) == token@);
        proof {
            parse_payload_sound(token@);
            assert forall|payload: PayloadView| token_text(payload) == token@ implies parse_payload(
                token@,
            ) == Some((payload, token@.len() as int)) by {
                parse_payload_complete(payload, Seq::empty());
                assert(token_text(payload) + Seq::<char>::empty() == token_text(payload));
            }
        }
        match read_payload(&text, 0) {
            Some((payload, next)) => {
                if next == text.len() {
                    assert(token@.take(next as int) == token@);
                    Ok(payload)
                } else {
                    Err(InvalidToken)
                }
            },
            None => Err(InvalidToken),
        }
    }

    /// Reads a token without ever failing: a token that carries no
    /// instruction gives the default one. As with [`Payload::from_str`],
    /// only the written form counts as a token.
    pub fn decode(token: &str) -> (payload: Payload)
        ensures
            payload@ == decoded(token@),
    {
        match Payload::from_str(token) {
            Ok(payload) => {
                proof {
                    token_text_is_injective(payload@, decoded(token@));
                }
                payload
            },
            Err(_) => Payload::default(),
        }
    }
}

impl Data {
    /// Reads the written form of a data; a text that is none gives the
    /// default data.
    ///
    /// The written form is the one that a token holds its data in: the JSON
    /// object without spaces, the value before the page, both present. JSON
    /// that says the same in another layout is not read and gives the
    /// default data, too.
    pub fn from_string(text: &str) -> (data: Data)
        ensures
            data@ == decoded_data(text@),
    {
        let chars = chars_of(text);
        assert(chars@.skip(0) == text@);
        proof {
            parse_data_sound(text@);
            assert forall|data: DataView| data_text(data) == text@ implies parse_data(text@)
                == Some((data, text@.len() as int)) by {
                parse_data_complete(data, Seq::empty());
                assert(data_text(data) + Seq::<char>::empty() == data_text(data));
            }
        }
        match read_data(&chars, 0) {
            Some((data, next)) => {
                if next == chars.len() {
                    assert(text@.take(next as int) == text@);
                    proof {
                        data_text_is_injective(data@, decoded_data(text@));
                    }
                    data
                } else {
                    Data::default()
                }
            },
            None => Data::default(),
        }
    }
}

} // verus!
