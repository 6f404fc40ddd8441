//! Reading values out of JSON text with serde_json. Each lookup parses the
//! text and follows a JSON Pointer (RFC 6901); what it finds is named, not
//! restated: JSON parsing is serde_json's.
use vstd::prelude::*;

verus! {

/// The string at `pointer` in the JSON document `text`, if the text parses
/// and a string stands there.
pub uninterp spec fn json_text_at(text: Seq<char>, pointer: Seq<char>) -> Option<Seq<char>>;

/// The integer (fitting `i64`) at `pointer` in the JSON document `text`.
pub uninterp spec fn json_int_at(text: Seq<char>, pointer: Seq<char>) -> Option<i64>;

/// Whether any value stands at `pointer` in the JSON document `text`.
pub uninterp spec fn json_value_at(text: Seq<char>, pointer: Seq<char>) -> bool;

/// The length of the array at `pointer` in the JSON document `text`.
pub uninterp spec fn json_array_len_at(text: Seq<char>, pointer: Seq<char>) -> Option<usize>;

/// `serde_json::from_str::<Value>(text)`, then `Value::pointer(pointer)`,
/// then `Value::as_str`: claims only that the answer is the named function of
/// the text and the pointer.
#[verifier::external_body]
pub(crate) fn json_str(text: &str, pointer: &str) -> (r: Option<String>)
    ensures
        r.deep_view() == json_text_at(text@, pointer@),
{
    match serde_json::from_str::<serde_json::Value>(text) {
        Ok(value) => value.pointer(pointer).and_then(serde_json::Value::as_str).map(str::to_owned),
        Err(_) => None,
    }
}

/// `serde_json::from_str::<Value>(text)`, then `Value::pointer(pointer)`,
/// then `Value::as_i64`: claims only that the answer is the named function of
/// the text and the pointer.
#[verifier::external_body]
pub(crate) fn json_i64(text: &str, pointer: &str) -> (r: Option<i64>)
    ensures
        r == json_int_at(text@, pointer@),
{
    match serde_json::from_str::<serde_json::Value>(text) {
        Ok(value) => value.pointer(pointer).and_then(serde_json::Value::as_i64),
        Err(_) => None,
    }
}

/// `serde_json::from_str::<Value>(text)`, then whether `Value::pointer(pointer)`
/// finds a value: claims only that the answer is the named function of the
/// text and the pointer.
#[verifier::external_body]
pub(crate) fn json_has(text: &str, pointer: &str) -> (r: bool)
    ensures
        r == json_value_at(text@, pointer@),
{
    match serde_json::from_str::<serde_json::Value>(text) {
        Ok(value) => value.pointer(pointer).is_some(),
        Err(_) => false,
    }
}

/// `serde_json::from_str::<Value>(text)`, then `Value::pointer(pointer)`,
/// then the length of `Value::as_array`: claims only that the answer is the
/// named function of the text and the pointer.
#[verifier::external_body]
pub(crate) fn json_array_len(text: &str, pointer: &str) -> (r: Option<usize>)
    ensures
        r == json_array_len_at(text@, pointer@),
{
    match serde_json::from_str::<serde_json::Value>(text) {
        Ok(value) => value.pointer(pointer).and_then(serde_json::Value::as_array).map(Vec::len),
        Err(_) => None,
    }
}

/// A lower-case hexadecimal digit.
pub open spec fn hex_digit(n: int) -> char {
    if n < 10 {
        (48 + n) as char
    } else {
        (87 + n) as char
    }
}

/// How serde_json writes one character inside a string literal: the quote and
/// the backslash behind a backslash; backspace, tab, line feed, form feed and
/// carriage return as `\b \t \n \f \r`; any other control character below
/// U+0020 as `\u00` and two lower-case hexadecimal digits; anything else as it is.
pub open spec fn json_char_escape(c: char) -> Seq<char> {
    let n = c as int;
    if c == '"' {
        seq!['\\', '"']
    } else if c == '\\' {
        seq!['\\', '\\']
    } else if n == 8 {
        seq!['\\', 'b']
    } else if n == 9 {
        seq!['\\', 't']
    } else if n == 10 {
        seq!['\\', 'n']
    } else if n == 12 {
        seq!['\\', 'f']
    } else if n == 13 {
        seq!['\\', 'r']
    } else if n < 32 {
        seq!['\\', 'u', '0', '0', hex_digit(n / 16), hex_digit(n % 16)]
    } else {
        seq![c]
    }
}

/// The characters of `s`, each written as serde_json writes it in a string.
pub open spec fn json_escaped(s: Seq<char>) -> Seq<char>
    decreases s.len(),
{
    if s.len() == 0 {
        Seq::empty()
    } else {
        json_escaped(s.drop_last()) + json_char_escape(s.last())
    }
}

/// The JSON string literal that serde_json writes for `s`: its characters
/// escaped, between double quotes.
pub open spec fn json_quoted(s: Seq<char>) -> Seq<char> {
    seq!['"'] + json_escaped(s) + seq!['"']
}

/// serde_json's message for why `text` is not a JSON document; none when it is one.
pub uninterp spec fn json_error_at(text: Seq<char>) -> Option<Seq<char>>;

/// For a frame payload: its text when serde_json reads it as a JSON document,
/// else serde_json's message for why not.
pub uninterp spec fn json_payload_text(payload: Seq<u8>) -> Result<Seq<char>, Seq<char>>;

/// `serde_json::to_string(s)`: the JSON string literal for `s`, written as
/// serde_json's escape table writes it (its `Err` arm cannot happen for a
/// string).
#[verifier::external_body]
pub(crate) fn json_quote(s: &str) -> (r: String)
    ensures
        r@ == json_quoted(s@),
{
    match serde_json::to_string(s) {
        Ok(text) => text,
        Err(_) => String::new(),
    }
}

/// `serde_json::from_str::<Value>(text)`, and the error's `to_string()` when
/// it fails. Claims only that the answer is the named function of the text.
#[verifier::external_body]
pub(crate) fn json_parse_error(text: &str) -> (r: Option<String>)
    ensures
        r.deep_view() == json_error_at(text@),
{
    match serde_json::from_str::<serde_json::Value>(text) {
        Ok(_) => None,
        Err(error) => Some(error.to_string()),
    }
}

/// `serde_json::from_slice::<Value>(payload)`: on success the payload as text
/// (a JSON document is UTF-8), else the error's `to_string()`. Claims only
/// that the answer is the named function of the payload.
#[verifier::external_body]
pub(crate) fn json_payload(payload: &Vec<u8>) -> (r: Result<String, String>)
    ensures
        match r {
            Ok(t) => json_payload_text(payload@) == Ok::<Seq<char>, Seq<char>>(t@),
            Err(e) => json_payload_text(payload@) == Err::<Seq<char>, Seq<char>>(e@),
        },
{
    match serde_json::from_slice::<serde_json::Value>(payload) {
        Ok(_) => Ok(String::from_utf8_lossy(payload).into_owned()),
        Err(error) => Err(error.to_string()),
    }
}

} // verus!
