//! JSON texts, read and written by `serde_json`.
//!
//! The library never looks into a JSON value itself. It hands a text to
//! `serde_json` and gets texts back: whether the text is JSON at all, its
//! compact form, and for an object its members. What `serde_json` answers is
//! not proved here. A string literal is stated in full; each other answer
//! has a name below, and the contracts of the library speak of those names.

use vstd::prelude::*;

verus! {

/// A text after `serde_json` has read it.
#[derive(Debug, PartialEq, Eq)]
pub enum Json {
    /// The text is no JSON; the message says why.
    Invalid { message: String },
    /// The text is a JSON object: its compact form, and its members in the
    /// order in which `serde_json` keeps them, each value in compact form.
    Object { text: String, members: Vec<(String, String)> },
    /// The text is another JSON value: its compact form.
    Other { text: String },
}

pub enum JsonView {
    Invalid { message: Seq<char> },
    Object { text: Seq<char>, members: Seq<(Seq<char>, Seq<char>)> },
    Other { text: Seq<char> },
}

/// The views of a list of pairs of texts.
pub open spec fn pair_views(pairs: Seq<(String, String)>) -> Seq<(Seq<char>, Seq<char>)> {
    Seq::new(pairs.len(), |i: int| (pairs[i].0@, pairs[i].1@))
}

impl View for Json {
    type V = JsonView;

    open spec fn view(&self) -> JsonView {
        match self {
            Json::Invalid { message } => JsonView::Invalid { message: message@ },
            Json::Object { text, members } => JsonView::Object {
                text: text@,
                members: pair_views(members@),
            },
            Json::Other { text } => JsonView::Other { text: text@ },
        }
    }
}

/// What `serde_json` makes of a text.
pub uninterp spec fn json_of(text: Seq<char>) -> JsonView;

/// The sixteen digits of the escapes `\u00..`.
pub open spec fn hex_digits() -> Seq<char> {
    seq!['0', '1', '2', '3', '4', '5', '6', '7', '8', '9', 'a', 'b', 'c', 'd', 'e', 'f']
}

/// What stands for one character inside a JSON string literal: the quote,
/// the backslash and the control characters below U+0020 are escaped, the
/// short escapes taken where there is one; any other character stands for
/// itself.
pub open spec fn escaped(c: char) -> Seq<char> {
    if c == '"' {
        seq!['\\', '"']
    } else if c == '\\' {
        seq!['\\', '\\']
    } else if c == '\u{8}' {
        seq!['\\', 'b']
    } else if c == '\t' {
        seq!['\\', 't']
    } else if c == '\n' {
        seq!['\\', 'n']
    } else if c == '\u{c}' {
        seq!['\\', 'f']
    } else if c == '\r' {
        seq!['\\', 'r']
    } else if (c as int) < 0x20 {
        seq!['\\', 'u', '0', '0', hex_digits()[c as int / 16], hex_digits()[c as int % 16]]
    } else {
        seq![c]
    }
}

/// A text with each of its characters escaped.
pub open spec fn escaped_text(text: Seq<char>) -> Seq<char>
    decreases text.len(),
{
    if text.len() == 0 {
        Seq::empty()
    } else {
        escaped_text(text.drop_last()) + escaped(text.last())
    }
}

/// The JSON string literal of a text: the escaped text between quotes.
pub open spec fn json_string(text: Seq<char>) -> Seq<char> {
    seq!['"'] + escaped_text(text) + seq!['"']
}

/// The JSON object that `serde_json` writes for a map from names to texts
/// that is filled with the pairs in order.
pub uninterp spec fn json_string_map(pairs: Seq<(Seq<char>, Seq<char>)>) -> Seq<char>;

/// The indented form that `serde_json` writes for a text that is JSON;
/// `None` for a text that is none.
pub uninterp spec fn json_pretty(text: Seq<char>) -> Option<Seq<char>>;

/// Reads a text with `serde_json::from_str` as a `serde_json::Value`. A text
/// that is refused gives the error's message. A value is written back in
/// compact form by its `Display`; the members of an object are handed out in
/// the order of its map, each value written in the same way.
#[verifier::external_body]
pub(crate) fn read_json(text: &str) -> (json: Json)
    ensures
        json@ == json_of(text@),
{
    match serde_json::from_str::<serde_json::Value>(text) {
        Err(error) => Json::Invalid { message: error.to_string() },
        Ok(value) => {
            let text = value.to_string();
            match value {
                serde_json::Value::Object(map) => Json::Object {
                    text,
                    members: map.iter().map(|(key, value)| (key.clone(), value.to_string())).collect(),
                },
                _ => Json::Other { text },
            }
        },
    }
}

/// Writes a text as a JSON string literal, by the `Display` of
/// `serde_json::Value::String`: a quote, the text, a quote. In the text
/// `serde_json` escapes the quote, the backslash and the bytes below 0x20,
/// with `\b`, `\t`, `\n`, `\f`, `\r` where they apply and `\u00` and two
/// lower-case hexadecimal digits for the others, and writes every other
/// byte as it stands.
#[verifier::external_body]
pub(crate) fn write_json_string(text: &str) -> (literal: String)
    ensures
        literal@ == json_string(text@),
{
    serde_json::Value::String(text.to_owned()).to_string()
}

/// Writes pairs of texts as a JSON object: each pair is put into a
/// `serde_json::Map` with `insert`, in order, and the map is written by the
/// `Display` of `serde_json::Value::Object`.
#[verifier::external_body]
pub(crate) fn write_json_string_map(pairs: &Vec<(String, String)>) -> (object: String)
    ensures
        object@ == json_string_map(pair_views(pairs@)),
{
    let mut map = serde_json::Map::new();
    for (name, text) in pairs.iter() {
        map.insert(name.clone(), serde_json::Value::String(text.clone()));
    }
    serde_json::Value::Object(map).to_string()
}

/// Reads a text with `serde_json::from_str` as a `serde_json::Value` and
/// writes the value with `serde_json::to_string_pretty`.
#[verifier::external_body]
pub(crate) fn write_json_pretty(text: &str) -> (pretty: Option<String>)
    ensures
        match json_pretty(text@) {
            Some(expected) => pretty is Some && pretty->Some_0@ == expected,
            None => pretty is None,
        },
{
    match serde_json::from_str::<serde_json::Value>(text) {
        Ok(value) => serde_json::to_string_pretty(&value).ok(),
        Err(_) => None,
    }
}

} // verus!
