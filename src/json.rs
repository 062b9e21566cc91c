use vstd::prelude::*;

verus! {

#[verifier::external_type_specification]
#[verifier::external_body]
pub struct ExJsonValue(serde_json::Value);

/// The JSON value that a text parses to, if it is valid JSON.
pub uninterp spec fn json_parsed(text: Seq<char>) -> Option<serde_json::Value>;

/// The member of a JSON object under a key; none for a missing key or a non-object.
pub uninterp spec fn json_member(v: serde_json::Value, key: Seq<char>) -> Option<serde_json::Value>;

/// The element of a JSON array at a position; none out of bounds or for a non-array.
pub uninterp spec fn json_element(v: serde_json::Value, index: int) -> Option<serde_json::Value>;

/// The characters of a JSON string value; none for any other kind of value.
pub uninterp spec fn json_string(v: serde_json::Value) -> Option<Seq<char>>;

/// The lower-case hexadecimal digit of a value below sixteen.
pub open spec fn hex_digit(d: int) -> char {
    seq!['0', '1', '2', '3', '4', '5', '6', '7', '8', '9', 'a', 'b', 'c', 'd', 'e', 'f'][d]
}

/// How one character is written inside a JSON string: quote and backslash
/// escaped, the control characters below U+0020 escaped (short forms where
/// JSON has them), every other character as it is.
pub open spec fn json_char_escape(c: char) -> Seq<char> {
    let n = c as u32;
    if c == '"' {
        seq!['\\', '"']
    } else if c == '\\' {
        seq!['\\', '\\']
    } else if n == 0x08 {
        seq!['\\', 'b']
    } else if n == 0x09 {
        seq!['\\', 't']
    } else if n == 0x0a {
        seq!['\\', 'n']
    } else if n == 0x0c {
        seq!['\\', 'f']
    } else if n == 0x0d {
        seq!['\\', 'r']
    } else if n < 0x20 {
        seq!['\\', 'u', '0', '0', hex_digit(n as int / 16), hex_digit(n as int % 16)]
    } else {
        seq![c]
    }
}

/// The characters of a text, each written as inside a JSON string.
pub open spec fn json_escaped(s: Seq<char>) -> Seq<char>
    decreases s.len(),
{
    if s.len() == 0 {
        Seq::empty()
    } else {
        json_escaped(s.drop_last()) + json_char_escape(s.last())
    }
}

/// The JSON string literal, quotes and escapes included, that encodes a text.
pub open spec fn json_quoted(s: Seq<char>) -> Seq<char> {
    seq!['"'] + json_escaped(s) + seq!['"']
}

/// Relies on `serde_json::from_str::<Value>`: parses a text as JSON.
#[verifier::external_body]
pub(crate) fn parse_json(text: &str) -> (r: Option<serde_json::Value>)
    ensures
        r == json_parsed(text@),
{
    serde_json::from_str::<serde_json::Value>(text).ok()
}

/// Relies on `serde_json::Value::get` with a `&str` index: looks a key up in an object.
#[verifier::external_body]
pub(crate) fn member(v: &serde_json::Value, key: &str) -> (r: Option<serde_json::Value>)
    ensures
        r == json_member(*v, key@),
{
    v.get(key).cloned()
}

/// Relies on `serde_json::Value::get` with a `usize` index: an element of an array.
#[verifier::external_body]
pub(crate) fn element(v: &serde_json::Value, index: usize) -> (r: Option<serde_json::Value>)
    ensures
        r == json_element(*v, index as int),
{
    v.get(index).cloned()
}

/// Relies on `serde_json::Value::as_str`: the text of a string value.
#[verifier::external_body]
pub(crate) fn string_of(v: &serde_json::Value) -> (r: Option<String>)
    ensures
        r matches Some(s) ==> json_string(*v) == Some(s@),
        r is None ==> json_string(*v) is None,
{
    v.as_str().map(|s| s.to_string())
}

/// Relies on `serde_json::to_string` on a `str`: writes it as a JSON string
/// literal. Writing a string into a byte buffer cannot fail.
#[verifier::external_body]
pub(crate) fn quote_json(s: &str) -> (r: Option<String>)
    ensures
        r is Some,
        r matches Some(q) ==> q@ == json_quoted(s@),
{
    serde_json::to_string(s).ok()
}

} // verus!
