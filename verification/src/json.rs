//! JSON texts: what stands where in one, and how strings are written in them.

use crate::text::text_view;
use serde_json::Value;
use vstd::prelude::*;

verus! {

/// What stands in a JSON document at the place that a JSON pointer gives, written by
/// `serde_json` without line breaks or indentation and with the members of each object in the
/// order of their names; `None` where `body` is not one JSON document, or nothing stands there.
pub uninterp spec fn json_text(body: Seq<u8>, pointer: Seq<char>) -> Option<Seq<char>>;

/// The string that stands in a JSON document at the place that a JSON pointer gives; `None`
/// where `body` is not one JSON document, or no string stands there.
pub uninterp spec fn json_string(body: Seq<u8>, pointer: Seq<char>) -> Option<Seq<char>>;

/// The text holds neither a line feed nor a carriage return.
pub open spec fn is_one_line(s: Seq<char>) -> bool {
    forall|i: int| 0 <= i < s.len() ==> #[trigger] s[i] != '\n' && s[i] != '\r'
}

/// `serde_json::from_slice` into a `serde_json::Value`, `Value::pointer` and `Value`'s
/// `to_string`. What is written is compact: control characters only occur in strings, where
/// they are escaped, so it never holds a line break.
#[verifier::external_body]
pub(crate) fn json_at(body: &[u8], pointer: &str) -> (res: Option<String>)
    ensures
        text_view(res) == json_text(body@, pointer@),
        res matches Some(text) ==> is_one_line(text@),
{
    let value: Value = serde_json::from_slice(body).ok()?;
    value.pointer(pointer).map(|v| v.to_string())
}

/// `serde_json::from_slice` into a `serde_json::Value`, `Value::pointer` and `Value::as_str`.
#[verifier::external_body]
pub(crate) fn json_string_at(body: &[u8], pointer: &str) -> (res: Option<String>)
    ensures
        text_view(res) == json_string(body@, pointer@),
{
    let value: Value = serde_json::from_slice(body).ok()?;
    value.pointer(pointer)?.as_str().map(|s| s.to_owned())
}

/// A hexadecimal digit, as a small letter from ten on.
pub open spec fn hex_digit(d: u32) -> char {
    if d < 10 {
        (48 + d) as char
    } else {
        (87 + d) as char
    }
}

/// How a character is written inside a JSON string.
pub open spec fn escaped_char(c: char) -> Seq<char> {
    if c == '"' {
        seq!['\\', '"']
    } else if c == '\\' {
        seq!['\\', '\\']
    } else if c == '\u{8}' {
        seq!['\\', 'b']
    } else if c == '\t' {
        seq!['\\', 't']
    } else if c == '\n' {
        seq!['\\', 'n']
    } else if c == '\u{c}' {
        seq!['\\', 'f']
    } else if c == '\r' {
        seq!['\\', 'r']
    } else if (c as int) < 32 {
        seq!['\\', 'u', '0', '0', hex_digit(c as u32 / 16), hex_digit(c as u32 % 16)]
    } else {
        seq![c]
    }
}

/// The characters of `s` as they are written inside a JSON string.
pub open spec fn escaped(s: Seq<char>) -> Seq<char>
    decreases s.len(),
{
    if s.len() == 0 {
        Seq::empty()
    } else {
        escaped(s.drop_last()) + escaped_char(s.last())
    }
}

/// `s` as a JSON string.
pub open spec fn quoted(s: Seq<char>) -> Seq<char> {
    seq!['"'] + escaped(s) + seq!['"']
}

/// `serde_json::to_string` of a string: the string between quotation marks, with quotation
/// marks, backslashes and control characters escaped, and every other character as it is.
#[verifier::external_body]
pub(crate) fn json_quote(s: &str) -> (res: String)
    ensures
        res@ == quoted(s@),
{
    serde_json::to_string(s).expect("a string is always written")
}

/// A JSON string never holds a raw line break, whatever it stands for.
pub proof fn quoted_is_one_line(s: Seq<char>)
    ensures
        is_one_line(quoted(s)),
{
    lemma_escaped_is_one_line(s);
}

proof fn lemma_escaped_char_is_one_line(c: char)
    ensures
        is_one_line(escaped_char(c)),
{
    if (c as int) < 32 {
        assert(c as u32 / 16 < 2 && c as u32 % 16 < 16);
        assert(hex_digit(c as u32 / 16) >= '0');
        assert(hex_digit(c as u32 % 16) >= '0');
    }
}

proof fn lemma_escaped_is_one_line(s: Seq<char>)
    ensures
        is_one_line(escaped(s)),
    decreases s.len(),
{
    if s.len() > 0 {
        lemma_escaped_is_one_line(s.drop_last());
        lemma_escaped_char_is_one_line(s.last());
    }
}

} // verus!
