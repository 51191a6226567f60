//! HTTP header fields: what a header map holds, and how its values read as text.

use crate::text::{lower, str_view, text_view, utf8_text};
use http::HeaderMap;
use vstd::prelude::*;
use vstd::utf8::*;

verus! {

broadcast use vstd::string::group_string_axioms;

/// The header map of the `http` crate.
#[verifier::external_type_specification]
#[verifier::external_body]
#[verifier::reject_recursive_types(T)]
pub struct ExHeaderMap<T>(http::HeaderMap<T>);

/// The header value of the `http` crate.
#[verifier::external_type_specification]
#[verifier::external_body]
pub struct ExHeaderValue(http::HeaderValue);

/// What a header map holds: for each field name, in lower case, the values of that field in the
/// order in which they were added. A name that has no value is not in the map.
pub uninterp spec fn header_fields(headers: HeaderMap) -> Map<Seq<char>, Seq<Seq<u8>>>;

/// The values of the field `name`, whatever the case of its letters; empty where there is none.
pub open spec fn values_of(headers: HeaderMap, name: Seq<char>) -> Seq<Seq<u8>> {
    if header_fields(headers).dom().contains(lower(name)) {
        header_fields(headers)[lower(name)]
    } else {
        Seq::empty()
    }
}

/// The most field names that a header map is sure to take one more beside.
pub const MAX_NAMES: usize = 6553;

/// One more field can surely be put into the map.
pub open spec fn has_room(headers: HeaderMap) -> bool {
    header_fields(headers).dom().finite() && header_fields(headers).dom().len() <= MAX_NAMES
}

/// A field name made of lower-case letters, capitals, digits and hyphens.
pub open spec fn is_plain_name(name: Seq<char>) -> bool {
    &&& 0 < name.len() <= 64
    &&& forall|i: int|
        0 <= i < name.len() ==> ('a' <= #[trigger] name[i] <= 'z' || 'A' <= name[i] <= 'Z' || '0'
            <= name[i] <= '9' || name[i] == '-')
}

/// A visible ASCII character, a space or a tab.
pub open spec fn is_visible(b: u8) -> bool {
    32 <= b < 127 || b == 9
}

/// A text of visible ASCII characters, spaces and tabs.
pub open spec fn is_visible_text(s: Seq<char>) -> bool {
    forall|i: int| 0 <= i < s.len() ==> (' ' <= #[trigger] s[i] < '\u{7f}' || s[i] == '\t')
}

/// `http::HeaderMap::new`: a map without any field.
#[verifier::external_body]
pub(crate) fn no_headers() -> (res: HeaderMap)
    ensures
        header_fields(res).dom() =~= Set::empty(),
{
    HeaderMap::new()
}

/// `http::HeaderMap::get_all`: the bytes of each value of the field, in their order. The name
/// is looked up without regard to case; one that is no field name has no value.
#[verifier::external_body]
pub(crate) fn get_all(headers: &HeaderMap, name: &str) -> (res: Vec<Vec<u8>>)
    ensures
        res.deep_view() == values_of(*headers, name@),
{
    headers.get_all(name).iter().map(|v| v.as_bytes().to_vec()).collect()
}

/// `http::HeaderMap::remove`: takes out the field with all its values, and leaves the others.
/// The name is looked up without regard to case; one that is no field name takes out nothing.
#[verifier::external_body]
pub(crate) fn remove(headers: &mut HeaderMap, name: &str)
    ensures
        header_fields(*final(headers)) == header_fields(*old(headers)).remove(lower(name@)),
{
    headers.remove(name);
}

/// `http::HeaderMap::try_insert`: gives the field this one value in place of all that it had, and
/// leaves the others. Where the map would have to grow beyond its limit of buckets, it is left as
/// it is, and the result is false; a map of at most `MAX_NAMES` names never has to. Of a larger
/// one it is left unsaid whether it has to, since that rests on how the names are hashed.
#[verifier::external_body]
pub(crate) fn insert(headers: &mut HeaderMap, name: &'static str, value: &str) -> (res: bool)
    requires
        is_plain_name(name@),
        is_visible_text(value@),
    ensures
        has_room(*old(headers)) ==> res,
        header_fields(*final(headers)) == (if res {
            header_fields(*old(headers)).insert(lower(name@), seq![encode_utf8(value@)])
        } else {
            header_fields(*old(headers))
        }),
{
    let value = http::HeaderValue::from_str(value).expect("a visible text");
    headers.try_insert(name, value).is_ok()
}

/// A header map has no room for one more field.
#[derive(Debug, Clone, Copy, PartialEq, Eq, Structural)]
pub struct NoRoom;

/// The names are finitely many, namely `n`.
pub open spec fn are_as_many(names: Set<Seq<char>>, n: nat) -> bool {
    names.finite() && names.len() == n
}

/// `http::HeaderMap::keys_len`: how many names have a value.
#[verifier::external_body]
fn count_names(headers: &HeaderMap) -> (res: usize)
    ensures
        are_as_many(header_fields(*headers).dom(), res as nat),
{
    headers.keys_len()
}

/// Whether one more field can surely be put into the map.
pub fn fits_one_more(headers: &HeaderMap) -> (res: bool)
    ensures
        res == has_room(*headers),
{
    count_names(headers) <= MAX_NAMES
}

/// The text of a header value: there is one where all its bytes are visible ASCII characters,
/// spaces or tabs.
pub open spec fn header_text(value: Seq<u8>) -> Option<Seq<char>> {
    if forall|i: int| 0 <= i < value.len() ==> is_visible(#[trigger] value[i]) {
        Some(value.map_values(|b: u8| b as char))
    } else {
        None
    }
}

/// Bytes that are visible ASCII are the UTF-8 encoding of the same characters.
proof fn lemma_visible_is_utf8(value: Seq<u8>)
    requires
        forall|i: int| 0 <= i < value.len() ==> is_visible(#[trigger] value[i]),
    ensures
        valid_utf8(value),
        decode_utf8(value) == value.map_values(|b: u8| b as char),
{
    let chars = value.map_values(|b: u8| b as char);
    assert(is_ascii_chars(chars)) by {
        assert forall|i: int| 0 <= i < chars.len() implies '\0' <= #[trigger] chars[i]
            <= '\u{7f}' by {
            assert(is_visible(value[i]));
        }
    }
    is_ascii_chars_encode_utf8(chars);
    assert(encode_utf8(chars) =~= value) by {
        assert forall|i: int| 0 <= i < value.len() implies encode_utf8(chars)[i] == value[i] by {
            assert(is_visible(value[i]));
            assert(chars[i] as u8 == encode_utf8(chars)[i]);
        }
    }
    encode_utf8_valid_utf8(chars);
    encode_utf8_decode_utf8(chars);
}

/// Reads a header value as text.
pub(crate) fn value_text(value: &[u8]) -> (res: Option<&str>)
    ensures
        str_view(res) == header_text(value@),
{
    let mut i: usize = 0;
    while i < value.len()
        invariant
            i <= value@.len(),
            forall|j: int| 0 <= j < i ==> is_visible(#[trigger] value@[j]),
        decreases value@.len() - i,
    {
        let b = value[i];
        if !((32 <= b && b < 127) || b == 9) {
            assert(!is_visible(value@[i as int]));
            return None;
        }
        i += 1;
    }
    proof {
        lemma_visible_is_utf8(value@);
    }
    utf8_text(value)
}

/// The text of the first value of the field `name`; `None` where the field has no value, or
/// the first one is not text.
pub open spec fn field_text(headers: HeaderMap, name: Seq<char>) -> Option<Seq<char>> {
    if values_of(headers, name).len() == 0 {
        None
    } else {
        header_text(values_of(headers, name)[0])
    }
}

/// Reads the first value of a field as text.
pub(crate) fn first_text(headers: &HeaderMap, name: &str) -> (res: Option<String>)
    ensures
        text_view(res) == field_text(*headers, name@),
{
    let values = get_all(headers, name);
    assert(values.deep_view().len() == values@.len());
    if values.len() == 0 {
        return None;
    }
    assert(values.deep_view()[0] == values@[0]@);
    match value_text(values[0].as_slice()) {
        Some(t) => Some(t.to_owned()),
        None => None,
    }
}

} // verus!
