//! The JSON pieces that ticks are written with and read from, through serde_json.

use vstd::prelude::*;

verus! {

/// The JSON string literal (quoted and escaped) that serde_json writes for a text.
pub uninterp spec fn json_quoted(s: Seq<char>) -> Seq<char>;

/// The unsigned integer that the JSON document `text` holds under `key` at its top
/// level, as serde_json reads it; `None` where the text is not JSON, not an object,
/// lacks the key, or the member is no unsigned integer.
pub uninterp spec fn json_u64_at(text: Seq<char>, key: Seq<char>) -> Option<u64>;

/// The string that the JSON document `text` holds under `key` at its top level, as
/// serde_json reads it; `None` where there is none.
pub uninterp spec fn json_str_at(text: Seq<char>, key: Seq<char>) -> Option<Seq<char>>;

/// The quoted texts, separated by commas.
pub open spec fn json_joined(items: Seq<Seq<char>>) -> Seq<char>
    decreases items.len(),
{
    if items.len() == 0 {
        Seq::empty()
    } else if items.len() == 1 {
        json_quoted(items[0])
    } else {
        json_joined(items.drop_last()) + seq![','] + json_quoted(items.last())
    }
}

/// The JSON array that serde_json writes for a list of texts: the quoted texts,
/// separated by commas, in brackets, with no white space.
pub open spec fn json_text_array(items: Seq<Seq<char>>) -> Seq<char> {
    seq!['['] + json_joined(items) + seq![']']
}

/// The views of a list of strings.
pub open spec fn views_of(v: Seq<String>) -> Seq<Seq<char>> {
    v.map_values(|s: String| s@)
}

/// Relies on `serde_json::to_string` applied to a `Vec<String>`: the compact
/// writer puts the quoted texts, separated by commas, in brackets, and writing
/// strings into memory cannot fail.
#[verifier::external_body]
pub(crate) fn quote_json_array(items: &Vec<String>) -> (r: String)
    ensures
        r@ == json_text_array(views_of(items@)),
{
    serde_json::to_string(items).unwrap_or_default()
}

/// Relies on `serde_json::to_string` applied to a `str`: it writes the quoted,
/// escaped literal, and writing a `str` into memory cannot fail.
#[verifier::external_body]
pub(crate) fn quote_json(s: &str) -> (r: String)
    ensures
        r@ == json_quoted(s@),
{
    serde_json::to_string(s).unwrap_or_default()
}

/// Relies on `serde_json::from_str` into a `serde_json::Value`, then `Value::get`
/// and `Value::as_u64`: the unsigned integer member `key` of the parsed object.
#[verifier::external_body]
pub(crate) fn json_u64_member(text: &str, key: &str) -> (r: Option<u64>)
    ensures
        r == json_u64_at(text@, key@),
{
    serde_json::from_str::<serde_json::Value>(text).ok().and_then(|v| v.get(key).and_then(|f| f.as_u64()))
}

/// Relies on `serde_json::from_str` into a `serde_json::Value`, then `Value::get`
/// and `Value::as_str`: the string member `key` of the parsed object.
#[verifier::external_body]
pub(crate) fn json_str_member(text: &str, key: &str) -> (r: Option<String>)
    ensures
        match r {
            Some(v) => json_str_at(text@, key@) == Some(v@),
            None => json_str_at(text@, key@) is None,
        },
{
    serde_json::from_str::<serde_json::Value>(text).ok().and_then(|v| v.get(key).and_then(|f| f.as_str().map(String::from)))
}

} // verus!
