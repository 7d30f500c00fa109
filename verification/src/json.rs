//! Reading a reply in JSON, place by place.
use vstd::prelude::*;

verus! {

/// Why a text is no JSON, in the words of the parser; nothing where it is.
pub uninterp spec fn json_fault(text: Seq<char>) -> Option<Seq<char>>;

/// The string at a place of a JSON text, if the text is JSON and holds a string there.
pub uninterp spec fn json_string(text: Seq<char>, place: Seq<char>) -> Option<Seq<char>>;

/// How many items the array at a place of a JSON text has, if there is an array there.
pub uninterp spec fn json_items(text: Seq<char>, place: Seq<char>) -> Option<usize>;

/// The number at a place of a JSON text with so many decimals, if there is a number there.
pub uninterp spec fn json_decimals(text: Seq<char>, place: Seq<char>, decimals: usize) -> Option<
    Seq<char>,
>;

/// `serde_json::from_str` into a `serde_json::Value`: its complaint about a text, if it has one.
#[verifier::external_body]
pub(crate) fn read_fault(text: &str) -> (r: Option<String>)
    ensures
        crate::text::opt_text(r) == json_fault(text@),
{
    match serde_json::from_str::<serde_json::Value>(text) {
        Ok(_) => None,
        Err(e) => Some(e.to_string()),
    }
}

/// `serde_json::Value::as_str` at a JSON pointer (`serde_json::Value::pointer`) into a text.
#[verifier::external_body]
pub(crate) fn read_string(text: &str, place: &str) -> (r: Option<String>)
    ensures
        crate::text::opt_text(r) == json_string(text@, place@),
{
    let value = serde_json::from_str::<serde_json::Value>(text).ok()?;
    value.pointer(place)?.as_str().map(String::from)
}

/// The length of `serde_json::Value::as_array` at a JSON pointer into a text.
#[verifier::external_body]
pub(crate) fn read_items(text: &str, place: &str) -> (r: Option<usize>)
    ensures
        r == json_items(text@, place@),
{
    let value = serde_json::from_str::<serde_json::Value>(text).ok()?;
    value.pointer(place)?.as_array().map(Vec::len)
}

/// `serde_json::Value::as_f64` at a JSON pointer into a text, written with `decimals` decimals. The
/// number of decimals is one that a format can ask for.
#[verifier::external_body]
pub(crate) fn read_decimals(text: &str, place: &str, decimals: usize) -> (r: Option<String>)
    requires
        decimals <= u16::MAX,
    ensures
        crate::text::opt_text(r) == json_decimals(text@, place@, decimals),
{
    let value = serde_json::from_str::<serde_json::Value>(text).ok()?;
    value.pointer(place)?.as_f64().map(|n| format!("{n:.decimals$}"))
}

} // verus!
