//! The JSON library behind the wire format. Everything here is taken on
//! trust: the contracts give each answer of `serde_json` a name, and the
//! verified code elsewhere is stated over those names.

use vstd::prelude::*;

verus! {

/// A parsed JSON document, opaque to the verifier.
#[verifier::external_type_specification]
#[verifier::external_body]
pub struct ExJsonValue(serde_json::Value);

/// The failure that `serde_json` reports, opaque to the verifier.
#[verifier::external_type_specification]
#[verifier::external_body]
pub struct ExJsonError(serde_json::Error);

/// The JSON string literal, quotes and escapes included, that
/// `serde_json::to_string` writes for a text.
pub uninterp spec fn json_literal(s: Seq<char>) -> Seq<char>;

/// The document that `serde_json::from_str` reads from a text, if the text
/// is one JSON value and nothing else.
pub uninterp spec fn json_document(text: Seq<char>) -> Option<serde_json::Value>;

/// The member that `Value::get` finds under a key: present only in an object
/// that holds the key.
pub uninterp spec fn json_member(doc: serde_json::Value, key: Seq<char>) -> Option<
    serde_json::Value,
>;

/// The text that `Value::as_str` finds: present only in a JSON string.
pub uninterp spec fn json_text(doc: serde_json::Value) -> Option<Seq<char>>;

/// The number that `Value::as_u64` finds: present only in a JSON number
/// written as a non-negative integer, without fraction or exponent, that is
/// below 2^64.
pub uninterp spec fn json_count(doc: serde_json::Value) -> Option<u64>;

/// Calls `serde_json::to_string` on a text. The contract claims that the
/// call succeeds and carries the literal named above: writing fails only
/// where the value refuses to be written, where a map has a key that is no
/// string, or where the writer fails, and here the value is a text and the
/// writer a vector in memory.
#[verifier::external_body]
pub(crate) fn write_literal(s: &str) -> (r: Result<String, serde_json::Error>)
    ensures
        r is Ok,
        r matches Ok(t) ==> t@ == json_literal(s@),
{
    serde_json::to_string(s)
}

/// Calls `serde_json::from_str` for a `Value`. The contract claims that a
/// success carries the document named above and that a failure means there
/// is none.
#[verifier::external_body]
pub(crate) fn read_document(text: &str) -> (r: Result<serde_json::Value, serde_json::Error>)
    ensures
        match r {
            Ok(doc) => json_document(text@) == Some(doc),
            Err(_) => json_document(text@) is None,
        },
{
    serde_json::from_str::<serde_json::Value>(text)
}

/// Calls `Value::get` with a text key.
#[verifier::external_body]
pub(crate) fn member<'a>(doc: &'a serde_json::Value, key: &str) -> (r: Option<
    &'a serde_json::Value,
>)
    ensures
        match r {
            Some(m) => json_member(*doc, key@) == Some(*m),
            None => json_member(*doc, key@) is None,
        },
{
    doc.get(key)
}

/// Calls `Value::as_str`.
#[verifier::external_body]
pub(crate) fn text_of<'a>(doc: &'a serde_json::Value) -> (r: Option<&'a str>)
    ensures
        match r {
            Some(t) => json_text(*doc) == Some(t@),
            None => json_text(*doc) is None,
        },
{
    doc.as_str()
}

/// Calls `Value::as_u64`.
#[verifier::external_body]
pub(crate) fn count_of(doc: &serde_json::Value) -> (r: Option<u64>)
    ensures
        r == json_count(*doc),
{
    doc.as_u64()
}

} // verus!
