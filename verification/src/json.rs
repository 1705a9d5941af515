//! The two places where the logic of this crate needs a JSON library.

use vstd::prelude::*;

verus! {

/// The JSON string literal for a text, quotes included, as
/// `serde_json::to_string` writes it; nothing where it reports an error.
pub uninterp spec fn json_string_literal(text: Seq<char>) -> Option<Seq<char>>;

/// `serde_json::to_string` on a string. The literal depends on the text
/// alone; the contract gives it the name `json_string_literal`.
#[verifier::external_body]
pub(crate) fn json_quote(text: &str) -> (r: Option<String>)
    ensures
        r.deep_view() == json_string_literal(text@),
{
    serde_json::to_string(text).ok()
}

/// The string that a JSON document holds under `key` at its top level;
/// nothing where the text is no JSON document, no object, or holds no
/// string there.
pub uninterp spec fn json_member_string(document: Seq<char>, key: Seq<char>) -> Option<Seq<char>>;

/// `serde_json::from_str` into a `Value`, then `Value::get` and
/// `Value::as_str`. The result depends on the two texts alone; the
/// contract gives it the name `json_member_string`.
#[verifier::external_body]
pub(crate) fn json_member(document: &str, key: &str) -> (r: Option<String>)
    ensures
        r.deep_view() == json_member_string(document@, key@),
{
    match serde_json::from_str::<serde_json::Value>(document) {
        Ok(value) => value.get(key).and_then(|member| member.as_str()).map(|s| s.to_string()),
        Err(_) => None,
    }
}

} // verus!
