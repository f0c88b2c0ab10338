//! The parts of a JSON log line that the parser reads, obtained through serde_json.

use vstd::prelude::*;

verus! {

#[verifier::external_type_specification]
#[verifier::external_body]
pub struct ExJsonValue(serde_json::Value);

#[verifier::external_type_specification]
#[verifier::external_body]
pub struct ExJsonNumber(serde_json::Number);

/// A top-level field of a JSON document, as far as the parser distinguishes it.
pub enum JsonField {
    /// The document has no such field (or is not an object).
    Missing,
    /// A string value.
    Text(String),
    /// A number value.
    Number(serde_json::Number),
    /// Any other value (object, array, boolean, null).
    Other,
}

/// The specification-level view of a [`JsonField`].
pub enum JsonFieldView {
    Missing,
    Text(Seq<char>),
    Number(serde_json::Number),
    Other,
}

impl View for JsonField {
    type V = JsonFieldView;

    open spec fn view(&self) -> JsonFieldView {
        match self {
            JsonField::Missing => JsonFieldView::Missing,
            JsonField::Text(s) => JsonFieldView::Text(s@),
            JsonField::Number(n) => JsonFieldView::Number(*n),
            JsonField::Other => JsonFieldView::Other,
        }
    }
}

/// What `serde_json::from_str::<Value>` gives for a text (`None` when it rejects it).
pub uninterp spec fn json_parse_result(s: Seq<char>) -> Option<serde_json::Value>;

/// What `serde_json::to_string_pretty` prints for a document.
pub uninterp spec fn json_pretty_text(v: serde_json::Value) -> Seq<char>;

/// What `Value::get` finds under a key, told apart by kind.
pub uninterp spec fn json_field(v: serde_json::Value, key: Seq<char>) -> JsonFieldView;

/// Calls `serde_json::from_str::<serde_json::Value>`; the document (or the
/// rejection) is named by `json_parse_result`.
#[verifier::external_body]
pub(crate) fn json_parse(s: &str) -> (r: Option<serde_json::Value>)
    ensures
        r == json_parse_result(s@),
{
    serde_json::from_str::<serde_json::Value>(s).ok()
}

/// Calls `serde_json::to_string_pretty` on a document; the text is named by
/// `json_pretty_text`. (Serialising a `Value` does not fail: its map keys are strings.)
#[verifier::external_body]
pub(crate) fn json_pretty(v: &serde_json::Value) -> (r: String)
    ensures
        r@ == json_pretty_text(*v),
{
    serde_json::to_string_pretty(v).unwrap_or_default()
}

/// Calls `Value::get` with a string key and tells the kind of the value found;
/// the outcome is named by `json_field`.
#[verifier::external_body]
pub(crate) fn json_get_field(v: &serde_json::Value, key: &str) -> (r: JsonField)
    ensures
        r@ == json_field(*v, key@),
{
    match v.get(key) {
        Some(serde_json::Value::String(s)) => JsonField::Text(s.clone()),
        Some(serde_json::Value::Number(n)) => JsonField::Number(n.clone()),
        Some(_) => JsonField::Other,
        None => JsonField::Missing,
    }
}

} // verus!
