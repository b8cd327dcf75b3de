//! What the library reads out of JSON documents.
use vstd::prelude::*;

verus! {

/// What stands at one place of a JSON document.
#[derive(Debug, Clone)]
pub enum JsonField {
    /// Nothing: the place does not exist.
    Absent,
    Null,
    Bool(bool),
    /// A number, with its value where it is an integer that fits 64 bits without a sign.
    Number(Option<u64>),
    Text(String),
    Array,
    Object,
}

/// The model of a [`JsonField`].
pub enum JsonFieldView {
    Absent,
    Null,
    Bool(bool),
    Number(Option<u64>),
    Text(Seq<char>),
    Array,
    Object,
}

impl View for JsonField {
    type V = JsonFieldView;

    open spec fn view(&self) -> JsonFieldView {
        match *self {
            JsonField::Absent => JsonFieldView::Absent,
            JsonField::Null => JsonFieldView::Null,
            JsonField::Bool(b) => JsonFieldView::Bool(b),
            JsonField::Number(n) => JsonFieldView::Number(n),
            JsonField::Text(s) => JsonFieldView::Text(s@),
            JsonField::Array => JsonFieldView::Array,
            JsonField::Object => JsonFieldView::Object,
        }
    }
}

/// What `serde_json` finds in a document at a JSON pointer: nothing at all where the text is no
/// JSON document, else what stands at the place that the pointer leads to.
pub uninterp spec fn json_at(text: Seq<char>, pointer: Seq<char>) -> Option<JsonFieldView>;

/// Calls `serde_json::from_str` for the document and `serde_json::Value::pointer` for the place in
/// it. The result is named and not spelled out: it depends on the text and the pointer alone.
#[verifier::external_body]
pub(crate) fn read_json(text: &str, pointer: &str) -> (field: Option<JsonField>)
    ensures
        match field {
            Some(found) => json_at(text@, pointer@) == Some(found@),
            None => json_at(text@, pointer@) is None,
        },
{
    let document: serde_json::Value = serde_json::from_str(text).ok()?;
    Some(match document.pointer(pointer) {
        None => JsonField::Absent,
        Some(serde_json::Value::Null) => JsonField::Null,
        Some(serde_json::Value::Bool(b)) => JsonField::Bool(*b),
        Some(serde_json::Value::Number(n)) => JsonField::Number(n.as_u64()),
        Some(serde_json::Value::String(s)) => JsonField::Text(s.clone()),
        Some(serde_json::Value::Array(_)) => JsonField::Array,
        Some(serde_json::Value::Object(_)) => JsonField::Object,
    })
}

}
