//! Reading a text out of a JSON document.

use vstd::prelude::*;

verus! {

/// What stands at a place of a document.
#[derive(Debug, PartialEq, Eq)]
pub enum JsonText {
    /// The document is not JSON.
    Unreadable,
    /// Nothing stands there.
    Absent,
    /// Something stands there, but no text.
    Other,
    Text(String),
}

pub enum JsonPlace {
    Unreadable,
    Absent,
    Other,
    Text(Seq<char>),
}

impl View for JsonText {
    type V = JsonPlace;

    open spec fn view(&self) -> JsonPlace {
        match self {
            JsonText::Unreadable => JsonPlace::Unreadable,
            JsonText::Absent => JsonPlace::Absent,
            JsonText::Other => JsonPlace::Other,
            JsonText::Text(text) => JsonPlace::Text(text@),
        }
    }
}

/// What `serde_json::Value::pointer` finds in a document that
/// `serde_json::from_slice` reads.
pub uninterp spec fn json_at(document: Seq<u8>, pointer: Seq<char>) -> JsonPlace;

/// Reads a document with `serde_json::from_slice` and looks a place up with
/// `serde_json::Value::pointer`.
#[verifier::external_body]
pub(crate) fn read_json(document: &[u8], pointer: &str) -> (result: JsonText)
    ensures
        result@ == json_at(document@, pointer@),
{
    match serde_json::from_slice::<serde_json::Value>(document) {
        Err(_) => JsonText::Unreadable,
        Ok(value) => match value.pointer(pointer) {
            None => JsonText::Absent,
            Some(serde_json::Value::String(text)) => JsonText::Text(text.clone()),
            Some(_) => JsonText::Other,
        },
    }
}

} // verus!
