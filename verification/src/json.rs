//! JSON texts, as far as the replies of the providers are looked into.
use vstd::prelude::*;

use serde_json::Value;

verus! {

/// A JSON value. A number stands as the text in which it is written, and an object as the map from
/// its keys to their values.
pub enum JsonView {
    Null,
    Bool(bool),
    Number(Seq<char>),
    Text(Seq<char>),
    Array(Seq<JsonView>),
    Object(Map<Seq<char>, JsonView>),
}

impl JsonView {
    /// The member of an object under a key. No other value has members.
    pub open spec fn member(self, key: Seq<char>) -> Option<JsonView> {
        match self {
            JsonView::Object(members) => if members.contains_key(key) {
                Some(members[key])
            } else {
                None
            },
            _ => None,
        }
    }

    /// The text of a value that is a text.
    pub open spec fn text(self) -> Option<Seq<char>> {
        match self {
            JsonView::Text(text) => Some(text),
            _ => None,
        }
    }
}

/// `serde_json::Value`: a JSON value.
#[verifier::external_type_specification]
#[verifier::external_body]
pub struct ExValue(serde_json::Value);

/// What a `serde_json::Value` holds.
pub uninterp spec fn json_view(value: Value) -> JsonView;

/// What a value that was looked for holds.
pub open spec fn json_views(value: Option<&Value>) -> Option<JsonView> {
    match value {
        Some(found) => Some(json_view(*found)),
        None => None,
    }
}

/// The value that `serde_json::from_str` reads from a text, if the text is one JSON value.
pub uninterp spec fn json_parsed(text: Seq<char>) -> Option<JsonView>;

/// The JSON text in which a `serde_json::Value` is displayed.
pub uninterp spec fn json_text(value: JsonView) -> Seq<char>;

/// Calls `serde_json::from_str` for a `serde_json::Value`, and drops its error. Whether the text is
/// one JSON value, and which, depends on the text alone.
#[verifier::external_body]
pub(crate) fn parse(text: &str) -> (r: Option<Value>)
    ensures
        match r {
            Some(value) => json_parsed(text@) == Some(json_view(value)),
            None => json_parsed(text@) is None,
        },
{
    serde_json::from_str::<Value>(text).ok()
}

/// Calls `serde_json::Value::get` with a key, which finds the member of an object under that key. It
/// finds nothing in a value that is no object, or has no such key.
#[verifier::external_body]
pub(crate) fn member<'a>(value: &'a Value, key: &str) -> (r: Option<&'a Value>)
    ensures
        json_views(r) == json_view(*value).member(key@),
{
    value.get(key)
}

/// Calls `serde_json::Value::as_str`, which returns the text of a value that is a text, and nothing
/// for any other.
#[verifier::external_body]
pub(crate) fn string(value: &Value) -> (r: Option<&str>)
    ensures
        match r {
            Some(text) => json_view(*value).text() == Some(text@),
            None => json_view(*value).text() is None,
        },
{
    value.as_str()
}

/// Calls `to_string` of a `serde_json::Value`, which writes it as JSON. The members of an object are
/// kept in the order of their keys, so that what it returns depends on what the value holds alone.
#[verifier::external_body]
pub(crate) fn display(value: &Value) -> (r: String)
    ensures
        r@ == json_text(json_view(*value)),
{
    value.to_string()
}

} // verus!
