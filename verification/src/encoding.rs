//! What `serde_json` and `serde_urlencoded` compute from a JSON value: its
//! text for diagnostics and its encoding as a query string.
//!
//! Nothing in this file is proved. Each function hands a value to the
//! outside crate and says, by a name, that what comes back depends on the
//! value alone.

use crate::json::Json;
use crate::json::JsonView;
use vstd::prelude::*;

verus! {

/// `serde_json::Value`, the outside crate's own JSON tree.
#[verifier::external_type_specification]
#[verifier::external_body]
pub struct ExValue(serde_json::Value);

/// The `serde_json::Value` for `value`: each kind becomes the variant of
/// the same name, and the members of an object are collected, in their
/// order, into a `serde_json::Map`, which keeps one value for each key.
/// Nothing is claimed of the result here; the two functions below hand it
/// on.
#[verifier::external_body]
fn to_value(value: &Json) -> serde_json::Value {
    match value {
        Json::Null => serde_json::Value::Null,
        Json::Bool(b) => serde_json::Value::Bool(*b),
        Json::Number(n) => serde_json::Value::Number(n.clone()),
        Json::String(s) => serde_json::Value::String(s.clone()),
        Json::Array(items) => serde_json::Value::Array(items.iter().map(to_value).collect()),
        Json::Object(members) => serde_json::Value::Object(
            members.iter().map(|m| (m.0.clone(), to_value(&m.1))).collect(),
        ),
    }
}

/// What `serde_urlencoded::to_string` makes of a JSON value: the query
/// string, or, where it refuses the value, the text of its error.
pub uninterp spec fn query_encoding(body: JsonView) -> Result<Seq<char>, Seq<char>>;

/// `serde_urlencoded::to_string`, applied to the `serde_json::Value` of
/// `body`; an error is handed on as the text that its `Display` impl
/// writes. The outcome is a function of the value: the one named by
/// [`query_encoding`].
#[verifier::external_body]
pub(crate) fn encode_query(body: &Json) -> (r: Result<String, String>)
    ensures
        match r {
            Ok(text) => query_encoding(body@) == Ok::<Seq<char>, Seq<char>>(text@),
            Err(cause) => query_encoding(body@) == Err::<Seq<char>, Seq<char>>(cause@),
        },
{
    match serde_urlencoded::to_string(&to_value(body)) {
        Ok(text) => Ok(text),
        Err(error) => Err(error.to_string()),
    }
}

/// The text that `serde_json::Value`'s `Debug` impl writes for a JSON
/// value.
pub uninterp spec fn debug_text(value: JsonView) -> Seq<char>;

/// Formats the `serde_json::Value` of `value` with `{:?}`. The text is a
/// function of the value: the one named by [`debug_text`].
#[verifier::external_body]
pub(crate) fn render_debug(value: &Json) -> (text: String)
    ensures
        text@ == debug_text(value@),
{
    format!("{:?}", to_value(value))
}

} // verus!
