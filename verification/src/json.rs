//! JSON, as far as the log needs it: reading a text and writing it back in
//! compact form.
//!
//! Both steps are `serde_json`'s. Nothing in this file is proved of them: each
//! function only gives the outcome of the outside call a name, so that the
//! log line can be stated exactly in terms of it.

use vstd::prelude::*;
use serde_json::Value;

verus! {

/// A parsed JSON document, opaque to the verifier.
#[verifier::external_type_specification]
#[verifier::external_body]
pub struct ExValue(Value);

/// The JSON document that `text` parses to, if it is JSON.
pub uninterp spec fn json_parsed(text: Seq<char>) -> Option<Value>;

/// The compact text of a JSON document, if it can be written.
pub uninterp spec fn json_written(value: Value) -> Option<Seq<char>>;

/// Calls `serde_json::from_str` for a `Value` and drops the error.
///
/// Claims only that the outcome is a function of the text.
#[verifier::external_body]
pub(crate) fn parse_json(text: &str) -> (r: Option<Value>)
    ensures
        r == json_parsed(text@),
{
    serde_json::from_str::<Value>(text).ok()
}

/// Calls `serde_json::to_string` on a `Value` and drops the error.
///
/// Claims only that the outcome is a function of the document.
#[verifier::external_body]
pub(crate) fn write_json(value: &Value) -> (r: Option<String>)
    ensures
        r matches Some(s) ==> json_written(*value) == Some(s@),
        r is None ==> json_written(*value) is None,
{
    serde_json::to_string(value).ok()
}

} // verus!
