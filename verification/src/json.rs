//! The JSON values and JSON Schema checks that tool calls go through.
//!
//! Parsing, pretty-printing and schema validation are done by `serde_json`
//! and `jsonschema`; their results are named here as functions of the text
//! they are given.

use vstd::prelude::*;

use crate::text::opt_string_view;

verus! {

#[verifier::external_type_specification]
#[verifier::external_body]
pub struct ExJsonValue(serde_json::Value);

/// The message `serde_json` gives when `text` is not a JSON document, or
/// `None` when it is one.
pub uninterp spec fn json_syntax_error(text: Seq<char>) -> Option<Seq<char>>;

/// The value `serde_json::from_str::<Value>` parses from the JSON document
/// `text`.
pub uninterp spec fn json_value_of(text: Seq<char>) -> serde_json::Value;

/// `serde_json::from_str::<Value>`: succeeds exactly when `text` is JSON,
/// with the value it parses, and fails with the parser's message otherwise.
/// What that value holds is named, not spelled out.
#[verifier::external_body]
pub(crate) fn parse_json_value(text: &str) -> (r: Result<serde_json::Value, String>)
    ensures
        match r {
            Ok(v) => json_syntax_error(text@) is None && v == json_value_of(text@),
            Err(e) => json_syntax_error(text@) == Some(e@),
        },
{
    match serde_json::from_str::<serde_json::Value>(text) {
        Ok(v) => Ok(v),
        Err(e) => Err(e.to_string()),
    }
}

/// The message `jsonschema` gives when the JSON text `schema` is not a JSON
/// Schema it can compile (or `serde_json`'s when it is not JSON at all), or
/// `None` when it compiles.
pub uninterp spec fn schema_compile_error(schema: Seq<char>) -> Option<Seq<char>>;

/// The message of the first violation of the JSON Schema `schema` by the JSON
/// document `instance`, or `None` when the instance is valid.
pub uninterp spec fn schema_violation(schema: Seq<char>, instance: Seq<char>) -> Option<Seq<char>>;

/// Parses `schema` with `serde_json` and compiles it with
/// `jsonschema::Validator::new`; `None` when it compiles, else the message.
#[verifier::external_body]
pub(crate) fn schema_compile_message(schema: &str) -> (r: Option<String>)
    ensures
        opt_string_view(r) == schema_compile_error(schema@),
{
    match serde_json::from_str::<serde_json::Value>(schema) {
        Ok(value) => match jsonschema::Validator::new(&value) {
            Ok(_) => None,
            Err(e) => Some(e.to_string()),
        },
        Err(e) => Some(e.to_string()),
    }
}

/// `Validator::validate` of the JSON document `instance` against the
/// compiled `schema` (both parsed by `serde_json`): `None` when valid, else
/// the first error's message.
#[verifier::external_body]
pub(crate) fn schema_first_violation(schema: &str, instance: &str) -> (r: Option<String>)
    requires
        schema_compile_error(schema@) is None,
        json_syntax_error(instance@) is None,
    ensures
        opt_string_view(r) == schema_violation(schema@, instance@),
{
    let s: serde_json::Value = serde_json::from_str(schema).unwrap_or_default();
    let i: serde_json::Value = serde_json::from_str(instance).unwrap_or_default();
    match jsonschema::Validator::new(&s) {
        Ok(v) => match v.validate(&i) {
            Ok(()) => None,
            Err(e) => Some(e.to_string()),
        },
        Err(e) => Some(e.to_string()),
    }
}

/// The pretty-printed form (`serde_json::to_string_pretty`) of the JSON
/// document `text`, or `None` when `text` is not JSON.
pub uninterp spec fn json_pretty(text: Seq<char>) -> Option<Seq<char>>;

/// `serde_json::to_string_pretty` of the parsed `text`.
#[verifier::external_body]
pub(crate) fn pretty_json(text: &str) -> (r: Option<String>)
    ensures
        opt_string_view(r) == json_pretty(text@),
{
    match serde_json::from_str::<serde_json::Value>(text) {
        Ok(v) => serde_json::to_string_pretty(&v).ok(),
        Err(_) => None,
    }
}

} // verus!
