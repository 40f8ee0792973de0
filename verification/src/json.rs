//! Trusted boundary to `serde_json`.
//!
//! The markup scanner and the dispatcher hand pieces of streamed text to
//! `serde_json`; everything that crate computes is named by an uninterpreted
//! spec function of the input text, so the verified logic can speak about the
//! results without restating the JSON grammar.

use vstd::prelude::*;

verus! {

#[verifier::external_type_specification]
#[verifier::external_body]
pub struct ExJsonValue(serde_json::Value);

#[verifier::external_type_specification]
#[verifier::external_body]
#[verifier::reject_recursive_types(K)]
#[verifier::reject_recursive_types(V)]
pub struct ExJsonMap<K, V>(serde_json::Map<K, V>);

/// What `serde_json` makes of a call-block payload: the `name` and the
/// canonical serialization of the `arguments` object, when the payload is a
/// JSON object carrying both; `None` otherwise. Only the trusted parser below
/// defines this function.
pub uninterp spec fn spec_parse_call(payload: Seq<char>) -> Option<(Seq<char>, Seq<char>)>;

/// Relies on `serde_json::from_str`, the `Value` accessors `get`, `as_str` and
/// `as_object`, and `serde_json::to_string`: parses the text between call
/// delimiters as a JSON object with a string `name` field and an object
/// `arguments` field, and serializes the arguments back canonically. The
/// result depends on the payload text alone.
#[verifier::external_body]
pub fn parse_call_payload(payload: &str) -> (r: Option<(String, String)>)
    ensures
        match spec_parse_call(payload@) {
            Some(p) => r matches Some(q) && q.0@ == p.0 && q.1@ == p.1,
            None => r is None,
        },
{
    let parsed: serde_json::Value = match serde_json::from_str(payload) {
        Ok(v) => v,
        Err(_) => return None,
    };
    let name = parsed.get("name")?.as_str()?;
    let args = parsed.get("arguments")?.as_object()?;
    let canonical = serde_json::to_string(args).unwrap_or_default();
    Some((name.to_string(), canonical))
}

/// Whether the text parses as a JSON object. Only the trusted argument parser
/// below defines this predicate.
pub uninterp spec fn spec_is_json_object(s: Seq<char>) -> bool;

/// Relies on `serde_json::from_str` parsing into `serde_json::Map` and on
/// `serde_json::Map::retain` with `serde_json::Value::is_null`: parses the raw
/// argument text as a JSON object and drops its null-valued fields, since the
/// tool handlers downstream do not accept explicit nulls.
#[verifier::external_body]
pub fn parse_clean_args(raw: &str) -> (r: Option<serde_json::Map<String, serde_json::Value>>)
    ensures
        r is Some <==> spec_is_json_object(raw@),
{
    match serde_json::from_str::<serde_json::Map<String, serde_json::Value>>(raw) {
        Ok(mut map) => {
            map.retain(|_k, v| !v.is_null());
            Some(map)
        }
        Err(_) => None,
    }
}

/// The pretty-printed form of the text when it is valid JSON, `None`
/// otherwise. Only the trusted pretty-printer below defines this function.
pub uninterp spec fn spec_pretty_json(s: Seq<char>) -> Option<Seq<char>>;

/// Relies on `serde_json::from_str` and `serde_json::to_string_pretty`: when
/// the input is valid JSON, returns its pretty-printed form. The result
/// depends on the input text alone.
#[verifier::external_body]
pub fn pretty_print_json(raw: &str) -> (r: Option<String>)
    ensures
        match spec_pretty_json(raw@) {
            Some(p) => r matches Some(q) && q@ == p,
            None => r is None,
        },
{
    match serde_json::from_str::<serde_json::Value>(raw) {
        Ok(v) => serde_json::to_string_pretty(&v).ok(),
        Err(_) => None,
    }
}

} // verus!
