//! The trusted boundary between the library's JSON tree and JSON text,
//! built on serde_json. Everything that inspects or builds a document is
//! verified code in the other modules; only the text codec itself is
//! taken on trust.
use vstd::prelude::*;
use crate::json::JsonValue;
use crate::json::JsonView;

verus! {

/// serde_json's document type; it only carries values between the
/// library's tree and its text form inside this module.
#[verifier::external_type_specification]
#[verifier::external_body]
pub struct ExValue(serde_json::Value);

/// The document that serde_json's parser accepts the given text as,
/// rendered in the library's tree; `None` where the text is not valid
/// JSON.
pub uninterp spec fn parsed_json(s: Seq<char>) -> Option<JsonView>;

/// The pretty-printed JSON text of a document.
pub uninterp spec fn pretty_text(j: JsonView) -> Seq<char>;

/// Whether the pretty printer accepts a document. Rendering fails exactly
/// where a number literal is one that serde_json::Number rejects, so
/// acceptance is a function of the document alone.
pub uninterp spec fn pretty_ok(j: JsonView) -> bool;

/// Rebuilds serde_json's tree from the library's; a number literal that
/// serde_json::Number does not accept is reported as the error text.
#[verifier::external_body]
fn encode_value(j: &JsonValue) -> (r: Result<serde_json::Value, String>) {
    Ok(
        match j {
            JsonValue::Null => serde_json::Value::Null,
            JsonValue::Bool(b) => serde_json::Value::Bool(*b),
            JsonValue::Num(t) => serde_json::Value::Number(
                serde_json::from_str::<serde_json::Number>(t).map_err(|e| e.to_string())?,
            ),
            JsonValue::Str(s) => serde_json::Value::String(s.clone()),
            JsonValue::Arr(a) => serde_json::Value::Array(
                a.iter().map(encode_value).collect::<Result<_, _>>()?,
            ),
            JsonValue::Obj(f) => encode_fields(f)?,
        },
    )
}

/// Rebuilds one serde_json object from the library's field list.
#[verifier::external_body]
fn encode_fields(f: &Vec<(String, JsonValue)>) -> (r: Result<serde_json::Value, String>) {
    let mut m = serde_json::Map::new();
    for p in f {
        m.insert(p.0.clone(), encode_value(&p.1)?);
    }
    Ok(serde_json::Value::Object(m))
}

/// Renders serde_json's tree in the library's; numbers keep the literal
/// text that serde_json prints for them.
#[verifier::external_body]
fn decode_value(v: serde_json::Value) -> (r: JsonValue) {
    match v {
        serde_json::Value::Null => JsonValue::Null,
        serde_json::Value::Bool(b) => JsonValue::Bool(b),
        serde_json::Value::Number(n) => JsonValue::Num(n.to_string()),
        serde_json::Value::String(s) => JsonValue::Str(s),
        serde_json::Value::Array(a) => JsonValue::Arr(a.into_iter().map(decode_value).collect()),
        serde_json::Value::Object(m) => JsonValue::Obj(
            m.into_iter().map(|(k, x)| (k, decode_value(x))).collect(),
        ),
    }
}

/// Relies on serde_json::from_str: whether a text parses, and to what
/// document, is a function of the text alone.
#[verifier::external_body]
pub(crate) fn json_parse(s: &str) -> (r: Result<JsonValue, String>)
    ensures
        r is Ok <==> parsed_json(s@) is Some,
        r matches Ok(j) ==> Some(j@) == parsed_json(s@),
{
    match serde_json::from_str::<serde_json::Value>(s) {
        Ok(v) => Ok(decode_value(v)),
        Err(e) => Err(e.to_string()),
    }
}

/// Relies on serde_json::to_string_pretty: the pretty text of a document,
/// and whether rendering succeeds at all, are functions of the document
/// alone.
#[verifier::external_body]
pub(crate) fn json_pretty(j: &JsonValue) -> (r: Result<String, String>)
    ensures
        r is Ok <==> pretty_ok(j@),
        r matches Ok(t) ==> t@ == pretty_text(j@),
{
    match encode_value(j) {
        Ok(v) => serde_json::to_string_pretty(&v).map_err(|e| e.to_string()),
        Err(e) => Err(e),
    }
}

} // verus!
