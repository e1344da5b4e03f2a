//! The library's boundary with outside JSON and HTTP: declarations for the
//! outside types that cross it, conversion between the outside JSON value and
//! the library's payload model, and the HTTP calls the agents make. Every
//! item here is trusted: Verus believes the stated contracts and does not
//! read the bodies.

use vstd::prelude::*;

use crate::json::{JsonVal, JsonValue};

verus! {

#[verifier::external_type_specification]
#[verifier::external_body]
pub struct ExSerdeValue(serde_json::Value);

#[verifier::external_type_specification]
#[verifier::external_body]
pub struct ExReqwestError(reqwest::Error);

/// What parsing a text as JSON yields, carried into the payload model: a
/// function of the text alone.
pub uninterp spec fn json_parse_of(s: Seq<char>) -> Option<JsonVal>;

/// Relies on serde_json::Value's variants: a structural translation into the
/// payload model. A number that is not a 64-bit signed integer becomes null,
/// since the model keeps no floats.
#[verifier::external_body]
pub(crate) fn json_of_value(v: serde_json::Value) -> JsonValue {
    match v {
        serde_json::Value::Null => JsonValue::Null,
        serde_json::Value::Bool(b) => JsonValue::Bool(b),
        serde_json::Value::Number(n) => match n.as_i64() {
            Some(i) => JsonValue::Int(i),
            None => JsonValue::Null,
        },
        serde_json::Value::String(s) => JsonValue::Str(s),
        serde_json::Value::Array(a) => JsonValue::Arr(a.into_iter().map(json_of_value).collect()),
        serde_json::Value::Object(o) => JsonValue::Obj(
            o.into_iter().map(|(k, x)| (k, json_of_value(x))).collect(),
        ),
    }
}

/// Relies on serde_json::Value's constructors: the structural translation
/// out of the payload model.
#[verifier::external_body]
pub(crate) fn value_of_json(v: &JsonValue) -> serde_json::Value {
    match v {
        JsonValue::Null => serde_json::Value::Null,
        JsonValue::Bool(b) => serde_json::Value::Bool(*b),
        JsonValue::Int(i) => serde_json::Value::Number((*i).into()),
        JsonValue::Str(s) => serde_json::Value::String(s.clone()),
        JsonValue::Arr(a) => serde_json::Value::Array(a.iter().map(value_of_json).collect()),
        JsonValue::Obj(o) => serde_json::Value::Object(
            o.iter().map(|(k, x)| (k.clone(), value_of_json(x))).collect(),
        ),
    }
}

/// Relies on serde_json::from_str: parsing is a function of the text alone,
/// named `json_parse_of` together with the translation into the payload
/// model.
#[verifier::external_body]
pub(crate) fn parse_json(s: &str) -> (r: Option<JsonValue>)
    ensures
        match r {
            Some(v) => json_parse_of(s@) == Some(v@),
            None => json_parse_of(s@) is None,
        },
{
    match serde_json::from_str::<serde_json::Value>(s) {
        Ok(v) => Some(json_of_value(v)),
        Err(_) => None,
    }
}

/// Relies on reqwest's blocking client: one POST of a JSON body, with an
/// optional bearer token, the response read back as JSON. Nothing is assumed
/// of the outcome: the network decides. The client is built, not taken from
/// `Client::new`, so a failing TLS setup is an error, not a panic. Blocking
/// requests must run outside an async runtime thread — reqwest checks this —
/// so an async host dispatches to the registry through a blocking task, as
/// the web layer does.
#[verifier::external_body]
pub(crate) fn http_post_json(url: &str, bearer: Option<&String>, body: &JsonValue) -> Result<
    JsonValue,
    reqwest::Error,
> {
    let client = reqwest::blocking::Client::builder().build()?;
    let mut rb = client.post(url).json(&value_of_json(body));
    if let Some(key) = bearer {
        rb = rb.bearer_auth(key);
    }
    let resp = rb.send()?;
    let v: serde_json::Value = resp.json()?;
    Ok(json_of_value(v))
}

/// Relies on reqwest's blocking client: one GET, the response read back as
/// JSON. Nothing is assumed of the outcome: the network decides. As with
/// the POST, the client is built with errors surfaced, and blocking
/// requests must run outside an async runtime thread.
#[verifier::external_body]
pub(crate) fn http_get_json(url: &str) -> Result<JsonValue, reqwest::Error> {
    let client = reqwest::blocking::Client::builder().build()?;
    let resp = client.get(url).send()?;
    let v: serde_json::Value = resp.json()?;
    Ok(json_of_value(v))
}

} // verus!
