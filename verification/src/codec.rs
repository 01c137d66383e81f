//! JSON text decoding and encoding, done by `serde_json`.
use vstd::prelude::*;
use crate::error::JsonSyntaxError;
use crate::json::{Json, JsonNumber, JsonView};
use serde_json::{Number, Value};

verus! {

#[verifier::external_type_specification]
#[verifier::external_body]
pub struct ExSerdeJsonValue(Value);

/// What `serde_json::from_str::<serde_json::Value>` makes of a text: the
/// document it holds, or the decoder's error message.
pub uninterp spec fn json_decode(text: Seq<char>) -> Result<JsonView, Seq<char>>;

/// What `serde_json::Value`'s `Display` (compact JSON) writes for a value.
pub uninterp spec fn json_encode(value: JsonView) -> Seq<char>;

/// `serde_json::from_str::<serde_json::Value>`: decodes a JSON text. The
/// outcome, document or error message, is the named `json_decode` of the
/// text.
#[verifier::external_body]
pub(crate) fn decode_json(text: &str) -> (r: Result<Json, JsonSyntaxError>)
    ensures
        match r {
            Ok(v) => json_decode(text@) == Ok::<JsonView, Seq<char>>(v@),
            Err(e) => json_decode(text@) == Err::<JsonView, Seq<char>>(e.message@),
        },
{
    match serde_json::from_str::<Value>(text) {
        Ok(v) => Ok(from_serde_value(v)),
        Err(e) => Err(JsonSyntaxError { message: e.to_string() }),
    }
}

/// `Display` of `serde_json::Value`: the compact JSON text of a value, the
/// named `json_encode` of its view.
#[verifier::external_body]
pub(crate) fn encode_json(value: &Json) -> (r: String)
    ensures
        r@ == json_encode(value@),
{
    to_serde_value(value).to_string()
}

/// Moves a decoded `serde_json::Value` into the library's own model, variant
/// for variant: integers by `as_u64`/`as_i64`, other numbers as their text,
/// object members in the map's order.
#[verifier::external_body]
fn from_serde_value(v: Value) -> Json {
    match v {
        Value::Null => Json::Null,
        Value::Bool(b) => Json::Bool(b),
        Value::Number(n) => Json::Number(match (n.as_u64(), n.as_i64()) {
            (Some(u), _) => JsonNumber::PosInt(u),
            (None, Some(i)) => JsonNumber::NegInt(i),
            (None, None) => JsonNumber::Float(n.to_string()),
        }),
        Value::String(s) => Json::String(s),
        Value::Array(a) => Json::Array(a.into_iter().map(from_serde_value).collect()),
        Value::Object(m) => Json::Object(m.into_iter().map(|(k, x)| (k, from_serde_value(x))).collect()),
    }
}

/// Builds the `serde_json::Value` for a value of the library's model,
/// variant for variant; a number text that `serde_json::Number` does not
/// accept becomes `null`.
#[verifier::external_body]
fn to_serde_value(v: &Json) -> Value {
    match v {
        Json::Null => Value::Null,
        Json::Bool(b) => Value::Bool(*b),
        Json::Number(JsonNumber::PosInt(u)) => Value::from(*u),
        Json::Number(JsonNumber::NegInt(i)) => Value::from(*i),
        Json::Number(JsonNumber::Float(t)) => t.parse::<Number>().map_or(Value::Null, Value::Number),
        Json::String(s) => Value::String(s.clone()),
        Json::Array(a) => Value::Array(a.iter().map(to_serde_value).collect()),
        Json::Object(m) => Value::Object(m.iter().map(|(k, x)| (k.clone(), to_serde_value(x))).collect()),
    }
}

impl Json {
    /// Decodes a JSON text.
    pub fn parse(text: &str) -> (r: Result<Json, JsonSyntaxError>)
        ensures
            match r {
                Ok(v) => json_decode(text@) == Ok::<JsonView, Seq<char>>(v@),
                Err(e) => json_decode(text@) == Err::<JsonView, Seq<char>>(e.message@),
            },
    {
        decode_json(text)
    }

    /// The compact JSON text of this value.
    pub fn to_text(&self) -> (r: String)
        ensures
            r@ == json_encode(self@),
    {
        encode_json(self)
    }
}

} // verus!
