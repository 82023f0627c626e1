//! A plain model of decoded JSON, and typed field extraction over it.
use crate::model::ParseError;
use crate::text::str_eq;
use vstd::prelude::*;

verus! {

/// A JSON number: its value where it is an integer that fits `i64`, and its
/// shortest decimal text, which reads back as the same number.
#[derive(Debug)]
pub struct JsonNumber {
    pub int: Option<i64>,
    pub text: String,
}

/// A decoded JSON value. Object members keep their keys in the decoder's order.
#[derive(Debug)]
pub enum Json {
    Null,
    Bool(bool),
    Number(JsonNumber),
    Str(String),
    Array(Vec<Json>),
    Object(Vec<(String, Json)>),
}

impl JsonNumber {
    /// An equal copy of this number.
    pub fn duplicate(&self) -> (r: JsonNumber)
        ensures
            r == *self,
    {
        JsonNumber { int: self.int, text: self.text.clone() }
    }
}

#[verifier::external_type_specification]
#[verifier::external_body]
pub struct ExValue(serde_json::Value);

/// The value that a JSON text decodes to, `None` where the text is not JSON.
pub uninterp spec fn decoded(s: Seq<char>) -> Option<Json>;

/// Relies on serde_json::from_str into serde_json::Value: decodes one JSON
/// text, failing on anything else.
#[verifier::external_body]
pub(crate) fn parse_json(s: &str) -> (r: Option<Json>)
    ensures
        r == decoded(s@),
{
    serde_json::from_str::<serde_json::Value>(s).ok().map(from_value)
}

/// Relies on serde_json::Value's variants, Number::as_i64 and Number's
/// decimal rendering: moves a decoded value into the library's model.
#[verifier::external_body]
fn from_value(v: serde_json::Value) -> Json {
    match v {
        serde_json::Value::Null => Json::Null,
        serde_json::Value::Bool(b) => Json::Bool(b),
        serde_json::Value::Number(n) => Json::Number(
            JsonNumber { int: n.as_i64(), text: n.to_string() },
        ),
        serde_json::Value::String(s) => Json::Str(s),
        serde_json::Value::Array(a) => Json::Array(a.into_iter().map(from_value).collect()),
        serde_json::Value::Object(o) => Json::Object(
            o.into_iter().map(|(k, x)| (k, from_value(x))).collect(),
        ),
    }
}

/// The first member named `key` at or after position `i`.
pub open spec fn member_from(fields: Seq<(String, Json)>, key: Seq<char>, i: int) -> Option<Json>
    decreases fields.len() - i,
{
    if i < 0 || i >= fields.len() {
        None
    } else if fields[i].0@ == key {
        Some(fields[i].1)
    } else {
        member_from(fields, key, i + 1)
    }
}

/// The member `key` of an object; `None` for a missing key or a non-object.
pub open spec fn field(j: Json, key: Seq<char>) -> Option<Json> {
    match j {
        Json::Object(fields) => member_from(fields@, key, 0),
        _ => None,
    }
}

pub open spec fn int_value(v: Json) -> Result<i64, ParseError> {
    match v {
        Json::Number(n) => match n.int {
            Some(i) => Ok(i),
            None => Err(ParseError::MalformedPayload),
        },
        _ => Err(ParseError::MalformedPayload),
    }
}

/// The member `key` read as an integer.
pub open spec fn int_field(j: Json, key: Seq<char>) -> Result<i64, ParseError> {
    match field(j, key) {
        None => Err(ParseError::MissingField),
        Some(v) => int_value(v),
    }
}

/// The member `key` read as a number.
pub open spec fn num_field(j: Json, key: Seq<char>) -> Result<JsonNumber, ParseError> {
    match field(j, key) {
        None => Err(ParseError::MissingField),
        Some(Json::Number(n)) => Ok(n),
        Some(_) => Err(ParseError::MalformedPayload),
    }
}

/// The member `key` read as a string.
pub open spec fn str_field(j: Json, key: Seq<char>) -> Result<Seq<char>, ParseError> {
    match field(j, key) {
        None => Err(ParseError::MissingField),
        Some(Json::Str(s)) => Ok(s@),
        Some(_) => Err(ParseError::MalformedPayload),
    }
}

/// Where the first member named `key` stands.
pub fn position(fields: &Vec<(String, Json)>, key: &str) -> (r: Option<usize>)
    ensures
        match r {
            Some(k) => k < fields@.len() && fields@[k as int].0@ == key@ && member_from(
                fields@,
                key@,
                0,
            ) == Some(fields@[k as int].1),
            None => member_from(fields@, key@, 0) is None,
        },
{
    let mut i: usize = 0;
    while i < fields.len()
        invariant
            i <= fields@.len(),
            member_from(fields@, key@, 0) == member_from(fields@, key@, i as int),
        decreases fields@.len() - i,
    {
        if str_eq(fields[i].0.as_str(), key) {
            return Some(i);
        }
        i += 1;
    }
    None
}

/// The member `key` of an object.
pub fn get<'a>(j: &'a Json, key: &str) -> (r: Option<&'a Json>)
    ensures
        match r {
            Some(v) => field(*j, key@) == Some(*v),
            None => field(*j, key@) is None,
        },
{
    match j {
        Json::Object(fields) => match position(fields, key) {
            Some(k) => Some(&fields[k].1),
            None => None,
        },
        _ => None,
    }
}

/// The member `key` read as an integer.
pub fn get_int(j: &Json, key: &str) -> (r: Result<i64, ParseError>)
    ensures
        r == int_field(*j, key@),
{
    match get(j, key) {
        None => Err(ParseError::MissingField),
        Some(Json::Number(n)) => match n.int {
            Some(i) => Ok(i),
            None => Err(ParseError::MalformedPayload),
        },
        Some(_) => Err(ParseError::MalformedPayload),
    }
}

/// The member `key` read as a number.
pub fn get_num(j: &Json, key: &str) -> (r: Result<JsonNumber, ParseError>)
    ensures
        r == num_field(*j, key@),
{
    match get(j, key) {
        None => Err(ParseError::MissingField),
        Some(Json::Number(n)) => Ok(n.duplicate()),
        Some(_) => Err(ParseError::MalformedPayload),
    }
}

/// The member `key` read as a string.
pub fn get_str(j: &Json, key: &str) -> (r: Result<String, ParseError>)
    ensures
        match r {
            Ok(s) => str_field(*j, key@) == Ok::<Seq<char>, ParseError>(s@),
            Err(e) => str_field(*j, key@) == Err::<Seq<char>, ParseError>(e),
        },
{
    match get(j, key) {
        None => Err(ParseError::MissingField),
        Some(Json::Str(s)) => Ok(s.clone()),
        Some(_) => Err(ParseError::MalformedPayload),
    }
}

} // verus!
