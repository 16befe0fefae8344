//! The boundary to `serde_json`: JSON text and bytes to values and back.

use serde_json::{Number, Value};
use vstd::prelude::*;
use vstd::string::*;

use crate::json::{distinct, Json, JsonNumber, JsonV, NumberV};
use crate::text::numeral;
use crate::wire::signed_numeral;

verus! {

/// `serde_json`'s own value type, carried through unread.
#[verifier::external_type_specification]
#[verifier::external_body]
pub struct ExValue(Value);

/// No object in `j`, at any depth, has two members of one name.
pub open spec fn well_formed(j: JsonV) -> bool
    decreases j,
{
    match j {
        JsonV::Array(s) => forall|i: int| 0 <= i < s.len() ==> well_formed(#[trigger] s[i]),
        JsonV::Object(m) => distinct(m) && forall|i: int|
            0 <= i < m.len() ==> well_formed((#[trigger] m[i]).1),
        _ => true,
    }
}

/// What a `serde_json` value holds.
pub uninterp spec fn value_model(v: Value) -> JsonV;

/// A `serde_json` value as a value of this library, variant by variant. Its
/// maps hold each key once, and so does the result.
#[verifier::external_body]
pub(crate) fn json_of_value(v: Value) -> (r: Json)
    ensures
        r@ == value_model(v),
        well_formed(r@),
{
    match v {
        Value::Null => Json::Null,
        Value::Bool(b) => Json::Bool(b),
        Value::Number(n) => Json::Number(json_of_number(n)),
        Value::String(s) => Json::Str(s),
        Value::Array(a) => Json::Array(a.into_iter().map(json_of_value).collect()),
        Value::Object(m) => Json::Object(
            m.into_iter().map(|(k, x)| (k, json_of_value(x))).collect(),
        ),
    }
}

/// `serde_json`'s number type, carried through unread.
#[verifier::external_type_specification]
#[verifier::external_body]
pub struct ExNumber(Number);

/// What a `serde_json` number holds.
pub uninterp spec fn number_model(n: Number) -> NumberV;

/// A `serde_json` number: by `as_u64` or `as_i64` where it is an integer of
/// that range, by its text otherwise.
#[verifier::external_body]
fn json_of_number(n: Number) -> (r: JsonNumber)
    ensures
        r@ == number_model(n),
{
    match (n.as_u64(), n.as_i64()) {
        (Some(u), _) => JsonNumber::PosInt(u),
        (None, Some(i)) => JsonNumber::NegInt(i),
        (None, None) => JsonNumber::Float(n.to_string()),
    }
}

/// A value of this library as a `serde_json` value, variant by variant. A text
/// that is no number becomes `null`; of two members with one name the later one
/// counts. Where neither occurs and the numbers are integers, it holds the same
/// value.
#[verifier::external_body]
pub(crate) fn value_of_json(j: &Json) -> (r: Value)
    ensures
        carried(j@) ==> value_model(r) == j@,
{
    match j {
        Json::Null => Value::Null,
        Json::Bool(b) => Value::Bool(*b),
        Json::Number(JsonNumber::PosInt(n)) => Value::from(*n),
        Json::Number(JsonNumber::NegInt(n)) => Value::from(*n),
        Json::Number(JsonNumber::Float(t)) => t.parse::<Number>().map_or(
            Value::Null, Value::Number),
        Json::Str(s) => Value::String(s.clone()),
        Json::Array(v) => Value::Array(v.iter().map(value_of_json).collect()),
        Json::Object(m) => Value::Object(
            m.iter().map(|(k, x)| (k.clone(), value_of_json(x))).collect()),
    }
}

/// The value that `serde_json` reads from bytes, if they are JSON.
pub uninterp spec fn json_of_bytes(bytes: Seq<u8>) -> Option<JsonV>;

/// `serde_json::from_slice`: the value that the bytes spell, or nothing where
/// they are not JSON. It depends on the bytes alone.
#[verifier::external_body]
pub(crate) fn parse_bytes(bytes: &[u8]) -> (r: Option<Json>)
    ensures
        crate::json::opt(r) == json_of_bytes(bytes@),
        r matches Some(j) ==> well_formed(j@),
{
    match serde_json::from_slice::<Value>(bytes) {
        Ok(v) => Some(json_of_value(v)),
        Err(_) => None,
    }
}

/// The value that `serde_json` reads from a text, or what it finds wrong.
pub uninterp spec fn json_of_text(text: Seq<char>) -> Result<JsonV, Seq<char>>;

/// What an executable reading of JSON denotes.
pub open spec fn json_result(r: Result<Json, String>) -> Result<JsonV, Seq<char>> {
    match r {
        Ok(j) => Ok(j@),
        Err(e) => Err(e@),
    }
}

/// `serde_json::from_str`: the value that the text spells, or the error's own
/// words where it is not JSON. It depends on the text alone.
#[verifier::external_body]
pub(crate) fn parse_text(text: &str) -> (r: Result<Json, String>)
    ensures
        json_result(r) == json_of_text(text@),
        r matches Ok(j) ==> well_formed(j@),
{
    match serde_json::from_str::<Value>(text) {
        Ok(v) => Ok(json_of_value(v)),
        Err(e) => Err(e.to_string()),
    }
}

/// The compact JSON text that `serde_json` prints for a value.
pub uninterp spec fn json_text(v: JsonV) -> Seq<char>;

/// A value that a JSON text carries as it is: no object in it has two members
/// of one name, and its numbers are integers.
pub open spec fn carried(j: JsonV) -> bool
    decreases j,
{
    match j {
        JsonV::Number(NumberV::NegInt(n)) => n < 0,
        JsonV::Number(NumberV::Float(_)) => false,
        JsonV::Array(s) => forall|i: int| 0 <= i < s.len() ==> carried(#[trigger] s[i]),
        JsonV::Object(m) => distinct(m) && forall|i: int|
            0 <= i < m.len() ==> carried((#[trigger] m[i]).1),
        _ => true,
    }
}

/// The members of an object begin with the name by which `serde_json` marks raw
/// text. It reads such an object as what the text spells.
pub open spec fn marks_raw_text(m: Seq<(Seq<char>, JsonV)>) -> bool {
    m.len() > 0 && m[0].0 == "$serde_json::private::RawValue"@
}

/// No object in `j`, at any depth, marks raw text.
pub open spec fn raw_free(j: JsonV) -> bool
    decreases j,
{
    match j {
        JsonV::Array(s) => forall|i: int| 0 <= i < s.len() ==> raw_free(#[trigger] s[i]),
        JsonV::Object(m) => !marks_raw_text(m) && forall|i: int|
            0 <= i < m.len() ==> raw_free((#[trigger] m[i]).1),
        _ => true,
    }
}

/// A text is read as a value.
pub open spec fn spells(text: Seq<char>, v: JsonV) -> bool {
    json_of_text(text) == Ok::<JsonV, Seq<char>>(v)
}

/// A text without a line break.
pub open spec fn one_line(s: Seq<char>) -> bool {
    !s.contains('\n')
}

/// A text between braces.
pub open spec fn braced(s: Seq<char>) -> bool {
    s.len() >= 2 && s[0] == '{' && s.last() == '}'
}

/// Lists and objects stand in one another to at most `n` levels.
pub open spec fn within(j: JsonV, n: nat) -> bool
    decreases j,
{
    match j {
        JsonV::Array(s) => n > 0 && forall|i: int|
            0 <= i < s.len() ==> within(#[trigger] s[i], (n - 1) as nat),
        JsonV::Object(m) => n > 0 && forall|i: int|
            0 <= i < m.len() ==> within((#[trigger] m[i]).1, (n - 1) as nat),
        _ => true,
    }
}

/// `Display` of a `serde_json` value, which is its compact JSON text and the
/// same as `serde_json::to_string` gives. `null`, booleans and integers print
/// as themselves, an object between braces, and a line break in a string as an
/// escape. `serde_json::from_str` reads the text back as the same value, if its
/// numbers are integers, no object in it marks raw text, and it is not nested too
/// deep for that function.
#[verifier::external_body]
pub(crate) fn print(v: &Json) -> (r: String)
    ensures
        r@ == json_text(v@),
        v@ is Null ==> r@ == "null"@,
        v@ == JsonV::Bool(true) ==> r@ == "true"@,
        v@ == JsonV::Bool(false) ==> r@ == "false"@,
        v@ matches JsonV::Number(NumberV::PosInt(n)) ==> r@ == numeral(n),
        v@ matches JsonV::Number(NumberV::NegInt(n)) ==> r@ == signed_numeral(n),
        v@ is Object ==> braced(r@),
        one_line(r@),
        carried(v@) && raw_free(v@) && within(v@, 127) ==> spells(r@, v@),
{
    value_of_json(v).to_string()
}

impl Json {
    /// The value that a JSON text spells, or what is wrong with the text.
    pub fn parse(text: &str) -> (r: Result<Json, String>)
        ensures
            json_result(r) == json_of_text(text@),
            r matches Ok(j) ==> well_formed(j@),
    {
        parse_text(text)
    }

    /// The compact JSON text of the value, on one line. It reads back as the
    /// same value, unless it holds a number that is no integer or an object that
    /// marks raw text, or is nested too deep to be read.
    pub fn to_text(&self) -> (r: String)
        ensures
            r@ == json_text(self@),
            self@ is Object ==> braced(r@),
            one_line(r@),
            carried(self@) && raw_free(self@) && within(self@, 127) ==> spells(r@, self@),
    {
        print(self)
    }
}

} // verus!
