//! JSON documents as the library sees them, and the normalization of JSON
//! payloads: a payload whose name ends in `.json` and that parses is written
//! out again in a pretty form; anything else passes through untouched.
use vstd::prelude::*;
use vstd::utf8::encode_utf8;

verus! {

#[verifier::external_type_specification]
#[verifier::external_body]
pub struct ExNumber(serde_json::Number);

#[verifier::external_type_specification]
#[verifier::external_body]
pub struct ExValue(serde_json::Value);

/// A JSON document: the structure of a parsed `serde_json::Value`, with the
/// members of an object in the order in which the parser hands them out.
#[derive(Debug)]
pub enum Json {
    Null,
    Bool(bool),
    Number(serde_json::Number),
    Str(String),
    Array(Vec<Json>),
    Object(Vec<(String, Json)>),
}

/// The document that a strict JSON parse of `b` yields, if `b` is JSON.
pub uninterp spec fn json_parse_of(b: Seq<u8>) -> Option<Json>;

/// The pretty-printed serialization of a document.
pub uninterp spec fn json_pretty_of(j: Json) -> Seq<u8>;

/// Moves a parsed `serde_json::Value` into a [`Json`], variant for variant.
#[verifier::external_body]
fn json_from_value(v: serde_json::Value) -> Json {
    match v {
        serde_json::Value::Null => Json::Null,
        serde_json::Value::Bool(b) => Json::Bool(b),
        serde_json::Value::Number(n) => Json::Number(n),
        serde_json::Value::String(s) => Json::Str(s),
        serde_json::Value::Array(a) => Json::Array(a.into_iter().map(json_from_value).collect()),
        serde_json::Value::Object(m) => Json::Object(
            m.into_iter().map(|(k, v)| (k, json_from_value(v))).collect(),
        ),
    }
}

/// Copies a [`Json`] into a `serde_json::Value`, variant for variant.
#[verifier::external_body]
fn value_from_json(j: &Json) -> serde_json::Value {
    match j {
        Json::Null => serde_json::Value::Null,
        Json::Bool(b) => serde_json::Value::Bool(*b),
        Json::Number(n) => serde_json::Value::Number(n.clone()),
        Json::Str(s) => serde_json::Value::String(s.clone()),
        Json::Array(a) => serde_json::Value::Array(a.iter().map(value_from_json).collect()),
        Json::Object(o) => serde_json::Value::Object(
            o.iter().map(|(k, v)| (k.clone(), value_from_json(v))).collect(),
        ),
    }
}

/// Relies on `serde_json::from_slice::<serde_json::Value>`: a strict parse
/// whose outcome depends on the bytes alone; no document is made of empty
/// input.
#[verifier::external_body]
pub(crate) fn parse_json(b: &[u8]) -> (r: Option<Json>)
    ensures
        r == json_parse_of(b@),
        b@.len() == 0 ==> r is None,
{
    serde_json::from_slice::<serde_json::Value>(b).ok().map(json_from_value)
}

/// Relies on `serde_json::to_vec_pretty`, which cannot fail on a
/// `serde_json::Value` and depends on the document alone.
#[verifier::external_body]
fn pretty_json(j: &Json) -> (r: Vec<u8>)
    ensures
        r@ == json_pretty_of(*j),
{
    serde_json::to_vec_pretty(&value_from_json(j)).unwrap_or_default()
}

/// The suffix that marks a payload as JSON.
pub open spec fn json_suffix() -> Seq<u8> {
    seq![0x2eu8, 0x6au8, 0x73u8, 0x6fu8, 0x6eu8]
}

/// Whether a path, as UTF-8 bytes, ends in `.json` (case-sensitive).
pub open spec fn is_json_name(p: Seq<u8>) -> bool {
    p.len() >= 5 && p.subrange(p.len() - 5, p.len() as int) == json_suffix()
}

/// What the normalizer writes for a payload `data` stored under the path `p`.
pub open spec fn normalized(p: Seq<u8>, data: Seq<u8>) -> Seq<u8> {
    if is_json_name(p) {
        match json_parse_of(data) {
            Some(j) => json_pretty_of(j),
            None => data,
        }
    } else {
        data
    }
}

/// Whether `path` ends in `.json`.
pub fn has_json_suffix(path: &str) -> (r: bool)
    ensures
        r == is_json_name(encode_utf8(path@)),
{
    let p = path.as_bytes();
    let n = p.len();
    if n < 5 {
        return false;
    }
    let r = p[n - 5] == 0x2e && p[n - 4] == 0x6a && p[n - 3] == 0x73 && p[n - 2] == 0x6f
        && p[n - 1] == 0x6e;
    assert(r == (p@.subrange(n - 5, n as int) =~= json_suffix()));
    r
}

/// Normalizes the payload `data` of the file at `path`: pretty-prints it
/// when the path ends in `.json` and the bytes parse as JSON, and returns it
/// unchanged otherwise. A payload that fails to parse is no error.
pub fn normalize(path: &str, data: Vec<u8>) -> (r: Vec<u8>)
    ensures
        r@ == normalized(encode_utf8(path@), data@),
        !is_json_name(encode_utf8(path@)) ==> r@ == data@,
        is_json_name(encode_utf8(path@)) && json_parse_of(data@) is None ==> r@ == data@,
{
    if !has_json_suffix(path) {
        return data;
    }
    match parse_json(data.as_slice()) {
        Some(j) => pretty_json(&j),
        None => data,
    }
}

} // verus!
