//! A plain model of a JSON document, read from text through serde_json, and
//! lookup of an object's members.

use vstd::prelude::*;

verus! {

#[verifier::external_type_specification]
#[verifier::external_body]
pub struct ExValue(serde_json::Value);

/// A JSON document. A number keeps the text it is written with. An object
/// keeps its members in the order the parser hands them out: serde_json's map
/// sorts them by name, and a name that repeats keeps its last value.
pub enum Json {
    Null,
    Bool(bool),
    Number(String),
    Str(String),
    Array(Vec<Json>),
    Object(Vec<(String, Json)>),
}

/// One level of a parsed value: the variant, with its members still parsed values.
enum Shape {
    Null,
    Bool(bool),
    Number(String),
    Str(String),
    Array(Vec<serde_json::Value>),
    Object(Vec<(String, serde_json::Value)>),
}

/// How deep `json_from_value` follows nesting. serde_json refuses documents
/// nested 128 levels or more, so no parsed value reaches this bound.
pub const MAX_DEPTH: usize = 128;

/// What serde_json makes of a text, in the plain model: `None` where the
/// text is no JSON document. It depends on the text alone.
pub uninterp spec fn json_of_text(t: Seq<char>) -> Option<Json>;

/// What serde_json says of a text that it cannot parse.
pub uninterp spec fn json_error_of_text(t: Seq<char>) -> Seq<char>;

/// Relies on `serde_json::from_str` to parse the text into a
/// `serde_json::Value` (or to say why it is not JSON), which
/// `json_from_value` then copies into the plain model.
#[verifier::external_body]
fn parse_json_text(text: &str) -> (r: Result<Json, String>)
    ensures
        r is Ok <==> json_of_text(text@) is Some,
        r matches Ok(j) ==> j == json_of_text(text@)->0,
        r matches Err(e) ==> e@ == json_error_of_text(text@),
{
    serde_json::from_str::<serde_json::Value>(text)
        .map_err(|e| e.to_string())
        .and_then(|v| json_from_value(&v, MAX_DEPTH))
}

/// Relies on the variants of `serde_json::Value` and on the `Display` of
/// `serde_json::Number`: the top level of `v`, members cloned.
#[verifier::external_body]
fn shape_of(v: &serde_json::Value) -> (r: Shape) {
    match v {
        serde_json::Value::Null => Shape::Null,
        serde_json::Value::Bool(b) => Shape::Bool(*b),
        serde_json::Value::Number(n) => Shape::Number(n.to_string()),
        serde_json::Value::String(s) => Shape::Str(s.clone()),
        serde_json::Value::Array(a) => Shape::Array(a.clone()),
        serde_json::Value::Object(m) => Shape::Object(
            m.iter().map(|(k, x)| (k.clone(), x.clone())).collect(),
        ),
    }
}

/// Copies a parsed value into the plain model, variant by variant, following
/// nesting at most `depth` levels down.
fn json_from_value(v: &serde_json::Value, depth: usize) -> (r: Result<Json, String>)
    decreases depth,
{
    match shape_of(v) {
        Shape::Null => Ok(Json::Null),
        Shape::Bool(b) => Ok(Json::Bool(b)),
        Shape::Number(t) => Ok(Json::Number(t)),
        Shape::Str(s) => Ok(Json::Str(s)),
        Shape::Array(items) => {
            if depth == 0 {
                return Err(String::from_str("document nests too deeply"));
            }
            let mut out: Vec<Json> = Vec::new();
            let mut i: usize = 0;
            while i < items.len()
                invariant
                    i <= items@.len(),
                    depth > 0,
                decreases items@.len() - i,
            {
                match json_from_value(&items[i], depth - 1) {
                    Ok(x) => out.push(x),
                    Err(e) => return Err(e),
                }
                i = i + 1;
            }
            Ok(Json::Array(out))
        },
        Shape::Object(members) => {
            if depth == 0 {
                return Err(String::from_str("document nests too deeply"));
            }
            let mut out: Vec<(String, Json)> = Vec::new();
            let mut i: usize = 0;
            while i < members.len()
                invariant
                    i <= members@.len(),
                    depth > 0,
                decreases members@.len() - i,
            {
                match json_from_value(&members[i].1, depth - 1) {
                    Ok(x) => out.push((members[i].0.clone(), x)),
                    Err(e) => return Err(e),
                }
                i = i + 1;
            }
            Ok(Json::Object(out))
        },
    }
}

/// Parses JSON text into the plain model, or says why it could not.
pub fn parse_json(text: &str) -> (r: Result<Json, String>)
    ensures
        r is Ok <==> json_of_text(text@) is Some,
        r matches Ok(j) ==> j == json_of_text(text@)->0,
        r matches Err(e) ==> e@ == json_error_of_text(text@),
{
    parse_json_text(text)
}

/// The first member of `members` named `key`.
pub open spec fn lookup(members: Seq<(String, Json)>, key: Seq<char>) -> Option<Json>
    decreases members.len(),
{
    if members.len() == 0 {
        None
    } else if members[0].0@ == key {
        Some(members[0].1)
    } else {
        lookup(members.drop_first(), key)
    }
}

/// The member `key` of `j`, where `j` is an object that has one.
pub open spec fn field(j: Json, key: Seq<char>) -> Option<Json> {
    match j {
        Json::Object(members) => lookup(members@, key),
        _ => None,
    }
}

/// The member `key` of `j` (the first one, where a name repeats).
pub fn get_field<'a>(j: &'a Json, key: &String) -> (r: Option<&'a Json>)
    ensures
        match r {
            Some(x) => field(*j, key@) == Some(*x),
            None => field(*j, key@) is None,
        },
{
    match j {
        Json::Object(members) => {
            let mut i: usize = 0;
            assert(members@.subrange(0, members@.len() as int) =~= members@);
            while i < members.len()
                invariant
                    i <= members@.len(),
                    *j == Json::Object(*members),
                    lookup(members@, key@) == lookup(members@.subrange(i as int, members@.len() as int), key@),
                decreases members@.len() - i,
            {
                proof {
                    let rest = members@.subrange(i as int, members@.len() as int);
                    assert(rest.drop_first() =~= members@.subrange(i + 1, members@.len() as int));
                    assert(rest[0] == members@[i as int]);
                }
                if members[i].0.eq(key) {
                    assert(members@[i as int].0@ == key@);
                    assert(lookup(members@.subrange(i as int, members@.len() as int), key@)
                        == Some(members@[i as int].1));
                    return Some(&members[i].1);
                }
                i = i + 1;
            }
            assert(members@.subrange(i as int, members@.len() as int).len() == 0);
            None
        },
        _ => None,
    }
}

} // verus!
