//! The payload of the feed as a tree of values, and the reading of such a
//! tree from text.

use vstd::prelude::*;
use vstd::string::StringExecFns;

verus! {

/// A node of the payload. A number keeps its value where it is a whole number
/// that fits 64 bits with sign; the feed's rules read no other number.
#[derive(Debug, PartialEq, Eq)]
pub enum Json {
    Null,
    Bool(bool),
    Number(Option<i64>),
    Text(String),
    List(Vec<Json>),
    Record(Vec<(String, Json)>),
}

/// The value of the first of `fields` that is named `key`.
pub open spec fn lookup(fields: Seq<(String, Json)>, key: Seq<char>) -> Option<Json>
    decreases fields.len(),
{
    if fields.len() == 0 {
        None
    } else if fields[0].0@ == key {
        Some(fields[0].1)
    } else {
        lookup(fields.skip(1), key)
    }
}

/// The member `key` of a record; nothing where `json` is no record or has
/// no such member.
pub open spec fn field_of(json: Json, key: Seq<char>) -> Option<Json> {
    match json {
        Json::Record(fields) => lookup(fields@, key),
        _ => None,
    }
}

/// The member `key` of the member `outer` of a record.
pub open spec fn nested_field_of(json: Json, outer: Seq<char>, key: Seq<char>) -> Option<Json> {
    match field_of(json, outer) {
        Some(inner) => field_of(inner, key),
        None => None,
    }
}

impl Json {
    /// The member `key` of a record; nothing where this is no record or has
    /// no such member.
    pub fn get(&self, key: &str) -> (r: Option<&Json>)
        ensures
            match r {
                Some(value) => field_of(*self, key@) == Some(*value),
                None => field_of(*self, key@) is None,
            },
    {
        match self {
            Json::Record(fields) => {
                let name = String::from_str(key);
                let mut i: usize = 0;
                assert(fields@.skip(0) =~= fields@);
                while i < fields.len()
                    invariant
                        i <= fields.len(),
                        name@ == key@,
                        field_of(*self, key@) == lookup(fields@, key@),
                        lookup(fields@, key@) == lookup(fields@.skip(i as int), key@),
                    decreases fields.len() - i,
                {
                    assert(fields@.skip(i as int)[0] == fields@[i as int]);
                    if fields[i].0 == name {
                        return Some(&fields[i].1);
                    }
                    assert(fields@.skip(i as int).skip(1) =~= fields@.skip(i + 1));
                    i += 1;
                }
                None
            },
            _ => None,
        }
    }
}

/// The tree that the JSON parser reads from a text, where it accepts the
/// text.
pub uninterp spec fn json_document(text: Seq<char>) -> Option<Json>;

/// The tree that a parsed value holds.
pub uninterp spec fn value_tree(value: serde_json::Value) -> Json;

/// `serde_json::Value`, a parsed JSON value. Nothing is known of what one
/// holds but through `value_tree`.
#[verifier::external_type_specification]
#[verifier::external_body]
pub struct ExValue(serde_json::Value);

/// `serde_json::Error`, the parser's account of a failure. Nothing is
/// known of what one holds.
#[verifier::external_type_specification]
#[verifier::external_body]
pub struct ExParseError(serde_json::Error);

/// Parses a text as JSON.
///
/// Trusted: this is `serde_json::from_str` at the type `serde_json::Value`.
/// Whether it succeeds and what it returns depend on the text alone; the
/// contract gives that tree a name and says nothing more of it.
#[verifier::external_body]
fn parse_value(text: &str) -> (r: Result<serde_json::Value, serde_json::Error>)
    ensures
        match r {
            Ok(value) => json_document(text@) == Some(value_tree(value)),
            Err(_) => json_document(text@) is None,
        },
{
    serde_json::from_str::<serde_json::Value>(text)
}

/// Copies a parsed value into a tree of this library.
///
/// Trusted: one arm for each variant of `serde_json::Value`. A number gives
/// what `serde_json::Number::as_i64` returns, an object its members in the
/// order in which `serde_json::Map` hands them out.
#[verifier::external_body]
fn json_from_value(value: &serde_json::Value) -> (r: Json)
    ensures
        r == value_tree(*value),
{
    match value {
        serde_json::Value::Null => Json::Null,
        serde_json::Value::Bool(b) => Json::Bool(*b),
        serde_json::Value::Number(n) => Json::Number(n.as_i64()),
        serde_json::Value::String(s) => Json::Text(s.clone()),
        serde_json::Value::Array(items) => Json::List(items.iter().map(json_from_value).collect()),
        serde_json::Value::Object(fields) => Json::Record(
            fields.iter().map(|(k, v)| (k.clone(), json_from_value(v))).collect(),
        ),
    }
}

/// What the parser says of a text that it refused.
///
/// Trusted: this is the `Display` of `serde_json::Error`. Nothing is stated
/// of the text.
#[verifier::external_body]
fn parse_error_text(error: &serde_json::Error) -> (r: String)
{
    error.to_string()
}

/// Reads a text as JSON: the tree that the parser reads from it, or what
/// the parser says is wrong with it.
pub fn parse_json(text: &str) -> (r: Result<Json, String>)
    ensures
        match r {
            Ok(json) => json_document(text@) == Some(json),
            Err(_) => json_document(text@) is None,
        },
{
    match parse_value(text) {
        Ok(value) => Ok(json_from_value(&value)),
        Err(error) => Err(parse_error_text(&error)),
    }
}

} // verus!
