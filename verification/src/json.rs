//! JSON documents as the renderers build them, and their pretty-printed text.

use vstd::prelude::*;

verus! {

/// A JSON value; an object's entries are kept in the order they were added.
#[derive(Debug)]
pub enum JsonValue {
    Null,
    Bool(bool),
    Number(u64),
    Str(String),
    Array(Vec<JsonValue>),
    Object(Vec<(String, JsonValue)>),
}

/// The model of a JSON value: sequences in place of vectors and strings.
pub ghost enum JsonM {
    Null,
    Bool(bool),
    Number(nat),
    Str(Seq<char>),
    Array(Seq<JsonM>),
    Object(Seq<(Seq<char>, JsonM)>),
}

pub open spec fn json_m(v: JsonValue) -> JsonM
    decreases v, 1int,
{
    match v {
        JsonValue::Null => JsonM::Null,
        JsonValue::Bool(b) => JsonM::Bool(b),
        JsonValue::Number(n) => JsonM::Number(n as nat),
        JsonValue::Str(s) => JsonM::Str(s@),
        JsonValue::Array(items) => JsonM::Array(items_m(items@)),
        JsonValue::Object(entries) => JsonM::Object(entries_m(entries@)),
    }
}

pub open spec fn items_m(s: Seq<JsonValue>) -> Seq<JsonM>
    decreases s, 0int,
{
    if s.len() == 0 {
        Seq::empty()
    } else {
        items_m(s.subrange(0, s.len() - 1)).push(json_m(s[s.len() - 1]))
    }
}

pub open spec fn entries_m(s: Seq<(String, JsonValue)>) -> Seq<(Seq<char>, JsonM)>
    decreases s, 0int,
{
    if s.len() == 0 {
        Seq::empty()
    } else {
        entries_m(s.subrange(0, s.len() - 1)).push((s[s.len() - 1].0@, json_m(s[s.len() - 1].1)))
    }
}

/// The text that `serde_json::to_string_pretty` gives for a JSON value.
pub uninterp spec fn json_pretty(v: JsonM) -> Seq<char>;

/// Declares `serde_json::Value` so that it can stand in signatures; nothing is
/// claimed of what a value holds.
#[verifier::external_type_specification]
#[verifier::external_body]
pub struct ExSerdeJsonValue(serde_json::Value);

/// Copies a JSON value into a `serde_json::Value`, object entries in order.
#[verifier::external_body]
fn serde_value_of(v: &JsonValue) -> serde_json::Value {
    match v {
        JsonValue::Null => serde_json::Value::Null,
        JsonValue::Bool(b) => serde_json::Value::Bool(*b),
        JsonValue::Number(n) => serde_json::Value::Number((*n).into()),
        JsonValue::Str(s) => serde_json::Value::String(s.clone()),
        JsonValue::Array(items) => serde_json::Value::Array(items.iter().map(serde_value_of).collect()),
        JsonValue::Object(entries) => serde_json::Value::Object(entries.iter().map(|(k, x)| (k.clone(), serde_value_of(x))).collect()),
    }
}

/// Pretty-prints a JSON value with `serde_json::to_string_pretty`. The
/// contract claims only that the text is a function of the value
/// (`json_pretty`); the layout is serde_json's.
#[verifier::external_body]
pub(crate) fn to_pretty(v: &JsonValue) -> (r: String)
    ensures
        r@ == json_pretty(json_m(*v)),
{
    serde_json::to_string_pretty(&serde_value_of(v)).unwrap()
}

/// A JSON string.
pub fn jstr(s: &str) -> (r: JsonValue)
    ensures
        json_m(r) == JsonM::Str(s@),
{
    JsonValue::Str(s.to_owned())
}

/// A JSON number.
pub fn jnum(n: u32) -> (r: JsonValue)
    ensures
        json_m(r) == JsonM::Number(n as nat),
{
    JsonValue::Number(n as u64)
}

/// An empty list of object entries.
pub fn no_entries() -> (r: Vec<(String, JsonValue)>)
    ensures
        entries_m(r@) == Seq::<(Seq<char>, JsonM)>::empty(),
{
    let v: Vec<(String, JsonValue)> = Vec::new();
    assert(entries_m(v@) =~= Seq::<(Seq<char>, JsonM)>::empty());
    v
}

/// An empty list of array items.
pub fn no_items() -> (r: Vec<JsonValue>)
    ensures
        items_m(r@) == Seq::<JsonM>::empty(),
{
    let v: Vec<JsonValue> = Vec::new();
    assert(items_m(v@) =~= Seq::<JsonM>::empty());
    v
}

/// Adds the entry `key: v` at the end of an object's entries.
pub fn put(entries: &mut Vec<(String, JsonValue)>, key: &str, v: JsonValue)
    ensures
        entries_m(final(entries)@) == entries_m(old(entries)@).push((key@, json_m(v))),
{
    let ghost before = entries@;
    let ghost vm = json_m(v);
    entries.push((key.to_owned(), v));
    assert(entries@.subrange(0, before.len() as int) =~= before);
}

/// Adds `v` at the end of an array's items.
pub fn append(items: &mut Vec<JsonValue>, v: JsonValue)
    ensures
        items_m(final(items)@) == items_m(old(items)@).push(json_m(v)),
{
    let ghost before = items@;
    items.push(v);
    assert(items@.subrange(0, before.len() as int) =~= before);
}

} // verus!
