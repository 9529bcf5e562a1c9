//! A plain-value JSON document: what the protocol parsers read of the
//! agent's JSON-RPC payloads. The transport layer converts decoded
//! `serde_json` values into this shape; objects keep each key once.

use vstd::prelude::*;
use crate::text::str_eq;

verus! {

/// A JSON number, as the views the parsers use: its value as an unsigned
/// or signed 64-bit integer where it is one, and its canonical text.
#[derive(Debug, Clone)]
pub struct JsonNumber {
    pub as_u64: Option<u64>,
    pub as_i64: Option<i64>,
    pub text: String,
}

/// A JSON value. Object members keep their document order; keys are
/// unique.
#[derive(Debug)]
pub enum Json {
    Null,
    Bool(bool),
    Number(JsonNumber),
    String(String),
    Array(Vec<Json>),
    Object(Vec<(String, Json)>),
}

/// The value of the first member named `key`.
pub open spec fn entries_get(es: Seq<(String, Json)>, key: Seq<char>) -> Option<Json>
    decreases es.len(),
{
    if es.len() == 0 {
        None
    } else if es[0].0@ == key {
        Some(es[0].1)
    } else {
        entries_get(es.drop_first(), key)
    }
}

/// `value.get(key)`: the member `key` of an object, `None` for other values.
pub open spec fn get(v: Json, key: Seq<char>) -> Option<Json> {
    match v {
        Json::Object(es) => entries_get(es@, key),
        _ => None,
    }
}

/// The value behind an optional reference.
pub open spec fn deref_opt(r: Option<&Json>) -> Option<Json> {
    match r {
        Some(j) => Some(*j),
        None => None,
    }
}

/// `get` on an optional value (`and_then(|v| v.get(key))`).
pub open spec fn get_opt(v: Option<Json>, key: Seq<char>) -> Option<Json> {
    match v {
        Some(v) => get(v, key),
        None => None,
    }
}

/// The text of a string value.
pub open spec fn as_str(v: Option<Json>) -> Option<Seq<char>> {
    match v {
        Some(Json::String(s)) => Some(s@),
        _ => None,
    }
}

/// A boolean value.
pub open spec fn as_bool(v: Option<Json>) -> Option<bool> {
    match v {
        Some(Json::Bool(b)) => Some(b),
        _ => None,
    }
}

/// A number that is a non-negative 64-bit integer.
pub open spec fn as_u64(v: Option<Json>) -> Option<u64> {
    match v {
        Some(Json::Number(n)) => n.as_u64,
        _ => None,
    }
}

/// The elements of an array value.
pub open spec fn as_array(v: Option<Json>) -> Option<Seq<Json>> {
    match v {
        Some(Json::Array(a)) => Some(a@),
        _ => None,
    }
}

/// Whether a value is an object.
pub open spec fn is_object(v: Option<Json>) -> bool {
    v matches Some(Json::Object(_))
}

/// `unwrap_or_default` of a string lookup: the member's text, else empty.
pub open spec fn str_or_empty(v: Option<Json>) -> Seq<char> {
    match as_str(v) {
        Some(s) => s,
        None => Seq::empty(),
    }
}

/// A non-empty string member's text (`filter(|s| !s.is_empty())`).
pub open spec fn nonempty_str(v: Option<Json>) -> Option<Seq<char>> {
    match as_str(v) {
        Some(s) => if s.len() > 0 { Some(s) } else { None },
        None => None,
    }
}

impl Json {
    /// The member `key` of an object, `None` for other values.
    pub fn get(&self, key: &str) -> (r: Option<&Json>)
        ensures
            deref_opt(r) == get(*self, key@),
    {
        match self {
            Json::Object(es) => {
                let mut i: usize = 0;
                assert(es@.subrange(0, es@.len() as int) =~= es@);
                while i < es.len()
                    invariant
                        i <= es@.len(),
                        get(*self, key@) == entries_get(es@, key@),
                        entries_get(es@.subrange(i as int, es@.len() as int), key@) == entries_get(es@, key@),
                    decreases es@.len() - i,
                {
                    let ghost rest = es@.subrange(i as int, es@.len() as int);
                    assert(rest[0] == es@[i as int]);
                    if str_eq(es[i].0.as_str(), key) {
                        assert(entries_get(rest, key@) == Some(es@[i as int].1));
                        return Some(&es[i].1);
                    }
                    assert(es@.subrange(i + 1, es@.len() as int) =~= rest.drop_first());
                    i += 1;
                }
                assert(es@.subrange(i as int, es@.len() as int) =~= Seq::<(String, Json)>::empty());
                None
            },
            _ => None,
        }
    }

    /// The text of a string value.
    pub fn as_str(&self) -> (r: Option<&str>)
        ensures
            r matches Some(s) ==> as_str(Some(*self)) == Some(s@),
            r is None ==> as_str(Some(*self)) is None,
    {
        match self {
            Json::String(s) => Some(s.as_str()),
            _ => None,
        }
    }

    /// A boolean value.
    pub fn as_bool(&self) -> (r: Option<bool>)
        ensures
            r == as_bool(Some(*self)),
    {
        match self {
            Json::Bool(b) => Some(*b),
            _ => None,
        }
    }

    /// A number that is a non-negative 64-bit integer.
    pub fn as_u64(&self) -> (r: Option<u64>)
        ensures
            r == as_u64(Some(*self)),
    {
        match self {
            Json::Number(n) => n.as_u64,
            _ => None,
        }
    }

    /// The elements of an array value.
    pub fn as_array(&self) -> (r: Option<&Vec<Json>>)
        ensures
            r matches Some(a) ==> as_array(Some(*self)) == Some(a@),
            r is None ==> as_array(Some(*self)) is None,
    {
        match self {
            Json::Array(a) => Some(a),
            _ => None,
        }
    }

    /// Whether the value is an object.
    pub fn is_object(&self) -> (b: bool)
        ensures
            b == is_object(Some(*self)),
    {
        match self {
            Json::Object(_) => true,
            _ => false,
        }
    }

    /// Whether the value is `null`.
    pub fn is_null(&self) -> (b: bool)
        ensures
            b == (*self matches Json::Null),
    {
        match self {
            Json::Null => true,
            _ => false,
        }
    }
}

/// The value `entries_get` finds is one of the members' values.
pub proof fn lemma_entries_get_member(es: Seq<(String, Json)>, key: Seq<char>)
    ensures
        entries_get(es, key) matches Some(x) ==> exists|i: int| 0 <= i < es.len() && es[i].1 == x,
    decreases es.len(),
{
    if es.len() > 0 && es[0].0@ != key {
        lemma_entries_get_member(es.drop_first(), key);
        if let Some(x) = entries_get(es, key) {
            let i = choose|i: int| 0 <= i < es.drop_first().len() && es.drop_first()[i].1 == x;
            assert(es[i + 1].1 == x);
        }
    }
}

/// A member's value is structurally smaller than the object holding it.
pub proof fn lemma_get_decreases(v: Json, key: Seq<char>)
    ensures
        get(v, key) matches Some(x) ==> decreases_to!(v => x),
{
    if let Json::Object(es) = v {
        lemma_entries_get_member(es@, key);
        if let Some(x) = get(v, key) {
            let i = choose|i: int| 0 <= i < es@.len() && es@[i].1 == x;
            assert(decreases_to!(v => es));
            assert(decreases_to!(es => es@));
            assert(decreases_to!(es@ => es@[i]));
            assert(decreases_to!(es@[i] => es@[i].1));
        }
    }
}

/// `v.and_then(|v| v.get(key))` on an optional value.
pub fn get_in<'a>(v: Option<&'a Json>, key: &str) -> (r: Option<&'a Json>)
    ensures
        deref_opt(r) == get_opt(deref_opt(v), key@),
{
    match v {
        Some(j) => j.get(key),
        None => None,
    }
}

/// The member `key`'s text, or the empty string (`str_field`).
pub fn str_field(v: &Json, key: &str) -> (s: String)
    ensures
        s@ == str_or_empty(get(*v, key@)),
{
    match v.get(key) {
        Some(Json::String(s)) => s.clone(),
        _ => String::new(),
    }
}


/// A JSON value with its strings as character sequences.
pub enum JsonV {
    Null,
    Bool(bool),
    Number(Option<u64>, Option<i64>, Seq<char>),
    Str(Seq<char>),
    Array(Seq<JsonV>),
    Object(Seq<(Seq<char>, JsonV)>),
}

/// The view of a document.
pub open spec fn json_view(j: Json) -> JsonV
    decreases j, 1nat,
{
    match j {
        Json::Null => JsonV::Null,
        Json::Bool(b) => JsonV::Bool(b),
        Json::Number(n) => JsonV::Number(n.as_u64, n.as_i64, n.text@),
        Json::String(s) => JsonV::Str(s@),
        Json::Array(a) => {
            proof {
                assert(decreases_to!(j => a));
                assert(decreases_to!(a => a@));
            }
            JsonV::Array(json_views(a@))
        },
        Json::Object(es) => {
            proof {
                assert(decreases_to!(j => es));
                assert(decreases_to!(es => es@));
            }
            JsonV::Object(entry_views(es@))
        },
    }
}

/// The views of a list of documents.
pub open spec fn json_views(s: Seq<Json>) -> Seq<JsonV>
    decreases s, 0nat,
{
    if s.len() == 0 {
        Seq::empty()
    } else {
        proof {
            assert(decreases_to!(s => s[s.len() - 1]));
        }
        json_views(s.subrange(0, s.len() - 1)).push(json_view(s[s.len() - 1]))
    }
}

/// The views of a list of object members.
pub open spec fn entry_views(s: Seq<(String, Json)>) -> Seq<(Seq<char>, JsonV)>
    decreases s, 0nat,
{
    if s.len() == 0 {
        Seq::empty()
    } else {
        proof {
            assert(decreases_to!(s => s[s.len() - 1]));
            assert(decreases_to!(s[s.len() - 1] => s[s.len() - 1].1));
        }
        entry_views(s.subrange(0, s.len() - 1)).push((s[s.len() - 1].0@, json_view(s[s.len() - 1].1)))
    }
}

impl View for Json {
    type V = JsonV;

    open spec fn view(&self) -> JsonV {
        json_view(*self)
    }
}

/// `serde_json::Value`, carried opaquely to its serializer.
#[verifier::external_type_specification]
#[verifier::external_body]
pub struct ExSerdeValue(serde_json::Value);

/// The compact JSON text that `serde_json` prints for a document.
pub uninterp spec fn json_text(v: Json) -> Seq<char>;

/// `serde_json`'s own value for a document, built member for member: the
/// conversion that `json_to_string` hands to the serializer.
#[verifier::external_body]
fn serde_value(v: &Json) -> serde_json::Value {
    match v {
        Json::Null => serde_json::Value::Null,
        Json::Bool(b) => serde_json::Value::Bool(*b),
        Json::Number(n) => serde_json::from_str(&n.text).unwrap_or(serde_json::Value::Null),
        Json::String(s) => serde_json::Value::String(s.clone()),
        Json::Array(a) => serde_json::Value::Array(a.iter().map(serde_value).collect()),
        Json::Object(es) => serde_json::Value::Object(es.iter().map(|(k, x)| (k.clone(), serde_value(x))).collect()),
    }
}

/// `Value::to_string` (serde_json's `Display`): the compact JSON text of a
/// document. Its contract names the text; what the text is, character for
/// character, is serde_json's to say and is not stated here.
#[verifier::external_body]
pub(crate) fn json_to_string(v: &Json) -> (s: String)
    ensures
        s@ == json_text(*v),
{
    serde_value(v).to_string()
}

/// The document `serde_json` reads from a text, none when the text is
/// not one JSON value.
pub uninterp spec fn json_parsed(text: Seq<char>) -> Option<Json>;

/// The library's document for a `serde_json` value, built member for
/// member: numbers keep their `u64`/`i64` readings and their text.
#[verifier::external_body]
fn json_of_value(v: &serde_json::Value) -> Json {
    match v {
        serde_json::Value::Null => Json::Null,
        serde_json::Value::Bool(b) => Json::Bool(*b),
        serde_json::Value::Number(n) => Json::Number(JsonNumber { as_u64: n.as_u64(), as_i64: n.as_i64(), text: n.to_string() }),
        serde_json::Value::String(s) => Json::String(s.clone()),
        serde_json::Value::Array(a) => Json::Array(a.iter().map(json_of_value).collect()),
        serde_json::Value::Object(o) => Json::Object(o.iter().map(|(k, x)| (k.clone(), json_of_value(x))).collect()),
    }
}

/// `serde_json::from_str::<Value>`: the document a text holds, none when
/// serde_json refuses it. Its contract names the result; which texts
/// serde_json accepts, and what it reads from them, is serde_json's to say
/// and is not stated here.
#[verifier::external_body]
pub(crate) fn parse_json(text: &str) -> (r: Option<Json>)
    ensures
        r == json_parsed(text@),
{
    serde_json::from_str::<serde_json::Value>(text).ok().map(|v| json_of_value(&v))
}

} // verus!
