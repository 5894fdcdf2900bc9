//! JSON values as plain data, and parsing text into them with `serde_json`.
use vstd::prelude::*;
use serde_json::Value;

verus! {

/// A JSON value. Numbers keep their text; an object keeps its entries in
/// the order `serde_json` yields them, each key once.
#[derive(Debug)]
pub enum Json {
    Null,
    Bool(bool),
    Number(String),
    Str(String),
    Array(Vec<Json>),
    Object(Vec<(String, Json)>),
}

#[verifier::external_type_specification]
#[verifier::external_body]
pub struct ExJsonValue(Value);

/// The value that `serde_json` parses from `text`, `None` when `text` is no
/// JSON.
pub uninterp spec fn json_parse(text: Seq<char>) -> Option<Json>;

/// Converts a `serde_json::Value` into a [`Json`], variant by variant:
/// numbers through `serde_json::Number`'s `to_string`, array elements and
/// object entries one for one, in the order the value holds them. It has no
/// contract: a `serde_json::Value` has no model here, and what the
/// conversion yields is covered by the name that `parse_json` states.
#[verifier::external_body]
fn json_of_value(v: Value) -> Json {
    match v {
        Value::Null => Json::Null,
        Value::Bool(b) => Json::Bool(b),
        Value::Number(n) => Json::Number(n.to_string()),
        Value::String(s) => Json::Str(s),
        Value::Array(a) => Json::Array(a.into_iter().map(json_of_value).collect()),
        Value::Object(m) => {
            let (keys, values): (Vec<String>, Vec<Value>) = m.into_iter().unzip();
            Json::Object(keys.into_iter().zip(values.into_iter().map(json_of_value)).collect())
        },
    }
}

/// Calls `serde_json::from_str::<serde_json::Value>` and converts what it
/// parses. The contract claims only that the result depends on `text`
/// alone: what JSON parsing gives is named, not stated.
#[verifier::external_body]
pub(crate) fn parse_json(text: &str) -> (r: Option<Json>)
    ensures
        r == json_parse(text@),
{
    match serde_json::from_str::<Value>(text) {
        Ok(v) => Some(json_of_value(v)),
        Err(_) => None,
    }
}

/// The index of the first entry whose key is `key`.
pub open spec fn entry_index(entries: Seq<(String, Json)>, key: Seq<char>) -> Option<int>
    decreases entries.len(),
{
    if entries.len() == 0 {
        None
    } else if entries[0].0@ == key {
        Some(0)
    } else {
        match entry_index(entries.drop_first(), key) {
            Some(i) => Some(i + 1),
            None => None,
        }
    }
}

/// The string under `key` in an object (`Value::get(key)` then
/// `Value::as_str`): `None` when `v` is no object, has no such key, or the
/// value there is no string.
pub open spec fn string_field(v: Json, key: Seq<char>) -> Option<Seq<char>> {
    match v {
        Json::Object(entries) => match entry_index(entries@, key) {
            Some(i) => match entries@[i].1 {
                Json::Str(s) => Some(s@),
                _ => None,
            },
            None => None,
        },
        _ => None,
    }
}

/// The `prefsrc` string of the first element of an array: `None` when `v`
/// is no non-empty array or its first element has no string `prefsrc`.
pub open spec fn first_prefsrc_of(v: Json) -> Option<Seq<char>> {
    match v {
        Json::Array(items) => if items@.len() > 0 {
            string_field(items@[0], "prefsrc"@)
        } else {
            None
        },
        _ => None,
    }
}

/// Whether two strings hold the same characters.
fn same_string(a: &String, b: &str) -> (r: bool)
    ensures
        r == (a@ == b@),
{
    let x = crate::text::chars_of(a.as_str());
    let y = crate::text::chars_of(b);
    crate::text::same_chars(&x, &y)
}

/// The string under `key` in an object.
pub fn string_field_of(v: &Json, key: &str) -> (r: Option<String>)
    ensures
        crate::text::opt_string_view(r) == string_field(*v, key@),
{
    match v {
        Json::Object(entries) => {
            let ghost es = entries@;
            let mut i: usize = 0;
            proof {
                assert(es.skip(0) =~= es);
            }
            while i < entries.len()
                invariant
                    es == entries@,
                    *v == Json::Object(*entries),
                    i <= es.len(),
                    entry_index(es, key@) == match entry_index(es.skip(i as int), key@) {
                        Some(j) => Some(j + i),
                        None => None,
                    },
                decreases es.len() - i,
            {
                proof {
                    assert(es.skip(i as int).drop_first() =~= es.skip(i + 1));
                    assert(es.skip(i as int)[0] == es[i as int]);
                }
                let (k, e) = &entries[i];
                if same_string(k, key) {
                    proof {
                        assert(entry_index(es.skip(i as int), key@) == Some(0int));
                        assert(entry_index(es, key@) == Some(i as int));
                        assert(es[i as int].1 == *e);
                    }
                    match e {
                        Json::Str(s) => {
                            return Some(s.clone());
                        },
                        _ => {
                            return None;
                        },
                    }
                }
                i = i + 1;
            }
            proof {
                assert(es.skip(es.len() as int) =~= Seq::<(String, Json)>::empty());
            }
            None
        },
        _ => None,
    }
}

/// The `prefsrc` string of the first element of an array.
pub fn first_prefsrc(v: &Json) -> (r: Option<String>)
    ensures
        crate::text::opt_string_view(r) == first_prefsrc_of(*v),
{
    match v {
        Json::Array(items) => if items.len() > 0 {
            string_field_of(&items[0], "prefsrc")
        } else {
            None
        },
        _ => None,
    }
}

} // verus!
