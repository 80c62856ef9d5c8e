//! A JSON document as plain values, and the lookups that handoff validation
//! makes in one: member access along a path, and reading a member as a
//! string, a boolean, an array, or an array of strings. Parsing JSON text
//! is serde_json's.
use vstd::prelude::*;

use serde_json::Value;

use crate::text::str_eq;

verus! {

/// A JSON value. Numbers are kept as their text (validation never reads
/// them). An object keeps its members in the order it was given them; one
/// made by `parse_json` has each key once, in serde_json's map order (sorted
/// by key), so looking up the first member of a name finds the only one.
#[derive(Debug)]
pub enum JsonValue {
    Null,
    Bool(bool),
    Number(String),
    String(String),
    Array(Vec<JsonValue>),
    Object(Vec<(String, JsonValue)>),
}

/// The value of the first member named `key` among `entries`.
pub open spec fn lookup(entries: Seq<(String, JsonValue)>, key: Seq<char>) -> Option<JsonValue>
    decreases entries.len(),
{
    if entries.len() == 0 {
        None
    } else if entries[0].0@ == key {
        Some(entries[0].1)
    } else {
        lookup(entries.drop_first(), key)
    }
}

/// Member `key` of `v` when `v` is an object (as `Value::get` with a string index).
pub open spec fn member(v: JsonValue, key: Seq<char>) -> Option<JsonValue> {
    match v {
        JsonValue::Object(entries) => lookup(entries@, key),
        _ => None,
    }
}

/// The value reached from `v` by following the member names of `path`.
pub open spec fn value_at(v: JsonValue, path: Seq<Seq<char>>) -> Option<JsonValue>
    decreases path.len(),
{
    if path.len() == 0 {
        Some(v)
    } else {
        match member(v, path[0]) {
            Some(child) => value_at(child, path.drop_first()),
            None => None,
        }
    }
}

/// The text of `v` when it is a string.
pub open spec fn as_text(v: JsonValue) -> Option<Seq<char>> {
    match v {
        JsonValue::String(s) => Some(s@),
        _ => None,
    }
}

/// The string found at `path`, if the value there is a string.
pub open spec fn string_at(v: JsonValue, path: Seq<Seq<char>>) -> Option<Seq<char>> {
    match value_at(v, path) {
        Some(found) => as_text(found),
        None => None,
    }
}

/// The boolean found at `path`, if the value there is a boolean.
pub open spec fn bool_at(v: JsonValue, path: Seq<Seq<char>>) -> Option<bool> {
    match value_at(v, path) {
        Some(JsonValue::Bool(b)) => Some(b),
        _ => None,
    }
}

/// The elements of the array found at `path`, if the value there is an array.
pub open spec fn array_opt_at(v: JsonValue, path: Seq<Seq<char>>) -> Option<Seq<JsonValue>> {
    match value_at(v, path) {
        Some(JsonValue::Array(items)) => Some(items@),
        _ => None,
    }
}

/// The elements of the array found at `path`; none when there is no array.
pub open spec fn array_at(v: JsonValue, path: Seq<Seq<char>>) -> Seq<JsonValue> {
    match array_opt_at(v, path) {
        Some(items) => items,
        None => Seq::empty(),
    }
}

/// The string elements of `items`, in order, skipping the others.
pub open spec fn strings_in(items: Seq<JsonValue>) -> Seq<Seq<char>>
    decreases items.len(),
{
    if items.len() == 0 {
        Seq::empty()
    } else {
        let rest = strings_in(items.drop_last());
        match as_text(items.last()) {
            Some(s) => rest.push(s),
            None => rest,
        }
    }
}

/// The string elements of the array found at `path`.
pub open spec fn array_strings_at(v: JsonValue, path: Seq<Seq<char>>) -> Seq<Seq<char>> {
    strings_in(array_at(v, path))
}

/// A path written as string slices, as plain text.
pub open spec fn path_view(path: Seq<&str>) -> Seq<Seq<char>> {
    path.map_values(|s: &str| s@)
}

impl JsonValue {
    /// Member `key` of this value when it is an object.
    pub fn get(&self, key: &str) -> (r: Option<&JsonValue>)
        ensures
            match r {
                Some(c) => member(*self, key@) == Some(*c),
                None => member(*self, key@) is None,
            },
    {
        match self {
            JsonValue::Object(entries) => {
                let mut i: usize = 0;
                assert(entries@.skip(0) =~= entries@);
                while i < entries.len()
                    invariant
                        i <= entries.len(),
                        member(*self, key@) == lookup(entries@, key@),
                        lookup(entries@, key@) == lookup(entries@.skip(i as int), key@),
                    decreases entries.len() - i,
                {
                    assert(entries@.skip(i as int).drop_first() =~= entries@.skip(i + 1));
                    assert(entries@.skip(i as int)[0] == entries@[i as int]);
                    if str_eq(entries[i].0.as_str(), key) {
                        assert(entries@.skip(i as int).len() > 0);
                        assert(lookup(entries@.skip(i as int), key@) == Some(entries@[i as int].1));
                        return Some(&entries[i].1);
                    }
                    i = i + 1;
                }
                None
            },
            _ => None,
        }
    }

    /// The text of this value when it is a string.
    pub fn as_str(&self) -> (r: Option<&String>)
        ensures
            match r {
                Some(s) => as_text(*self) == Some(s@),
                None => as_text(*self) is None,
            },
    {
        match self {
            JsonValue::String(s) => Some(s),
            _ => None,
        }
    }
}

/// The value reached by following `path`.
pub fn value_at_path<'a>(v: &'a JsonValue, path: &[&str]) -> (r: Option<&'a JsonValue>)
    ensures
        match r {
            Some(c) => value_at(*v, path_view(path@)) == Some(*c),
            None => value_at(*v, path_view(path@)) is None,
        },
{
    let ghost full = path_view(path@);
    let mut current: &JsonValue = v;
    let mut i: usize = 0;
    assert(full.skip(0) =~= full);
    while i < path.len()
        invariant
            full == path_view(path@),
            i <= path.len(),
            value_at(*v, full) == value_at(*current, full.skip(i as int)),
        decreases path.len() - i,
    {
        let ghost rest = full.skip(i as int);
        assert(rest[0] == path@[i as int]@);
        assert(rest.drop_first() =~= full.skip(i + 1));
        match current.get(path[i]) {
            Some(child) => {
                current = child;
            },
            None => {
                return None;
            },
        }
        i = i + 1;
    }
    assert(full.skip(path.len() as int) =~= Seq::<Seq<char>>::empty());
    Some(current)
}

/// The string at `path`, copied.
pub fn string_at_path(v: &JsonValue, path: &[&str]) -> (r: Option<String>)
    ensures
        match r {
            Some(s) => string_at(*v, path_view(path@)) == Some(s@),
            None => string_at(*v, path_view(path@)) is None,
        },
{
    match value_at_path(v, path) {
        Some(found) => match found.as_str() {
            Some(s) => Some(s.clone()),
            None => None,
        },
        None => None,
    }
}

/// The boolean at `path`.
pub fn bool_at_path(v: &JsonValue, path: &[&str]) -> (r: Option<bool>)
    ensures
        r == bool_at(*v, path_view(path@)),
{
    match value_at_path(v, path) {
        Some(JsonValue::Bool(b)) => Some(*b),
        _ => None,
    }
}

/// The array at `path`.
pub fn array_at_path<'a>(v: &'a JsonValue, path: &[&str]) -> (r: Option<&'a Vec<JsonValue>>)
    ensures
        match r {
            Some(items) => array_opt_at(*v, path_view(path@)) == Some(items@),
            None => array_opt_at(*v, path_view(path@)) is None,
        },
{
    match value_at_path(v, path) {
        Some(JsonValue::Array(items)) => Some(items),
        _ => None,
    }
}

/// The string elements of the array at `path`, copied, in order.
pub fn array_strings_at_path(v: &JsonValue, path: &[&str]) -> (r: Vec<String>)
    ensures
        r@.map_values(|s: String| s@) == array_strings_at(*v, path_view(path@)),
{
    let mut out: Vec<String> = Vec::new();
    match array_at_path(v, path) {
        Some(items) => {
            let mut i: usize = 0;
            while i < items.len()
                invariant
                    i <= items.len(),
                    out@.map_values(|s: String| s@) == strings_in(items@.take(i as int)),
                decreases items.len() - i,
            {
                assert(items@.take(i + 1).drop_last() =~= items@.take(i as int));
                assert(items@.take(i + 1).last() == items@[i as int]);
                let ghost before = out@;
                match items[i].as_str() {
                    Some(s) => {
                        out.push(s.clone());
                        assert(out@.map_values(|s: String| s@) =~= before.map_values(
                            |s: String| s@,
                        ).push(s@));
                    },
                    None => {},
                }
                i = i + 1;
            }
            assert(items@.take(items.len() as int) =~= items@);
        },
        None => {
            assert(out@.map_values(|s: String| s@) =~= Seq::<Seq<char>>::empty());
        },
    }
    out
}

/// serde_json's parsed JSON value.
#[verifier::external_type_specification]
#[verifier::external_body]
pub struct ExSerdeValue(Value);

/// What `serde_json::from_str::<serde_json::Value>` gives for a text, in
/// this library's model: the parsed document, or the text of serde_json's
/// error.
pub uninterp spec fn parsed_json(source: Seq<char>) -> Result<JsonValue, Seq<char>>;

/// A parse outcome as plain values.
pub open spec fn parse_view(r: Result<JsonValue, String>) -> Result<JsonValue, Seq<char>> {
    match r {
        Ok(v) => Ok(v),
        Err(e) => Err(e@),
    }
}

/// The same document in this library's model: one variant for each of
/// serde_json's, numbers by their text, members in the map's order.
#[verifier::external_body]
fn json_of_value(v: &Value) -> JsonValue {
    match v {
        Value::Null => JsonValue::Null,
        Value::Bool(b) => JsonValue::Bool(*b),
        Value::Number(n) => JsonValue::Number(n.to_string()),
        Value::String(s) => JsonValue::String(s.clone()),
        Value::Array(items) => JsonValue::Array(items.iter().map(json_of_value).collect()),
        Value::Object(m) => JsonValue::Object(m.iter().map(|(k, x)| (k.clone(), json_of_value(x))).collect()),
    }
}

/// Parse JSON text with `serde_json::from_str` into a `serde_json::Value`,
/// given in this library's model; on failure, serde_json's error message.
/// Claimed: the outcome is a function of the text alone (named
/// `parsed_json`); nothing more is claimed of serde_json's grammar.
#[verifier::external_body]
pub fn parse_json(source: &str) -> (r: Result<JsonValue, String>)
    ensures
        parse_view(r) == parsed_json(source@),
{
    match serde_json::from_str::<Value>(source) {
        Ok(v) => Ok(json_of_value(&v)),
        Err(e) => Err(e.to_string()),
    }
}

} // verus!
