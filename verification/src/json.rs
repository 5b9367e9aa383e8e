//! A plain-value model of JSON documents, as serde_json parses them, and the
//! reads the palette makes on them.
//!
//! Parsing is serde_json's: `parse_json` hands the text to
//! `serde_json::from_str` and copies the resulting `serde_json::Value` into a
//! `JsonValue`, one node for one node. Everything read off a document after
//! that is verified here. Writing a value back as text is serde_json's too.

use vstd::prelude::*;

use crate::text::views;

verus! {

/// One JSON value. Object entries keep the order serde_json iterates them
/// in, and hold each key once.
pub enum JsonValue {
    Null,
    Bool(bool),
    /// A number: its text as serde_json prints it, and its value when it is
    /// an integer that fits an `i64`.
    Number(String, Option<i64>),
    Str(String),
    Array(Vec<JsonValue>),
    Object(Vec<(String, JsonValue)>),
}

#[verifier::external_type_specification]
#[verifier::external_body]
pub struct ExSerdeJsonValue(serde_json::Value);

/// The result of `serde_json::from_str::<serde_json::Value>` on a text: the
/// document, or the error's message.
pub uninterp spec fn spec_parse_json(text: Seq<char>) -> Result<JsonValue, Seq<char>>;

/// Copies a serde_json value into the model, node for node.
#[verifier::external_body]
fn json_from_serde(value: serde_json::Value) -> JsonValue {
    match value {
        serde_json::Value::Null => JsonValue::Null,
        serde_json::Value::Bool(b) => JsonValue::Bool(b),
        serde_json::Value::Number(n) => JsonValue::Number(n.to_string(), n.as_i64()),
        serde_json::Value::String(s) => JsonValue::Str(s),
        serde_json::Value::Array(items) => JsonValue::Array(
            items.into_iter().map(json_from_serde).collect(),
        ),
        serde_json::Value::Object(map) => JsonValue::Object(
            map.into_iter().map(|(k, v)| (k, json_from_serde(v))).collect(),
        ),
    }
}

/// `serde_json::from_str::<serde_json::Value>`: the parsed document, or the
/// parser's error message. The contract claims only that the outcome is a
/// function of the text (`spec_parse_json`); what serde_json accepts as JSON
/// is left to serde_json.
#[verifier::external_body]
pub(crate) fn parse_json(text: &str) -> (r: Result<JsonValue, String>)
    ensures
        match r {
            Ok(v) => spec_parse_json(text@) == Ok::<JsonValue, Seq<char>>(v),
            Err(e) => spec_parse_json(text@) == Err::<JsonValue, Seq<char>>(e@),
        },
{
    match serde_json::from_str::<serde_json::Value>(text) {
        Ok(value) => Ok(json_from_serde(value)),
        Err(err) => Err(err.to_string()),
    }
}

/// The document a text parses to, `None` when it is not JSON.
pub open spec fn parsed(text: Seq<char>) -> Option<JsonValue> {
    match spec_parse_json(text) {
        Ok(v) => Some(v),
        Err(_) => None,
    }
}

/// Parses `text`, forgetting the error message.
pub fn parse_json_opt(text: &str) -> (r: Option<JsonValue>)
    ensures
        r == parsed(text@),
{
    match parse_json(text) {
        Ok(v) => Some(v),
        Err(_) => None,
    }
}

/// The index of the first entry keyed `key`.
pub open spec fn entry_index(entries: Seq<(String, JsonValue)>, key: Seq<char>) -> Option<int> {
    if exists|i: int| 0 <= i < entries.len() && entries[i].0@ == key {
        Some(
            choose|i: int|
                0 <= i < entries.len() && entries[i].0@ == key && forall|j: int|
                    0 <= j < i ==> entries[j].0@ != key,
        )
    } else {
        None
    }
}

/// `Value::get(key)`: the member `key` of an object; `None` for a missing
/// key and for anything that is not an object.
pub open spec fn get(v: JsonValue, key: Seq<char>) -> Option<JsonValue> {
    match v {
        JsonValue::Object(entries) => match entry_index(entries@, key) {
            Some(i) => Some(entries@[i].1),
            None => None,
        },
        _ => None,
    }
}

/// `get` through an optional value.
pub open spec fn get_opt(v: Option<JsonValue>, key: Seq<char>) -> Option<JsonValue> {
    match v {
        Some(v) => get(v, key),
        None => None,
    }
}

/// The string a value holds, if it is one.
pub open spec fn as_str(v: Option<JsonValue>) -> Option<Seq<char>> {
    match v {
        Some(JsonValue::Str(s)) => Some(s@),
        _ => None,
    }
}

/// The elements of a value, if it is an array.
pub open spec fn as_array(v: Option<JsonValue>) -> Option<Seq<JsonValue>> {
    match v {
        Some(JsonValue::Array(items)) => Some(items@),
        _ => None,
    }
}

impl JsonValue {
    /// The member `key`, as `get` defines it.
    pub fn get(&self, key: &str) -> (r: Option<&JsonValue>)
        ensures
            match r {
                Some(m) => get(*self, key@) == Some(*m),
                None => get(*self, key@) is None,
            },
    {
        match self {
            JsonValue::Object(entries) => {
                let mut i: usize = 0;
                while i < entries.len()
                    invariant
                        0 <= i <= entries@.len(),
                        *self == JsonValue::Object(*entries),
                        forall|j: int| 0 <= j < i ==> entries@[j].0@ != key@,
                    decreases entries@.len() - i,
                {
                    if crate::text::str_eq(entries[i].0.as_str(), key) {
                        let ghost k = i as int;
                        let ghost w = choose|w: int|
                            0 <= w < entries@.len() && entries@[w].0@ == key@ && forall|j: int|
                                0 <= j < w ==> entries@[j].0@ != key@;
                        assert(entries@[k].0@ == key@);
                        assert(w == k) by {
                            if w < k {
                            } else if w > k {
                            }
                        }
                        assert(entry_index(entries@, key@) == Some(k));

                        return Some(&entries[i].1);
                    }
                    i += 1;
                }
                None
            },
            _ => None,
        }
    }

    /// The string held, if this is a string.
    pub fn as_str(&self) -> (r: Option<&String>)
        ensures
            match r {
                Some(s) => as_str(Some(*self)) == Some(s@),
                None => as_str(Some(*self)) is None,
            },
    {
        match self {
            JsonValue::Str(s) => Some(s),
            _ => None,
        }
    }

    /// The elements, if this is an array.
    pub fn as_array(&self) -> (r: Option<&Vec<JsonValue>>)
        ensures
            match r {
                Some(items) => as_array(Some(*self)) == Some(items@),
                None => as_array(Some(*self)) is None,
            },
    {
        match self {
            JsonValue::Array(items) => Some(items),
            _ => None,
        }
    }
}

/// `get` through an optional reference.
pub fn get_in<'a>(v: Option<&'a JsonValue>, key: &str) -> (r: Option<&'a JsonValue>)
    ensures
        match v {
            Some(v) => match r {
                Some(m) => get(*v, key@) == Some(*m),
                None => get(*v, key@) is None,
            },
            None => r is None,
        },
{
    match v {
        Some(v) => v.get(key),
        None => None,
    }
}

/// The string at `key`, if the member exists and is a string.
pub fn str_at<'a>(v: &'a JsonValue, key: &str) -> (r: Option<&'a String>)
    ensures
        match r {
            Some(s) => as_str(get(*v, key@)) == Some(s@),
            None => as_str(get(*v, key@)) is None,
        },
{
    match v.get(key) {
        Some(m) => m.as_str(),
        None => None,
    }
}

// ----- Rendering, by serde_json -----

/// The text `serde_json` writes for a value: compact, object members in key
/// order.
pub uninterp spec fn spec_json_text(v: JsonValue) -> Seq<char>;

/// Copies a model value back into a `serde_json::Value`, node for node; a
/// number is read back from its text (a text that is no number becomes
/// `null`).
#[verifier::external_body]
fn json_to_serde(v: &JsonValue) -> serde_json::Value {
    match v {
        JsonValue::Null => serde_json::Value::Null,
        JsonValue::Bool(b) => serde_json::Value::Bool(*b),
        JsonValue::Number(text, _) => text.parse::<serde_json::Number>().map_or(serde_json::Value::Null, serde_json::Value::Number),
        JsonValue::Str(s) => serde_json::Value::String(s.clone()),
        JsonValue::Array(items) => serde_json::Value::Array(items.iter().map(json_to_serde).collect()),
        JsonValue::Object(entries) => serde_json::Value::Object(
            entries.iter().map(|(k, v)| (k.clone(), json_to_serde(v))).collect(),
        ),
    }
}

/// `serde_json::Value::to_string`: the compact JSON text of a value. The
/// contract claims only that the text is a function of the value
/// (`spec_json_text`); how serde_json writes it is left to serde_json.
#[verifier::external_body]
pub(crate) fn to_json_string(v: &JsonValue) -> (r: String)
    ensures
        r@ == spec_json_text(*v),
{
    json_to_serde(v).to_string()
}

/// The text `serde_json::to_string` writes for an array of strings.
pub uninterp spec fn spec_strings_json(items: Seq<Seq<char>>) -> Seq<char>;

/// `serde_json::to_string` of a string vector, which cannot fail on
/// strings. The contract claims only that the text is a function of the
/// strings (`spec_strings_json`).
#[verifier::external_body]
pub(crate) fn strings_json(items: &Vec<String>) -> (r: String)
    ensures
        r@ == spec_strings_json(views(items@)),
{
    serde_json::to_string(items).unwrap_or_default()
}

} // verus!
