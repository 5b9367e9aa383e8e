//! A plain-value model of TOML documents, as the `toml` crate parses them.
//!
//! `parse_toml` hands the text to `toml::Table`'s parser and copies the
//! result into a `TomlValue` tree, one node for one node. Floats keep only
//! their kind: nothing here reads their value.

use vstd::prelude::*;

verus! {

pub enum TomlValue {
    Str(String),
    Int(i64),
    Float,
    Bool(bool),
    /// A date-time, kept as the text the `toml` crate renders it to.
    Datetime(String),
    Array(Vec<TomlValue>),
    Table(Vec<(String, TomlValue)>),
}

#[verifier::external_type_specification]
#[verifier::external_body]
pub struct ExTomlValue(toml::Value);

/// Copies a `toml::Value` into the model, node for node.
#[verifier::external_body]
fn toml_from_value(value: toml::Value) -> TomlValue {
    match value {
        toml::Value::String(s) => TomlValue::Str(s),
        toml::Value::Integer(n) => TomlValue::Int(n),
        toml::Value::Float(_) => TomlValue::Float,
        toml::Value::Boolean(b) => TomlValue::Bool(b),
        toml::Value::Datetime(d) => TomlValue::Datetime(d.to_string()),
        toml::Value::Array(items) => TomlValue::Array(items.into_iter().map(toml_from_value).collect()),
        toml::Value::Table(t) => TomlValue::Table(
            t.into_iter().map(|(k, v)| (k, toml_from_value(v))).collect(),
        ),
    }
}

/// The result of parsing a text as a `toml::Table`: the root table, or the
/// parser's error message.
pub uninterp spec fn spec_parse_toml(text: Seq<char>) -> Result<Seq<(String, TomlValue)>, Seq<char>>;

/// The parser's outcome as a value: the root table's entries, or the
/// error's message.
pub open spec fn table_view(table: Result<Vec<(String, TomlValue)>, String>) -> Result<Seq<(String, TomlValue)>, Seq<char>> {
    match table {
        Ok(t) => Ok(t@),
        Err(e) => Err(e@),
    }
}

/// `text.parse::<toml::Table>()`: the root table's entries, or the parser's
/// error message. The contract claims only that the outcome is a function
/// of the text; what TOML the `toml` crate accepts is left to it.
#[verifier::external_body]
pub(crate) fn parse_toml(text: &str) -> (r: Result<Vec<(String, TomlValue)>, String>)
    ensures
        match r {
            Ok(t) => spec_parse_toml(text@) == Ok::<Seq<(String, TomlValue)>, Seq<char>>(t@),
            Err(e) => spec_parse_toml(text@) == Err::<Seq<(String, TomlValue)>, Seq<char>>(e@),
        },
{
    match text.parse::<toml::Table>() {
        Ok(table) => Ok(table.into_iter().map(|(k, v)| (k, toml_from_value(v))).collect()),
        Err(err) => Err(err.to_string()),
    }
}

/// The index of the first entry keyed `key`.
pub open spec fn key_index(entries: Seq<(String, TomlValue)>, key: Seq<char>) -> Option<int> {
    if exists|i: int| 0 <= i < entries.len() && entries[i].0@ == key {
        Some(
            choose|i: int|
                0 <= i < entries.len() && entries[i].0@ == key && forall|j: int|
                    0 <= j < i ==> entries[j].0@ != key,
        )
    } else {
        None
    }
}

/// The value keyed `key` in a table's entries.
pub open spec fn lookup(entries: Seq<(String, TomlValue)>, key: Seq<char>) -> Option<TomlValue> {
    match key_index(entries, key) {
        Some(i) => Some(entries[i].1),
        None => None,
    }
}

/// `Value::get(key)`: a table's member; `None` for anything but a table.
pub open spec fn get(v: TomlValue, key: Seq<char>) -> Option<TomlValue> {
    match v {
        TomlValue::Table(entries) => lookup(entries@, key),
        _ => None,
    }
}

/// `Value::as_str`: the string, if the value is a string (a date-time is not).
pub open spec fn as_str(v: Option<TomlValue>) -> Option<Seq<char>> {
    match v {
        Some(TomlValue::Str(s)) => Some(s@),
        _ => None,
    }
}

/// Finds `key` among a table's entries.
pub fn lookup_in<'a>(entries: &'a Vec<(String, TomlValue)>, key: &str) -> (r: Option<&'a TomlValue>)
    ensures
        match r {
            Some(v) => lookup(entries@, key@) == Some(*v),
            None => lookup(entries@, key@) is None,
        },
{
    let mut i: usize = 0;
    while i < entries.len()
        invariant
            0 <= i <= entries@.len(),
            forall|j: int| 0 <= j < i ==> entries@[j].0@ != key@,
        decreases entries@.len() - i,
    {
        if crate::text::str_eq(entries[i].0.as_str(), key) {
            let ghost k = i as int;
            let ghost w = choose|w: int|
                0 <= w < entries@.len() && entries@[w].0@ == key@ && forall|j: int|
                    0 <= j < w ==> entries@[j].0@ != key@;
            assert(entries@[k].0@ == key@);
            assert(w == k) by {
                if w < k {
                } else if w > k {
                }
            }
            return Some(&entries[i].1);
        }
        i += 1;
    }
    None
}

impl TomlValue {
    /// The member `key`, as `get` defines it.
    pub fn get(&self, key: &str) -> (r: Option<&TomlValue>)
        ensures
            match r {
                Some(m) => get(*self, key@) == Some(*m),
                None => get(*self, key@) is None,
            },
    {
        match self {
            TomlValue::Table(entries) => lookup_in(entries, key),
            _ => None,
        }
    }
}

/// The string held by an optional value, as `as_str` defines it.
pub fn str_of<'a>(v: Option<&'a TomlValue>) -> (r: Option<&'a String>)
    ensures
        match v {
            Some(v) => match r {
                Some(s) => as_str(Some(*v)) == Some(s@),
                None => as_str(Some(*v)) is None,
            },
            None => r is None,
        },
{
    match v {
        Some(TomlValue::Str(s)) => Some(s),
        _ => None,
    }
}

} // verus!
