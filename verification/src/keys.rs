//! Keybinding hints for the picker's right-aligned column, rebuilt from the
//! user's herdr config.toml: `[keys]` overrides and `[[keys.command]]`
//! plugin bindings (user wins) over the defaults recorded in the catalog.
//!
//! Display-only: any parse failure degrades to "no hint".

use vstd::prelude::*;

use crate::toml_doc::{TomlValue, lookup, spec_parse_toml, parse_toml, table_view, lookup_in};

verus! {

/// A binding: the pairs recorded in order, a later pair for the same name
/// overriding an earlier one.
pub open spec fn binding_of(pairs: Seq<(Seq<char>, Seq<char>)>, name: Seq<char>) -> Option<Seq<char>>
    decreases pairs.len(),
{
    if pairs.len() == 0 {
        None
    } else if pairs.last().0 == name {
        Some(pairs.last().1)
    } else {
        binding_of(pairs.drop_last(), name)
    }
}

pub struct KeyHints {
    /// `[keys]` field name and its first binding ("" disables a default).
    overrides: Vec<(String, String)>,
    /// `[[keys.command]]` plugin_action target (qualified id) and its first key.
    commands: Vec<(String, String)>,
}

pub struct KeyHintsV {
    pub overrides: Seq<(Seq<char>, Seq<char>)>,
    pub commands: Seq<(Seq<char>, Seq<char>)>,
}

pub open spec fn pair_views(v: Seq<(String, String)>) -> Seq<(Seq<char>, Seq<char>)> {
    v.map_values(|p: (String, String)| (p.0@, p.1@))
}

impl View for KeyHints {
    type V = KeyHintsV;

    closed spec fn view(&self) -> KeyHintsV {
        KeyHintsV { overrides: pair_views(self.overrides@), commands: pair_views(self.commands@) }
    }
}

/// A binding value is a string or an array of strings; the hint shows the
/// first entry.
pub open spec fn first_binding(v: TomlValue) -> Option<Seq<char>> {
    match v {
        TomlValue::Str(s) => Some(s@),
        TomlValue::Array(items) => if items@.len() > 0 {
            match items@[0] {
                TomlValue::Str(s) => Some(s@),
                _ => None,
            }
        } else {
            None
        },
        _ => None,
    }
}

/// The `[keys]` overrides: every field but `command` whose value has a
/// first binding, in table order.
pub open spec fn override_pairs(fields: Seq<(String, TomlValue)>) -> Seq<(Seq<char>, Seq<char>)>
    decreases fields.len(),
{
    if fields.len() == 0 {
        Seq::empty()
    } else {
        let before = override_pairs(fields.drop_last());
        let (name, value) = fields.last();
        if name@ == "command"@ {
            before
        } else {
            match first_binding(value) {
                Some(b) => before.push((name@, b)),
                None => before,
            }
        }
    }
}

/// One `[[keys.command]]` entry: a table of type `plugin_action` with a
/// string `command` and a key.
pub open spec fn command_pair(entry: TomlValue) -> Option<(Seq<char>, Seq<char>)> {
    match entry {
        TomlValue::Table(t) => {
            let kind = lookup(t@, "type"@);
            let command = lookup(t@, "command"@);
            let key = lookup(t@, "key"@);
            if kind matches Some(TomlValue::Str(k)) && k@ == "plugin_action"@ {
                match (command, key) {
                    (Some(TomlValue::Str(c)), Some(key)) => match first_binding(key) {
                        Some(b) => Some((c@, b)),
                        None => None,
                    },
                    _ => None,
                }
            } else {
                None
            }
        },
        _ => None,
    }
}

pub open spec fn command_pairs(entries: Seq<TomlValue>) -> Seq<(Seq<char>, Seq<char>)>
    decreases entries.len(),
{
    if entries.len() == 0 {
        Seq::empty()
    } else {
        let before = command_pairs(entries.drop_last());
        match command_pair(entries.last()) {
            Some(p) => before.push(p),
            None => before,
        }
    }
}

/// The hints a herdr config text yields: none when it is not TOML or has no
/// `[keys]` table.
pub open spec fn hints_of(doc: Result<Seq<(String, TomlValue)>, Seq<char>>) -> KeyHintsV {
    match doc {
        Ok(root) => match lookup(root, "keys"@) {
            Some(TomlValue::Table(keys)) => KeyHintsV {
                overrides: override_pairs(keys@),
                commands: match lookup(keys@, "command"@) {
                    Some(TomlValue::Array(entries)) => command_pairs(entries@),
                    _ => Seq::empty(),
                },
            },
            _ => KeyHintsV { overrides: Seq::empty(), commands: Seq::empty() },
        },
        Err(_) => KeyHintsV { overrides: Seq::empty(), commands: Seq::empty() },
    }
}

/// The hint of a catalog row: the user's override of its `[keys]` field
/// when there is one (an empty override disables the default), else the
/// catalog default, else none.
pub open spec fn native_hint(h: KeyHintsV, keys_action: Option<Seq<char>>, default_key: Option<Seq<char>>) -> Seq<char> {
    match keys_action {
        Some(field) if binding_of(h.overrides, field) is Some => binding_of(h.overrides, field)->Some_0,
        _ => match default_key {
            Some(k) => k,
            None => Seq::empty(),
        },
    }
}

/// The hint of a plugin action row: its `[[keys.command]]` binding, if any.
pub open spec fn plugin_hint(h: KeyHintsV, qid: Seq<char>) -> Seq<char> {
    match binding_of(h.commands, qid) {
        Some(b) => b,
        None => Seq::empty(),
    }
}

fn first_binding_of(v: &TomlValue) -> (r: Option<String>)
    ensures
        r.deep_view() == first_binding(*v),
{
    match v {
        TomlValue::Str(s) => Some(s.clone()),
        TomlValue::Array(items) => if items.len() > 0 {
            match &items[0] {
                TomlValue::Str(s) => Some(s.clone()),
                _ => None,
            }
        } else {
            None
        },
        _ => None,
    }
}

fn find_binding(pairs: &Vec<(String, String)>, name: &str) -> (r: Option<String>)
    ensures
        r.deep_view() == binding_of(pair_views(pairs@), name@),
{
    let mut i = pairs.len();
    assert(pairs@.take(i as int) =~= pairs@);
    while i > 0
        invariant
            i <= pairs@.len(),
            binding_of(pair_views(pairs@), name@) == binding_of(pair_views(pairs@.take(i as int)), name@),
        decreases i,
    {
        let ghost cur = pair_views(pairs@.take(i as int));
        assert(cur.drop_last() =~= pair_views(pairs@.take(i - 1)));
        if crate::text::str_eq(pairs[i - 1].0.as_str(), name) {
            return Some(pairs[i - 1].1.clone());
        }
        i -= 1;
    }
    None
}

impl KeyHints {
    /// No hints at all.
    pub fn empty() -> (r: KeyHints)
        ensures
            r@.overrides.len() == 0,
            r@.commands.len() == 0,
    {
        let r = KeyHints { overrides: Vec::new(), commands: Vec::new() };
        assert(r@.overrides =~= Seq::<(Seq<char>, Seq<char>)>::empty());
        assert(r@.commands =~= Seq::<(Seq<char>, Seq<char>)>::empty());
        r
    }

    /// The hints of a herdr config text, as `hints_of` defines them.
    pub fn from_toml(text: &str) -> (r: KeyHints)
        ensures
            r@ == hints_of(spec_parse_toml(text@)),
    {
        Self::from_table(parse_toml(text))
    }

    /// The hints of a parsed herdr config, as `hints_of` defines them.
    pub fn from_table(table: Result<Vec<(String, TomlValue)>, String>) -> (r: KeyHints)
        ensures
            r@ == hints_of(table_view(table)),
    {
        let ghost tv = table_view(table);
        let root = match table {
            Ok(root) => root,
            Err(_) => {
                let r = KeyHints::empty();
                assert(r@.overrides =~= hints_of(tv).overrides);
                assert(r@.commands =~= hints_of(tv).commands);
                return r;
            },
        };
        let keys = match lookup_in(&root, "keys") {
            Some(TomlValue::Table(keys)) => keys,
            _ => {
                let r = KeyHints::empty();
                assert(r@.overrides =~= hints_of(tv).overrides);
                assert(r@.commands =~= hints_of(tv).commands);
                return r;
            },
        };
        let overrides = overrides_of(keys);
        let commands = match lookup_in(keys, "command") {
            Some(TomlValue::Array(entries)) => commands_of(entries),
            _ => Vec::new(),
        };
        let r = KeyHints { overrides, commands };
        assert(r@.overrides =~= hints_of(tv).overrides);
        assert(r@.commands =~= hints_of(tv).commands);
        r
    }


    /// The hint for a catalog row, as `native_hint` defines it.
    pub fn native(&self, keys_action: Option<&str>, default_key: Option<&str>) -> (r: String)
        ensures
            r@ == native_hint(
                self@,
                match keys_action {
                    Some(f) => Some(f@),
                    None => None,
                },
                match default_key {
                    Some(k) => Some(k@),
                    None => None,
                },
            ),
    {
        if let Some(field) = keys_action {
            if let Some(over) = find_binding(&self.overrides, field) {
                return over;
            }
        }
        match default_key {
            Some(k) => k.to_owned(),
            None => String::new(),
        }
    }

    /// The hint for a plugin action row, as `plugin_hint` defines it.
    pub fn plugin(&self, qid: &str) -> (r: String)
        ensures
            r@ == plugin_hint(self@, qid@),
    {
        match find_binding(&self.commands, qid) {
            Some(b) => b,
            None => String::new(),
        }
    }
}

fn overrides_of(keys: &Vec<(String, TomlValue)>) -> (r: Vec<(String, String)>)
    ensures
        pair_views(r@) == override_pairs(keys@),
{
    let mut overrides: Vec<(String, String)> = Vec::new();
    let mut i: usize = 0;
    while i < keys.len()
        invariant
            0 <= i <= keys@.len(),
            pair_views(overrides@) == override_pairs(keys@.take(i as int)),
        decreases keys@.len() - i,
    {
        assert(keys@.take(i + 1).drop_last() =~= keys@.take(i as int));
        let (name, value) = (&keys[i].0, &keys[i].1);
        if !crate::text::str_eq(name.as_str(), "command") {
            match first_binding_of(value) {
                Some(b) => {
                    overrides.push((name.clone(), b));
                },
                None => {},
            }
        }
        assert(pair_views(overrides@) =~= override_pairs(keys@.take(i + 1)));
        i += 1;
    }
    assert(keys@.take(keys@.len() as int) =~= keys@);
    overrides
}

fn commands_of(entries: &Vec<TomlValue>) -> (r: Vec<(String, String)>)
    ensures
        pair_views(r@) == command_pairs(entries@),
{
    let mut commands: Vec<(String, String)> = Vec::new();
    let mut j: usize = 0;
    while j < entries.len()
        invariant
            0 <= j <= entries@.len(),
            pair_views(commands@) == command_pairs(entries@.take(j as int)),
        decreases entries@.len() - j,
    {
        assert(entries@.take(j + 1).drop_last() =~= entries@.take(j as int));
        let pair = command_pair_of(&entries[j]);
        match pair {
            Some(p) => {
                commands.push(p);
            },
            None => {},
        }
        assert(pair_views(commands@) =~= command_pairs(entries@.take(j + 1)));
        j += 1;
    }
    assert(entries@.take(entries@.len() as int) =~= entries@);
    commands
}

fn command_pair_of(entry: &TomlValue) -> (r: Option<(String, String)>)
    ensures
        match r {
            Some(p) => command_pair(*entry) == Some((p.0@, p.1@)),
            None => command_pair(*entry) is None,
        },
{
    match entry {
        TomlValue::Table(t) => {
            let kind_ok = match lookup_in(t, "type") {
                Some(TomlValue::Str(k)) => crate::text::str_eq(k.as_str(), "plugin_action"),
                _ => false,
            };
            if !kind_ok {
                return None;
            }
            match (lookup_in(t, "command"), lookup_in(t, "key")) {
                (Some(TomlValue::Str(c)), Some(key)) => match first_binding_of(key) {
                    Some(b) => Some((c.clone(), b)),
                    None => None,
                },
                _ => None,
            }
        },
        _ => None,
    }
}

} // verus!
