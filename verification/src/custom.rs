//! The user's own palette entries, read from
//! `$HERDR_PLUGIN_CONFIG_DIR/config.toml`: `[[command]]` tables run a program
//! in a pane of its own, `[[prompt]]` tables (see `prompt.rs`) drop a text
//! into an agent's input box.
//!
//! Strictly additive: these rows are appended to the picker, never replace or
//! hide a catalog command or a plugin action. Nothing here is fatal: a broken
//! entry is skipped and named in a single warning line for the picker
//! header, while every valid entry keeps working. Unknown keys are ignored.

use vstd::prelude::*;

use crate::paths::{is_absolute, path_is_absolute, path_is_dir};
use crate::prompt::{UserPrompt, UserPromptV, prompt_entry};
use crate::text::{chars_of, decimal, digit_char, first_line, index_of, is_control, char_is_control, join, push_char, push_decimal};
use crate::toml_doc::{TomlValue, get, key_index, lookup, as_str, spec_parse_toml, parse_toml, table_view, lookup_in, str_of};

verus! {

/// Where a user command runs; passed verbatim to
/// `plugin pane open --placement`.
#[derive(Debug, Clone, Copy, PartialEq, Eq, Structural)]
pub enum Placement {
    Split,
    Tab,
    Zoomed,
}

/// The placement's name in the config file and on herdr's command line.
pub open spec fn placement_name(p: Placement) -> Seq<char> {
    match p {
        Placement::Split => "split"@,
        Placement::Tab => "tab"@,
        Placement::Zoomed => "zoomed"@,
    }
}

/// The placement a name denotes.
pub open spec fn placement_named(text: Seq<char>) -> Option<Placement> {
    if text == "split"@ {
        Some(Placement::Split)
    } else if text == "tab"@ {
        Some(Placement::Tab)
    } else if text == "zoomed"@ {
        Some(Placement::Zoomed)
    } else {
        None
    }
}

/// A placement's name reads back as that placement, and no two placements
/// share a name: `split`, `tab` and `zoomed` are the three names.
pub proof fn lemma_placement_names(p: Placement, q: Placement)
    ensures
        placement_named(placement_name(p)) == Some(p),
        placement_name(p) == placement_name(q) ==> p == q,
        placement_named("split"@) == Some(Placement::Split),
        placement_named("tab"@) == Some(Placement::Tab),
        placement_named("zoomed"@) == Some(Placement::Zoomed),
{
    reveal_strlit("split");
    reveal_strlit("tab");
    reveal_strlit("zoomed");
    assert("split"@ != "tab"@ && "split"@ != "zoomed"@ && "tab"@ != "zoomed"@) by {
        assert("split"@.len() != "tab"@.len());
        assert("split"@[0] != "zoomed"@[0]);
        assert("tab"@.len() != "zoomed"@.len());
    }
}

impl Placement {
    pub fn as_str(self) -> (r: &'static str)
        ensures
            r@ == placement_name(self),
    {
        match self {
            Placement::Split => "split",
            Placement::Tab => "tab",
            Placement::Zoomed => "zoomed",
        }
    }

    pub fn parse(text: &str) -> (r: Option<Placement>)
        ensures
            r == placement_named(text@),
    {
        if crate::text::str_eq(text, "split") {
            Some(Placement::Split)
        } else if crate::text::str_eq(text, "tab") {
            Some(Placement::Tab)
        } else if crate::text::str_eq(text, "zoomed") {
            Some(Placement::Zoomed)
        } else {
            None
        }
    }
}

/// The single free-text argument an entry may ask for. Its value is appended
/// to `argv` as exactly one element.
#[derive(Debug)]
pub struct InputSpec {
    pub prompt: String,
    pub required: bool,
}

pub struct InputSpecV {
    pub prompt: Seq<char>,
    pub required: bool,
}

impl View for InputSpec {
    type V = InputSpecV;

    open spec fn view(&self) -> InputSpecV {
        InputSpecV { prompt: self.prompt@, required: self.required }
    }
}

#[derive(Debug)]
pub struct UserCommand {
    pub id: String,
    pub title: String,
    pub argv: Vec<String>,
    pub placement: Placement,
    /// Keep the pane open after a successful run. A failing run always holds.
    pub hold: bool,
    pub cwd: Option<String>,
    pub input: Option<InputSpec>,
}

pub struct UserCommandV {
    pub id: Seq<char>,
    pub title: Seq<char>,
    pub argv: Seq<Seq<char>>,
    pub placement: Placement,
    pub hold: bool,
    pub cwd: Option<Seq<char>>,
    pub input: Option<InputSpecV>,
}

pub open spec fn input_view(i: Option<InputSpec>) -> Option<InputSpecV> {
    match i {
        Some(i) => Some(i@),
        None => None,
    }
}

impl View for UserCommand {
    type V = UserCommandV;

    open spec fn view(&self) -> UserCommandV {
        UserCommandV {
            id: self.id@,
            title: self.title@,
            argv: self.argv.deep_view(),
            placement: self.placement,
            hold: self.hold,
            cwd: self.cwd.deep_view(),
            input: input_view(self.input),
        }
    }
}

/// Everything read from the user's file.
pub struct UserCatalog {
    pub commands: Vec<UserCommand>,
    pub prompts: Vec<UserPrompt>,
    /// Empty means nothing to report; otherwise a single line for the
    /// picker header, which takes precedence over the protocol warning.
    pub warning: String,
}

#[verifier::ext_equal]
pub struct UserCatalogV {
    pub commands: Seq<UserCommandV>,
    pub prompts: Seq<UserPromptV>,
    pub warning: Seq<char>,
}

impl View for UserCatalog {
    type V = UserCatalogV;

    open spec fn view(&self) -> UserCatalogV {
        UserCatalogV {
            commands: self.commands@.map_values(|c: UserCommand| c@),
            prompts: self.prompts@.map_values(|p: UserPrompt| p@),
            warning: self.warning@,
        }
    }
}

impl UserCatalog {
    /// No entries and nothing to report: what a missing file reads as.
    pub fn empty() -> (r: UserCatalog)
        ensures
            r@.commands.len() == 0,
            r@.prompts.len() == 0,
            r@.warning.len() == 0,
    {
        UserCatalog { commands: Vec::new(), prompts: Vec::new(), warning: String::new() }
    }
}

// ----- Field decoding, with serde's rules for a `toml::Value` -----
//
// An entry is decoded into optional fields the way serde decodes a struct
// from a `toml::Value`: from a table, each known key by its type and the
// others ignored; from an array, one element per field in declaration
// order; from anything else, not at all. A string field also accepts a
// date-time, as its text.

/// A string field's value.
pub open spec fn dec_string(v: TomlValue) -> Option<Seq<char>> {
    match v {
        TomlValue::Str(s) => Some(s@),
        TomlValue::Datetime(s) => Some(s@),
        _ => None,
    }
}

pub open spec fn dec_bool(v: TomlValue) -> Option<bool> {
    match v {
        TomlValue::Bool(b) => Some(b),
        _ => None,
    }
}

/// An unsigned integer field: a TOML integer that is not negative.
pub open spec fn dec_u64(v: TomlValue) -> Option<u64> {
    match v {
        TomlValue::Int(n) => if n >= 0 {
            Some(n as u64)
        } else {
            None
        },
        _ => None,
    }
}

/// A string array field: an array whose elements all decode as strings.
pub open spec fn dec_strings(v: TomlValue) -> Option<Seq<Seq<char>>> {
    match v {
        TomlValue::Array(items) => if forall|i: int|
            0 <= i < items@.len() ==> #[trigger] dec_string(items@[i]) is Some {
            Some(Seq::new(items@.len(), |i: int| dec_string(items@[i])->Some_0))
        } else {
            None
        },
        _ => None,
    }
}

/// An optional field: absent decodes to `Some(None)`, present to
/// `Some(Some(value))`, a value of the wrong type to `None`.
pub open spec fn opt_string(o: Option<TomlValue>) -> Option<Option<Seq<char>>> {
    match o {
        None => Some(None),
        Some(v) => match dec_string(v) {
            Some(s) => Some(Some(s)),
            None => None,
        },
    }
}

pub open spec fn opt_bool(o: Option<TomlValue>) -> Option<Option<bool>> {
    match o {
        None => Some(None),
        Some(v) => match dec_bool(v) {
            Some(b) => Some(Some(b)),
            None => None,
        },
    }
}

pub open spec fn opt_u64(o: Option<TomlValue>) -> Option<Option<u64>> {
    match o {
        None => Some(None),
        Some(v) => match dec_u64(v) {
            Some(n) => Some(Some(n)),
            None => None,
        },
    }
}

pub open spec fn opt_strings(o: Option<TomlValue>) -> Option<Option<Seq<Seq<char>>>> {
    match o {
        None => Some(None),
        Some(v) => match dec_strings(v) {
            Some(s) => Some(Some(s)),
            None => None,
        },
    }
}

/// The field at position `i` of an entry: a table member by name, or an
/// array element by position.
pub open spec fn field(v: TomlValue, i: int, name: Seq<char>) -> Option<TomlValue> {
    match v {
        TomlValue::Table(entries) => lookup(entries@, name),
        TomlValue::Array(items) => if 0 <= i < items@.len() {
            Some(items@[i])
        } else {
            None
        },
        _ => None,
    }
}

/// The shape a struct of `n` fields decodes from: any table, or an array of
/// exactly `n` elements.
pub open spec fn struct_shape(v: TomlValue, n: int) -> bool {
    match v {
        TomlValue::Table(_) => true,
        TomlValue::Array(items) => items@.len() == n,
        _ => false,
    }
}

/// `input = { prompt = ..., required = ... }` as written.
pub struct RawInputV {
    pub prompt: Option<Seq<char>>,
    pub required: bool,
}

/// The input table: a table, or an array of one or two elements (`required`
/// defaults to false when absent).
pub open spec fn dec_input(v: TomlValue) -> Option<RawInputV> {
    let shape_ok = match v {
        TomlValue::Table(_) => true,
        TomlValue::Array(items) => items@.len() == 1 || items@.len() == 2,
        _ => false,
    };
    let prompt = opt_string(field(v, 0, "prompt"@));
    let required = opt_bool(field(v, 1, "required"@));
    if shape_ok && prompt is Some && required is Some {
        Some(
            RawInputV {
                prompt: prompt->Some_0,
                required: match required->Some_0 {
                    Some(b) => b,
                    None => false,
                },
            },
        )
    } else {
        None
    }
}

pub open spec fn opt_input(o: Option<TomlValue>) -> Option<Option<RawInputV>> {
    match o {
        None => Some(None),
        Some(v) => match dec_input(v) {
            Some(i) => Some(Some(i)),
            None => None,
        },
    }
}

/// A `[[command]]` entry's fields as written, before validation.
pub struct RawCommandV {
    pub id: Option<Seq<char>>,
    pub title: Option<Seq<char>>,
    pub argv: Option<Seq<Seq<char>>>,
    pub placement: Option<Seq<char>>,
    pub hold: Option<bool>,
    pub cwd: Option<Seq<char>>,
    pub input: Option<RawInputV>,
}

/// Decodes a `[[command]]` entry; `None` when a field has the wrong type or
/// the entry has the wrong shape.
pub open spec fn dec_raw_command(v: TomlValue) -> Option<RawCommandV> {
    let id = opt_string(field(v, 0, "id"@));
    let title = opt_string(field(v, 1, "title"@));
    let argv = opt_strings(field(v, 2, "argv"@));
    let placement = opt_string(field(v, 3, "placement"@));
    let hold = opt_bool(field(v, 4, "hold"@));
    let cwd = opt_string(field(v, 5, "cwd"@));
    let input = opt_input(field(v, 6, "input"@));
    if struct_shape(v, 7) && id is Some && title is Some && argv is Some && placement is Some
        && hold is Some && cwd is Some && input is Some {
        Some(
            RawCommandV {
                id: id->Some_0,
                title: title->Some_0,
                argv: argv->Some_0,
                placement: placement->Some_0,
                hold: hold->Some_0,
                cwd: cwd->Some_0,
                input: input->Some_0,
            },
        )
    } else {
        None
    }
}

// ----- Validation -----

/// The id shape catalog ids are held to: lowercase ASCII letters, digits,
/// `.`, `-` and `_`.
pub open spec fn id_char(c: char) -> bool {
    ('a' <= c && c <= 'z') || ('0' <= c && c <= '9') || c == '.' || c == '-' || c == '_'
}

pub open spec fn valid_id(id: Seq<char>) -> bool {
    forall|i: int| 0 <= i < id.len() ==> #[trigger] id_char(id[i])
}

pub open spec fn or_empty(s: Option<Seq<char>>) -> Seq<char> {
    match s {
        Some(s) => s,
        None => Seq::empty(),
    }
}

/// A non-empty id of the allowed shape.
pub open spec fn check_id(id: Option<Seq<char>>) -> Result<Seq<char>, Seq<char>> {
    let id = or_empty(id);
    if id.len() == 0 {
        Err("missing id"@)
    } else if !valid_id(id) {
        Err("invalid id"@)
    } else {
        Ok(id)
    }
}

/// Characters that would split a row: tab, newline, carriage return, NUL.
pub open spec fn breaks_row(c: char) -> bool {
    c == '\t' || c == '\n' || c == '\r' || c == '\0'
}

/// A non-empty title on one line.
pub open spec fn check_title(title: Option<Seq<char>>) -> Result<Seq<char>, Seq<char>> {
    let title = or_empty(title);
    if title.len() == 0 {
        Err("missing title"@)
    } else if exists|i: int| 0 <= i < title.len() && #[trigger] breaks_row(title[i]) {
        Err("title spans lines"@)
    } else {
        Ok(title)
    }
}

/// A working directory: none when absent or empty; otherwise an absolute
/// path that `is_dir` reports as a directory.
pub open spec fn check_cwd(cwd: Option<Seq<char>>, is_dir: bool) -> Result<Option<Seq<char>>, Seq<char>> {
    let cwd = or_empty(cwd);
    if cwd.len() == 0 {
        Ok(None)
    } else if !is_absolute(cwd) {
        Err("cwd is not absolute"@)
    } else if !is_dir {
        Err("cwd is not a directory"@)
    } else {
        Ok(Some(cwd))
    }
}

/// A `[[command]]` entry, validated against the ids accepted before it;
/// `is_dir` is what the filesystem said of its `cwd`. The error is the
/// reason it is skipped.
#[verifier::opaque]
pub open spec fn command_entry(v: TomlValue, accepted: Seq<Seq<char>>, is_dir: bool) -> Result<UserCommandV, Seq<char>> {
    match dec_raw_command(v) {
        None => Err("invalid field types"@),
        Some(raw) => match check_id(raw.id) {
            Err(reason) => Err(reason),
            Ok(id) => if accepted.contains(id) {
                Err("duplicate id"@)
            } else {
                match check_title(raw.title) {
                    Err(reason) => Err(reason),
                    Ok(title) => {
                        let argv = match raw.argv {
                            Some(a) => a,
                            None => Seq::empty(),
                        };
                        if argv.len() == 0 || argv[0].len() == 0 {
                            Err("missing argv"@)
                        } else {
                            let placement = match raw.placement {
                                None => Some(Placement::Split),
                                Some(text) => placement_named(text),
                            };
                            match placement {
                                None => Err("unknown placement"@),
                                Some(placement) => match check_cwd(raw.cwd, is_dir) {
                                    Err(reason) => Err(reason),
                                    Ok(cwd) => match raw.input {
                                        Some(input) if or_empty(input.prompt).len() == 0 => Err(
                                            "input without prompt"@,
                                        ),
                                        _ => Ok(
                                            UserCommandV {
                                                id,
                                                title,
                                                argv,
                                                placement,
                                                hold: match raw.hold {
                                                    Some(b) => b,
                                                    None => false,
                                                },
                                                cwd,
                                                input: match raw.input {
                                                    Some(input) => Some(
                                                        InputSpecV {
                                                            prompt: or_empty(input.prompt),
                                                            required: input.required,
                                                        },
                                                    ),
                                                    None => None,
                                                },
                                            },
                                        ),
                                    },
                                },
                            }
                        }
                    },
                }
            },
        },
    }
}

// ----- Exec decoding -----

pub(crate) fn string_value(v: &TomlValue) -> (r: Option<String>)
    ensures
        r.deep_view() == dec_string(*v),
{
    match v {
        TomlValue::Str(s) => Some(s.clone()),
        TomlValue::Datetime(s) => Some(s.clone()),
        _ => None,
    }
}

pub(crate) fn opt_string_value(o: Option<&TomlValue>) -> (r: Option<Option<String>>)
    ensures
        r.deep_view() == opt_string(
            match o {
                Some(v) => Some(*v),
                None => None,
            },
        ),
{
    match o {
        None => Some(None),
        Some(v) => match string_value(v) {
            Some(s) => Some(Some(s)),
            None => None,
        },
    }
}

pub(crate) fn opt_bool_value(o: Option<&TomlValue>) -> (r: Option<Option<bool>>)
    ensures
        r == opt_bool(
            match o {
                Some(v) => Some(*v),
                None => None,
            },
        ),
{
    match o {
        None => Some(None),
        Some(TomlValue::Bool(b)) => Some(Some(*b)),
        Some(_) => None,
    }
}

pub(crate) fn opt_u64_value(o: Option<&TomlValue>) -> (r: Option<Option<u64>>)
    ensures
        r == opt_u64(
            match o {
                Some(v) => Some(*v),
                None => None,
            },
        ),
{
    match o {
        None => Some(None),
        Some(TomlValue::Int(n)) => if *n >= 0 {
            Some(Some(*n as u64))
        } else {
            None
        },
        Some(_) => None,
    }
}

pub(crate) fn opt_strings_value(o: Option<&TomlValue>) -> (r: Option<Option<Vec<String>>>)
    ensures
        r.deep_view() == opt_strings(field_view(o)),
{
    match o {
        None => Some(None),
        Some(TomlValue::Array(items)) => {
            let mut out: Vec<String> = Vec::new();
            let mut i: usize = 0;
            while i < items.len()
                invariant
                    0 <= i <= items@.len(),
                    field_view(o) == Some(TomlValue::Array(*items)),
                    out@.len() == i,
                    forall|j: int| 0 <= j < i ==> #[trigger] dec_string(items@[j]) == Some(out@[j]@),
                decreases items@.len() - i,
            {
                match string_value(&items[i]) {
                    Some(s) => out.push(s),
                    None => {
                        assert(dec_string(items@[i as int]) is None);
                        return None;
                    },
                }
                i += 1;
            }
            assert(out.deep_view() =~= Seq::new(
                items@.len(),
                |i: int| dec_string(items@[i])->Some_0,
            ));
            Some(Some(out))
        },
        Some(_) => None,
    }
}

/// The field at position `i` of an entry, as `field` defines it.
pub(crate) fn field_of<'a>(v: &'a TomlValue, i: usize, name: &str) -> (r: Option<&'a TomlValue>)
    ensures
        match r {
            Some(f) => field(*v, i as int, name@) == Some(*f),
            None => field(*v, i as int, name@) is None,
        },
{
    match v {
        TomlValue::Table(entries) => lookup_in(entries, name),
        TomlValue::Array(items) => if i < items.len() {
            Some(&items[i])
        } else {
            None
        },
        _ => None,
    }
}

pub(crate) fn struct_shape_of(v: &TomlValue, n: usize) -> (r: bool)
    ensures
        r == struct_shape(*v, n as int),
{
    match v {
        TomlValue::Table(_) => true,
        TomlValue::Array(items) => items.len() == n,
        _ => false,
    }
}

pub open spec fn field_view(o: Option<&TomlValue>) -> Option<TomlValue> {
    match o {
        Some(v) => Some(*v),
        None => None,
    }
}

struct RawInput {
    prompt: Option<String>,
    required: bool,
}

fn input_value(v: &TomlValue) -> (r: Option<RawInput>)
    ensures
        match r {
            Some(i) => dec_input(*v) == Some(RawInputV { prompt: i.prompt.deep_view(), required: i.required }),
            None => dec_input(*v) is None,
        },
{
    let shape_ok = match v {
        TomlValue::Table(_) => true,
        TomlValue::Array(items) => items.len() == 1 || items.len() == 2,
        _ => false,
    };
    let prompt = opt_string_value(field_of(v, 0, "prompt"));
    let required = opt_bool_value(field_of(v, 1, "required"));
    if !shape_ok {
        return None;
    }
    match (prompt, required) {
        (Some(prompt), Some(required)) => Some(
            RawInput {
                prompt,
                required: match required {
                    Some(b) => b,
                    None => false,
                },
            },
        ),
        _ => None,
    }
}

struct RawCommand {
    id: Option<String>,
    title: Option<String>,
    argv: Option<Vec<String>>,
    placement: Option<String>,
    hold: Option<bool>,
    cwd: Option<String>,
    input: Option<RawInput>,
}

spec fn raw_input_view(i: Option<RawInput>) -> Option<RawInputV> {
    match i {
        Some(i) => Some(RawInputV { prompt: i.prompt.deep_view(), required: i.required }),
        None => None,
    }
}

spec fn raw_command_view(r: RawCommand) -> RawCommandV {
    RawCommandV {
        id: r.id.deep_view(),
        title: r.title.deep_view(),
        argv: r.argv.deep_view(),
        placement: r.placement.deep_view(),
        hold: r.hold,
        cwd: r.cwd.deep_view(),
        input: raw_input_view(r.input),
    }
}

fn raw_command(v: &TomlValue) -> (r: Option<RawCommand>)
    ensures
        match r {
            Some(raw) => dec_raw_command(*v) == Some(raw_command_view(raw)),
            None => dec_raw_command(*v) is None,
        },
{
    let id = opt_string_value(field_of(v, 0, "id"));
    let title = opt_string_value(field_of(v, 1, "title"));
    let argv = opt_strings_value(field_of(v, 2, "argv"));
    let placement = opt_string_value(field_of(v, 3, "placement"));
    let hold = opt_bool_value(field_of(v, 4, "hold"));
    let cwd = opt_string_value(field_of(v, 5, "cwd"));
    let input_field = field_of(v, 6, "input");
    let input: Option<Option<RawInput>> = match input_field {
        None => Some(None),
        Some(f) => match input_value(f) {
            Some(i) => Some(Some(i)),
            None => None,
        },
    };
    if !struct_shape_of(v, 7) {
        return None;
    }
    match (id, title, argv, placement, hold, cwd, input) {
        (Some(id), Some(title), Some(argv), Some(placement), Some(hold), Some(cwd), Some(input)) => {
            Some(RawCommand { id, title, argv, placement, hold, cwd, input })
        },
        _ => None,
    }
}

// ----- Exec validation -----

pub(crate) fn is_id_char(c: char) -> (r: bool)
    ensures
        r == id_char(c),
{
    ('a' <= c && c <= 'z') || ('0' <= c && c <= '9') || c == '.' || c == '-' || c == '_'
}

fn all_id_chars(chars: &Vec<char>) -> (r: bool)
    ensures
        r == valid_id(chars@),
{
    let mut i: usize = 0;
    while i < chars.len()
        invariant
            0 <= i <= chars@.len(),
            forall|j: int| 0 <= j < i ==> #[trigger] id_char(chars@[j]),
        decreases chars@.len() - i,
    {
        if !is_id_char(chars[i]) {
            assert(!id_char(chars@[i as int]));
            return false;
        }
        i += 1;
    }
    true
}

/// Checks an id as `check_id` defines it.
pub fn validate_id(id: Option<String>) -> (r: Result<String, &'static str>)
    ensures
        match r {
            Ok(s) => check_id(id.deep_view()) == Ok::<Seq<char>, Seq<char>>(s@),
            Err(e) => check_id(id.deep_view()) == Err::<Seq<char>, Seq<char>>(e@),
        },
{
    let ghost given = id.deep_view();
    let id = match id {
        Some(s) => s,
        None => String::new(),
    };
    assert(or_empty(given) == id@);
    let chars = chars_of(id.as_str());
    if chars.len() == 0 {
        return Err("missing id");
    }
    if !all_id_chars(&chars) {
        return Err("invalid id");
    }
    Ok(id)
}

pub(crate) fn breaks_row_char(c: char) -> (r: bool)
    ensures
        r == breaks_row(c),
{
    c == '\t' || c == '\n' || c == '\r' || c == '\0'
}

fn any_row_break(chars: &Vec<char>) -> (r: bool)
    ensures
        r == exists|i: int| 0 <= i < chars@.len() && #[trigger] breaks_row(chars@[i]),
{
    let mut i: usize = 0;
    while i < chars.len()
        invariant
            0 <= i <= chars@.len(),
            forall|j: int| 0 <= j < i ==> !#[trigger] breaks_row(chars@[j]),
        decreases chars@.len() - i,
    {
        if breaks_row_char(chars[i]) {
            assert(breaks_row(chars@[i as int]));
            return true;
        }
        i += 1;
    }
    false
}

/// Checks a title as `check_title` defines it.
pub fn validate_title(title: Option<String>) -> (r: Result<String, &'static str>)
    ensures
        match r {
            Ok(s) => check_title(title.deep_view()) == Ok::<Seq<char>, Seq<char>>(s@),
            Err(e) => check_title(title.deep_view()) == Err::<Seq<char>, Seq<char>>(e@),
        },
{
    let ghost given = title.deep_view();
    let title = match title {
        Some(s) => s,
        None => String::new(),
    };
    assert(or_empty(given) == title@);
    let chars = chars_of(title.as_str());
    if chars.len() == 0 {
        return Err("missing title");
    }
    if any_row_break(&chars) {
        return Err("title spans lines");
    }
    Ok(title)
}

/// Checks a working directory as `check_cwd` defines it, asking the
/// filesystem whether an absolute path names a directory; the result holds
/// for the answer it gave.
pub fn validate_cwd(cwd: Option<String>) -> (r: Result<Option<String>, &'static str>)
    ensures
        exists|is_dir: bool|
            #![trigger check_cwd(cwd.deep_view(), is_dir)]
            match r {
                Ok(c) => check_cwd(cwd.deep_view(), is_dir) == Ok::<Option<Seq<char>>, Seq<char>>(
                    c.deep_view(),
                ),
                Err(e) => check_cwd(cwd.deep_view(), is_dir) == Err::<Option<Seq<char>>, Seq<char>>(
                    e@,
                ),
            },
{
    let ghost given = cwd.deep_view();
    let path = match cwd {
        Some(s) => s,
        None => String::new(),
    };
    assert(or_empty(given) == path@);
    if path.as_str().is_empty() {
        assert(check_cwd(given, true) == Ok::<Option<Seq<char>>, Seq<char>>(None));
        return Ok(None);
    }
    if !path_is_absolute(path.as_str()) {
        assert(check_cwd(given, true) == Err::<Option<Seq<char>>, Seq<char>>("cwd is not absolute"@));
        return Err("cwd is not absolute");
    }
    if !path_is_dir(path.as_str()) {
        assert(check_cwd(given, false) == Err::<Option<Seq<char>>, Seq<char>>("cwd is not a directory"@));
        return Err("cwd is not a directory");
    }
    assert(check_cwd(given, true) == Ok::<Option<Seq<char>>, Seq<char>>(Some(path@)));
    Ok(Some(path))
}


/// Validates one `[[command]]` entry against the commands accepted before
/// it, as `command_entry` defines it; the result holds for the answer the
/// filesystem gave about its `cwd`.
pub fn parse_entry(entry: &TomlValue, accepted: &Vec<UserCommand>) -> (r: Result<UserCommand, &'static str>)
    ensures
        exists|is_dir: bool|
            #![trigger command_entry(*entry, command_ids(accepted@), is_dir)]
            match r {
                Ok(c) => command_entry(*entry, command_ids(accepted@), is_dir)
                    == Ok::<UserCommandV, Seq<char>>(c@),
                Err(e) => command_entry(*entry, command_ids(accepted@), is_dir)
                    == Err::<UserCommandV, Seq<char>>(e@),
            },
{
    reveal(command_entry);
    let ghost ids = command_ids(accepted@);
    let raw = match raw_command(entry) {
        Some(raw) => raw,
        None => {
            assert(command_entry(*entry, ids, true) == Err::<UserCommandV, Seq<char>>("invalid field types"@));
            return Err("invalid field types");
        },
    };
    let ghost rv = raw_command_view(raw);
    let id = match validate_id(raw.id) {
        Ok(id) => id,
        Err(e) => {
            assert(command_entry(*entry, ids, true) == Err::<UserCommandV, Seq<char>>(e@));
            return Err(e);
        },
    };
    if command_id_taken(accepted, id.as_str()) {
        assert(command_entry(*entry, ids, true) == Err::<UserCommandV, Seq<char>>("duplicate id"@));
        return Err("duplicate id");
    }
    let title = match validate_title(raw.title) {
        Ok(t) => t,
        Err(e) => {
            assert(command_entry(*entry, ids, true) == Err::<UserCommandV, Seq<char>>(e@));
            return Err(e);
        },
    };
    let argv = match raw.argv {
        Some(a) => a,
        None => Vec::new(),
    };
    assert(argv.deep_view() == match rv.argv {
        Some(a) => a,
        None => Seq::<Seq<char>>::empty(),
    });
    if argv.len() == 0 || argv[0].as_str().is_empty() {
        assert(command_entry(*entry, ids, true) == Err::<UserCommandV, Seq<char>>("missing argv"@));
        return Err("missing argv");
    }
    let placement = match raw.placement {
        None => Placement::Split,
        Some(text) => match Placement::parse(text.as_str()) {
            Some(p) => p,
            None => {
                assert(command_entry(*entry, ids, true) == Err::<UserCommandV, Seq<char>>("unknown placement"@));
                return Err("unknown placement");
            },
        },
    };
    let cwd_result = validate_cwd(raw.cwd);
    let ghost d = choose|is_dir: bool|
        #![trigger check_cwd(rv.cwd, is_dir)]
        match cwd_result {
            Ok(c) => check_cwd(rv.cwd, is_dir) == Ok::<Option<Seq<char>>, Seq<char>>(c.deep_view()),
            Err(e) => check_cwd(rv.cwd, is_dir) == Err::<Option<Seq<char>>, Seq<char>>(e@),
        };
    let cwd = match cwd_result {
        Err(e) => {
            assert(command_entry(*entry, ids, d) == Err::<UserCommandV, Seq<char>>(e@));
            return Err(e);
        },
        Ok(cwd) => cwd,
    };
    let input = match raw.input {
        None => None,
        Some(input) => {
            let prompt = match input.prompt {
                Some(p) => p,
                None => String::new(),
            };
            if prompt.as_str().is_empty() {
                assert(command_entry(*entry, ids, d) == Err::<UserCommandV, Seq<char>>("input without prompt"@));
                return Err("input without prompt");
            }
            Some(InputSpec { prompt, required: input.required })
        },
    };
    let hold = match raw.hold {
        Some(b) => b,
        None => false,
    };
    let c = UserCommand { id, title, argv, placement, hold, cwd, input };
    assert(command_entry(*entry, ids, d) == Ok::<UserCommandV, Seq<char>>(c@));
    Ok(c)
}

/// Whether a command among `accepted` already has `id`.
pub fn command_id_taken(accepted: &Vec<UserCommand>, id: &str) -> (r: bool)
    ensures
        r == command_ids(accepted@).contains(id@),
{
    let ghost ids = command_ids(accepted@);
    let mut k: usize = 0;
    while k < accepted.len()
        invariant
            0 <= k <= accepted@.len(),
            ids == command_ids(accepted@),
            forall|j: int| 0 <= j < k ==> ids[j] != id@,
        decreases accepted@.len() - k,
    {
        if crate::text::str_eq(accepted[k].id.as_str(), id) {
            assert(ids[k as int] == id@);
            return true;
        }
        k += 1;
    }
    false
}

/// The ids of a list of commands.
pub open spec fn command_ids(commands: Seq<UserCommand>) -> Seq<Seq<char>> {
    commands.map_values(|c: UserCommand| c.id@)
}

// ----- Naming skipped entries, and the warning line -----

/// A raw id made safe to name in the single-line warning: at most 32
/// characters, control characters shown as `?`, and `...` when cut.
pub open spec fn display_name(raw: Seq<char>) -> Seq<char> {
    let kept = if raw.len() > 32 {
        raw.take(32)
    } else {
        raw
    };
    let cleaned = kept.map_values(|c: char| if is_control(c) { '?' } else { c });
    if raw.len() > 32 {
        cleaned + "..."@
    } else {
        cleaned
    }
}

/// Shortens and cleans a raw id, as `display_name` defines it.
pub fn display_name_of(raw: &str) -> (r: String)
    ensures
        r@ == display_name(raw@),
{
    let chars = chars_of(raw);
    let n: usize = if chars.len() > 32 {
        32
    } else {
        chars.len()
    };
    let mut out = String::new();
    let mut i: usize = 0;
    while i < n
        invariant
            0 <= i <= n <= chars@.len(),
            n == if chars@.len() > 32 { 32 } else { chars@.len() },
            chars@ == raw@,
            out@ == chars@.take(i as int).map_values(|c: char| if is_control(c) { '?' } else { c }),
        decreases n - i,
    {
        let c = chars[i];
        push_char(&mut out, if char_is_control(c) { '?' } else { c });
        assert(chars@.take(i + 1).map_values(|c: char| if is_control(c) { '?' } else { c })
            =~= chars@.take(i as int).map_values(|c: char| if is_control(c) { '?' } else { c }).push(
            if is_control(c) { '?' } else { c },
        ));
        i += 1;
    }
    if chars.len() > 32 {
        out.append("...");
    } else {
        assert(chars@.take(n as int) =~= chars@);
    }
    out
}

/// How a skipped entry is named: by its id when it has a string one, else by
/// its position in its own table (`#1`, or `prompt #1`).
pub open spec fn entry_name(entry: TomlValue, index: nat, prefix: Seq<char>) -> Seq<char> {
    match as_str(get(entry, "id"@)) {
        Some(id) => display_name(id),
        None => prefix + "#"@ + decimal(index + 1),
    }
}

fn entry_name_of(entry: &TomlValue, index: usize, prefix: &str) -> (r: String)
    requires
        index < u64::MAX,
    ensures
        r@ == entry_name(*entry, index as nat, prefix@),
{
    match str_of(entry.get("id")) {
        Some(id) => display_name_of(id.as_str()),
        None => {
            let mut s = crate::text::concat(prefix, "#");
            push_decimal(&mut s, index as u64 + 1);
            s
        },
    }
}

/// `name (reason)`.
pub open spec fn skip_note(name: Seq<char>, reason: Seq<char>) -> Seq<char> {
    name + " ("@ + reason + ")"@
}

/// The single header line naming every skipped entry; empty when none was.
/// It speaks of commands when only `[[command]]` entries were skipped, of
/// entries otherwise.
pub open spec fn skip_warning(skipped: Seq<Seq<char>>, only_commands: bool) -> Seq<char> {
    if skipped.len() == 0 {
        Seq::empty()
    } else {
        let noun = if only_commands {
            if skipped.len() == 1 {
                "command"@
            } else {
                "commands"@
            }
        } else {
            if skipped.len() == 1 {
                "entry"@
            } else {
                "entries"@
            }
        };
        "warning: "@ + decimal(skipped.len()) + " user "@ + noun + " skipped: "@ + join(skipped, ", "@)
    }
}

fn skip_warning_of(skipped: &Vec<String>, only_commands: bool) -> (r: String)
    ensures
        r@ == skip_warning(skipped.deep_view(), only_commands),
{
    if skipped.len() == 0 {
        return String::new();
    }
    let mut out = String::new();
    out.append("warning: ");
    push_decimal(&mut out, skipped.len() as u64);
    out.append(" user ");
    if only_commands {
        if skipped.len() == 1 {
            out.append("command");
        } else {
            out.append("commands");
        }
    } else {
        if skipped.len() == 1 {
            out.append("entry");
        } else {
            out.append("entries");
        }
    }
    out.append(" skipped: ");
    let ghost start = out@;
    let mut i: usize = 0;
    while i < skipped.len()
        invariant
            0 <= i <= skipped@.len(),
            out@ == start + join(skipped.deep_view().take(i as int), ", "@),
        decreases skipped@.len() - i,
    {
        assert(skipped.deep_view().take(i + 1).drop_last() =~= skipped.deep_view().take(i as int));
        if i > 0 {
            out.append(", ");
        }
        out.append(skipped[i].as_str());
        assert(out@ =~= start + join(skipped.deep_view().take(i + 1), ", "@));
        i += 1;
    }
    assert(skipped.deep_view().take(skipped@.len() as int) =~= skipped.deep_view());
    out
}

/// Appends copies of `src`'s strings to `dst`.
pub fn append_strings(dst: &mut Vec<String>, src: &Vec<String>)
    ensures
        final(dst).deep_view() == old(dst).deep_view() + src.deep_view(),
{
    let ghost before = dst.deep_view();
    let mut j: usize = 0;
    while j < src.len()
        invariant
            0 <= j <= src@.len(),
            before == old(dst).deep_view(),
            dst.deep_view() == before + src.deep_view().take(j as int),
        decreases src@.len() - j,
    {
        let s = src[j].clone();
        let ghost old_dv = dst.deep_view();
        dst.push(s);
        assert(dst.deep_view() =~= old_dv.push(src.deep_view()[j as int]));
        assert(src.deep_view().take(j + 1) =~= src.deep_view().take(j as int).push(src.deep_view()[j as int]));
        assert(dst.deep_view() =~= before + src.deep_view().take(j + 1));
        j += 1;
    }
    assert(src.deep_view().take(src@.len() as int) =~= src.deep_view());
}

// ----- The whole file -----

/// The entries of an array-valued member, empty for anything else.
pub open spec fn array_items(o: Option<TomlValue>) -> Seq<TomlValue> {
    match o {
        Some(TomlValue::Array(items)) => items@,
        _ => Seq::empty(),
    }
}

pub open spec fn command_view_ids(cs: Seq<UserCommandV>) -> Seq<Seq<char>> {
    cs.map_values(|c: UserCommandV| c.id)
}

pub open spec fn prompt_view_ids(ps: Seq<UserPromptV>) -> Seq<Seq<char>> {
    ps.map_values(|p: UserPromptV| p.id)
}

/// The `[[command]]` entries read so far: `answers[i]` is what the
/// filesystem said of entry `i`'s `cwd`, one answer per entry read. Yields
/// the accepted commands and the notes for the skipped entries, in file
/// order.
pub open spec fn command_pass(entries: Seq<TomlValue>, answers: Seq<bool>) -> (Seq<UserCommandV>, Seq<Seq<char>>)
    decreases answers.len(),
{
    if answers.len() == 0 {
        (Seq::empty(), Seq::empty())
    } else {
        let k = answers.len() - 1;
        let (accepted, skipped) = command_pass(entries, answers.drop_last());
        match command_entry(entries[k], command_view_ids(accepted), answers.last()) {
            Ok(c) => (accepted.push(c), skipped),
            Err(reason) => (accepted, skipped.push(skip_note(entry_name(entries[k], k as nat, Seq::empty()), reason))),
        }
    }
}

/// The `[[prompt]]` entries read so far, as `command_pass` reads commands.
pub open spec fn prompt_pass(entries: Seq<TomlValue>, answers: Seq<bool>) -> (Seq<UserPromptV>, Seq<Seq<char>>)
    decreases answers.len(),
{
    if answers.len() == 0 {
        (Seq::empty(), Seq::empty())
    } else {
        let k = answers.len() - 1;
        let (accepted, skipped) = prompt_pass(entries, answers.drop_last());
        match prompt_entry(entries[k], prompt_view_ids(accepted), answers.last()) {
            Ok(p) => (accepted.push(p), skipped),
            Err(reason) => (accepted, skipped.push(skip_note(entry_name(entries[k], k as nat, "prompt "@), reason))),
        }
    }
}

/// The `[[command]]` entries of a parsed file.
pub open spec fn command_entries(doc: Result<Seq<(String, TomlValue)>, Seq<char>>) -> Seq<TomlValue> {
    match doc {
        Ok(root) => array_items(lookup(root, "command"@)),
        Err(_) => Seq::empty(),
    }
}

/// The `[[prompt]]` entries of a parsed file.
pub open spec fn prompt_entries(doc: Result<Seq<(String, TomlValue)>, Seq<char>>) -> Seq<TomlValue> {
    match doc {
        Ok(root) => array_items(lookup(root, "prompt"@)),
        Err(_) => Seq::empty(),
    }
}

/// What the user's file reads as. A file that is not TOML yields no entries
/// and one warning naming the parser's first line; otherwise each table's
/// entries are validated in file order (`command_answers` and
/// `prompt_answers` hold one filesystem answer per entry), and the skipped
/// ones are named in one warning, commands first.
pub open spec fn user_catalog(
    doc: Result<Seq<(String, TomlValue)>, Seq<char>>,
    command_answers: Seq<bool>,
    prompt_answers: Seq<bool>,
) -> UserCatalogV {
    match doc {
        Err(detail) => UserCatalogV {
            commands: Seq::empty(),
            prompts: Seq::empty(),
            warning: "warning: config.toml is not valid TOML: "@ + match crate::text::first_line(detail) {
                Some(line) => line,
                None => "parse error"@,
            },
        },
        Ok(_) => {
            let (commands, command_skips) = command_pass(command_entries(doc), command_answers);
            let (prompts, prompt_skips) = prompt_pass(prompt_entries(doc), prompt_answers);
            UserCatalogV {
                commands,
                prompts,
                warning: skip_warning(command_skips + prompt_skips, prompt_skips.len() == 0),
            }
        },
    }
}

pub open spec fn command_views(cs: Seq<UserCommand>) -> Seq<UserCommandV> {
    cs.map_values(|c: UserCommand| c@)
}

pub open spec fn prompt_views(ps: Seq<UserPrompt>) -> Seq<UserPromptV> {
    ps.map_values(|p: UserPrompt| p@)
}

fn array_of<'a>(o: Option<&'a TomlValue>) -> (r: &'a [TomlValue])
    ensures
        r@ == array_items(field_view(o)),
{
    match o {
        Some(TomlValue::Array(items)) => items.as_slice(),
        _ => &[],
    }
}

/// Reads the user's file: every valid entry of each table, in file order,
/// and a single warning line naming the skipped ones. The result is
/// `user_catalog` of the parsed text for the answers the filesystem gave
/// about each entry's `cwd`.
pub fn parse(text: &str) -> (r: UserCatalog)
    ensures
        exists|command_answers: Seq<bool>, prompt_answers: Seq<bool>|
            #![trigger user_catalog(spec_parse_toml(text@), command_answers, prompt_answers)]
            command_answers.len() == command_entries(spec_parse_toml(text@)).len()
                && prompt_answers.len() == prompt_entries(spec_parse_toml(text@)).len()
                && r@ == user_catalog(spec_parse_toml(text@), command_answers, prompt_answers),
{
    parse_table(parse_toml(text))
}

/// Reads the user's parsed file, as `parse` does its text.
pub fn parse_table(table: Result<Vec<(String, TomlValue)>, String>) -> (r: UserCatalog)
    ensures
        exists|command_answers: Seq<bool>, prompt_answers: Seq<bool>|
            #![trigger user_catalog(table_view(table), command_answers, prompt_answers)]
            command_answers.len() == command_entries(table_view(table)).len()
                && prompt_answers.len() == prompt_entries(table_view(table)).len()
                && r@ == user_catalog(table_view(table), command_answers, prompt_answers),
{
    let ghost tv = table_view(table);
    let root = match table {
        Ok(root) => root,
        Err(detail) => {
            let mut warning = String::new();
            warning.append("warning: config.toml is not valid TOML: ");
            match crate::text::first_line_of(detail.as_str()) {
                Some(line) => warning.append(line.as_str()),
                None => warning.append("parse error"),
            }
            let r = UserCatalog { commands: Vec::new(), prompts: Vec::new(), warning };
            assert(r@ =~= user_catalog(tv, Seq::empty(), Seq::empty()));
            return r;
        },
    };
    let ghost doc = tv;
    let command_items = array_of(lookup_in(&root, "command"));
    let prompt_items = array_of(lookup_in(&root, "prompt"));
    assert(command_items@ == command_entries(doc));
    assert(prompt_items@ == prompt_entries(doc));

    let mut commands: Vec<UserCommand> = Vec::new();
    let mut command_skips: Vec<String> = Vec::new();
    let ghost mut command_answers: Seq<bool> = Seq::empty();
    let mut i: usize = 0;
    while i < command_items.len()
        invariant
            0 <= i <= command_items@.len(),
            command_answers.len() == i,
            command_pass(command_items@, command_answers) == (command_views(commands@), command_skips.deep_view()),
        decreases command_items@.len() - i,
    {
        let entry = &command_items[i];
        let name = entry_name_of(entry, i, "");
        assert(command_ids(commands@) =~= command_view_ids(command_views(commands@)));
        let result = parse_entry(entry, &commands);
        let ghost d = choose|is_dir: bool|
            #![trigger command_entry(*entry, command_ids(commands@), is_dir)]
            match result {
                Ok(c) => command_entry(*entry, command_ids(commands@), is_dir) == Ok::<UserCommandV, Seq<char>>(c@),
                Err(e) => command_entry(*entry, command_ids(commands@), is_dir) == Err::<UserCommandV, Seq<char>>(e@),
            };
        let ghost outcome = result;
        let ghost prev_answers = command_answers;
        let ghost prev_commands = command_views(commands@);
        let ghost prev_skips = command_skips.deep_view();
        proof {
            command_answers = command_answers.push(d);
            assert(command_answers.drop_last() =~= prev_answers);
        }
        match result {
            Ok(c) => {
                commands.push(c);
            },
            Err(reason) => {
                let mut note = name;
                note.append(" (");
                note.append(reason);
                note.append(")");
                command_skips.push(note);
            },
        }
        proof {
            reveal_strlit("");
            assert(command_items@[i as int] == *entry);
            match outcome {
                Ok(c) => {
                    assert(command_views(commands@) =~= prev_commands.push(c@));
                    assert(command_skips.deep_view() =~= prev_skips);
                },
                Err(reason) => {
                    assert(command_views(commands@) =~= prev_commands);
                    assert(command_skips.deep_view() =~= prev_skips.push(
                        skip_note(entry_name(*entry, i as nat, Seq::empty()), reason@),
                    ));
                },
            }
        }
        i += 1;
    }

    let mut prompts: Vec<UserPrompt> = Vec::new();
    let mut prompt_skips: Vec<String> = Vec::new();
    let ghost mut prompt_answers: Seq<bool> = Seq::empty();
    let mut i: usize = 0;
    while i < prompt_items.len()
        invariant
            0 <= i <= prompt_items@.len(),
            prompt_answers.len() == i,
            prompt_pass(prompt_items@, prompt_answers) == (prompt_views(prompts@), prompt_skips.deep_view()),
        decreases prompt_items@.len() - i,
    {
        let entry = &prompt_items[i];
        let name = entry_name_of(entry, i, "prompt ");
        assert(crate::prompt::prompt_ids(prompts@) =~= prompt_view_ids(prompt_views(prompts@)));
        let result = crate::prompt::parse_entry(entry, &prompts);
        let ghost d = choose|is_dir: bool|
            #![trigger prompt_entry(*entry, crate::prompt::prompt_ids(prompts@), is_dir)]
            match result {
                Ok(p) => prompt_entry(*entry, crate::prompt::prompt_ids(prompts@), is_dir) == Ok::<UserPromptV, Seq<char>>(p@),
                Err(e) => prompt_entry(*entry, crate::prompt::prompt_ids(prompts@), is_dir) == Err::<UserPromptV, Seq<char>>(e@),
            };
        let ghost outcome = result;
        let ghost prev_answers = prompt_answers;
        let ghost prev_prompts = prompt_views(prompts@);
        let ghost prev_skips = prompt_skips.deep_view();
        proof {
            prompt_answers = prompt_answers.push(d);
            assert(prompt_answers.drop_last() =~= prev_answers);
        }
        match result {
            Ok(p) => {
                prompts.push(p);
            },
            Err(reason) => {
                let mut note = name;
                note.append(" (");
                note.append(reason);
                note.append(")");
                prompt_skips.push(note);
            },
        }
        proof {
            assert(prompt_items@[i as int] == *entry);
            match outcome {
                Ok(p) => {
                    assert(prompt_views(prompts@) =~= prev_prompts.push(p@));
                    assert(prompt_skips.deep_view() =~= prev_skips);
                },
                Err(reason) => {
                    assert(prompt_views(prompts@) =~= prev_prompts);
                    assert(prompt_skips.deep_view() =~= prev_skips.push(
                        skip_note(entry_name(*entry, i as nat, "prompt "@), reason@),
                    ));
                },
            }
        }
        i += 1;
    }

    let only_commands = prompt_skips.len() == 0;
    let mut skipped = command_skips;
    append_strings(&mut skipped, &prompt_skips);
    let warning = skip_warning_of(&skipped, only_commands);
    let r = UserCatalog { commands, prompts, warning };
    assert(r@ =~= user_catalog(doc, command_answers, prompt_answers));
    r
}


// ----- The warning is one line -----

/// `s` holds no newline.
pub open spec fn one_line(s: Seq<char>) -> bool {
    forall|i: int| 0 <= i < s.len() ==> #[trigger] s[i] != '\n'
}

proof fn lemma_one_line_concat(a: Seq<char>, b: Seq<char>)
    requires
        one_line(a),
        one_line(b),
    ensures
        one_line(a + b),
{
    assert forall|i: int| 0 <= i < (a + b).len() implies #[trigger] (a + b)[i] != '\n' by {
        if i < a.len() {
            assert((a + b)[i] == a[i]);
        } else {
            assert((a + b)[i] == b[i - a.len()]);
        }
    }
}

proof fn lemma_reasons_one_line()
    ensures
        one_line("missing id"@),
        one_line("invalid id"@),
        one_line("missing title"@),
        one_line("title spans lines"@),
        one_line("cwd is not absolute"@),
        one_line("cwd is not a directory"@),
        one_line("invalid field types"@),
        one_line("duplicate id"@),
        one_line("missing argv"@),
        one_line("unknown placement"@),
        one_line("input without prompt"@),
        one_line("empty argv[0]"@),
        one_line("nothing to send"@),
        one_line("unknown capture"@),
        one_line("invalid timeout_ms"@),
{
    reveal_strlit("missing id");
    reveal_strlit("invalid id");
    reveal_strlit("missing title");
    reveal_strlit("title spans lines");
    reveal_strlit("cwd is not absolute");
    reveal_strlit("cwd is not a directory");
    reveal_strlit("invalid field types");
    reveal_strlit("duplicate id");
    reveal_strlit("missing argv");
    reveal_strlit("unknown placement");
    reveal_strlit("input without prompt");
    reveal_strlit("empty argv[0]");
    reveal_strlit("nothing to send");
    reveal_strlit("unknown capture");
    reveal_strlit("invalid timeout_ms");
}


proof fn lemma_words_one_line()
    ensures
        one_line("prompt "@),
        one_line("#"@),
        one_line("..."@),
        one_line(" ("@),
        one_line(")"@),
        one_line(", "@),
        one_line("warning: "@),
        one_line(" user "@),
        one_line("command"@),
        one_line("commands"@),
        one_line("entry"@),
        one_line("entries"@),
        one_line(" skipped: "@),
        one_line("warning: config.toml is not valid TOML: "@),
        one_line("parse error"@),
{
    reveal_strlit("prompt ");
    reveal_strlit("#");
    reveal_strlit("...");
    reveal_strlit(" (");
    reveal_strlit(")");
    reveal_strlit(", ");
    reveal_strlit("warning: ");
    reveal_strlit(" user ");
    reveal_strlit("command");
    reveal_strlit("commands");
    reveal_strlit("entry");
    reveal_strlit("entries");
    reveal_strlit(" skipped: ");
    reveal_strlit("warning: config.toml is not valid TOML: ");
    reveal_strlit("parse error");
}

proof fn lemma_decimal_one_line(n: nat)
    ensures
        one_line(decimal(n)),
    decreases n,
{
    if n >= 10 {
        lemma_decimal_one_line(n / 10);
        let d = decimal(n / 10).push(digit_char(n % 10));
        assert forall|i: int| 0 <= i < d.len() implies #[trigger] d[i] != '\n' by {
            if i < d.len() - 1 {
                assert(d[i] == decimal(n / 10)[i]);
            }
        }
    }
}

proof fn lemma_display_name_one_line(raw: Seq<char>)
    ensures
        one_line(display_name(raw)),
{
    lemma_words_one_line();
    let kept = if raw.len() > 32 { raw.take(32) } else { raw };
    let cleaned = kept.map_values(|c: char| if is_control(c) { '?' } else { c });
    assert(one_line(cleaned));
    if raw.len() > 32 {
        lemma_one_line_concat(cleaned, "..."@);
    }
}

proof fn lemma_entry_name_one_line(entry: TomlValue, index: nat, prefix: Seq<char>)
    requires
        one_line(prefix),
    ensures
        one_line(entry_name(entry, index, prefix)),
{
    lemma_words_one_line();
    match as_str(get(entry, "id"@)) {
        Some(id) => lemma_display_name_one_line(id),
        None => {
            lemma_decimal_one_line(index + 1);
            lemma_one_line_concat(prefix, "#"@);
            lemma_one_line_concat(prefix + "#"@, decimal(index + 1));
        },
    }
}

proof fn lemma_skip_note_one_line(name: Seq<char>, reason: Seq<char>)
    requires
        one_line(name),
        one_line(reason),
    ensures
        one_line(skip_note(name, reason)),
{
    lemma_words_one_line();
    lemma_one_line_concat(name, " ("@);
    lemma_one_line_concat(name + " ("@, reason);
    lemma_one_line_concat(name + " ("@ + reason, ")"@);
}

proof fn lemma_join_one_line(items: Seq<Seq<char>>, sep: Seq<char>)
    requires
        one_line(sep),
        forall|i: int| 0 <= i < items.len() ==> one_line(#[trigger] items[i]),
    ensures
        one_line(join(items, sep)),
    decreases items.len(),
{
    if items.len() > 1 {
        let d = items.drop_last();
        assert forall|i: int| 0 <= i < d.len() implies one_line(#[trigger] d[i]) by {
            assert(d[i] == items[i]);
        }
        lemma_join_one_line(d, sep);
        lemma_one_line_concat(join(d, sep), sep);
        assert(one_line(items[items.len() - 1]));
        lemma_one_line_concat(join(d, sep) + sep, items.last());
    } else if items.len() == 1 {
        assert(one_line(items[0]));
    }
}

proof fn lemma_check_reasons(id: Option<Seq<char>>, title: Option<Seq<char>>, cwd: Option<Seq<char>>, is_dir: bool)
    ensures
        check_id(id) matches Err(r) ==> one_line(r),
        check_title(title) matches Err(r) ==> one_line(r),
        check_cwd(cwd, is_dir) matches Err(r) ==> one_line(r),
{
    lemma_reasons_one_line();
}

proof fn lemma_command_reason(v: TomlValue, accepted: Seq<Seq<char>>, is_dir: bool)
    ensures
        command_entry(v, accepted, is_dir) matches Err(r) ==> one_line(r),
{
    reveal(command_entry);
    lemma_reasons_one_line();
    match dec_raw_command(v) {
        None => {},
        Some(raw) => lemma_check_reasons(raw.id, raw.title, raw.cwd, is_dir),
    }
}

proof fn lemma_prompt_reason(v: TomlValue, accepted: Seq<Seq<char>>, is_dir: bool)
    ensures
        prompt_entry(v, accepted, is_dir) matches Err(r) ==> one_line(r),
{
    reveal(prompt_entry);
    lemma_reasons_one_line();
    match crate::prompt::dec_raw_prompt(v) {
        None => {},
        Some(raw) => lemma_check_reasons(raw.id, raw.title, raw.cwd, is_dir),
    }
}

proof fn lemma_command_skips_one_line(entries: Seq<TomlValue>, answers: Seq<bool>)
    ensures
        forall|i: int| 0 <= i < command_pass(entries, answers).1.len() ==> one_line(#[trigger] command_pass(entries, answers).1[i]),
    decreases answers.len(),
{
    if answers.len() > 0 {
        let k = answers.len() - 1;
        lemma_command_skips_one_line(entries, answers.drop_last());
        let (accepted, skipped) = command_pass(entries, answers.drop_last());
        lemma_command_reason(entries[k], command_view_ids(accepted), answers.last());
        match command_entry(entries[k], command_view_ids(accepted), answers.last()) {
            Ok(_) => {},
            Err(reason) => {
                assert(one_line(Seq::<char>::empty()));
                lemma_entry_name_one_line(entries[k], k as nat, Seq::empty());
                lemma_skip_note_one_line(entry_name(entries[k], k as nat, Seq::empty()), reason);
                let out = skipped.push(skip_note(entry_name(entries[k], k as nat, Seq::empty()), reason));
                assert forall|i: int| 0 <= i < out.len() implies one_line(#[trigger] out[i]) by {
                    if i < skipped.len() {
                        assert(out[i] == skipped[i]);
                        assert(one_line(command_pass(entries, answers.drop_last()).1[i]));
                    }
                }
            },
        }
    }
}

proof fn lemma_prompt_skips_one_line(entries: Seq<TomlValue>, answers: Seq<bool>)
    ensures
        forall|i: int| 0 <= i < prompt_pass(entries, answers).1.len() ==> one_line(#[trigger] prompt_pass(entries, answers).1[i]),
    decreases answers.len(),
{
    if answers.len() > 0 {
        let k = answers.len() - 1;
        lemma_prompt_skips_one_line(entries, answers.drop_last());
        let (accepted, skipped) = prompt_pass(entries, answers.drop_last());
        lemma_prompt_reason(entries[k], prompt_view_ids(accepted), answers.last());
        match prompt_entry(entries[k], prompt_view_ids(accepted), answers.last()) {
            Ok(_) => {},
            Err(reason) => {
                lemma_words_one_line();
                lemma_entry_name_one_line(entries[k], k as nat, "prompt "@);
                lemma_skip_note_one_line(entry_name(entries[k], k as nat, "prompt "@), reason);
                let out = skipped.push(skip_note(entry_name(entries[k], k as nat, "prompt "@), reason));
                assert forall|i: int| 0 <= i < out.len() implies one_line(#[trigger] out[i]) by {
                    if i < skipped.len() {
                        assert(out[i] == skipped[i]);
                        assert(one_line(prompt_pass(entries, answers.drop_last()).1[i]));
                    }
                }
            },
        }
    }
}

/// When `c` occurs in `s`, it has a first occurrence.
proof fn lemma_first_occurrence(s: Seq<char>, c: char)
    requires
        exists|i: int| 0 <= i < s.len() && s[i] == c,
    ensures
        exists|i: int| 0 <= i < s.len() && s[i] == c && forall|j: int| 0 <= j < i ==> s[j] != c,
    decreases s.len(),
{
    let d = s.drop_last();
    if exists|i: int| 0 <= i < d.len() && d[i] == c {
        lemma_first_occurrence(d, c);
        let i = choose|i: int| 0 <= i < d.len() && d[i] == c && forall|j: int| 0 <= j < i ==> d[j] != c;
        assert(s[i] == d[i]);
        assert forall|j: int| 0 <= j < i implies s[j] != c by {
            assert(s[j] == d[j]);
        }
    } else {
        let k = s.len() - 1;
        assert(s[k] == c) by {
            let w = choose|i: int| 0 <= i < s.len() && s[i] == c;
            if w < k {
                assert(d[w] == c);
            }
        }
        assert forall|j: int| 0 <= j < k implies s[j] != c by {
            assert(d[j] == s[j]);
        }
    }
}

proof fn lemma_first_line_one_line(s: Seq<char>)
    ensures
        first_line(s) matches Some(line) ==> one_line(line),
{
    if s.len() > 0 {
        match index_of(s, '\n') {
            Some(i) => {
                lemma_first_occurrence(s, '\n');
                assert(forall|j: int| 0 <= j < i ==> s[j] != '\n');
            },
            None => {
                assert forall|j: int| 0 <= j < s.len() implies #[trigger] s[j] != '\n' by {
                    if s[j] == '\n' {
                        assert(exists|i: int| 0 <= i < s.len() && s[i] == '\n');
                    }
                }
            },
        }
    }
}

/// The user file's warning is a single line, whatever the file holds: a
/// rejected id cannot break the picker header, and neither can the TOML
/// parser's message.
pub proof fn lemma_warning_is_one_line(
    doc: Result<Seq<(String, TomlValue)>, Seq<char>>,
    command_answers: Seq<bool>,
    prompt_answers: Seq<bool>,
)
    ensures
        !user_catalog(doc, command_answers, prompt_answers).warning.contains('\n'),
{
    lemma_words_one_line();
    let w = user_catalog(doc, command_answers, prompt_answers).warning;
    match doc {
        Err(detail) => {
            lemma_first_line_one_line(detail);
            let line = match first_line(detail) {
                Some(line) => line,
                None => "parse error"@,
            };
            lemma_one_line_concat("warning: config.toml is not valid TOML: "@, line);
        },
        Ok(_) => {
            let (commands, command_skips) = command_pass(command_entries(doc), command_answers);
            let (prompts, prompt_skips) = prompt_pass(prompt_entries(doc), prompt_answers);
            lemma_command_skips_one_line(command_entries(doc), command_answers);
            lemma_prompt_skips_one_line(prompt_entries(doc), prompt_answers);
            let all = command_skips + prompt_skips;
            assert forall|i: int| 0 <= i < all.len() implies one_line(#[trigger] all[i]) by {
                if i < command_skips.len() {
                    assert(all[i] == command_skips[i]);
                } else {
                    assert(all[i] == prompt_skips[i - command_skips.len()]);
                }
            }
            if all.len() > 0 {
                lemma_join_one_line(all, ", "@);
                lemma_decimal_one_line(all.len());
                let only = prompt_skips.len() == 0;
                let noun = if only {
                    if all.len() == 1 { "command"@ } else { "commands"@ }
                } else {
                    if all.len() == 1 { "entry"@ } else { "entries"@ }
                };
                lemma_one_line_concat("warning: "@, decimal(all.len()));
                lemma_one_line_concat("warning: "@ + decimal(all.len()), " user "@);
                lemma_one_line_concat("warning: "@ + decimal(all.len()) + " user "@, noun);
                lemma_one_line_concat("warning: "@ + decimal(all.len()) + " user "@ + noun, " skipped: "@);
                lemma_one_line_concat("warning: "@ + decimal(all.len()) + " user "@ + noun + " skipped: "@, join(all, ", "@));
            }
        },
    }
    assert(one_line(w));
}


// ----- Every entry is accounted for, and ids stay unique -----

/// Every `[[command]]` entry read is either accepted or named in the
/// warning: a rejected entry never takes a valid one with it.
pub proof fn lemma_commands_accounted(entries: Seq<TomlValue>, answers: Seq<bool>)
    ensures
        command_pass(entries, answers).0.len() + command_pass(entries, answers).1.len() == answers.len(),
    decreases answers.len(),
{
    if answers.len() > 0 {
        lemma_commands_accounted(entries, answers.drop_last());
    }
}

/// Every `[[prompt]]` entry read is either accepted or named in the warning.
pub proof fn lemma_prompts_accounted(entries: Seq<TomlValue>, answers: Seq<bool>)
    ensures
        prompt_pass(entries, answers).0.len() + prompt_pass(entries, answers).1.len() == answers.len(),
    decreases answers.len(),
{
    if answers.len() > 0 {
        lemma_prompts_accounted(entries, answers.drop_last());
    }
}

proof fn lemma_command_entry_fresh(v: TomlValue, accepted: Seq<Seq<char>>, is_dir: bool)
    ensures
        command_entry(v, accepted, is_dir) matches Ok(c) ==> !accepted.contains(c.id),
{
    reveal(command_entry);
}

proof fn lemma_prompt_entry_fresh(v: TomlValue, accepted: Seq<Seq<char>>, is_dir: bool)
    ensures
        prompt_entry(v, accepted, is_dir) matches Ok(p) ==> !accepted.contains(p.id),
{
    reveal(prompt_entry);
}

/// No two accepted commands share an id: the later entry is the one
/// rejected.
pub proof fn lemma_command_ids_unique(entries: Seq<TomlValue>, answers: Seq<bool>)
    ensures
        forall|i: int, j: int|
            0 <= i < j < command_pass(entries, answers).0.len() ==> #[trigger] command_pass(entries, answers).0[i].id
                != #[trigger] command_pass(entries, answers).0[j].id,
    decreases answers.len(),
{
    if answers.len() > 0 {
        let k = answers.len() - 1;
        lemma_command_ids_unique(entries, answers.drop_last());
        let (accepted, skipped) = command_pass(entries, answers.drop_last());
        lemma_command_entry_fresh(entries[k], command_view_ids(accepted), answers.last());
        match command_entry(entries[k], command_view_ids(accepted), answers.last()) {
            Ok(c) => {
                let out = accepted.push(c);
                assert forall|i: int, j: int| 0 <= i < j < out.len() implies #[trigger] out[i].id != #[trigger] out[j].id by {
                    if j == out.len() - 1 {
                        assert(command_view_ids(accepted)[i] == accepted[i].id);
                        assert(command_view_ids(accepted).contains(accepted[i].id));
                    } else {
                        assert(out[i] == accepted[i] && out[j] == accepted[j]);
                        assert(accepted[i].id != accepted[j].id);
                    }
                }
            },
            Err(_) => {},
        }
    }
}

/// No two accepted prompts share an id (a prompt may share one with a
/// command: the tables are apart).
pub proof fn lemma_prompt_ids_unique(entries: Seq<TomlValue>, answers: Seq<bool>)
    ensures
        forall|i: int, j: int|
            0 <= i < j < prompt_pass(entries, answers).0.len() ==> #[trigger] prompt_pass(entries, answers).0[i].id
                != #[trigger] prompt_pass(entries, answers).0[j].id,
    decreases answers.len(),
{
    if answers.len() > 0 {
        let k = answers.len() - 1;
        lemma_prompt_ids_unique(entries, answers.drop_last());
        let (accepted, skipped) = prompt_pass(entries, answers.drop_last());
        lemma_prompt_entry_fresh(entries[k], prompt_view_ids(accepted), answers.last());
        match prompt_entry(entries[k], prompt_view_ids(accepted), answers.last()) {
            Ok(p) => {
                let out = accepted.push(p);
                assert forall|i: int, j: int| 0 <= i < j < out.len() implies #[trigger] out[i].id != #[trigger] out[j].id by {
                    if j == out.len() - 1 {
                        assert(prompt_view_ids(accepted)[i] == accepted[i].id);
                        assert(prompt_view_ids(accepted).contains(accepted[i].id));
                    } else {
                        assert(out[i] == accepted[i] && out[j] == accepted[j]);
                        assert(accepted[i].id != accepted[j].id);
                    }
                }
            },
            Err(_) => {},
        }
    }
}


// ----- Unknown keys are tolerated -----

/// Some entry below `n` carries the key, so a first one below `n` does.
proof fn lemma_first_key(entries: Seq<(String, TomlValue)>, key: Seq<char>, n: int)
    requires
        0 <= n <= entries.len(),
        exists|i: int| 0 <= i < n && entries[i].0@ == key,
    ensures
        exists|i: int| 0 <= i < n && entries[i].0@ == key && forall|j: int| 0 <= j < i ==> entries[j].0@ != key,
    decreases n,
{
    if exists|i: int| 0 <= i < n - 1 && entries[i].0@ == key {
        lemma_first_key(entries, key, n - 1);
        let i = choose|i: int| 0 <= i < n - 1 && entries[i].0@ == key && forall|j: int| 0 <= j < i ==> entries[j].0@ != key;
        assert(0 <= i < n && entries[i].0@ == key && forall|j: int| 0 <= j < i ==> entries[j].0@ != key);
    } else {
        let w = choose|i: int| 0 <= i < n && entries[i].0@ == key;
        assert(w == n - 1);
        assert(forall|j: int| 0 <= j < w ==> entries[j].0@ != key);
    }
}

/// `key_index` finds the first entry with the key.
proof fn lemma_key_index(entries: Seq<(String, TomlValue)>, key: Seq<char>)
    ensures
        match key_index(entries, key) {
            Some(i) => 0 <= i < entries.len() && entries[i].0@ == key && forall|j: int|
                0 <= j < i ==> entries[j].0@ != key,
            None => forall|j: int| 0 <= j < entries.len() ==> entries[j].0@ != key,
        },
{
    if exists|i: int| 0 <= i < entries.len() && entries[i].0@ == key {
        lemma_first_key(entries, key, entries.len() as int);
    }
}

/// One more member, under another key, does not change a lookup.
proof fn lemma_lookup_insert(entries: Seq<(String, TomlValue)>, p: int, k: String, x: TomlValue, name: Seq<char>)
    requires
        0 <= p <= entries.len(),
        k@ != name,
    ensures
        lookup(entries.insert(p, (k, x)), name) == lookup(entries, name),
{
    let more = entries.insert(p, (k, x));
    lemma_key_index(entries, name);
    lemma_key_index(more, name);
    match key_index(entries, name) {
        Some(i) => {
            let i2 = if i < p { i } else { i + 1 };
            assert(more[i2] == entries[i]);
            assert forall|j: int| 0 <= j < i2 implies more[j].0@ != name by {
                if j < p {
                    assert(more[j] == entries[j]);
                } else if j > p {
                    assert(more[j] == entries[j - 1]);
                }
            }
            match key_index(more, name) {
                Some(w) => {
                    if w < i2 {
                    } else if w > i2 {
                        assert(more[i2].0@ == name);
                    }
                    assert(w == i2);
                },
                None => {
                    assert(more[i2].0@ == name);
                },
            }
        },
        None => {
            match key_index(more, name) {
                Some(w) => {
                    if w < p {
                        assert(more[w] == entries[w]);
                    } else if w > p {
                        assert(more[w] == entries[w - 1]);
                    }
                },
                None => {},
            }
        },
    }
}

/// The keys a `[[command]]` entry reads.
pub open spec fn command_key(key: Seq<char>) -> bool {
    key == "id"@ || key == "title"@ || key == "argv"@ || key == "placement"@ || key == "hold"@ || key == "cwd"@
        || key == "input"@
}

/// The keys a `[[prompt]]` entry reads.
pub open spec fn prompt_key(key: Seq<char>) -> bool {
    key == "id"@ || key == "title"@ || key == "text"@ || key == "argv"@ || key == "capture"@ || key
        == "timeout_ms"@ || key == "cwd"@
}

/// A `[[command]]` table decodes the same with one more member under a
/// key it does not read: unknown keys are tolerated, the format only grows.
pub proof fn lemma_unknown_command_keys_ignored(
    entries: Vec<(String, TomlValue)>,
    more: Vec<(String, TomlValue)>,
    p: int,
    k: String,
    x: TomlValue,
    accepted: Seq<Seq<char>>,
    is_dir: bool,
)
    requires
        0 <= p <= entries@.len(),
        more@ == entries@.insert(p, (k, x)),
        !command_key(k@),
    ensures
        command_entry(TomlValue::Table(more), accepted, is_dir) == command_entry(TomlValue::Table(entries), accepted, is_dir),
{
    lemma_raw_command_insert(entries, more, p, k, x);
    reveal(command_entry);
}

proof fn lemma_raw_command_insert(
    entries: Vec<(String, TomlValue)>,
    more: Vec<(String, TomlValue)>,
    p: int,
    k: String,
    x: TomlValue,
)
    requires
        0 <= p <= entries@.len(),
        more@ == entries@.insert(p, (k, x)),
        !command_key(k@),
    ensures
        dec_raw_command(TomlValue::Table(more)) == dec_raw_command(TomlValue::Table(entries)),
{
    lemma_lookup_insert(entries@, p, k, x, "id"@);
    lemma_lookup_insert(entries@, p, k, x, "title"@);
    lemma_lookup_insert(entries@, p, k, x, "argv"@);
    lemma_lookup_insert(entries@, p, k, x, "placement"@);
    lemma_lookup_insert(entries@, p, k, x, "hold"@);
    lemma_lookup_insert(entries@, p, k, x, "cwd"@);
    lemma_lookup_insert(entries@, p, k, x, "input"@);
}

/// A `[[prompt]]` table decodes the same with one more member under a key
/// it does not read.
pub proof fn lemma_unknown_prompt_keys_ignored(
    entries: Vec<(String, TomlValue)>,
    more: Vec<(String, TomlValue)>,
    p: int,
    k: String,
    x: TomlValue,
    accepted: Seq<Seq<char>>,
    is_dir: bool,
)
    requires
        0 <= p <= entries@.len(),
        more@ == entries@.insert(p, (k, x)),
        !prompt_key(k@),
    ensures
        prompt_entry(TomlValue::Table(more), accepted, is_dir) == prompt_entry(TomlValue::Table(entries), accepted, is_dir),
{
    lemma_raw_prompt_insert(entries, more, p, k, x);
    reveal(prompt_entry);
}

proof fn lemma_raw_prompt_insert(
    entries: Vec<(String, TomlValue)>,
    more: Vec<(String, TomlValue)>,
    p: int,
    k: String,
    x: TomlValue,
)
    requires
        0 <= p <= entries@.len(),
        more@ == entries@.insert(p, (k, x)),
        !prompt_key(k@),
    ensures
        crate::prompt::dec_raw_prompt(TomlValue::Table(more)) == crate::prompt::dec_raw_prompt(TomlValue::Table(entries)),
{
    lemma_lookup_insert(entries@, p, k, x, "id"@);
    lemma_lookup_insert(entries@, p, k, x, "title"@);
    lemma_lookup_insert(entries@, p, k, x, "text"@);
    lemma_lookup_insert(entries@, p, k, x, "argv"@);
    lemma_lookup_insert(entries@, p, k, x, "capture"@);
    lemma_lookup_insert(entries@, p, k, x, "timeout_ms"@);
    lemma_lookup_insert(entries@, p, k, x, "cwd"@);
}

} // verus!
