//! Argument resolution: each catalog argument becomes exactly one argv
//! element, resolved left to right. Input and select run their own modal
//! screens; cancelling either cancels the whole command silently.
//!
//! Resolution alternates decisions with outside work (a `herdr … list`
//! call, an input screen, a pick screen). The decisions are `resolve_step`:
//! it takes what the last piece of outside work gave back and says what is
//! needed next, until the arguments are all resolved, the command is
//! cancelled, or it fails.

use vstd::prelude::*;

use crate::catalog::{ArgSpec, CommandEntry, ContextKey, Selector, StaticContextKey, Validation};
use crate::fatal::Fatal;
use crate::json::{JsonValue, as_array, as_str, get, get_in, get_opt, parse_json_opt, spec_json_text, parsed, str_at, to_json_string};
use crate::origin::Origin;
use crate::text::{chars_of, owned, push_char, str_eq, contains_char};
use crate::ui::{InputOutcome, InputScreen, PickOutcome, PickScreen, Row, RowV, row_views};
use crate::paths::path_is_dir;

verus! {

pub enum Resolution {
    Args(Vec<String>),
    /// A silent exit 0: Esc on a screen, a required input left empty, or a
    /// selector with nothing to offer.
    Cancelled,
}

#[derive(Clone, Copy, PartialEq, Eq, Structural)]
pub enum Direction {
    Next,
    Previous,
}

#[derive(Clone, Copy, PartialEq, Eq, Structural)]
pub enum ListKind {
    Workspaces,
    Tabs,
}

/// How one herdr list is read when a neighbour is computed from it.
pub struct ListSpec {
    /// The herdr command as shown in error messages (`workspace list`).
    pub desc: &'static str,
    /// Collection key under `.result`.
    pub collection: &'static str,
    /// Id field of each candidate.
    pub id_field: &'static str,
}

pub open spec fn list_desc(kind: ListKind) -> Seq<char> {
    match kind {
        ListKind::Workspaces => "workspace list"@,
        ListKind::Tabs => "tab list"@,
    }
}

pub open spec fn list_collection(kind: ListKind) -> Seq<char> {
    match kind {
        ListKind::Workspaces => "workspaces"@,
        ListKind::Tabs => "tabs"@,
    }
}

pub open spec fn list_id_field(kind: ListKind) -> Seq<char> {
    match kind {
        ListKind::Workspaces => "workspace_id"@,
        ListKind::Tabs => "tab_id"@,
    }
}

impl ListKind {
    pub fn spec(self) -> (r: ListSpec)
        ensures
            r.desc@ == list_desc(self),
            r.collection@ == list_collection(self),
            r.id_field@ == list_id_field(self),
    {
        match self {
            ListKind::Workspaces => ListSpec {
                desc: "workspace list",
                collection: "workspaces",
                id_field: "workspace_id",
            },
            ListKind::Tabs => ListSpec { desc: "tab list", collection: "tabs", id_field: "tab_id" },
        }
    }
}

/// `.result.<collection>` of a document, when it is an array.
pub open spec fn collection_of(doc: Option<JsonValue>, collection: Seq<char>) -> Option<Seq<JsonValue>> {
    as_array(get_opt(get_opt(doc, "result"@), collection))
}

pub open spec fn shape_message(desc: Seq<char>) -> Seq<char> {
    "command-palette: herdr "@ + desc + " returned an unexpected shape"@
}

/// The id a candidate offers for a computed neighbour: a string, non-empty,
/// with neither NUL nor newline (an id with either could forge picker rows
/// downstream).
pub open spec fn valid_list_id(item: JsonValue, field: Seq<char>) -> Option<Seq<char>> {
    match as_str(get(item, field)) {
        Some(s) => if s.len() > 0 && !s.contains('\0') && !s.contains('\n') {
            Some(s)
        } else {
            None
        },
        None => None,
    }
}

/// The position after (or before) `k` in a list of `len`, wrapping around.
pub open spec fn wrapped(k: int, len: int, direction: Direction) -> int {
    match direction {
        Direction::Next => if k + 1 == len {
            0
        } else {
            k + 1
        },
        Direction::Previous => if k == 0 {
            len - 1
        } else {
            k - 1
        },
    }
}

/// The wrap-around pick over an ordered id list, with three guards: the
/// array shape, every candidate's id, and the origin's membership.
pub open spec fn neighbor(
    doc: Option<JsonValue>,
    desc: Seq<char>,
    collection: Seq<char>,
    field: Seq<char>,
    direction: Direction,
    origin_id: Seq<char>,
) -> Result<Seq<char>, Seq<char>> {
    match collection_of(doc, collection) {
        None => Err(shape_message(desc)),
        Some(items) => if exists|i: int| 0 <= i < items.len() && #[trigger] valid_list_id(items[i], field) is None {
            Err("command-palette: herdr "@ + desc + " returned a candidate without a valid "@ + field)
        } else {
            let ids = Seq::new(items.len(), |i: int| valid_list_id(items[i], field).unwrap());
            match ids.index_of_first(origin_id) {
                None => Err("command-palette: herdr "@ + desc + " did not include the origin "@ + field),
                Some(k) => Ok(ids[wrapped(k, ids.len() as int, direction)]),
            }
        },
    }
}

fn shape_error(desc: &str) -> (r: Fatal)
    ensures
        r.0@ == shape_message(desc@),
{
    let mut m = owned("command-palette: herdr ");
    m.append(desc);
    m.append(" returned an unexpected shape");
    Fatal(m)
}

fn herdr_error(desc: &str, middle: &str, tail: &str) -> (r: Fatal)
    ensures
        r.0@ == "command-palette: herdr "@ + desc@ + middle@ + tail@,
{
    let mut m = owned("command-palette: herdr ");
    m.append(desc);
    m.append(middle);
    m.append(tail);
    Fatal(m)
}

/// The first position of `x` in `ids`.
pub fn position_of(ids: &Vec<String>, x: &str) -> (r: Option<usize>)
    ensures
        match r {
            Some(k) => k < ids@.len() && ids@[k as int]@ == x@ && forall|j: int|
                0 <= j < k ==> (#[trigger] ids@[j])@ != x@,
            None => forall|j: int| 0 <= j < ids@.len() ==> (#[trigger] ids@[j])@ != x@,
        },
{
    let mut k: usize = 0;
    while k < ids.len()
        invariant
            0 <= k <= ids@.len(),
            forall|j: int| 0 <= j < k ==> (#[trigger] ids@[j])@ != x@,
        decreases ids@.len() - k,
    {
        if str_eq(ids[k].as_str(), x) {
            return Some(k);
        }
        k += 1;
    }
    None
}

/// The valid id of one candidate, as `valid_list_id` defines it.
fn list_id(item: &JsonValue, field: &str) -> (r: Option<String>)
    ensures
        match r {
            Some(s) => valid_list_id(*item, field@) == Some(s@),
            None => valid_list_id(*item, field@) is None,
        },
{
    match str_at(item, field) {
        Some(s) => {
            if !s.as_str().is_empty() && !contains_char(s.as_str(), '\0') && !contains_char(
                s.as_str(),
                '\n',
            ) {
                Some(s.clone())
            } else {
                None
            }
        },
        None => None,
    }
}

/// The id after (or before) `origin_id` in a parsed list, as `neighbor` defines it.
pub fn neighbor_in(doc: &Option<JsonValue>, spec: &ListSpec, direction: Direction, origin_id: &str) -> (r: Result<String, Fatal>)
    ensures
        match r {
            Ok(s) => neighbor(*doc, spec.desc@, spec.collection@, spec.id_field@, direction, origin_id@) == Ok::<Seq<char>, Seq<char>>(s@),
            Err(f) => neighbor(*doc, spec.desc@, spec.collection@, spec.id_field@, direction, origin_id@) == Err::<Seq<char>, Seq<char>>(f.0@),
        },
{
    let result = get_in(doc.as_ref(), "result");
    let items = match get_in(result, spec.collection) {
        Some(JsonValue::Array(items)) => items,
        _ => return Err(shape_error(spec.desc)),
    };
    let ghost field = spec.id_field@;
    assert(collection_of(*doc, spec.collection@) == Some(items@));
    let mut ids: Vec<String> = Vec::new();
    let mut i: usize = 0;
    while i < items.len()
        invariant
            0 <= i <= items@.len(),
            collection_of(*doc, spec.collection@) == Some(items@),
            ids@.len() == i,
            field == spec.id_field@,
            forall|j: int| 0 <= j < i ==> valid_list_id(#[trigger] items@[j], field) == Some(ids@[j]@),
        decreases items@.len() - i,
    {
        match list_id(&items[i], spec.id_field) {
            Some(id) => ids.push(id),
            None => {
                assert(valid_list_id(items@[i as int], field) is None);
                return Err(herdr_error(spec.desc, " returned a candidate without a valid ", spec.id_field));
            },
        }
        i += 1;
    }
    let ghost spec_ids = Seq::new(items@.len(), |j: int| valid_list_id(items@[j], field).unwrap());
    assert(forall|j: int| 0 <= j < items@.len() ==> #[trigger] valid_list_id(items@[j], field) is Some);
    let found = position_of(&ids, origin_id);
    proof {
        spec_ids.index_of_first_ensures(origin_id@);
        assert(forall|j: int| 0 <= j < ids@.len() ==> spec_ids[j] == ids@[j]@);
    }
    let k = match found {
        None => {
            assert(!spec_ids.contains(origin_id@));
            return Err(herdr_error(spec.desc, " did not include the origin ", spec.id_field));
        },
        Some(k) => k,
    };
    assert(spec_ids[k as int] == origin_id@);
    assert(spec_ids.contains(origin_id@));
    assert(spec_ids.index_of_first(origin_id@) == Some(k as int)) by {
        let w = spec_ids.index_of_first(origin_id@).unwrap();
        assert(spec_ids[w] == origin_id@);
        if w < k {
            assert(ids@[w]@ != origin_id@);
        } else if w > k {
        }
    }
    let len = ids.len();
    let target = match direction {
        Direction::Next => if k + 1 == len {
            0
        } else {
            k + 1
        },
        Direction::Previous => if k == 0 {
            len - 1
        } else {
            k - 1
        },
    };
    Ok(ids[target].clone())
}

/// The id after (or before) `origin_id` in the list `raw` holds, as
/// `neighbor` defines it.
pub fn neighbor_from_json(raw: &str, spec: &ListSpec, direction: Direction, origin_id: &str) -> (r: Result<String, Fatal>)
    ensures
        match r {
            Ok(s) => neighbor(parsed(raw@), spec.desc@, spec.collection@, spec.id_field@, direction, origin_id@) == Ok::<Seq<char>, Seq<char>>(s@),
            Err(f) => neighbor(parsed(raw@), spec.desc@, spec.collection@, spec.id_field@, direction, origin_id@) == Err::<Seq<char>, Seq<char>>(f.0@),
        },
{
    let doc = parse_json_opt(raw);
    neighbor_in(&doc, spec, direction, origin_id)
}


// ----- Selector rows -----

/// How one herdr list becomes picker rows.
pub struct SelectSpec {
    pub desc: &'static str,
    pub collection: &'static str,
    pub id_field: &'static str,
    /// Field the display label comes from.
    pub label_field: &'static str,
    /// Extra prefix between the workspace label and the item label.
    pub label_prefix: &'static str,
}

pub struct SelectSpecV {
    pub desc: Seq<char>,
    pub collection: Seq<char>,
    pub id_field: Seq<char>,
    pub label_field: Seq<char>,
    pub label_prefix: Seq<char>,
}

impl View for SelectSpec {
    type V = SelectSpecV;

    open spec fn view(&self) -> SelectSpecV {
        SelectSpecV {
            desc: self.desc@,
            collection: self.collection@,
            id_field: self.id_field@,
            label_field: self.label_field@,
            label_prefix: self.label_prefix@,
        }
    }
}

pub open spec fn tabs_select() -> SelectSpecV {
    SelectSpecV {
        desc: "tab list"@,
        collection: "tabs"@,
        id_field: "tab_id"@,
        label_field: "label"@,
        label_prefix: ""@,
    }
}

pub open spec fn agents_select() -> SelectSpecV {
    SelectSpecV {
        desc: "agent list"@,
        collection: "agents"@,
        id_field: "pane_id"@,
        label_field: "terminal_title_stripped"@,
        label_prefix: "agent: "@,
    }
}

impl SelectSpec {
    pub fn workspaces() -> (r: SelectSpec)
        ensures
            r.desc@ == "workspace list"@,
            r.collection@ == "workspaces"@,
            r.id_field@ == "workspace_id"@,
            r.label_field@ == "label"@,
            r.label_prefix@ == ""@,
    {
        SelectSpec {
            desc: "workspace list",
            collection: "workspaces",
            id_field: "workspace_id",
            label_field: "label",
            label_prefix: "",
        }
    }

    pub fn tabs() -> (r: SelectSpec)
        ensures
            r@ == tabs_select(),
    {
        SelectSpec { desc: "tab list", collection: "tabs", id_field: "tab_id", label_field: "label", label_prefix: "" }
    }

    pub fn agents() -> (r: SelectSpec)
        ensures
            r@ == agents_select(),
    {
        SelectSpec {
            desc: "agent list",
            collection: "agents",
            id_field: "pane_id",
            label_field: "terminal_title_stripped",
            label_prefix: "agent: ",
        }
    }
}

/// A herdr-supplied label with its newlines, carriage returns and tabs
/// replaced by spaces.
pub open spec fn sanitized(s: Seq<char>) -> Seq<char> {
    s.map_values(|c: char| if c == '\n' || c == '\r' || c == '\t' { ' ' } else { c })
}

pub fn sanitize_label(label: &str) -> (r: String)
    ensures
        r@ == sanitized(label@),
{
    let chars = chars_of(label);
    let mut out = String::new();
    let mut i: usize = 0;
    while i < chars.len()
        invariant
            0 <= i <= chars@.len(),
            chars@ == label@,
            out@ == sanitized(label@).take(i as int),
        decreases chars@.len() - i,
    {
        let c = chars[i];
        let d = if c == '\n' || c == '\r' || c == '\t' { ' ' } else { c };
        push_char(&mut out, d);
        assert(sanitized(label@).take(i + 1) =~= sanitized(label@).take(i as int).push(d));
        i += 1;
    }
    assert(sanitized(label@).take(chars@.len() as int) =~= sanitized(label@));
    out
}

/// The label a candidate shows: its string `field`, sanitized, or nothing.
pub open spec fn item_label(item: JsonValue, field: Seq<char>) -> Seq<char> {
    match as_str(get(item, field)) {
        Some(s) => sanitized(s),
        None => Seq::empty(),
    }
}

fn item_label_of(item: &JsonValue, field: &str) -> (r: String)
    ensures
        r@ == item_label(*item, field@),
{
    match str_at(item, field) {
        Some(s) => sanitize_label(s.as_str()),
        None => String::new(),
    }
}

/// The id a candidate offers to a selector: a string is taken as it is
/// unless empty, a missing or null id is refused, any other value is taken
/// as its JSON text. A candidate that is not an object fails the build.
pub open spec fn candidate_id_of(item: JsonValue, desc: Seq<char>, field: Seq<char>) -> Result<Seq<char>, Seq<char>> {
    let without = "command-palette: herdr "@ + desc + " returned a candidate without "@ + field;
    match item {
        JsonValue::Object(_) => match get(item, field) {
            None => Err(without),
            Some(JsonValue::Null) => Err(without),
            Some(JsonValue::Str(s)) => if s@.len() == 0 {
                Err(without)
            } else {
                Ok(s@)
            },
            Some(other) => Ok(spec_json_text(other)),
        },
        _ => Err("command-palette: failed to build "@ + desc + " candidates"@),
    }
}

/// Every candidate's id, in order, or the first candidate's error.
pub open spec fn candidate_ids(items: Seq<JsonValue>, desc: Seq<char>, field: Seq<char>) -> Result<Seq<Seq<char>>, Seq<char>>
    decreases items.len(),
{
    if items.len() == 0 {
        Ok(Seq::empty())
    } else {
        match candidate_ids(items.drop_last(), desc, field) {
            Err(e) => Err(e),
            Ok(ids) => match candidate_id_of(items.last(), desc, field) {
                Err(e) => Err(e),
                Ok(id) => Ok(ids.push(id)),
            },
        }
    }
}

fn candidate_id(item: &JsonValue, desc: &str, field: &str) -> (r: Result<String, Fatal>)
    ensures
        match r {
            Ok(s) => candidate_id_of(*item, desc@, field@) == Ok::<Seq<char>, Seq<char>>(s@),
            Err(f) => candidate_id_of(*item, desc@, field@) == Err::<Seq<char>, Seq<char>>(f.0@),
        },
{
    match item {
        JsonValue::Object(_) => match item.get(field) {
            None => Err(herdr_error(desc, " returned a candidate without ", field)),
            Some(JsonValue::Null) => Err(herdr_error(desc, " returned a candidate without ", field)),
            Some(JsonValue::Str(s)) => if s.as_str().is_empty() {
                Err(herdr_error(desc, " returned a candidate without ", field))
            } else {
                Ok(s.clone())
            },
            Some(other) => Ok(to_json_string(other)),
        },
        _ => {
            let mut m = owned("command-palette: failed to build ");
            m.append(desc);
            m.append(" candidates");
            Err(Fatal(m))
        },
    }
}

/// The ids of all candidates, checked before any is excluded.
fn collect_ids(items: &Vec<JsonValue>, desc: &str, field: &str) -> (r: Result<Vec<String>, Fatal>)
    ensures
        match r {
            Ok(ids) => candidate_ids(items@, desc@, field@) == Ok::<Seq<Seq<char>>, Seq<char>>(
                ids@.map_values(|s: String| s@),
            ) && ids@.len() == items@.len(),
            Err(f) => candidate_ids(items@, desc@, field@) == Err::<Seq<Seq<char>>, Seq<char>>(f.0@),
        },
{
    let mut ids: Vec<String> = Vec::new();
    let mut i: usize = 0;
    assert(items@.take(0) =~= Seq::<JsonValue>::empty());
    assert(ids@.map_values(|s: String| s@) =~= Seq::<Seq<char>>::empty());
    while i < items.len()
        invariant
            0 <= i <= items@.len(),
            ids@.len() == i,
            candidate_ids(items@.take(i as int), desc@, field@) == Ok::<Seq<Seq<char>>, Seq<char>>(
                ids@.map_values(|s: String| s@),
            ),
        decreases items@.len() - i,
    {
        assert(items@.take(i + 1).drop_last() =~= items@.take(i as int));
        match candidate_id(&items[i], desc, field) {
            Ok(id) => {
                let ghost before = ids@.map_values(|s: String| s@);
                ids.push(id);
                assert(ids@.map_values(|s: String| s@) =~= before.push(id@));
            },
            Err(f) => {
                proof {
                    lemma_first_error_stays(items@, desc@, field@, i as int + 1);
                }
                return Err(f);
            },
        }
        i += 1;
    }
    assert(items@.take(items@.len() as int) =~= items@);
    Ok(ids)
}

/// An error met at a prefix of the candidates is the whole list's error.
proof fn lemma_first_error_stays(items: Seq<JsonValue>, desc: Seq<char>, field: Seq<char>, n: int)
    requires
        0 <= n <= items.len(),
        candidate_ids(items.take(n), desc, field) is Err,
    ensures
        candidate_ids(items, desc, field) == candidate_ids(items.take(n), desc, field),
    decreases items.len() - n,
{
    if n < items.len() {
        assert(items.take(n + 1).drop_last() =~= items.take(n));
        lemma_first_error_stays(items, desc, field, n + 1);
    } else {
        assert(items.take(n) =~= items);
    }
}

/// Whether a selector leaves this id out: only a non-empty exclusion
/// excludes anything.
pub open spec fn excluded(id: Seq<char>, exclude: Seq<char>) -> bool {
    exclude.len() > 0 && id == exclude
}

/// The workspace rows of the first `n` candidates: every candidate not
/// excluded, labelled `<label> (<id>)`.
pub open spec fn kept_workspace_rows(items: Seq<JsonValue>, ids: Seq<Seq<char>>, exclude: Seq<char>, n: nat) -> Seq<RowV>
    decreases n,
{
    if n == 0 {
        Seq::empty()
    } else {
        let rows = kept_workspace_rows(items, ids, exclude, (n - 1) as nat);
        let id = ids[n - 1];
        if excluded(id, exclude) {
            rows
        } else {
            rows.push(RowV { id, label: item_label(items[n - 1], "label"@) + " ("@ + id + ")"@, hint: Seq::empty() })
        }
    }
}

/// The rows a `workspace list` output offers to the workspace selector.
pub open spec fn workspace_rows_of(doc: Option<JsonValue>, exclude: Seq<char>) -> Result<Seq<RowV>, Seq<char>> {
    match collection_of(doc, "workspaces"@) {
        None => Err(shape_message("workspace list"@)),
        Some(items) => match candidate_ids(items, "workspace list"@, "workspace_id"@) {
            Err(e) => Err(e),
            Ok(ids) => Ok(kept_workspace_rows(items, ids, exclude, items.len())),
        },
    }
}

/// `<first><second><third>` as one string.
fn joined(a: &str, b: &str, c: &str) -> (r: String)
    ensures
        r@ == a@ + b@ + c@,
{
    let mut m = owned(a);
    m.append(b);
    m.append(c);
    m
}

/// The workspace selector's rows of a parsed list, as `workspace_rows_of` defines them.
pub fn workspace_rows_in(doc: &Option<JsonValue>, exclude: &str) -> (r: Result<Vec<Row>, Fatal>)
    ensures
        match r {
            Ok(rows) => workspace_rows_of(*doc, exclude@) == Ok::<Seq<RowV>, Seq<char>>(row_views(rows@)),
            Err(f) => workspace_rows_of(*doc, exclude@) == Err::<Seq<RowV>, Seq<char>>(f.0@),
        },
{
    let spec = SelectSpec::workspaces();
    let items = match get_in(get_in(doc.as_ref(), "result"), spec.collection) {
        Some(JsonValue::Array(items)) => items,
        _ => return Err(shape_error(spec.desc)),
    };
    let ids = match collect_ids(items, spec.desc, spec.id_field) {
        Ok(ids) => ids,
        Err(f) => return Err(f),
    };
    let ghost idv = ids@.map_values(|s: String| s@);
    let mut rows: Vec<Row> = Vec::new();
    let mut i: usize = 0;
    assert(row_views(rows@) =~= Seq::<RowV>::empty());
    while i < items.len()
        invariant
            0 <= i <= items@.len(),
            ids@.len() == items@.len(),
            idv == ids@.map_values(|s: String| s@),
            row_views(rows@) == kept_workspace_rows(items@, idv, exclude@, i as nat),
        decreases items@.len() - i,
    {
        let id = &ids[i];
        if !(!exclude.is_empty() && str_eq(id.as_str(), exclude)) {
            let label = item_label_of(&items[i], "label");
            let ghost before = row_views(rows@);
            let mut text = joined(label.as_str(), " (", id.as_str());
            text.append(")");
            rows.push(Row { id: id.clone(), label: text, hint: String::new() });
            let ghost after = row_views(rows@);
            assert(idv[i as int] == id@);
            assert(after =~= before.push(
                RowV { id: idv[i as int], label: item_label(items@[i as int], "label"@) + " ("@ + idv[i as int] + ")"@, hint: Seq::empty() },
            ));
        }
        i += 1;
    }
    Ok(rows)
}

/// The workspace selector's rows, as `workspace_rows_of` defines them.
pub fn workspace_rows(raw: &str, exclude: &str) -> (r: Result<Vec<Row>, Fatal>)
    ensures
        match r {
            Ok(rows) => workspace_rows_of(parsed(raw@), exclude@) == Ok::<Seq<RowV>, Seq<char>>(row_views(rows@)),
            Err(f) => workspace_rows_of(parsed(raw@), exclude@) == Err::<Seq<RowV>, Seq<char>>(f.0@),
        },
{
    let doc = parse_json_opt(raw);
    workspace_rows_in(&doc, exclude)
}

/// The workspace id to label pairs of a `workspace list` output, in
/// order; a later pair for the same id wins over an earlier one. A
/// candidate without a workspace id is skipped; one whose id is not a
/// string fails the lookup's build.
pub open spec fn label_pairs(items: Seq<JsonValue>) -> Result<Seq<(Seq<char>, Seq<char>)>, Seq<char>>
    decreases items.len(),
{
    if items.len() == 0 {
        Ok(Seq::empty())
    } else {
        match label_pairs(items.drop_last()) {
            Err(e) => Err(e),
            Ok(pairs) => match get(items.last(), "workspace_id"@) {
                None => Ok(pairs),
                Some(JsonValue::Null) => Ok(pairs),
                Some(JsonValue::Str(id)) => Ok(pairs.push((id@, item_label(items.last(), "label"@)))),
                Some(_) => Err("command-palette: failed to build workspace label lookup"@),
            },
        }
    }
}

pub open spec fn label_map_of(doc: Option<JsonValue>) -> Result<Seq<(Seq<char>, Seq<char>)>, Seq<char>> {
    match collection_of(doc, "workspaces"@) {
        None => Err(shape_message("workspace list"@)),
        Some(items) => label_pairs(items),
    }
}

/// The label of `key` in a lookup: the last pair for it.
pub open spec fn label_lookup(pairs: Seq<(Seq<char>, Seq<char>)>, key: Seq<char>) -> Option<Seq<char>>
    decreases pairs.len(),
{
    if pairs.len() == 0 {
        None
    } else if pairs.last().0 == key {
        Some(pairs.last().1)
    } else {
        label_lookup(pairs.drop_last(), key)
    }
}

pub open spec fn pair_views(pairs: Seq<(String, String)>) -> Seq<(Seq<char>, Seq<char>)> {
    pairs.map_values(|p: (String, String)| (p.0@, p.1@))
}

proof fn lemma_label_error_stays(items: Seq<JsonValue>, n: int)
    requires
        0 <= n <= items.len(),
        label_pairs(items.take(n)) is Err,
    ensures
        label_pairs(items) == label_pairs(items.take(n)),
    decreases items.len() - n,
{
    if n < items.len() {
        assert(items.take(n + 1).drop_last() =~= items.take(n));
        lemma_label_error_stays(items, n + 1);
    } else {
        assert(items.take(n) =~= items);
    }
}

/// The workspace label lookup of a parsed `workspace list` output, as `label_map_of` defines it.
#[verifier::spinoff_prover]
#[verifier::rlimit(30)]
pub fn label_map_in(doc: &Option<JsonValue>) -> (r: Result<Vec<(String, String)>, Fatal>)
    ensures
        match r {
            Ok(pairs) => label_map_of(*doc) == Ok::<Seq<(Seq<char>, Seq<char>)>, Seq<char>>(pair_views(pairs@)),
            Err(f) => label_map_of(*doc) == Err::<Seq<(Seq<char>, Seq<char>)>, Seq<char>>(f.0@),
        },
{
    let items = match get_in(get_in(doc.as_ref(), "result"), "workspaces") {
        Some(JsonValue::Array(items)) => items,
        _ => return Err(shape_error("workspace list")),
    };
    assert(collection_of(*doc, "workspaces"@) == Some(items@));
    let mut pairs: Vec<(String, String)> = Vec::new();
    let mut i: usize = 0;
    assert(items@.take(0) =~= Seq::<JsonValue>::empty());
    assert(pair_views(pairs@) =~= Seq::<(Seq<char>, Seq<char>)>::empty());
    while i < items.len()
        invariant
            0 <= i <= items@.len(),
            collection_of(*doc, "workspaces"@) == Some(items@),
            label_pairs(items@.take(i as int)) == Ok::<Seq<(Seq<char>, Seq<char>)>, Seq<char>>(pair_views(pairs@)),
        decreases items@.len() - i,
    {
        let item = &items[i];
        assert(items@.take(i + 1).drop_last() =~= items@.take(i as int));
        assert(items@.take(i + 1).last() == *item);
        match item.get("workspace_id") {
            None => {},
            Some(JsonValue::Null) => {},
            Some(JsonValue::Str(id)) => {
                let label = item_label_of(item, "label");
                let ghost before = pair_views(pairs@);
                pairs.push((id.clone(), label));
                assert(pair_views(pairs@) =~= before.push((id@, item_label(*item, "label"@))));
            },
            Some(_) => {
                proof {
                    lemma_label_error_stays(items@, i as int + 1);
                }
                return Err(Fatal::new("command-palette: failed to build workspace label lookup"));
            },
        }
        i += 1;
    }
    assert(items@.take(items@.len() as int) =~= items@);
    Ok(pairs)
}

/// The workspace label lookup of a `workspace list` output, as
/// `label_map_of` defines it.
pub fn workspace_label_map(raw: &str) -> (r: Result<Vec<(String, String)>, Fatal>)
    ensures
        match r {
            Ok(pairs) => label_map_of(parsed(raw@)) == Ok::<Seq<(Seq<char>, Seq<char>)>, Seq<char>>(pair_views(pairs@)),
            Err(f) => label_map_of(parsed(raw@)) == Err::<Seq<(Seq<char>, Seq<char>)>, Seq<char>>(f.0@),
        },
{
    let doc = parse_json_opt(raw);
    label_map_in(&doc)
}

/// The label of `key`, as `label_lookup` defines it.
fn lookup_label(pairs: &Vec<(String, String)>, key: &str) -> (r: Option<String>)
    ensures
        match r {
            Some(l) => label_lookup(pair_views(pairs@), key@) == Some(l@),
            None => label_lookup(pair_views(pairs@), key@) is None,
        },
{
    let mut n: usize = pairs.len();
    assert(pairs@.take(n as int) =~= pairs@);
    while n > 0
        invariant
            0 <= n <= pairs@.len(),
            label_lookup(pair_views(pairs@), key@) == label_lookup(pair_views(pairs@.take(n as int)), key@),
        decreases n,
    {
        let ghost pv = pair_views(pairs@.take(n as int));
        assert(pv.last() == (pairs@[n - 1].0@, pairs@[n - 1].1@));
        assert(pv.drop_last() =~= pair_views(pairs@.take(n - 1)));
        if str_eq(pairs[n - 1].0.as_str(), key) {
            return Some(pairs[n - 1].1.clone());
        }
        n -= 1;
    }
    None
}

/// The row of one tab or agent candidate: prefixed with its workspace's
/// label (or the workspace id itself when the lookup has none). A
/// candidate without a string workspace id fails the build.
pub open spec fn prefixed_row(item: JsonValue, id: Seq<char>, pairs: Seq<(Seq<char>, Seq<char>)>, spec: SelectSpecV) -> Result<RowV, Seq<char>> {
    match get(item, "workspace_id"@) {
        Some(JsonValue::Str(ws)) => {
            let ws_label = match label_lookup(pairs, ws@) {
                Some(l) => l,
                None => ws@,
            };
            Ok(
                RowV {
                    id,
                    label: ws_label + " / "@ + spec.label_prefix + item_label(item, spec.label_field) + " ("@ + id
                        + ")"@,
                    hint: Seq::empty(),
                },
            )
        },
        _ => Err("command-palette: failed to build "@ + spec.desc + " candidates"@),
    }
}

pub open spec fn kept_prefixed_rows(
    items: Seq<JsonValue>,
    ids: Seq<Seq<char>>,
    pairs: Seq<(Seq<char>, Seq<char>)>,
    exclude: Seq<char>,
    spec: SelectSpecV,
    n: nat,
) -> Result<Seq<RowV>, Seq<char>>
    decreases n,
{
    if n == 0 {
        Ok(Seq::empty())
    } else {
        match kept_prefixed_rows(items, ids, pairs, exclude, spec, (n - 1) as nat) {
            Err(e) => Err(e),
            Ok(rows) => if excluded(ids[n - 1], exclude) {
                Ok(rows)
            } else {
                match prefixed_row(items[n - 1], ids[n - 1], pairs, spec) {
                    Err(e) => Err(e),
                    Ok(row) => Ok(rows.push(row)),
                }
            },
        }
    }
}

/// The rows a `tab list` or `agent list` output offers to its selector.
pub open spec fn prefixed_rows_of(
    doc: Option<JsonValue>,
    pairs: Seq<(Seq<char>, Seq<char>)>,
    exclude: Seq<char>,
    spec: SelectSpecV,
) -> Result<Seq<RowV>, Seq<char>> {
    match collection_of(doc, spec.collection) {
        None => Err(shape_message(spec.desc)),
        Some(items) => match candidate_ids(items, spec.desc, spec.id_field) {
            Err(e) => Err(e),
            Ok(ids) => kept_prefixed_rows(items, ids, pairs, exclude, spec, items.len()),
        },
    }
}

proof fn lemma_prefixed_error_stays(
    items: Seq<JsonValue>,
    ids: Seq<Seq<char>>,
    pairs: Seq<(Seq<char>, Seq<char>)>,
    exclude: Seq<char>,
    spec: SelectSpecV,
    n: nat,
)
    requires
        n <= items.len(),
        kept_prefixed_rows(items, ids, pairs, exclude, spec, n) is Err,
    ensures
        kept_prefixed_rows(items, ids, pairs, exclude, spec, items.len()) == kept_prefixed_rows(items, ids, pairs, exclude, spec, n),
    decreases items.len() - n,
{
    if n < items.len() {
        lemma_prefixed_error_stays(items, ids, pairs, exclude, spec, n + 1);
    }
}

/// One candidate's row, as `prefixed_row` defines it.
fn prefixed_row_for(item: &JsonValue, id: &String, workspace_labels: &Vec<(String, String)>, spec: &SelectSpec) -> (r: Result<Row, Fatal>)
    ensures
        match r {
            Ok(row) => prefixed_row(*item, id@, pair_views(workspace_labels@), spec@) == Ok::<RowV, Seq<char>>(row@),
            Err(f) => prefixed_row(*item, id@, pair_views(workspace_labels@), spec@) == Err::<RowV, Seq<char>>(f.0@),
        },
{
    let ws_label = match item.get("workspace_id") {
        Some(JsonValue::Str(ws_id)) => match lookup_label(workspace_labels, ws_id.as_str()) {
            Some(l) => l,
            None => ws_id.clone(),
        },
        _ => {
            let mut m = owned("command-palette: failed to build ");
            m.append(spec.desc);
            m.append(" candidates");
            return Err(Fatal(m));
        },
    };
    let label = item_label_of(item, spec.label_field);
    let mut text = joined(ws_label.as_str(), " / ", spec.label_prefix);
    text.append(label.as_str());
    text.append(" (");
    text.append(id.as_str());
    text.append(")");
    Ok(Row { id: id.clone(), label: text, hint: String::new() })
}

/// The tab or agent selector's rows of a parsed list, as `prefixed_rows_of` defines them.
#[verifier::spinoff_prover]
#[verifier::rlimit(40)]
pub fn prefixed_rows_in(doc: &Option<JsonValue>, workspace_labels: &Vec<(String, String)>, exclude: &str, spec: &SelectSpec) -> (r: Result<Vec<Row>, Fatal>)
    ensures
        match r {
            Ok(rows) => prefixed_rows_of(*doc, pair_views(workspace_labels@), exclude@, spec@) == Ok::<Seq<RowV>, Seq<char>>(row_views(rows@)),
            Err(f) => prefixed_rows_of(*doc, pair_views(workspace_labels@), exclude@, spec@) == Err::<Seq<RowV>, Seq<char>>(f.0@),
        },
{
    let items = match get_in(get_in(doc.as_ref(), "result"), spec.collection) {
        Some(JsonValue::Array(items)) => items,
        _ => return Err(shape_error(spec.desc)),
    };
    let ids = match collect_ids(items, spec.desc, spec.id_field) {
        Ok(ids) => ids,
        Err(f) => return Err(f),
    };
    let ghost idv = ids@.map_values(|s: String| s@);
    let ghost pairs = pair_views(workspace_labels@);
    let mut rows: Vec<Row> = Vec::new();
    let mut i: usize = 0;
    assert(row_views(rows@) =~= Seq::<RowV>::empty());
    while i < items.len()
        invariant
            0 <= i <= items@.len(),
            ids@.len() == items@.len(),
            idv == ids@.map_values(|s: String| s@),
            pairs == pair_views(workspace_labels@),
            collection_of(*doc, spec.collection@) == Some(items@),
            candidate_ids(items@, spec.desc@, spec.id_field@) == Ok::<Seq<Seq<char>>, Seq<char>>(idv),
            kept_prefixed_rows(items@, idv, pairs, exclude@, spec@, i as nat) == Ok::<Seq<RowV>, Seq<char>>(row_views(rows@)),
        decreases items@.len() - i,
    {
        let id = &ids[i];
        assert(idv[i as int] == id@);
        if !(!exclude.is_empty() && str_eq(id.as_str(), exclude)) {
            match prefixed_row_for(&items[i], id, workspace_labels, spec) {
                Ok(row) => {
                    let ghost before = row_views(rows@);
                    rows.push(row);
                    assert(row_views(rows@) =~= before.push(row@));
                },
                Err(f) => {
                    proof {
                        lemma_prefixed_error_stays(items@, idv, pairs, exclude@, spec@, i as nat + 1);
                    }
                    return Err(f);
                },
            }
        }
        i += 1;
    }
    Ok(rows)
}

/// The tab or agent selector's rows, as `prefixed_rows_of` defines them.
pub fn prefixed_rows(raw: &str, workspace_labels: &Vec<(String, String)>, exclude: &str, spec: &SelectSpec) -> (r: Result<Vec<Row>, Fatal>)
    ensures
        match r {
            Ok(rows) => prefixed_rows_of(parsed(raw@), pair_views(workspace_labels@), exclude@, spec@) == Ok::<Seq<RowV>, Seq<char>>(row_views(rows@)),
            Err(f) => prefixed_rows_of(parsed(raw@), pair_views(workspace_labels@), exclude@, spec@) == Err::<Seq<RowV>, Seq<char>>(f.0@),
        },
{
    let doc = parse_json_opt(raw);
    prefixed_rows_in(&doc, workspace_labels, exclude, spec)
}


// ----- Resolving a command's arguments, step by step -----

/// What one argument needs, or what it came to, given the answers it has
/// had so far.
pub enum ArgStep {
    Value(Seq<char>),
    Cancel,
    Fail(Seq<char>),
    /// Run `herdr <argv>`; the second field names the call in messages.
    AskList(Seq<Seq<char>>, Seq<char>),
    /// An input screen: header, prompt, initial text.
    AskInput(Seq<char>, Seq<char>, Seq<char>),
    /// A pick screen: header, prompt, rows.
    AskPick(Seq<char>, Seq<char>, Seq<RowV>),
}

/// The answers one argument has had: the list calls' outcomes (standard
/// output, or the failure's detail), the input screen's (`None` inside:
/// cancelled) and the pick screen's.
pub struct ArgAnswers {
    pub lists: Seq<Result<Seq<char>, Seq<char>>>,
    pub entered: Option<Option<Seq<char>>>,
    pub picked: Option<Option<Seq<char>>>,
}

pub open spec fn no_answers() -> ArgAnswers {
    ArgAnswers { lists: Seq::empty(), entered: None, picked: None }
}

pub open spec fn static_value(key: StaticContextKey, origin: Origin) -> Seq<char> {
    match key {
        StaticContextKey::PaneId => origin.pane_id@,
        StaticContextKey::TabId => origin.tab_id@,
        StaticContextKey::WorkspaceId => origin.workspace_id@,
        StaticContextKey::Cwd => origin.cwd@,
    }
}

/// A screen's own description, falling back to the command's.
pub open spec fn screen_header_of(description: Option<String>, entry: CommandEntry) -> Seq<char> {
    match description {
        Some(d) if d@.len() > 0 => d@,
        _ => match entry.description {
            Some(d) => d@,
            None => Seq::empty(),
        },
    }
}

pub open spec fn list_failed(desc: Seq<char>, detail: Seq<char>) -> Seq<char> {
    "command-palette: herdr "@ + desc + " failed:\n"@ + detail
}

/// The list a computed context key is read from, and which way it wraps.
pub open spec fn computed_of(key: ContextKey) -> Option<(ListKind, Direction)> {
    match key {
        ContextKey::NextWorkspaceId => Some((ListKind::Workspaces, Direction::Next)),
        ContextKey::PreviousWorkspaceId => Some((ListKind::Workspaces, Direction::Previous)),
        ContextKey::NextTabId => Some((ListKind::Tabs, Direction::Next)),
        ContextKey::PreviousTabId => Some((ListKind::Tabs, Direction::Previous)),
        _ => None,
    }
}

/// `herdr workspace list`, or `herdr tab list` of the origin workspace.
pub open spec fn list_argv(kind: ListKind, origin: Origin) -> Seq<Seq<char>> {
    match kind {
        ListKind::Workspaces => seq!["workspace"@, "list"@],
        ListKind::Tabs => seq!["tab"@, "list"@, "--workspace"@, origin.workspace_id@],
    }
}

/// The origin's own id in a list of that kind.
pub open spec fn origin_id_of(kind: ListKind, origin: Origin) -> Seq<char> {
    match kind {
        ListKind::Workspaces => origin.workspace_id@,
        ListKind::Tabs => origin.tab_id@,
    }
}

/// The neighbour of the origin in the list the first answer holds.
#[verifier::opaque]
pub open spec fn computed_step(kind: ListKind, direction: Direction, origin: Origin, answers: ArgAnswers) -> ArgStep {
    if answers.lists.len() == 0 {
        ArgStep::AskList(list_argv(kind, origin), list_desc(kind))
    } else {
        match answers.lists[0] {
            Err(detail) => ArgStep::Fail(list_failed(list_desc(kind), detail)),
            Ok(raw) => match neighbor(
                parsed(raw),
                list_desc(kind),
                list_collection(kind),
                list_id_field(kind),
                direction,
                origin_id_of(kind, origin),
            ) {
                Ok(id) => ArgStep::Value(id),
                Err(m) => ArgStep::Fail(m),
            },
        }
    }
}

/// Once a selector's rows are known: nothing to offer cancels, else the
/// pick screen decides.
pub open spec fn pick_step(rows: Result<Seq<RowV>, Seq<char>>, header: Seq<char>, prompt: Seq<char>, answers: ArgAnswers) -> ArgStep {
    match rows {
        Err(m) => ArgStep::Fail(m),
        Ok(rows) => if rows.len() == 0 {
            ArgStep::Cancel
        } else {
            match answers.picked {
                None => ArgStep::AskPick(header, prompt, rows),
                Some(None) => ArgStep::Cancel,
                Some(Some(id)) => ArgStep::Value(id),
            }
        },
    }
}

/// A selector: its list call(s), then the pick.
#[verifier::opaque]
pub open spec fn select_step(selector: Selector, exclude: Seq<char>, header: Seq<char>, prompt: Seq<char>, answers: ArgAnswers) -> ArgStep {
    let ws_argv = seq!["workspace"@, "list"@];
    match selector {
        Selector::Workspaces => if answers.lists.len() == 0 {
            ArgStep::AskList(ws_argv, "workspace list"@)
        } else {
            match answers.lists[0] {
                Err(detail) => ArgStep::Fail(list_failed("workspace list"@, detail)),
                Ok(raw) => pick_step(workspace_rows_of(parsed(raw), exclude), header, prompt, answers),
            }
        },
        _ => {
            let sel = if selector == Selector::Tabs { tabs_select() } else { agents_select() };
            let first_argv = if selector == Selector::Tabs { seq!["tab"@, "list"@] } else { seq!["agent"@, "list"@] };
            if answers.lists.len() == 0 {
                ArgStep::AskList(first_argv, sel.desc)
            } else {
                match answers.lists[0] {
                    Err(detail) => ArgStep::Fail(list_failed(sel.desc, detail)),
                    Ok(raw) => if answers.lists.len() == 1 {
                        ArgStep::AskList(ws_argv, "workspace list"@)
                    } else {
                        match answers.lists[1] {
                            Err(detail) => ArgStep::Fail(list_failed("workspace list"@, detail)),
                            Ok(ws_raw) => match label_map_of(parsed(ws_raw)) {
                                Err(m) => ArgStep::Fail(m),
                                Ok(pairs) => pick_step(prefixed_rows_of(parsed(raw), pairs, exclude, sel), header, prompt, answers),
                            },
                        }
                    },
                }
            }
        },
    }
}

/// A context argument: a static key is read off the origin (the working
/// directory must exist), a computed one is the origin's neighbour.
pub open spec fn context_step(key: ContextKey, origin: Origin, answers: ArgAnswers, dir_ok: bool) -> ArgStep {
    match computed_of(key) {
        Some((kind, direction)) => computed_step(kind, direction, origin, answers),
        None => match key {
            ContextKey::PaneId => ArgStep::Value(origin.pane_id@),
            ContextKey::TabId => ArgStep::Value(origin.tab_id@),
            ContextKey::WorkspaceId => ArgStep::Value(origin.workspace_id@),
            _ => if origin.cwd@.len() == 0 || !dir_ok {
                ArgStep::Fail("command-palette: origin working directory is unavailable or missing"@)
            } else {
                ArgStep::Value(origin.cwd@)
            },
        },
    }
}

/// An input argument: the screen, then the submitted line, which a required
/// input must not leave empty and a directory input must name an existing
/// directory with (an optional input left empty is one empty element).
pub open spec fn input_step(
    prompt: Seq<char>,
    required: bool,
    initial: Seq<char>,
    directory: bool,
    header: Seq<char>,
    answers: ArgAnswers,
    dir_ok: bool,
) -> ArgStep {
    match answers.entered {
        None => ArgStep::AskInput(header, prompt, initial),
        Some(None) => ArgStep::Cancel,
        Some(Some(value)) => if required && value.len() == 0 {
            ArgStep::Cancel
        } else if directory && value.len() > 0 && !dir_ok {
            ArgStep::Fail("command-palette: input is not an existing directory"@)
        } else {
            ArgStep::Value(value)
        },
    }
}

/// Whether an input's validation asks for an existing directory.
pub open spec fn checks_directory(validation: Option<Validation>) -> bool {
    match validation {
        Some(Validation::Directory) => true,
        None => false,
    }
}

pub open spec fn static_or_empty(key: Option<StaticContextKey>, origin: Origin) -> Seq<char> {
    match key {
        Some(k) => static_value(k, origin),
        None => Seq::empty(),
    }
}

/// What one argument comes to. `dir_ok` is whether the directory it
/// checks (the origin's working directory for a `cwd` context, the typed
/// value for a directory input) exists.
pub open spec fn arg_step(spec: ArgSpec, entry: CommandEntry, origin: Origin, answers: ArgAnswers, dir_ok: bool) -> ArgStep {
    match spec {
        ArgSpec::Literal { value } => ArgStep::Value(value@),
        ArgSpec::Context { key } => context_step(key, origin, answers, dir_ok),
        ArgSpec::Input { prompt, required, default_context, validation, description } => input_step(
            prompt@,
            required,
            static_or_empty(default_context, origin),
            checks_directory(validation),
            screen_header_of(description, entry),
            answers,
            dir_ok,
        ),
        ArgSpec::Select { selector, prompt, exclude_context, description } => select_step(
            selector,
            static_or_empty(exclude_context, origin),
            screen_header_of(description, entry),
            prompt@,
            answers,
        ),
    }
}

/// What resolution needs next.
pub enum Need {
    /// Run `herdr <argv>` and answer with its standard output, or with the
    /// failure's detail (why it could not run, or what a failed run wrote).
    /// `desc` names the call in messages.
    List { argv: Vec<String>, desc: String },
    Input(InputScreen),
    Pick(PickScreen),
    /// Every argument is resolved, or the command was cancelled.
    Finished(Resolution),
    Failed(Fatal),
}

/// The outcome of the last piece of outside work.
pub enum Answer {
    /// Nothing yet: the first step.
    Begin,
    Listed(Result<String, String>),
    Entered(InputOutcome),
    Picked(PickOutcome),
}

/// Where resolution stands: the arguments resolved so far, and the answers
/// the next argument has had.
pub struct Resolving {
    pub args: Vec<String>,
    pub lists: Vec<Result<String, String>>,
    pub entered: Option<Option<String>>,
    pub picked: Option<Option<String>>,
}

pub open spec fn result_view(r: Result<String, String>) -> Result<Seq<char>, Seq<char>> {
    match r {
        Ok(s) => Ok(s@),
        Err(e) => Err(e@),
    }
}

pub open spec fn choice_view(c: Option<Option<String>>) -> Option<Option<Seq<char>>> {
    match c {
        None => None,
        Some(None) => Some(None),
        Some(Some(s)) => Some(Some(s@)),
    }
}

pub open spec fn strings_view(v: Seq<String>) -> Seq<Seq<char>> {
    v.map_values(|s: String| s@)
}

impl Resolving {
    /// The answers of the argument being resolved.
    pub open spec fn answers(self) -> ArgAnswers {
        ArgAnswers {
            lists: self.lists@.map_values(|r: Result<String, String>| result_view(r)),
            entered: choice_view(self.entered),
            picked: choice_view(self.picked),
        }
    }

    /// Nothing resolved, nothing answered.
    pub fn new() -> (r: Resolving)
        ensures
            r.args@.len() == 0,
            r.answers() == no_answers(),
    {
        let r = Resolving { args: Vec::new(), lists: Vec::new(), entered: None, picked: None };
        assert(r.answers().lists =~= Seq::<Result<Seq<char>, Seq<char>>>::empty());
        r
    }
}

/// `answers` with one more answer recorded.
pub open spec fn recorded(answers: ArgAnswers, answer: Answer) -> ArgAnswers {
    match answer {
        Answer::Begin => answers,
        Answer::Listed(r) => ArgAnswers { lists: answers.lists.push(result_view(r)), ..answers },
        Answer::Entered(InputOutcome::Submitted(v)) => ArgAnswers { entered: Some(Some(v@)), ..answers },
        Answer::Entered(InputOutcome::Cancelled) => ArgAnswers { entered: Some(None), ..answers },
        Answer::Picked(PickOutcome::Selected(id)) => ArgAnswers { picked: Some(Some(id@)), ..answers },
        Answer::Picked(PickOutcome::Cancelled) => ArgAnswers { picked: Some(None), ..answers },
    }
}

/// Whether a need is the exec form of an `ArgStep` question.
pub open spec fn asks(need: Need, step: ArgStep) -> bool {
    match need {
        Need::List { argv, desc } => step == ArgStep::AskList(strings_view(argv@), desc@),
        Need::Input(screen) => step == ArgStep::AskInput(screen.header@, screen.prompt@, screen.initial@),
        Need::Pick(screen) => step == ArgStep::AskPick(screen.header@, screen.prompt@, row_views(screen.rows@))
            && screen.placeholder@.len() == 0 && !screen.warning,
        _ => false,
    }
}

/// One argument's decision, in exec form.
pub enum ArgDecision {
    Value(String),
    Cancel,
    Fail(Fatal),
    Ask(Need),
}

pub open spec fn decided(d: ArgDecision, step: ArgStep) -> bool {
    match d {
        ArgDecision::Value(v) => step == ArgStep::Value(v@),
        ArgDecision::Cancel => step == ArgStep::Cancel,
        ArgDecision::Fail(f) => step == ArgStep::Fail(f.0@),
        ArgDecision::Ask(need) => asks(need, step),
    }
}

fn static_context(key: StaticContextKey, origin: &Origin) -> (r: String)
    ensures
        r@ == static_value(key, *origin),
{
    match key {
        StaticContextKey::PaneId => origin.pane_id.clone(),
        StaticContextKey::TabId => origin.tab_id.clone(),
        StaticContextKey::WorkspaceId => origin.workspace_id.clone(),
        StaticContextKey::Cwd => origin.cwd.clone(),
    }
}

fn screen_header(description: &Option<String>, entry: &CommandEntry) -> (r: String)
    ensures
        r@ == screen_header_of(*description, *entry),
{
    match description {
        Some(d) if !d.as_str().is_empty() => d.clone(),
        _ => match &entry.description {
            Some(d) => d.clone(),
            None => String::new(),
        },
    }
}

fn list_failure(desc: &str, detail: &str) -> (r: Fatal)
    ensures
        r.0@ == list_failed(desc@, detail@),
{
    let mut m = owned("command-palette: herdr ");
    m.append(desc);
    m.append(" failed:\n");
    m.append(detail);
    Fatal(m)
}


fn argv2(a: &str, b: &str) -> (r: Vec<String>)
    ensures
        strings_view(r@) == seq![a@, b@],
{
    let mut v: Vec<String> = Vec::new();
    v.push(owned(a));
    v.push(owned(b));
    assert(strings_view(v@) =~= seq![a@, b@]);
    v
}

fn computed_decision(kind: ListKind, direction: Direction, origin: &Origin, state: &Resolving) -> (r: ArgDecision)
    ensures
        decided(r, computed_step(kind, direction, *origin, state.answers())),
{
    reveal(computed_step);
    let spec = kind.spec();
    if state.lists.len() == 0 {
        assert(state.answers().lists.len() == 0);
        let argv = match kind {
            ListKind::Workspaces => argv2("workspace", "list"),
            ListKind::Tabs => {
                let mut v = argv2("tab", "list");
                let ghost before = strings_view(v@);
                v.push(owned("--workspace"));
                v.push(origin.workspace_id.clone());
                assert(strings_view(v@) =~= before.push("--workspace"@).push(origin.workspace_id@));
                assert(strings_view(v@) =~= seq!["tab"@, "list"@, "--workspace"@, origin.workspace_id@]);
                v
            },
        };
        return ArgDecision::Ask(Need::List { argv, desc: owned(spec.desc) });
    }
    assert(state.answers().lists[0] == result_view(state.lists@[0]));
    match &state.lists[0] {
        Err(detail) => ArgDecision::Fail(list_failure(spec.desc, detail.as_str())),
        Ok(raw) => {
            let origin_id = match kind {
                ListKind::Workspaces => origin.workspace_id.as_str(),
                ListKind::Tabs => origin.tab_id.as_str(),
            };
            match neighbor_from_json(raw.as_str(), &spec, direction, origin_id) {
                Ok(id) => ArgDecision::Value(id),
                Err(f) => ArgDecision::Fail(f),
            }
        },
    }
}

fn pick_decision(rows: Result<Vec<Row>, Fatal>, header: String, prompt: String, state: &Resolving) -> (r: ArgDecision)
    ensures
        decided(
            r,
            pick_step(
                match rows {
                    Ok(rows) => Ok(row_views(rows@)),
                    Err(f) => Err(f.0@),
                },
                header@,
                prompt@,
                state.answers(),
            ),
        ),
{
    match rows {
        Err(f) => ArgDecision::Fail(f),
        Ok(rows) => {
            if rows.len() == 0 {
                return ArgDecision::Cancel;
            }
            match &state.picked {
                None => ArgDecision::Ask(
                    Need::Pick(PickScreen { header, prompt, placeholder: String::new(), rows, warning: false }),
                ),
                Some(None) => ArgDecision::Cancel,
                Some(Some(id)) => ArgDecision::Value(id.clone()),
            }
        },
    }
}

fn select_decision(selector: Selector, exclude: String, header: String, prompt: String, state: &Resolving) -> (r: ArgDecision)
    ensures
        decided(r, select_step(selector, exclude@, header@, prompt@, state.answers())),
{
    reveal(select_step);
    let ghost answers = state.answers();
    match selector {
        Selector::Workspaces => {
            if state.lists.len() == 0 {
                return ArgDecision::Ask(Need::List { argv: argv2("workspace", "list"), desc: owned("workspace list") });
            }
            assert(answers.lists[0] == result_view(state.lists@[0]));
            match &state.lists[0] {
                Err(detail) => ArgDecision::Fail(list_failure("workspace list", detail.as_str())),
                Ok(raw) => pick_decision(workspace_rows(raw.as_str(), exclude.as_str()), header, prompt, state),
            }
        },
        _ => {
            let sel = if selector == Selector::Tabs { SelectSpec::tabs() } else { SelectSpec::agents() };
            if state.lists.len() == 0 {
                let argv = if selector == Selector::Tabs { argv2("tab", "list") } else { argv2("agent", "list") };
                return ArgDecision::Ask(Need::List { argv, desc: owned(sel.desc) });
            }
            assert(answers.lists[0] == result_view(state.lists@[0]));
            match &state.lists[0] {
                Err(detail) => ArgDecision::Fail(list_failure(sel.desc, detail.as_str())),
                Ok(raw) => {
                    if state.lists.len() == 1 {
                        return ArgDecision::Ask(Need::List { argv: argv2("workspace", "list"), desc: owned("workspace list") });
                    }
                    assert(answers.lists[1] == result_view(state.lists@[1]));
                    match &state.lists[1] {
                        Err(detail) => ArgDecision::Fail(list_failure("workspace list", detail.as_str())),
                        Ok(ws_raw) => match workspace_label_map(ws_raw.as_str()) {
                            Err(f) => ArgDecision::Fail(f),
                            Ok(pairs) => pick_decision(prefixed_rows(raw.as_str(), &pairs, exclude.as_str(), &sel), header, prompt, state),
                        },
                    }
                },
            }
        },
    }
}

fn context_decision(key: ContextKey, origin: &Origin, state: &Resolving) -> (r: ArgDecision)
    ensures
        exists|dir_ok: bool| #[trigger] decided(r, context_step(key, *origin, state.answers(), dir_ok)),
{
    let computed = match key {
        ContextKey::NextWorkspaceId => Some((ListKind::Workspaces, Direction::Next)),
        ContextKey::PreviousWorkspaceId => Some((ListKind::Workspaces, Direction::Previous)),
        ContextKey::NextTabId => Some((ListKind::Tabs, Direction::Next)),
        ContextKey::PreviousTabId => Some((ListKind::Tabs, Direction::Previous)),
        _ => None,
    };
    assert(computed == computed_of(key));
    match computed {
        Some((kind, direction)) => {
            let r = computed_decision(kind, direction, origin, state);
            assert(decided(r, context_step(key, *origin, state.answers(), true)));
            r
        },
        None => {
            let r = match key {
                ContextKey::PaneId => ArgDecision::Value(origin.pane_id.clone()),
                ContextKey::TabId => ArgDecision::Value(origin.tab_id.clone()),
                ContextKey::WorkspaceId => ArgDecision::Value(origin.workspace_id.clone()),
                _ => {
                    let ok = !origin.cwd.as_str().is_empty() && path_is_dir(origin.cwd.as_str());
                    if !ok {
                        let r = ArgDecision::Fail(
                            Fatal::new("command-palette: origin working directory is unavailable or missing"),
                        );
                        assert(decided(r, context_step(key, *origin, state.answers(), false)));
                        return r;
                    }
                    ArgDecision::Value(origin.cwd.clone())
                },
            };
            assert(decided(r, context_step(key, *origin, state.answers(), true)));
            r
        },
    }
}

fn input_decision(
    prompt: &String,
    required: bool,
    initial: String,
    directory: bool,
    header: String,
    state: &Resolving,
) -> (r: ArgDecision)
    ensures
        exists|dir_ok: bool|
            #[trigger] decided(r, input_step(prompt@, required, initial@, directory, header@, state.answers(), dir_ok)),
{
    match &state.entered {
        None => {
            let r = ArgDecision::Ask(Need::Input(InputScreen { header, prompt: prompt.clone(), initial }));
            assert(decided(r, input_step(prompt@, required, initial@, directory, header@, state.answers(), true)));
            r
        },
        Some(None) => {
            let r = ArgDecision::Cancel;
            assert(decided(r, input_step(prompt@, required, initial@, directory, header@, state.answers(), true)));
            r
        },
        Some(Some(value)) => {
            if required && value.as_str().is_empty() {
                let r = ArgDecision::Cancel;
                assert(decided(r, input_step(prompt@, required, initial@, directory, header@, state.answers(), true)));
                return r;
            }
            if directory && !value.as_str().is_empty() && !path_is_dir(value.as_str()) {
                let r = ArgDecision::Fail(Fatal::new("command-palette: input is not an existing directory"));
                assert(decided(r, input_step(prompt@, required, initial@, directory, header@, state.answers(), false)));
                return r;
            }
            let r = ArgDecision::Value(value.clone());
            assert(decided(r, input_step(prompt@, required, initial@, directory, header@, state.answers(), true)));
            r
        },
    }
}

fn static_or_nothing(key: &Option<StaticContextKey>, origin: &Origin) -> (r: String)
    ensures
        r@ == static_or_empty(*key, *origin),
{
    match key {
        Some(k) => static_context(*k, origin),
        None => String::new(),
    }
}

/// One argument's decision, as `arg_step` defines it for whatever the
/// directory check found.
fn arg_decision(spec: &ArgSpec, entry: &CommandEntry, origin: &Origin, state: &Resolving) -> (r: ArgDecision)
    ensures
        exists|dir_ok: bool| #[trigger] decided(r, arg_step(*spec, *entry, *origin, state.answers(), dir_ok)),
{
    match spec {
        ArgSpec::Literal { value } => {
            let r = ArgDecision::Value(value.clone());
            assert(decided(r, arg_step(*spec, *entry, *origin, state.answers(), true)));
            r
        },
        ArgSpec::Context { key } => {
            let r = context_decision(*key, origin, state);
            let ghost b = choose|b: bool| #[trigger] decided(r, context_step(*key, *origin, state.answers(), b));
            assert(decided(r, arg_step(*spec, *entry, *origin, state.answers(), b)));
            r
        },
        ArgSpec::Input { prompt, required, default_context, validation, description } => {
            let directory = match validation {
                Some(Validation::Directory) => true,
                None => false,
            };
            assert(directory == checks_directory(*validation));
            let r = input_decision(
                prompt,
                *required,
                static_or_nothing(default_context, origin),
                directory,
                screen_header(description, entry),
                state,
            );
            let ghost b = choose|b: bool|
                #[trigger] decided(
                    r,
                    input_step(
                        prompt@,
                        *required,
                        static_or_empty(*default_context, *origin),
                        directory,
                        screen_header_of(*description, *entry),
                        state.answers(),
                        b,
                    ),
                );
            assert(decided(r, arg_step(*spec, *entry, *origin, state.answers(), b)));
            r
        },
        ArgSpec::Select { selector, prompt, exclude_context, description } => {
            let r = select_decision(
                *selector,
                static_or_nothing(exclude_context, origin),
                screen_header(description, entry),
                prompt.clone(),
                state,
            );
            assert(decided(r, arg_step(*spec, *entry, *origin, state.answers(), true)));
            r
        },
    }
}


pub(crate) fn copy_strings(v: &Vec<String>) -> (r: Vec<String>)
    ensures
        strings_view(r@) == strings_view(v@),
{
    let mut out: Vec<String> = Vec::new();
    let mut i: usize = 0;
    while i < v.len()
        invariant
            0 <= i <= v@.len(),
            strings_view(out@) == strings_view(v@.take(i as int)),
        decreases v@.len() - i,
    {
        let ghost before = strings_view(out@);
        out.push(v[i].clone());
        assert(strings_view(out@) =~= before.push(v@[i as int]@));
        assert(strings_view(v@.take(i + 1)) =~= strings_view(v@.take(i as int)).push(v@[i as int]@));
        i += 1;
    }
    assert(v@.take(v@.len() as int) =~= v@);
    out
}

/// The answers argument `k` was decided on during a step that started at
/// argument `start` with `first` as its answers: every later argument
/// started from none.
pub open spec fn answers_at(k: int, start: int, first: ArgAnswers) -> ArgAnswers {
    if k == start {
        first
    } else {
        no_answers()
    }
}

/// Whether an argument, with these answers, comes to `step` for some
/// outcome of its directory check.
pub open spec fn resolves_to(spec: ArgSpec, entry: CommandEntry, origin: Origin, answers: ArgAnswers, step: ArgStep) -> bool {
    exists|dir_ok: bool| #[trigger] arg_step(spec, entry, origin, answers, dir_ok) == step
}

/// The argument step a need that is not a finished resolution reports:
/// a cancel, a failure, or the question it asks.
pub open spec fn outcome_step(need: Need) -> ArgStep {
    match need {
        Need::List { argv, desc } => ArgStep::AskList(strings_view(argv@), desc@),
        Need::Input(screen) => ArgStep::AskInput(screen.header@, screen.prompt@, screen.initial@),
        Need::Pick(screen) => ArgStep::AskPick(screen.header@, screen.prompt@, row_views(screen.rows@)),
        Need::Finished(_) => ArgStep::Cancel,
        Need::Failed(f) => ArgStep::Fail(f.0@),
    }
}

/// What one step of resolution does: from `before`, with `answer` recorded,
/// to `after`, reporting `need`. The arguments resolved before stay; each
/// new one has the value its argument resolves to on the answers it had; a
/// finished resolution carries every value; otherwise the next argument
/// resolves to the question, cancel or failure reported, and a selection
/// screen comes without placeholder or warning.
pub open spec fn step_taken(entry: CommandEntry, origin: Origin, before: Resolving, answer: Answer, after: Resolving, need: Need) -> bool {
    &&& before.args@.len() <= after.args@.len() <= entry.arguments@.len()
    &&& after.args@.take(before.args@.len() as int) == before.args@
    &&& forall|k: int|
        before.args@.len() <= k < after.args@.len() ==> #[trigger] resolves_to(
            entry.arguments@[k],
            entry,
            origin,
            answers_at(k, before.args@.len() as int, recorded(before.answers(), answer)),
            ArgStep::Value(after.args@[k]@),
        )
    &&& after.answers() == answers_at(
        after.args@.len() as int,
        before.args@.len() as int,
        recorded(before.answers(), answer),
    )
    &&& need is Finished && need->Finished_0 is Args ==> after.args@.len() == entry.arguments@.len()
        && strings_view(need->Finished_0->Args_0@) == strings_view(after.args@)
    &&& !(need is Finished && need->Finished_0 is Args) ==> after.args@.len() < entry.arguments@.len()
        && resolves_to(
        entry.arguments@[after.args@.len() as int],
        entry,
        origin,
        after.answers(),
        outcome_step(need),
    )
    &&& need is Pick ==> need->Pick_0.placeholder@.len() == 0 && !need->Pick_0.warning
}

/// One step of resolution: records `answer` for the argument being
/// resolved, then resolves arguments left to right until one needs outside
/// work, the command is cancelled or fails, or every argument has its
/// value.
pub fn resolve_step(entry: &CommandEntry, origin: &Origin, state: &mut Resolving, answer: Answer) -> (need: Need)
    requires
        old(state).args@.len() <= entry.arguments@.len(),
    ensures
        step_taken(*entry, *origin, *old(state), answer, *final(state), need),
{
    let ghost start = old(state).args@.len() as int;
    let ghost first = recorded(old(state).answers(), answer);
    match answer {
        Answer::Begin => {},
        Answer::Listed(r) => {
            let ghost before = state.answers().lists;
            let ghost rv = result_view(r);
            state.lists.push(r);
            assert(state.answers().lists =~= before.push(rv));
        },
        Answer::Entered(InputOutcome::Submitted(v)) => {
            state.entered = Some(Some(v));
        },
        Answer::Entered(InputOutcome::Cancelled) => {
            state.entered = Some(None);
        },
        Answer::Picked(PickOutcome::Selected(id)) => {
            state.picked = Some(Some(id));
        },
        Answer::Picked(PickOutcome::Cancelled) => {
            state.picked = Some(None);
        },
    }
    assert(state.answers() == first);
    assert(state.args@.take(start) =~= old(state).args@);
    while state.args.len() < entry.arguments.len()
        invariant
            0 <= start <= state.args@.len() <= entry.arguments@.len(),
            first == recorded(old(state).answers(), answer),
            start == old(state).args@.len(),
            state.args@.take(start) == old(state).args@,
            forall|k: int|
                start <= k < state.args@.len() ==> #[trigger] resolves_to(
                    entry.arguments@[k],
                    *entry,
                    *origin,
                    answers_at(k, old(state).args@.len() as int, recorded(old(state).answers(), answer)),
                    ArgStep::Value(state.args@[k]@),
                ),
            state.answers() == answers_at(state.args@.len() as int, old(state).args@.len() as int, recorded(old(state).answers(), answer)),
        decreases entry.arguments@.len() - state.args@.len(),
    {
        let i = state.args.len();
        let d = arg_decision(&entry.arguments[i], entry, origin, state);
        let ghost b = choose|b: bool|
            #[trigger] decided(d, arg_step(entry.arguments@[i as int], *entry, *origin, state.answers(), b));
        assert(decided(d, arg_step(entry.arguments@[i as int], *entry, *origin, answers_at(i as int, old(state).args@.len() as int, recorded(old(state).answers(), answer)), b)));
        match d {
            ArgDecision::Value(v) => {
                let ghost old_args = state.args@;
                state.args.push(v);
                assert(state.args@ =~= old_args.push(state.args@[i as int]));
                state.lists = Vec::new();
                state.entered = None;
                state.picked = None;
                assert(state.answers().lists =~= Seq::<Result<Seq<char>, Seq<char>>>::empty());
                assert(state.args@.take(start) =~= old_args.take(start));
                assert forall|k: int|
                    start <= k < state.args@.len() implies #[trigger] resolves_to(
                        entry.arguments@[k],
                        *entry,
                        *origin,
                        answers_at(k, old(state).args@.len() as int, recorded(old(state).answers(), answer)),
                        ArgStep::Value(state.args@[k]@),
                    ) by {
                    if k < i {
                        assert(state.args@[k] == old_args[k]);
                    } else {
                        assert(arg_step(entry.arguments@[k], *entry, *origin, answers_at(k, old(state).args@.len() as int, recorded(old(state).answers(), answer)), b)
                            == ArgStep::Value(state.args@[k]@));
                    }
                }
            },
            ArgDecision::Cancel => {
                assert(arg_step(entry.arguments@[i as int], *entry, *origin, answers_at(i as int, old(state).args@.len() as int, recorded(old(state).answers(), answer)), b) == ArgStep::Cancel);
                return Need::Finished(Resolution::Cancelled);
            },
            ArgDecision::Fail(f) => {
                assert(arg_step(entry.arguments@[i as int], *entry, *origin, answers_at(i as int, old(state).args@.len() as int, recorded(old(state).answers(), answer)), b) == ArgStep::Fail(f.0@));
                return Need::Failed(f);
            },
            ArgDecision::Ask(need) => {
                assert(asks(need, arg_step(entry.arguments@[i as int], *entry, *origin, answers_at(i as int, old(state).args@.len() as int, recorded(old(state).answers(), answer)), b)));
                return need;
            },
        }
    }
    let args = copy_strings(&state.args);
    assert(state.args@.len() == entry.arguments@.len());
    Need::Finished(Resolution::Args(args))
}



/// The agent rows of an `agent list` output, prefixed from a `workspace
/// list` output, with nothing excluded.
pub open spec fn agent_rows_from(raw: Seq<char>, ws_raw: Seq<char>) -> Result<Seq<RowV>, Seq<char>> {
    agent_rows_of_docs(parsed(raw), parsed(ws_raw))
}

/// The agent rows of a parsed `agent list` output, labelled from a parsed
/// `workspace list` output, with nothing excluded.
pub open spec fn agent_rows_of_docs(doc: Option<JsonValue>, ws_doc: Option<JsonValue>) -> Result<Seq<RowV>, Seq<char>> {
    match label_map_of(ws_doc) {
        Err(m) => Err(m),
        Ok(pairs) => prefixed_rows_of(doc, pairs, Seq::empty(), agents_select()),
    }
}

/// The agent selector's rows from its two list calls' outcomes (the
/// `agent list` output, then the `workspace list` one; a failed call's
/// detail), with nothing excluded, as a selector offers them.
pub open spec fn agent_rows_of(agents: Result<Seq<char>, Seq<char>>, workspaces: Result<Seq<char>, Seq<char>>) -> Result<Seq<RowV>, Seq<char>> {
    match agents {
        Err(detail) => Err(list_failed("agent list"@, detail)),
        Ok(raw) => match workspaces {
            Err(detail) => Err(list_failed("workspace list"@, detail)),
            Ok(ws_raw) => agent_rows_from(raw, ws_raw),
        },
    }
}

fn rows_with_labels(raw: &str, ws_raw: &str) -> (r: Result<Vec<Row>, Fatal>)
    ensures
        match r {
            Ok(rows) => agent_rows_from(raw@, ws_raw@) == Ok::<Seq<RowV>, Seq<char>>(row_views(rows@)),
            Err(f) => agent_rows_from(raw@, ws_raw@) == Err::<Seq<RowV>, Seq<char>>(f.0@),
        },
{
    let doc = parse_json_opt(raw);
    let ws_doc = parse_json_opt(ws_raw);
    agent_rows_in(&doc, &ws_doc)
}

/// The agent rows of parsed list outputs, as `agent_rows_of_docs` defines
/// them.
pub fn agent_rows_in(doc: &Option<JsonValue>, ws_doc: &Option<JsonValue>) -> (r: Result<Vec<Row>, Fatal>)
    ensures
        match r {
            Ok(rows) => agent_rows_of_docs(*doc, *ws_doc) == Ok::<Seq<RowV>, Seq<char>>(row_views(rows@)),
            Err(f) => agent_rows_of_docs(*doc, *ws_doc) == Err::<Seq<RowV>, Seq<char>>(f.0@),
        },
{
    let pairs = match label_map_in(ws_doc) {
        Err(f) => return Err(f),
        Ok(p) => p,
    };
    let sel = SelectSpec::agents();
    let empty = "";
    proof {
        reveal_strlit("");
    }
    assert(empty@ =~= Seq::<char>::empty());
    let r = prefixed_rows_in(doc, &pairs, empty, &sel);
    assert(sel@ == agents_select());
    r
}

/// The agent rows, as `agent_rows_of` defines them.
pub fn agent_rows(agents: &Result<String, String>, workspaces: &Result<String, String>) -> (r: Result<Vec<Row>, Fatal>)
    ensures
        match r {
            Ok(rows) => agent_rows_of(result_view(*agents), result_view(*workspaces)) == Ok::<Seq<RowV>, Seq<char>>(
                row_views(rows@),
            ),
            Err(f) => agent_rows_of(result_view(*agents), result_view(*workspaces)) == Err::<Seq<RowV>, Seq<char>>(f.0@),
        },
{
    match agents {
        Err(detail) => Err(list_failure("agent list", detail.as_str())),
        Ok(raw) => match workspaces {
            Err(detail) => Err(list_failure("workspace list", detail.as_str())),
            Ok(ws_raw) => rows_with_labels(raw.as_str(), ws_raw.as_str()),
        },
    }
}

// ----- Laws -----

/// The neighbour of a position is always a position of the list, and
/// stepping to the next and then to the previous one (or the other way
/// round) comes back to where it started.
pub proof fn lemma_wrap_around(k: int, len: int)
    requires
        0 <= k < len,
    ensures
        0 <= wrapped(k, len, Direction::Next) < len,
        0 <= wrapped(k, len, Direction::Previous) < len,
        wrapped(wrapped(k, len, Direction::Next), len, Direction::Previous) == k,
        wrapped(wrapped(k, len, Direction::Previous), len, Direction::Next) == k,
{
}

/// Next and then previous comes back: when the list names each id once,
/// the previous id of the origin's next one is the origin.
pub proof fn lemma_next_then_previous(
    doc: Option<JsonValue>,
    desc: Seq<char>,
    collection: Seq<char>,
    field: Seq<char>,
    origin_id: Seq<char>,
    next: Seq<char>,
)
    requires
        neighbor(doc, desc, collection, field, Direction::Next, origin_id) == Ok::<Seq<char>, Seq<char>>(next),
        collection_of(doc, collection) matches Some(items) && forall|i: int, j: int|
            0 <= i < j < items.len() ==> valid_list_id(#[trigger] items[i], field) != valid_list_id(#[trigger] items[j], field),
    ensures
        neighbor(doc, desc, collection, field, Direction::Previous, next) == Ok::<Seq<char>, Seq<char>>(origin_id),
{
    let items = collection_of(doc, collection)->Some_0;
    let ids = Seq::new(items.len(), |i: int| valid_list_id(items[i], field).unwrap());
    assert(forall|i: int| 0 <= i < items.len() ==> #[trigger] valid_list_id(items[i], field) is Some);
    ids.index_of_first_ensures(origin_id);
    let k = ids.index_of_first(origin_id)->Some_0;
    let len = ids.len() as int;
    lemma_wrap_around(k, len);
    let w = wrapped(k, len, Direction::Next);
    assert(next == ids[w]);
    ids.index_of_first_ensures(next);
    let m = ids.index_of_first(next)->Some_0;
    if m != w {
        assert(ids[m] == ids[w]);
        assert(valid_list_id(items[m], field) == valid_list_id(items[w], field));
        if m < w {
            assert(valid_list_id(items[m], field) != valid_list_id(items[w], field));
        } else {
            assert(valid_list_id(items[w], field) != valid_list_id(items[m], field));
        }
    }
    assert(ids[wrapped(w, len, Direction::Previous)] == origin_id);
}

/// Over successive steps, an argument once resolved keeps its value: two
/// steps in a row leave the values the first step started from untouched,
/// and never resolve more arguments than the command has.
pub proof fn lemma_resolved_values_stay(
    entry: CommandEntry,
    origin: Origin,
    first: Resolving,
    answer1: Answer,
    second: Resolving,
    need1: Need,
    answer2: Answer,
    third: Resolving,
    need2: Need,
)
    requires
        step_taken(entry, origin, first, answer1, second, need1),
        step_taken(entry, origin, second, answer2, third, need2),
    ensures
        first.args@.len() <= third.args@.len() <= entry.arguments@.len(),
        third.args@.take(first.args@.len() as int) == first.args@,
{
    assert(third.args@.take(first.args@.len() as int) =~= third.args@.take(second.args@.len() as int).take(
        first.args@.len() as int,
    ));
}

/// The ids of a list, when every item has a valid one.
pub open spec fn list_ids(items: Seq<JsonValue>, field: Seq<char>) -> Seq<Seq<char>> {
    Seq::new(items.len(), |i: int| valid_list_id(items[i], field)->Some_0)
}

/// Where the origin sits first in a list whose items all carry a valid
/// id, the neighbours are the ids just after and just before it, wrapping.
proof fn lemma_neighbor_positions(doc: Option<JsonValue>, desc: Seq<char>, collection: Seq<char>, field: Seq<char>, origin_id: Seq<char>, k: int)
    requires
        collection_of(doc, collection) matches Some(items) && {
            &&& forall|i: int| 0 <= i < items.len() ==> #[trigger] valid_list_id(items[i], field) is Some
            &&& 0 <= k < items.len()
            &&& valid_list_id(items[k], field) == Some(origin_id)
            &&& forall|j: int| 0 <= j < k ==> #[trigger] valid_list_id(items[j], field) != Some(origin_id)
        },
    ensures
        ({
            let items = collection_of(doc, collection)->Some_0;
            let ids = list_ids(items, field);
            &&& neighbor(doc, desc, collection, field, Direction::Next, origin_id) == Ok::<Seq<char>, Seq<char>>(
                ids[(k + 1) % (items.len() as int)],
            )
            &&& neighbor(doc, desc, collection, field, Direction::Previous, origin_id) == Ok::<Seq<char>, Seq<char>>(
                ids[(k + items.len() - 1) % (items.len() as int)],
            )
        }),
{
    let items = collection_of(doc, collection)->Some_0;
    let len = items.len() as int;
    let ids = Seq::new(items.len(), |i: int| valid_list_id(items[i], field).unwrap());
    assert(ids =~= list_ids(items, field));
    assert(!(exists|i: int| 0 <= i < items.len() && #[trigger] valid_list_id(items[i], field) is None));
    assert forall|j: int| 0 <= j < k implies ids[j] != origin_id by {
        assert(valid_list_id(items[j], field) != Some(origin_id));
    }
    lemma_first_at(ids, origin_id, k);
    lemma_wrap_mod(k, len);
}

/// The first position of `x` in `s` is `k` when `s[k]` is `x` and no
/// earlier element is.
proof fn lemma_first_at<A>(s: Seq<A>, x: A, k: int)
    requires
        0 <= k < s.len(),
        s[k] == x,
        forall|j: int| 0 <= j < k ==> s[j] != x,
    ensures
        s.index_of_first(x) == Some(k),
{
    s.index_of_first_ensures(x);
    assert(s.contains(x));
    let m = s.index_of_first(x)->Some_0;
    if m < k {
        assert(s[m] != x);
    }
    if k < m {
        assert(s[k] == x);
    }
}

/// Stepping with wraparound is arithmetic modulo the length.
proof fn lemma_wrap_mod(k: int, len: int)
    requires
        0 <= k < len,
    ensures
        wrapped(k, len, Direction::Next) == (k + 1) % len,
        wrapped(k, len, Direction::Previous) == (k + len - 1) % len,
{
    if k + 1 == len {
        vstd::arithmetic::div_mod::lemma_mod_self_0(len);
    } else {
        vstd::arithmetic::div_mod::lemma_small_mod((k + 1) as nat, len as nat);
    }
    if k == 0 {
        vstd::arithmetic::div_mod::lemma_small_mod((len - 1) as nat, len as nat);
    } else {
        vstd::arithmetic::div_mod::lemma_mod_add_multiples_vanish(k - 1, len);
        vstd::arithmetic::div_mod::lemma_small_mod((k - 1) as nat, len as nat);
    }
}

/// The computed context keys resolve, once their list is answered, to the
/// origin's neighbours there: `next_workspace_id` to the workspace id
/// after the origin's (the first after the last), `previous_workspace_id`
/// to the one before it (the last before the first), and the same for tab
/// ids in the tab list.
pub proof fn lemma_computed_neighbours(
    entry: CommandEntry,
    origin: Origin,
    answers: ArgAnswers,
    dir_ok: bool,
    raw: Seq<char>,
    kind: ListKind,
    k: int,
)
    requires
        answers.lists.len() > 0,
        answers.lists[0] == Ok::<Seq<char>, Seq<char>>(raw),
        collection_of(parsed(raw), list_collection(kind)) matches Some(items) && {
            &&& forall|i: int| 0 <= i < items.len() ==> #[trigger] valid_list_id(items[i], list_id_field(kind)) is Some
            &&& 0 <= k < items.len()
            &&& valid_list_id(items[k], list_id_field(kind)) == Some(origin_id_of(kind, origin))
            &&& forall|j: int| 0 <= j < k ==> #[trigger] valid_list_id(items[j], list_id_field(kind)) != Some(origin_id_of(kind, origin))
        },
    ensures
        ({
            let items = collection_of(parsed(raw), list_collection(kind))->Some_0;
            let ids = list_ids(items, list_id_field(kind));
            let next = ids[(k + 1) % (items.len() as int)];
            let previous = ids[(k + items.len() - 1) % (items.len() as int)];
            &&& kind == ListKind::Workspaces ==> arg_step(
                ArgSpec::Context { key: ContextKey::NextWorkspaceId },
                entry,
                origin,
                answers,
                dir_ok,
            ) == ArgStep::Value(next)
            &&& kind == ListKind::Workspaces ==> arg_step(
                ArgSpec::Context { key: ContextKey::PreviousWorkspaceId },
                entry,
                origin,
                answers,
                dir_ok,
            ) == ArgStep::Value(previous)
            &&& kind == ListKind::Tabs ==> arg_step(ArgSpec::Context { key: ContextKey::NextTabId }, entry, origin, answers, dir_ok)
                == ArgStep::Value(next)
            &&& kind == ListKind::Tabs ==> arg_step(
                ArgSpec::Context { key: ContextKey::PreviousTabId },
                entry,
                origin,
                answers,
                dir_ok,
            ) == ArgStep::Value(previous)
        }),
{
    lemma_neighbor_positions(parsed(raw), list_desc(kind), list_collection(kind), list_id_field(kind), origin_id_of(kind, origin), k);
    assert(computed_step(kind, Direction::Next, origin, answers) == match neighbor(
        parsed(raw),
        list_desc(kind),
        list_collection(kind),
        list_id_field(kind),
        Direction::Next,
        origin_id_of(kind, origin),
    ) {
        Ok(id) => ArgStep::Value(id),
        Err(m) => ArgStep::Fail(m),
    }) by {
        reveal(computed_step);
    }
    assert(computed_step(kind, Direction::Previous, origin, answers) == match neighbor(
        parsed(raw),
        list_desc(kind),
        list_collection(kind),
        list_id_field(kind),
        Direction::Previous,
        origin_id_of(kind, origin),
    ) {
        Ok(id) => ArgStep::Value(id),
        Err(m) => ArgStep::Fail(m),
    }) by {
        reveal(computed_step);
    }
}

/// Esc on an input screen cancels the whole command, and so does a
/// required input left empty.
pub proof fn lemma_input_cancels(spec: ArgSpec, entry: CommandEntry, origin: Origin, answers: ArgAnswers, dir_ok: bool)
    requires
        spec is Input,
        answers.entered == Some(None::<Seq<char>>) || (spec->Input_required && answers.entered
            == Some(Some(Seq::<char>::empty()))),
    ensures
        arg_step(spec, entry, origin, answers, dir_ok) == ArgStep::Cancel,
{
}

/// An optional input left empty is still one argv element: the empty one.
pub proof fn lemma_optional_input_may_be_empty(spec: ArgSpec, entry: CommandEntry, origin: Origin, answers: ArgAnswers, dir_ok: bool)
    requires
        spec is Input,
        !spec->Input_required,
        answers.entered == Some(Some(Seq::<char>::empty())),
    ensures
        arg_step(spec, entry, origin, answers, dir_ok) == ArgStep::Value(Seq::<char>::empty()),
{
}

/// Esc on a selector's pick screen never resolves the argument: the
/// command is cancelled (or a list call still had to be made, or failed).
pub proof fn lemma_cancelled_pick_resolves_nothing(spec: ArgSpec, entry: CommandEntry, origin: Origin, answers: ArgAnswers, dir_ok: bool)
    requires
        spec is Select,
        answers.picked == Some(None::<Seq<char>>),
    ensures
        !(arg_step(spec, entry, origin, answers, dir_ok) is Value),
        !(arg_step(spec, entry, origin, answers, dir_ok) is AskPick),
{
    reveal(select_step);
}

/// A literal argument is its own value, and a static context key is the
/// origin's, without any outside work.
pub proof fn lemma_static_arguments(spec: ArgSpec, entry: CommandEntry, origin: Origin, answers: ArgAnswers, dir_ok: bool)
    ensures
        spec matches ArgSpec::Literal { value } ==> arg_step(spec, entry, origin, answers, dir_ok) == ArgStep::Value(value@),
        spec matches ArgSpec::Context { key } ==> (key == ContextKey::PaneId ==> arg_step(spec, entry, origin, answers, dir_ok)
            == ArgStep::Value(origin.pane_id@)),
        spec matches ArgSpec::Context { key } ==> (key == ContextKey::TabId ==> arg_step(spec, entry, origin, answers, dir_ok)
            == ArgStep::Value(origin.tab_id@)),
        spec matches ArgSpec::Context { key } ==> (key == ContextKey::WorkspaceId ==> arg_step(spec, entry, origin, answers, dir_ok)
            == ArgStep::Value(origin.workspace_id@)),
{
}

} // verus!
