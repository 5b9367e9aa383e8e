//! The palette's main flow, between its screens: the picker's header, where
//! a picked row leads, the confirmation of a destructive command, and the
//! argv of the herdr command finally run. The screens and the calls are
//! made outside this library, in that order.

use vstd::prelude::*;

use crate::catalog::{Catalog, CommandEntry};
use crate::fatal::Fatal;
use crate::send::row_index;
use crate::text::{concat, decimal, decimal_string, owned, str_eq, trim, trimmed, views};
use crate::ui::{PickOutcome, PickScreen, Row, RowV, outcome_view, row_views};

verus! {

pub open spec fn expected_text(expected: Option<u64>) -> Seq<char> {
    match expected {
        Some(n) => decimal(n as nat),
        None => "null"@,
    }
}

/// The picker header doubles as the protocol warning channel: neither an
/// unreadable protocol nor a mismatch blocks execution. Empty means no
/// warning.
pub open spec fn protocol_warning(expected: Option<u64>, actual: Option<Seq<char>>) -> Seq<char> {
    match actual {
        None => "warning: could not read protocol from herdr api schema"@,
        Some(a) => if a.len() == 0 {
            "warning: could not read protocol from herdr api schema"@
        } else if a != expected_text(expected) {
            "warning: catalog expects herdr protocol "@ + expected_text(expected) + ", herdr reports "@ + a
        } else {
            Seq::empty()
        },
    }
}

/// The protocol warning for the catalog's expectation and what herdr
/// reports, as `protocol_warning` defines it.
pub fn protocol_header(expected: Option<u64>, actual: Option<&str>) -> (r: String)
    ensures
        r@ == protocol_warning(
            expected,
            match actual {
                Some(a) => Some(a@),
                None => None,
            },
        ),
{
    let expected_str = match expected {
        Some(n) => decimal_string(n),
        None => owned("null"),
    };
    match actual {
        None => owned("warning: could not read protocol from herdr api schema"),
        Some(a) => {
            if a.is_empty() {
                owned("warning: could not read protocol from herdr api schema")
            } else if !str_eq(a, expected_str.as_str()) {
                let mut m = concat("warning: catalog expects herdr protocol ", expected_str.as_str());
                m.append(", herdr reports ");
                m.append(a);
                m
            } else {
                String::new()
            }
        },
    }
}

/// The main picker's header: the user file's warning first, else the
/// protocol warning; either is drawn as a warning.
pub open spec fn picker_header_of(user_warning: Seq<char>, protocol: Seq<char>) -> (Seq<char>, bool) {
    if user_warning.len() > 0 {
        (user_warning, true)
    } else if protocol.len() > 0 {
        (protocol, true)
    } else {
        (Seq::empty(), false)
    }
}

/// The main picker: `herdr > ` over every row.
pub fn main_screen(user_warning: &str, protocol: &str, rows: Vec<Row>) -> (r: PickScreen)
    ensures
        (r.header@, r.warning) == picker_header_of(user_warning@, protocol@),
        r.prompt@ == "herdr > "@,
        r.placeholder@.len() == 0,
        row_views(r.rows@) == row_views(rows@),
{
    let (header, warning) = if !user_warning.is_empty() {
        (owned(user_warning), true)
    } else if !protocol.is_empty() {
        (owned(protocol), true)
    } else {
        (String::new(), false)
    };
    PickScreen { header, prompt: owned("herdr > "), placeholder: String::new(), rows, warning }
}

/// Where a picked row leads, by its id's namespace.
pub enum Route {
    /// `plugin:<qualified id>`: dispatch the plugin action.
    Plugin(String),
    /// `user:<id>`: launch the user's command.
    User(String),
    /// `prompt:<id>`: send the user's prompt.
    Prompt(String),
    /// Anything else is a catalog id.
    Catalog(String),
}

pub enum RouteV {
    Plugin(Seq<char>),
    User(Seq<char>),
    Prompt(Seq<char>),
    Catalog(Seq<char>),
}

impl View for Route {
    type V = RouteV;

    open spec fn view(&self) -> RouteV {
        match self {
            Route::Plugin(s) => RouteV::Plugin(s@),
            Route::User(s) => RouteV::User(s@),
            Route::Prompt(s) => RouteV::Prompt(s@),
            Route::Catalog(s) => RouteV::Catalog(s@),
        }
    }
}

pub open spec fn starts_with(s: Seq<char>, prefix: Seq<char>) -> bool {
    s.len() >= prefix.len() && s.take(prefix.len() as int) == prefix
}

pub open spec fn route_of(id: Seq<char>) -> RouteV {
    if starts_with(id, "plugin:"@) {
        RouteV::Plugin(id.skip(7))
    } else if starts_with(id, "user:"@) {
        RouteV::User(id.skip(5))
    } else if starts_with(id, "prompt:"@) {
        RouteV::Prompt(id.skip(7))
    } else {
        RouteV::Catalog(id)
    }
}

proof fn lemma_route_user(id: Seq<char>)
    ensures
        route_of("user:"@ + id) == RouteV::User(id),
{
    reveal_strlit("plugin:");
    reveal_strlit("user:");
    let u = "user:"@ + id;
    assert(u[0] == 'u');
    assert(u.take(5) =~= "user:"@);
    assert(u.skip(5) =~= id);
}

proof fn lemma_route_prompt(id: Seq<char>)
    ensures
        route_of("prompt:"@ + id) == RouteV::Prompt(id),
{
    reveal_strlit("plugin:");
    reveal_strlit("user:");
    reveal_strlit("prompt:");
    let q = "prompt:"@ + id;
    assert(q[0] == 'p' && q[1] == 'r');
    assert(q.take(7) =~= "prompt:"@);
    assert(q.skip(7) =~= id);
}

proof fn lemma_route_plugin(qid: Seq<char>)
    ensures
        route_of("plugin:"@ + qid) == RouteV::Plugin(qid),
{
    reveal_strlit("plugin:");
    let q = "plugin:"@ + qid;
    assert(q.take(7) =~= "plugin:"@);
    assert(q.skip(7) =~= qid);
}

proof fn lemma_route_catalog(id: Seq<char>)
    requires
        forall|i: int| 0 <= i < id.len() ==> id[i] != ':',
    ensures
        route_of(id) == RouteV::Catalog(id),
{
    reveal_strlit("plugin:");
    reveal_strlit("user:");
    reveal_strlit("prompt:");
    if starts_with(id, "plugin:"@) {
        assert(id[6] == "plugin:"@[6]);
    }
    if starts_with(id, "user:"@) {
        assert(id[4] == "user:"@[4]);
    }
    if starts_with(id, "prompt:"@) {
        assert(id[6] == "prompt:"@[6]);
    }
}

/// A picked row leads back to what it was built from: a user command's row
/// to that command, a prompt's row to that prompt, a plugin action's row to
/// that action's qualified id, and a catalog command's row (whose id holds
/// no `:`) to that command. The namespaces never collide.
pub proof fn lemma_rows_route_back(
    command: crate::custom::UserCommand,
    prompt: crate::prompt::UserPrompt,
    action: crate::json::JsonValue,
    self_plugin: Seq<char>,
    platform: Seq<char>,
    hints: crate::keys::KeyHints,
    catalog_id: Seq<char>,
)
    requires
        forall|i: int| 0 <= i < catalog_id.len() ==> catalog_id[i] != ':',
    ensures
        route_of(crate::rows::user_row(command).id) == RouteV::User(command.id@),
        route_of(crate::rows::prompt_row(prompt).id) == RouteV::Prompt(prompt.id@),
        crate::actions::action_row(action, self_plugin, platform, hints) matches Some(row) ==> route_of(row.id)
            == RouteV::Plugin(
            crate::json::as_str(crate::json::get(action, "plugin_id"@))->Some_0 + "."@ + crate::json::as_str(
                crate::json::get(action, "action_id"@),
            )->Some_0,
        ),
        route_of(catalog_id) == RouteV::Catalog(catalog_id),
{
    lemma_route_user(command.id@);
    lemma_route_prompt(prompt.id@);
    lemma_route_catalog(catalog_id);
    if let Some(row) = crate::actions::action_row(action, self_plugin, platform, hints) {
        let qid = crate::json::as_str(crate::json::get(action, "plugin_id"@))->Some_0 + "."@ + crate::json::as_str(
            crate::json::get(action, "action_id"@),
        )->Some_0;
        assert(row.id == "plugin:"@ + qid) by {
            reveal(crate::actions::action_row);
        }
        lemma_route_plugin(qid);
    }
}

/// The rest of `s` after `prefix`, if `s` starts with it.
fn strip_prefix(s: &str, prefix: &str) -> (r: Option<String>)
    ensures
        match r {
            Some(rest) => starts_with(s@, prefix@) && rest@ == s@.skip(prefix@.len() as int),
            None => !starts_with(s@, prefix@),
        },
{
    let sc = crate::text::chars_of(s);
    let pc = crate::text::chars_of(prefix);
    if sc.len() < pc.len() {
        return None;
    }
    let mut i: usize = 0;
    while i < pc.len()
        invariant
            0 <= i <= pc@.len(),
            sc@ == s@,
            pc@ == prefix@,
            pc@.len() <= sc@.len(),
            forall|j: int| 0 <= j < i ==> sc@[j] == pc@[j],
        decreases pc@.len() - i,
    {
        if sc[i] != pc[i] {
            assert(sc@.take(pc@.len() as int)[i as int] != pc@[i as int]);
            return None;
        }
        i += 1;
    }
    assert(sc@.take(pc@.len() as int) =~= pc@);
    assert(sc@.subrange(pc@.len() as int, sc@.len() as int) =~= sc@.skip(pc@.len() as int));
    Some(crate::text::substring(&sc, pc.len(), sc.len()))
}

/// Where the row `id` leads, as `route_of` defines it.
pub fn route(id: &str) -> (r: Route)
    ensures
        r@ == route_of(id@),
{
    proof {
        reveal_strlit("plugin:");
        reveal_strlit("user:");
        reveal_strlit("prompt:");
    }
    if let Some(rest) = strip_prefix(id, "plugin:") {
        return Route::Plugin(rest);
    }
    if let Some(rest) = strip_prefix(id, "user:") {
        return Route::User(rest);
    }
    if let Some(rest) = strip_prefix(id, "prompt:") {
        return Route::Prompt(rest);
    }
    Route::Catalog(owned(id))
}

/// The position of the first catalog command with this id.
pub fn find_command(catalog: &Catalog, id: &str) -> (r: Result<usize, Fatal>)
    ensures
        match r {
            Ok(i) => i < catalog.commands@.len() && catalog.commands@[i as int].id@ == id@ && forall|j: int|
                0 <= j < i ==> (#[trigger] catalog.commands@[j]).id@ != id@,
            Err(f) => (forall|j: int| 0 <= j < catalog.commands@.len() ==> (#[trigger] catalog.commands@[j]).id@ != id@)
                && f.0@ == "command-palette: internal error: selected command not found in catalog"@,
        },
{
    let mut i: usize = 0;
    while i < catalog.commands.len()
        invariant
            0 <= i <= catalog.commands@.len(),
            forall|j: int| 0 <= j < i ==> (#[trigger] catalog.commands@[j]).id@ != id@,
        decreases catalog.commands@.len() - i,
    {
        if str_eq(catalog.commands[i].id.as_str(), id) {
            return Ok(i);
        }
        i += 1;
    }
    Err(Fatal::new("command-palette: internal error: selected command not found in catalog"))
}

/// A catalog command runs as `herdr <group> <subcommand> <args…>`; any
/// other shape of `command` is refused.
pub fn command_pair(entry: &CommandEntry) -> (r: Result<(String, String), Fatal>)
    ensures
        match r {
            Ok((g, s)) => entry.command@.len() == 2 && g@ == entry.command@[0]@ && s@ == entry.command@[1]@,
            Err(f) => entry.command@.len() != 2 && f.0@ == "command-palette: invalid command entry "@ + entry.id@
                + ": expected [group, subcommand]"@,
        },
{
    if entry.command.len() == 2 {
        Ok((entry.command[0].clone(), entry.command[1].clone()))
    } else {
        let mut m = concat("command-palette: invalid command entry ", entry.id.as_str());
        m.append(": expected [group, subcommand]");
        Err(Fatal(m))
    }
}

/// The command asks for a confirmation: its `confirm` text is non-empty.
pub open spec fn has_confirm(entry: CommandEntry) -> bool {
    entry.confirm matches Some(t) && t@.len() > 0
}

/// The confirmation screen of a command: its `confirm` text as the header,
/// and `No` before `Yes`.
pub open spec fn is_confirm_screen(entry: CommandEntry, screen: PickScreen) -> bool {
    &&& entry.confirm matches Some(t) && screen.header@ == t@
    &&& screen.prompt@ == "confirm > "@
    &&& screen.placeholder@.len() == 0
    &&& !screen.warning
    &&& row_views(screen.rows@) == seq![
        RowV { id: "No"@, label: "No"@, hint: Seq::empty() },
        RowV { id: "Yes"@, label: "Yes"@, hint: Seq::empty() },
    ]
}

/// The confirmation a command with a non-empty `confirm` text asks for:
/// `No` first, so that a reflexive Enter cancels.
pub fn confirm_screen(entry: &CommandEntry) -> (r: Option<PickScreen>)
    ensures
        match r {
            None => !has_confirm(*entry),
            Some(screen) => has_confirm(*entry) && is_confirm_screen(*entry, screen),
        },
{
    match &entry.confirm {
        Some(text) if !text.as_str().is_empty() => {
            let mut rows: Vec<Row> = Vec::new();
            rows.push(Row::plain("No"));
            rows.push(Row::plain("Yes"));
            assert(row_views(rows@) =~= seq![
                RowV { id: "No"@, label: "No"@, hint: Seq::empty() },
                RowV { id: "Yes"@, label: "Yes"@, hint: Seq::empty() },
            ]);
            Some(
                PickScreen {
                    header: text.clone(),
                    prompt: owned("confirm > "),
                    placeholder: String::new(),
                    rows,
                    warning: false,
                },
            )
        },
        _ => None,
    }
}

/// Only `Yes` confirms; `No` and Esc are clean cancels.
pub open spec fn confirms(answer: Option<Seq<char>>) -> bool {
    answer == Some("Yes"@)
}

/// Whether the confirmation's outcome goes ahead, as `confirms` says.
pub fn confirmed(outcome: &PickOutcome) -> (r: bool)
    ensures
        r == confirms(outcome_view(*outcome)),
{
    match outcome {
        PickOutcome::Selected(answer) => str_eq(answer.as_str(), "Yes"),
        PickOutcome::Cancelled => false,
    }
}

/// A confirmation is never given by reflex: on the screen `confirm_screen`
/// builds, Enter before anything is typed or moved answers `No`, which does
/// not confirm.
pub proof fn lemma_reflexive_enter_declines(rows: Seq<RowV>, filtered: Seq<crate::ui::tui::FilteredV>)
    requires
        rows == seq![
            RowV { id: "No"@, label: "No"@, hint: Seq::empty() },
            RowV { id: "Yes"@, label: "Yes"@, hint: Seq::empty() },
        ],
        crate::ui::tui::filter_result(Seq::empty(), rows, filtered),
    ensures
        ({
            let enter = crate::ui::tui::KeyPress { code: crate::ui::tui::KeyCode::Enter, ctrl: false };
            let step = crate::ui::tui::pick_effect(Seq::empty(), 0, enter, filtered.len()).2;
            &&& crate::ui::tui::step_answer(rows, filtered, step) == Some(Some("No"@))
            &&& !confirms(crate::ui::tui::step_answer(rows, filtered, step)->Some_0)
        }),
{
    reveal_strlit("No");
    reveal_strlit("Yes");
    assert(filtered.len() == 2);
    assert(filtered[0].row == 0);
    assert("No"@ != "Yes"@) by {
        assert("No"@.len() != "Yes"@.len());
    }
}

/// `herdr <group> <subcommand> <args…>`.
pub fn exec_argv(group: &str, subcommand: &str, args: &Vec<String>) -> (r: Vec<String>)
    ensures
        views(r@) == seq![group@, subcommand@] + views(args@),
{
    let mut argv: Vec<String> = Vec::new();
    argv.push(owned(group));
    argv.push(owned(subcommand));
    let mut i: usize = 0;
    assert(views(argv@) =~= seq![group@, subcommand@] + views(args@.take(0)));
    while i < args.len()
        invariant
            0 <= i <= args@.len(),
            views(argv@) == seq![group@, subcommand@] + views(args@.take(i as int)),
        decreases args@.len() - i,
    {
        let ghost before = views(argv@);
        argv.push(args[i].clone());
        assert(views(argv@) =~= before.push(args@[i as int]@));
        assert(views(args@.take(i + 1)) =~= views(args@.take(i as int)).push(args@[i as int]@));
        i += 1;
    }
    assert(args@.take(args@.len() as int) =~= args@);
    argv
}

/// A failed catalog command shows its group, subcommand and herdr's
/// output only: never the typed values, selected ids or directory.
pub fn exec_failure(group: &str, subcommand: &str, detail: &str) -> (r: Fatal)
    ensures
        r.0@ == "command-palette: herdr "@ + group@ + " "@ + subcommand@ + " failed:\n"@ + detail@,
{
    let mut m = concat("command-palette: herdr ", group);
    m.append(" ");
    m.append(subcommand);
    m.append(" failed:\n");
    m.append(detail);
    Fatal(m)
}

// ----- The row picked last time -----

/// The id the state file holds: its text trimmed; empty is none.
pub open spec fn recent_of(text: Seq<char>) -> Option<Seq<char>> {
    if trim(text).len() > 0 {
        Some(trim(text))
    } else {
        None
    }
}

pub fn recent_id(text: &str) -> (r: Option<String>)
    ensures
        match r {
            Some(id) => recent_of(text@) == Some(id@),
            None => recent_of(text@) is None,
        },
{
    let id = trimmed(text);
    if id.as_str().is_empty() {
        None
    } else {
        Some(id)
    }
}

/// What the state file is written with: the id and a newline.
pub fn recent_text(id: &str) -> (r: String)
    ensures
        r@ == id@ + "\n"@,
{
    concat(id, "\n")
}

/// What is saved as the row picked last is read back: an id without white
/// space at either end survives `recent_text` then `recent_id`.
pub proof fn lemma_recent_round_trip(id: Seq<char>)
    requires
        id.len() > 0,
        !crate::text::is_space(id[0]),
        !crate::text::is_space(id.last()),
    ensures
        recent_of(id + "\n"@) == Some(id),
{
    reveal_strlit("\n");
    let saved = id + "\n"@;
    assert(saved.drop_last() =~= id);
    assert(crate::text::is_space(saved.last()));
    assert(crate::text::trim_end(saved) == crate::text::trim_end(id));
    assert(crate::text::trim_end(id) == id);
    assert(crate::text::trim_start(id) == id);
}

/// The rows with the one picked last time leading; untouched when no row
/// has that id.
pub open spec fn led_by(rows: Seq<RowV>, id: Seq<char>) -> Seq<RowV> {
    match row_index(rows, id) {
        Some(i) => seq![rows[i]] + rows.remove(i),
        None => rows,
    }
}

/// The position of the first row with this id, as `row_index` defines it.
pub fn find_row(rows: &Vec<Row>, id: &str) -> (r: Option<usize>)
    ensures
        match r {
            Some(k) => k < rows@.len() && row_index(row_views(rows@), id@) == Some(k as int),
            None => row_index(row_views(rows@), id@) is None,
        },
{
    let ghost given = row_views(rows@);
    let mut i: usize = 0;
    while i < rows.len()
        invariant
            0 <= i <= rows@.len(),
            given == row_views(rows@),
            forall|j: int| 0 <= j < i ==> given[j].id != id@,
        decreases rows@.len() - i,
    {
        if str_eq(rows[i].id.as_str(), id) {
            let ghost k = i as int;
            assert(given[k].id == id@);
            let ghost w = choose|w: int|
                0 <= w < given.len() && given[w].id == id@ && forall|j: int| 0 <= j < w ==> given[j].id != id@;
            assert(w == k) by {
                if w < k {
                } else if w > k {
                }
            }
            return Some(i);
        }
        i += 1;
    }
    None
}

/// Moves the row `id` to the front, as `led_by` defines it.
pub fn lead_with(rows: Vec<Row>, id: &str) -> (r: Vec<Row>)
    ensures
        row_views(r@) == led_by(row_views(rows@), id@),
{
    let ghost given = row_views(rows@);
    let mut out = rows;
    match find_row(&out, id) {
        Some(k) => {
            let row = out.remove(k);
            assert(row_views(out@) =~= given.remove(k as int));
            let ghost rest = row_views(out@);
            out.insert(0, row);
            assert(row_views(out@) =~= seq![given[k as int]] + rest);
            out
        },
        None => out,
    }
}

} // verus!
