//! The `open` subcommand, server side (no terminal): the origin pane, tab
//! and workspace are captured from `herdr pane current` while they still
//! have focus, and forwarded to the palette pane through `--env`; the
//! palette never resolves them again.

use vstd::prelude::*;

use crate::fatal::Fatal;
use crate::json::{JsonValue, as_str, get_in, get_opt, parse_json_opt, parsed};
use crate::origin::Origin;
use crate::paths::path_is_dir;
use crate::text::{concat, owned, trim_end, trimmed_end, views};

verus! {

/// The string `.result.pane.<name>` of `pane current`'s output, or nothing.
pub open spec fn pane_field(doc: Option<JsonValue>, name: Seq<char>) -> Seq<char> {
    match as_str(get_opt(get_opt(get_opt(doc, "result"@), "pane"@), name)) {
        Some(s) => s,
        None => Seq::empty(),
    }
}

fn field_of(pane: Option<&JsonValue>, name: &str) -> (r: String)
    ensures
        r@ == match pane {
            Some(p) => match as_str(crate::json::get(*p, name@)) {
                Some(s) => s,
                None => Seq::empty(),
            },
            None => Seq::<char>::empty(),
        },
{
    match get_in(pane, name) {
        Some(JsonValue::Str(s)) => s.clone(),
        _ => String::new(),
    }
}

/// The origin `pane current` reports: its pane, tab and workspace ids, and
/// its foreground working directory (else its working directory). The
/// three ids are required; a missing one is reported with the whole output.
pub open spec fn origin_of(doc: Option<JsonValue>, merged: Seq<char>) -> Result<(Seq<char>, Seq<char>, Seq<char>, Seq<char>), Seq<char>> {
    let pane_id = pane_field(doc, "pane_id"@);
    let tab_id = pane_field(doc, "tab_id"@);
    let workspace_id = pane_field(doc, "workspace_id"@);
    let foreground = pane_field(doc, "foreground_cwd"@);
    let cwd = if foreground.len() > 0 { foreground } else { pane_field(doc, "cwd"@) };
    if pane_id.len() == 0 || tab_id.len() == 0 || workspace_id.len() == 0 {
        Err("command-palette: could not resolve origin context from: "@ + trim_end(merged))
    } else {
        Ok((pane_id, tab_id, workspace_id, cwd))
    }
}

/// The origin in a parsed `pane current` output, as `origin_of` defines it:
/// `merged` is both streams of the call.
pub fn origin_in(doc: &Option<JsonValue>, merged: &str) -> (r: Result<Origin, Fatal>)
    ensures
        match r {
            Ok(o) => origin_of(*doc, merged@) == Ok::<(Seq<char>, Seq<char>, Seq<char>, Seq<char>), Seq<char>>((o.pane_id@, o.tab_id@, o.workspace_id@, o.cwd@)),
            Err(f) => origin_of(*doc, merged@) == Err::<(Seq<char>, Seq<char>, Seq<char>, Seq<char>), Seq<char>>(f.0@),
        },
{
    let pane = get_in(get_in(doc.as_ref(), "result"), "pane");
    let pane_id = field_of(pane, "pane_id");
    let tab_id = field_of(pane, "tab_id");
    let workspace_id = field_of(pane, "workspace_id");
    let mut cwd = field_of(pane, "foreground_cwd");
    if cwd.as_str().is_empty() {
        cwd = field_of(pane, "cwd");
    }
    if pane_id.as_str().is_empty() || tab_id.as_str().is_empty() || workspace_id.as_str().is_empty() {
        let tail = trimmed_end(merged);
        return Err(Fatal(concat("command-palette: could not resolve origin context from: ", tail.as_str())));
    }
    Ok(Origin { pane_id, tab_id, workspace_id, cwd })
}

/// The origin from a successful `pane current`, as `origin_of` defines it:
/// `stdout` is its output when that is UTF-8 text, `merged` both streams.
pub fn origin_from_pane(stdout: Option<&str>, merged: &str) -> (r: Result<Origin, Fatal>)
    ensures
        match r {
            Ok(o) => origin_of(
                match stdout {
                    Some(t) => parsed(t@),
                    None => None,
                },
                merged@,
            ) == Ok::<(Seq<char>, Seq<char>, Seq<char>, Seq<char>), Seq<char>>((o.pane_id@, o.tab_id@, o.workspace_id@, o.cwd@)),
            Err(f) => origin_of(
                match stdout {
                    Some(t) => parsed(t@),
                    None => None,
                },
                merged@,
            ) == Err::<(Seq<char>, Seq<char>, Seq<char>, Seq<char>), Seq<char>>(f.0@),
        },
{
    let doc = match stdout {
        Some(t) => parse_json_opt(t),
        None => None,
    };
    origin_in(&doc, merged)
}

/// A `pane current` that could not run (why), or that failed (both
/// streams, trailing white space removed).
pub fn pane_current_failure(detail: &str, ran: bool) -> (r: Fatal)
    ensures
        r.0@ == "command-palette: pane current failed: "@ + if ran {
            trim_end(detail@)
        } else {
            detail@
        },
{
    if ran {
        let tail = trimmed_end(detail);
        Fatal(concat("command-palette: pane current failed: ", tail.as_str()))
    } else {
        Fatal(concat("command-palette: pane current failed: ", detail))
    }
}

/// The palette pane's `herdr plugin pane open …` argv: the origin travels
/// as four environment variables, and the origin directory, when it is an
/// existing one (`dir_ok`), becomes the pane's.
pub open spec fn palette_open_argv(origin: Origin, dir_ok: bool) -> Seq<Seq<char>> {
    seq![
        "plugin"@,
        "pane"@,
        "open"@,
        "--plugin"@,
        "vjeantet.palette"@,
        "--entrypoint"@,
        "palette"@,
        "--focus"@,
        "--env"@,
        "ORIGIN_PANE_ID="@ + origin.pane_id@,
        "--env"@,
        "ORIGIN_TAB_ID="@ + origin.tab_id@,
        "--env"@,
        "ORIGIN_WORKSPACE_ID="@ + origin.workspace_id@,
        "--env"@,
        "ORIGIN_CWD="@ + origin.cwd@,
    ] + if origin.cwd@.len() > 0 && dir_ok {
        seq!["--cwd"@, origin.cwd@]
    } else {
        Seq::empty()
    }
}

fn push_str(dst: &mut Vec<String>, item: &str)
    ensures
        views(final(dst)@) == views(old(dst)@).push(item@),
{
    let ghost before = views(dst@);
    dst.push(owned(item));
    assert(views(dst@) =~= before.push(item@));
}

/// The palette pane's argv, as `palette_open_argv` defines it for whatever
/// the directory check found.
pub fn palette_open_args(origin: &Origin) -> (r: Vec<String>)
    ensures
        exists|dir_ok: bool| #[trigger] palette_open_argv(*origin, dir_ok) == views(r@),
{
    let mut a: Vec<String> = Vec::new();
    push_str(&mut a, "plugin");
    push_str(&mut a, "pane");
    push_str(&mut a, "open");
    push_str(&mut a, "--plugin");
    push_str(&mut a, "vjeantet.palette");
    push_str(&mut a, "--entrypoint");
    push_str(&mut a, "palette");
    push_str(&mut a, "--focus");
    push_str(&mut a, "--env");
    push_str(&mut a, concat("ORIGIN_PANE_ID=", origin.pane_id.as_str()).as_str());
    push_str(&mut a, "--env");
    push_str(&mut a, concat("ORIGIN_TAB_ID=", origin.tab_id.as_str()).as_str());
    push_str(&mut a, "--env");
    push_str(&mut a, concat("ORIGIN_WORKSPACE_ID=", origin.workspace_id.as_str()).as_str());
    push_str(&mut a, "--env");
    push_str(&mut a, concat("ORIGIN_CWD=", origin.cwd.as_str()).as_str());
    let ghost head = views(a@);
    if !origin.cwd.as_str().is_empty() && path_is_dir(origin.cwd.as_str()) {
        push_str(&mut a, "--cwd");
        push_str(&mut a, origin.cwd.as_str());
        assert(views(a@) =~= palette_open_argv(*origin, true));
    } else {
        assert(views(a@) =~= palette_open_argv(*origin, false));
    }
    a
}

/// `exec` of herdr only returns on failure.
pub fn exec_failure(detail: &str) -> (r: Fatal)
    ensures
        r.0@ == "command-palette: failed to exec herdr: "@ + detail@,
{
    Fatal(concat("command-palette: failed to exec herdr: ", detail))
}

} // verus!
