//! The `run` subcommand: the process herdr starts in the pane opened for a
//! user command. It reads the argv out of the environment and spawns it
//! directly (no shell, no interpolation), waits for it so that a failure
//! stays on screen, and reports how it ended.

use vstd::prelude::*;

use crate::fatal::Fatal;
use crate::json::spec_strings_json;
use crate::launch::ARGV_ENV;
use crate::text::{concat, owned, push_signed_decimal, signed_decimal, views};

verus! {

/// The result of `serde_json::from_str::<Vec<String>>` on a text: the
/// strings, or the error's message.
pub uninterp spec fn spec_parse_argv(text: Seq<char>) -> Result<Seq<Seq<char>>, Seq<char>>;

/// `serde_json::from_str::<Vec<String>>`: the array of strings, or the
/// parser's error message. The contract claims that the outcome is a
/// function of the text, and that what `serde_json::to_string` writes for an
/// array of strings (`spec_strings_json`) reads back as those strings; what
/// else serde_json accepts is left to it.
#[verifier::external_body]
fn parse_argv(text: &str) -> (r: Result<Vec<String>, String>)
    ensures
        match r {
            Ok(v) => spec_parse_argv(text@) == Ok::<Seq<Seq<char>>, Seq<char>>(views(v@)),
            Err(e) => spec_parse_argv(text@) == Err::<Seq<Seq<char>>, Seq<char>>(e@),
        },
        forall|items: Seq<Seq<char>>| #[trigger] spec_strings_json(items) == text@ ==> r is Ok && views(r->Ok_0@) == items,
{
    serde_json::from_str::<Vec<String>>(text).map_err(|e| e.to_string())
}

/// The argv the runner spawns: the variable must be set, parse as a JSON
/// array of strings, and name a program.
pub open spec fn argv_of_env(raw: Option<Seq<char>>) -> Result<Seq<Seq<char>>, Seq<char>> {
    match raw {
        None => Err("command-palette: "@ + ARGV_ENV@ + " is not set"@),
        Some(text) => argv_of_parsed(spec_parse_argv(text)),
    }
}

/// The argv of the variable's parsed value: it must have parsed as an
/// array of strings, and name a program.
pub open spec fn argv_of_parsed(p: Result<Seq<Seq<char>>, Seq<char>>) -> Result<Seq<Seq<char>>, Seq<char>> {
    match p {
        Err(e) => Err("command-palette: invalid "@ + ARGV_ENV@ + ": "@ + e),
        Ok(argv) => if argv.len() == 0 || argv[0].len() == 0 {
            Err("command-palette: "@ + ARGV_ENV@ + " is empty"@)
        } else {
            Ok(argv)
        },
    }
}

/// The argv of the variable's parsed value (the strings, or the parser's
/// message), as `argv_of_parsed` defines it.
pub fn argv_checked(p: Result<Vec<String>, String>) -> (r: Result<Vec<String>, Fatal>)
    ensures
        match r {
            Ok(v) => argv_of_parsed(
                match p {
                    Ok(a) => Ok(views(a@)),
                    Err(e) => Err(e@),
                },
            ) == Ok::<Seq<Seq<char>>, Seq<char>>(views(v@)),
            Err(f) => argv_of_parsed(
                match p {
                    Ok(a) => Ok(views(a@)),
                    Err(e) => Err(e@),
                },
            ) == Err::<Seq<Seq<char>>, Seq<char>>(f.0@),
        },
{
    match p {
        Err(e) => {
            let mut m = concat("command-palette: invalid ", ARGV_ENV);
            m.append(": ");
            m.append(e.as_str());
            Err(Fatal(m))
        },
        Ok(argv) => {
            if argv.len() == 0 || argv[0].as_str().is_empty() {
                let mut m = concat("command-palette: ", ARGV_ENV);
                m.append(" is empty");
                Err(Fatal(m))
            } else {
                Ok(argv)
            }
        },
    }
}

/// The argv of the variable's value (`None` when it is not set), as
/// `argv_of_env` defines it.
pub fn argv_from(raw: Option<&str>) -> (r: Result<Vec<String>, Fatal>)
    ensures
        match r {
            Ok(v) => argv_of_env(
                match raw {
                    Some(t) => Some(t@),
                    None => None,
                },
            ) == Ok::<Seq<Seq<char>>, Seq<char>>(views(v@)),
            Err(f) => argv_of_env(
                match raw {
                    Some(t) => Some(t@),
                    None => None,
                },
            ) == Err::<Seq<Seq<char>>, Seq<char>>(f.0@),
        },
        // What `argv_json` wrote is read back: the runner spawns exactly the
        // argv the pane was opened with.
        forall|items: Seq<Seq<char>>|
            raw matches Some(t) && #[trigger] spec_strings_json(items) == t@ && items.len() > 0 && items[0].len() > 0
                ==> (r matches Ok(v) && views(v@) == items),
{
    let text = match raw {
        None => {
            let mut m = concat("command-palette: ", ARGV_ENV);
            m.append(" is not set");
            return Err(Fatal(m));
        },
        Some(t) => t,
    };
    argv_checked(parse_argv(text))
}

/// How a run ended, and the note shown for it: a zero status is silent, a
/// non-zero one (a missing status counts as 1) is reported, and a program
/// that could not start exits 127 with the reason, the likeliest failure
/// of a hand-written entry.
pub open spec fn run_end(program: Seq<char>, status: Result<Option<i32>, Seq<char>>) -> (int, Option<Seq<char>>) {
    match status {
        Ok(code) => {
            let c: int = match code {
                Some(c) => c as int,
                None => 1,
            };
            if c == 0 {
                (0, None)
            } else {
                (c, Some("exited with status "@ + signed_decimal(c)))
            }
        },
        Err(e) => (127, Some("cannot run "@ + program + ": "@ + e)),
    }
}

/// How a run ended, as `run_end` defines it: `status` is the wait's exit
/// code (`None` when killed by a signal), or why the program could not
/// start.
pub fn run_outcome(program: &str, status: Result<Option<i32>, String>) -> (r: (i32, Option<String>))
    ensures
        (r.0 as int, match r.1 {
            Some(n) => Some(n@),
            None => None,
        }) == run_end(
            program@,
            match status {
                Ok(c) => Ok(c),
                Err(e) => Err(e@),
            },
        ),
{
    match status {
        Ok(code) => {
            let c = match code {
                Some(c) => c,
                None => 1,
            };
            if c == 0 {
                (0, None)
            } else {
                let mut note = owned("exited with status ");
                push_signed_decimal(&mut note, c as i64);
                (c, Some(note))
            }
        },
        Err(e) => {
            let mut note = concat("cannot run ", program);
            note.append(": ");
            note.append(e.as_str());
            (127, Some(note))
        },
    }
}

/// The line that reports a note under the program's output.
pub fn note_line(program: &str, note: &str) -> (r: String)
    ensures
        r@ == "\r\n["@ + program@ + "] "@ + note@,
{
    let mut line = concat("\r\n[", program);
    line.append("] ");
    line.append(note);
    line
}

/// The process exit status for a run's code: the code when it fits a
/// byte, else 1.
pub fn exit_status(code: i32) -> (r: u8)
    ensures
        0 <= code < 256 ==> r as int == code as int,
        !(0 <= code < 256) ==> r == 1,
{
    if 0 <= code && code < 256 {
        code as u8
    } else {
        1
    }
}

/// Whether the pane waits for a key before closing: after any note, or
/// when the entry asked to hold (`PALETTE_RUN_HOLD=1`).
pub fn waits_for_key(noted: bool, hold_env: Option<&str>) -> (r: bool)
    ensures
        r == (noted || (hold_env matches Some(v) && v@ == "1"@)),
{
    noted || match hold_env {
        Some(v) => crate::text::str_eq(v, "1"),
        None => false,
    }
}

} // verus!
