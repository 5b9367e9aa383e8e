//! herdr's socket API, for the one call the CLI does not expose:
//! `pane.send_input` with no keys, which drops a text into a pane's input
//! box without submitting it. Newline-delimited JSON, one request per
//! connection. The connection itself is made outside this library; here
//! are where it goes, what is sent, and what the reply means.

use vstd::prelude::*;

use crate::json::{JsonValue, as_str, get, get_opt, parse_json_opt, parsed, spec_json_text, str_at, to_json_string};
use crate::text::{concat, owned};

verus! {

/// `PathBuf::join` on Unix: an absolute `b` replaces `a`; otherwise a
/// separator is added unless `a` is empty or already ends with one.
pub open spec fn path_join(a: Seq<char>, b: Seq<char>) -> Seq<char> {
    if b.len() > 0 && b[0] == '/' {
        b
    } else if a.len() == 0 || a.last() == '/' {
        a + b
    } else {
        a + seq!['/'] + b
    }
}

pub fn join_path(a: &str, b: &str) -> (r: String)
    ensures
        r@ == path_join(a@, b@),
{
    let bc = crate::text::chars_of(b);
    if bc.len() > 0 && bc[0] == '/' {
        return owned(b);
    }
    let ac = crate::text::chars_of(a);
    if ac.len() == 0 || ac[ac.len() - 1] == '/' {
        concat(a, b)
    } else {
        let mut r = concat(a, "/");
        r.append(b);
        proof {
            reveal_strlit("/");
        }
        assert(r@ =~= a@ + seq!['/'] + b@);
        r
    }
}

/// A variable's value, when it is set and not empty.
pub open spec fn non_empty(v: Option<Seq<char>>) -> Option<Seq<char>> {
    match v {
        Some(s) => if s.len() > 0 {
            Some(s)
        } else {
            None
        },
        None => None,
    }
}

pub open spec fn opt_view(v: Option<&str>) -> Option<Seq<char>> {
    match v {
        Some(s) => Some(s@),
        None => None,
    }
}

/// Where the server listens, by herdr's own resolution:
/// `HERDR_SOCKET_PATH` first, then the per-session socket under the config
/// directory (`$XDG_CONFIG_HOME/herdr`, else `~/.config/herdr`); the
/// `default` session (or none) uses `herdr.sock` there directly.
pub open spec fn socket_path_of(
    socket: Option<Seq<char>>,
    xdg_config: Option<Seq<char>>,
    home: Option<Seq<char>>,
    session: Option<Seq<char>>,
) -> Seq<char> {
    match non_empty(socket) {
        Some(path) => path,
        None => {
            let config_dir = match non_empty(xdg_config) {
                Some(dir) => path_join(dir, "herdr"@),
                None => path_join(
                    path_join(
                        match home {
                            Some(h) => h,
                            None => Seq::empty(),
                        },
                        ".config"@,
                    ),
                    "herdr"@,
                ),
            };
            match non_empty(session) {
                Some(name) => if name != "default"@ {
                    path_join(path_join(path_join(config_dir, "sessions"@), name), "herdr.sock"@)
                } else {
                    path_join(config_dir, "herdr.sock"@)
                },
                None => path_join(config_dir, "herdr.sock"@),
            }
        },
    }
}

/// The socket path for these environment values, as `socket_path_of`
/// defines it.
pub fn socket_path(socket: Option<&str>, xdg_config: Option<&str>, home: Option<&str>, session: Option<&str>) -> (r: String)
    ensures
        r@ == socket_path_of(opt_view(socket), opt_view(xdg_config), opt_view(home), opt_view(session)),
{
    match socket {
        Some(p) if !p.is_empty() => return owned(p),
        _ => {},
    }
    let config_dir = match xdg_config {
        Some(dir) if !dir.is_empty() => join_path(dir, "herdr"),
        _ => {
            let h = match home {
                Some(h) => owned(h),
                None => String::new(),
            };
            let dot = join_path(h.as_str(), ".config");
            join_path(dot.as_str(), "herdr")
        },
    };
    match session {
        Some(name) if !name.is_empty() && !crate::text::str_eq(name, "default") => {
            let sessions = join_path(config_dir.as_str(), "sessions");
            let named = join_path(sessions.as_str(), name);
            join_path(named.as_str(), "herdr.sock")
        },
        _ => join_path(config_dir.as_str(), "herdr.sock"),
    }
}

/// The request of `pane.send_input` with no keys: `keys: []` is the point,
/// no Enter follows.
pub open spec fn is_send_input_request(req: JsonValue, pane_id: Seq<char>, text: Seq<char>) -> bool {
    &&& req matches JsonValue::Object(top)
    &&& top@.len() == 3
    &&& top@[0].0@ == "id"@
    &&& top@[0].1 is Str && top@[0].1->Str_0@ == "vjeantet.palette:pane.send_input"@
    &&& top@[1].0@ == "method"@
    &&& top@[1].1 is Str && top@[1].1->Str_0@ == "pane.send_input"@
    &&& top@[2].0@ == "params"@
    &&& top@[2].1 matches JsonValue::Object(params)
    &&& params@.len() == 3
    &&& params@[0].0@ == "pane_id"@
    &&& params@[0].1 is Str && params@[0].1->Str_0@ == pane_id
    &&& params@[1].0@ == "text"@
    &&& params@[1].1 is Str && params@[1].1->Str_0@ == text
    &&& params@[2].0@ == "keys"@
    &&& params@[2].1 is Array && params@[2].1->Array_0@.len() == 0
}

/// The request line of `pane.send_input`, as serde_json writes the request.
pub fn send_input_line(pane_id: &str, text: &str) -> (r: String)
    ensures
        exists|req: JsonValue| #[trigger] is_send_input_request(req, pane_id@, text@) && r@ == spec_json_text(req),
{
    let params = JsonValue::Object(
        vec![
            (owned("pane_id"), JsonValue::Str(owned(pane_id))),
            (owned("text"), JsonValue::Str(owned(text))),
            (owned("keys"), JsonValue::Array(Vec::new())),
        ],
    );
    let req = JsonValue::Object(
        vec![
            (owned("id"), JsonValue::Str(owned("vjeantet.palette:pane.send_input"))),
            (owned("method"), JsonValue::Str(owned("pane.send_input"))),
            (owned("params"), params),
        ],
    );
    let line = to_json_string(&req);
    assert(is_send_input_request(req, pane_id@, text@));
    line
}

/// The error message of a response line, if it is one: a failure arrives
/// as `{"id":…,"error":{"code":…,"message":…}}` on a healthy connection.
/// The message, else the code, else `unknown error`; a line that is not
/// JSON, or has no `error`, is no error.
pub open spec fn error_message(doc: Option<JsonValue>) -> Option<Seq<char>> {
    match get_opt(doc, "error"@) {
        None => None,
        Some(err) => Some(
            match as_str(get(err, "message"@)) {
                Some(m) => m,
                None => match as_str(get(err, "code"@)) {
                    Some(c) => c,
                    None => "unknown error"@,
                },
            },
        ),
    }
}

/// The error a parsed response reports, as `error_message` defines it.
pub fn error_in(doc: &Option<JsonValue>) -> (r: Option<String>)
    ensures
        match r {
            Some(m) => error_message(*doc) == Some(m@),
            None => error_message(*doc) is None,
        },
{
    let err = match crate::json::get_in(doc.as_ref(), "error") {
        Some(e) => e,
        None => return None,
    };
    match str_at(err, "message") {
        Some(m) => Some(m.clone()),
        None => match str_at(err, "code") {
            Some(c) => Some(c.clone()),
            None => Some(owned("unknown error")),
        },
    }
}

/// The error a response line reports, as `error_message` defines it.
pub fn error_of(line: &str) -> (r: Option<String>)
    ensures
        match r {
            Some(m) => error_message(parsed(line@)) == Some(m@),
            None => error_message(parsed(line@)) is None,
        },
{
    let doc = parse_json_opt(line);
    error_in(&doc)
}

} // verus!
