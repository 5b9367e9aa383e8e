//! The `[[prompt]]` half of the user's config file: entries that drop a text
//! into an agent's input box without submitting it.
//!
//! Only the type and its validation live here; running the argv and
//! assembling the text is `send.rs`, reading the file is `custom.rs`, which
//! owns the single warning line both tables share.

use vstd::prelude::*;

use crate::custom::{check_cwd, check_id, check_title, field, field_of, opt_string, opt_strings, opt_u64, opt_string_value, opt_strings_value, opt_u64_value, struct_shape, struct_shape_of, validate_cwd, validate_id, validate_title};
use crate::toml_doc::TomlValue;

verus! {

/// Default and ceiling for `timeout_ms`. The command runs inside the popup
/// process, whose event loop is suspended meanwhile.
pub const DEFAULT_TIMEOUT_MS: u64 = 5_000;

pub const MAX_TIMEOUT_MS: u64 = 60_000;

/// Which streams of the argv end up in the text.
#[derive(Debug, Clone, Copy, PartialEq, Eq, Structural)]
pub enum Capture {
    Stdout,
    /// stdout, then stderr.
    Both,
}

pub open spec fn capture_named(text: Seq<char>) -> Option<Capture> {
    if text == "stdout"@ {
        Some(Capture::Stdout)
    } else if text == "both"@ {
        Some(Capture::Both)
    } else {
        None
    }
}

impl Capture {
    pub fn parse(text: &str) -> (r: Option<Capture>)
        ensures
            r == capture_named(text@),
    {
        if crate::text::str_eq(text, "stdout") {
            Some(Capture::Stdout)
        } else if crate::text::str_eq(text, "both") {
            Some(Capture::Both)
        } else {
            None
        }
    }
}

#[derive(Debug)]
pub struct UserPrompt {
    pub id: String,
    pub title: String,
    /// Fixed text, sent ahead of the command output when there is one.
    pub text: Option<String>,
    /// Command whose output is appended to `text`. Empty means none.
    pub argv: Vec<String>,
    pub capture: Capture,
    pub timeout_ms: u64,
    /// Absolute and existing, or absent: the origin pane's cwd applies then.
    pub cwd: Option<String>,
}

pub struct UserPromptV {
    pub id: Seq<char>,
    pub title: Seq<char>,
    pub text: Option<Seq<char>>,
    pub argv: Seq<Seq<char>>,
    pub capture: Capture,
    pub timeout_ms: u64,
    pub cwd: Option<Seq<char>>,
}

impl View for UserPrompt {
    type V = UserPromptV;

    open spec fn view(&self) -> UserPromptV {
        UserPromptV {
            id: self.id@,
            title: self.title@,
            text: self.text.deep_view(),
            argv: self.argv.deep_view(),
            capture: self.capture,
            timeout_ms: self.timeout_ms,
            cwd: self.cwd.deep_view(),
        }
    }
}

/// A `[[prompt]]` entry's fields as written.
pub struct RawPromptV {
    pub id: Option<Seq<char>>,
    pub title: Option<Seq<char>>,
    pub text: Option<Seq<char>>,
    pub argv: Option<Seq<Seq<char>>>,
    pub capture: Option<Seq<char>>,
    pub timeout_ms: Option<u64>,
    pub cwd: Option<Seq<char>>,
}

/// Decodes a `[[prompt]]` entry by serde's rules (see `custom.rs`).
pub open spec fn dec_raw_prompt(v: TomlValue) -> Option<RawPromptV> {
    let id = opt_string(field(v, 0, "id"@));
    let title = opt_string(field(v, 1, "title"@));
    let text = opt_string(field(v, 2, "text"@));
    let argv = opt_strings(field(v, 3, "argv"@));
    let capture = opt_string(field(v, 4, "capture"@));
    let timeout_ms = opt_u64(field(v, 5, "timeout_ms"@));
    let cwd = opt_string(field(v, 6, "cwd"@));
    if struct_shape(v, 7) && id is Some && title is Some && text is Some && argv is Some
        && capture is Some && timeout_ms is Some && cwd is Some {
        Some(
            RawPromptV {
                id: id->Some_0,
                title: title->Some_0,
                text: text->Some_0,
                argv: argv->Some_0,
                capture: capture->Some_0,
                timeout_ms: timeout_ms->Some_0,
                cwd: cwd->Some_0,
            },
        )
    } else {
        None
    }
}

/// A `[[prompt]]` entry, validated against the prompt ids accepted before
/// it; `is_dir` is what the filesystem said of its `cwd`. Ids are unique only
/// within their own table.
#[verifier::opaque]
pub open spec fn prompt_entry(v: TomlValue, accepted: Seq<Seq<char>>, is_dir: bool) -> Result<UserPromptV, Seq<char>> {
    match dec_raw_prompt(v) {
        None => Err("invalid field types"@),
        Some(raw) => match check_id(raw.id) {
            Err(reason) => Err(reason),
            Ok(id) => if accepted.contains(id) {
                Err("duplicate id"@)
            } else {
                match check_title(raw.title) {
                    Err(reason) => Err(reason),
                    Ok(title) => {
                        let text = match raw.text {
                            Some(t) => if t.len() > 0 {
                                Some(t)
                            } else {
                                None
                            },
                            None => None,
                        };
                        let argv = match raw.argv {
                            Some(a) => a,
                            None => Seq::empty(),
                        };
                        if argv.len() > 0 && argv[0].len() == 0 {
                            Err("empty argv[0]"@)
                        } else if text is None && argv.len() == 0 {
                            Err("nothing to send"@)
                        } else {
                            let capture = match raw.capture {
                                None => Some(Capture::Stdout),
                                Some(c) => capture_named(c),
                            };
                            match capture {
                                None => Err("unknown capture"@),
                                Some(capture) => {
                                    let timeout_ms = match raw.timeout_ms {
                                        Some(t) => t,
                                        None => DEFAULT_TIMEOUT_MS,
                                    };
                                    if timeout_ms == 0 || timeout_ms > MAX_TIMEOUT_MS {
                                        Err("invalid timeout_ms"@)
                                    } else {
                                        match check_cwd(raw.cwd, is_dir) {
                                            Err(reason) => Err(reason),
                                            Ok(cwd) => Ok(
                                                UserPromptV {
                                                    id,
                                                    title,
                                                    text,
                                                    argv,
                                                    capture,
                                                    timeout_ms,
                                                    cwd,
                                                },
                                            ),
                                        }
                                    }
                                },
                            }
                        }
                    },
                }
            },
        },
    }
}

/// The ids of a list of prompts.
pub open spec fn prompt_ids(prompts: Seq<UserPrompt>) -> Seq<Seq<char>> {
    prompts.map_values(|q: UserPrompt| q.id@)
}

/// Whether a prompt among `accepted` already has `id`.
pub fn prompt_id_taken(accepted: &Vec<UserPrompt>, id: &str) -> (r: bool)
    ensures
        r == prompt_ids(accepted@).contains(id@),
{
    let ghost ids = prompt_ids(accepted@);
    let mut k: usize = 0;
    while k < accepted.len()
        invariant
            0 <= k <= accepted@.len(),
            ids == prompt_ids(accepted@),
            forall|j: int| 0 <= j < k ==> ids[j] != id@,
        decreases accepted@.len() - k,
    {
        if crate::text::str_eq(accepted[k].id.as_str(), id) {
            assert(ids[k as int] == id@);
            return true;
        }
        k += 1;
    }
    false
}

struct RawPrompt {
    id: Option<String>,
    title: Option<String>,
    text: Option<String>,
    argv: Option<Vec<String>>,
    capture: Option<String>,
    timeout_ms: Option<u64>,
    cwd: Option<String>,
}

spec fn raw_prompt_view(r: RawPrompt) -> RawPromptV {
    RawPromptV {
        id: r.id.deep_view(),
        title: r.title.deep_view(),
        text: r.text.deep_view(),
        argv: r.argv.deep_view(),
        capture: r.capture.deep_view(),
        timeout_ms: r.timeout_ms,
        cwd: r.cwd.deep_view(),
    }
}

fn raw_prompt(v: &TomlValue) -> (r: Option<RawPrompt>)
    ensures
        match r {
            Some(raw) => dec_raw_prompt(*v) == Some(raw_prompt_view(raw)),
            None => dec_raw_prompt(*v) is None,
        },
{
    let id = opt_string_value(field_of(v, 0, "id"));
    let title = opt_string_value(field_of(v, 1, "title"));
    let text = opt_string_value(field_of(v, 2, "text"));
    let argv = opt_strings_value(field_of(v, 3, "argv"));
    let capture = opt_string_value(field_of(v, 4, "capture"));
    let timeout_ms = opt_u64_value(field_of(v, 5, "timeout_ms"));
    let cwd = opt_string_value(field_of(v, 6, "cwd"));
    if !struct_shape_of(v, 7) {
        return None;
    }
    match (id, title, text, argv, capture, timeout_ms, cwd) {
        (Some(id), Some(title), Some(text), Some(argv), Some(capture), Some(timeout_ms), Some(cwd)) => {
            Some(RawPrompt { id, title, text, argv, capture, timeout_ms, cwd })
        },
        _ => None,
    }
}

/// Validates one `[[prompt]]` entry against the prompts accepted before it,
/// as `prompt_entry` defines it; the result holds for the answer the
/// filesystem gave about its `cwd`.
pub fn parse_entry(entry: &TomlValue, accepted: &Vec<UserPrompt>) -> (r: Result<UserPrompt, &'static str>)
    ensures
        exists|is_dir: bool|
            #![trigger prompt_entry(*entry, prompt_ids(accepted@), is_dir)]
            match r {
                Ok(p) => prompt_entry(*entry, prompt_ids(accepted@), is_dir)
                    == Ok::<UserPromptV, Seq<char>>(p@),
                Err(e) => prompt_entry(*entry, prompt_ids(accepted@), is_dir)
                    == Err::<UserPromptV, Seq<char>>(e@),
            },
{
    reveal(prompt_entry);
    let ghost ids = prompt_ids(accepted@);
    let raw = match raw_prompt(entry) {
        Some(raw) => raw,
        None => {
            assert(prompt_entry(*entry, ids, true) == Err::<UserPromptV, Seq<char>>("invalid field types"@));
            return Err("invalid field types");
        },
    };
    let ghost rv = raw_prompt_view(raw);
    let id = match validate_id(raw.id) {
        Ok(id) => id,
        Err(e) => {
            assert(prompt_entry(*entry, ids, true) == Err::<UserPromptV, Seq<char>>(e@));
            return Err(e);
        },
    };
    if prompt_id_taken(accepted, id.as_str()) {
        assert(prompt_entry(*entry, ids, true) == Err::<UserPromptV, Seq<char>>("duplicate id"@));
        return Err("duplicate id");
    }
    let title = match validate_title(raw.title) {
        Ok(t) => t,
        Err(e) => {
            assert(prompt_entry(*entry, ids, true) == Err::<UserPromptV, Seq<char>>(e@));
            return Err(e);
        },
    };
    let text = match raw.text {
        Some(t) => if t.as_str().is_empty() {
            None
        } else {
            Some(t)
        },
        None => None,
    };
    let argv = match raw.argv {
        Some(a) => a,
        None => Vec::new(),
    };
    assert(argv.deep_view() == match rv.argv {
        Some(a) => a,
        None => Seq::<Seq<char>>::empty(),
    });
    if argv.len() > 0 && argv[0].as_str().is_empty() {
        assert(prompt_entry(*entry, ids, true) == Err::<UserPromptV, Seq<char>>("empty argv[0]"@));
        return Err("empty argv[0]");
    }
    if text.is_none() && argv.len() == 0 {
        assert(prompt_entry(*entry, ids, true) == Err::<UserPromptV, Seq<char>>("nothing to send"@));
        return Err("nothing to send");
    }
    let capture = match raw.capture {
        None => Capture::Stdout,
        Some(c) => match Capture::parse(c.as_str()) {
            Some(c) => c,
            None => {
                assert(prompt_entry(*entry, ids, true) == Err::<UserPromptV, Seq<char>>("unknown capture"@));
                return Err("unknown capture");
            },
        },
    };
    let timeout_ms = match raw.timeout_ms {
        Some(t) => t,
        None => DEFAULT_TIMEOUT_MS,
    };
    if timeout_ms == 0 || timeout_ms > MAX_TIMEOUT_MS {
        assert(prompt_entry(*entry, ids, true) == Err::<UserPromptV, Seq<char>>("invalid timeout_ms"@));
        return Err("invalid timeout_ms");
    }
    let cwd_result = validate_cwd(raw.cwd);
    let ghost d = choose|is_dir: bool|
        #![trigger check_cwd(rv.cwd, is_dir)]
        match cwd_result {
            Ok(c) => check_cwd(rv.cwd, is_dir) == Ok::<Option<Seq<char>>, Seq<char>>(c.deep_view()),
            Err(e) => check_cwd(rv.cwd, is_dir) == Err::<Option<Seq<char>>, Seq<char>>(e@),
        };
    match cwd_result {
        Err(e) => {
            assert(prompt_entry(*entry, ids, d) == Err::<UserPromptV, Seq<char>>(e@));
            Err(e)
        },
        Ok(cwd) => {
            let p = UserPrompt { id, title, text, argv, capture, timeout_ms, cwd };
            assert(prompt_entry(*entry, ids, d) == Ok::<UserPromptV, Seq<char>>(p@));
            Ok(p)
        },
    }
}

} // verus!
