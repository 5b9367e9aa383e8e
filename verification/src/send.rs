//! Running one `[[prompt]]` entry: the text is assembled from the entry's own
//! text and its command's output, cut to fit herdr's request limit, and
//! dropped into the input box of an agent the user picks (the origin pane's
//! agent first). Running the command, talking to herdr and showing the
//! picker happen outside this library; the decisions are here.
//!
//! A non-zero exit status is not a failure: only having text matters, and
//! everything else is a header warning.

use vstd::prelude::*;

use crate::fatal::Fatal;
use crate::origin::Origin;
use crate::paths::path_is_dir;
use crate::prompt::{Capture, UserPrompt};
use crate::text::{chars_of, decimal, push_char, push_decimal, push_signed_decimal, signed_decimal, substring};
use crate::ui::{Row, RowV, row_views};

verus! {

/// Budget for the JSON-encoded `text` field of the request: herdr caps a
/// request line at 1 MiB, and the rest of the line is under a hundred bytes.
pub const TEXT_BUDGET: usize = 1_000_000;

/// Ends a text that had to be cut.
pub const TRUNCATION_MARK: &'static str = "\n[output truncated by herdr-palette]";

/// Suffix on the agent row hosting the pane the palette was opened from.
pub const ORIGIN_SUFFIX: &'static str = " - this pane";

/// How sending a prompt ended.
pub enum Sent {
    Done,
    /// Nothing to send, no agent to send it to, or Esc on the agent picker:
    /// exit 0 in silence.
    Cancelled,
}

/// How a command run ended.
#[derive(Debug, PartialEq, Eq)]
pub enum Outcome {
    /// Its exit code; `None` when it was killed by a signal.
    Exited(Option<i32>),
    /// Killed at the deadline; its output is dropped, since a partial capture
    /// would read as a complete one.
    TimedOut,
    /// It could not be started; the system's reason.
    CannotStart(String),
}

/// A command run: what it printed (as captured) and how it ended.
#[derive(Debug)]
pub struct Captured {
    pub output: String,
    pub outcome: Outcome,
}

// ----- Assembling the text -----

/// `s` without its trailing newlines and carriage returns.
pub open spec fn trim_newlines(s: Seq<char>) -> Seq<char>
    decreases s.len(),
{
    if s.len() > 0 && (s.last() == '\n' || s.last() == '\r') {
        trim_newlines(s.drop_last())
    } else {
        s
    }
}

/// The entry's text, a newline, then the output stripped of its trailing
/// newlines; either half alone when the other is absent.
pub open spec fn assembled(text: Option<Seq<char>>, output: Seq<char>) -> Seq<char> {
    let out = trim_newlines(output);
    match text {
        Some(t) => if out.len() > 0 {
            t + seq!['\n'] + out
        } else {
            t
        },
        None => out,
    }
}

/// Assembles the text to send, as `assembled` defines it.
pub fn assemble(text: Option<&str>, output: &str) -> (r: String)
    ensures
        r@ == assembled(
            match text {
                Some(t) => Some(t@),
                None => None,
            },
            output@,
        ),
{
    let chars = chars_of(output);
    let mut end = chars.len();
    assert(chars@.take(chars@.len() as int) =~= chars@);
    while end > 0 && (chars[end - 1] == '\n' || chars[end - 1] == '\r')
        invariant
            end <= chars@.len(),
            trim_newlines(chars@) == trim_newlines(chars@.take(end as int)),
        decreases end,
    {
        assert(chars@.take(end as int).drop_last() =~= chars@.take(end - 1));
        end -= 1;
    }
    assert(chars@.take(chars@.len() as int) =~= chars@);
    let out = substring(&chars, 0, end);
    assert(out@ == trim_newlines(output@)) by {
        assert(chars@.subrange(0, end as int) =~= chars@.take(end as int));
    }
    match text {
        Some(t) => {
            if end > 0 {
                let mut r = t.to_owned();
                push_char(&mut r, '\n');
                r.append(out.as_str());
                r
            } else {
                t.to_owned()
            }
        },
        None => out,
    }
}

// ----- Fitting the budget -----

/// Bytes `c` occupies once JSON-encoded by serde_json: the short escapes take
/// two, other control characters six (`\u00XX`), everything else its UTF-8
/// length.
pub open spec fn json_size(c: char) -> nat {
    if c == '"' || c == '\\' || c == '\n' || c == '\r' || c == '\t' || c == '\u{8}' || c == '\u{c}' {
        2
    } else if (c as u32) < 0x20 {
        6
    } else if (c as u32) < 0x80 {
        1
    } else if (c as u32) < 0x800 {
        2
    } else if (c as u32) < 0x10000 {
        3
    } else {
        4
    }
}

/// The JSON-encoded size of a whole text.
pub open spec fn text_size(s: Seq<char>) -> nat
    decreases s.len(),
{
    if s.len() == 0 {
        0
    } else {
        text_size(s.drop_last()) + json_size(s.last())
    }
}

pub fn json_len(c: char) -> (r: usize)
    ensures
        r == json_size(c),
{
    if c == '"' || c == '\\' || c == '\n' || c == '\r' || c == '\t' || c == '\u{8}' || c == '\u{c}' {
        2
    } else if (c as u32) < 0x20 {
        6
    } else if (c as u32) < 0x80 {
        1
    } else if (c as u32) < 0x800 {
        2
    } else if (c as u32) < 0x10000 {
        3
    } else {
        4
    }
}

/// What `truncate` returns for `s` and `budget`: `s` itself when its
/// encoding fits; otherwise the longest prefix that fits together with the
/// mark (none when even the mark alone does not), followed by the mark.
pub open spec fn truncation(s: Seq<char>, budget: nat, r: Seq<char>, cut: bool) -> bool {
    if text_size(s) <= budget {
        r == s && !cut
    } else {
        cut && exists|k: int|
            0 <= k <= s.len() && r == s.take(k) + TRUNCATION_MARK@ && (k == 0 || text_size(s.take(k))
                + text_size(TRUNCATION_MARK@) <= budget) && (k < s.len() ==> text_size(s.take(k + 1))
                + text_size(TRUNCATION_MARK@) > budget)
    }
}

proof fn lemma_text_size_grows(s: Seq<char>, i: int)
    requires
        0 <= i < s.len(),
    ensures
        text_size(s.take(i + 1)) == text_size(s.take(i)) + json_size(s[i]),
{
    assert(s.take(i + 1).drop_last() =~= s.take(i));
}

/// Measures `chars` up to `limit`: its encoded size when that is at most
/// `limit`, else some value above `limit`.
fn size_up_to(chars: &Vec<char>, limit: usize) -> (r: usize)
    requires
        limit < usize::MAX - 8,
    ensures
        r <= limit ==> r == text_size(chars@),
        r > limit ==> text_size(chars@) > limit,
{
    let mut total: usize = 0;
    let mut i: usize = 0;
    while i < chars.len()
        invariant
            0 <= i <= chars@.len(),
            limit < usize::MAX - 8,
            total == text_size(chars@.take(i as int)),
            total <= limit,
        decreases chars@.len() - i,
    {
        proof {
            lemma_text_size_grows(chars@, i as int);
        }
        total = total + json_len(chars[i]);
        if total > limit {
            proof {
                lemma_prefix_size_le(chars@, i + 1);
            }
            return total;
        }
        i += 1;
    }
    assert(chars@.take(chars@.len() as int) =~= chars@);
    total
}

proof fn lemma_prefix_size_le(s: Seq<char>, k: int)
    requires
        0 <= k <= s.len(),
    ensures
        text_size(s.take(k)) <= text_size(s),
    decreases s.len() - k,
{
    if k < s.len() {
        lemma_text_size_grows(s, k);
        lemma_prefix_size_le(s, k + 1);
    } else {
        assert(s.take(k) =~= s);
    }
}

/// Cuts `text` so that its JSON encoding fits in `budget` bytes, ending it
/// with the visible mark when it had to, as `truncation` defines it. Measured
/// on the encoding: a diff full of tabs and newlines doubles once escaped.
pub fn truncate(text: String, budget: usize) -> (r: (String, bool))
    requires
        budget < usize::MAX - 8,
    ensures
        truncation(text@, budget as nat, r.0@, r.1),
{
    let chars = chars_of(text.as_str());
    let total = size_up_to(&chars, budget);
    if total <= budget {
        return (text, false);
    }
    let mark = chars_of(TRUNCATION_MARK);
    let mark_len = size_up_to(&mark, budget);
    let mut kept: usize = 0;
    let mut cut: usize = 0;
    let mut stopped = mark_len > budget;
    while cut < chars.len() && !stopped
        invariant
            0 <= cut <= chars@.len(),
            mark_len <= budget ==> mark_len == text_size(mark@),
            mark_len > budget ==> text_size(mark@) > budget,
            mark@ == TRUNCATION_MARK@,
            budget < usize::MAX - 8,
            mark_len > budget ==> stopped && cut == 0,
            !stopped ==> kept == text_size(chars@.take(cut as int)) && kept + mark_len <= budget,
            stopped && mark_len <= budget ==> cut < chars@.len() && kept == text_size(chars@.take(cut as int))
                && kept + mark_len <= budget && text_size(chars@.take(cut + 1)) + mark_len > budget,
        decreases chars@.len() - cut, if stopped { 0int } else { 1int },
    {
        proof {
            lemma_text_size_grows(chars@, cut as int);
        }
        let c = json_len(chars[cut]);
        if c > budget - mark_len - kept {
            stopped = true;
        } else {
            kept = kept + c;
            cut += 1;
        }
    }
    let mut r = substring(&chars, 0, cut);
    r.append(TRUNCATION_MARK);
    proof {
        assert(chars@.subrange(0, cut as int) =~= chars@.take(cut as int));
        if mark_len > budget {
            lemma_text_size_grows(chars@, 0);
        }
        assert(r@ == text@.take(cut as int) + TRUNCATION_MARK@);
        let k = cut as int;
        assert(0 <= k <= text@.len() && r@ == text@.take(k) + TRUNCATION_MARK@ && (k == 0 || text_size(text@.take(k))
                + text_size(TRUNCATION_MARK@) <= budget) && (k < text@.len() ==> text_size(text@.take(k + 1))
                + text_size(TRUNCATION_MARK@) > budget));
    }
    (r, true)
}

// ----- The picker header -----

/// The single header line for the agent picker, empty when there is nothing
/// to say; one thing at a time, most consequential first.
pub open spec fn warning_text(program: Seq<char>, timeout_ms: u64, output: Seq<char>, outcome: Outcome, truncated: bool) -> Seq<char> {
    match outcome {
        Outcome::CannotStart(err) => "warning: cannot run "@ + program + ": "@ + err@,
        Outcome::TimedOut => "warning: "@ + program + " timed out after "@ + decimal(timeout_ms as nat)
            + " ms, its output was dropped"@,
        Outcome::Exited(code) => if output.len() == 0 {
            "warning: "@ + program + " produced no output"@
        } else if truncated {
            "warning: output truncated to fit herdr's 1 MB limit"@
        } else {
            match code {
                Some(0) => Seq::empty(),
                Some(c) => "warning: "@ + program + " exited with status "@ + signed_decimal(c as int),
                None => "warning: "@ + program + " was killed by a signal"@,
            }
        },
    }
}

/// The warning for a run of `prompt`'s command, as `warning_text` defines it.
pub fn warning_for(prompt: &UserPrompt, captured: &Captured, truncated: bool) -> (r: String)
    requires
        prompt.argv@.len() > 0,
    ensures
        r@ == warning_text(prompt.argv@[0]@, prompt.timeout_ms, captured.output@, captured.outcome, truncated),
{
    let program = prompt.argv[0].as_str();
    let mut w = String::new();
    match &captured.outcome {
        Outcome::CannotStart(err) => {
            w.append("warning: cannot run ");
            w.append(program);
            w.append(": ");
            w.append(err.as_str());
        },
        Outcome::TimedOut => {
            w.append("warning: ");
            w.append(program);
            w.append(" timed out after ");
            push_decimal(&mut w, prompt.timeout_ms);
            w.append(" ms, its output was dropped");
        },
        Outcome::Exited(code) => {
            if captured.output.as_str().is_empty() {
                w.append("warning: ");
                w.append(program);
                w.append(" produced no output");
            } else if truncated {
                w.append("warning: output truncated to fit herdr's 1 MB limit");
            } else {
                match code {
                    Some(0) => {},
                    Some(c) => {
                        w.append("warning: ");
                        w.append(program);
                        w.append(" exited with status ");
                        push_signed_decimal(&mut w, *c as i64);
                    },
                    None => {
                        w.append("warning: ");
                        w.append(program);
                        w.append(" was killed by a signal");
                    },
                }
            }
        },
    }
    w
}

// ----- Ordering the agents -----

/// The index of the first row keyed `id`.
pub open spec fn row_index(rows: Seq<RowV>, id: Seq<char>) -> Option<int> {
    if exists|i: int| 0 <= i < rows.len() && rows[i].id == id {
        Some(choose|i: int| 0 <= i < rows.len() && rows[i].id == id && forall|j: int| 0 <= j < i ==> rows[j].id != id)
    } else {
        None
    }
}

/// The agent rows with the origin pane's row first and marked; untouched
/// when the origin pane hosts no agent.
pub open spec fn promoted(rows: Seq<RowV>, origin_pane_id: Seq<char>) -> Seq<RowV> {
    match row_index(rows, origin_pane_id) {
        Some(i) => seq![RowV { label: rows[i].label + ORIGIN_SUFFIX@, ..rows[i] }] + rows.remove(i),
        None => rows,
    }
}

/// Moves the row for `origin_pane_id` to the top and marks it, as `promoted`
/// defines it.
pub fn promote_origin(agents: Vec<Row>, origin_pane_id: &str) -> (r: Vec<Row>)
    ensures
        row_views(r@) == promoted(row_views(agents@), origin_pane_id@),
{
    let ghost given = row_views(agents@);
    let mut rows = agents;
    let mut i: usize = 0;
    while i < rows.len()
        invariant
            0 <= i <= rows@.len(),
            given == row_views(rows@),
            given == row_views(agents@),
            forall|j: int| 0 <= j < i ==> given[j].id != origin_pane_id@,
        decreases rows@.len() - i,
    {
        if crate::text::str_eq(rows[i].id.as_str(), origin_pane_id) {
            let ghost k = i as int;
            let ghost w = choose|w: int|
                0 <= w < given.len() && given[w].id == origin_pane_id@ && forall|j: int|
                    0 <= j < w ==> given[j].id != origin_pane_id@;
            assert(given[k].id == origin_pane_id@);
            assert(w == k) by {
                if w < k {
                } else if w > k {
                }
            }
            assert(row_index(given, origin_pane_id@) == Some(k));
            let mut row = rows.remove(i);
            assert(row_views(rows@) =~= given.remove(k));
            row.label.append(ORIGIN_SUFFIX);
            assert(row@ == RowV { label: given[k].label + ORIGIN_SUFFIX@, ..given[k] });
            let ghost rest = rows@;
            rows.insert(0, row);
            assert(rows@ =~= seq![row] + rest);
            assert(row_views(rows@) =~= promoted(given, origin_pane_id@));
            return rows;
        }
        i += 1;
    }
    rows
}

// ----- Where the command runs -----

/// The entry's own `cwd`, else the origin pane's when it is non-empty and
/// `origin_is_dir` says it still names a directory.
pub open spec fn run_dir(prompt_cwd: Option<Seq<char>>, origin_cwd: Seq<char>, origin_is_dir: bool) -> Option<Seq<char>> {
    match prompt_cwd {
        Some(c) => Some(c),
        None => if origin_cwd.len() > 0 && origin_is_dir {
            Some(origin_cwd)
        } else {
            None
        },
    }
}

/// The directory the prompt's command runs in, as `run_dir` defines it for
/// the answer the filesystem gave about the origin's directory.
pub fn run_cwd(prompt: &UserPrompt, origin: &Origin) -> (r: Option<String>)
    ensures
        exists|is_dir: bool| #[trigger] run_dir(prompt.cwd.deep_view(), origin.cwd@, is_dir) == r.deep_view(),
{
    match &prompt.cwd {
        Some(c) => {
            assert(run_dir(prompt.cwd.deep_view(), origin.cwd@, true) == Some(c@));
            Some(c.clone())
        },
        None => {
            if origin.cwd.as_str().is_empty() {
                assert(run_dir(prompt.cwd.deep_view(), origin.cwd@, true) == None::<Seq<char>>);
                None
            } else if path_is_dir(origin.cwd.as_str()) {
                assert(run_dir(prompt.cwd.deep_view(), origin.cwd@, true) == Some(origin.cwd@));
                Some(origin.cwd.clone())
            } else {
                assert(run_dir(prompt.cwd.deep_view(), origin.cwd@, false) == None::<Seq<char>>);
                None
            }
        },
    }
}

// ----- What a run captured -----

/// The captured text: stdout, then, in `Both` mode, stderr after a newline
/// that separates it from stdout when stdout did not end with one.
pub open spec fn combined(stdout: Seq<char>, stderr: Seq<char>, mode: Capture) -> Seq<char> {
    if mode == Capture::Both && stderr.len() > 0 {
        if stdout.len() > 0 && stdout.last() != '\n' {
            stdout + seq!['\n'] + stderr
        } else {
            stdout + stderr
        }
    } else {
        stdout
    }
}

/// In `Both` mode the captured text is stdout, then a newline only where
/// stdout is non-empty and does not already end a line, then all of stderr;
/// in `Stdout` mode it is stdout alone.
pub proof fn lemma_stdout_then_stderr(stdout: Seq<char>, stderr: Seq<char>)
    ensures
        combined(stdout, stderr, Capture::Stdout) == stdout,
        ({
            let r = combined(stdout, stderr, Capture::Both);
            let sep: int = if stdout.len() > 0 && stdout.last() != '\n' && stderr.len() > 0 { 1 } else { 0 };
            &&& r.len() == stdout.len() + sep + stderr.len()
            &&& r.take(stdout.len() as int) == stdout
            &&& r.skip(stdout.len() + sep) == stderr
            &&& sep == 1 ==> r[stdout.len() as int] == '\n'
        }),
{
    let r = combined(stdout, stderr, Capture::Both);
    if stderr.len() > 0 {
        if stdout.len() > 0 && stdout.last() != '\n' {
            assert(r.take(stdout.len() as int) =~= stdout);
            assert(r.skip(stdout.len() + 1int) =~= stderr);
        } else {
            assert(r.take(stdout.len() as int) =~= stdout);
            assert(r.skip(stdout.len() as int) =~= stderr);
        }
    } else {
        assert(r.take(stdout.len() as int) =~= stdout);
        assert(r.skip(stdout.len() as int) =~= stderr);
    }
}

/// Combines the two captured streams, as `combined` defines it.
pub fn combined_output(stdout: String, stderr: &str, mode: Capture) -> (r: String)
    ensures
        r@ == combined(stdout@, stderr@, mode),
{
    let mut output = stdout;
    if mode == Capture::Both && !stderr.is_empty() {
        let chars = chars_of(output.as_str());
        if chars.len() > 0 && chars[chars.len() - 1] != '\n' {
            push_char(&mut output, '\n');
        }
        output.append(stderr);
    }
    output
}

// ----- The decision after the run -----

/// What to do once the command (if any) has run.
pub enum SendPlan {
    /// Show the agent picker with this header, then deposit `text`.
    Pick { text: String, header: String, warning: bool },
    /// Nothing to send: exit 0 in silence.
    Cancel,
    /// The command could not start or run to completion, and there is no
    /// text to send: a mistake in the file, shown on the error screen.
    Fail(Fatal),
}

/// The text a prompt sends: its own text and the command output assembled,
/// then cut to the budget.
pub open spec fn sent_text(prompt: UserPrompt, captured: Option<Captured>, r: Seq<char>, cut: bool) -> bool {
    let output = match captured {
        Some(c) => c.output@,
        None => Seq::empty(),
    };
    truncation(assembled(prompt.text.deep_view(), output), TEXT_BUDGET as nat, r, cut)
}

/// The warning a run yields; none without a run.
pub open spec fn captured_warning(prompt: UserPrompt, captured: Option<Captured>, cut: bool) -> Seq<char> {
    match captured {
        Some(c) => warning_text(prompt.argv@[0]@, prompt.timeout_ms, c.output@, c.outcome, cut),
        None => Seq::empty(),
    }
}

/// What `plan_send` decides for a prompt and its capture: the text to
/// send with the picker's header, nothing to send, or the failure.
pub open spec fn send_planned(prompt: UserPrompt, captured: Option<Captured>, r: SendPlan) -> bool {
    match r {
        SendPlan::Pick { text, header, warning } => exists|cut: bool|
            #![trigger sent_text(prompt, captured, text@, cut)]
            sent_text(prompt, captured, text@, cut) && text@.len() > 0 && if captured_warning(
                prompt,
                captured,
                cut,
            ).len() > 0 {
                header@ == captured_warning(prompt, captured, cut) && warning
            } else {
                header@ == prompt.title@ && !warning
            },
        SendPlan::Cancel => exists|cut: bool, t: Seq<char>| sent_text(prompt, captured, t, cut) && t.len() == 0
            && !(captured matches Some(c) && (c.outcome is CannotStart || c.outcome is TimedOut)),
        SendPlan::Fail(f) => exists|cut: bool, t: Seq<char>| sent_text(prompt, captured, t, cut) && t.len() == 0
            && (captured matches Some(c) && (c.outcome is CannotStart || c.outcome is TimedOut)
            && f.0@ == "command-palette: "@ + warning_text(prompt.argv@[0]@, prompt.timeout_ms, c.output@, c.outcome, cut)),
    }
}

/// Decides what follows a prompt's run. The text is the entry's text and the
/// output assembled and cut to `TEXT_BUDGET`; an empty text cancels, or fails
/// when the command could not start or timed out; otherwise the agent picker
/// shows the run's warning, or the entry's title when there is none.
pub fn plan_send(prompt: &UserPrompt, captured: Option<Captured>) -> (r: SendPlan)
    requires
        captured is Some ==> prompt.argv@.len() > 0,
    ensures
        send_planned(*prompt, captured, r),
{
    let text_opt: Option<&str> = match &prompt.text {
        Some(t) => Some(t.as_str()),
        None => None,
    };
    let output: &str = match &captured {
        Some(c) => c.output.as_str(),
        None => "",
    };
    proof {
        reveal_strlit("");
    }
    let assembled_text = assemble(text_opt, output);
    assert(assembled_text@ == assembled(prompt.text.deep_view(), match captured {
        Some(c) => c.output@,
        None => Seq::<char>::empty(),
    }));
    let (text, cut) = truncate(assembled_text, TEXT_BUDGET);
    assert(sent_text(*prompt, captured, text@, cut));
    let warning = match &captured {
        Some(c) => warning_for(prompt, c, cut),
        None => String::new(),
    };
    let ghost w = captured_warning(*prompt, captured, cut);
    assert(warning@ == w);
    if text.as_str().is_empty() {
        match &captured {
            Some(c) => match &c.outcome {
                Outcome::CannotStart(_) | Outcome::TimedOut => {
                    let mut message = String::new();
                    message.append("command-palette: ");
                    message.append(warning.as_str());
                    return SendPlan::Fail(Fatal(message));
                },
                _ => {},
            },
            None => {},
        }
        return SendPlan::Cancel;
    }
    let has_warning = !warning.as_str().is_empty();
    let header = if has_warning {
        warning
    } else {
        prompt.title.clone()
    };
    assert(has_warning == (w.len() > 0));
    assert(has_warning ==> header@ == w);
    assert(!has_warning ==> header@ == prompt.title@);
    let r = SendPlan::Pick { text, header, warning: has_warning };
    assert(match r {
        SendPlan::Pick { text, header, warning } => sent_text(*prompt, captured, text@, cut) && text@.len() > 0 && if captured_warning(
                    *prompt,
                    captured,
                    cut,
                ).len() > 0 {
                    header@ == captured_warning(*prompt, captured, cut) && warning
                } else {
                    header@ == prompt.title@ && !warning
                },
        _ => false,
    });
    r
}

/// The error shown when the deposit fails: the entry's title and herdr's
/// message, never the text itself.
pub fn send_failure(title: &str, message: &str) -> (r: Fatal)
    ensures
        r.0@ == "command-palette: cannot send "@ + title@ + " to the agent:\n"@ + message@,
{
    let mut m = String::new();
    m.append("command-palette: cannot send ");
    m.append(title);
    m.append(" to the agent:\n");
    m.append(message);
    Fatal(m)
}


proof fn lemma_text_size_concat(a: Seq<char>, b: Seq<char>)
    ensures
        text_size(a + b) == text_size(a) + text_size(b),
    decreases b.len(),
{
    if b.len() == 0 {
        assert(a + b =~= a);
    } else {
        lemma_text_size_concat(a, b.drop_last());
        assert((a + b).drop_last() =~= a + b.drop_last());
    }
}

/// What `truncate` gives back fits the budget once JSON-encoded (whenever
/// the budget can hold the mark at all), and a cut text ends with the mark.
pub proof fn lemma_truncation_fits(s: Seq<char>, budget: nat, r: Seq<char>, cut: bool)
    requires
        truncation(s, budget, r, cut),
        text_size(TRUNCATION_MARK@) <= budget,
    ensures
        text_size(r) <= budget,
        cut ==> r.len() >= TRUNCATION_MARK@.len() && r.skip(r.len() - TRUNCATION_MARK@.len()) == TRUNCATION_MARK@,
        !cut ==> r == s,
{
    if text_size(s) > budget {
        let k = choose|k: int|
            0 <= k <= s.len() && r == s.take(k) + TRUNCATION_MARK@ && (k == 0 || text_size(s.take(k))
                + text_size(TRUNCATION_MARK@) <= budget) && (k < s.len() ==> text_size(s.take(k + 1))
                + text_size(TRUNCATION_MARK@) > budget);
        lemma_text_size_concat(s.take(k), TRUNCATION_MARK@);
        if k == 0 {
            assert(s.take(0) =~= Seq::<char>::empty());
        }
        assert(r.skip(r.len() - TRUNCATION_MARK@.len()) =~= TRUNCATION_MARK@);
    }
}

} // verus!
