//! The plugin-action half of the palette: rows sourced from
//! `herdr plugin action list`, and their dispatch through
//! `herdr plugin action invoke` plus log polling.
//!
//! Rows are keyed `plugin:<qualified_id>`, which no catalog id can collide
//! with (catalog ids exclude the colon). Labels read `<Name>: <title>`, the
//! name derived from the plugin id. Any failure of the list (the call, its
//! status, the JSON) yields no rows and is not fatal; a malformed entry is
//! skipped alone.

use vstd::prelude::*;
use vstd::multiset::Multiset;

use crate::fatal::Fatal;
use crate::json::{JsonValue, as_array, as_str, get, get_in, get_opt, parse_json_opt, parsed, str_at};
use crate::keys::{KeyHints, plugin_hint};
use crate::text::{chars_of, concat, join, join_from, lines, owned, push_char, split_lines, str_eq, trim, trimmed, views};
use crate::ui::{Row, RowV, row_views};

verus! {

/// What `char::to_uppercase` yields for a character: one or more
/// characters, by the Unicode tables of the standard library.
pub uninterp spec fn spec_char_uppercase(c: char) -> Seq<char>;

/// `char::to_uppercase`, collected. Its result is named; the contract also
/// states what the standard library documents for ASCII: a lowercase ASCII
/// letter becomes its capital, any other ASCII character stays itself.
#[verifier::external_body]
fn char_uppercase(c: char) -> (r: String)
    ensures
        r@ == spec_char_uppercase(c),
        'a' <= c <= 'z' ==> r@ == seq![((c as u32) - 32) as char],
        (c as u32) < 128 && !('a' <= c <= 'z') ==> r@ == seq![c],
{
    c.to_uppercase().collect()
}

/// The text after the last `.` (all of it when there is none).
pub open spec fn after_last_dot(s: Seq<char>) -> Seq<char>
    decreases s.len(),
{
    if s.len() == 0 {
        s
    } else if s.last() == '.' {
        Seq::empty()
    } else {
        after_last_dot(s.drop_last()).push(s.last())
    }
}

/// `s` without a leading `herdr-`.
pub open spec fn without_herdr_prefix(s: Seq<char>) -> Seq<char> {
    if s.len() >= 6 && s.take(6) == "herdr-"@ {
        s.skip(6)
    } else {
        s
    }
}

/// A human plugin name derived from its id: the segment after the last
/// dot, minus any `herdr-` prefix, first letter capitalized.
pub open spec fn display_name(plugin_id: Seq<char>) -> Seq<char> {
    let base = without_herdr_prefix(after_last_dot(plugin_id));
    if base.len() == 0 {
        Seq::empty()
    } else {
        spec_char_uppercase(base[0]) + base.skip(1)
    }
}

/// The name `display_name` gives a plugin id. `herdr-file-viewer` becomes
/// `File-viewer`, `jt.command-palette` becomes `Command-palette`.
pub fn plugin_display_name(plugin_id: &str) -> (r: String)
    ensures
        r@ == display_name(plugin_id@),
{
    let chars = chars_of(plugin_id);
    let mut start = chars.len();
    assert(chars@.take(start as int) =~= chars@);
    assert(chars@.skip(start as int) =~= Seq::<char>::empty());
    assert(after_last_dot(chars@) =~= after_last_dot(chars@.take(start as int)) + chars@.skip(start as int));
    while start > 0 && chars[start - 1] != '.'
        invariant
            0 <= start <= chars@.len(),
            after_last_dot(chars@) == after_last_dot(chars@.take(start as int)) + chars@.skip(start as int),
        decreases start,
    {
        let ghost t = chars@.take(start as int);
        assert(t.drop_last() =~= chars@.take(start - 1));
        assert(chars@.skip(start - 1) =~= seq![t.last()] + chars@.skip(start as int));
        start -= 1;
    }
    let ghost t = chars@.take(start as int);
    if start > 0 {
        assert(after_last_dot(t) =~= Seq::<char>::empty());
    } else {
        assert(t =~= Seq::<char>::empty());
    }
    let ghost base0 = chars@.skip(start as int);
    assert(after_last_dot(chars@) =~= base0);
    let mut from = start;
    let prefix = chars_of("herdr-");
    proof {
        reveal_strlit("herdr-");
    }
    if chars.len() - start >= 6 {
        let mut same = true;
        let mut k: usize = 0;
        while k < 6
            invariant
                0 <= k <= 6,
                start + 6 <= chars.len(),
                prefix@ == "herdr-"@,
                prefix@.len() == 6,
                same == (forall|m: int| 0 <= m < k ==> base0[m] == prefix@[m]),
                base0 == chars@.skip(start as int),
            decreases 6 - k,
        {
            assert(base0[k as int] == chars@[start + k]);
            if chars[start + k] != prefix[k] {
                same = false;
            }
            k += 1;
        }
        if same {
            assert(base0.take(6) =~= prefix@);
        } else {
            assert(base0.take(6) != "herdr-"@) by {
                let m = choose|m: int| 0 <= m < 6 && base0[m] != prefix@[m];
                assert(base0.take(6)[m] != prefix@[m]);
            }
        }
        if same {
            from = start + 6;
            assert(base0.skip(6) =~= chars@.skip(from as int));
        }
    }
    let ghost base = without_herdr_prefix(base0);
    assert(base =~= chars@.skip(from as int));
    if from == chars.len() {
        return String::new();
    }
    let mut out = char_uppercase(chars[from]);
    let ghost up = out@;
    let mut i = from + 1;
    while i < chars.len()
        invariant
            from < i <= chars@.len(),
            out@ == up + chars@.subrange(from + 1, i as int),
        decreases chars@.len() - i,
    {
        push_char(&mut out, chars[i]);
        assert(chars@.subrange(from + 1, i + 1) =~= chars@.subrange(from + 1, i as int).push(chars@[i as int]));
        i += 1;
    }
    assert(base.skip(1) =~= chars@.subrange(from + 1, chars@.len() as int));
    out
}

// ----- Rows -----

/// Whether an action is offered on `platform`: one that declares no
/// platforms runs anywhere, an unknown host is offered everything, else the
/// platform must be listed.
pub open spec fn offered(action: JsonValue, platform: Seq<char>) -> bool {
    match get(action, "platforms"@) {
        None => true,
        Some(JsonValue::Null) => true,
        Some(JsonValue::Array(platforms)) => platform.len() == 0 || exists|i: int|
            0 <= i < platforms@.len() && #[trigger] as_str(Some(platforms@[i])) == Some(platform),
        Some(_) => false,
    }
}

/// An action that lists platforms is offered on a known platform exactly
/// when that platform is one of them, wherever it stands in the list; an
/// unknown platform is offered everything.
pub proof fn lemma_offered_where_listed(action: JsonValue, platform: Seq<char>, platforms: Vec<JsonValue>)
    requires
        get(action, "platforms"@) == Some(JsonValue::Array(platforms)),
    ensures
        forall|i: int| 0 <= i < platforms@.len() && #[trigger] as_str(Some(platforms@[i])) == Some(platform) ==> offered(action, platform),
        offered(action, platform) && platform.len() > 0 ==> exists|i: int| 0 <= i < platforms@.len() && #[trigger] as_str(Some(platforms@[i])) == Some(platform),
        platform.len() == 0 ==> offered(action, platform),
{
}

/// The row of one listed action, if it is well formed, not the palette's
/// own, and offered on this platform.
#[verifier::opaque]
pub open spec fn action_row(action: JsonValue, self_plugin: Seq<char>, platform: Seq<char>, hints: KeyHints) -> Option<RowV> {
    match (as_str(get(action, "plugin_id"@)), as_str(get(action, "action_id"@)), as_str(get(action, "title"@))) {
        (Some(plugin_id), Some(action_id), Some(title)) => if (self_plugin.len() > 0 && plugin_id == self_plugin)
            || !offered(action, platform) {
            None
        } else {
            let qid = plugin_id + "."@ + action_id;
            Some(
                RowV {
                    id: "plugin:"@ + qid,
                    label: display_name(plugin_id) + ": "@ + title,
                    hint: plugin_hint(hints@, qid),
                },
            )
        },
        _ => None,
    }
}

/// The rows of the listed actions, in list order.
pub open spec fn action_rows(actions: Seq<JsonValue>, self_plugin: Seq<char>, platform: Seq<char>, hints: KeyHints) -> Seq<RowV>
    decreases actions.len(),
{
    if actions.len() == 0 {
        Seq::empty()
    } else {
        let rows = action_rows(actions.drop_last(), self_plugin, platform, hints);
        match action_row(actions.last(), self_plugin, platform, hints) {
            Some(row) => rows.push(row),
            None => rows,
        }
    }
}

/// Whether label `a` sorts strictly before `b`: character by character,
/// as `str` orders (its UTF-8 bytes order as the code points do).
pub open spec fn label_before(a: Seq<char>, b: Seq<char>) -> bool
    decreases a.len(),
{
    if a.len() == 0 {
        b.len() > 0
    } else if b.len() == 0 {
        false
    } else if a[0] != b[0] {
        a[0] < b[0]
    } else {
        label_before(a.skip(1), b.skip(1))
    }
}

/// `row` inserted into `sorted` after every row whose label does not sort
/// after its own.
pub open spec fn insert_by_label(sorted: Seq<RowV>, row: RowV) -> Seq<RowV>
    decreases sorted.len(),
{
    if sorted.len() == 0 {
        seq![row]
    } else if label_before(row.label, sorted.last().label) {
        insert_by_label(sorted.drop_last(), row).push(sorted.last())
    } else {
        sorted.push(row)
    }
}

/// The stable sort by label: rows with equal labels keep their order.
pub open spec fn sorted_by_label(rows: Seq<RowV>) -> Seq<RowV>
    decreases rows.len(),
{
    if rows.len() == 0 {
        Seq::empty()
    } else {
        insert_by_label(sorted_by_label(rows.drop_last()), rows.last())
    }
}

/// The plugin rows an action list output offers: none unless it is JSON
/// with an array at `.result.actions`; sorted among themselves by label.
pub open spec fn plugin_rows_of(doc: Option<JsonValue>, self_plugin: Seq<char>, platform: Seq<char>, hints: KeyHints) -> Seq<RowV> {
    match as_array(get_opt(get_opt(doc, "result"@), "actions"@)) {
        None => Seq::empty(),
        Some(actions) => sorted_by_label(action_rows(actions, self_plugin, platform, hints)),
    }
}

/// Whether `a` sorts strictly before `b`, as `label_before` defines it.
fn label_lt(a: &Vec<char>, b: &Vec<char>) -> (r: bool)
    ensures
        r == label_before(a@, b@),
{
    let mut i: usize = 0;
    assert(a@.skip(0) =~= a@);
    assert(b@.skip(0) =~= b@);
    while i < a.len() && i < b.len() && a[i] == b[i]
        invariant
            0 <= i <= a@.len(),
            i <= b@.len(),
            label_before(a@, b@) == label_before(a@.skip(i as int), b@.skip(i as int)),
        decreases a@.len() - i,
    {
        assert(a@.skip(i as int).skip(1) =~= a@.skip(i + 1));
        assert(b@.skip(i as int).skip(1) =~= b@.skip(i + 1));
        i += 1;
    }
    if i == a.len() {
        i < b.len()
    } else if i == b.len() {
        false
    } else {
        a[i] < b[i]
    }
}

proof fn lemma_insert_at(sorted: Seq<RowV>, row: RowV, p: int)
    requires
        0 <= p <= sorted.len(),
        forall|j: int| p <= j < sorted.len() ==> label_before(row.label, #[trigger] sorted[j].label),
        p == 0 || !label_before(row.label, sorted[p - 1].label),
    ensures
        insert_by_label(sorted, row) == sorted.take(p).push(row) + sorted.skip(p),
    decreases sorted.len(),
{
    if sorted.len() == p {
        if p == 0 {
            assert(sorted.take(p).push(row) + sorted.skip(p) =~= seq![row]);
        } else {
            assert(sorted.take(p) =~= sorted);
            assert(sorted.skip(p) =~= Seq::<RowV>::empty());
            assert(sorted.take(p).push(row) + sorted.skip(p) =~= sorted.push(row));
        }
    } else {
        let d = sorted.drop_last();
        assert(label_before(row.label, sorted[sorted.len() - 1].label));
        lemma_insert_at(d, row, p);
        assert(d.take(p) =~= sorted.take(p));
        assert(d.skip(p).push(sorted.last()) =~= sorted.skip(p));
        assert((d.take(p).push(row) + d.skip(p)).push(sorted.last()) =~= sorted.take(p).push(row) + sorted.skip(p));
    }
}

/// Inserts `row` into `sorted` where `insert_by_label` puts it.
fn insert_row(sorted: &mut Vec<Row>, keys: &mut Vec<Vec<char>>, row: Row)
    requires
        old(keys)@.len() == old(sorted)@.len(),
        forall|j: int| 0 <= j < old(keys)@.len() ==> (#[trigger] old(keys)@[j])@ == old(sorted)@[j].label@,
    ensures
        row_views(final(sorted)@) == insert_by_label(row_views(old(sorted)@), row@),
        final(keys)@.len() == final(sorted)@.len(),
        forall|j: int| 0 <= j < final(keys)@.len() ==> (#[trigger] final(keys)@[j])@ == final(sorted)@[j].label@,
{
    let key = chars_of(row.label.as_str());
    let ghost sv = row_views(sorted@);
    let mut p = sorted.len();
    while p > 0 && label_lt(&key, &keys[p - 1])
        invariant
            0 <= p <= sorted@.len(),
            keys@.len() == sorted@.len(),
            sv == row_views(sorted@),
            key@ == row.label@,
            forall|j: int| 0 <= j < keys@.len() ==> (#[trigger] keys@[j])@ == sorted@[j].label@,
            forall|j: int| p <= j < sv.len() ==> label_before(row@.label, #[trigger] sv[j].label),
        decreases p,
    {
        p -= 1;
    }
    proof {
        lemma_insert_at(sv, row@, p as int);
    }
    let ghost rv = row@;
    let ghost old_keys = keys@;
    let ghost old_rows = sorted@;
    sorted.insert(p, row);
    keys.insert(p, key);
    assert(row_views(sorted@) =~= sv.take(p as int).push(rv) + sv.skip(p as int));
    assert forall|j: int| 0 <= j < keys@.len() implies (#[trigger] keys@[j])@ == sorted@[j].label@ by {
        if j < p {
            assert(keys@[j] == old_keys[j]);
        } else if j > p {
            assert(keys@[j] == old_keys[j - 1]);
        }
    }
}

/// The rows of one action, as `action_row` defines it.
fn row_of_action(action: &JsonValue, self_plugin: &str, platform: &str, hints: &KeyHints) -> (r: Option<Row>)
    ensures
        match r {
            Some(row) => action_row(*action, self_plugin@, platform@, *hints) == Some(row@),
            None => action_row(*action, self_plugin@, platform@, *hints) is None,
        },
{
    reveal(action_row);
    let plugin_id = match str_at(action, "plugin_id") {
        Some(s) => s,
        None => return None,
    };
    let action_id = match str_at(action, "action_id") {
        Some(s) => s,
        None => return None,
    };
    let title = match str_at(action, "title") {
        Some(s) => s,
        None => return None,
    };
    if !self_plugin.is_empty() && str_eq(plugin_id.as_str(), self_plugin) {
        return None;
    }
    let is_offered = match action.get("platforms") {
        None => true,
        Some(JsonValue::Null) => true,
        Some(JsonValue::Array(platforms)) => {
            if platform.is_empty() {
                true
            } else {
                let mut found = false;
                let mut i: usize = 0;
                while i < platforms.len()
                    invariant
                        0 <= i <= platforms@.len(),
                        found == exists|j: int| 0 <= j < i && #[trigger] as_str(Some(platforms@[j])) == Some(platform@),
                    decreases platforms@.len() - i,
                {
                    let hit = match platforms[i].as_str() {
                        Some(p) => str_eq(p.as_str(), platform),
                        None => false,
                    };
                    if hit {
                        found = true;
                    }
                    assert(hit == (as_str(Some(platforms@[i as int])) == Some(platform@)));
                    i += 1;
                }
                found
            }
        },
        Some(_) => false,
    };
    assert(is_offered == offered(*action, platform@));
    if !is_offered {
        return None;
    }
    let mut qid = concat(plugin_id.as_str(), ".");
    qid.append(action_id.as_str());
    let name = plugin_display_name(plugin_id.as_str());
    let mut label = concat(name.as_str(), ": ");
    label.append(title.as_str());
    Some(Row { id: concat("plugin:", qid.as_str()), label, hint: hints.plugin(qid.as_str()) })
}

/// The plugin rows of a parsed action list output, as `plugin_rows_of` defines
/// them.
#[verifier::spinoff_prover]
pub fn rows_from_doc(doc: &Option<JsonValue>, self_plugin: &str, platform: &str, hints: &KeyHints) -> (r: Vec<Row>)
    ensures
        row_views(r@) == plugin_rows_of(*doc, self_plugin@, platform@, *hints),
{
    let actions = match get_in(get_in(doc.as_ref(), "result"), "actions") {
        Some(JsonValue::Array(actions)) => actions,
        _ => return Vec::new(),
    };
    let ghost all = action_rows(actions@, self_plugin@, platform@, *hints);
    let mut rows: Vec<Row> = Vec::new();
    let mut keys: Vec<Vec<char>> = Vec::new();
    let ghost kept: Seq<RowV> = Seq::empty();
    let mut i: usize = 0;
    assert(actions@.take(0) =~= Seq::<JsonValue>::empty());
    assert(row_views(rows@) =~= Seq::<RowV>::empty());
    while i < actions.len()
        invariant
            0 <= i <= actions@.len(),
            kept == action_rows(actions@.take(i as int), self_plugin@, platform@, *hints),
            row_views(rows@) == sorted_by_label(kept),
            keys@.len() == rows@.len(),
            forall|j: int| 0 <= j < keys@.len() ==> (#[trigger] keys@[j])@ == rows@[j].label@,
        decreases actions@.len() - i,
    {
        assert(actions@.take(i + 1).drop_last() =~= actions@.take(i as int));
        match row_of_action(&actions[i], self_plugin, platform, hints) {
            Some(row) => {
                let ghost prev = kept;
                proof {
                    kept = kept.push(row@);
                }
                assert(kept.drop_last() =~= prev);
                assert(sorted_by_label(kept) == insert_by_label(sorted_by_label(prev), row@));
                insert_row(&mut rows, &mut keys, row);
            },
            None => {},
        }
        assert(kept == action_rows(actions@.take(i + 1), self_plugin@, platform@, *hints));
        i += 1;
    }
    assert(actions@.take(actions@.len() as int) =~= actions@);
    rows
}

/// The plugin rows of an action list output, as `plugin_rows_of` defines
/// them.
pub fn rows_from_json(raw: &str, self_plugin: &str, platform: &str, hints: &KeyHints) -> (r: Vec<Row>)
    ensures
        row_views(r@) == plugin_rows_of(parsed(raw@), self_plugin@, platform@, *hints),
{
    let doc = parse_json_opt(raw);
    rows_from_doc(&doc, self_plugin, platform, hints)
}


// ----- Reporting a failure without a screen -----

/// `herdr notification show <title> [--body <body>]` for a failure: the
/// message's first line is the title, the rest (trimmed) the body.
pub open spec fn notification_argv(message: Seq<char>) -> Seq<Seq<char>> {
    let ls = lines(message);
    let title = if ls.len() > 0 { ls[0] } else { "command-palette: plugin action failed"@ };
    let body = if ls.len() > 0 { trim(join(ls.skip(1), "\n"@)) } else { Seq::empty() };
    if body.len() == 0 {
        seq!["notification"@, "show"@, title]
    } else {
        seq!["notification"@, "show"@, title, "--body"@, body]
    }
}

/// The notification call that reports a failed dispatch.
pub fn notification_args(message: &str) -> (r: Vec<String>)
    ensures
        views(r@) == notification_argv(message@),
{
    let ls = split_lines(message);
    let title = if ls.len() > 0 { ls[0].clone() } else { owned("command-palette: plugin action failed") };
    let body = if ls.len() > 0 {
        let joined = join_from(&ls, 1, "\n");
        assert(views(ls@.skip(1)) =~= views(ls@).skip(1));
        trimmed(joined.as_str())
    } else {
        String::new()
    };
    let mut args: Vec<String> = Vec::new();
    args.push(owned("notification"));
    args.push(owned("show"));
    args.push(title);
    if !body.as_str().is_empty() {
        args.push(owned("--body"));
        args.push(body);
    }
    proof {
        if ls@.len() == 0 {
            reveal_strlit("");
        }
    }
    assert(views(args@) =~= notification_argv(message@));
    args
}

// ----- Dispatching one action -----

/// `herdr plugin action invoke <qid>`.
pub open spec fn invoke_argv(qid: Seq<char>) -> Seq<Seq<char>> {
    seq!["plugin"@, "action"@, "invoke"@, qid]
}

/// `herdr plugin log list --plugin <plugin_id> --limit 20`.
pub open spec fn poll_argv(plugin_id: Seq<char>) -> Seq<Seq<char>> {
    seq!["plugin"@, "log"@, "list"@, "--plugin"@, plugin_id, "--limit"@, "20"@]
}

/// How many times a run's log is polled before it is taken for a healthy
/// long-running action (about five seconds at the default interval).
pub const POLL_TURNS: u32 = 25;

/// The string at `.result.log.<name>` of a response, or nothing.
pub open spec fn log_field(doc: Option<JsonValue>, name: Seq<char>) -> Seq<char> {
    match as_str(get_opt(get_opt(get_opt(doc, "result"@), "log"@), name)) {
        Some(s) => s,
        None => Seq::empty(),
    }
}

/// The run an accepted invoke reports: its plugin id and log id, when both
/// are there. An older herdr reports none.
pub open spec fn log_ref(doc: Option<JsonValue>) -> Option<(Seq<char>, Seq<char>)> {
    let log_id = log_field(doc, "log_id"@);
    let plugin_id = log_field(doc, "plugin_id"@);
    if log_id.len() == 0 || plugin_id.len() == 0 {
        None
    } else {
        Some((plugin_id, log_id))
    }
}

/// What a log entry says of its run.
pub enum Verdict {
    /// Not finished, or not found yet.
    Pending,
    Succeeded,
    Failed(String),
}

pub enum VerdictV {
    Pending,
    Succeeded,
    Failed(Seq<char>),
}

impl View for Verdict {
    type V = VerdictV;

    open spec fn view(&self) -> VerdictV {
        match self {
            Verdict::Pending => VerdictV::Pending,
            Verdict::Succeeded => VerdictV::Succeeded,
            Verdict::Failed(m) => VerdictV::Failed(m@),
        }
    }
}

/// The index of the first log entry whose `log_id` is `log_id`.
#[verifier::opaque]
pub open spec fn entry_of(logs: Seq<JsonValue>, log_id: Seq<char>) -> Option<int> {
    if exists|i: int| 0 <= i < logs.len() && #[trigger] as_str(get(logs[i], "log_id"@)) == Some(log_id) {
        Some(
            choose|i: int|
                0 <= i < logs.len() && #[trigger] as_str(get(logs[i], "log_id"@)) == Some(log_id) && forall|j: int|
                    0 <= j < i ==> as_str(get(logs[j], "log_id"@)) != Some(log_id),
        )
    } else {
        None
    }
}

/// How a failed run's exit code is shown: a number as its text, a string
/// as itself, anything else as `?`.
pub open spec fn exit_code_text(v: Option<JsonValue>) -> Seq<char> {
    match v {
        Some(JsonValue::Number(n, _)) => n@,
        Some(JsonValue::Str(s)) => s@,
        _ => "?"@,
    }
}

/// What a run's log entry says: succeeded, failed (with the message that
/// reports it), or still going.
pub open spec fn entry_verdict(entry: JsonValue, qid: Seq<char>) -> VerdictV {
    let status = as_str(get(entry, "status"@));
    if status == Some("succeeded"@) {
        VerdictV::Succeeded
    } else if status == Some("failed"@) {
        let stderr = match as_str(get(entry, "stderr"@)) {
            Some(s) => s,
            None => Seq::empty(),
        };
        VerdictV::Failed(
            "command-palette: "@ + qid + " failed (exit "@ + exit_code_text(get(entry, "exit_code"@)) + ")\n"@
                + stderr,
        )
    } else {
        VerdictV::Pending
    }
}

/// What one poll's output says of the run `log_id` of action `qid`.
/// Anything unreadable is "nothing yet".
pub open spec fn poll_verdict(doc: Option<JsonValue>, qid: Seq<char>, log_id: Seq<char>) -> VerdictV {
    match as_array(get_opt(get_opt(doc, "result"@), "logs"@)) {
        None => VerdictV::Pending,
        Some(logs) => match entry_of(logs, log_id) {
            None => VerdictV::Pending,
            Some(i) => entry_verdict(logs[i], qid),
        },
    }
}

/// The run reported by a parsed invoke response, as `log_ref` defines it.
pub fn log_ref_in(doc: &Option<JsonValue>) -> (r: Option<(String, String)>)
    ensures
        match r {
            Some((p, l)) => log_ref(*doc) == Some((p@, l@)),
            None => log_ref(*doc) is None,
        },
{
    let log = get_in(get_in(doc.as_ref(), "result"), "log");
    let log_id = match get_in(log, "log_id") {
        Some(JsonValue::Str(s)) => s.clone(),
        _ => String::new(),
    };
    let plugin_id = match get_in(log, "plugin_id") {
        Some(JsonValue::Str(s)) => s.clone(),
        _ => String::new(),
    };
    if log_id.as_str().is_empty() || plugin_id.as_str().is_empty() {
        None
    } else {
        Some((plugin_id, log_id))
    }
}

/// The run reported by an invoke response, as `log_ref` defines it.
pub fn log_ref_of(stdout: Option<&str>) -> (r: Option<(String, String)>)
    ensures
        match r {
            Some((p, l)) => log_ref(
                match stdout {
                    Some(t) => parsed(t@),
                    None => None,
                },
            ) == Some((p@, l@)),
            None => log_ref(
                match stdout {
                    Some(t) => parsed(t@),
                    None => None,
                },
            ) is None,
        },
{
    let doc = match stdout {
        Some(t) => parse_json_opt(t),
        None => None,
    };
    log_ref_in(&doc)
}

/// The first entry of `logs` for `log_id`, as `entry_of` defines it.
fn find_entry(logs: &Vec<JsonValue>, log_id: &str) -> (r: Option<usize>)
    ensures
        match r {
            Some(i) => i < logs@.len() && entry_of(logs@, log_id@) == Some(i as int),
            None => entry_of(logs@, log_id@) is None,
        },
{
    reveal(entry_of);
    let mut i: usize = 0;
    while i < logs.len()
        invariant
            0 <= i <= logs@.len(),
            forall|j: int| 0 <= j < i ==> as_str(get(#[trigger] logs@[j], "log_id"@)) != Some(log_id@),
        decreases logs@.len() - i,
    {
        let hit = match str_at(&logs[i], "log_id") {
            Some(s) => str_eq(s.as_str(), log_id),
            None => false,
        };
        if hit {
            reveal(entry_of);
            let ghost k = i as int;
            assert(as_str(get(logs@[k], "log_id"@)) == Some(log_id@));
            let ghost w = choose|w: int|
                0 <= w < logs@.len() && #[trigger] as_str(get(logs@[w], "log_id"@)) == Some(log_id@) && forall|j: int|
                    0 <= j < w ==> as_str(get(logs@[j], "log_id"@)) != Some(log_id@);
            assert(w == k) by {
                if w < k {
                } else if w > k {
                    assert(as_str(get(logs@[k], "log_id"@)) != Some(log_id@));
                }
            }
            return Some(i);
        }
        i += 1;
    }
    None
}

fn verdict_of_entry(entry: &JsonValue, qid: &str) -> (r: Verdict)
    ensures
        r@ == entry_verdict(*entry, qid@),
{
    reveal(entry_verdict);
    let status = str_at(entry, "status");
    let succeeded = match status {
        Some(s) => str_eq(s.as_str(), "succeeded"),
        None => false,
    };
    if succeeded {
        return Verdict::Succeeded;
    }
    let failed = match status {
        Some(s) => str_eq(s.as_str(), "failed"),
        None => false,
    };
    if !failed {
        return Verdict::Pending;
    }
    let code = match entry.get("exit_code") {
        Some(JsonValue::Number(n, _)) => n.clone(),
        Some(JsonValue::Str(s)) => s.clone(),
        _ => owned("?"),
    };
    let stderr = match str_at(entry, "stderr") {
        Some(s) => s.clone(),
        None => String::new(),
    };
    let mut m = concat("command-palette: ", qid);
    m.append(" failed (exit ");
    m.append(code.as_str());
    m.append(")\n");
    m.append(stderr.as_str());
    Verdict::Failed(m)
}

/// What one parsed poll output says, as `poll_verdict` defines it.
pub fn verdict_in(doc: &Option<JsonValue>, qid: &str, log_id: &str) -> (r: Verdict)
    ensures
        r@ == poll_verdict(*doc, qid@, log_id@),
{
    let logs = match get_in(get_in(doc.as_ref(), "result"), "logs") {
        Some(JsonValue::Array(logs)) => logs,
        _ => return Verdict::Pending,
    };
    match find_entry(logs, log_id) {
        Some(i) => verdict_of_entry(&logs[i], qid),
        None => Verdict::Pending,
    }
}

/// What one poll's output says, as `poll_verdict` defines it.
pub fn verdict_of(stdout: &str, qid: &str, log_id: &str) -> (r: Verdict)
    ensures
        r@ == poll_verdict(parsed(stdout@), qid@, log_id@),
{
    let doc = parse_json_opt(stdout);
    verdict_in(&doc, qid, log_id)
}

/// Where the dispatch of one action stands.
pub enum Dispatch {
    /// The invoke call was asked for.
    Invoking,
    /// Polling the run's log; `turns` polls have been asked for.
    Polling { plugin_id: String, log_id: String, turns: u32 },
    Done,
}

/// What a `herdr` call came to: it could not run (why), or it ran (its
/// exit status, its standard output when that is UTF-8 text, and both
/// streams together).
pub enum CallOutcome {
    NotRun(String),
    Ran { success: bool, stdout: Option<String>, merged: String },
}

/// What the dispatch needs next. `wait`: sleep one poll interval first.
pub enum DispatchAction {
    Call { argv: Vec<String>, wait: bool },
    Finish { result: Result<(), Fatal>, wait: bool },
}

pub open spec fn stdout_doc(stdout: Option<String>) -> Option<JsonValue> {
    match stdout {
        Some(t) => parsed(t@),
        None => None,
    }
}

/// What one poll turn's outcome says: only a successful call whose output
/// holds the run's entry can say more than "nothing yet".
pub open spec fn turn_verdict(outcome: CallOutcome, qid: Seq<char>, log_id: Seq<char>) -> VerdictV {
    match outcome {
        CallOutcome::Ran { success: true, stdout: Some(t), .. } => poll_verdict(parsed(t@), qid, log_id),
        _ => VerdictV::Pending,
    }
}

pub open spec fn invoke_failed(qid: Seq<char>, detail: Seq<char>) -> Seq<char> {
    "command-palette: failed to invoke "@ + qid + "\n"@ + detail
}

/// Whether an action finishes with `result` (as text for an error).
pub open spec fn finishes(action: DispatchAction, result: Result<(), Seq<char>>, wait: bool) -> bool {
    match action {
        DispatchAction::Finish { result: r, wait: w } => w == wait && match (r, result) {
            (Ok(()), Ok(())) => true,
            (Err(f), Err(m)) => f.0@ == m,
            _ => false,
        },
        _ => false,
    }
}

/// Whether an action calls `herdr <argv>`.
pub open spec fn calls(action: DispatchAction, argv: Seq<Seq<char>>, wait: bool) -> bool {
    match action {
        DispatchAction::Call { argv: a, wait: w } => w == wait && views(a@) == argv,
        _ => false,
    }
}

fn poll_call(plugin_id: &str, wait: bool) -> (r: DispatchAction)
    ensures
        calls(r, poll_argv(plugin_id@), wait),
{
    let mut argv: Vec<String> = Vec::new();
    argv.push(owned("plugin"));
    argv.push(owned("log"));
    argv.push(owned("list"));
    argv.push(owned("--plugin"));
    argv.push(owned(plugin_id));
    argv.push(owned("--limit"));
    argv.push(owned("20"));
    assert(views(argv@) =~= poll_argv(plugin_id@));
    DispatchAction::Call { argv, wait }
}

/// The dispatch's first action: invoke the action.
pub fn dispatch_start(qid: &str) -> (r: (Dispatch, DispatchAction))
    ensures
        r.0 is Invoking,
        calls(r.1, invoke_argv(qid@), false),
{
    let mut argv: Vec<String> = Vec::new();
    argv.push(owned("plugin"));
    argv.push(owned("action"));
    argv.push(owned("invoke"));
    argv.push(owned(qid));
    assert(views(argv@) =~= invoke_argv(qid@));
    (Dispatch::Invoking, DispatchAction::Call { argv, wait: false })
}

fn invoke_failure(qid: &str, detail: &str) -> (r: Fatal)
    ensures
        r.0@ == invoke_failed(qid@, detail@),
{
    let mut m = concat("command-palette: failed to invoke ", qid);
    m.append("\n");
    m.append(detail);
    Fatal(m)
}

/// A bound on the calls a dispatch can still ask for: every poll and one
/// more while invoking, the polls left while polling, none once done. Each
/// step that asks for a call lowers it, so a dispatch ends after at most
/// `POLL_TURNS + 1` steps that call.
pub open spec fn calls_left(state: Dispatch) -> int {
    match state {
        Dispatch::Invoking => POLL_TURNS + 1,
        Dispatch::Polling { turns, .. } => POLL_TURNS - turns,
        Dispatch::Done => 0,
    }
}

/// One step of a dispatch: what the outcome of the call it asked for
/// means. `plugin action invoke` only says the action was accepted, so an
/// accepted run is followed through its log entry: a failure there is
/// reported, a success or a run still going after the last poll is fine,
/// and so is a herdr too old to report a log.
pub fn dispatch_step(qid: &str, state: &mut Dispatch, outcome: CallOutcome) -> (action: DispatchAction)
    requires
        *old(state) matches Dispatch::Polling { turns, .. } ==> turns < POLL_TURNS,
    ensures
        *final(state) matches Dispatch::Polling { turns, .. } ==> turns < POLL_TURNS,
        action is Call ==> calls_left(*final(state)) < calls_left(*old(state)),
        match *old(state) {
            Dispatch::Invoking => match outcome {
                CallOutcome::NotRun(detail) => *final(state) is Done && finishes(
                    action,
                    Err(invoke_failed(qid@, detail@)),
                    false,
                ),
                CallOutcome::Ran { success: false, merged, .. } => *final(state) is Done && finishes(
                    action,
                    Err(invoke_failed(qid@, merged@)),
                    false,
                ),
                CallOutcome::Ran { success: true, stdout, .. } => match log_ref(stdout_doc(stdout)) {
                    None => *final(state) is Done && finishes(action, Ok(()), false),
                    Some((plugin_id, log_id)) => (*final(state) matches Dispatch::Polling { plugin_id: p, log_id: l, turns }
                        && p@ == plugin_id && l@ == log_id && turns == 0) && calls(action, poll_argv(plugin_id), false),
                },
            },
            Dispatch::Polling { plugin_id, log_id, turns } => match turn_verdict(outcome, qid@, log_id@) {
                VerdictV::Succeeded => *final(state) is Done && finishes(action, Ok(()), false),
                VerdictV::Failed(m) => *final(state) is Done && finishes(action, Err(m), false),
                VerdictV::Pending => if turns + 1 < POLL_TURNS {
                    (*final(state) matches Dispatch::Polling { plugin_id: p, log_id: l, turns: t } && p@ == plugin_id@
                        && l@ == log_id@ && t == turns + 1) && calls(action, poll_argv(plugin_id@), true)
                } else {
                    *final(state) is Done && finishes(action, Ok(()), true)
                },
            },
            Dispatch::Done => *final(state) is Done && finishes(action, Ok(()), false),
        },
{
    match state {
        Dispatch::Invoking => {
            match outcome {
                CallOutcome::NotRun(detail) => {
                    *state = Dispatch::Done;
                    DispatchAction::Finish { result: Err(invoke_failure(qid, detail.as_str())), wait: false }
                },
                CallOutcome::Ran { success, stdout, merged } => {
                    if !success {
                        *state = Dispatch::Done;
                        return DispatchAction::Finish { result: Err(invoke_failure(qid, merged.as_str())), wait: false };
                    }
                    let found = match &stdout {
                        Some(t) => log_ref_of(Some(t.as_str())),
                        None => log_ref_of(None),
                    };
                    match found {
                        None => {
                            *state = Dispatch::Done;
                            DispatchAction::Finish { result: Ok(()), wait: false }
                        },
                        Some((plugin_id, log_id)) => {
                            let action = poll_call(plugin_id.as_str(), false);
                            *state = Dispatch::Polling { plugin_id, log_id, turns: 0 };
                            action
                        },
                    }
                },
            }
        },
        Dispatch::Polling { plugin_id, log_id, turns } => {
            let verdict = match &outcome {
                CallOutcome::Ran { success: true, stdout: Some(t), .. } => verdict_of(t.as_str(), qid, log_id.as_str()),
                _ => Verdict::Pending,
            };
            match verdict {
                Verdict::Succeeded => {
                    *state = Dispatch::Done;
                    DispatchAction::Finish { result: Ok(()), wait: false }
                },
                Verdict::Failed(m) => {
                    *state = Dispatch::Done;
                    DispatchAction::Finish { result: Err(Fatal(m)), wait: false }
                },
                Verdict::Pending => {
                    if *turns + 1 < POLL_TURNS {
                        let action = poll_call(plugin_id.as_str(), true);
                        *turns = *turns + 1;
                        action
                    } else {
                        *state = Dispatch::Done;
                        DispatchAction::Finish { result: Ok(()), wait: true }
                    }
                },
            }
        },
        Dispatch::Done => DispatchAction::Finish { result: Ok(()), wait: false },
    }
}


// ----- The order of plugin rows -----

/// No row sorts before an earlier one.
pub open spec fn sorted_labels(rows: Seq<RowV>) -> bool {
    forall|i: int, j: int| 0 <= i < j < rows.len() ==> !label_before(#[trigger] rows[j].label, #[trigger] rows[i].label)
}

proof fn lemma_label_before_asymmetric(a: Seq<char>, b: Seq<char>)
    requires
        label_before(a, b),
    ensures
        !label_before(b, a),
    decreases a.len(),
{
    if a.len() > 0 && b.len() > 0 && a[0] == b[0] {
        lemma_label_before_asymmetric(a.skip(1), b.skip(1));
    }
}

/// When `a` sorts before `c`, any `b` sorts after `a` or before `c`.
proof fn lemma_label_before_split(a: Seq<char>, b: Seq<char>, c: Seq<char>)
    requires
        label_before(a, c),
    ensures
        label_before(a, b) || label_before(b, c),
    decreases a.len(),
{
    if a.len() == 0 || b.len() == 0 {
    } else {
        assert(c.len() > 0);
        let (x, y, z) = (a[0], b[0], c[0]);
        if a[0] == b[0] && b[0] == c[0] {
            lemma_label_before_split(a.skip(1), b.skip(1), c.skip(1));
        } else if a[0] == c[0] {
            assert(x == z);
            if x < y {
                assert(a[0] != b[0]);
            } else {
                assert(y < z);
                assert(b[0] != c[0]);
            }
        } else {
            assert(x < z);
            if x < y {
                assert(a[0] != b[0]);
            } else if y < z {
                assert(b[0] != c[0]);
            } else {
                assert(false);
            }
        }
    }
}

proof fn lemma_insert_by_label(sorted: Seq<RowV>, row: RowV)
    requires
        sorted_labels(sorted),
    ensures
        sorted_labels(insert_by_label(sorted, row)),
        insert_by_label(sorted, row).to_multiset() == sorted.to_multiset().insert(row),
    decreases sorted.len(),
{
    broadcast use vstd::seq_lib::group_to_multiset_ensures;

    if sorted.len() == 0 {
        assert(seq![row] =~= Seq::<RowV>::empty().push(row));
        assert(Seq::<RowV>::empty().to_multiset() =~= Multiset::<RowV>::empty());
    } else {
        let last = sorted.last();
        let d = sorted.drop_last();
        assert(sorted =~= d.push(last));
        assert(sorted_labels(d)) by {
            assert forall|i: int, j: int| 0 <= i < j < d.len() implies !label_before(#[trigger] d[j].label, #[trigger] d[i].label) by {
                assert(d[i] == sorted[i] && d[j] == sorted[j]);
            }
        }
        if label_before(row.label, last.label) {
            lemma_insert_by_label(d, row);
            let m = insert_by_label(d, row);
            let out = m.push(last);
            assert(insert_by_label(sorted, row) == out);
            lemma_label_before_asymmetric(row.label, last.label);
            assert forall|i: int, j: int| 0 <= i < j < out.len() implies !label_before(#[trigger] out[j].label, #[trigger] out[i].label) by {
                if j == out.len() - 1 {
                    let x = m[i];
                    assert(m.contains(x));
                    assert(m.to_multiset().count(x) > 0);
                    if x != row {
                        assert(d.to_multiset().count(x) > 0);
                        assert(d.contains(x));
                        let k = choose|k: int| 0 <= k < d.len() && d[k] == x;
                        assert(sorted[k] == x);
                        assert(sorted[sorted.len() - 1] == last);
                        assert(!label_before(sorted[sorted.len() - 1].label, sorted[k].label));
                    }
                } else {
                    assert(out[i] == m[i] && out[j] == m[j]);
                }
            }
        } else {
            let out = sorted.push(row);
            assert(insert_by_label(sorted, row) == out);
            assert forall|i: int, j: int| 0 <= i < j < out.len() implies !label_before(#[trigger] out[j].label, #[trigger] out[i].label) by {
                if j == out.len() - 1 {
                    if i < sorted.len() - 1 {
                        assert(!label_before(sorted[sorted.len() - 1].label, sorted[i].label));
                        if label_before(row.label, sorted[i].label) {
                            lemma_label_before_split(row.label, last.label, sorted[i].label);
                        }
                    }
                } else {
                    assert(out[i] == sorted[i] && out[j] == sorted[j]);
                }
            }
        }
    }
}

/// Sorting by label orders the rows and keeps every one of them.
pub proof fn lemma_sorted_by_label(rows: Seq<RowV>)
    ensures
        sorted_labels(sorted_by_label(rows)),
        sorted_by_label(rows).to_multiset() == rows.to_multiset(),
    decreases rows.len(),
{
    broadcast use vstd::seq_lib::group_to_multiset_ensures;

    if rows.len() == 0 {
        assert(sorted_by_label(rows) =~= rows);
    } else {
        lemma_sorted_by_label(rows.drop_last());
        lemma_insert_by_label(sorted_by_label(rows.drop_last()), rows.last());
        assert(rows =~= rows.drop_last().push(rows.last()));
    }
}

/// Plugin rows are sorted among themselves by display label, and they are
/// exactly the rows of the offered actions.
pub proof fn lemma_plugin_rows_sorted(doc: Option<JsonValue>, self_plugin: Seq<char>, platform: Seq<char>, hints: KeyHints)
    ensures
        sorted_labels(plugin_rows_of(doc, self_plugin, platform, hints)),
        match as_array(get_opt(get_opt(doc, "result"@), "actions"@)) {
            Some(actions) => plugin_rows_of(doc, self_plugin, platform, hints).to_multiset() == action_rows(
                actions,
                self_plugin,
                platform,
                hints,
            ).to_multiset(),
            None => plugin_rows_of(doc, self_plugin, platform, hints).len() == 0,
        },
{
    match as_array(get_opt(get_opt(doc, "result"@), "actions"@)) {
        Some(actions) => lemma_sorted_by_label(action_rows(actions, self_plugin, platform, hints)),
        None => {},
    }
}

} // verus!
