//! The Sublime-Text-style picker, as plain values: typed query on the top
//! line, a rule under it (which carries the header), fuzzy-filtered results
//! underneath with matched characters bold, keybinding hints right-aligned
//! and dim, the current selection a full-width reversed bar. The terminal
//! front end draws the lines computed here and feeds key presses back.

use vstd::prelude::*;

use crate::text::{chars_of, lines, push_char, split_lines, string_of, views};
use crate::ui::{InputScreen, PickOutcome, PickScreen, Row, RowV, outcome_view};

verus! {

// ----- Keybinding hints -----

/// A hint split into its leading `prefix+` and the rest; a hint whose part
/// before its first `+` is not exactly `prefix` has nothing to fade.
pub open spec fn hint_parts(hint: Seq<char>) -> (Seq<char>, Seq<char>) {
    if hint.len() >= 7 && hint.take(7) == "prefix+"@ {
        ("prefix+"@, hint.skip(7))
    } else {
        (Seq::empty(), hint)
    }
}

/// Splits a keybinding hint, as `hint_parts` defines it.
pub fn split_hint(hint: &str) -> (r: (&str, &str))
    ensures
        (r.0@, r.1@) == hint_parts(hint@),
{
    proof {
        reveal_strlit("prefix+");
        reveal_strlit("");
    }
    let chars = chars_of(hint);
    let n = chars.len();
    if n >= 7 && chars[0] == 'p' && chars[1] == 'r' && chars[2] == 'e' && chars[3] == 'f' && chars[4] == 'i'
        && chars[5] == 'x' && chars[6] == '+' {
        assert(hint@.take(7) =~= "prefix+"@);
        let rest = hint.substring_char(7, n);
        assert(rest@ =~= hint@.skip(7));
        ("prefix+", rest)
    } else {
        assert(n >= 7 ==> hint@.take(7) != "prefix+"@) by {
            reveal_strlit("prefix+");
            if n >= 7 && hint@.take(7) == "prefix+"@ {
                assert(hint@.take(7)[0] == 'p');
                assert(hint@.take(7)[1] == 'r');
                assert(hint@.take(7)[2] == 'e');
                assert(hint@.take(7)[3] == 'f');
                assert(hint@.take(7)[4] == 'i');
                assert(hint@.take(7)[5] == 'x');
                assert(hint@.take(7)[6] == '+');
            }
        }
        ("", hint)
    }
}

// ----- The rule under the query -----

/// `n` copies of the box-drawing horizontal line.
pub open spec fn rule(n: nat) -> Seq<char> {
    Seq::new(n, |i: int| '─')
}

/// The embedded header (`── header `, nothing for an empty header) and the
/// rule that pads it to `width`; a header wider than `width` is kept whole.
pub open spec fn rule_split(header: Seq<char>, width: nat) -> (Seq<char>, Seq<char>) {
    let text = if header.len() == 0 {
        Seq::empty()
    } else {
        seq!['─', '─', ' '] + header + seq![' ']
    };
    let padding = if width > text.len() {
        rule((width - text.len()) as nat)
    } else {
        Seq::empty()
    };
    (text, padding)
}

fn push_rule(s: &mut String, n: usize)
    ensures
        final(s)@ == old(s)@ + rule(n as nat),
{
    let mut i: usize = 0;
    while i < n
        invariant
            0 <= i <= n,
            s@ == old(s)@ + rule(i as nat),
        decreases n - i,
    {
        push_char(s, '─');
        assert(rule((i + 1) as nat) =~= rule(i as nat).push('─'));
        i += 1;
    }
}

/// The header embedded in the rule and the padding, as `rule_split`
/// defines them, kept apart so they can be styled differently.
pub fn rule_parts(header: &str, width: usize) -> (r: (String, String))
    ensures
        (r.0@, r.1@) == rule_split(header@, width as nat),
{
    let mut text = String::new();
    if !header.is_empty() {
        push_char(&mut text, '─');
        push_char(&mut text, '─');
        push_char(&mut text, ' ');
        text.append(header);
        push_char(&mut text, ' ');
        assert(text@ =~= seq!['─', '─', ' '] + header@ + seq![' ']);
    }
    let shown = chars_of(text.as_str()).len();
    let mut padding = String::new();
    if width > shown {
        push_rule(&mut padding, width - shown);
        assert(padding@ =~= rule((width - shown) as nat));
    }
    (text, padding)
}

/// The rule with the header embedded: `rule_split`'s two parts joined.
pub fn rule_line(header: &str, width: usize) -> (r: String)
    ensures
        r@ == rule_split(header@, width as nat).0 + rule_split(header@, width as nat).1,
{
    let (mut text, padding) = rule_parts(header, width);
    text.append(padding.as_str());
    text
}

// ----- Styled text -----

/// The attributes a span of picker text is drawn with; terminal-default
/// colors only, except the warning's yellow.
#[derive(Debug, Clone, Copy, PartialEq, Eq, Structural)]
pub struct Style {
    pub bold: bool,
    pub dim: bool,
    pub reversed: bool,
    pub yellow: bool,
}

pub open spec fn plain_style() -> Style {
    Style { bold: false, dim: false, reversed: false, yellow: false }
}

pub fn plain() -> (r: Style)
    ensures
        r == plain_style(),
{
    Style { bold: false, dim: false, reversed: false, yellow: false }
}

#[derive(Debug)]
pub struct Span {
    pub text: String,
    pub style: Style,
}

pub struct SpanV {
    pub text: Seq<char>,
    pub style: Style,
}

impl View for Span {
    type V = SpanV;

    open spec fn view(&self) -> SpanV {
        SpanV { text: self.text@, style: self.style }
    }
}

pub open spec fn span_views(spans: Seq<Span>) -> Seq<SpanV> {
    spans.map_values(|s: Span| s@)
}

/// Marks a header drawn as a warning (U+26A0, one cell in most terminals).
pub const WARNING_MARK: &'static str = "⚠ ";

/// The header line: a description is chrome and stays dim; a warning is
/// marked and drawn bold yellow, its padding rule dim.
pub open spec fn header_spans(header: Seq<char>, warning: bool, width: nat) -> Seq<SpanV> {
    let dim = Style { dim: true, ..plain_style() };
    if !warning || header.len() == 0 {
        seq![SpanV { text: rule_split(header, width).0 + rule_split(header, width).1, style: dim }]
    } else {
        let (text, padding) = rule_split(WARNING_MARK@ + header, width);
        seq![SpanV { text, style: Style { bold: true, yellow: true, ..plain_style() } }, SpanV { text: padding, style: dim }]
    }
}

/// The header line, as `header_spans` defines it.
pub fn header_line(header: &str, warning: bool, width: usize) -> (r: Vec<Span>)
    ensures
        span_views(r@) == header_spans(header@, warning, width as nat),
{
    let dim = Style { dim: true, ..plain() };
    let mut spans: Vec<Span> = Vec::new();
    if !warning || header.is_empty() {
        spans.push(Span { text: rule_line(header, width), style: dim });
    } else {
        let marked = crate::text::concat(WARNING_MARK, header);
        let (text, padding) = rule_parts(marked.as_str(), width);
        spans.push(Span { text, style: Style { bold: true, yellow: true, ..plain() } });
        spans.push(Span { text: padding, style: dim });
    }
    assert(span_views(spans@) =~= header_spans(header@, warning, width as nat));
    spans
}

// ----- Key presses -----

/// The keys the screens react to; everything else is `Other`.
#[derive(Debug, Clone, Copy, PartialEq, Eq, Structural)]
pub enum KeyCode {
    Esc,
    Enter,
    Up,
    Down,
    Left,
    Right,
    Home,
    End,
    Backspace,
    Delete,
    Char(char),
    Other,
}

/// A key press, with whether Control was held.
#[derive(Debug, Clone, Copy, PartialEq, Eq, Structural)]
pub struct KeyPress {
    pub code: KeyCode,
    pub ctrl: bool,
}

// ----- The picker's state -----

/// The picker between key presses: the typed query and the selected
/// position among the visible rows.
pub struct PickState {
    pub query: Vec<char>,
    pub selected: usize,
}

/// What a key press does to the picker.
pub enum PickStep {
    /// Keep going with the updated state.
    Continue,
    /// Esc or Ctrl-C: a clean cancel.
    Cancel,
    /// Enter: the visible position chosen, or `None` when nothing is visible.
    Accept(Option<usize>),
}

/// The selection kept within the `visible` rows.
pub open spec fn clamped(selected: nat, visible: nat) -> nat {
    if selected >= visible {
        if visible == 0 {
            0
        } else {
            (visible - 1) as nat
        }
    } else {
        selected
    }
}

pub fn clamp_selection(selected: usize, visible: usize) -> (r: usize)
    ensures
        r == clamped(selected as nat, visible as nat),
{
    if selected >= visible {
        visible.saturating_sub(1)
    } else {
        selected
    }
}

/// The effect of one key on the picker, over `visible` matching rows:
/// `(query, selected, step)` after the key.
pub open spec fn pick_effect(query: Seq<char>, selected: nat, key: KeyPress, visible: nat) -> (Seq<char>, nat, PickStep) {
    match (key.code, key.ctrl) {
        (KeyCode::Esc, _) => (query, selected, PickStep::Cancel),
        (KeyCode::Char('c'), true) => (query, selected, PickStep::Cancel),
        (KeyCode::Enter, _) => (query, selected, PickStep::Accept(if selected < visible { Some(selected as usize) } else { None })),
        (KeyCode::Up, _) | (KeyCode::Char('k'), true) | (KeyCode::Char('p'), true) => (
            query,
            if selected > 0 { (selected - 1) as nat } else { 0 },
            PickStep::Continue,
        ),
        (KeyCode::Down, _) | (KeyCode::Char('j'), true) | (KeyCode::Char('n'), true) => (
            query,
            if selected + 1 < visible { selected + 1 } else { selected },
            PickStep::Continue,
        ),
        (KeyCode::Char('u'), true) => (Seq::empty(), 0, PickStep::Continue),
        (KeyCode::Backspace, _) => (if query.len() > 0 { query.drop_last() } else { query }, 0, PickStep::Continue),
        (KeyCode::Char(c), false) => (query.push(c), 0, PickStep::Continue),
        _ => (query, selected, PickStep::Continue),
    }
}

/// Applies one key press to the picker, as `pick_effect` defines it.
pub fn pick_key(state: &mut PickState, key: KeyPress, visible: usize) -> (r: PickStep)
    requires
        old(state).selected < usize::MAX,
    ensures
        (final(state).query@, final(state).selected as nat, r) == pick_effect(
            old(state).query@,
            old(state).selected as nat,
            key,
            visible as nat,
        ),
{
    match (key.code, key.ctrl) {
        (KeyCode::Esc, _) => PickStep::Cancel,
        (KeyCode::Char('c'), true) => PickStep::Cancel,
        (KeyCode::Enter, _) => PickStep::Accept(
            if state.selected < visible {
                Some(state.selected)
            } else {
                None
            },
        ),
        (KeyCode::Up, _) | (KeyCode::Char('k'), true) | (KeyCode::Char('p'), true) => {
            state.selected = state.selected.saturating_sub(1);
            PickStep::Continue
        },
        (KeyCode::Down, _) | (KeyCode::Char('j'), true) | (KeyCode::Char('n'), true) => {
            if state.selected + 1 < visible {
                state.selected = state.selected + 1;
            }
            PickStep::Continue
        },
        (KeyCode::Char('u'), true) => {
            state.query = Vec::new();
            state.selected = 0;
            PickStep::Continue
        },
        (KeyCode::Backspace, _) => {
            state.query.pop();
            state.selected = 0;
            PickStep::Continue
        },
        (KeyCode::Char(c), false) => {
            state.query.push(c);
            state.selected = 0;
            PickStep::Continue
        },
        _ => PickStep::Continue,
    }
}

// ----- The line editor -----

/// The input screen between key presses: the line and the cursor, a
/// position between characters.
pub struct InputState {
    pub value: Vec<char>,
    pub cursor: usize,
}

/// What a key press does to the line editor.
pub enum InputStep {
    Continue,
    /// Esc or Ctrl-C.
    Cancel,
    /// Enter: the line as typed.
    Submit(String),
}

/// The effect of one key on the line editor: `(value, cursor, step)` after
/// the key, for a cursor within the line.
pub open spec fn input_effect(value: Seq<char>, cursor: nat, key: KeyPress) -> (Seq<char>, nat, Option<Option<Seq<char>>>) {
    match (key.code, key.ctrl) {
        (KeyCode::Esc, _) | (KeyCode::Char('c'), true) => (value, cursor, Some(None)),
        (KeyCode::Enter, _) => (value, cursor, Some(Some(value))),
        (KeyCode::Left, _) | (KeyCode::Char('b'), true) => (value, if cursor > 0 { (cursor - 1) as nat } else { 0 }, None),
        (KeyCode::Right, _) | (KeyCode::Char('f'), true) => (value, if cursor < value.len() { cursor + 1 } else { value.len() }, None),
        (KeyCode::Home, _) | (KeyCode::Char('a'), true) => (value, 0, None),
        (KeyCode::End, _) | (KeyCode::Char('e'), true) => (value, value.len(), None),
        (KeyCode::Char('u'), true) => (Seq::empty(), 0, None),
        (KeyCode::Backspace, _) => if cursor > 0 {
            (value.remove(cursor - 1), (cursor - 1) as nat, None)
        } else {
            (value, cursor, None)
        },
        (KeyCode::Delete, _) => if cursor < value.len() {
            (value.remove(cursor as int), cursor, None)
        } else {
            (value, cursor, None)
        },
        (KeyCode::Char(c), false) => (value.insert(cursor as int, c), cursor + 1, None),
        _ => (value, cursor, None),
    }
}

/// The outcome part of an input step: `None` to continue, `Some(None)` to
/// cancel, `Some(Some(line))` to submit.
pub open spec fn input_step_view(s: InputStep) -> Option<Option<Seq<char>>> {
    match s {
        InputStep::Continue => None,
        InputStep::Cancel => Some(None),
        InputStep::Submit(line) => Some(Some(line@)),
    }
}

/// Applies one key press to the line editor, as `input_effect` defines it.
pub fn input_key(state: &mut InputState, key: KeyPress) -> (r: InputStep)
    requires
        old(state).cursor <= old(state).value@.len(),
        old(state).value@.len() < usize::MAX,
    ensures
        final(state).cursor <= final(state).value@.len(),
        (final(state).value@, final(state).cursor as nat, input_step_view(r)) == input_effect(
            old(state).value@,
            old(state).cursor as nat,
            key,
        ),
{
    match (key.code, key.ctrl) {
        (KeyCode::Esc, _) | (KeyCode::Char('c'), true) => InputStep::Cancel,
        (KeyCode::Enter, _) => InputStep::Submit(crate::text::string_of(&state.value)),
        (KeyCode::Left, _) | (KeyCode::Char('b'), true) => {
            state.cursor = state.cursor.saturating_sub(1);
            InputStep::Continue
        },
        (KeyCode::Right, _) | (KeyCode::Char('f'), true) => {
            if state.cursor < state.value.len() {
                state.cursor = state.cursor + 1;
            }
            InputStep::Continue
        },
        (KeyCode::Home, _) | (KeyCode::Char('a'), true) => {
            state.cursor = 0;
            InputStep::Continue
        },
        (KeyCode::End, _) | (KeyCode::Char('e'), true) => {
            state.cursor = state.value.len();
            InputStep::Continue
        },
        (KeyCode::Char('u'), true) => {
            state.value = Vec::new();
            state.cursor = 0;
            InputStep::Continue
        },
        (KeyCode::Backspace, _) => {
            if state.cursor > 0 {
                state.cursor = state.cursor - 1;
                state.value.remove(state.cursor);
            }
            InputStep::Continue
        },
        (KeyCode::Delete, _) => {
            if state.cursor < state.value.len() {
                state.value.remove(state.cursor);
            }
            InputStep::Continue
        },
        (KeyCode::Char(c), false) => {
            state.value.insert(state.cursor, c);
            state.cursor = state.cursor + 1;
            InputStep::Continue
        },
        _ => InputStep::Continue,
    }
}


// ----- Fuzzy filtering -----

#[verifier::external_type_specification]
#[verifier::external_body]
pub struct ExMatcher(nucleo_matcher::Matcher);

/// The fuzzy matcher's verdict on a label for a query, as nucleo-matcher's
/// `Pattern::indices` gives it with a default-configured matcher (the query
/// parsed case-insensitively, with smart normalization): the score and the
/// matched character positions, or `None` when the label does not match.
pub uninterp spec fn spec_fuzzy_match(query: Seq<char>, label: Seq<char>) -> Option<(u32, Seq<u32>)>;

/// `nucleo_matcher::Matcher::new(Config::DEFAULT)`: a matcher with the
/// default configuration.
#[verifier::external_body]
fn default_matcher() -> nucleo_matcher::Matcher {
    nucleo_matcher::Matcher::new(nucleo_matcher::Config::DEFAULT)
}

/// `Pattern::parse(query, CaseMatching::Ignore, Normalization::Smart)`
/// followed by `Pattern::indices` on `label`: the score and the positions it
/// matched, as they come (unsorted, possibly repeated). The contract claims
/// only that the verdict is a function of the query and the label, which
/// holds for a default-configured matcher; the matcher itself is scratch
/// space. The matcher panics on a label of more than `u32::MAX` characters,
/// which `requires` leaves out.
#[verifier::external_body]
fn fuzzy_match(matcher: &mut nucleo_matcher::Matcher, query: &str, label: &str) -> (r: Option<(u32, Vec<u32>)>)
    requires
        label@.len() <= u32::MAX,
    ensures
        match r {
            Some((score, indices)) => spec_fuzzy_match(query@, label@) == Some((score, indices@)),
            None => spec_fuzzy_match(query@, label@) is None,
        },
{
    let pattern = nucleo_matcher::pattern::Pattern::parse(
        query,
        nucleo_matcher::pattern::CaseMatching::Ignore,
        nucleo_matcher::pattern::Normalization::Smart,
    );
    let mut buf = Vec::new();
    let mut indices = Vec::new();
    pattern.indices(nucleo_matcher::Utf32Str::new(label, &mut buf), matcher, &mut indices).map(|score| (score, indices))
}

/// The fuzzy matcher the picker filters with; always default-configured.
pub struct Fuzzy {
    matcher: nucleo_matcher::Matcher,
}

impl Fuzzy {
    pub fn new() -> Fuzzy {
        Fuzzy { matcher: default_matcher() }
    }
}

/// One visible row: its index among the screen's rows, and the matched
/// character positions, sorted and without repeats.
pub struct Filtered {
    pub row: usize,
    pub indices: Vec<u32>,
}

pub struct FilteredV {
    pub row: nat,
    pub indices: Seq<u32>,
}

impl View for Filtered {
    type V = FilteredV;

    open spec fn view(&self) -> FilteredV {
        FilteredV { row: self.row as nat, indices: self.indices@ }
    }
}

pub open spec fn filtered_views(f: Seq<Filtered>) -> Seq<FilteredV> {
    f.map_values(|e: Filtered| e@)
}

/// `r` holds the values of `idx` in increasing order, each once.
pub open spec fn normalized(r: Seq<u32>, idx: Seq<u32>) -> bool {
    &&& forall|a: int, b: int| 0 <= a < b < r.len() ==> r[a] < r[b]
    &&& forall|x: u32| r.contains(x) <==> idx.contains(x)
}

/// Sorts positions and drops repeats, as `normalized` defines it.
pub fn normalize_indices(idx: &Vec<u32>) -> (r: Vec<u32>)
    ensures
        normalized(r@, idx@),
{
    let mut r: Vec<u32> = Vec::new();
    let mut i: usize = 0;
    while i < idx.len()
        invariant
            0 <= i <= idx@.len(),
            forall|a: int, b: int| 0 <= a < b < r@.len() ==> r@[a] < r@[b],
            forall|x: u32| r@.contains(x) <==> idx@.take(i as int).contains(x),
        decreases idx@.len() - i,
    {
        let x = idx[i];
        let mut p: usize = 0;
        while p < r.len() && r[p] < x
            invariant
                0 <= p <= r@.len(),
                forall|a: int| 0 <= a < p ==> r@[a] < x,
            decreases r@.len() - p,
        {
            p += 1;
        }
        assert(idx@.take(i + 1) =~= idx@.take(i as int).push(x));
        if p < r.len() && r[p] == x {
            assert forall|y: u32| r@.contains(y) <==> idx@.take(i + 1).contains(y) by {
                if r@.contains(y) {
                    assert(idx@.take(i as int).contains(y));
                    let k = choose|k: int| 0 <= k < idx@.take(i as int).len() && #[trigger] idx@.take(i as int)[k] == y;
                    assert(idx@.take(i + 1)[k] == y);
                }
                if idx@.take(i + 1).contains(y) {
                    let k = choose|k: int| 0 <= k < idx@.take(i + 1).len() && #[trigger] idx@.take(i + 1)[k] == y;
                    if k < i {
                        assert(idx@.take(i as int)[k] == y);
                    } else {
                        assert(y == x);
                        assert(r@[p as int] == y);
                    }
                }
            }
        } else {
            let ghost before = r@;
            r.insert(p, x);
            assert(r@ == before.insert(p as int, x));
            assert forall|a: int, b: int| 0 <= a < b < r@.len() implies r@[a] < r@[b] by {
                if b < p {
                } else if a < p && b == p {
                } else if a < p {
                    assert(before[a] < before[b - 1]);
                } else if a == p {
                    assert(before[p as int] > x || before[p as int] >= x);
                    if b - 1 > p {
                        assert(before[p as int] < before[b - 1]);
                    }
                } else {
                    assert(before[a - 1] < before[b - 1]);
                }
            }
            assert forall|y: u32| r@.contains(y) <==> idx@.take(i + 1).contains(y) by {
                if r@.contains(y) {
                    let k = choose|k: int| 0 <= k < r@.len() && #[trigger] r@[k] == y;
                    if k == p {
                        assert(idx@.take(i + 1)[i as int] == y);
                    } else {
                        let kk = if k < p { k } else { k - 1 };
                        assert(before[kk] == y);
                        assert(before.contains(y));
                        let m = choose|m: int| 0 <= m < idx@.take(i as int).len() && #[trigger] idx@.take(i as int)[m] == y;
                        assert(idx@.take(i + 1)[m] == y);
                    }
                }
                if idx@.take(i + 1).contains(y) {
                    let k = choose|k: int| 0 <= k < idx@.take(i + 1).len() && #[trigger] idx@.take(i + 1)[k] == y;
                    if k < i {
                        assert(idx@.take(i as int)[k] == y);
                        assert(before.contains(y));
                        let m = choose|m: int| 0 <= m < before.len() && #[trigger] before[m] == y;
                        if m < p {
                            assert(r@[m] == y);
                        } else {
                            assert(r@[m + 1] == y);
                        }
                    } else {
                        assert(r@[p as int] == y);
                    }
                }
            }
        }
        i += 1;
    }
    assert(idx@.take(idx@.len() as int) =~= idx@);
    r
}

/// The score in row `j`'s verdict.
pub open spec fn score_in(vs: Seq<Option<(u32, Seq<u32>)>>, j: int) -> u32 {
    vs[j]->Some_0.0
}

/// Row `j` is listed before row `k`: a higher score first, the earlier row
/// first on equal scores.
pub open spec fn ranked_before(vs: Seq<Option<(u32, Seq<u32>)>>, j: int, k: int) -> bool {
    score_in(vs, j) > score_in(vs, k) || (score_in(vs, j) == score_in(vs, k) && j < k)
}

/// The rows listed for the matcher's verdicts on them: exactly the rows
/// with a match, each once, score descending and in row order on equal
/// scores, each with its matched positions sorted and without repeats.
pub open spec fn ranked(vs: Seq<Option<(u32, Seq<u32>)>>, r: Seq<FilteredV>) -> bool {
    &&& forall|a: int| 0 <= a < r.len() ==> {
        &&& #[trigger] r[a].row < vs.len()
        &&& vs[r[a].row as int] is Some
        &&& normalized(r[a].indices, vs[r[a].row as int]->Some_0.1)
    }
    &&& forall|a: int, b: int| 0 <= a < b < r.len() ==> ranked_before(vs, #[trigger] r[a].row as int, #[trigger] r[b].row as int)
    &&& forall|j: int| 0 <= j < vs.len() && #[trigger] vs[j] is Some ==> exists|a: int| 0 <= a < r.len() && r[a].row == j
}

/// The matcher's verdict on each row's label for the query.
pub open spec fn verdicts_of(query: Seq<char>, rows: Seq<RowV>) -> Seq<Option<(u32, Seq<u32>)>> {
    Seq::new(rows.len(), |j: int| spec_fuzzy_match(query, rows[j].label))
}

pub open spec fn verdict_views(v: Seq<Option<(u32, Vec<u32>)>>) -> Seq<Option<(u32, Seq<u32>)>> {
    v.map_values(|o: Option<(u32, Vec<u32>)>| match o {
        Some((s, i)) => Some((s, i@)),
        None => None,
    })
}

/// What the picker lists for a query: with no query every row, in order,
/// nothing highlighted; otherwise the rows ranked by the matcher's
/// verdicts on their labels.
pub open spec fn filter_result(query: Seq<char>, rows: Seq<RowV>, r: Seq<FilteredV>) -> bool {
    if query.len() == 0 {
        r == Seq::new(rows.len(), |j: int| FilteredV { row: j as nat, indices: Seq::empty() })
    } else {
        ranked(verdicts_of(query, rows), r)
    }
}

/// The rows listed for the matcher's verdicts on them (one per row, in row
/// order), as `ranked` defines them.
pub fn rank_matches(verdicts: &Vec<Option<(u32, Vec<u32>)>>) -> (r: Vec<Filtered>)
    ensures
        ranked(verdict_views(verdicts@), filtered_views(r@)),
{
    let ghost vs = verdict_views(verdicts@);
    let mut out: Vec<Filtered> = Vec::new();
    let mut scores: Vec<u32> = Vec::new();
    let mut j: usize = 0;
    while j < verdicts.len()
        invariant
            0 <= j <= verdicts@.len(),
            vs == verdict_views(verdicts@),
            scores@.len() == out@.len(),
            forall|a: int| 0 <= a < out@.len() ==> {
                &&& #[trigger] out@[a].row < j
                &&& vs[out@[a].row as int] is Some
                &&& scores@[a] == score_in(vs, out@[a].row as int)
                &&& normalized(out@[a].indices@, vs[out@[a].row as int]->Some_0.1)
            },
            forall|a: int, b: int| 0 <= a < b < out@.len() ==> ranked_before(vs, #[trigger] out@[a].row as int, #[trigger] out@[b].row as int),
            forall|k: int| 0 <= k < j && #[trigger] vs[k] is Some ==> exists|a: int| 0 <= a < out@.len() && out@[a].row == k,
        decreases verdicts@.len() - j,
    {
        match &verdicts[j] {
            Some((score, idx)) => {
                let score = *score;
                let indices = normalize_indices(idx);
                let mut p: usize = 0;
                while p < scores.len() && scores[p] >= score
                    invariant
                        0 <= p <= scores@.len(),
                        forall|a: int| 0 <= a < p ==> scores@[a] >= score,
                    decreases scores@.len() - p,
                {
                    p += 1;
                }
                proof {
                    assert forall|a: int| p <= a < scores@.len() implies scores@[a] < score by {
                        if a > p {
                            assert(ranked_before(vs, out@[p as int].row as int, out@[a].row as int));
                        }
                    }
                }
                let ghost before = out@;
                let ghost sbefore = scores@;
                out.insert(p, Filtered { row: j, indices });
                scores.insert(p, score);
                proof {
                    assert(vs[j as int] == Some((score, idx@)));
                    assert forall|a: int| 0 <= a < out@.len() implies {
                        &&& #[trigger] out@[a].row < j + 1
                        &&& vs[out@[a].row as int] is Some
                        &&& scores@[a] == score_in(vs, out@[a].row as int)
                        &&& normalized(out@[a].indices@, vs[out@[a].row as int]->Some_0.1)
                    } by {
                        if a < p {
                            assert(out@[a] == before[a]);
                        } else if a > p {
                            assert(out@[a] == before[a - 1]);
                            assert(scores@[a] == sbefore[a - 1]);
                        }
                    }
                    assert forall|a: int, b: int| 0 <= a < b < out@.len() implies ranked_before(vs, #[trigger] out@[a].row as int, #[trigger] out@[b].row as int) by {
                        if b < p {
                            assert(out@[a] == before[a] && out@[b] == before[b]);
                        } else if b == p {
                            assert(out@[a] == before[a]);
                            assert(sbefore[a] >= score);
                        } else if a < p {
                            assert(out@[a] == before[a] && out@[b] == before[b - 1]);
                        } else if a == p {
                            assert(out@[b] == before[b - 1]);
                            assert(sbefore[b - 1] < score);
                        } else {
                            assert(out@[a] == before[a - 1] && out@[b] == before[b - 1]);
                        }
                    }
                    assert forall|k: int| 0 <= k < j + 1 && #[trigger] vs[k] is Some implies exists|a: int| 0 <= a < out@.len() && out@[a].row == k by {
                        if k == j {
                            assert(out@[p as int].row == k);
                        } else {
                            let a = choose|a: int| 0 <= a < before.len() && before[a].row == k;
                            if a < p {
                                assert(out@[a].row == k);
                            } else {
                                assert(out@[a + 1].row == k);
                            }
                        }
                    }
                }
            },
            None => {},
        }
        j += 1;
    }
    proof {
        let fv = filtered_views(out@);
        assert forall|a: int| 0 <= a < fv.len() implies {
            &&& #[trigger] fv[a].row < vs.len()
            &&& vs[fv[a].row as int] is Some
            &&& normalized(fv[a].indices, vs[fv[a].row as int]->Some_0.1)
        } by {
            assert(fv[a] == out@[a]@);
        }
        assert forall|a: int, b: int| 0 <= a < b < fv.len() implies ranked_before(vs, #[trigger] fv[a].row as int, #[trigger] fv[b].row as int) by {
            assert(fv[a] == out@[a]@ && fv[b] == out@[b]@);
        }
        assert forall|k: int| 0 <= k < vs.len() && #[trigger] vs[k] is Some implies exists|a: int| 0 <= a < fv.len() && fv[a].row == k by {
            let a = choose|a: int| 0 <= a < out@.len() && out@[a].row == k;
            assert(fv[a] == out@[a]@);
        }
    }
    out
}

/// The rows the picker lists for `query`, as `filter_result` defines them.
pub fn filter_rows(fuzzy: &mut Fuzzy, screen: &PickScreen, query: &str) -> (r: Vec<Filtered>)
    requires
        query@.len() > 0 ==> forall|j: int| 0 <= j < screen.rows@.len() ==> #[trigger] screen.rows@[j].label@.len() <= u32::MAX,
    ensures
        filter_result(query@, crate::ui::row_views(screen.rows@), filtered_views(r@)),
{
    let rows = &screen.rows;
    let ghost rv = crate::ui::row_views(rows@);
    if query.is_empty() {
        let mut out: Vec<Filtered> = Vec::new();
        let mut j: usize = 0;
        while j < rows.len()
            invariant
                0 <= j <= rows@.len(),
                filtered_views(out@) == Seq::new(j as nat, |k: int| FilteredV { row: k as nat, indices: Seq::empty() }),
            decreases rows@.len() - j,
        {
            let ghost before = filtered_views(out@);
            let e = Filtered { row: j, indices: Vec::new() };
            assert(e@ == FilteredV { row: j as nat, indices: Seq::empty() });
            out.push(e);
            assert(filtered_views(out@) =~= before.push(FilteredV { row: j as nat, indices: Seq::empty() }));
            assert(filtered_views(out@) =~= Seq::new((j + 1) as nat, |k: int| FilteredV { row: k as nat, indices: Seq::empty() }));
            j += 1;
        }
        return out;
    }
    let mut verdicts: Vec<Option<(u32, Vec<u32>)>> = Vec::new();
    let mut j: usize = 0;
    while j < rows.len()
        invariant
            0 <= j <= rows@.len(),
            rows == &screen.rows,
            rv == crate::ui::row_views(rows@),
            forall|k: int| 0 <= k < rows@.len() ==> #[trigger] rows@[k].label@.len() <= u32::MAX,
            verdict_views(verdicts@) == verdicts_of(query@, rv).take(j as int),
        decreases rows@.len() - j,
    {
        assert(rows@[j as int].label@.len() <= u32::MAX);
        let v = fuzzy_match(&mut fuzzy.matcher, query, rows[j].label.as_str());
        let ghost before = verdict_views(verdicts@);
        verdicts.push(v);
        assert(verdict_views(verdicts@) =~= verdicts_of(query@, rv).take(j + 1)) by {
            assert(verdict_views(verdicts@) =~= before.push(verdicts_of(query@, rv)[j as int]));
        }
        j += 1;
    }
    assert(verdicts_of(query@, rv).take(rows@.len() as int) =~= verdicts_of(query@, rv));
    rank_matches(&verdicts)
}

// ----- Drawing the picker -----

/// `n` spaces.
pub open spec fn spaces(n: nat) -> Seq<char> {
    Seq::new(n, |i: int| ' ')
}

pub open spec fn with_bold(s: Style) -> Style {
    Style { bold: true, ..s }
}

pub open spec fn with_dim(s: Style) -> Style {
    Style { dim: true, ..s }
}

/// One span per label character, bold where the match landed.
pub open spec fn label_spans(label: Seq<char>, indices: Seq<u32>, base: Style) -> Seq<SpanV> {
    Seq::new(
        label.len(),
        |i: int| SpanV { text: seq![label[i]], style: if indices.contains(i as u32) { with_bold(base) } else { base } },
    )
}

/// The hint's spans: its `prefix+` dim, the key itself in the base style; a
/// hint without the prefix dim as a whole.
pub open spec fn hint_spans(hint: Seq<char>, base: Style) -> Seq<SpanV> {
    let (faded, key) = hint_parts(hint);
    if faded.len() == 0 {
        seq![SpanV { text: key, style: with_dim(base) }]
    } else {
        seq![SpanV { text: faded, style: with_dim(base) }, SpanV { text: key, style: base }]
    }
}

/// A result row: the label, then the hint right-aligned when both fit in
/// `width` with two cells to spare; the selected row reversed and padded to
/// the full width.
pub open spec fn row_spans(row: RowV, indices: Seq<u32>, selected: bool, width: nat) -> Seq<SpanV> {
    let base = if selected { Style { reversed: true, ..plain_style() } } else { plain_style() };
    let shown = row.label.len();
    let hint_len = row.hint.len();
    let label = label_spans(row.label, indices, base);
    if hint_len > 0 && shown + 2 + hint_len <= width {
        label + seq![SpanV { text: spaces((width - shown - hint_len) as nat), style: base }] + hint_spans(row.hint, base)
    } else if selected && width > shown {
        label + seq![SpanV { text: spaces((width - shown) as nat), style: base }]
    } else {
        label
    }
}

/// The first visible position once the selection is scrolled into view.
pub open spec fn scrolled(selected: nat, offset: nat, list_height: nat) -> nat {
    let o = if selected < offset { selected } else { offset };
    if list_height > 0 && selected >= o + list_height {
        (selected - list_height + 1) as nat
    } else {
        o
    }
}

pub open spec fn min(a: nat, b: nat) -> nat {
    if a < b { a } else { b }
}

/// The picker as drawn on a `width` x `height` area: the prompt and query
/// (or the placeholder, dim, while the query is empty), the header rule,
/// then as many result rows as fit from the scrolled offset. Also the new
/// offset, and the cursor column at the end of the query.
pub open spec fn pick_lines(
    screen_rows: Seq<RowV>,
    prompt: Seq<char>,
    placeholder: Seq<char>,
    header: Seq<char>,
    warning: bool,
    query: Seq<char>,
    filtered: Seq<FilteredV>,
    selected: nat,
    offset: nat,
    width: nat,
    height: nat,
) -> (Seq<Seq<SpanV>>, nat, nat) {
    let list_height: nat = if height >= 2 { (height - 2) as nat } else { 0 };
    let off = scrolled(selected, offset, list_height);
    let query_span = if query.len() == 0 && placeholder.len() > 0 {
        SpanV { text: placeholder, style: with_dim(plain_style()) }
    } else {
        SpanV { text: query, style: plain_style() }
    };
    let first = seq![SpanV { text: prompt, style: with_bold(plain_style()) }, query_span];
    let end = if off >= filtered.len() { off } else { min(off + list_height, filtered.len()) };
    let count: nat = if end > off { (end - off) as nat } else { 0 };
    let rows = Seq::new(
        count,
        |i: int| row_spans(screen_rows[filtered[off + i].row as int], filtered[off + i].indices, off + i == selected, width),
    );
    let cursor_max: nat = if width > 0 { (width - 1) as nat } else { 0 };
    (seq![first, header_spans(header, warning, width)] + rows, off, min(prompt.len() + query.len(), cursor_max))
}

/// The picker, drawn: the lines, the offset to keep, and the cursor column.
pub struct PickView {
    pub lines: Vec<Vec<Span>>,
    pub offset: usize,
    pub cursor_x: usize,
}

pub open spec fn line_views(lines: Seq<Vec<Span>>) -> Seq<Seq<SpanV>> {
    lines.map_values(|l: Vec<Span>| span_views(l@))
}

fn push_spaces(s: &mut String, n: usize)
    ensures
        final(s)@ == old(s)@ + spaces(n as nat),
{
    let mut i: usize = 0;
    while i < n
        invariant
            0 <= i <= n,
            s@ == old(s)@ + spaces(i as nat),
        decreases n - i,
    {
        push_char(s, ' ');
        assert(spaces((i + 1) as nat) =~= spaces(i as nat).push(' '));
        i += 1;
    }
}

fn spaces_string(n: usize) -> (r: String)
    ensures
        r@ == spaces(n as nat),
{
    let mut s = String::new();
    push_spaces(&mut s, n);
    s
}

fn contains_index(indices: &Vec<u32>, i: u32) -> (r: bool)
    ensures
        r == indices@.contains(i),
{
    let mut k: usize = 0;
    while k < indices.len()
        invariant
            0 <= k <= indices@.len(),
            forall|m: int| 0 <= m < k ==> indices@[m] != i,
        decreases indices@.len() - k,
    {
        if indices[k] == i {
            assert(indices@[k as int] == i);
            return true;
        }
        k += 1;
    }
    false
}

fn row_line(row: &Row, indices: &Vec<u32>, selected: bool, width: usize) -> (r: Vec<Span>)
    requires
        row.label@.len() < u32::MAX,
    ensures
        span_views(r@) == row_spans(row@, indices@, selected, width as nat),
{
    let base = if selected { Style { reversed: true, ..plain() } } else { plain() };
    let label = chars_of(row.label.as_str());
    let mut spans: Vec<Span> = Vec::new();
    let mut i: usize = 0;
    while i < label.len()
        invariant
            0 <= i <= label@.len(),
            label@ == row.label@,
            label@.len() < u32::MAX,
            span_views(spans@) == label_spans(row.label@, indices@, base).take(i as int),
        decreases label@.len() - i,
    {
        let style = if contains_index(indices, i as u32) { Style { bold: true, ..base } } else { base };
        let mut t = String::new();
        push_char(&mut t, label[i]);
        let ghost before = span_views(spans@);
        spans.push(Span { text: t, style });
        assert(span_views(spans@) =~= before.push(label_spans(row.label@, indices@, base)[i as int]));
        assert(label_spans(row.label@, indices@, base).take(i + 1) =~= label_spans(row.label@, indices@, base).take(i as int).push(label_spans(row.label@, indices@, base)[i as int]));
        i += 1;
    }
    assert(label_spans(row.label@, indices@, base).take(label@.len() as int) =~= label_spans(row.label@, indices@, base));
    let shown = label.len();
    let hint_len = chars_of(row.hint.as_str()).len();
    if hint_len > 0 && width >= 2 && hint_len <= width - 2 && shown <= width - 2 - hint_len {
        let ghost before = span_views(spans@);
        spans.push(Span { text: spaces_string(width - shown - hint_len), style: base });
        let (faded, key) = split_hint(row.hint.as_str());
        if faded.is_empty() {
            spans.push(Span { text: key.to_owned(), style: Style { dim: true, ..base } });
        } else {
            spans.push(Span { text: faded.to_owned(), style: Style { dim: true, ..base } });
            spans.push(Span { text: key.to_owned(), style: base });
        }
        assert(span_views(spans@) =~= before + seq![SpanV { text: spaces((width - shown - hint_len) as nat), style: base }] + hint_spans(row.hint@, base));
    } else if selected && width > shown {
        let ghost before = span_views(spans@);
        spans.push(Span { text: spaces_string(width - shown), style: base });
        assert(span_views(spans@) =~= before + seq![SpanV { text: spaces((width - shown) as nat), style: base }]);
    }
    spans
}

/// Draws the picker, as `pick_lines` defines it.
pub fn pick_view(
    screen: &PickScreen,
    query: &str,
    filtered: &Vec<Filtered>,
    selected: usize,
    offset: usize,
    width: usize,
    height: usize,
) -> (r: PickView)
    requires
        forall|a: int| 0 <= a < filtered@.len() ==> #[trigger] filtered@[a].row < screen.rows@.len(),
        forall|j: int| 0 <= j < screen.rows@.len() ==> #[trigger] screen.rows@[j].label@.len() < u32::MAX,
        selected < usize::MAX / 2,
        offset < usize::MAX / 2,
        height < usize::MAX / 2,
        screen.prompt@.len() + query@.len() < usize::MAX,
    ensures
        (line_views(r.lines@), r.offset as nat, r.cursor_x as nat) == pick_lines(
            crate::ui::row_views(screen.rows@),
            screen.prompt@,
            screen.placeholder@,
            screen.header@,
            screen.warning,
            query@,
            filtered_views(filtered@),
            selected as nat,
            offset as nat,
            width as nat,
            height as nat,
        ),
{
    let ghost spec_r = pick_lines(
        crate::ui::row_views(screen.rows@),
        screen.prompt@,
        screen.placeholder@,
        screen.header@,
        screen.warning,
        query@,
        filtered_views(filtered@),
        selected as nat,
        offset as nat,
        width as nat,
        height as nat,
    );
    let list_height: usize = if height >= 2 { height - 2 } else { 0 };
    let mut off = offset;
    if selected < off {
        off = selected;
    }
    if list_height > 0 && selected >= off + list_height {
        off = selected - list_height + 1;
    }
    let query_span = if query.is_empty() && !screen.placeholder.as_str().is_empty() {
        Span { text: screen.placeholder.clone(), style: Style { dim: true, ..plain() } }
    } else {
        Span { text: query.to_owned(), style: plain() }
    };
    let first = vec![Span { text: screen.prompt.clone(), style: Style { bold: true, ..plain() } }, query_span];
    let mut lines: Vec<Vec<Span>> = Vec::new();
    lines.push(first);
    lines.push(header_line(screen.header.as_str(), screen.warning, width));
    let end = if off >= filtered.len() {
        off
    } else if list_height < filtered.len() - off {
        off + list_height
    } else {
        filtered.len()
    };
    proof {
        let first_v = seq![
            SpanV { text: screen.prompt@, style: with_bold(plain_style()) },
            if query@.len() == 0 && screen.placeholder@.len() > 0 {
                SpanV { text: screen.placeholder@, style: with_dim(plain_style()) }
            } else {
                SpanV { text: query@, style: plain_style() }
            },
        ];
        assert(span_views(lines@[0]@) =~= first_v);
        assert(spec_r.0[0] == first_v);
        assert(spec_r.0[1] == header_spans(screen.header@, screen.warning, width as nat));
        assert(line_views(lines@) =~= spec_r.0.take(2));
    }
    let mut v = off;
    while v < end
        invariant
            off <= v <= end,
            end <= filtered@.len() || end == off,
            end - off == spec_r.0.len() - 2,
            spec_r.1 == off,
            forall|a: int| 0 <= a < filtered@.len() ==> #[trigger] filtered@[a].row < screen.rows@.len(),
            forall|j: int| 0 <= j < screen.rows@.len() ==> #[trigger] screen.rows@[j].label@.len() < u32::MAX,
            line_views(lines@) == spec_r.0.take(2 + v - off),
            spec_r == pick_lines(
                crate::ui::row_views(screen.rows@),
                screen.prompt@,
                screen.placeholder@,
                screen.header@,
                screen.warning,
                query@,
                filtered_views(filtered@),
                selected as nat,
                offset as nat,
                width as nat,
                height as nat,
            ),
        decreases end - v,
    {
        let entry = &filtered[v];
        let row = &screen.rows[entry.row];
        let line = row_line(row, &entry.indices, v == selected, width);
        let ghost before = line_views(lines@);
        lines.push(line);
        assert(line_views(lines@) =~= before.push(span_views(line@)));
        assert(spec_r.0[2 + v - off] == span_views(line@));
        assert(spec_r.0.take(2 + v + 1 - off) =~= spec_r.0.take(2 + v - off).push(spec_r.0[2 + v - off]));
        v += 1;
    }
    assert(spec_r.0.take(2 + end - off) =~= spec_r.0);
    let total = screen.prompt.as_str().unicode_len() + query.unicode_len();
    let cursor_max = width.saturating_sub(1);
    let cursor_x = if total < cursor_max { total } else { cursor_max };
    PickView { lines, offset: off, cursor_x }
}

// ----- The input screen and the error screen, drawn -----

/// The input screen as drawn: the prompt (bold) and the line being edited
/// on top, the header (dim) under it when there is one; and the cursor
/// column, kept inside the area.
pub open spec fn input_lines(header: Seq<char>, prompt: Seq<char>, value: Seq<char>, cursor: nat, width: nat) -> (Seq<Seq<SpanV>>, nat) {
    let top = seq![SpanV { text: prompt, style: with_bold(plain_style()) }, SpanV { text: value, style: plain_style() }];
    let all = if header.len() > 0 {
        seq![top, seq![SpanV { text: header, style: with_dim(plain_style()) }]]
    } else {
        seq![top]
    };
    let cursor_max: nat = if width > 0 { (width - 1) as nat } else { 0 };
    (all, min(prompt.len() + cursor, cursor_max))
}

/// Draws the input screen for an editor state, as `input_lines` defines it.
pub fn input_view(screen: &InputScreen, state: &InputState, width: usize) -> (r: (Vec<Vec<Span>>, usize))
    requires
        screen.prompt@.len() + state.cursor < usize::MAX,
    ensures
        (line_views(r.0@), r.1 as nat) == input_lines(
            screen.header@,
            screen.prompt@,
            state.value@,
            state.cursor as nat,
            width as nat,
        ),
{
    let top = vec![
        Span { text: screen.prompt.clone(), style: Style { bold: true, ..plain() } },
        Span { text: string_of(&state.value), style: plain() },
    ];
    let mut lines: Vec<Vec<Span>> = Vec::new();
    lines.push(top);
    if !screen.header.as_str().is_empty() {
        lines.push(vec![Span { text: screen.header.clone(), style: Style { dim: true, ..plain() } }]);
    }
    let total = screen.prompt.as_str().unicode_len() + state.cursor;
    let cursor_max = width.saturating_sub(1);
    let cursor_x = if total < cursor_max { total } else { cursor_max };
    proof {
        let spec_r = input_lines(screen.header@, screen.prompt@, state.value@, state.cursor as nat, width as nat);
        assert(span_views(lines@[0]@) =~= spec_r.0[0]);
        if screen.header@.len() > 0 {
            assert(span_views(lines@[1]@) =~= spec_r.0[1]);
        }
        assert(line_views(lines@) =~= spec_r.0);
    }
    (lines, cursor_x)
}

/// The error screen: the message, line by line, a blank line, and a dim
/// `(press any key to close)`; the screen stays until a key is pressed, so
/// that the message can be read before the popup closes.
pub open spec fn fatal_lines(message: Seq<char>) -> Seq<Seq<SpanV>> {
    lines(message).map_values(|l: Seq<char>| seq![SpanV { text: l, style: plain_style() }]) + seq![
        seq![SpanV { text: Seq::empty(), style: plain_style() }],
        seq![SpanV { text: "(press any key to close)"@, style: with_dim(plain_style()) }],
    ]
}

pub fn fatal_view(message: &str) -> (r: Vec<Vec<Span>>)
    ensures
        line_views(r@) == fatal_lines(message@),
{
    let ls = split_lines(message);
    let mut out: Vec<Vec<Span>> = Vec::new();
    let mut i: usize = 0;
    while i < ls.len()
        invariant
            0 <= i <= ls@.len(),
            out@.len() == i,
            views(ls@) == lines(message@),
            line_views(out@) == lines(message@).take(i as int).map_values(
                |l: Seq<char>| seq![SpanV { text: l, style: plain_style() }],
            ),
        decreases ls@.len() - i,
    {
        let ghost before = line_views(out@);
        out.push(vec![Span { text: ls[i].clone(), style: plain() }]);
        assert(span_views(out@[i as int]@) =~= seq![SpanV { text: ls@[i as int]@, style: plain_style() }]);
        assert(line_views(out@) =~= before.push(seq![SpanV { text: ls@[i as int]@, style: plain_style() }]));
        assert(lines(message@).take(i + 1).map_values(|l: Seq<char>| seq![SpanV { text: l, style: plain_style() }])
            =~= lines(message@).take(i as int).map_values(|l: Seq<char>| seq![SpanV { text: l, style: plain_style() }]).push(
            seq![SpanV { text: ls@[i as int]@, style: plain_style() }],
        ));
        i += 1;
    }
    assert(lines(message@).take(ls@.len() as int) =~= lines(message@));
    let ghost body = line_views(out@);
    out.push(vec![Span { text: String::new(), style: plain() }]);
    out.push(vec![Span { text: crate::text::owned("(press any key to close)"), style: Style { dim: true, ..plain() } }]);
    assert(span_views(out@[body.len() as int]@) =~= seq![SpanV { text: Seq::empty(), style: plain_style() }]);
    assert(span_views(out@[body.len() as int + 1]@) =~= seq![SpanV { text: "(press any key to close)"@, style: with_dim(plain_style()) }]);
    assert(line_views(out@) =~= body + seq![
        seq![SpanV { text: Seq::empty(), style: plain_style() }],
        seq![SpanV { text: "(press any key to close)"@, style: with_dim(plain_style()) }],
    ]);
    out
}


// ----- The picker's answer -----

/// What the picker answers after a step: nothing yet while it goes on
/// (`None`); a cancel (`Some(None)`) on Esc, and on Enter with no row
/// listed; on Enter otherwise the id of the row listed at the selected
/// position.
pub open spec fn step_answer(rows: Seq<RowV>, filtered: Seq<FilteredV>, step: PickStep) -> Option<Option<Seq<char>>> {
    match step {
        PickStep::Continue => None,
        PickStep::Cancel => Some(None),
        PickStep::Accept(None) => Some(None),
        PickStep::Accept(Some(p)) => Some(Some(rows[filtered[p as int].row as int].id)),
    }
}

/// The outcome of a pick screen after a step, as `step_answer` defines it;
/// `None` while the picker goes on.
pub fn pick_outcome(screen: &PickScreen, filtered: &Vec<Filtered>, step: PickStep) -> (r: Option<PickOutcome>)
    requires
        forall|a: int| 0 <= a < filtered@.len() ==> #[trigger] filtered@[a].row < screen.rows@.len(),
        step matches PickStep::Accept(Some(p)) ==> p < filtered@.len(),
    ensures
        match r {
            None => step_answer(crate::ui::row_views(screen.rows@), filtered_views(filtered@), step) is None,
            Some(o) => step_answer(crate::ui::row_views(screen.rows@), filtered_views(filtered@), step) == Some(
                outcome_view(o),
            ),
        },
{
    match step {
        PickStep::Continue => None,
        PickStep::Cancel => Some(PickOutcome::Cancelled),
        PickStep::Accept(None) => Some(PickOutcome::Cancelled),
        PickStep::Accept(Some(p)) => {
            let row = filtered[p].row;
            Some(PickOutcome::Selected(screen.rows[row].id.clone()))
        },
    }
}

// ----- Laws of the editors -----

/// Typing a character and then Backspace gives back the line and the
/// cursor as they were.
pub proof fn lemma_type_then_backspace(value: Seq<char>, cursor: nat, c: char)
    requires
        cursor <= value.len(),
    ensures
        ({
            let typed = input_effect(value, cursor, KeyPress { code: KeyCode::Char(c), ctrl: false });
            let back = input_effect(typed.0, typed.1, KeyPress { code: KeyCode::Backspace, ctrl: false });
            back.0 == value && back.1 == cursor && back.2 is None
        }),
{
    let typed = value.insert(cursor as int, c);
    assert(typed.remove(cursor as int) =~= value);
}

/// Typing narrows the picker from its first row: a typed character grows
/// the query by that character and resets the selection.
pub proof fn lemma_typing_resets_selection(query: Seq<char>, selected: nat, c: char, visible: nat)
    ensures
        pick_effect(query, selected, KeyPress { code: KeyCode::Char(c), ctrl: false }, visible).0 == query.push(c),
        pick_effect(query, selected, KeyPress { code: KeyCode::Char(c), ctrl: false }, visible).1 == 0,
{
}

/// Enter accepts a row only when one is visible, and then the selected one.
pub proof fn lemma_enter_accepts_a_visible_row(query: Seq<char>, selected: nat, ctrl: bool, visible: nat)
    ensures
        pick_effect(query, selected, KeyPress { code: KeyCode::Enter, ctrl }, visible).2 == PickStep::Accept(
            if selected < visible {
                Some(selected as usize)
            } else {
                None
            },
        ),
{
}

/// Whatever key is pressed, a row the picker answers with is one of the
/// screen's rows, listed for the query.
pub proof fn lemma_picked_id_is_a_row(query: Seq<char>, selected: nat, key: KeyPress, rows: Seq<RowV>, filtered: Seq<FilteredV>)
    requires
        filter_result(query, rows, filtered),
    ensures
        step_answer(rows, filtered, pick_effect(query, selected, key, filtered.len()).2) matches Some(Some(id))
            ==> exists|j: int| 0 <= j < rows.len() && #[trigger] rows[j].id == id,
{
    let step = pick_effect(query, selected, key, filtered.len()).2;
    if let PickStep::Accept(Some(p)) = step {
        assert(p < filtered.len());
        let j = filtered[p as int].row as int;
        assert(0 <= j < rows.len());
        assert(rows[j].id == rows[j].id);
    }
}

} // verus!
