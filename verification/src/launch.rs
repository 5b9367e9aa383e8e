//! Running one user command: resolve its optional input, then hand the argv
//! to herdr, which opens a pane on this plugin's `runner` entrypoint.
//!
//! The argv never touches a shell. It travels as JSON in an environment
//! variable to the runner process, which spawns it directly: `herdr pane
//! run` would join the arguments with spaces and type them into a shell,
//! turning one argument holding a space into two.

use vstd::prelude::*;

use crate::custom::{Placement, UserCommand, placement_name};
use crate::fatal::Fatal;
use crate::json::{JsonValue, as_str, get_in, get_opt, parse_json_opt, parsed, spec_strings_json, strings_json};
use crate::origin::Origin;
use crate::paths::path_is_dir;
use crate::text::{concat, owned, views};
use crate::ui::{InputOutcome, InputScreen};

verus! {

/// The manifest pane this plugin exposes purely to host user commands.
pub const RUNNER_ENTRYPOINT: &'static str = "runner";

/// Carries the argv to the runner process.
pub const ARGV_ENV: &'static str = "PALETTE_RUN_ARGV";

/// Set to `1` when the pane must survive a successful run.
pub const HOLD_ENV: &'static str = "PALETTE_RUN_HOLD";

/// The plugin id used when herdr did not set one.
pub const DEFAULT_PLUGIN_ID: &'static str = "vjeantet.palette";

pub enum Launch {
    Done,
    /// Esc on the input screen, or a required input left empty: exit 0 in
    /// silence, exactly like a cancelled catalog command.
    Cancelled,
}

/// What launching a user command needs next.
pub enum LaunchStep {
    /// Ask for the entry's input.
    Input(InputScreen),
    /// Open the runner pane with this argv.
    Open(Vec<String>),
    Cancelled,
}

/// The launch decision: the input screen first when the entry declares one
/// and it was not answered yet; the submitted value is one more argv
/// element, whatever it contains; an empty value is no element, or a
/// cancel when the input is required.
pub open spec fn launch_next(command: UserCommand, entered: Option<Option<Seq<char>>>) -> Option<Option<Seq<Seq<char>>>> {
    match command.input {
        None => Some(Some(command@.argv)),
        Some(input) => match entered {
            None => None,
            Some(None) => Some(None),
            Some(Some(value)) => if value.len() == 0 {
                if input.required {
                    Some(None)
                } else {
                    Some(Some(command@.argv))
                }
            } else {
                Some(Some(command@.argv.push(value)))
            },
        },
    }
}

/// A non-empty value typed into a command's input is appended to the
/// declared argv as one more element: the argv opened is the declared one
/// followed by exactly that value.
pub proof fn lemma_input_is_appended(command: UserCommand, value: Seq<char>)
    requires
        command.input is Some,
        value.len() > 0,
    ensures
        launch_next(command, Some(Some(value))) matches Some(Some(argv)) && argv.len() == command@.argv.len() + 1
            && argv.take(command@.argv.len() as int) == command@.argv && argv[argv.len() - 1] == value,
{
    let argv = command@.argv.push(value);
    assert(argv.take(command@.argv.len() as int) =~= command@.argv);
}

pub open spec fn entered_view(entered: Option<InputOutcome>) -> Option<Option<Seq<char>>> {
    match entered {
        None => None,
        Some(InputOutcome::Cancelled) => Some(None),
        Some(InputOutcome::Submitted(v)) => Some(Some(v@)),
    }
}

fn copy_argv(v: &Vec<String>) -> (r: Vec<String>)
    ensures
        views(r@) == views(v@),
{
    let mut out: Vec<String> = Vec::new();
    let mut i: usize = 0;
    while i < v.len()
        invariant
            0 <= i <= v@.len(),
            views(out@) == views(v@.take(i as int)),
        decreases v@.len() - i,
    {
        let ghost before = views(out@);
        out.push(v[i].clone());
        assert(views(out@) =~= before.push(v@[i as int]@));
        assert(views(v@.take(i + 1)) =~= views(v@.take(i as int)).push(v@[i as int]@));
        i += 1;
    }
    assert(v@.take(v@.len() as int) =~= v@);
    out
}

/// One step of a launch, as `launch_next` defines it: `entered` is what the
/// input screen gave back, if it was shown.
pub fn launch_step(command: &UserCommand, entered: Option<InputOutcome>) -> (r: LaunchStep)
    ensures
        match launch_next(*command, entered_view(entered)) {
            None => r matches LaunchStep::Input(screen) && screen.header@ == command.title@ && screen.prompt@
                == command.input->Some_0.prompt@ + " > "@ && screen.initial@.len() == 0,
            Some(None) => r is Cancelled,
            Some(Some(argv)) => r matches LaunchStep::Open(a) && views(a@) == argv,
        },
{
    assert(views(command.argv@) =~= command@.argv);
    let input = match &command.input {
        None => return LaunchStep::Open(copy_argv(&command.argv)),
        Some(input) => input,
    };
    match entered {
        None => LaunchStep::Input(
            InputScreen {
                header: command.title.clone(),
                prompt: concat(input.prompt.as_str(), " > "),
                initial: String::new(),
            },
        ),
        Some(InputOutcome::Cancelled) => LaunchStep::Cancelled,
        Some(InputOutcome::Submitted(value)) => {
            if value.as_str().is_empty() {
                if input.required {
                    LaunchStep::Cancelled
                } else {
                    LaunchStep::Open(copy_argv(&command.argv))
                }
            } else {
                let mut argv = copy_argv(&command.argv);
                let ghost before = views(argv@);
                let ghost vv = value@;
                argv.push(value);
                assert(views(argv@) =~= before.push(vv));
                LaunchStep::Open(argv)
            }
        },
    }
}

/// The argv as the runner reads it back: a JSON array of strings.
pub fn argv_json(argv: &Vec<String>) -> (r: String)
    ensures
        r@ == spec_strings_json(views(argv@)),
{
    strings_json(argv)
}

/// The entry's own `cwd`, else the origin pane's when it is an existing
/// directory (`dir_ok`), else none: an entry that declared one is honoured
/// or nothing.
pub open spec fn launch_cwd_of(command: UserCommand, origin: Origin, dir_ok: bool) -> Option<Seq<char>> {
    match command@.cwd {
        Some(cwd) => Some(cwd),
        None => if origin.cwd@.len() > 0 && dir_ok {
            Some(origin.cwd@)
        } else {
            None
        },
    }
}

/// The working directory of the runner pane, as `launch_cwd_of` defines it
/// for whatever the directory check found.
pub fn launch_cwd(command: &UserCommand, origin: &Origin) -> (r: Option<String>)
    ensures
        exists|dir_ok: bool|
            #[trigger] launch_cwd_of(*command, *origin, dir_ok) == match r {
                Some(s) => Some(s@),
                None => None::<Seq<char>>,
            },
{
    match &command.cwd {
        Some(cwd) => {
            let r = Some(cwd.clone());
            assert(launch_cwd_of(*command, *origin, true) == Some(cwd@));
            r
        },
        None => {
            if !origin.cwd.as_str().is_empty() && path_is_dir(origin.cwd.as_str()) {
                assert(launch_cwd_of(*command, *origin, true) == Some(origin.cwd@));
                Some(origin.cwd.clone())
            } else {
                assert(launch_cwd_of(*command, *origin, false) == None::<Seq<char>>);
                None
            }
        },
    }
}

/// The origin flag a placement takes: a split or zoomed pane targets the
/// origin pane, a tab pane names the origin workspace (herdr refuses the
/// other pair); an empty origin value leaves the flag out.
pub open spec fn origin_flags(placement: Placement, origin: Origin) -> Seq<Seq<char>> {
    match placement {
        Placement::Tab => if origin.workspace_id@.len() > 0 {
            seq!["--workspace"@, origin.workspace_id@]
        } else {
            Seq::empty()
        },
        _ => if origin.pane_id@.len() > 0 {
            seq!["--target-pane"@, origin.pane_id@]
        } else {
            Seq::empty()
        },
    }
}

/// The full `herdr plugin pane open …` argv.
pub open spec fn open_argv(command: UserCommand, argv_json: Seq<char>, origin: Origin, plugin_id: Seq<char>, dir_ok: bool) -> Seq<Seq<char>> {
    let head = seq![
        "plugin"@,
        "pane"@,
        "open"@,
        "--plugin"@,
        plugin_id,
        "--entrypoint"@,
        RUNNER_ENTRYPOINT@,
        "--placement"@,
        placement_name(command.placement),
        "--focus"@,
    ];
    let cwd = match launch_cwd_of(command, origin, dir_ok) {
        Some(c) => seq!["--cwd"@, c],
        None => Seq::empty(),
    };
    let hold = if command.hold {
        seq!["--env"@, HOLD_ENV@ + "=1"@]
    } else {
        Seq::empty()
    };
    head + origin_flags(command.placement, origin) + cwd + seq!["--env"@, ARGV_ENV@ + "="@ + argv_json] + hold
}

fn push_str(dst: &mut Vec<String>, item: &str)
    ensures
        views(final(dst)@) == views(old(dst)@).push(item@),
{
    let ghost before = views(dst@);
    dst.push(owned(item));
    assert(views(dst@) =~= before.push(item@));
}

fn push_pair(dst: &mut Vec<String>, a: String, b: String)
    ensures
        views(final(dst)@) == views(old(dst)@) + seq![a@, b@],
{
    let ghost before = views(dst@);
    let ghost av = a@;
    let ghost bv = b@;
    dst.push(a);
    dst.push(b);
    assert(views(dst@) =~= before + seq![av, bv]);
}

/// The `herdr plugin pane open` argv for a user command, as `open_argv`
/// defines it for whatever the directory check found.
pub fn open_args(command: &UserCommand, argv_json: &str, origin: &Origin, plugin_id: &str) -> (r: Vec<String>)
    ensures
        exists|dir_ok: bool| #[trigger] open_argv(*command, argv_json@, *origin, plugin_id@, dir_ok) == views(r@),
{
    let mut args: Vec<String> = Vec::new();
    push_str(&mut args, "plugin");
    push_str(&mut args, "pane");
    push_str(&mut args, "open");
    push_str(&mut args, "--plugin");
    push_str(&mut args, plugin_id);
    push_str(&mut args, "--entrypoint");
    push_str(&mut args, RUNNER_ENTRYPOINT);
    push_str(&mut args, "--placement");
    push_str(&mut args, command.placement.as_str());
    push_str(&mut args, "--focus");
    let ghost head = views(args@);
    assert(head =~= seq![
        "plugin"@,
        "pane"@,
        "open"@,
        "--plugin"@,
        plugin_id@,
        "--entrypoint"@,
        RUNNER_ENTRYPOINT@,
        "--placement"@,
        placement_name(command.placement),
        "--focus"@,
    ]);
    match command.placement {
        Placement::Split | Placement::Zoomed => {
            if !origin.pane_id.as_str().is_empty() {
                push_pair(&mut args, owned("--target-pane"), origin.pane_id.clone());
            }
        },
        Placement::Tab => {
            if !origin.workspace_id.as_str().is_empty() {
                push_pair(&mut args, owned("--workspace"), origin.workspace_id.clone());
            }
        },
    }
    assert(views(args@) =~= head + origin_flags(command.placement, *origin));
    let ghost with_origin = views(args@);
    let cwd = launch_cwd(command, origin);
    let ghost dir_ok = choose|dir_ok: bool|
        #[trigger] launch_cwd_of(*command, *origin, dir_ok) == match cwd {
            Some(s) => Some(s@),
            None => None::<Seq<char>>,
        };
    match cwd {
        Some(c) => push_pair(&mut args, owned("--cwd"), c),
        None => {},
    }
    let ghost cwd_part = match launch_cwd_of(*command, *origin, dir_ok) {
        Some(c) => seq!["--cwd"@, c],
        None => Seq::<Seq<char>>::empty(),
    };
    assert(views(args@) =~= with_origin + cwd_part);
    let mut env = concat(ARGV_ENV, "=");
    env.append(argv_json);
    push_pair(&mut args, owned("--env"), env);
    if command.hold {
        push_pair(&mut args, owned("--env"), concat(HOLD_ENV, "=1"));
    }
    assert(views(args@) =~= open_argv(*command, argv_json@, *origin, plugin_id@, dir_ok));
    args
}

/// The pane id a successful `plugin pane open` reports, at
/// `.result.plugin_pane.pane.pane_id`; empty when there is none.
pub open spec fn opened_pane_id(doc: Option<JsonValue>) -> Seq<char> {
    match as_str(get_opt(get_opt(get_opt(get_opt(doc, "result"@), "plugin_pane"@), "pane"@), "pane_id"@)) {
        Some(s) => s,
        None => Seq::empty(),
    }
}

/// The opened pane's id in a parsed response, as `opened_pane_id` defines it.
pub fn pane_id_in(doc: &Option<JsonValue>) -> (r: String)
    ensures
        r@ == opened_pane_id(*doc),
{
    let pane = get_in(get_in(get_in(doc.as_ref(), "result"), "plugin_pane"), "pane");
    match get_in(pane, "pane_id") {
        Some(JsonValue::Str(s)) => s.clone(),
        _ => String::new(),
    }
}

/// The opened pane's id, as `opened_pane_id` defines it; `stdout` is the
/// call's output when it is UTF-8 text.
pub fn pane_id_of(stdout: Option<&str>) -> (r: String)
    ensures
        r@ == opened_pane_id(
            match stdout {
                Some(t) => parsed(t@),
                None => None,
            },
        ),
{
    let doc = match stdout {
        Some(t) => parse_json_opt(t),
        None => None,
    };
    pane_id_in(&doc)
}

/// The failure of a launch: it names the entry and shows herdr's own
/// output, never the argv, which may end in a value the user just typed.
pub fn open_failure(title: &str, detail: &str) -> (r: Fatal)
    ensures
        r.0@ == "command-palette: cannot run "@ + title@ + ":\n"@ + detail@,
{
    let mut m = concat("command-palette: cannot run ", title);
    m.append(":\n");
    m.append(detail);
    Fatal(m)
}

/// `herdr pane rename <pane_id> <title>`, so that the runner pane carries
/// the entry's title; nothing when no pane id was reported.
pub fn rename_args(pane_id: &str, title: &str) -> (r: Option<Vec<String>>)
    ensures
        match r {
            None => pane_id@.len() == 0,
            Some(a) => pane_id@.len() > 0 && views(a@) == seq!["pane"@, "rename"@, pane_id@, title@],
        },
{
    if pane_id.is_empty() {
        return None;
    }
    let mut a: Vec<String> = Vec::new();
    push_str(&mut a, "pane");
    push_str(&mut a, "rename");
    push_pair(&mut a, owned(pane_id), owned(title));
    assert(views(a@) =~= seq!["pane"@, "rename"@, pane_id@, title@]);
    Some(a)
}

/// The plugin id herdr set for this process, or the palette's own when it
/// set none (or an empty one).
pub fn plugin_id_from(env: Option<&str>) -> (r: String)
    ensures
        r@ == match env {
            Some(id) => if id@.len() > 0 {
                id@
            } else {
                DEFAULT_PLUGIN_ID@
            },
            None => DEFAULT_PLUGIN_ID@,
        },
{
    match env {
        Some(id) if !id.is_empty() => owned(id),
        _ => owned(DEFAULT_PLUGIN_ID),
    }
}


/// herdr refuses a split or zoomed pane that names a workspace, and a tab
/// pane that targets a pane: a placement passes at most one origin flag,
/// the one it takes, and never a split direction.
pub proof fn lemma_origin_flags_exclusive(placement: Placement, origin: Origin)
    ensures
        origin_flags(placement, origin).len() == 0 || origin_flags(placement, origin).len() == 2,
        origin_flags(placement, origin).len() == 2 ==> origin_flags(placement, origin)[0] == if placement
            == Placement::Tab {
            "--workspace"@
        } else {
            "--target-pane"@
        },
        origin_flags(placement, origin).len() == 2 ==> origin_flags(placement, origin)[0] != if placement
            == Placement::Tab {
            "--target-pane"@
        } else {
            "--workspace"@
        },
        origin_flags(placement, origin).len() == 2 ==> origin_flags(placement, origin)[0] != "--direction"@,
{
    reveal_strlit("--target-pane");
    reveal_strlit("--workspace");
    reveal_strlit("--direction");
    assert("--workspace"@[2] != "--target-pane"@[2]);
    assert("--workspace"@[2] != "--direction"@[2]);
    assert("--target-pane"@[2] != "--direction"@[2]);
}

} // verus!
