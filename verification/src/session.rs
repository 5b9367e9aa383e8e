//! The palette's main flow as a state machine: from the main picker's
//! answer to the end of the session. Each step takes what came of the last
//! piece of outside work and says what to do next; the front end only
//! performs it (shows a screen, makes a call, hands over to a user command,
//! a prompt or a plugin action) and reports back.

use vstd::prelude::*;

use crate::actions::CallOutcome;
use crate::json::{parsed, spec_strings_json};
use crate::launch::{
    LaunchStep, argv_json, entered_view, launch_next, launch_step, open_args, open_argv, open_failure, opened_pane_id,
    pane_id_of, rename_args,
};
use crate::prompt::Capture;
use crate::send::{Captured, SendPlan, plan_send, promote_origin, promoted, run_cwd, run_dir, send_failure, send_planned};
use crate::catalog::{Catalog, CommandEntry};
use crate::custom::{UserCatalog, UserCommand};
use crate::fatal::Fatal;
use crate::flow::{
    RouteV, Route, command_pair, confirm_screen, confirmed, confirms, exec_argv, find_command, has_confirm,
    is_confirm_screen, route, route_of,
};
use crate::origin::Origin;
use crate::prompt::UserPrompt;
use crate::resolve::{
    Answer, Need, Resolution, Resolving, agent_rows, agent_rows_of, copy_strings, no_answers, resolve_step, result_view, step_taken,
    strings_view,
};
use crate::text::{owned, str_eq, views};
use crate::ui::{InputOutcome, InputScreen, PickOutcome, PickScreen, RowV, outcome_view, row_views};

verus! {

/// Where the session stands.
pub enum Flow {
    /// Waiting for the main picker's answer.
    Main,
    /// Resolving the arguments of the catalog command at `index`, which
    /// runs as `herdr <group> <subcommand> …`.
    Resolving { index: usize, group: String, subcommand: String, state: Resolving },
    /// Waiting for the answer to the confirmation of `argv`.
    Confirming { argv: Vec<String>, group: String, subcommand: String },
    /// Waiting for the run of the catalog command.
    Running { group: String, subcommand: String },
    /// Waiting for the input of the user command at `index`.
    LaunchInput { index: usize },
    /// Waiting for the opening of the runner pane of the user command at
    /// `index`.
    Opening { index: usize },
    /// Waiting for the cosmetic rename of the runner pane.
    Renaming,
    /// Waiting for the run of the prompt at `index`'s command.
    Capturing { index: usize },
    /// Waiting for the agent list, to send `text` with the picker's
    /// `header` (a warning when `warning`).
    ListingAgents { index: usize, text: String, header: String, warning: bool },
    /// Waiting for the workspace list that labels the `agents` listed.
    ListingWorkspaces { index: usize, text: String, header: String, warning: bool, agents: Result<String, String> },
    /// Waiting for the agent to send `text` to.
    PickingAgent { index: usize, text: String },
    /// Waiting for the deposit of the prompt's text in `pane_id`.
    Depositing { index: usize, pane_id: String },
    /// Waiting for the focus on the agent.
    Focusing,
    /// Nothing more to do.
    Done,
}

/// What came of the last piece of outside work.
pub enum FlowEvent {
    Picked(PickOutcome),
    Entered(InputOutcome),
    Listed(Result<String, String>),
    Ran(CallOutcome),
    /// What a prompt's command captured.
    Captured(Captured),
    /// Whether the text reached the agent, or the error herdr answered.
    Sent(Result<(), String>),
}

/// What to do next.
pub enum FlowAction {
    /// Run `herdr <argv>` and report its standard output, or the failure's
    /// detail, as `Listed`.
    List { argv: Vec<String>, desc: String },
    /// Show the line editor and report its outcome as `Entered`.
    Input(InputScreen),
    /// Show the picker and report its outcome as `Picked`.
    Pick(PickScreen),
    /// Hand the plugin action with this qualified id to a detached
    /// dispatcher; the session ends with success.
    Dispatch(String),
    /// Run `argv` (no shell) in `cwd` within `timeout_ms`, capture what
    /// `mode` says, and report it as `Captured`.
    Capture { argv: Vec<String>, cwd: Option<String>, timeout_ms: u64, mode: Capture },
    /// Deposit `text` in the input box of the agent in `pane_id`, and
    /// report how it went as `Sent`.
    SendInput { pane_id: String, text: String },
    /// Run `herdr <argv>` and report how it went as `Ran`.
    Exec(Vec<String>),
    /// End with success, having done nothing more.
    Exit,
    /// End with this error.
    Fail(Fatal),
}

/// The internal error of a picked row that names no entry.
pub open spec fn not_found_text() -> Seq<char> {
    "command-palette: internal error: selected command not found in catalog"@
}

/// How a failed catalog command is reported.
pub open spec fn exec_failure_text(group: Seq<char>, subcommand: Seq<char>, detail: Seq<char>) -> Seq<char> {
    "command-palette: herdr "@ + group + " "@ + subcommand + " failed:\n"@ + detail
}

/// `i` is the first position of `id` in `ids`.
pub open spec fn first_id(ids: Seq<Seq<char>>, id: Seq<char>, i: int) -> bool {
    &&& 0 <= i < ids.len()
    &&& ids[i] == id
    &&& forall|j: int| 0 <= j < i ==> ids[j] != id
}

pub open spec fn command_ids(cs: Seq<UserCommand>) -> Seq<Seq<char>> {
    cs.map_values(|c: UserCommand| c.id@)
}

pub open spec fn prompt_ids(ps: Seq<UserPrompt>) -> Seq<Seq<char>> {
    ps.map_values(|p: UserPrompt| p.id@)
}

pub open spec fn entry_ids(es: Seq<CommandEntry>) -> Seq<Seq<char>> {
    es.map_values(|e: CommandEntry| e.id@)
}

/// The states a step can start from: a command being resolved is one of
/// the catalog's, with no more values than arguments; a user command or
/// prompt being run is one of the user's, and a prompt being captured has a
/// command.
pub open spec fn flow_ok(catalog: Catalog, user: UserCatalog, flow: Flow) -> bool {
    match flow {
        Flow::Resolving { index, state, .. } => index < catalog.commands@.len() && state.args@.len()
            <= catalog.commands@[index as int].arguments@.len(),
        Flow::LaunchInput { index } => index < user.commands@.len(),
        Flow::Opening { index } => index < user.commands@.len(),
        Flow::Capturing { index } => index < user.prompts@.len() && user.prompts@[index as int].argv@.len() > 0,
        Flow::ListingAgents { index, .. } => index < user.prompts@.len(),
        Flow::ListingWorkspaces { index, .. } => index < user.prompts@.len(),
        Flow::PickingAgent { index, .. } => index < user.prompts@.len(),
        Flow::Depositing { index, .. } => index < user.prompts@.len(),
        _ => true,
    }
}

/// The event each state waits for.
pub open spec fn expects(flow: Flow, event: FlowEvent) -> bool {
    match flow {
        Flow::Main => event is Picked,
        Flow::Resolving { .. } => event is Picked || event is Entered || event is Listed,
        Flow::Confirming { .. } => event is Picked,
        Flow::Running { .. } => event is Ran,
        Flow::LaunchInput { .. } => event is Entered,
        Flow::Opening { .. } => event is Ran,
        Flow::Renaming => event is Ran,
        Flow::Capturing { .. } => event is Captured,
        Flow::ListingAgents { .. } => event is Listed,
        Flow::ListingWorkspaces { .. } => event is Listed,
        Flow::PickingAgent { .. } => event is Picked,
        Flow::Depositing { .. } => event is Sent,
        Flow::Focusing => event is Ran,
        Flow::Done => false,
    }
}

/// What follows a user command's launch step (`entered`: the answer to its
/// input, if it was asked): ask for the input, end on a cancel, or open its
/// runner pane with the argv as JSON and the directory the check allowed.
pub open spec fn launch_settled(
    command: UserCommand,
    index: usize,
    origin: Origin,
    plugin_id: Seq<char>,
    entered: Option<InputOutcome>,
    action: FlowAction,
    flow: Flow,
) -> bool {
    match launch_next(command, entered_view(entered)) {
        None => {
            &&& action matches FlowAction::Input(screen) && screen.header@ == command.title@ && screen.prompt@
                == command.input->Some_0.prompt@ + " > "@ && screen.initial@.len() == 0
            &&& flow matches Flow::LaunchInput { index: i } && i == index
        },
        Some(None) => action is Exit && flow is Done,
        Some(Some(argv)) => {
            &&& action matches FlowAction::Exec(a) && exists|dir_ok: bool|
                #[trigger] open_argv(command, spec_strings_json(argv), origin, plugin_id, dir_ok) == views(a@)
            &&& flow matches Flow::Opening { index: i } && i == index
        },
    }
}

/// What follows the plan for a prompt's text: list the agents, end when
/// there is nothing to send, or fail.
pub open spec fn planned_next(prompt: UserPrompt, captured: Option<Captured>, index: usize, action: FlowAction, flow: Flow) -> bool {
    exists|plan: SendPlan|
        #![trigger send_planned(prompt, captured, plan)]
        send_planned(prompt, captured, plan) && match plan {
            SendPlan::Pick { text, header, warning } => {
                &&& action matches FlowAction::List { argv, desc } && views(argv@) == seq!["agent"@, "list"@] && desc@
                    == "agent list"@
                &&& flow matches Flow::ListingAgents { index: i, text: t, header: h, warning: w } && i == index && t@
                    == text@ && h@ == header@ && w == warning
            },
            SendPlan::Cancel => action is Exit && flow is Done,
            SendPlan::Fail(f) => action == FlowAction::Fail(f) && flow is Done,
        }
}

/// The first step of a prompt: run its command when it has one, else plan
/// its text.
pub open spec fn prompt_begun(prompt: UserPrompt, index: usize, origin: Origin, action: FlowAction, flow: Flow) -> bool {
    if prompt.argv@.len() > 0 {
        &&& action matches FlowAction::Capture { argv, cwd, timeout_ms, mode } && views(argv@) == views(prompt.argv@)
            && timeout_ms == prompt.timeout_ms && mode == prompt.capture && exists|is_dir: bool|
            #[trigger] run_dir(prompt.cwd.deep_view(), origin.cwd@, is_dir) == cwd.deep_view()
        &&& flow matches Flow::Capturing { index: i } && i == index
    } else {
        planned_next(prompt, None, index, action, flow)
    }
}

/// The answer an event gives the argument being resolved.
pub open spec fn answer_of(event: FlowEvent) -> Answer {
    match event {
        FlowEvent::Listed(r) => Answer::Listed(r),
        FlowEvent::Entered(o) => Answer::Entered(o),
        FlowEvent::Picked(o) => Answer::Picked(o),
        _ => Answer::Begin,
    }
}

/// A question of the resolution, passed on to the front end as it is.
pub open spec fn passes_on(need: Need, action: FlowAction) -> bool {
    match need {
        Need::List { argv, desc } => action == FlowAction::List { argv, desc },
        Need::Input(screen) => action == FlowAction::Input(screen),
        Need::Pick(screen) => action == FlowAction::Pick(screen),
        _ => false,
    }
}

/// What follows a resolution step of the catalog command `entry` (at
/// `index`, run as `herdr <group> <subcommand>`) that left `after` and
/// reported `need`: a question is passed on and resolution goes on; a
/// cancel ends with success; a failure ends with it; resolved arguments go
/// to the confirmation when the command asks for one, else straight to the
/// run.
pub open spec fn settled(
    entry: CommandEntry,
    index: usize,
    group: Seq<char>,
    subcommand: Seq<char>,
    after: Resolving,
    need: Need,
    action: FlowAction,
    flow: Flow,
) -> bool {
    match need {
        Need::Finished(Resolution::Cancelled) => action is Exit && flow is Done,
        Need::Failed(f) => action == FlowAction::Fail(f) && flow is Done,
        Need::Finished(Resolution::Args(args)) => {
            let argv = seq![group, subcommand] + views(args@);
            if has_confirm(entry) {
                &&& action matches FlowAction::Pick(screen) && is_confirm_screen(entry, screen)
                &&& flow matches Flow::Confirming { argv: a, group: g, subcommand: s } && views(a@) == argv && g@
                    == group && s@ == subcommand
            } else {
                &&& action matches FlowAction::Exec(a) && views(a@) == argv
                &&& flow matches Flow::Running { group: g, subcommand: s } && g@ == group && s@ == subcommand
            }
        },
        _ => {
            &&& passes_on(need, action)
            &&& flow matches Flow::Resolving { index: i, group: g, subcommand: s, state } && i == index && g@
                == group && s@ == subcommand && state == after
        },
    }
}

/// The first step of the catalog command `id`: it must be in the catalog
/// (its first entry with that id) and run as `herdr <group> <subcommand>`;
/// then its resolution starts from no values and no answers.
pub open spec fn catalog_started(catalog: Catalog, origin: Origin, id: Seq<char>, action: FlowAction, flow: Flow) -> bool {
    if !entry_ids(catalog.commands@).contains(id) {
        action matches FlowAction::Fail(f) && f.0@ == not_found_text() && flow is Done
    } else {
        exists|i: int|
            #![trigger first_id(entry_ids(catalog.commands@), id, i)]
            first_id(entry_ids(catalog.commands@), id, i) && {
                let entry = catalog.commands@[i];
                if entry.command@.len() != 2 {
                    &&& action matches FlowAction::Fail(f) && f.0@ == "command-palette: invalid command entry "@
                        + entry.id@ + ": expected [group, subcommand]"@
                    &&& flow is Done
                } else {
                    exists|fresh: Resolving, after: Resolving, need: Need|
                        #![trigger step_taken(entry, origin, fresh, Answer::Begin, after, need)]
                        fresh.args@.len() == 0 && fresh.answers() == no_answers() && step_taken(
                            entry,
                            origin,
                            fresh,
                            Answer::Begin,
                            after,
                            need,
                        ) && settled(entry, i as usize, entry.command@[0]@, entry.command@[1]@, after, need, action, flow)
                }
            }
    }
}

/// The main picker's answer: Esc ends with success; a picked row goes where
/// `route_of` says: a plugin action is dispatched, a user command or prompt
/// (the first with that id) is launched or sent, a catalog command starts
/// its resolution. A row naming no entry is an internal error.
pub open spec fn main_next(
    catalog: Catalog,
    user: UserCatalog,
    origin: Origin,
    plugin_id: Seq<char>,
    event: FlowEvent,
    action: FlowAction,
    flow: Flow,
) -> bool {
    match event {
        FlowEvent::Picked(PickOutcome::Cancelled) => action is Exit && flow is Done,
        FlowEvent::Picked(PickOutcome::Selected(id)) => match route_of(id@) {
            RouteV::Plugin(qid) => action matches FlowAction::Dispatch(q) && q@ == qid && flow is Done,
            RouteV::User(u) => if command_ids(user.commands@).contains(u) {
                exists|i: usize|
                    #![trigger first_id(command_ids(user.commands@), u, i as int)]
                    first_id(command_ids(user.commands@), u, i as int) && launch_settled(
                        user.commands@[i as int],
                        i,
                        origin,
                        plugin_id,
                        None,
                        action,
                        flow,
                    )
            } else {
                action matches FlowAction::Fail(f) && f.0@ == not_found_text() && flow is Done
            },
            RouteV::Prompt(u) => if prompt_ids(user.prompts@).contains(u) {
                exists|i: usize|
                    #![trigger first_id(prompt_ids(user.prompts@), u, i as int)]
                    first_id(prompt_ids(user.prompts@), u, i as int) && prompt_begun(user.prompts@[i as int], i, origin, action, flow)
            } else {
                action matches FlowAction::Fail(f) && f.0@ == not_found_text() && flow is Done
            },
            RouteV::Catalog(c) => catalog_started(catalog, origin, c, action, flow),
        },
        _ => false,
    }
}

/// One step of the session from `before` on `event`, to `after` with
/// `action`. Resolving a catalog command takes one resolution step with
/// the event as its answer. The confirmation runs the command only when it
/// is answered `Yes`; anything else ends with success. The run ends the
/// session: with success when herdr exited with success, else with the
/// failure and herdr's output (or why it could not run).
pub open spec fn flow_next(
    catalog: Catalog,
    user: UserCatalog,
    origin: Origin,
    plugin_id: Seq<char>,
    before: Flow,
    event: FlowEvent,
    after: Flow,
    action: FlowAction,
) -> bool {
    match before {
        Flow::Main => main_next(catalog, user, origin, plugin_id, event, action, after),
        Flow::Resolving { index, group, subcommand, state } => exists|st: Resolving, need: Need|
            #![trigger step_taken(catalog.commands@[index as int], origin, state, answer_of(event), st, need)]
            step_taken(catalog.commands@[index as int], origin, state, answer_of(event), st, need) && settled(
                catalog.commands@[index as int],
                index,
                group@,
                subcommand@,
                st,
                need,
                action,
                after,
            ),
        Flow::Confirming { argv, group, subcommand } => match event {
            FlowEvent::Picked(o) => if confirms(outcome_view(o)) {
                &&& action == FlowAction::Exec(argv)
                &&& after matches Flow::Running { group: g, subcommand: s } && g@ == group@ && s@ == subcommand@
            } else {
                action is Exit && after is Done
            },
            _ => false,
        },
        Flow::Running { group, subcommand } => after is Done && match event {
            FlowEvent::Ran(CallOutcome::NotRun(detail)) => action matches FlowAction::Fail(f) && f.0@
                == exec_failure_text(group@, subcommand@, detail@),
            FlowEvent::Ran(CallOutcome::Ran { success, merged, .. }) => if success {
                action is Exit
            } else {
                action matches FlowAction::Fail(f) && f.0@ == exec_failure_text(group@, subcommand@, merged@)
            },
            _ => false,
        },
        Flow::LaunchInput { index } => match event {
            FlowEvent::Entered(o) => launch_settled(user.commands@[index as int], index, origin, plugin_id, Some(o), action, after),
            _ => false,
        },
        Flow::Opening { index } => {
            let title = user.commands@[index as int].title@;
            match event {
                FlowEvent::Ran(CallOutcome::NotRun(detail)) => action matches FlowAction::Fail(f) && f.0@
                    == "command-palette: cannot run "@ + title + ":\n"@ + detail@ && after is Done,
                FlowEvent::Ran(CallOutcome::Ran { success, stdout, merged }) => if !success {
                    action matches FlowAction::Fail(f) && f.0@ == "command-palette: cannot run "@ + title + ":\n"@
                        + merged@ && after is Done
                } else {
                    let pane = opened_pane_id(
                        match stdout {
                            Some(t) => parsed(t@),
                            None => None,
                        },
                    );
                    if pane.len() == 0 {
                        action is Exit && after is Done
                    } else {
                        action matches FlowAction::Exec(a) && views(a@) == seq!["pane"@, "rename"@, pane, title]
                            && after is Renaming
                    }
                },
                _ => false,
            }
        },
        Flow::Renaming => event is Ran && action is Exit && after is Done,
        Flow::Capturing { index } => match event {
            FlowEvent::Captured(c) => planned_next(user.prompts@[index as int], Some(c), index, action, after),
            _ => false,
        },
        Flow::ListingAgents { index, text, header, warning } => match event {
            FlowEvent::Listed(Err(d)) => action matches FlowAction::Fail(f) && agent_rows_of(Err(d@), Err(Seq::empty()))
                == Err::<Seq<RowV>, Seq<char>>(f.0@) && after is Done,
            FlowEvent::Listed(Ok(raw)) => {
                &&& action matches FlowAction::List { argv, desc } && views(argv@) == seq!["workspace"@, "list"@] && desc@
                    == "workspace list"@
                &&& after matches Flow::ListingWorkspaces { index: i, text: t, header: h, warning: w, agents } && i
                    == index && t@ == text@ && h@ == header@ && w == warning && agents == Ok::<String, String>(raw)
            },
            _ => false,
        },
        Flow::ListingWorkspaces { index, text, header, warning, agents } => match event {
            FlowEvent::Listed(ws) => match agent_rows_of(result_view(agents), result_view(ws)) {
                Err(m) => action matches FlowAction::Fail(f) && f.0@ == m && after is Done,
                Ok(rows) => if rows.len() == 0 {
                    action is Exit && after is Done
                } else {
                    &&& action matches FlowAction::Pick(screen) && row_views(screen.rows@) == promoted(rows, origin.pane_id@)
                        && screen.header@ == header@ && screen.prompt@ == "agent ▸ "@ && screen.placeholder@.len() == 0
                        && screen.warning == warning
                    &&& after matches Flow::PickingAgent { index: i, text: t } && i == index && t@ == text@
                },
            },
            _ => false,
        },
        Flow::PickingAgent { index, text } => match event {
            FlowEvent::Picked(PickOutcome::Cancelled) => action is Exit && after is Done,
            FlowEvent::Picked(PickOutcome::Selected(p)) => {
                &&& action matches FlowAction::SendInput { pane_id, text: t } && pane_id@ == p@ && t@ == text@
                &&& after matches Flow::Depositing { index: i, pane_id: q } && i == index && q@ == p@
            },
            _ => false,
        },
        Flow::Depositing { index, pane_id } => match event {
            FlowEvent::Sent(Err(m)) => action matches FlowAction::Fail(f) && f.0@ == "command-palette: cannot send "@
                + user.prompts@[index as int].title@ + " to the agent:\n"@ + m@ && after is Done,
            FlowEvent::Sent(Ok(())) => action matches FlowAction::Exec(a) && views(a@) == seq!["agent"@, "focus"@, pane_id@]
                && after is Focusing,
            _ => false,
        },
        Flow::Focusing => event is Ran && action is Exit && after is Done,
        Flow::Done => false,
    }
}

/// A catalog command runs only once its confirmation, if it asks for one,
/// has been answered `Yes`: a step that asks to run it (and then waits for
/// its run) either answers a confirmation with `Yes`, or resolved a command
/// that asks for none.
pub proof fn lemma_runs_only_after_yes(
    catalog: Catalog,
    user: UserCatalog,
    origin: Origin,
    plugin_id: Seq<char>,
    before: Flow,
    event: FlowEvent,
    after: Flow,
    action: FlowAction,
)
    requires
        flow_next(catalog, user, origin, plugin_id, before, event, after, action),
        action is Exec,
        after is Running,
    ensures
        before is Confirming ==> (event matches FlowEvent::Picked(o) && confirms(outcome_view(o))),
        before matches Flow::Resolving { index, .. } ==> !has_confirm(catalog.commands@[index as int]),
        before is Main ==> (event matches FlowEvent::Picked(PickOutcome::Selected(id)) && route_of(id@) matches RouteV::Catalog(c)
            && exists|i: int| #[trigger] first_id(entry_ids(catalog.commands@), c, i) && !has_confirm(catalog.commands@[i])),
        before is Confirming || before is Resolving || before is Main,
{
    match before {
        Flow::Main => {
            if let FlowEvent::Picked(PickOutcome::Selected(id)) = event {
                if let RouteV::Catalog(c) = route_of(id@) {
                    let i = choose|i: int| #[trigger] first_id(entry_ids(catalog.commands@), c, i) && {
                        let entry = catalog.commands@[i];
                        if entry.command@.len() != 2 {
                            &&& action matches FlowAction::Fail(f) && f.0@ == "command-palette: invalid command entry "@
                                + entry.id@ + ": expected [group, subcommand]"@
                            &&& after is Done
                        } else {
                            exists|fresh: Resolving, st: Resolving, need: Need|
                                #![trigger step_taken(entry, origin, fresh, Answer::Begin, st, need)]
                                fresh.args@.len() == 0 && fresh.answers() == no_answers() && step_taken(
                                    entry,
                                    origin,
                                    fresh,
                                    Answer::Begin,
                                    st,
                                    need,
                                ) && settled(entry, i as usize, entry.command@[0]@, entry.command@[1]@, st, need, action, after)
                        }
                    };
                    assert(first_id(entry_ids(catalog.commands@), c, i) && !has_confirm(catalog.commands@[i]));
                }
            }
        },
        _ => {},
    }
}

/// The position of the first user command with this id.
fn find_user_command(cs: &Vec<UserCommand>, id: &str) -> (r: Option<usize>)
    ensures
        match r {
            Some(i) => first_id(command_ids(cs@), id@, i as int),
            None => !command_ids(cs@).contains(id@),
        },
{
    let mut i: usize = 0;
    while i < cs.len()
        invariant
            0 <= i <= cs@.len(),
            forall|j: int| 0 <= j < i ==> command_ids(cs@)[j] != id@,
        decreases cs@.len() - i,
    {
        if str_eq(cs[i].id.as_str(), id) {
            return Some(i);
        }
        i += 1;
    }
    None
}

/// The position of the first user prompt with this id.
fn find_user_prompt(ps: &Vec<UserPrompt>, id: &str) -> (r: Option<usize>)
    ensures
        match r {
            Some(i) => first_id(prompt_ids(ps@), id@, i as int),
            None => !prompt_ids(ps@).contains(id@),
        },
{
    let mut i: usize = 0;
    while i < ps.len()
        invariant
            0 <= i <= ps@.len(),
            forall|j: int| 0 <= j < i ==> prompt_ids(ps@)[j] != id@,
        decreases ps@.len() - i,
    {
        if str_eq(ps[i].id.as_str(), id) {
            return Some(i);
        }
        i += 1;
    }
    None
}

/// What follows a resolution step, as `settled` defines it.
fn settle(entry: &CommandEntry, index: usize, group: String, subcommand: String, state: Resolving, need: Need) -> (r: (
    FlowAction,
    Flow,
))
    ensures
        settled(*entry, index, group@, subcommand@, state, need, r.0, r.1),
{
    match need {
        Need::Finished(Resolution::Cancelled) => (FlowAction::Exit, Flow::Done),
        Need::Failed(f) => (FlowAction::Fail(f), Flow::Done),
        Need::Finished(Resolution::Args(args)) => {
            let argv = exec_argv(group.as_str(), subcommand.as_str(), &args);
            match confirm_screen(entry) {
                Some(screen) => (FlowAction::Pick(screen), Flow::Confirming { argv, group, subcommand }),
                None => (FlowAction::Exec(argv), Flow::Running { group, subcommand }),
            }
        },
        Need::List { argv, desc } => (
            FlowAction::List { argv, desc },
            Flow::Resolving { index, group, subcommand, state },
        ),
        Need::Input(screen) => (FlowAction::Input(screen), Flow::Resolving { index, group, subcommand, state }),
        Need::Pick(screen) => (FlowAction::Pick(screen), Flow::Resolving { index, group, subcommand, state }),
    }
}

/// The first step of the catalog command `id`, as `catalog_started`
/// defines it.
fn start_catalog(catalog: &Catalog, user: &UserCatalog, origin: &Origin, id: &str) -> (r: (FlowAction, Flow))
    ensures
        catalog_started(*catalog, *origin, id@, r.0, r.1),
        flow_ok(*catalog, *user, r.1),
{
    let index = match find_command(catalog, id) {
        Ok(i) => i,
        Err(f) => {
            proof {
                assert forall|j: int| 0 <= j < entry_ids(catalog.commands@).len() implies entry_ids(
                    catalog.commands@,
                )[j] != id@ by {
                    assert(entry_ids(catalog.commands@)[j] == catalog.commands@[j].id@);
                }
            }
            return (FlowAction::Fail(f), Flow::Done);
        },
    };
    let entry = &catalog.commands[index];
    assert(first_id(entry_ids(catalog.commands@), id@, index as int)) by {
        assert forall|j: int| 0 <= j < index implies entry_ids(catalog.commands@)[j] != id@ by {
            assert(entry_ids(catalog.commands@)[j] == catalog.commands@[j].id@);
        }
    }
    assert(entry_ids(catalog.commands@).contains(id@)) by {
        assert(entry_ids(catalog.commands@)[index as int] == id@);
    }
    let (group, subcommand) = match command_pair(entry) {
        Ok(p) => p,
        Err(f) => {
            return (FlowAction::Fail(f), Flow::Done);
        },
    };
    let mut state = Resolving::new();
    let ghost fresh = state;
    let need = resolve_step(entry, origin, &mut state, Answer::Begin);
    let ghost after = state;
    let ghost n = need;
    let r = settle(entry, index, group, subcommand, state, need);
    assert(step_taken(*entry, *origin, fresh, Answer::Begin, after, n));
    r
}

/// What follows a user command's launch step, as `launch_settled` defines
/// it.
fn launch_settle(command: &UserCommand, index: usize, origin: &Origin, plugin_id: &str, entered: Option<InputOutcome>) -> (r: (
    FlowAction,
    Flow,
))
    ensures
        launch_settled(*command, index, *origin, plugin_id@, entered, r.0, r.1),
{
    match launch_step(command, entered) {
        LaunchStep::Input(screen) => (FlowAction::Input(screen), Flow::LaunchInput { index }),
        LaunchStep::Cancelled => (FlowAction::Exit, Flow::Done),
        LaunchStep::Open(argv) => {
            let json = argv_json(&argv);
            let args = open_args(command, json.as_str(), origin, plugin_id);
            (FlowAction::Exec(args), Flow::Opening { index })
        },
    }
}

/// What follows the plan for a prompt's text, as `planned_next` defines it.
fn plan_next(prompt: &UserPrompt, captured: Option<Captured>, index: usize) -> (r: (FlowAction, Flow))
    requires
        captured is Some ==> prompt.argv@.len() > 0,
    ensures
        planned_next(*prompt, captured, index, r.0, r.1),
{
    let ghost c = captured;
    let plan = plan_send(prompt, captured);
    let ghost p = plan;
    assert(send_planned(*prompt, c, p));
    match plan {
        SendPlan::Pick { text, header, warning } => {
            let argv = vec![owned("agent"), owned("list")];
            assert(views(argv@) =~= seq!["agent"@, "list"@]);
            (FlowAction::List { argv, desc: owned("agent list") }, Flow::ListingAgents { index, text, header, warning })
        },
        SendPlan::Cancel => (FlowAction::Exit, Flow::Done),
        SendPlan::Fail(f) => (FlowAction::Fail(f), Flow::Done),
    }
}

/// The first step of a prompt, as `prompt_begun` defines it.
fn prompt_begin(prompt: &UserPrompt, index: usize, origin: &Origin) -> (r: (FlowAction, Flow))
    ensures
        prompt_begun(*prompt, index, *origin, r.0, r.1),
{
    if prompt.argv.len() > 0 {
        let cwd = run_cwd(prompt, origin);
        let argv = copy_strings(&prompt.argv);
        assert(views(argv@) =~= strings_view(argv@));
        assert(views(prompt.argv@) =~= strings_view(prompt.argv@));
        (
            FlowAction::Capture { argv, cwd, timeout_ms: prompt.timeout_ms, mode: prompt.capture },
            Flow::Capturing { index },
        )
    } else {
        plan_next(prompt, None, index)
    }
}

/// The main picker's answer, as `main_next` defines it.
fn main_step(catalog: &Catalog, user: &UserCatalog, origin: &Origin, plugin_id: &str, event: FlowEvent) -> (r: (
    FlowAction,
    Flow,
))
    requires
        event is Picked,
    ensures
        main_next(*catalog, *user, *origin, plugin_id@, event, r.0, r.1),
        flow_ok(*catalog, *user, r.1),
{
    match event {
        FlowEvent::Picked(PickOutcome::Selected(id)) => match route(id.as_str()) {
            Route::Plugin(qid) => (FlowAction::Dispatch(qid), Flow::Done),
            Route::User(u) => match find_user_command(&user.commands, u.as_str()) {
                Some(i) => launch_settle(&user.commands[i], i, origin, plugin_id, None),
                None => (
                    FlowAction::Fail(Fatal::new("command-palette: internal error: selected command not found in catalog")),
                    Flow::Done,
                ),
            },
            Route::Prompt(u) => match find_user_prompt(&user.prompts, u.as_str()) {
                Some(i) => prompt_begin(&user.prompts[i], i, origin),
                None => (
                    FlowAction::Fail(Fatal::new("command-palette: internal error: selected command not found in catalog")),
                    Flow::Done,
                ),
            },
            Route::Catalog(c) => start_catalog(catalog, user, origin, c.as_str()),
        },
        _ => (FlowAction::Exit, Flow::Done),
    }
}

/// A step of a catalog command, as `flow_next` defines it.
fn step_catalog(
    catalog: &Catalog,
    user: &UserCatalog,
    origin: &Origin,
    plugin_id: &str,
    current: Flow,
    event: FlowEvent,
) -> (r: (FlowAction, Flow))
    requires
        flow_ok(*catalog, *user, current),
        expects(current, event),
        current is Resolving || current is Confirming || current is Running,
    ensures
        flow_ok(*catalog, *user, r.1),
        flow_next(*catalog, *user, *origin, plugin_id@, current, event, r.1, r.0),
{
    let mut next = Flow::Done;
    let action = match current {
        Flow::Resolving { index, group, subcommand, state } => {
            let ghost before = state;
            let answer = match event {
                FlowEvent::Listed(r) => Answer::Listed(r),
                FlowEvent::Entered(o) => Answer::Entered(o),
                FlowEvent::Picked(o) => Answer::Picked(o),
                _ => Answer::Begin,
            };
            let mut state = state;
            let entry = &catalog.commands[index];
            let need = resolve_step(entry, origin, &mut state, answer);
            let ghost after = state;
            let ghost n = need;
            let (action, nx) = settle(entry, index, group, subcommand, state, need);
            assert(step_taken(catalog.commands@[index as int], *origin, before, answer_of(event), after, n));
            next = nx;
            action
        },
        Flow::Confirming { argv, group, subcommand } => {
            match event {
                FlowEvent::Picked(o) => {
                    if confirmed(&o) {
                        next = Flow::Running { group, subcommand };
                        FlowAction::Exec(argv)
                    } else {
                        FlowAction::Exit
                    }
                },
                _ => FlowAction::Exit,
            }
        },
        Flow::Running { group, subcommand } => {
            match event {
                FlowEvent::Ran(CallOutcome::NotRun(detail)) => FlowAction::Fail(
                    crate::flow::exec_failure(group.as_str(), subcommand.as_str(), detail.as_str()),
                ),
                FlowEvent::Ran(CallOutcome::Ran { success, merged, .. }) => {
                    if success {
                        FlowAction::Exit
                    } else {
                        FlowAction::Fail(crate::flow::exec_failure(group.as_str(), subcommand.as_str(), merged.as_str()))
                    }
                },
                _ => FlowAction::Exit,
            }
        },
        _ => FlowAction::Exit,
    };
    (action, next)
}

/// A step of a user command, as `flow_next` defines it.
fn step_launch(
    catalog: &Catalog,
    user: &UserCatalog,
    origin: &Origin,
    plugin_id: &str,
    current: Flow,
    event: FlowEvent,
) -> (r: (FlowAction, Flow))
    requires
        flow_ok(*catalog, *user, current),
        expects(current, event),
        current is LaunchInput || current is Opening || current is Renaming,
    ensures
        flow_ok(*catalog, *user, r.1),
        flow_next(*catalog, *user, *origin, plugin_id@, current, event, r.1, r.0),
{
    let mut next = Flow::Done;
    let action = match current {
        Flow::LaunchInput { index } => match event {
            FlowEvent::Entered(o) => {
                let (action, nx) = launch_settle(&user.commands[index], index, origin, plugin_id, Some(o));
                next = nx;
                action
            },
            _ => FlowAction::Exit,
        },
        Flow::Opening { index } => {
            let title = &user.commands[index].title;
            match event {
                FlowEvent::Ran(CallOutcome::NotRun(detail)) => FlowAction::Fail(open_failure(title.as_str(), detail.as_str())),
                FlowEvent::Ran(CallOutcome::Ran { success, stdout, merged }) => {
                    if !success {
                        FlowAction::Fail(open_failure(title.as_str(), merged.as_str()))
                    } else {
                        let pane = match &stdout {
                            Some(t) => pane_id_of(Some(t.as_str())),
                            None => pane_id_of(None),
                        };
                        match rename_args(pane.as_str(), title.as_str()) {
                            Some(args) => {
                                next = Flow::Renaming;
                                FlowAction::Exec(args)
                            },
                            None => FlowAction::Exit,
                        }
                    }
                },
                _ => FlowAction::Exit,
            }
        },
        Flow::Renaming => FlowAction::Exit,
        _ => FlowAction::Exit,
    };
    (action, next)
}

/// A step of a prompt, as `flow_next` defines it.
fn step_send(
    catalog: &Catalog,
    user: &UserCatalog,
    origin: &Origin,
    plugin_id: &str,
    current: Flow,
    event: FlowEvent,
) -> (r: (FlowAction, Flow))
    requires
        flow_ok(*catalog, *user, current),
        expects(current, event),
        current is Capturing || current is ListingAgents || current is PickingAgent || current is Depositing || current is Focusing,
    ensures
        flow_ok(*catalog, *user, r.1),
        flow_next(*catalog, *user, *origin, plugin_id@, current, event, r.1, r.0),
{
    let mut next = Flow::Done;
    let action = match current {
        Flow::Capturing { index } => match event {
            FlowEvent::Captured(c) => {
                let (action, nx) = plan_next(&user.prompts[index], Some(c), index);
                next = nx;
                action
            },
            _ => FlowAction::Exit,
        },
        Flow::ListingAgents { index, text, header, warning } => match event {
            FlowEvent::Listed(Err(d)) => {
                let listed: Result<String, String> = Err(d);
                match agent_rows(&listed, &Err(String::new())) {
                    Err(f) => FlowAction::Fail(f),
                    Ok(_) => FlowAction::Exit,
                }
            },
            FlowEvent::Listed(Ok(raw)) => {
                let argv = vec![owned("workspace"), owned("list")];
                assert(views(argv@) =~= seq!["workspace"@, "list"@]);
                next = Flow::ListingWorkspaces { index, text, header, warning, agents: Ok(raw) };
                FlowAction::List { argv, desc: owned("workspace list") }
            },
            _ => FlowAction::Exit,
        },
        Flow::PickingAgent { index, text } => match event {
            FlowEvent::Picked(PickOutcome::Selected(p)) => {
                let pane_id = p.clone();
                next = Flow::Depositing { index, pane_id };
                FlowAction::SendInput { pane_id: p, text }
            },
            _ => FlowAction::Exit,
        },
        Flow::Depositing { index, pane_id } => match event {
            FlowEvent::Sent(Err(m)) => FlowAction::Fail(send_failure(user.prompts[index].title.as_str(), m.as_str())),
            FlowEvent::Sent(Ok(())) => {
                let argv = vec![owned("agent"), owned("focus"), pane_id];
                assert(views(argv@) =~= seq!["agent"@, "focus"@, argv@[2]@]);
                next = Flow::Focusing;
                FlowAction::Exec(argv)
            },
            _ => FlowAction::Exit,
        },
        Flow::Focusing => FlowAction::Exit,
        _ => FlowAction::Exit,
    };
    (action, next)
}

/// The agent picker of a prompt, as `flow_next` defines it.
#[verifier::spinoff_prover]
#[verifier::rlimit(50)]
fn step_agents(
    catalog: &Catalog,
    user: &UserCatalog,
    origin: &Origin,
    plugin_id: &str,
    current: Flow,
    event: FlowEvent,
) -> (r: (FlowAction, Flow))
    requires
        flow_ok(*catalog, *user, current),
        expects(current, event),
        current is ListingWorkspaces,
    ensures
        flow_ok(*catalog, *user, r.1),
        flow_next(*catalog, *user, *origin, plugin_id@, current, event, r.1, r.0),
{
    let mut next = Flow::Done;
    let action = match current {
        Flow::ListingWorkspaces { index, text, header, warning, agents } => match event {
            FlowEvent::Listed(ws) => match agent_rows(&agents, &ws) {
                Err(f) => FlowAction::Fail(f),
                Ok(rows) => {
                    if rows.len() == 0 {
                        FlowAction::Exit
                    } else {
                        let rows = promote_origin(rows, origin.pane_id.as_str());
                        next = Flow::PickingAgent { index, text };
                        FlowAction::Pick(PickScreen { header, prompt: owned("agent ▸ "), placeholder: String::new(), rows, warning })
                    }
                },
            },
            _ => FlowAction::Exit,
        },
        _ => FlowAction::Exit,
    };
    (action, next)
}

/// One step of the session, as `flow_next` defines it.
pub fn flow_step(
    catalog: &Catalog,
    user: &UserCatalog,
    origin: &Origin,
    plugin_id: &str,
    flow: &mut Flow,
    event: FlowEvent,
) -> (action: FlowAction)
    requires
        flow_ok(*catalog, *user, *old(flow)),
        expects(*old(flow), event),
    ensures
        flow_ok(*catalog, *user, *final(flow)),
        flow_next(*catalog, *user, *origin, plugin_id@, *old(flow), event, *final(flow), action),
{
    let mut current = Flow::Done;
    std::mem::swap(&mut current, flow);
    let (action, next) = match current {
        Flow::Main => main_step(catalog, user, origin, plugin_id, event),
        Flow::Resolving { .. } | Flow::Confirming { .. } | Flow::Running { .. } => step_catalog(
            catalog,
            user,
            origin,
            plugin_id,
            current,
            event,
        ),
        Flow::LaunchInput { .. } | Flow::Opening { .. } | Flow::Renaming => step_launch(catalog, user, origin, plugin_id, current, event),
        Flow::ListingWorkspaces { .. } => step_agents(catalog, user, origin, plugin_id, current, event),
        Flow::Done => (FlowAction::Exit, Flow::Done),
        _ => step_send(catalog, user, origin, plugin_id, current, event),
    };
    *flow = next;
    action
}

} // verus!
