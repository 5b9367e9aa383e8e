use herdr_palette::actions::CallOutcome;
use herdr_palette::catalog::{ArgSpec, Catalog, CommandEntry};
use herdr_palette::custom::{Placement, UserCatalog, UserCommand};
use herdr_palette::origin::Origin;
use herdr_palette::prompt::{Capture, UserPrompt};
use herdr_palette::session::{flow_step, Flow, FlowAction, FlowEvent};
use herdr_palette::ui::{InputOutcome, PickOutcome};

fn entry(id: &str, command: &[&str], arguments: Vec<ArgSpec>, confirm: Option<&str>) -> CommandEntry {
    CommandEntry {
        id: id.to_string(),
        title: id.to_uppercase(),
        description: None,
        command: command.iter().map(|s| s.to_string()).collect(),
        arguments,
        confirm: confirm.map(str::to_string),
        keys_action: None,
        key: None,
    }
}

fn catalog() -> Catalog {
    Catalog {
        schema_version: 1,
        expected_herdr_protocol: None,
        commands: vec![
            entry("tab.close", &["tab", "close"], Vec::new(), Some("Close the tab?")),
            entry("config.reload", &["config", "reload"], Vec::new(), None),
            entry(
                "tab.rename",
                &["tab", "rename"],
                vec![
                    ArgSpec::Literal { value: "--label".to_string() },
                    ArgSpec::Input {
                        prompt: "label > ".to_string(),
                        required: true,
                        default_context: None,
                        validation: None,
                        description: None,
                    },
                ],
                None,
            ),
            entry("broken", &["tab"], Vec::new(), None),
        ],
    }
}

fn user() -> UserCatalog {
    UserCatalog {
        commands: vec![UserCommand {
            id: "lazygit".to_string(),
            title: "Lazygit".to_string(),
            argv: vec!["lazygit".to_string()],
            placement: Placement::Split,
            hold: false,
            cwd: None,
            input: None,
        }],
        prompts: vec![UserPrompt {
            id: "review".to_string(),
            title: "Review".to_string(),
            text: Some("review this".to_string()),
            argv: Vec::new(),
            capture: Capture::Stdout,
            timeout_ms: 5_000,
            cwd: None,
        }],
        warning: String::new(),
    }
}

fn origin() -> Origin {
    Origin::from_values("p1".to_string(), "t1".to_string(), "w1".to_string(), String::new()).unwrap()
}

const PLUGIN: &str = "vjeantet.palette";

fn pick(id: &str) -> FlowEvent {
    FlowEvent::Picked(PickOutcome::Selected(id.to_string()))
}

fn start(id: &str) -> (Flow, FlowAction) {
    let mut flow = Flow::Main;
    let action = flow_step(&catalog(), &user(), &origin(), PLUGIN, &mut flow, pick(id));
    (flow, action)
}

#[test]
fn escape_on_the_main_picker_ends_the_session() {
    let mut flow = Flow::Main;
    let action = flow_step(&catalog(), &user(), &origin(), PLUGIN, &mut flow, FlowEvent::Picked(PickOutcome::Cancelled));
    assert!(matches!(action, FlowAction::Exit));
    assert!(matches!(flow, Flow::Done));
}

#[test]
fn picked_rows_go_where_their_namespace_says() {
    assert!(matches!(start("plugin:a.b").1, FlowAction::Dispatch(q) if q == "a.b"));
    assert!(matches!(start("user:lazygit").1, FlowAction::Exec(argv) if argv[..3] == ["plugin", "pane", "open"]));
    assert!(matches!(start("prompt:review").1, FlowAction::List { argv, .. } if argv == ["agent", "list"]));
    let not_found = "command-palette: internal error: selected command not found in catalog";
    assert!(matches!(start("user:missing").1, FlowAction::Fail(f) if f.0 == not_found));
    assert!(matches!(start("prompt:missing").1, FlowAction::Fail(f) if f.0 == not_found));
    assert!(matches!(start("tab.missing").1, FlowAction::Fail(f) if f.0 == not_found));
    assert!(matches!(start("broken").1,
        FlowAction::Fail(f) if f.0 == "command-palette: invalid command entry broken: expected [group, subcommand]"));
}

#[test]
fn a_destructive_command_waits_for_yes() {
    let (mut flow, action) = start("tab.close");
    assert!(matches!(&action, FlowAction::Pick(screen) if screen.header == "Close the tab?" && screen.rows[0].id == "No"));
    let action = flow_step(&catalog(), &user(), &origin(), PLUGIN, &mut flow, pick("No"));
    assert!(matches!(action, FlowAction::Exit));

    let (mut flow, _) = start("tab.close");
    let action = flow_step(&catalog(), &user(), &origin(), PLUGIN, &mut flow, FlowEvent::Picked(PickOutcome::Cancelled));
    assert!(matches!(action, FlowAction::Exit));

    let (mut flow, _) = start("tab.close");
    let action = flow_step(&catalog(), &user(), &origin(), PLUGIN, &mut flow, pick("Yes"));
    assert!(matches!(action, FlowAction::Exec(argv) if argv == ["tab", "close"]));
    let action = flow_step(
        &catalog(),
        &user(),
        &origin(),
        PLUGIN,
        &mut flow,
        FlowEvent::Ran(CallOutcome::Ran { success: false, stdout: None, merged: "boom".to_string() }),
    );
    assert!(matches!(action, FlowAction::Fail(f) if f.0 == "command-palette: herdr tab close failed:\nboom"));
    assert!(matches!(flow, Flow::Done));
}

#[test]
fn a_command_without_confirmation_runs_at_once() {
    let (mut flow, action) = start("config.reload");
    assert!(matches!(action, FlowAction::Exec(argv) if argv == ["config", "reload"]));
    let ok = CallOutcome::Ran { success: true, stdout: Some(String::new()), merged: String::new() };
    assert!(matches!(flow_step(&catalog(), &user(), &origin(), PLUGIN, &mut flow, FlowEvent::Ran(ok)), FlowAction::Exit));

    let (mut flow, _) = start("config.reload");
    let action = flow_step(
        &catalog(),
        &user(),
        &origin(),
        PLUGIN,
        &mut flow,
        FlowEvent::Ran(CallOutcome::NotRun("no such file".to_string())),
    );
    assert!(matches!(action, FlowAction::Fail(f) if f.0 == "command-palette: herdr config reload failed:\nno such file"));
}

#[test]
fn arguments_are_resolved_before_the_run() {
    let (mut flow, action) = start("tab.rename");
    assert!(matches!(&action, FlowAction::Input(screen) if screen.prompt == "label > "));
    let action = flow_step(
        &catalog(),
        &user(),
        &origin(),
        PLUGIN,
        &mut flow,
        FlowEvent::Entered(InputOutcome::Submitted("my tab".to_string())),
    );
    assert!(matches!(action, FlowAction::Exec(argv) if argv == ["tab", "rename", "--label", "my tab"]));

    let (mut flow, _) = start("tab.rename");
    let action = flow_step(&catalog(), &user(), &origin(), PLUGIN, &mut flow, FlowEvent::Entered(InputOutcome::Cancelled));
    assert!(matches!(action, FlowAction::Exit));
}

fn step(flow: &mut Flow, event: FlowEvent) -> FlowAction {
    flow_step(&catalog(), &user(), &origin(), PLUGIN, flow, event)
}

fn ran(stdout: &str) -> FlowEvent {
    FlowEvent::Ran(CallOutcome::Ran { success: true, stdout: Some(stdout.to_string()), merged: stdout.to_string() })
}

#[test]
fn a_user_command_opens_its_pane_then_names_it() {
    let (mut flow, action) = start("user:lazygit");
    assert!(matches!(&action, FlowAction::Exec(argv) if argv.iter().any(|a| a == "--plugin") || argv.len() > 3));
    let action = step(&mut flow, ran(r#"{"result":{"plugin_pane":{"pane":{"pane_id":"p7"}}}}"#));
    assert!(matches!(action, FlowAction::Exec(argv) if argv == ["pane", "rename", "p7", "Lazygit"]));
    assert!(matches!(step(&mut flow, ran("")), FlowAction::Exit));

    let (mut flow, _) = start("user:lazygit");
    let failed = FlowEvent::Ran(CallOutcome::Ran { success: false, stdout: None, merged: "no room".to_string() });
    assert!(matches!(step(&mut flow, failed), FlowAction::Fail(f) if f.0 == "command-palette: cannot run Lazygit:\nno room"));
}

#[test]
fn a_prompt_is_sent_to_the_picked_agent_then_focused() {
    let (mut flow, _) = start("prompt:review");
    let agents = r#"{"result":{"agents":[{"pane_id":"p1","workspace_id":"w1","terminal_title_stripped":"agent-one"}]}}"#;
    let action = step(&mut flow, FlowEvent::Listed(Ok(agents.to_string())));
    assert!(matches!(action, FlowAction::List { argv, .. } if argv == ["workspace", "list"]));
    let workspaces = r#"{"result":{"workspaces":[{"workspace_id":"w1","label":"main"}]}}"#;
    let action = step(&mut flow, FlowEvent::Listed(Ok(workspaces.to_string())));
    assert!(matches!(&action, FlowAction::Pick(screen) if screen.rows.len() == 1 && screen.rows[0].id == "p1"));
    let action = step(&mut flow, pick("p1"));
    assert!(matches!(action, FlowAction::SendInput { pane_id, text } if pane_id == "p1" && text == "review this"));
    let action = step(&mut flow, FlowEvent::Sent(Ok(())));
    assert!(matches!(action, FlowAction::Exec(argv) if argv == ["agent", "focus", "p1"]));
    assert!(matches!(step(&mut flow, ran("")), FlowAction::Exit));
}

#[test]
fn a_prompt_without_agents_or_with_a_refused_deposit_ends() {
    let (mut flow, _) = start("prompt:review");
    let action = step(&mut flow, FlowEvent::Listed(Err("down".to_string())));
    assert!(matches!(action, FlowAction::Fail(f) if f.0 == "command-palette: herdr agent list failed:\ndown"));

    let (mut flow, _) = start("prompt:review");
    step(&mut flow, FlowEvent::Listed(Ok(r#"{"result":{"agents":[]}}"#.to_string())));
    let action = step(&mut flow, FlowEvent::Listed(Ok(r#"{"result":{"workspaces":[]}}"#.to_string())));
    assert!(matches!(action, FlowAction::Exit));
}
