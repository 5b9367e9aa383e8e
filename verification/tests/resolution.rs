use herdr_palette::catalog::{ArgSpec, CommandEntry, ContextKey, Selector, StaticContextKey, Validation};
use herdr_palette::origin::Origin;
use herdr_palette::resolve::{agent_rows, resolve_step, sanitize_label, Answer, Need, Resolution, Resolving};
use herdr_palette::ui::{InputOutcome, PickOutcome};

fn origin() -> Origin {
    Origin {
        pane_id: "w1:p1".to_string(),
        tab_id: "w1:t2".to_string(),
        workspace_id: "w1".to_string(),
        cwd: "/".to_string(),
    }
}

fn entry(arguments: Vec<ArgSpec>) -> CommandEntry {
    CommandEntry {
        id: "x".to_string(),
        title: "X".to_string(),
        description: Some("Do X".to_string()),
        command: vec!["tab".to_string(), "rename".to_string()],
        arguments,
        confirm: None,
        keys_action: None,
        key: None,
    }
}

#[test]
fn literals_and_static_context_resolve_without_asking() {
    let e = entry(vec![
        ArgSpec::Literal { value: "--flag".to_string() },
        ArgSpec::Context { key: ContextKey::TabId },
        ArgSpec::Context { key: ContextKey::Cwd },
    ]);
    let mut state = Resolving::new();
    match resolve_step(&e, &origin(), &mut state, Answer::Begin) {
        Need::Finished(Resolution::Args(args)) => assert_eq!(args, ["--flag", "w1:t2", "/"]),
        _ => panic!("expected the arguments"),
    }
}

#[test]
fn a_missing_origin_directory_is_fatal() {
    let e = entry(vec![ArgSpec::Context { key: ContextKey::Cwd }]);
    let mut o = origin();
    o.cwd = "/no/such/directory/here".to_string();
    let mut state = Resolving::new();
    match resolve_step(&e, &o, &mut state, Answer::Begin) {
        Need::Failed(f) => assert_eq!(f.0, "command-palette: origin working directory is unavailable or missing"),
        _ => panic!("expected a failure"),
    }
}

#[test]
fn an_input_asks_then_takes_the_typed_value() {
    let e = entry(vec![ArgSpec::Input {
        prompt: "Name > ".to_string(),
        required: true,
        default_context: Some(StaticContextKey::WorkspaceId),
        validation: None,
        description: None,
    }]);
    let mut state = Resolving::new();
    match resolve_step(&e, &origin(), &mut state, Answer::Begin) {
        Need::Input(screen) => {
            assert_eq!(screen.header, "Do X");
            assert_eq!(screen.prompt, "Name > ");
            assert_eq!(screen.initial, "w1");
        }
        _ => panic!("expected the input screen"),
    }
    match resolve_step(&e, &origin(), &mut state, Answer::Entered(InputOutcome::Submitted("new".to_string()))) {
        Need::Finished(Resolution::Args(args)) => assert_eq!(args, ["new"]),
        _ => panic!("expected the arguments"),
    }
}

#[test]
fn a_required_input_left_empty_cancels() {
    let e = entry(vec![ArgSpec::Input {
        prompt: "Name > ".to_string(),
        required: true,
        default_context: None,
        validation: None,
        description: None,
    }]);
    let mut state = Resolving::new();
    let _ = resolve_step(&e, &origin(), &mut state, Answer::Begin);
    let need = resolve_step(&e, &origin(), &mut state, Answer::Entered(InputOutcome::Submitted(String::new())));
    assert!(matches!(need, Need::Finished(Resolution::Cancelled)));
}

#[test]
fn a_directory_input_must_name_one() {
    let e = entry(vec![ArgSpec::Input {
        prompt: "Dir > ".to_string(),
        required: false,
        default_context: None,
        validation: Some(Validation::Directory),
        description: None,
    }]);
    let mut state = Resolving::new();
    let _ = resolve_step(&e, &origin(), &mut state, Answer::Begin);
    match resolve_step(&e, &origin(), &mut state, Answer::Entered(InputOutcome::Submitted("/no/such/dir".to_string()))) {
        Need::Failed(f) => assert_eq!(f.0, "command-palette: input is not an existing directory"),
        _ => panic!("expected a failure"),
    }
}

#[test]
fn a_computed_key_lists_then_wraps_around() {
    let e = entry(vec![ArgSpec::Context { key: ContextKey::PreviousWorkspaceId }]);
    let mut state = Resolving::new();
    match resolve_step(&e, &origin(), &mut state, Answer::Begin) {
        Need::List { argv, desc } => {
            assert_eq!(argv, ["workspace", "list"]);
            assert_eq!(desc, "workspace list");
        }
        _ => panic!("expected a list call"),
    }
    let listed = r#"{"result":{"workspaces":[{"workspace_id":"w1"},{"workspace_id":"w2"},{"workspace_id":"w3"}]}}"#;
    match resolve_step(&e, &origin(), &mut state, Answer::Listed(Ok(listed.to_string()))) {
        Need::Finished(Resolution::Args(args)) => assert_eq!(args, ["w3"]),
        _ => panic!("expected the arguments"),
    }
}

#[test]
fn a_failed_list_call_is_fatal() {
    let e = entry(vec![ArgSpec::Context { key: ContextKey::NextTabId }]);
    let mut state = Resolving::new();
    match resolve_step(&e, &origin(), &mut state, Answer::Begin) {
        Need::List { argv, .. } => assert_eq!(argv, ["tab", "list", "--workspace", "w1"]),
        _ => panic!("expected a list call"),
    }
    match resolve_step(&e, &origin(), &mut state, Answer::Listed(Err("socket gone".to_string()))) {
        Need::Failed(f) => assert_eq!(f.0, "command-palette: herdr tab list failed:\nsocket gone"),
        _ => panic!("expected a failure"),
    }
}

#[test]
fn a_selector_lists_excludes_then_picks() {
    let e = entry(vec![ArgSpec::Select {
        selector: Selector::Workspaces,
        prompt: "Workspace > ".to_string(),
        exclude_context: Some(StaticContextKey::WorkspaceId),
        description: Some(String::new()),
    }]);
    let mut state = Resolving::new();
    assert!(matches!(resolve_step(&e, &origin(), &mut state, Answer::Begin), Need::List { .. }));
    let listed = r#"{"result":{"workspaces":[{"workspace_id":"w1","label":"one"},{"workspace_id":"w2","label":"two"}]}}"#;
    match resolve_step(&e, &origin(), &mut state, Answer::Listed(Ok(listed.to_string()))) {
        Need::Pick(screen) => {
            assert_eq!(screen.header, "Do X");
            let labels: Vec<&str> = screen.rows.iter().map(|r| r.label.as_str()).collect();
            assert_eq!(labels, ["two (w2)"]);
        }
        _ => panic!("expected the pick screen"),
    }
    match resolve_step(&e, &origin(), &mut state, Answer::Picked(PickOutcome::Selected("w2".to_string()))) {
        Need::Finished(Resolution::Args(args)) => assert_eq!(args, ["w2"]),
        _ => panic!("expected the arguments"),
    }
}

#[test]
fn a_selector_with_nothing_to_offer_cancels() {
    let e = entry(vec![ArgSpec::Select {
        selector: Selector::Workspaces,
        prompt: "Workspace > ".to_string(),
        exclude_context: Some(StaticContextKey::WorkspaceId),
        description: None,
    }]);
    let mut state = Resolving::new();
    let _ = resolve_step(&e, &origin(), &mut state, Answer::Begin);
    let listed = r#"{"result":{"workspaces":[{"workspace_id":"w1","label":"one"}]}}"#;
    let need = resolve_step(&e, &origin(), &mut state, Answer::Listed(Ok(listed.to_string())));
    assert!(matches!(need, Need::Finished(Resolution::Cancelled)));
}

#[test]
fn agent_rows_are_prefixed_with_their_workspace() {
    let agents = Ok(r#"{"result":{"agents":[{"pane_id":"w1:p9","workspace_id":"w1","terminal_title_stripped":"vim"}]}}"#.to_string());
    let ws = Ok(r#"{"result":{"workspaces":[{"workspace_id":"w1","label":"one"}]}}"#.to_string());
    let rows = agent_rows(&agents, &ws).unwrap();
    assert_eq!(rows[0].label, "one / agent: vim (w1:p9)");
    assert_eq!(
        agent_rows(&Err("down".to_string()), &ws).unwrap_err().0,
        "command-palette: herdr agent list failed:\ndown"
    );
}

#[test]
fn labels_lose_their_line_breaks_and_tabs() {
    assert_eq!(sanitize_label("a\nb\r\tc"), "a b  c");
}
