use herdr_palette::catalog::{Catalog, CommandEntry};
use herdr_palette::custom::{Placement, UserCommand};
use herdr_palette::prompt::{Capture, UserPrompt};
use herdr_palette::rows::{prompt_rows, user_rows};
use herdr_palette::flow::{
    command_pair, confirm_screen, confirmed, exec_argv, exec_failure, find_command, lead_with, main_screen,
    protocol_header, recent_id, recent_text, route, Route,
};
use herdr_palette::ui::tui::{filter_rows, pick_key, pick_outcome, Fuzzy, KeyCode, KeyPress, PickState};
use herdr_palette::ui::{PickOutcome, Row};

fn entry(id: &str, command: &[&str], confirm: Option<&str>) -> CommandEntry {
    CommandEntry {
        id: id.to_string(),
        title: id.to_uppercase(),
        description: None,
        command: command.iter().map(|s| s.to_string()).collect(),
        arguments: Vec::new(),
        confirm: confirm.map(str::to_string),
        keys_action: None,
        key: None,
    }
}

fn row(id: &str) -> Row {
    Row { id: id.to_string(), label: id.to_string(), hint: String::new() }
}

#[test]
fn a_matching_protocol_yields_no_warning() {
    assert_eq!(protocol_header(Some(20), Some("20")), "");
}

#[test]
fn a_protocol_mismatch_names_both_sides() {
    assert_eq!(
        protocol_header(Some(20), Some("19")),
        "warning: catalog expects herdr protocol 20, herdr reports 19"
    );
}

#[test]
fn a_catalog_without_expectation_expects_null() {
    assert_eq!(
        protocol_header(None, Some("19")),
        "warning: catalog expects herdr protocol null, herdr reports 19"
    );
}

#[test]
fn an_unreadable_protocol_is_a_warning() {
    let expected = "warning: could not read protocol from herdr api schema";
    assert_eq!(protocol_header(Some(20), None), expected);
    assert_eq!(protocol_header(Some(20), Some("")), expected);
}

#[test]
fn the_user_warning_leads_the_main_header() {
    let screen = main_screen("warning: 1 user command skipped: x (missing argv)", "warning: other", vec![row("a")]);
    assert_eq!(screen.header, "warning: 1 user command skipped: x (missing argv)");
    assert!(screen.warning);
    assert_eq!(screen.prompt, "herdr > ");
    let quiet = main_screen("", "", vec![]);
    assert_eq!(quiet.header, "");
    assert!(!quiet.warning);
    let protocol = main_screen("", "warning: p", vec![]);
    assert_eq!(protocol.header, "warning: p");
    assert!(protocol.warning);
}

#[test]
fn rows_are_routed_by_their_namespace() {
    assert!(matches!(route("plugin:jt.command-palette.open"), Route::Plugin(q) if q == "jt.command-palette.open"));
    assert!(matches!(route("user:lazygit"), Route::User(id) if id == "lazygit"));
    assert!(matches!(route("prompt:review"), Route::Prompt(id) if id == "review"));
    assert!(matches!(route("workspace.switch"), Route::Catalog(id) if id == "workspace.switch"));
    assert!(matches!(route("plugin"), Route::Catalog(id) if id == "plugin"));
}

#[test]
fn the_first_command_with_the_id_is_found() {
    let catalog = Catalog {
        schema_version: 1,
        expected_herdr_protocol: None,
        commands: vec![entry("a", &["tab", "new"], None), entry("b", &["tab", "close"], None)],
    };
    assert_eq!(find_command(&catalog, "b").unwrap(), 1);
    assert_eq!(
        find_command(&catalog, "z").unwrap_err().0,
        "command-palette: internal error: selected command not found in catalog"
    );
}

#[test]
fn a_command_must_be_a_group_and_a_subcommand() {
    let (g, s) = command_pair(&entry("a", &["tab", "new"], None)).unwrap();
    assert_eq!((g.as_str(), s.as_str()), ("tab", "new"));
    assert_eq!(
        command_pair(&entry("bad", &["tab"], None)).unwrap_err().0,
        "command-palette: invalid command entry bad: expected [group, subcommand]"
    );
}

#[test]
fn a_confirmation_offers_no_first() {
    let screen = confirm_screen(&entry("c", &["tab", "close"], Some("Close the tab?"))).unwrap();
    assert_eq!(screen.header, "Close the tab?");
    assert_eq!(screen.prompt, "confirm > ");
    let ids: Vec<&str> = screen.rows.iter().map(|r| r.id.as_str()).collect();
    assert_eq!(ids, ["No", "Yes"]);
    assert!(confirm_screen(&entry("c", &["tab", "close"], Some(""))).is_none());
    assert!(confirm_screen(&entry("c", &["tab", "close"], None)).is_none());
}

#[test]
fn only_yes_confirms() {
    assert!(confirmed(&PickOutcome::Selected("Yes".to_string())));
    assert!(!confirmed(&PickOutcome::Selected("No".to_string())));
    assert!(!confirmed(&PickOutcome::Cancelled));
}

#[test]
fn the_herdr_argv_is_group_subcommand_then_arguments() {
    let argv = exec_argv("tab", "rename", &vec!["w1:t1".to_string(), "new name".to_string()]);
    assert_eq!(argv, ["tab", "rename", "w1:t1", "new name"]);
    assert_eq!(
        exec_failure("tab", "rename", "boom").0,
        "command-palette: herdr tab rename failed:\nboom"
    );
}

#[test]
fn the_row_picked_last_time_leads() {
    let rows = lead_with(vec![row("a"), row("b"), row("c")], "c");
    let ids: Vec<&str> = rows.iter().map(|r| r.id.as_str()).collect();
    assert_eq!(ids, ["c", "a", "b"]);
    let rows = lead_with(vec![row("a"), row("b")], "gone");
    let ids: Vec<&str> = rows.iter().map(|r| r.id.as_str()).collect();
    assert_eq!(ids, ["a", "b"]);
}

#[test]
fn the_state_file_holds_one_trimmed_id() {
    assert_eq!(recent_id("user:lazygit\n").as_deref(), Some("user:lazygit"));
    assert_eq!(recent_id("  \n"), None);
    assert_eq!(recent_text("tab.new"), "tab.new\n");
}

#[test]
fn the_row_picked_last_is_read_back_as_saved() {
    for id in ["tab.new", "user:lazygit", "plugin:a.b", "prompt:ask"] {
        assert_eq!(recent_id(&recent_text(id)).as_deref(), Some(id));
    }
}

#[test]
fn a_reflexive_enter_on_a_confirmation_declines() {
    let screen = confirm_screen(&entry("c", &["tab", "close"], Some("Close the tab?"))).unwrap();
    let filtered = filter_rows(&mut Fuzzy::new(), &screen, "");
    let mut state = PickState { query: Vec::new(), selected: 0 };
    let step = pick_key(&mut state, KeyPress { code: KeyCode::Enter, ctrl: false }, filtered.len());
    let outcome = pick_outcome(&screen, &filtered, step).unwrap();
    assert!(matches!(&outcome, PickOutcome::Selected(id) if id == "No"));
    assert!(!confirmed(&outcome));
}

#[test]
fn moving_down_then_enter_confirms() {
    let screen = confirm_screen(&entry("c", &["tab", "close"], Some("Close the tab?"))).unwrap();
    let filtered = filter_rows(&mut Fuzzy::new(), &screen, "");
    let mut state = PickState { query: Vec::new(), selected: 0 };
    let down = pick_key(&mut state, KeyPress { code: KeyCode::Down, ctrl: false }, filtered.len());
    assert!(pick_outcome(&screen, &filtered, down).is_none());
    let step = pick_key(&mut state, KeyPress { code: KeyCode::Enter, ctrl: false }, filtered.len());
    let outcome = pick_outcome(&screen, &filtered, step).unwrap();
    assert!(confirmed(&outcome));
}

#[test]
fn escape_on_a_confirmation_cancels() {
    let screen = confirm_screen(&entry("c", &["tab", "close"], Some("Close the tab?"))).unwrap();
    let filtered = filter_rows(&mut Fuzzy::new(), &screen, "");
    let mut state = PickState { query: Vec::new(), selected: 1 };
    let step = pick_key(&mut state, KeyPress { code: KeyCode::Esc, ctrl: false }, filtered.len());
    let outcome = pick_outcome(&screen, &filtered, step).unwrap();
    assert!(matches!(outcome, PickOutcome::Cancelled));
    assert!(!confirmed(&outcome));
}

#[test]
fn a_built_row_routes_back_to_its_entry() {
    let commands = vec![UserCommand {
        id: "user:odd".to_string(),
        title: "Odd".to_string(),
        argv: vec!["true".to_string()],
        placement: Placement::Split,
        hold: false,
        cwd: None,
        input: None,
    }];
    let rows = user_rows(&commands);
    assert!(matches!(route(&rows[0].id), Route::User(id) if id == "user:odd"));
    let prompts = vec![UserPrompt {
        id: "plugin:x".to_string(),
        title: "P".to_string(),
        text: Some("t".to_string()),
        argv: Vec::new(),
        capture: Capture::Stdout,
        timeout_ms: 5_000,
        cwd: None,
    }];
    let rows = prompt_rows(&prompts);
    assert!(matches!(route(&rows[0].id), Route::Prompt(id) if id == "plugin:x"));
}
