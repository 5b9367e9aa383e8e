use herdr_palette::actions::{log_ref_in, rows_from_doc, verdict_in, Verdict};
use herdr_palette::catalog::header_verdict;
use herdr_palette::custom::parse_table;
use herdr_palette::ipc::error_in;
use herdr_palette::json::JsonValue;
use herdr_palette::keys::KeyHints;
use herdr_palette::launch::pane_id_in;
use herdr_palette::open::origin_in;
use herdr_palette::resolve::{agent_rows_in, label_map_in, neighbor_in, workspace_rows_in, Direction, ListKind};
use herdr_palette::runner::argv_checked;
use herdr_palette::toml_doc::TomlValue;
use herdr_palette::ui::tui::rank_matches;

fn s(t: &str) -> JsonValue {
    JsonValue::Str(t.to_string())
}

fn obj(fields: Vec<(&str, JsonValue)>) -> JsonValue {
    JsonValue::Object(fields.into_iter().map(|(k, v)| (k.to_string(), v)).collect())
}

fn result(field: &str, value: JsonValue) -> Option<JsonValue> {
    Some(obj(vec![("result", obj(vec![(field, value)]))]))
}

fn workspaces(ids: &[&str]) -> Option<JsonValue> {
    let items = ids.iter().map(|id| obj(vec![("workspace_id", s(id)), ("label", s(&id.to_uppercase()))])).collect();
    result("workspaces", JsonValue::Array(items))
}

#[test]
fn matches_are_ranked_by_score_then_row_order() {
    let verdicts = vec![Some((5, vec![2, 0, 2])), None, Some((9, vec![1])), Some((5, vec![]))];
    let ranked = rank_matches(&verdicts);
    let rows: Vec<usize> = ranked.iter().map(|f| f.row).collect();
    assert_eq!(rows, vec![2, 0, 3]);
    assert_eq!(ranked[1].indices, vec![0, 2]);
}

#[test]
fn a_parsed_list_gives_the_neighbour() {
    let doc = workspaces(&["w1", "w2", "w3"]);
    assert_eq!(neighbor_in(&doc, &ListKind::Workspaces.spec(), Direction::Previous, "w1").unwrap(), "w3");
    assert!(neighbor_in(&None, &ListKind::Workspaces.spec(), Direction::Next, "w1").is_err());
}

#[test]
fn parsed_workspaces_give_rows_and_labels() {
    let doc = workspaces(&["w1", "w2"]);
    let rows = workspace_rows_in(&doc, "w1").unwrap();
    assert_eq!(rows.len(), 1);
    assert_eq!(rows[0].id, "w2");
    let labels = label_map_in(&doc).unwrap();
    assert_eq!(labels, vec![("w1".to_string(), "W1".to_string()), ("w2".to_string(), "W2".to_string())]);
}

#[test]
fn a_parsed_action_list_gives_plugin_rows() {
    let action = obj(vec![("plugin_id", s("acme")), ("action_id", s("go")), ("title", s("Go"))]);
    let doc = result("actions", JsonValue::Array(vec![action]));
    let rows = rows_from_doc(&doc, "self", "linux", &KeyHints::empty());
    assert_eq!(rows.len(), 1);
    assert_eq!(rows[0].id, "plugin:acme.go");
    assert!(rows_from_doc(&None, "self", "linux", &KeyHints::empty()).is_empty());
}

#[test]
fn a_parsed_invoke_response_names_its_run() {
    let doc = result("log", obj(vec![("log_id", s("l1")), ("plugin_id", s("acme"))]));
    assert_eq!(log_ref_in(&doc), Some(("acme".to_string(), "l1".to_string())));
    assert_eq!(log_ref_in(&None), None);
    let logs = result("logs", JsonValue::Array(vec![obj(vec![("log_id", s("l1")), ("status", s("succeeded"))])]));
    assert!(matches!(verdict_in(&logs, "acme.go", "l1"), Verdict::Succeeded));
    assert!(matches!(verdict_in(&logs, "acme.go", "l2"), Verdict::Pending));
}

#[test]
fn parsed_responses_give_errors_panes_and_origins() {
    let err = Some(obj(vec![("error", obj(vec![("code", s("E1"))]))]));
    assert_eq!(error_in(&err), Some("E1".to_string()));
    let pane = result("plugin_pane", obj(vec![("pane", obj(vec![("pane_id", s("p9"))]))]));
    assert_eq!(pane_id_in(&pane), "p9");
    let current = result(
        "pane",
        obj(vec![("pane_id", s("p1")), ("tab_id", s("t1")), ("workspace_id", s("w1")), ("cwd", s("/tmp"))]),
    );
    let origin = origin_in(&current, "").unwrap();
    assert_eq!((origin.pane_id.as_str(), origin.cwd.as_str()), ("p1", "/tmp"));
    assert!(origin_in(&None, "nothing\n").is_err());
}

#[test]
fn a_parsed_catalog_header_is_checked() {
    let one = obj(vec![("schema_version", JsonValue::Number("1".to_string(), Some(1)))]);
    assert!(header_verdict(Ok(one)).is_ok());
    let two = obj(vec![("schema_version", JsonValue::Number("2".to_string(), Some(2)))]);
    assert_eq!(
        header_verdict(Ok(two)).unwrap_err().0,
        "command-palette: unsupported commands.json schema_version: 2 (expected 1)"
    );
    assert_eq!(
        header_verdict(Err("eof".to_string())).unwrap_err().0,
        "command-palette: commands.json is not valid JSON: eof"
    );
}

#[test]
fn a_parsed_argv_is_checked() {
    assert_eq!(argv_checked(Ok(vec!["ls".to_string()])).unwrap(), vec!["ls".to_string()]);
    assert_eq!(argv_checked(Ok(Vec::new())).unwrap_err().0, "command-palette: PALETTE_RUN_ARGV is empty");
    assert_eq!(
        argv_checked(Err("bad".to_string())).unwrap_err().0,
        "command-palette: invalid PALETTE_RUN_ARGV: bad"
    );
}

#[test]
fn a_parsed_user_file_is_read() {
    let entry = TomlValue::Table(vec![
        ("id".to_string(), TomlValue::Str("lazygit".to_string())),
        ("title".to_string(), TomlValue::Str("Lazygit".to_string())),
        ("argv".to_string(), TomlValue::Array(vec![TomlValue::Str("lazygit".to_string())])),
    ]);
    let catalog = parse_table(Ok(vec![("command".to_string(), TomlValue::Array(vec![entry]))]));
    assert_eq!(catalog.commands.len(), 1);
    assert_eq!(catalog.commands[0].id, "lazygit");
    assert_eq!(catalog.warning, "");
    let broken = parse_table(Err("expected `=`\nat line 1".to_string()));
    assert!(broken.commands.is_empty());
    assert_eq!(broken.warning, "warning: config.toml is not valid TOML: expected `=`");
    let hints = KeyHints::from_table(Err("bad".to_string()));
    assert_eq!(hints.native(Some("new_tab"), Some("prefix+c")), "prefix+c");
}

#[test]
fn next_then_previous_comes_back_to_the_origin() {
    let doc = workspaces(&["w1", "w2", "w3"]);
    let spec = ListKind::Workspaces.spec();
    for origin in ["w1", "w2", "w3"] {
        let next = neighbor_in(&doc, &spec, Direction::Next, origin).unwrap();
        assert_eq!(neighbor_in(&doc, &spec, Direction::Previous, &next).unwrap(), origin);
    }
}

#[test]
fn parsed_lists_give_labelled_agent_rows() {
    let agent = obj(vec![("pane_id", s("p1")), ("workspace_id", s("w1")), ("terminal_title_stripped", s("agent-one"))]);
    let agents = result("agents", JsonValue::Array(vec![agent]));
    let rows = agent_rows_in(&agents, &workspaces(&["w1"])).unwrap();
    assert_eq!(rows.len(), 1);
    assert_eq!(rows[0].id, "p1");
    assert!(rows[0].label.starts_with("W1 / "));
    assert!(agent_rows_in(&agents, &None).is_err());
}
