use herdr_palette::custom::{Placement, UserCommand};
use herdr_palette::prompt::{Capture, UserPrompt};
use herdr_palette::rows::{picker_rows, prompt_rows, user_rows};
use herdr_palette::ui::Row;


fn prompt(id: &str, title: &str) -> UserPrompt {
    UserPrompt {
        id: id.to_string(),
        title: title.to_string(),
        text: Some("t".to_string()),
        argv: Vec::new(),
        capture: Capture::Stdout,
        timeout_ms: 5_000,
        cwd: None,
    }
}

fn command(id: &str, title: &str) -> UserCommand {
    UserCommand {
        id: id.to_string(),
        title: title.to_string(),
        argv: vec!["true".to_string()],
        placement: Placement::Split,
        hold: false,
        cwd: None,
        input: None,
    }
}

#[test]
fn a_user_row_is_keyed_in_its_own_namespace() {
    let rows = user_rows(&[command("lazygit", "Lazygit")]);
    assert_eq!(rows[0].id, "user:lazygit");
}

#[test]
fn a_user_row_label_is_prefixed_and_carries_no_hint() {
    let rows = user_rows(&[command("lazygit", "Lazygit")]);
    assert_eq!(rows[0].label, "User: Lazygit");
    assert_eq!(rows[0].hint, "");
}

#[test]
fn user_rows_keep_the_order_of_the_user_file() {
    let rows = user_rows(&[command("b", "Beta"), command("a", "Alpha")]);
    let ids: Vec<&str> = rows.iter().map(|row| row.id.as_str()).collect();
    assert_eq!(ids, ["user:b", "user:a"]);
}

#[test]
fn a_prompt_row_is_keyed_in_its_own_namespace() {
    let rows = prompt_rows(&[prompt("review", "Review the diff")]);
    assert_eq!(rows[0].id, "prompt:review");
}

#[test]
fn a_prompt_row_label_is_prefixed_and_carries_no_hint() {
    let rows = prompt_rows(&[prompt("review", "Review the diff")]);
    assert_eq!(rows[0].label, "Prompt: Review the diff");
    assert_eq!(rows[0].hint, "");
}

#[test]
fn prompt_rows_keep_the_order_of_the_user_file() {
    let rows = prompt_rows(&[prompt("b", "Beta"), prompt("a", "Alpha")]);
    let ids: Vec<&str> = rows.iter().map(|row| row.id.as_str()).collect();
    assert_eq!(ids, ["prompt:b", "prompt:a"]);
}


fn row(id: &str) -> Row {
    Row { id: id.to_string(), label: id.to_uppercase(), hint: String::new() }
}

fn ids(rows: &[Row]) -> Vec<String> {
    rows.iter().map(|r| r.id.clone()).collect()
}

#[test]
fn user_entries_only_add_rows_in_front() {
    let with_user = picker_rows(
        user_rows(&[command("lazygit", "Lazygit")]),
        prompt_rows(&[prompt("ask", "Ask")]),
        vec![row("tab.new"), row("tab.close")],
        vec![row("plugin:a.b")],
    );
    let without = picker_rows(Vec::new(), Vec::new(), vec![row("tab.new"), row("tab.close")], vec![row("plugin:a.b")]);
    assert_eq!(ids(&with_user), vec!["user:lazygit", "prompt:ask", "tab.new", "tab.close", "plugin:a.b"]);
    assert_eq!(ids(&with_user[2..]), ids(&without));
}
