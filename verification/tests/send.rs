use herdr_palette::origin::Origin;
use herdr_palette::prompt::{Capture, UserPrompt};
use herdr_palette::send::{
    assemble, promote_origin, run_cwd, truncate, warning_for, Captured, Outcome, ORIGIN_SUFFIX, TRUNCATION_MARK,
};
use herdr_palette::ui::Row;


fn prompt(argv: &[&str]) -> UserPrompt {
    UserPrompt {
        id: "x".to_string(),
        title: "X".to_string(),
        text: None,
        argv: argv.iter().map(|s| s.to_string()).collect(),
        capture: Capture::Stdout,
        timeout_ms: 5_000,
        cwd: None,
    }
}

fn row(id: &str, label: &str) -> Row {
    Row {
        id: id.to_string(),
        label: label.to_string(),
        hint: String::new(),
    }
}

#[test]
fn text_and_output_are_joined_by_one_newline() {
    assert_eq!(assemble(Some("Review:"), "diff\n"), "Review:\ndiff");
}

#[test]
fn the_output_loses_only_its_trailing_newlines() {
    assert_eq!(assemble(None, "a\n\nb\n\n"), "a\n\nb");
}

#[test]
fn text_alone_is_sent_as_is() {
    assert_eq!(assemble(Some("hello\n"), ""), "hello\n");
}

#[test]
fn empty_text_and_empty_output_assemble_to_nothing() {
    assert_eq!(assemble(None, "\n"), "");
}

#[test]
fn a_text_within_budget_is_untouched() {
    let (text, truncated) = truncate("abc".to_string(), 10);
    assert_eq!(text, "abc");
    assert!(!truncated);
}

#[test]
fn a_truncated_text_ends_with_the_mark_and_fits_the_budget() {
    let budget = 200;
    let (text, truncated) = truncate("x".repeat(500), budget);
    assert!(truncated);
    assert!(text.ends_with(TRUNCATION_MARK));
    assert!(serde_json::to_string(&text).unwrap().len() - 2 <= budget);
}

// A newline costs two bytes once escaped; the budget is spent on the
// encoding, so 100 newlines do not fit in 150 bytes.
#[test]
fn the_budget_is_measured_on_the_json_encoding() {
    let (text, truncated) = truncate("\n".repeat(100), 150);
    assert!(truncated);
    assert!(serde_json::to_string(&text).unwrap().len() - 2 <= 150);
}

#[test]
fn truncation_never_splits_a_multibyte_character() {
    let (text, _) = truncate("é".repeat(100), 100);
    assert!(text.ends_with(TRUNCATION_MARK));
    assert!(text
        .trim_end_matches(TRUNCATION_MARK)
        .chars()
        .all(|c| c == 'é'));
}

#[test]
fn the_origin_agent_row_moves_to_the_top_and_is_marked() {
    let rows = promote_origin(
        vec![row("w1:p1", "a"), row("w1:p2", "b"), row("w1:p3", "c")],
        "w1:p2",
    );
    let ids: Vec<&str> = rows.iter().map(|row| row.id.as_str()).collect();
    assert_eq!(ids, ["w1:p2", "w1:p1", "w1:p3"]);
    assert_eq!(rows[0].label, format!("b{ORIGIN_SUFFIX}"));
    assert_eq!(rows[1].label, "a");
}

#[test]
fn an_origin_hosting_no_agent_leaves_the_rows_untouched() {
    let rows = promote_origin(vec![row("w1:p1", "a"), row("w1:p2", "b")], "w1:p9");
    let ids: Vec<&str> = rows.iter().map(|row| row.id.as_str()).collect();
    assert_eq!(ids, ["w1:p1", "w1:p2"]);
    assert!(!rows.iter().any(|row| row.label.ends_with(ORIGIN_SUFFIX)));
}

#[test]
fn a_clean_run_with_output_yields_no_warning() {
    let captured = Captured {
        output: "diff".to_string(),
        outcome: Outcome::Exited(Some(0)),
    };
    assert_eq!(warning_for(&prompt(&["git"]), &captured, false), "");
}

#[test]
fn a_nonzero_status_is_a_warning_not_a_failure() {
    let captured = Captured {
        output: "error[E0308]".to_string(),
        outcome: Outcome::Exited(Some(101)),
    };
    assert_eq!(
        warning_for(&prompt(&["cargo", "test"]), &captured, false),
        "warning: cargo exited with status 101"
    );
}

#[test]
fn no_output_is_reported_ahead_of_the_exit_status() {
    let captured = Captured {
        output: String::new(),
        outcome: Outcome::Exited(Some(1)),
    };
    assert_eq!(
        warning_for(&prompt(&["git"]), &captured, false),
        "warning: git produced no output"
    );
}

#[test]
fn truncation_is_reported_ahead_of_the_exit_status() {
    let captured = Captured {
        output: "x".to_string(),
        outcome: Outcome::Exited(Some(1)),
    };
    assert_eq!(
        warning_for(&prompt(&["git"]), &captured, true),
        "warning: output truncated to fit herdr's 1 MB limit"
    );
}

#[test]
fn a_timeout_names_the_program_and_the_limit() {
    let captured = Captured {
        output: String::new(),
        outcome: Outcome::TimedOut,
    };
    assert_eq!(
        warning_for(&prompt(&["sleep"]), &captured, false),
        "warning: sleep timed out after 5000 ms, its output was dropped"
    );
}

#[test]
fn a_declared_cwd_wins_over_the_origin_one() {
    let mut entry = prompt(&["true"]);
    entry.cwd = Some("/".to_string());
    let origin = Origin {
        pane_id: "w1:p1".to_string(),
        tab_id: "w1:t1".to_string(),
        workspace_id: "w1".to_string(),
        cwd: "/usr".to_string(),
    };
    assert_eq!(run_cwd(&entry, &origin).as_deref(), Some("/"));
    entry.cwd = None;
    assert_eq!(run_cwd(&entry, &origin).as_deref(), Some("/usr"));
}

