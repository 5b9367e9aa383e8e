use herdr_palette::open::{exec_failure, origin_from_pane, palette_open_args, pane_current_failure};

const PANE: &str = r#"{"result":{"pane":{"pane_id":"w1:p1","tab_id":"w1:t1","workspace_id":"w1","cwd":"/tmp","foreground_cwd":""}}}"#;

#[test]
fn the_origin_is_read_from_pane_current() {
    let origin = origin_from_pane(Some(PANE), PANE).unwrap();
    assert_eq!(origin.pane_id, "w1:p1");
    assert_eq!(origin.tab_id, "w1:t1");
    assert_eq!(origin.workspace_id, "w1");
    assert_eq!(origin.cwd, "/tmp");
}

#[test]
fn the_foreground_directory_wins_over_the_pane_one() {
    let raw = r#"{"result":{"pane":{"pane_id":"p","tab_id":"t","workspace_id":"w","cwd":"/tmp","foreground_cwd":"/usr"}}}"#;
    assert_eq!(origin_from_pane(Some(raw), raw).unwrap().cwd, "/usr");
}

#[test]
fn a_missing_id_reports_the_whole_output() {
    let raw = "{\"result\":{\"pane\":{\"pane_id\":\"p\"}}}\n\n";
    assert_eq!(
        origin_from_pane(Some(raw), raw).unwrap_err().0,
        "command-palette: could not resolve origin context from: {\"result\":{\"pane\":{\"pane_id\":\"p\"}}}"
    );
    assert!(origin_from_pane(None, "oops").is_err());
}

#[test]
fn the_palette_pane_carries_the_origin_in_its_environment() {
    let origin = origin_from_pane(Some(PANE), PANE).unwrap();
    let args = palette_open_args(&origin);
    assert_eq!(
        args[..16],
        [
            "plugin", "pane", "open", "--plugin", "vjeantet.palette", "--entrypoint", "palette", "--focus",
            "--env", "ORIGIN_PANE_ID=w1:p1", "--env", "ORIGIN_TAB_ID=w1:t1", "--env",
            "ORIGIN_WORKSPACE_ID=w1", "--env", "ORIGIN_CWD=/tmp",
        ]
    );
    assert_eq!(args[16..], ["--cwd", "/tmp"]);
}

#[test]
fn failures_are_worded_for_the_log() {
    assert_eq!(pane_current_failure("boom\n", true).0, "command-palette: pane current failed: boom");
    assert_eq!(pane_current_failure("not found", false).0, "command-palette: pane current failed: not found");
    assert_eq!(exec_failure("denied").0, "command-palette: failed to exec herdr: denied");
}
