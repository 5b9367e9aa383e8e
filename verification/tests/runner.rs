use herdr_palette::runner::{argv_from, exit_status, note_line, run_outcome, waits_for_key};

#[test]
fn the_argv_is_read_as_a_json_array() {
    assert_eq!(argv_from(Some(r#"["git","commit","-m","a b"]"#)).unwrap(), ["git", "commit", "-m", "a b"]);
}

#[test]
fn a_missing_or_empty_argv_is_refused() {
    assert_eq!(argv_from(None).unwrap_err().0, "command-palette: PALETTE_RUN_ARGV is not set");
    assert_eq!(argv_from(Some("[]")).unwrap_err().0, "command-palette: PALETTE_RUN_ARGV is empty");
    assert_eq!(argv_from(Some(r#"["", "x"]"#)).unwrap_err().0, "command-palette: PALETTE_RUN_ARGV is empty");
    assert!(argv_from(Some("[1]"))
        .unwrap_err()
        .0
        .starts_with("command-palette: invalid PALETTE_RUN_ARGV: "));
}

#[test]
fn how_a_run_ended_is_reported() {
    assert_eq!(run_outcome("true", Ok(Some(0))), (0, None));
    assert_eq!(run_outcome("false", Ok(Some(1))), (1, Some("exited with status 1".to_string())));
    assert_eq!(run_outcome("x", Ok(None)), (1, Some("exited with status 1".to_string())));
    assert_eq!(
        run_outcome("nope", Err("No such file or directory".to_string())),
        (127, Some("cannot run nope: No such file or directory".to_string()))
    );
    assert_eq!(note_line("make", "exited with status 2"), "\r\n[make] exited with status 2");
}

#[test]
fn the_exit_status_is_the_code_when_it_fits_a_byte() {
    assert_eq!(exit_status(0), 0);
    assert_eq!(exit_status(127), 127);
    assert_eq!(exit_status(300), 1);
    assert_eq!(exit_status(-1), 1);
}

#[test]
fn the_pane_waits_after_a_note_or_when_held() {
    assert!(waits_for_key(true, None));
    assert!(waits_for_key(false, Some("1")));
    assert!(!waits_for_key(false, Some("yes")));
    assert!(!waits_for_key(false, None));
}

#[test]
fn the_argv_written_for_the_pane_is_the_argv_read_back() {
    let argv: Vec<String> = vec![
        "nvim".to_string(),
        "a file with spaces".to_string(),
        "quote \" and backslash \\".to_string(),
        "line\nbreak\tand \u{1} control".to_string(),
        "ünïcødé ✓".to_string(),
        String::new(),
    ];
    let json = herdr_palette::launch::argv_json(&argv);
    assert_eq!(argv_from(Some(&json)).unwrap(), argv);
}
