use herdr_palette::actions::{
    dispatch_start, dispatch_step, notification_args, verdict_of, CallOutcome, Dispatch, DispatchAction, Verdict,
    POLL_TURNS,
};

fn ran(stdout: &str) -> CallOutcome {
    CallOutcome::Ran { success: true, stdout: Some(stdout.to_string()), merged: stdout.to_string() }
}

fn argv(action: &DispatchAction) -> Vec<String> {
    match action {
        DispatchAction::Call { argv, .. } => argv.clone(),
        DispatchAction::Finish { .. } => Vec::new(),
    }
}

fn finished(action: DispatchAction) -> Option<Result<(), String>> {
    match action {
        DispatchAction::Finish { result, .. } => Some(result.map_err(|f| f.0)),
        DispatchAction::Call { .. } => None,
    }
}

const ACCEPTED: &str = r#"{"result":{"log":{"log_id":"L1","plugin_id":"jt.command-palette"}}}"#;

#[test]
fn a_dispatch_starts_with_the_invoke() {
    let (_, action) = dispatch_start("jt.command-palette.open");
    assert_eq!(argv(&action), ["plugin", "action", "invoke", "jt.command-palette.open"]);
}

#[test]
fn a_refused_invoke_is_reported() {
    let (mut state, _) = dispatch_start("q");
    let action = dispatch_step("q", &mut state, CallOutcome::Ran { success: false, stdout: None, merged: "no such action".to_string() });
    assert_eq!(finished(action), Some(Err("command-palette: failed to invoke q\nno such action".to_string())));
    let (mut state, _) = dispatch_start("q");
    let action = dispatch_step("q", &mut state, CallOutcome::NotRun("not found".to_string()));
    assert_eq!(finished(action), Some(Err("command-palette: failed to invoke q\nnot found".to_string())));
}

#[test]
fn an_accepted_invoke_without_a_log_is_fine() {
    let (mut state, _) = dispatch_start("q");
    let action = dispatch_step("q", &mut state, ran(r#"{"result":{}}"#));
    assert_eq!(finished(action), Some(Ok(())));
}

#[test]
fn the_run_is_followed_through_its_log() {
    let (mut state, _) = dispatch_start("q");
    let action = dispatch_step("q", &mut state, ran(ACCEPTED));
    assert_eq!(argv(&action), ["plugin", "log", "list", "--plugin", "jt.command-palette", "--limit", "20"]);
    let failed = r#"{"result":{"logs":[{"log_id":"L0","status":"failed"},{"log_id":"L1","status":"failed","exit_code":127,"stderr":"not found"}]}}"#;
    let action = dispatch_step("q", &mut state, ran(failed));
    assert_eq!(finished(action), Some(Err("command-palette: q failed (exit 127)\nnot found".to_string())));
    assert!(matches!(state, Dispatch::Done));
}

#[test]
fn a_run_still_going_after_the_last_poll_is_fine() {
    let (mut state, _) = dispatch_start("q");
    let _ = dispatch_step("q", &mut state, ran(ACCEPTED));
    let running = r#"{"result":{"logs":[{"log_id":"L1","status":"running"}]}}"#;
    let mut polls = 1;
    loop {
        let action = dispatch_step("q", &mut state, ran(running));
        match action {
            DispatchAction::Call { wait, .. } => {
                assert!(wait);
                polls += 1;
            }
            DispatchAction::Finish { result, wait } => {
                assert!(wait);
                assert!(result.is_ok());
                break;
            }
        }
    }
    assert_eq!(polls, POLL_TURNS);
}

#[test]
fn a_log_entry_is_read_by_its_id() {
    let logs = r#"{"result":{"logs":[{"log_id":"L1","status":"succeeded"}]}}"#;
    assert!(matches!(verdict_of(logs, "q", "L1"), Verdict::Succeeded));
    assert!(matches!(verdict_of(logs, "q", "L2"), Verdict::Pending));
    let coded = r#"{"result":{"logs":[{"log_id":"L1","status":"failed","exit_code":"E"}]}}"#;
    assert!(matches!(verdict_of(coded, "q", "L1"), Verdict::Failed(m) if m == "command-palette: q failed (exit E)\n"));
    let unknown = r#"{"result":{"logs":[{"log_id":"L1","status":"failed"}]}}"#;
    assert!(matches!(verdict_of(unknown, "q", "L1"), Verdict::Failed(m) if m == "command-palette: q failed (exit ?)\n"));
}

#[test]
fn a_failure_notification_has_a_title_and_a_body() {
    assert_eq!(
        notification_args("command-palette: q failed (exit 1)\n  boom \n"),
        ["notification", "show", "command-palette: q failed (exit 1)", "--body", "boom"]
    );
    assert_eq!(notification_args("just a title"), ["notification", "show", "just a title"]);
    assert_eq!(notification_args(""), ["notification", "show", "command-palette: plugin action failed"]);
}

#[test]
fn a_run_that_never_finishes_is_given_up_after_the_last_poll() {
    let (mut state, mut action) = dispatch_start("acme.go");
    let mut calls = 0;
    let invoked = r#"{"result":{"log":{"log_id":"l1","plugin_id":"acme"}}}"#;
    loop {
        match action {
            DispatchAction::Call { .. } => {
                calls += 1;
                let stdout = if calls == 1 { invoked } else { r#"{"result":{"logs":[]}}"# };
                let outcome = CallOutcome::Ran { success: true, stdout: Some(stdout.to_string()), merged: String::new() };
                action = dispatch_step("acme.go", &mut state, outcome);
            }
            DispatchAction::Finish { result, .. } => {
                assert!(result.is_ok());
                break;
            }
        }
    }
    assert_eq!(calls, 26);
}
