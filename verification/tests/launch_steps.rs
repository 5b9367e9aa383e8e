use herdr_palette::custom::{InputSpec, Placement, UserCommand};
use herdr_palette::launch::{
    argv_json, launch_step, open_failure, pane_id_of, plugin_id_from, rename_args, LaunchStep,
};
use herdr_palette::ui::InputOutcome;

fn command(input: Option<(&str, bool)>) -> UserCommand {
    UserCommand {
        id: "x".to_string(),
        title: "Edit".to_string(),
        argv: vec!["nvim".to_string()],
        placement: Placement::Split,
        hold: false,
        cwd: None,
        input: input.map(|(prompt, required)| InputSpec { prompt: prompt.to_string(), required }),
    }
}

fn opened(step: LaunchStep) -> Option<Vec<String>> {
    match step {
        LaunchStep::Open(argv) => Some(argv),
        _ => None,
    }
}

#[test]
fn an_entry_without_input_opens_at_once() {
    assert_eq!(opened(launch_step(&command(None), None)).unwrap(), ["nvim"]);
}

#[test]
fn an_input_is_asked_for_first() {
    match launch_step(&command(Some(("File", true))), None) {
        LaunchStep::Input(screen) => {
            assert_eq!(screen.header, "Edit");
            assert_eq!(screen.prompt, "File > ");
            assert_eq!(screen.initial, "");
        }
        _ => panic!("expected the input screen"),
    }
}

#[test]
fn the_value_is_one_more_argv_element() {
    let step = launch_step(&command(Some(("File", true))), Some(InputOutcome::Submitted("a b.txt".to_string())));
    assert_eq!(opened(step).unwrap(), ["nvim", "a b.txt"]);
}

#[test]
fn an_empty_value_cancels_a_required_input_and_adds_nothing_otherwise() {
    let required = launch_step(&command(Some(("File", true))), Some(InputOutcome::Submitted(String::new())));
    assert!(matches!(required, LaunchStep::Cancelled));
    let optional = launch_step(&command(Some(("File", false))), Some(InputOutcome::Submitted(String::new())));
    assert_eq!(opened(optional).unwrap(), ["nvim"]);
    let escaped = launch_step(&command(Some(("File", false))), Some(InputOutcome::Cancelled));
    assert!(matches!(escaped, LaunchStep::Cancelled));
}

#[test]
fn the_argv_is_encoded_as_a_json_array() {
    assert_eq!(argv_json(&vec!["echo".to_string(), "a \"b\"\n".to_string()]), "[\"echo\",\"a \\\"b\\\"\\n\"]");
}

#[test]
fn the_opened_pane_id_is_read_from_the_reply() {
    assert_eq!(
        pane_id_of(Some(r#"{"result":{"plugin_pane":{"pane":{"pane_id":"w1:p7"}}}}"#)),
        "w1:p7"
    );
    assert_eq!(pane_id_of(Some("not json")), "");
    assert_eq!(pane_id_of(None), "");
}

#[test]
fn the_pane_is_renamed_only_when_its_id_is_known() {
    assert_eq!(rename_args("w1:p7", "Edit").unwrap(), ["pane", "rename", "w1:p7", "Edit"]);
    assert!(rename_args("", "Edit").is_none());
}

#[test]
fn the_plugin_id_falls_back_to_the_palette() {
    assert_eq!(plugin_id_from(Some("me.palette")), "me.palette");
    assert_eq!(plugin_id_from(Some("")), "vjeantet.palette");
    assert_eq!(plugin_id_from(None), "vjeantet.palette");
}

#[test]
fn a_failed_launch_names_the_entry_not_the_argv() {
    assert_eq!(open_failure("Edit", "invalid_params").0, "command-palette: cannot run Edit:\ninvalid_params");
}
