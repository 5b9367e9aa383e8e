use herdr_palette::custom::parse;
use herdr_palette::prompt::{Capture, UserPrompt, DEFAULT_TIMEOUT_MS, MAX_TIMEOUT_MS};


fn one(body: &str) -> Result<UserPrompt, String> {
    let mut catalog = parse(&format!("[[prompt]]\n{body}\n"));
    if catalog.prompts.len() == 1 {
        Ok(catalog.prompts.remove(0))
    } else {
        Err(catalog.warning)
    }
}

#[test]
fn a_text_only_entry_is_accepted_with_the_defaults() {
    let prompt = one("id = \"x\"\ntitle = \"X\"\ntext = \"hello\"").unwrap();
    assert_eq!(prompt.text.as_deref(), Some("hello"));
    assert!(prompt.argv.is_empty());
    assert_eq!(prompt.capture, Capture::Stdout);
    assert_eq!(prompt.timeout_ms, DEFAULT_TIMEOUT_MS);
    assert_eq!(prompt.cwd, None);
}

#[test]
fn an_argv_only_entry_is_accepted() {
    let prompt = one("id = \"x\"\ntitle = \"X\"\nargv = [\"git\", \"diff\"]").unwrap();
    assert_eq!(prompt.text, None);
    assert_eq!(prompt.argv, ["git", "diff"]);
}

#[test]
fn capture_and_timeout_travel_as_declared() {
    let prompt = one(
        "id = \"x\"\ntitle = \"X\"\nargv = [\"true\"]\ncapture = \"both\"\ntimeout_ms = 250",
    )
    .unwrap();
    assert_eq!(prompt.capture, Capture::Both);
    assert_eq!(prompt.timeout_ms, 250);
}

#[test]
fn an_entry_with_neither_text_nor_argv_is_rejected() {
    let warning = one("id = \"x\"\ntitle = \"X\"").unwrap_err();
    assert!(warning.ends_with("x (nothing to send)"));
}

#[test]
fn an_empty_text_counts_as_no_text() {
    let warning = one("id = \"x\"\ntitle = \"X\"\ntext = \"\"").unwrap_err();
    assert!(warning.ends_with("x (nothing to send)"));
}

#[test]
fn an_empty_argv_array_counts_as_no_argv() {
    let prompt = one("id = \"x\"\ntitle = \"X\"\ntext = \"t\"\nargv = []").unwrap();
    assert!(prompt.argv.is_empty());
}

#[test]
fn an_argv_whose_first_element_is_empty_is_rejected() {
    let warning = one("id = \"x\"\ntitle = \"X\"\nargv = [\"\", \"diff\"]").unwrap_err();
    assert!(warning.ends_with("x (empty argv[0])"));
}

#[test]
fn an_unknown_capture_is_rejected() {
    let warning =
        one("id = \"x\"\ntitle = \"X\"\ntext = \"t\"\ncapture = \"stderr\"").unwrap_err();
    assert!(warning.ends_with("x (unknown capture)"));
}

#[test]
fn a_zero_timeout_is_rejected() {
    let warning = one("id = \"x\"\ntitle = \"X\"\ntext = \"t\"\ntimeout_ms = 0").unwrap_err();
    assert!(warning.ends_with("x (invalid timeout_ms)"));
}

#[test]
fn a_timeout_above_the_ceiling_is_rejected() {
    let warning =
        one("id = \"x\"\ntitle = \"X\"\ntext = \"t\"\ntimeout_ms = 60001").unwrap_err();
    assert!(warning.ends_with("x (invalid timeout_ms)"));
}

#[test]
fn the_ceiling_itself_is_accepted() {
    let prompt = one("id = \"x\"\ntitle = \"X\"\ntext = \"t\"\ntimeout_ms = 60000").unwrap();
    assert_eq!(prompt.timeout_ms, MAX_TIMEOUT_MS);
}

#[test]
fn prompt_a_relative_cwd_is_rejected() {
    let warning = one("id = \"x\"\ntitle = \"X\"\ntext = \"t\"\ncwd = \"src\"").unwrap_err();
    assert!(warning.ends_with("x (cwd is not absolute)"));
}

#[test]
fn a_cwd_naming_no_directory_is_rejected() {
    let warning = one("id = \"x\"\ntitle = \"X\"\ntext = \"t\"\ncwd = \"/no/such/dir/here\"")
        .unwrap_err();
    assert!(warning.ends_with("x (cwd is not a directory)"));
}

#[test]
fn a_prompt_may_share_an_id_with_a_command() {
    let catalog = parse(
        r#"
[[command]]
id = "x"
title = "Command"
argv = ["true"]

[[prompt]]
id = "x"
title = "Prompt"
text = "t"
"#,
    );
    assert_eq!(catalog.commands.len(), 1);
    assert_eq!(catalog.prompts.len(), 1);
    assert_eq!(catalog.warning, "");
}

#[test]
fn the_second_prompt_sharing_an_id_is_the_one_rejected() {
    let catalog = parse(
        r#"
[[prompt]]
id = "x"
title = "First"
text = "t"

[[prompt]]
id = "x"
title = "Second"
text = "t"
"#,
    );
    assert_eq!(catalog.prompts.len(), 1);
    assert_eq!(catalog.prompts[0].title, "First");
    assert_eq!(
        catalog.warning,
        "warning: 1 user entry skipped: x (duplicate id)"
    );
}

#[test]
fn a_prompt_without_an_id_is_named_by_its_position_in_its_table() {
    let catalog = parse("[[prompt]]\ntitle = \"Nameless\"\ntext = \"t\"\n");
    assert_eq!(
        catalog.warning,
        "warning: 1 user entry skipped: prompt #1 (missing id)"
    );
}

#[test]
fn prompt_unknown_keys_are_tolerated() {
    let prompt = one("id = \"x\"\ntitle = \"X\"\ntext = \"t\"\nfuture_key = 42").unwrap();
    assert_eq!(prompt.id, "x");
}

