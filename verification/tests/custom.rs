use herdr_palette::custom::{parse, Placement, UserCatalog};


const SAMPLE: &str = r#"
[[command]]
id = "lazygit"
title = "Lazygit"
argv = ["lazygit"]
placement = "zoomed"

[[command]]
id = "test"
title = "Cargo test"
argv = ["cargo", "test"]
hold = true

[[command]]
id = "edit"
title = "Edit a file"
argv = ["nvim"]
input = { prompt = "File", required = true }
"#;

#[test]
fn every_valid_entry_is_loaded_in_file_order() {
    let catalog = parse(SAMPLE);
    let ids: Vec<&str> = catalog
        .commands
        .iter()
        .map(|command| command.id.as_str())
        .collect();
    assert_eq!(ids, ["lazygit", "test", "edit"]);
    assert_eq!(catalog.warning, "");
}

#[test]
fn placement_defaults_to_split_and_hold_to_false() {
    let catalog = parse(SAMPLE);
    assert_eq!(catalog.commands[1].placement, Placement::Split);
    assert!(catalog.commands[1].hold);
    assert!(!catalog.commands[0].hold);
    assert_eq!(catalog.commands[0].placement, Placement::Zoomed);
}

#[test]
fn an_input_carries_its_prompt_and_requiredness() {
    let catalog = parse(SAMPLE);
    let input = catalog.commands[2].input.as_ref().unwrap();
    assert_eq!(input.prompt, "File");
    assert!(input.required);
}

#[test]
fn an_input_is_optional_unless_declared_required() {
    let catalog = parse(
        r#"[[command]]
id = "x"
title = "X"
argv = ["true"]
input = { prompt = "Value" }"#,
    );
    assert!(!catalog.commands[0].input.as_ref().unwrap().required);
}

#[test]
fn custom_unknown_keys_are_tolerated() {
    let catalog = parse(
        r#"[[command]]
id = "x"
title = "X"
argv = ["true"]
future_key = 42"#,
    );
    assert_eq!(catalog.commands.len(), 1);
    assert_eq!(catalog.warning, "");
}

#[test]
fn a_file_without_any_command_table_yields_nothing_and_no_warning() {
    let catalog = parse("some_future_setting = true\n");
    assert!(catalog.commands.is_empty());
    assert_eq!(catalog.warning, "");
}

#[test]
fn invalid_toml_reports_one_warning_and_no_commands() {
    let catalog = parse("[[command]\nid = ");
    assert!(catalog.commands.is_empty());
    assert!(catalog
        .warning
        .starts_with("warning: config.toml is not valid TOML: "));
    assert_eq!(catalog.warning.lines().count(), 1);
}

#[test]
fn a_rejected_entry_never_takes_a_valid_one_with_it() {
    let catalog = parse(
        r#"
[[command]]
id = "broken"
title = "Broken"
argv = []

[[command]]
id = "fine"
title = "Fine"
argv = ["true"]
"#,
    );
    let ids: Vec<&str> = catalog
        .commands
        .iter()
        .map(|command| command.id.as_str())
        .collect();
    assert_eq!(ids, ["fine"]);
    assert_eq!(
        catalog.warning,
        "warning: 1 user command skipped: broken (missing argv)"
    );
}

#[test]
fn several_rejections_are_counted_and_named() {
    let catalog = parse(
        r#"
[[command]]
id = "Deploy"
title = "Deploy"
argv = ["deploy"]

[[command]]
id = "again"
title = "Again"
argv = ["true"]
placement = "popup"
"#,
    );
    assert_eq!(
        catalog.warning,
        "warning: 2 user commands skipped: Deploy (invalid id), again (unknown placement)"
    );
}

#[test]
fn the_second_entry_sharing_an_id_is_the_one_rejected() {
    let catalog = parse(
        r#"
[[command]]
id = "x"
title = "First"
argv = ["first"]

[[command]]
id = "x"
title = "Second"
argv = ["second"]
"#,
    );
    assert_eq!(catalog.commands.len(), 1);
    assert_eq!(catalog.commands[0].title, "First");
    assert_eq!(
        catalog.warning,
        "warning: 1 user command skipped: x (duplicate id)"
    );
}

#[test]
fn an_entry_with_a_wrongly_typed_field_is_named_by_its_id() {
    let catalog = parse(
        r#"
[[command]]
id = "typo"
title = "Typo"
argv = "lazygit"
"#,
    );
    assert_eq!(
        catalog.warning,
        "warning: 1 user command skipped: typo (invalid field types)"
    );
}

#[test]
fn an_entry_without_an_id_is_named_by_its_position() {
    let catalog = parse(
        r#"
[[command]]
title = "Nameless"
argv = ["true"]
"#,
    );
    assert_eq!(
        catalog.warning,
        "warning: 1 user command skipped: #1 (missing id)"
    );
}

#[test]
fn a_title_spanning_lines_is_rejected() {
    let catalog =
        parse("[[command]]\nid = \"x\"\ntitle = \"two\\nlines\"\nargv = [\"true\"]\n");
    assert!(catalog.commands.is_empty());
    assert!(catalog.warning.ends_with("x (title spans lines)"));
}

#[test]
fn an_empty_cwd_reads_as_no_cwd() {
    let catalog = parse(
        r#"[[command]]
id = "x"
title = "X"
argv = ["true"]
cwd = """#,
    );
    assert_eq!(catalog.commands[0].cwd, None);
}

fn with_cwd(cwd: &str) -> UserCatalog {
    parse(&format!(
        "[[command]]\nid = \"x\"\ntitle = \"X\"\nargv = [\"true\"]\ncwd = \"{cwd}\"\n"
    ))
}

#[test]
fn an_existing_absolute_cwd_is_kept() {
    let catalog = with_cwd("/");
    assert_eq!(catalog.commands[0].cwd.as_deref(), Some("/"));
    assert_eq!(catalog.warning, "");
}

// The popup and the herdr server resolve a relative path against different
// working directories, so one would be validated here and used there.
#[test]
fn custom_a_relative_cwd_is_rejected() {
    let catalog = with_cwd("src");
    assert!(catalog.commands.is_empty());
    assert!(catalog.warning.ends_with("x (cwd is not absolute)"));
}

#[test]
fn a_cwd_naming_no_directory_is_rejected_rather_than_replaced() {
    let catalog = with_cwd("/no/such/directory/here");
    assert!(catalog.commands.is_empty());
    assert!(catalog.warning.ends_with("x (cwd is not a directory)"));
}

#[test]
fn a_rejected_id_cannot_break_the_single_warning_line() {
    let catalog = parse("[[command]]\nid = \"a\\nb\"\ntitle = \"X\"\nargv = [\"true\"]\n");
    assert_eq!(
        catalog.warning,
        "warning: 1 user command skipped: a?b (invalid id)"
    );
    assert_eq!(catalog.warning.lines().count(), 1);
}

#[test]
fn a_very_long_id_is_truncated_in_the_warning() {
    let long = "z".repeat(80);
    let catalog = parse(&format!(
        "[[command]]\nid = \"{long}!\"\ntitle = \"X\"\nargv = [\"true\"]\n"
    ));
    assert_eq!(
        catalog.warning,
        format!(
            "warning: 1 user command skipped: {} (invalid id)",
            "z".repeat(32) + "..."
        )
    );
}

