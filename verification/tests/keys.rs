use herdr_palette::keys::KeyHints;


const CONFIG: &str = r#"
[keys]
next_tab = ["prefix+n", "ctrl+alt+bracketright"]
zoom = "ctrl+alt+z"
close_tab = ""

[[keys.command]]
key = "ctrl+shift+p"
type = "plugin_action"
command = "vjeantet.palette.open"

[[keys.command]]
key = ["prefix+f", "ctrl+alt+f"]
type = "plugin_action"
command = "herdr-file-viewer.open-file-viewer"

[[keys.command]]
key = "prefix+g"
type = "popup"
command = "lazygit"
"#;

#[test]
fn a_catalog_default_shows_when_the_user_did_not_override_it() {
    let hints = KeyHints::from_toml(CONFIG);
    assert_eq!(hints.native(Some("new_tab"), Some("prefix+c")), "prefix+c");
}

#[test]
fn a_user_override_beats_the_catalog_default() {
    let hints = KeyHints::from_toml(CONFIG);
    assert_eq!(hints.native(Some("zoom"), Some("prefix+z")), "ctrl+alt+z");
}

#[test]
fn an_array_override_shows_its_first_binding() {
    let hints = KeyHints::from_toml(CONFIG);
    assert_eq!(hints.native(Some("next_tab"), Some("prefix+n")), "prefix+n");
}

#[test]
fn an_empty_override_disables_the_default() {
    let hints = KeyHints::from_toml(CONFIG);
    assert_eq!(hints.native(Some("close_tab"), Some("prefix+shift+x")), "");
}

#[test]
fn an_operation_without_keys_action_or_default_has_no_hint() {
    let hints = KeyHints::from_toml(CONFIG);
    assert_eq!(hints.native(None, None), "");
}

#[test]
fn a_plugin_action_binding_is_found_by_qualified_id() {
    let hints = KeyHints::from_toml(CONFIG);
    assert_eq!(hints.plugin("vjeantet.palette.open"), "ctrl+shift+p");
}

#[test]
fn an_array_plugin_binding_shows_its_first_key() {
    let hints = KeyHints::from_toml(CONFIG);
    assert_eq!(
        hints.plugin("herdr-file-viewer.open-file-viewer"),
        "prefix+f"
    );
}

#[test]
fn non_plugin_action_command_bindings_are_ignored() {
    let hints = KeyHints::from_toml(CONFIG);
    assert_eq!(hints.plugin("lazygit"), "");
}

#[test]
fn invalid_toml_yields_no_hints() {
    let hints = KeyHints::from_toml("not toml [");
    assert_eq!(hints.native(Some("zoom"), Some("prefix+z")), "prefix+z");
    assert_eq!(hints.plugin("vjeantet.palette.open"), "");
}

