use herdr_palette::actions::{plugin_display_name, rows_from_json};
use herdr_palette::keys::KeyHints;


const LIST: &str = r#"{"result":{"actions":[
    {"plugin_id":"herdr-scratchpad","action_id":"open-scratchpad","title":"Toggle scratchpad","platforms":["linux","macos"]},
    {"plugin_id":"herdr-file-viewer","action_id":"open-file-viewer-windows","title":"Open file viewer","platforms":["windows"]},
    {"plugin_id":"some.plugin","action_id":"bare","title":"No platforms declared"}
]}}"#;

#[test]
fn actions_for_this_platform_and_platformless_ones_are_offered() {
    let rows = rows_from_json(LIST, "", "linux", &KeyHints::empty());
    let ids: Vec<&str> = rows.iter().map(|row| row.id.as_str()).collect();
    assert_eq!(
        ids,
        [
            "plugin:some.plugin.bare",
            "plugin:herdr-scratchpad.open-scratchpad"
        ]
    );
}

#[test]
fn rows_are_sorted_by_display_label() {
    let rows = rows_from_json(LIST, "", "linux", &KeyHints::empty());
    assert!(rows[0].label < rows[1].label);
}

#[test]
fn a_row_label_reads_plugin_name_colon_action_title() {
    let rows = rows_from_json(LIST, "", "linux", &KeyHints::empty());
    assert_eq!(rows[1].label, "Scratchpad: Toggle scratchpad");
}

#[test]
fn a_plugin_row_shows_its_configured_keybinding_hint() {
    let hints = KeyHints::from_toml(
        "[[keys.command]]\nkey = \"prefix+a\"\ntype = \"plugin_action\"\ncommand = \"herdr-scratchpad.open-scratchpad\"\n",
    );
    let rows = rows_from_json(LIST, "", "linux", &hints);
    assert_eq!(rows[1].hint, "prefix+a");
    assert_eq!(rows[0].hint, "");
}

#[test]
fn a_display_name_drops_the_herdr_prefix_and_capitalizes() {
    assert_eq!(plugin_display_name("herdr-file-viewer"), "File-viewer");
}

#[test]
fn a_display_name_keeps_only_the_segment_after_the_last_dot() {
    assert_eq!(plugin_display_name("jt.command-palette"), "Command-palette");
}

#[test]
fn the_palette_does_not_offer_its_own_actions() {
    let raw = r#"{"result":{"actions":[
        {"plugin_id":"vjeantet.palette","action_id":"open","title":"Command palette"},
        {"plugin_id":"other","action_id":"x","title":"X"}
    ]}}"#;
    let rows = rows_from_json(raw, "vjeantet.palette", "linux", &KeyHints::empty());
    assert_eq!(rows.len(), 1);
    assert_eq!(rows[0].id, "plugin:other.x");
}

#[test]
fn an_unknown_host_platform_is_offered_everything() {
    let rows = rows_from_json(LIST, "", "", &KeyHints::empty());
    assert_eq!(rows.len(), 3);
}

#[test]
fn a_malformed_entry_is_skipped_without_dropping_the_rest() {
    let raw = r#"{"result":{"actions":[
        {"plugin_id":"broken"},
        {"plugin_id":"other","action_id":"x","title":"X"}
    ]}}"#;
    let rows = rows_from_json(raw, "", "linux", &KeyHints::empty());
    assert_eq!(rows.len(), 1);
}

#[test]
fn invalid_json_yields_no_rows() {
    assert!(rows_from_json("not json", "", "linux", &KeyHints::empty()).is_empty());
}

