use herdr_palette::resolve::{
    neighbor_from_json, prefixed_rows, workspace_label_map, workspace_rows, Direction, ListKind, ListSpec, SelectSpec,
};


fn ws_spec() -> ListSpec {
    ListKind::Workspaces.spec()
}

fn ws_json(ids: &[&str]) -> String {
    let workspaces: Vec<String> = ids
        .iter()
        .map(|id| format!(r#"{{"workspace_id":"{id}","label":"x"}}"#))
        .collect();
    format!(
        r#"{{"result":{{"workspaces":[{}]}}}}"#,
        workspaces.join(",")
    )
}

#[test]
fn next_picks_the_following_id() {
    let id = neighbor_from_json(
        &ws_json(&["w1", "w2", "w3"]),
        &ws_spec(),
        Direction::Next,
        "w1",
    )
    .unwrap();
    assert_eq!(id, "w2");
}

#[test]
fn next_wraps_from_the_last_id_to_the_first() {
    let id = neighbor_from_json(
        &ws_json(&["w1", "w2", "w3"]),
        &ws_spec(),
        Direction::Next,
        "w3",
    )
    .unwrap();
    assert_eq!(id, "w1");
}

#[test]
fn previous_wraps_from_the_first_id_to_the_last() {
    let id = neighbor_from_json(
        &ws_json(&["w1", "w2", "w3"]),
        &ws_spec(),
        Direction::Previous,
        "w1",
    )
    .unwrap();
    assert_eq!(id, "w3");
}

#[test]
fn a_single_id_resolves_to_itself() {
    let id = neighbor_from_json(&ws_json(&["w1"]), &ws_spec(), Direction::Next, "w1").unwrap();
    assert_eq!(id, "w1");
}

#[test]
fn a_non_array_collection_is_an_unexpected_shape() {
    let err = neighbor_from_json(
        r#"{"result":{"workspaces":{}}}"#,
        &ws_spec(),
        Direction::Next,
        "w1",
    )
    .unwrap_err();
    assert_eq!(
        err.0,
        "command-palette: herdr workspace list returned an unexpected shape"
    );
}

#[test]
fn invalid_json_is_an_unexpected_shape() {
    let err = neighbor_from_json("socket unavailable", &ws_spec(), Direction::Next, "w1")
        .unwrap_err();
    assert_eq!(
        err.0,
        "command-palette: herdr workspace list returned an unexpected shape"
    );
}

#[test]
fn a_candidate_without_an_id_is_rejected() {
    let err = neighbor_from_json(
        r#"{"result":{"workspaces":[{"workspace_id":"w1"},{"label":"missing"}]}}"#,
        &ws_spec(),
        Direction::Next,
        "w1",
    )
    .unwrap_err();
    assert_eq!(
        err.0,
        "command-palette: herdr workspace list returned a candidate without a valid workspace_id"
    );
}

#[test]
fn a_numeric_id_is_rejected() {
    let err = neighbor_from_json(
        r#"{"result":{"workspaces":[{"workspace_id":7}]}}"#,
        &ws_spec(),
        Direction::Next,
        "w1",
    )
    .unwrap_err();
    assert!(err.0.contains("without a valid workspace_id"));
}

#[test]
fn an_id_containing_a_newline_is_rejected() {
    let err = neighbor_from_json(
        "{\"result\":{\"workspaces\":[{\"workspace_id\":\"w\\n1\"}]}}",
        &ws_spec(),
        Direction::Next,
        "w1",
    )
    .unwrap_err();
    assert!(err.0.contains("without a valid workspace_id"));
}

#[test]
fn workspace_rows_exclude_the_origin_and_embed_ids_in_labels() {
    let raw = r#"{"result":{"workspaces":[
        {"workspace_id":"w1","label":"one"},
        {"workspace_id":"w2","label":"two"}]}}"#;
    let rows = workspace_rows(raw, "w1").unwrap();
    assert_eq!(rows.len(), 1);
    assert_eq!(rows[0].id, "w2");
    assert_eq!(rows[0].label, "two (w2)");
}

#[test]
fn workspace_labels_are_sanitized_for_display() {
    let raw =
        "{\"result\":{\"workspaces\":[{\"workspace_id\":\"w1\",\"label\":\"a\\nb\\tc\"}]}}";
    let rows = workspace_rows(raw, "").unwrap();
    assert_eq!(rows[0].label, "a b c (w1)");
}

#[test]
fn a_workspace_candidate_without_an_id_fails_even_when_excluded_rows_remain() {
    let raw = r#"{"result":{"workspaces":[{"workspace_id":"w1"},{"label":"orphan"}]}}"#;
    let err = workspace_rows(raw, "w1").unwrap_err();
    assert_eq!(
        err.0,
        "command-palette: herdr workspace list returned a candidate without workspace_id"
    );
}

#[test]
fn a_numeric_select_id_is_stringified_not_rejected() {
    let raw = r#"{"result":{"workspaces":[{"workspace_id":7,"label":"seven"}]}}"#;
    let rows = workspace_rows(raw, "").unwrap();
    assert_eq!(rows[0].id, "7");
}

#[test]
fn tab_rows_are_prefixed_with_the_workspace_label() {
    let tabs = r#"{"result":{"tabs":[
        {"tab_id":"w2:t1","workspace_id":"w2","label":"edit"}]}}"#;
    let ws = r#"{"result":{"workspaces":[{"workspace_id":"w2","label":"two"}]}}"#;
    let labels = workspace_label_map(ws).unwrap();
    let rows = prefixed_rows(tabs, &labels, "", &SelectSpec::tabs()).unwrap();
    assert_eq!(rows[0].label, "two / edit (w2:t1)");
}

#[test]
fn an_unknown_workspace_id_prefixes_with_itself() {
    let tabs = r#"{"result":{"tabs":[
        {"tab_id":"w9:t1","workspace_id":"w9","label":"lost"}]}}"#;
    let rows = prefixed_rows(tabs, &Vec::new(), "", &SelectSpec::tabs()).unwrap();
    assert_eq!(rows[0].label, "w9 / lost (w9:t1)");
}

#[test]
fn agent_rows_use_the_stripped_terminal_title() {
    let agents = r#"{"result":{"agents":[
        {"pane_id":"w1:p9","workspace_id":"w1","terminal_title_stripped":"editor"}]}}"#;
    let ws = r#"{"result":{"workspaces":[{"workspace_id":"w1","label":"one"}]}}"#;
    let labels = workspace_label_map(ws).unwrap();
    let rows = prefixed_rows(agents, &labels, "", &SelectSpec::agents()).unwrap();
    assert_eq!(rows[0].label, "one / agent: editor (w1:p9)");
}

#[test]
fn a_tab_without_a_string_workspace_id_fails_the_candidate_build() {
    let tabs = r#"{"result":{"tabs":[{"tab_id":"t1"}]}}"#;
    let err = prefixed_rows(tabs, &Vec::new(), "", &SelectSpec::tabs()).unwrap_err();
    assert_eq!(
        err.0,
        "command-palette: failed to build tab list candidates"
    );
}

#[test]
fn a_list_omitting_the_origin_is_rejected() {
    let err =
        neighbor_from_json(&ws_json(&["w2"]), &ws_spec(), Direction::Next, "w1").unwrap_err();
    assert_eq!(
        err.0,
        "command-palette: herdr workspace list did not include the origin workspace_id"
    );
}

