use herdr_palette::ipc::error_of;


#[test]
fn an_error_response_is_recognised_by_its_message() {
    let line = r#"{"id":"x","error":{"code":"pane_not_found","message":"no such pane"}}"#;
    assert_eq!(error_of(line).as_deref(), Some("no such pane"));
}

#[test]
fn an_error_without_a_message_falls_back_to_its_code() {
    let line = r#"{"id":"x","error":{"code":"pane_not_found"}}"#;
    assert_eq!(error_of(line).as_deref(), Some("pane_not_found"));
}

#[test]
fn a_success_response_is_not_an_error() {
    assert_eq!(error_of(r#"{"id":"x","result":{}}"#), None);
}

#[test]
fn an_unparsable_line_is_not_reported_as_an_error() {
    assert_eq!(error_of("not json"), None);
    assert_eq!(error_of(""), None);
}

