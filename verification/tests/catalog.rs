use herdr_palette::catalog::check_catalog_header;

#[test]
fn a_catalog_with_another_schema_version_is_rejected_by_number() {
    let err = check_catalog_header(r#"{"schema_version": 2, "commands": []}"#).unwrap_err();
    assert_eq!(
        err.0,
        "command-palette: unsupported commands.json schema_version: 2 (expected 1)"
    );
}

#[test]
fn a_catalog_without_schema_version_is_rejected_as_null() {
    let err = check_catalog_header(r#"{"commands": []}"#).unwrap_err();
    assert_eq!(
        err.0,
        "command-palette: unsupported commands.json schema_version: null (expected 1)"
    );
}

#[test]
fn invalid_json_reports_the_parser_message() {
    let err = check_catalog_header("{").unwrap_err();
    assert!(err
        .0
        .starts_with("command-palette: commands.json is not valid JSON: "));
}

#[test]
fn a_string_schema_version_is_named_by_its_content() {
    let err = check_catalog_header(r#"{"schema_version": "one"}"#).unwrap_err();
    assert_eq!(
        err.0,
        "command-palette: unsupported commands.json schema_version: one (expected 1)"
    );
}

#[test]
fn schema_version_one_with_unknown_fields_passes_the_header_check() {
    assert!(check_catalog_header(
        r#"{"schema_version": 1, "expected_herdr_protocol": 20, "future_field": true, "commands": []}"#
    )
    .is_ok());
}
