use herdr_palette::herdr::protocol_of;

#[test]
fn the_protocol_line_is_found_among_the_others() {
    assert_eq!(protocol_of("herdr api\nprotocol: 20\nmore\n").as_deref(), Some("20"));
}

#[test]
fn only_leading_spaces_are_removed_from_the_protocol() {
    assert_eq!(protocol_of("protocol:   19 \r\n").as_deref(), Some("19 "));
}

#[test]
fn the_first_protocol_line_wins() {
    assert_eq!(protocol_of("protocol:1\nprotocol:2").as_deref(), Some("1"));
}

#[test]
fn no_protocol_line_is_none() {
    assert_eq!(protocol_of("error: no such command\n"), None);
    assert_eq!(protocol_of(""), None);
    assert_eq!(protocol_of(" protocol: 3"), None);
}
