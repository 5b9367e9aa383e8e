use herdr_palette::ipc::{join_path, send_input_line, socket_path};

#[test]
fn the_request_has_no_keys_and_escapes_the_text() {
    assert_eq!(
        send_input_line("w1:p2", "line one\n\"two\""),
        "{\"id\":\"vjeantet.palette:pane.send_input\",\"method\":\"pane.send_input\",\"params\":{\"keys\":[],\"pane_id\":\"w1:p2\",\"text\":\"line one\\n\\\"two\\\"\"}}"
    );
}

#[test]
fn an_explicit_socket_path_wins() {
    assert_eq!(socket_path(Some("/run/h.sock"), Some("/x"), Some("/home/u"), Some("s")), "/run/h.sock");
}

#[test]
fn the_default_session_lives_in_the_config_directory() {
    assert_eq!(socket_path(None, None, Some("/home/u"), None), "/home/u/.config/herdr/herdr.sock");
    assert_eq!(socket_path(Some(""), Some("/xdg"), Some("/home/u"), Some("default")), "/xdg/herdr/herdr.sock");
}

#[test]
fn a_named_session_has_its_own_socket() {
    assert_eq!(
        socket_path(None, Some("/xdg/"), None, Some("work")),
        "/xdg/herdr/sessions/work/herdr.sock"
    );
}

#[test]
fn joining_follows_path_rules() {
    assert_eq!(join_path("", "a"), "a");
    assert_eq!(join_path("/x/", "a"), "/x/a");
    assert_eq!(join_path("/x", "/abs"), "/abs");
}
