use herdr_palette::ui::tui::{fatal_view, input_key, input_view, InputState, InputStep, KeyCode, KeyPress};
use herdr_palette::ui::InputScreen;

fn key(code: KeyCode) -> KeyPress {
    KeyPress { code, ctrl: false }
}

#[test]
fn the_input_screen_shows_prompt_line_and_header() {
    let screen = InputScreen { header: "Rename".to_string(), prompt: "Name > ".to_string(), initial: String::new() };
    let state = InputState { value: "ab".chars().collect(), cursor: 1 };
    let (lines, cursor_x) = input_view(&screen, &state, 80);
    assert_eq!(lines.len(), 2);
    assert_eq!(lines[0][0].text, "Name > ");
    assert!(lines[0][0].style.bold);
    assert_eq!(lines[0][1].text, "ab");
    assert_eq!(lines[1][0].text, "Rename");
    assert!(lines[1][0].style.dim);
    assert_eq!(cursor_x, 8);
    let (_, narrow) = input_view(&screen, &state, 4);
    assert_eq!(narrow, 3);
}

#[test]
fn typing_then_backspace_restores_the_line() {
    let mut state = InputState { value: "ac".chars().collect(), cursor: 1 };
    assert!(matches!(input_key(&mut state, key(KeyCode::Char('b'))), InputStep::Continue));
    assert_eq!(state.value.iter().collect::<String>(), "abc");
    assert_eq!(state.cursor, 2);
    let _ = input_key(&mut state, key(KeyCode::Backspace));
    assert_eq!(state.value.iter().collect::<String>(), "ac");
    assert_eq!(state.cursor, 1);
    assert!(matches!(input_key(&mut state, key(KeyCode::Enter)), InputStep::Submit(line) if line == "ac"));
}

#[test]
fn the_error_screen_keeps_the_message_and_asks_for_a_key() {
    let lines = fatal_view("first\nsecond");
    let texts: Vec<&str> = lines.iter().map(|l| l[0].text.as_str()).collect();
    assert_eq!(texts, ["first", "second", "", "(press any key to close)"]);
    assert!(lines[3][0].style.dim);
}
