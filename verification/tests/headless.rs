use herdr_palette::ui::headless::{dump_text, HeadlessUi};
use herdr_palette::ui::{PickOutcome, PickScreen, Row};

fn screen(ids: &[&str]) -> PickScreen {
    PickScreen {
        header: String::new(),
        prompt: String::new(),
        placeholder: String::new(),
        rows: ids
            .iter()
            .map(|id| Row { id: id.to_string(), label: format!("{id} label"), hint: String::new() })
            .collect(),
        warning: false,
    }
}

fn selected(o: PickOutcome) -> Option<String> {
    match o {
        PickOutcome::Selected(id) => Some(id),
        PickOutcome::Cancelled => None,
    }
}

#[test]
fn without_answers_the_first_row_is_picked() {
    let mut ui = HeadlessUi::new(None);
    assert_eq!(selected(ui.answer(&screen(&["a", "b"]), None)).as_deref(), Some("a"));
    assert_eq!(selected(ui.answer(&screen(&[]), None)), None);
}

#[test]
fn a_wanted_id_is_picked_or_cancels() {
    let mut ui = HeadlessUi::new(None);
    assert_eq!(selected(ui.answer(&screen(&["a", "b"]), Some("b"))).as_deref(), Some("b"));
    assert_eq!(selected(ui.answer(&screen(&["a", "b"]), Some("z"))), None);
}

#[test]
fn queued_answers_are_consumed_one_per_screen() {
    let mut ui = HeadlessUi::new(Some("b\nYes\n"));
    assert_eq!(selected(ui.answer(&screen(&["a", "b"]), Some("a"))).as_deref(), Some("b"));
    assert_eq!(selected(ui.answer(&screen(&["No", "Yes"]), None)).as_deref(), Some("Yes"));
    assert_eq!(selected(ui.answer(&screen(&["a"]), None)), Some("a".to_string()));
}

#[test]
fn the_dump_writes_one_line_per_row() {
    let mut rows = screen(&["a"]).rows;
    rows.push(Row { id: "No".to_string(), label: "No".to_string(), hint: String::new() });
    assert_eq!(dump_text(&rows), "a\ta label\nNo\n");
}
