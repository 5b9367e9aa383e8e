use herdr_palette::ui::tui::{
    filter_rows, pick_key, pick_outcome, rule_line, split_hint, Fuzzy, KeyCode, KeyPress, PickState,
};
use herdr_palette::ui::{PickOutcome, PickScreen, Row};

#[test]
fn a_prefixed_hint_fades_only_its_prefix() {
    assert_eq!(split_hint("prefix+shift+f"), ("prefix+", "shift+f"));
}

#[test]
fn a_hint_without_the_prefix_stays_whole() {
    assert_eq!(split_hint("ctrl+alt+z"), ("", "ctrl+alt+z"));
}

#[test]
fn a_key_merely_starting_with_the_prefix_letters_stays_whole() {
    assert_eq!(split_hint("prefixed+p"), ("", "prefixed+p"));
}


#[test]
fn an_empty_header_renders_as_a_bare_full_width_rule() {
    assert_eq!(rule_line("", 5), "─────");
}

#[test]
fn a_warning_is_embedded_in_the_rule_and_padded_to_width() {
    assert_eq!(rule_line("boom", 12), "── boom ────");
}

#[test]
fn a_header_wider_than_the_popup_is_kept_intact() {
    assert_eq!(rule_line("boom", 5), "── boom ");
}

#[test]
fn zero_width_yields_an_empty_rule() {
    assert_eq!(rule_line("", 0), "");
}


#[test]
fn enter_with_no_row_listed_is_a_clean_cancel() {
    let screen = PickScreen {
        header: String::new(),
        prompt: "> ".to_string(),
        placeholder: String::new(),
        rows: vec![Row::plain("alpha"), Row::plain("beta")],
        warning: false,
    };
    let filtered = filter_rows(&mut Fuzzy::new(), &screen, "zzz");
    assert!(filtered.is_empty());
    let mut state = PickState { query: "zzz".chars().collect(), selected: 0 };
    let step = pick_key(&mut state, KeyPress { code: KeyCode::Enter, ctrl: false }, filtered.len());
    assert!(matches!(pick_outcome(&screen, &filtered, step), Some(PickOutcome::Cancelled)));
}
