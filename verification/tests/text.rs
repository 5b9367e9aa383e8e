use herdr_palette::text::{split_lines, trimmed, trimmed_end};

#[test]
fn lines_split_like_str_lines() {
    assert_eq!(split_lines("a\nb\r\nc"), ["a", "b", "c"]);
    assert_eq!(split_lines("a\n"), ["a"]);
    assert_eq!(split_lines("\n\nx"), ["", "", "x"]);
    assert!(split_lines("").is_empty());
    assert_eq!(split_lines("tail\r"), ["tail\r"]);
}

#[test]
fn trimming_removes_unicode_white_space() {
    assert_eq!(trimmed(" \t x y \u{3000}\n"), "x y");
    assert_eq!(trimmed_end("  x \n"), "  x");
    assert_eq!(trimmed("   "), "");
}
