use miniterm::font::{is_control_char, layout_text, line_rows, split_lines};

#[test]
fn test_split_lines_basic() {
    let text = "line1\nline2\nline3";
    let lines = split_lines(text);
    assert_eq!(lines.len(), 3);
    assert_eq!(lines[0], "line1");
    assert_eq!(lines[1], "line2");
    assert_eq!(lines[2], "line3");
}

#[test]
fn test_split_lines_crlf() {
    let text = "line1\r\nline2\r\nline3";
    let lines = split_lines(text);
    assert_eq!(lines.len(), 3);
    assert_eq!(lines[0], "line1");
    assert_eq!(lines[1], "line2");
    assert_eq!(lines[2], "line3");
}

#[test]
fn split_lines_of_empty_text_is_empty() {
    assert_eq!(split_lines(""), Vec::<String>::new());
}

#[test]
fn split_lines_without_break_is_one_line() {
    assert_eq!(split_lines("only"), vec!["only"]);
}

#[test]
fn split_lines_keeps_empty_lines_between_line_feeds() {
    assert_eq!(split_lines("a\n\nb"), vec!["a", "", "b"]);
    assert_eq!(split_lines("\n"), vec![""]);
    assert_eq!(split_lines("\n\n"), vec!["", ""]);
}

#[test]
fn split_lines_drops_the_empty_rest_after_the_last_break() {
    assert_eq!(split_lines("a\n"), vec!["a"]);
    assert_eq!(split_lines("a\r\n"), vec!["a"]);
    assert_eq!(split_lines("a\r"), vec!["a"]);
}

#[test]
fn split_lines_drops_empty_lines_before_carriage_returns() {
    assert_eq!(split_lines("a\r\rb"), vec!["a", "b"]);
    assert_eq!(split_lines("\r\n"), Vec::<String>::new());
    assert_eq!(split_lines("a\r\n\r\nb"), vec!["a", "b"]);
    assert_eq!(split_lines("\rx"), vec!["x"]);
}

#[test]
fn split_lines_takes_only_one_line_feed_with_a_carriage_return() {
    assert_eq!(split_lines("a\r\n\nb"), vec!["a", "", "b"]);
    assert_eq!(split_lines("a\n\rb"), vec!["a", "b"]);
}

#[test]
fn split_lines_keeps_text_beyond_ascii() {
    assert_eq!(split_lines("é\nüber\r\n日本"), vec!["é", "über", "日本"]);
}

#[test]
fn split_lines_loses_nothing_but_the_breaks() {
    let text = "one\r\ntwo\n\nthree\rfour\n";
    let joined: String = split_lines(text).concat();
    let kept: String = text.chars().filter(|c| *c != '\n' && *c != '\r').collect();
    assert_eq!(joined, kept);
    assert!(split_lines(text).iter().all(|l| !l.contains('\n') && !l.contains('\r')));
}

#[test]
fn control_characters_are_the_two_ranges() {
    for code in 0..=0x2ffu32 {
        let c = char::from_u32(code).unwrap();
        assert_eq!(is_control_char(c), c.is_control(), "U+{code:04X}");
    }
    assert!(is_control_char('\u{1f}'));
    assert!(!is_control_char(' '));
    assert!(!is_control_char('~'));
    assert!(is_control_char('\u{7f}'));
    assert!(is_control_char('\u{9f}'));
    assert!(!is_control_char('\u{a0}'));
    assert!(!is_control_char('日'));
}

#[test]
fn layout_places_glyphs_one_width_apart() {
    assert_eq!(layout_text("abc", 8, 10, 100), vec![('a', 8), ('b', 18), ('c', 28)]);
}

#[test]
fn layout_of_empty_text_is_empty() {
    assert_eq!(layout_text("", 8, 10, 100), Vec::<(char, usize)>::new());
}

#[test]
fn layout_stops_at_the_right_edge() {
    // After 'c' the pen stands at 30, which is the width.
    assert_eq!(layout_text("abcdef", 0, 10, 30), vec![('a', 0), ('b', 10), ('c', 20)]);
    // The first glyph is placed even when the pen starts beyond the edge.
    assert_eq!(layout_text("ab", 50, 10, 30), vec![('a', 50)]);
}

#[test]
fn layout_returns_the_pen_on_line_breaks() {
    assert_eq!(layout_text("ab\rc", 8, 10, 100), vec![('a', 8), ('b', 18), ('c', 0)]);
    assert_eq!(layout_text("a\nb", 8, 10, 100), vec![('a', 8), ('b', 0)]);
}

#[test]
fn layout_moves_to_the_next_tab_stop() {
    // Tab stops are 8 characters of 10 pixels apart.
    assert_eq!(layout_text("a\tb", 0, 10, 1000), vec![('a', 0), ('b', 80)]);
    assert_eq!(layout_text("\tb", 80, 10, 1000), vec![('b', 160)]);
    assert_eq!(layout_text("\tb", 79, 10, 1000), vec![('b', 80)]);
    // The division rounds the pen down to a whole character first.
    assert_eq!(layout_text("\tb", 8, 6, 1000), vec![('b', 48)]);
}

#[test]
fn layout_skips_other_control_characters() {
    assert_eq!(layout_text("a\x08\x07\u{7f}\u{85}b", 0, 10, 100), vec![('a', 0), ('b', 10)]);
}

#[test]
fn layout_with_zero_width_keeps_the_pen_in_place() {
    assert_eq!(layout_text("ab", 5, 0, 100), vec![('a', 5), ('b', 5)]);
}

#[test]
fn layout_stops_when_the_pen_would_pass_every_buffer() {
    assert_eq!(layout_text("abc", 5, usize::MAX, usize::MAX), vec![('a', 5)]);
    assert_eq!(layout_text("\tb", usize::MAX, usize::MAX, usize::MAX), Vec::<(char, usize)>::new());
}

#[test]
fn line_rows_are_one_height_apart() {
    assert_eq!(line_rows(3, 8, 14, 600, 42), vec![8, 22, 36]);
}

#[test]
fn line_rows_stop_at_the_visible_lines() {
    assert_eq!(line_rows(5, 0, 10, 600, 2), vec![0, 10]);
    assert_eq!(line_rows(5, 0, 10, 600, 0), Vec::<usize>::new());
}

#[test]
fn line_rows_stop_at_the_lower_edge() {
    // A line must fit whole: 8 + 14, 22 + 14, 36 + 14 = 50 fit, 50 + 14 does not.
    assert_eq!(line_rows(5, 8, 14, 50, 10), vec![8, 22, 36]);
    assert_eq!(line_rows(5, 8, 14, 49, 10), vec![8, 22]);
    assert_eq!(line_rows(5, 60, 14, 50, 10), Vec::<usize>::new());
}

#[test]
fn line_rows_with_zero_height_share_a_row() {
    assert_eq!(line_rows(3, 7, 0, 10, 10), vec![7, 7, 7]);
}

#[test]
fn line_rows_near_the_largest_number() {
    assert_eq!(line_rows(3, usize::MAX - 1, 1, usize::MAX, 10), vec![usize::MAX - 1]);
    assert_eq!(line_rows(3, 0, usize::MAX, usize::MAX, 10), vec![0]);
}
