use miniterm::ansi::AnsiFilter;

#[test]
fn test_plain_text() {
    let mut filter = AnsiFilter::new();
    let input = b"Hello, World!";
    let output = filter.process_slice(input);
    assert_eq!(output, "Hello, World!");
}

#[test]
fn test_color_filter() {
    let mut filter = AnsiFilter::new();
    // Red color sequence: ESC[31m
    let input = b"\x1b[31mHello\x1b[0m";
    let output = filter.process_slice(input);
    assert_eq!(output, "Hello");
}

#[test]
fn test_cursor_movement() {
    let mut filter = AnsiFilter::new();
    // Cursor up: ESC[A
    let input = b"Text\x1b[A_more";
    let output = filter.process_slice(input);
    assert_eq!(output, "Text_more");
}

#[test]
fn test_line_breaks() {
    let mut filter = AnsiFilter::new();
    let input = b"Line1\nLine2\rLine3";
    let output = filter.process_slice(input);
    assert_eq!(output, "Line1\nLine2\rLine3");
}

fn displayable(byte: u8) -> bool {
    (0x08..=0x0d).contains(&byte) || (0x20..=0x7e).contains(&byte)
}

#[test]
fn process_in_normal_state_keeps_exactly_the_displayable_bytes() {
    for byte in 0..=255u8 {
        if byte == 0x1b {
            continue;
        }
        let mut filter = AnsiFilter::new();
        let out = filter.process(byte);
        if displayable(byte) {
            assert_eq!(out, Some(byte as char), "byte {byte:#04x}");
        } else {
            assert_eq!(out, None, "byte {byte:#04x}");
        }
        // Still in the normal state: the next letter comes through.
        assert_eq!(filter.process(b'z'), Some('z'));
    }
}

#[test]
fn escape_free_input_loses_only_what_is_not_displayable() {
    let input: Vec<u8> = (0..=255u8).filter(|b| *b != 0x1b).collect();
    let expected: String = input.iter().filter(|b| displayable(**b)).map(|b| *b as char).collect();
    let mut filter = AnsiFilter::new();
    assert_eq!(filter.process_slice(&input), expected);
    assert_eq!(expected.len(), 6 + 95);
}

#[test]
fn bell_is_dropped_and_layout_controls_pass() {
    let mut filter = AnsiFilter::new();
    assert_eq!(filter.process_slice(b"a\x07b\x08c\td\x0be\x0cf"), "ab\x08c\td\x0be\x0cf");
}

#[test]
fn bytes_above_ascii_and_delete_are_dropped() {
    let mut filter = AnsiFilter::new();
    assert_eq!(filter.process_slice(&[b'a', 0x7f, 0x80, 0xc3, 0xa9, 0xff, b'b', 0x00, 0x1f]), "ab");
}

#[test]
fn escape_emits_nothing_and_waits_for_the_next_byte() {
    let mut filter = AnsiFilter::new();
    assert_eq!(filter.process(0x1b), None);
    // A two-byte escape such as ESC M ends with its second byte.
    assert_eq!(filter.process(b'M'), None);
    assert_eq!(filter.process(b'M'), Some('M'));
}

#[test]
fn string_introducers_end_the_escape_and_their_payload_leaks() {
    for introducer in [b'P', b']', b'^', b'_'] {
        let mut filter = AnsiFilter::new();
        assert_eq!(filter.process(0x1b), None);
        assert_eq!(filter.process(introducer), None);
        // Back in the normal state at once: what follows is read as text.
        assert_eq!(filter.process(b'0'), Some('0'));
    }
    let mut filter = AnsiFilter::new();
    assert_eq!(filter.process_slice(b"\x1b]0;title\x07prompt"), "0;titleprompt");
}

#[test]
fn control_sequence_swallows_parameters_up_to_its_final_byte() {
    let mut filter = AnsiFilter::new();
    assert_eq!(filter.process_slice(b"\x1b[38;5;196mred\x1b[?25l!"), "red!");
    // Final bytes are 0x40..=0x7e, at both ends of the range.
    assert_eq!(filter.process_slice(b"\x1b[@a\x1b[~b"), "ab");
    // 0x3f is still a parameter, 0x7f is not a final byte.
    assert_eq!(filter.process_slice(b"\x1b[?\x7fxz"), "z");
}

#[test]
fn control_sequence_ignores_bytes_outside_its_ranges() {
    let mut filter = AnsiFilter::new();
    assert_eq!(filter.process_slice(b"\x1b[1\n\x1b\x002mok"), "ok");
}

#[test]
fn escape_inside_escape_is_a_short_escape() {
    let mut filter = AnsiFilter::new();
    assert_eq!(filter.process_slice(b"\x1b\x1b[mx"), "[mx");
}

#[test]
fn sequence_may_be_split_over_calls() {
    let mut filter = AnsiFilter::new();
    assert_eq!(filter.process_slice(b"ab\x1b"), "ab");
    assert_eq!(filter.process_slice(b"[3"), "");
    assert_eq!(filter.process_slice(b"1mcd"), "cd");
}

#[test]
fn chunking_does_not_change_the_output() {
    let input = b"one\x1b[1;32mtwo\x1b]x\r\n\x1b[0mthree\x07\x1bM!";
    let mut whole = AnsiFilter::new();
    let expected = whole.process_slice(input);
    for cut in 0..=input.len() {
        let mut filter = AnsiFilter::new();
        let mut out = filter.process_slice(&input[..cut]);
        out.push_str(&filter.process_slice(&input[cut..]));
        assert_eq!(out, expected, "cut at {cut}");
    }
}

#[test]
fn truncated_sequence_stays_open_until_reset() {
    let mut filter = AnsiFilter::new();
    assert_eq!(filter.process_slice(b"x\x1b[12"), "x");
    let mut other = AnsiFilter::new();
    other.process_slice(b"x\x1b[12");
    // Without a reset the next letter ends the sequence and is lost.
    assert_eq!(filter.process_slice(b"Hi"), "i");
    other.reset();
    assert_eq!(other.process_slice(b"Hi"), "Hi");
}

#[test]
fn reset_in_escape_state_returns_to_normal() {
    let mut filter = AnsiFilter::new();
    assert_eq!(filter.process(0x1b), None);
    filter.reset();
    assert_eq!(filter.process(b'['), Some('['));
}

#[test]
fn default_filter_starts_in_normal_state() {
    let mut filter = AnsiFilter::default();
    assert_eq!(filter.process(b'['), Some('['));
}

#[test]
fn refiltering_the_output_changes_nothing() {
    let inputs: [&[u8]; 4] = [
        b"\x1b[31mHello\x1b[0m, \x1b]0;t\x07World!\r\n\tdone\x08",
        b"plain",
        b"\x1b[",
        &[0x00, 0x1b, 0x5b, 0x41, 0x7e, 0x7f, 0x80, 0x20, 0x0d, 0x08],
    ];
    for input in inputs {
        let mut first = AnsiFilter::new();
        let once = first.process_slice(input);
        assert!(!once.as_bytes().contains(&0x1b));
        let mut second = AnsiFilter::new();
        let twice = second.process_slice(once.as_bytes());
        assert_eq!(twice, once);
        // The second filter is back in the normal state.
        assert_eq!(second.process(b'['), Some('['));
    }
}

#[test]
fn output_is_never_longer_than_input_and_keeps_order() {
    let input = b"a\x1b[1mb\x07c\x1bMd";
    let mut filter = AnsiFilter::new();
    let out = filter.process_slice(input);
    assert_eq!(out, "abcd");
    assert!(out.len() <= input.len());
}

#[test]
fn empty_input_gives_empty_output() {
    let mut filter = AnsiFilter::new();
    assert_eq!(filter.process_slice(b""), "");
}
