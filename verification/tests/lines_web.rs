use ze2::editor::{sanitize_control_chars, write_osc_clipboard};
use ze2::input::{vk, Input};
use ze2::simd::lines_bwd;
use ze2::web::{clamp_size, next_text_run, parse_key, web_input_events};

#[test]
fn seeks_to_start() {
    for i in 6..=11 {
        let (off, line) = lines_bwd(b"Hello\nWorld\n", i, 123, 456);
        assert_eq!(off, 6); // After "Hello\n"
        assert_eq!(line, 123); // Still on the same line
    }
}

fn reference_lines_bwd(haystack: &[u8], mut offset: usize, mut line: isize, line_stop: isize) -> (usize, isize) {
    while offset > 0 {
        let c = haystack[offset - 1];
        if c == b'\n' {
            if line <= line_stop {
                break;
            }
            line -= 1;
        }
        offset -= 1;
    }
    (offset, line)
}

fn make_rng(seed: u64) -> impl FnMut() -> usize {
    let mut state = seed;
    move || {
        state = state.wrapping_mul(6364136223846793005).wrapping_add(1442695040888963407);
        (state >> 33) as usize
    }
}

#[test]
fn pseudo_fuzz() {
    let mut text_rng = make_rng(1);
    let text: Vec<u8> = (0..1024)
        .map(|_| match text_rng() % 8 {
            0 => b'\n',
            n => b'a' + n as u8,
        })
        .collect();
    let lines = text.iter().filter(|&&b| b == b'\n').count();
    let mut offset_rng = make_rng(2);
    let mut line_rng = make_rng(3);
    let mut line_distance_rng = make_rng(4);

    for _ in 0..1000 {
        let offset = offset_rng() % (text.len() + 1);
        let line_stop = line_distance_rng() % (lines + 1);
        let line = (line_stop + line_rng() % 100).saturating_sub(5);

        let line = line as isize;
        let line_stop = line_stop as isize;

        let expected = reference_lines_bwd(&text, offset, line, line_stop);
        let actual = lines_bwd(&text, offset, line, line_stop);

        assert_eq!(expected, actual);
    }
}

#[test]
fn lines_bwd_stops_at_the_requested_line() {
    let text = b"a\nb\nc\nd";
    assert_eq!(lines_bwd(text, 7, 3, 1), (2, 1));
    assert_eq!(lines_bwd(text, 7, 3, 0), (0, 0));
    assert_eq!(lines_bwd(text, 100, 3, 3), (6, 3));
    assert_eq!(lines_bwd(text, 0, 5, 0), (0, 5));
}

#[test]
fn web_keys_and_text_runs() {
    assert_eq!(parse_key(b"\rabc"), Some((vk::RETURN, 1)));
    assert_eq!(parse_key(b"\x7f"), Some((vk::BACK, 1)));
    assert_eq!(parse_key(b"\x1b[A"), Some((vk::UP, 3)));
    assert_eq!(parse_key(b"\x1b[3~x"), Some((vk::DELETE, 4)));
    assert_eq!(parse_key(b"\x1b[3"), None);
    assert_eq!(parse_key(b"abc"), None);
    assert_eq!(next_text_run("héllo\x01x".as_bytes()), Some(6));
    assert_eq!(next_text_run(b"\x01x"), None);
    assert_eq!(next_text_run("a\u{85}b".as_bytes()), Some(1));
    assert_eq!(clamp_size(0), 1);
    assert_eq!(clamp_size(80), 80);
    assert_eq!(clamp_size(100000), 32767);
}

#[test]
fn web_input_becomes_events() {
    let events = web_input_events(b"ab\x1b[Ac\x01d\r");
    assert_eq!(events.len(), 5);
    assert!(matches!(&events[0], Input::Text(t) if t == b"ab"));
    assert!(matches!(&events[1], Input::Keyboard(k) if *k == vk::UP));
    assert!(matches!(&events[2], Input::Text(t) if t == b"c"));
    assert!(matches!(&events[3], Input::Text(t) if t == b"d"));
    assert!(matches!(&events[4], Input::Keyboard(k) if *k == vk::RETURN));
    assert!(web_input_events(b"\x01\x02").is_empty());
}

#[test]
fn control_characters_are_sanitized() {
    assert_eq!(sanitize_control_chars(b"a\tb\x1bc"), b"a_b_c".to_vec());
    assert_eq!(sanitize_control_chars(b"plain"), b"plain".to_vec());
}

#[test]
fn osc_clipboard_sequence() {
    let mut out = b"x".to_vec();
    write_osc_clipboard(&mut out, b"abc");
    assert_eq!(out, b"x\x1b]52;c;YWJj\x1b\\".to_vec());
    let mut out = Vec::new();
    write_osc_clipboard(&mut out, b"");
    assert!(out.is_empty());
}
