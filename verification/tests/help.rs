use ze2::commands::utility::{char_code_text, help_query_from_argument, help_text};

#[test]
fn help_uses_only_the_second_token() {
    assert_eq!(help_query_from_argument(Some(b"about aa xacsadf")), Some(&b"about"[..]));
    assert_eq!(help_query_from_argument(Some(b"ab")), Some(&b"ab"[..]));
    assert_eq!(help_query_from_argument(Some(b"   ")), None);
}

#[test]
fn help_describes_a_known_command() {
    let text = String::from_utf8(help_text(b"save as", true, true)).unwrap();
    assert!(text.contains("save-as") || text.contains("save"), "got: {text}");
}

#[test]
fn help_reports_unknown_command() {
    let text = String::from_utf8(help_text(b"definitely-not-a-command", true, true)).unwrap();
    assert!(text.starts_with("no command"));
    assert_eq!(text, "no command matching 'definitely-not-a-command'");
}

#[test]
fn char_code_reports_decimal_and_hex() {
    assert_eq!(char_code_text(&Some(b"A".to_vec()), None), b"char 65 0x41".to_vec());
    assert_eq!(char_code_text(&Some("é!".as_bytes().to_vec()), Some('x')), b"char 233 0xE9".to_vec());
    assert_eq!(char_code_text(&Some(Vec::new()), Some('\u{1F600}')), b"char 128512 0x1F600".to_vec());
    assert_eq!(char_code_text(&None, None), b"char EOF".to_vec());
}
