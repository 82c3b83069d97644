use ze2::vt::{Parser, Token};

fn osc(t: Option<Token>) -> Option<(Vec<u8>, bool)> {
    match t {
        Some(Token::Osc { data, partial }) => Some((data, partial)),
        _ => None,
    }
}

#[test]
fn osc_payload_split_after_its_escape_stays_osc() {
    let mut s = Parser::new().parse(b"\x1b]0;title\x1b");
    assert_eq!(osc(s.next()), Some((b"0;title".to_vec(), true)));
    assert!(s.next().is_none());
    let mut s2 = s.parser.parse(b"\\rest");
    assert_eq!(osc(s2.next()), Some((Vec::new(), false)));
    assert!(matches!(s2.next(), Some(Token::Text(t)) if t == b"rest".to_vec()));
}

#[test]
fn dcs_payload_split_after_its_escape_stays_dcs() {
    let mut s = Parser::new().parse(b"\x1bPq#0\x1b");
    assert!(matches!(s.next(), Some(Token::Dcs { data, partial: true }) if data == b"q#0".to_vec()));
    let mut s2 = s.parser.parse(b"x");
    assert!(matches!(s2.next(), Some(Token::Dcs { data, partial: true }) if data == b"\x1b".to_vec()));
}
