use ze2::apperr::Error;
use ze2::json::parse_json;
use ze2::settings::{EditorColor, JsonValue, Settings};

fn key_of(v: &JsonValue, i: usize) -> Vec<u8> {
    match v {
        JsonValue::Object(e) => e[i].0.clone(),
        _ => panic!("an object"),
    }
}

#[test]
fn parses_json_with_comments_and_trailing_commas() {
    let v = parse_json(b"// settings\n{ \"a\": [1, -2.7, true, null,], /* x */ \"b\": \"q\\u00e9\\n\", }\n").unwrap();
    match &v {
        JsonValue::Object(e) => {
            assert_eq!(e.len(), 2);
            match &e[0].1 {
                JsonValue::Array(a) => {
                    assert_eq!(a.len(), 4);
                    assert!(matches!(a[0], JsonValue::Number(1)));
                    assert!(matches!(a[1], JsonValue::Number(-2)));
                    assert!(matches!(a[2], JsonValue::Bool(true)));
                    assert!(matches!(a[3], JsonValue::Null));
                },
                _ => panic!("an array"),
            }
            match &e[1].1 {
                JsonValue::String(s) => assert_eq!(s, &"qé\n".as_bytes().to_vec()),
                _ => panic!("a string"),
            }
        },
        _ => panic!("an object"),
    }
    assert_eq!(key_of(&v, 1), b"b".to_vec());
}

#[test]
fn rejects_what_is_not_json() {
    assert!(parse_json(b"").is_none());
    assert!(parse_json(b"{\"a\": 1} x").is_none());
    assert!(parse_json(b"{\"a\" 1}").is_none());
    assert!(parse_json(b"[1 2]").is_none());
    assert!(parse_json(b"\"open").is_none());
    assert!(parse_json(b"[,]").is_none());
    assert!(matches!(parse_json(b" 99999999999999999999999 "), Some(JsonValue::Number(isize::MAX))));
    assert!(matches!(parse_json(b"1e3"), Some(JsonValue::Null)));
}

#[test]
fn loading_reads_the_file_text() {
    let mut s = Settings::new();
    let text = b"{\n  // wrap long lines\n  \"editor.wordWrap\": true,\n  \"editor.color\": \"whiteOnBlue\",\n}\n";
    assert!(s.load_from_text(Some(text), &[]).is_ok());
    assert!(s.word_wrap);
    assert_eq!(s.editor_color, EditorColor::WhiteOnBlue);
    assert!(matches!(s.load_from_text(Some(b"{oops"), &[]), Err(Error::SettingsInvalid("Invalid JSON"))));
    assert!(s.load_from_text(None, &[]).is_ok());
    assert!(s.word_wrap);
}

#[test]
fn reloading_starts_from_the_defaults() {
    let mut s = Settings::new();
    assert!(s.reload_from_text(b"/cfg/settings.json".to_vec(), Some(b"{\"editor.ruler\": true}"), &[]).is_ok());
    assert!(s.ruler);
    assert!(s.reload_from_text(b"/cfg/settings.json".to_vec(), Some(b"{}"), &[]).is_ok());
    assert!(!s.ruler);
    assert_eq!(s.path, b"/cfg/settings.json".to_vec());
}
