use ze2::apperr::Error;
use ze2::settings::{normalize_word_wrap_column, update_json_setting, EditorColor, JsonValue, Settings};

#[test]
fn update_json_setting_inserts_into_empty_object() {
    assert_eq!(
        update_json_setting("{}\n", "editor.wordWrap", "true").unwrap(),
        b"{\n  \"editor.wordWrap\": true\n}\n".to_vec()
    );
}

#[test]
fn update_json_setting_replaces_existing_value() {
    assert_eq!(
        update_json_setting(
            "{\n  \"editor.wordWrap\": false,\n  \"editor.wordWrapColumn\": 80\n}\n",
            "editor.wordWrapColumn",
            "120",
        )
        .unwrap(),
        b"{\n  \"editor.wordWrap\": false,\n  \"editor.wordWrapColumn\": 120\n}\n".to_vec()
    );
}

#[test]
fn update_json_setting_preserves_unknown_entries() {
    assert_eq!(
        update_json_setting(
            "{\n  // Keep this comment.\n  \"files.associations\": {\"*.foo\": \"text\"}\n}\n",
            "editor.wordWrap",
            "true",
        )
        .unwrap(),
        b"{\n  // Keep this comment.\n  \"files.associations\": {\"*.foo\": \"text\"},\n  \"editor.wordWrap\": true\n}\n"
            .to_vec()
    );
}

#[test]
fn update_json_setting_needs_a_root_object() {
    assert!(update_json_setting("", "a", "1").is_none());
    assert!(update_json_setting("[1, 2]", "a", "1").is_none());
    assert!(update_json_setting("{ \"a\": 1", "a", "2").is_none());
}

#[test]
fn update_json_setting_skips_comments() {
    // A key inside a comment is not an entry; the value runs to the root's end.
    let text = "/* header */ {\n  \"outer\": {\"b\": 1},\n  // \"a\": 5\n  \"a\": 2 /* two */\n}\n";
    assert_eq!(
        update_json_setting(text, "a", "3").unwrap(),
        b"/* header */ {\n  \"outer\": {\"b\": 1},\n  // \"a\": 5\n  \"a\": 3\n}\n".to_vec()
    );
}

#[test]
fn update_json_setting_matches_top_level_keys_only() {
    // Keys inside nested objects and comments are not the setting.
    let text = "/* header */ {\n  \"outer\": {\"a\": 1},\n  // \"a\": 5\n  \"a\": 2 /* two */\n}\n";
    assert_eq!(
        update_json_setting(text, "a", "3").unwrap(),
        b"/* header */ {\n  \"outer\": {\"a\": 1},\n  // \"a\": 5\n  \"a\": 3\n}\n".to_vec()
    );
    assert_eq!(
        update_json_setting("{\"a\": {\"k\": 1}}", "k", "2").unwrap(),
        b"{\"a\": {\"k\": 1},\n  \"k\": 2\n}".to_vec()
    );
    assert_eq!(
        update_json_setting("{\"a\": [\"k\", {\"k\": 0}], \"k\": 1}", "k", "2").unwrap(),
        b"{\"a\": [\"k\", {\"k\": 0}], \"k\": 2}".to_vec()
    );
}

#[test]
fn update_json_setting_keeps_text_after_the_root() {
    assert_eq!(
        update_json_setting("{\"a\": 1}\n\"x\"", "b", "2").unwrap(),
        b"{\"a\": 1,\n  \"b\": 2\n}\n\"x\"".to_vec()
    );
}

#[test]
fn update_json_setting_replaces_value_before_comma() {
    assert_eq!(
        update_json_setting("{\"a\" : [1, {\"b\": 2}] , \"c\": 3}", "a", "null").unwrap(),
        b"{\"a\" : null , \"c\": 3}".to_vec()
    );
}

#[test]
fn normalize_word_wrap_column_clamps() {
    assert_eq!(normalize_word_wrap_column(-5), 0);
    assert_eq!(normalize_word_wrap_column(0), 0);
    assert_eq!(normalize_word_wrap_column(1), 20);
    assert_eq!(normalize_word_wrap_column(20), 20);
    assert_eq!(normalize_word_wrap_column(80), 80);
}

#[test]
fn setters_write_the_file_and_take_the_setting() {
    let p: &[u8] = b"/home/u/.config/ze2/settings.json";
    let mut s = Settings::new();
    let text = s.set_word_wrap(true, p, None).unwrap();
    assert_eq!(text, b"{\n  \"editor.wordWrap\": true\n}\n".to_vec());
    assert!(s.word_wrap);
    assert_eq!(s.path, p.to_vec());

    let text2 = s.set_word_wrap_column(7, p, Some(std::str::from_utf8(&text).unwrap())).unwrap();
    assert_eq!(text2, b"{\n  \"editor.wordWrap\": true,\n  \"editor.wordWrapColumn\": 20\n}\n".to_vec());
    assert_eq!(s.word_wrap_column, 20);

    let text3 = s.set_editor_color(EditorColor::WhiteOnBlue, p, Some("  \n")).unwrap();
    assert_eq!(text3, b"{\n  \"editor.color\": \"whiteOnBlue\"\n}\n".to_vec());
    assert!(s.editor_color == EditorColor::WhiteOnBlue);

    assert!(matches!(s.set_ruler(true, p, Some("[]")), Err(Error::SettingsInvalid("Non-object root"))));
    assert!(!s.ruler);
    assert!(matches!(s.set_center_text(true, p, Some("42")), Err(Error::SettingsInvalid("Non-object root"))));
    assert!(!s.center_text);
    assert!(s.set_highlight_current_char(true, p, Some("{}")).is_ok());
    assert!(s.highlight_current_char);
}

#[test]
fn setters_record_the_settings_path_only_on_success() {
    let mut s = Settings::new();
    s.path = b"/old/settings.json".to_vec();
    assert!(s.set_ruler(true, b"/new/settings.json", Some("{ x }")).is_err());
    assert_eq!(s.path, b"/old/settings.json".to_vec());
    assert!(!s.ruler);
    assert!(s.set_ruler(true, b"/new/settings.json", Some("{}")).is_ok());
    assert_eq!(s.path, b"/new/settings.json".to_vec());
    assert!(s.ruler);
}

#[test]
fn setters_refuse_invalid_json() {
    let mut s = Settings::new();
    let p: &[u8] = b"settings.json";
    assert!(matches!(s.set_word_wrap(true, p, Some("{ x }")), Err(Error::SettingsInvalid("Invalid JSON"))));
    assert!(matches!(s.set_word_wrap(true, p, Some("{ invalid")), Err(Error::SettingsInvalid("Invalid JSON"))));
    assert!(!s.word_wrap);
    // Comments are accepted.
    let t = s.set_word_wrap(true, p, Some("{\n  // note\n  \"editor.ruler\": true\n}\n")).unwrap();
    assert_eq!(t, b"{\n  // note\n  \"editor.ruler\": true,\n  \"editor.wordWrap\": true\n}\n".to_vec());
    assert!(s.word_wrap);
}

fn text(s: &str) -> JsonValue {
    JsonValue::String(s.as_bytes().to_vec())
}

fn entry(k: &str, v: JsonValue) -> (Vec<u8>, JsonValue) {
    (k.as_bytes().to_vec(), v)
}

#[test]
fn loading_reads_switches_columns_and_colors() {
    let mut s = Settings::new();
    let root = JsonValue::Object(vec![
        entry("editor.wordWrap", text("on")),
        entry("editor.ruler", JsonValue::Bool(true)),
        entry("editor.wordWrapColumn", JsonValue::Number(7)),
        entry("editor.centerText", text("yes")),
        entry("editor.cursorStyle", text("block")),
        entry("editor.color", text("whiteOnBlue")),
        entry("editor.ruler", JsonValue::Bool(false)),
    ]);
    assert!(s.apply_json(&root, &["rust"]).is_ok());
    assert!(s.word_wrap && s.ruler && !s.center_text && s.highlight_current_char);
    assert_eq!(s.word_wrap_column, 20);
    assert_eq!(s.editor_color, EditorColor::WhiteOnBlue);

    // Anything but `whiteOnBlue` is the original scheme; other types change nothing.
    let root = JsonValue::Object(vec![
        entry("editor.color", text("solarized")),
        entry("editor.wordWrap", JsonValue::Number(1)),
        entry("editor.highlightCurrentChar", JsonValue::Bool(false)),
    ]);
    assert!(s.apply_json(&root, &["rust"]).is_ok());
    assert_eq!(s.editor_color, EditorColor::Original);
    assert!(s.word_wrap && !s.highlight_current_char);
}

#[test]
fn loading_reads_file_associations() {
    let mut s = Settings::new();
    let root = JsonValue::Object(vec![entry(
        "files.associations",
        JsonValue::Object(vec![entry("*.rs", text("rust")), entry("src/*.txt", text("markdown"))]),
    )]);
    assert!(s.apply_json(&root, &["rust", "markdown"]).is_ok());
    assert_eq!(
        s.file_associations,
        vec![(b"**/*.rs".to_vec(), b"rust".to_vec()), (b"src/*.txt".to_vec(), b"markdown".to_vec())]
    );
}

#[test]
fn loading_stops_at_an_invalid_association() {
    let mut s = Settings::new();
    let root = JsonValue::Object(vec![
        entry(
            "files.associations",
            JsonValue::Object(vec![entry("*.rs", text("rust")), entry("*.x", text("cobol")), entry("*.y", text("rust"))]),
        ),
        entry("editor.ruler", JsonValue::Bool(true)),
    ]);
    assert!(matches!(s.apply_json(&root, &["rust"]), Err(Error::SettingsInvalid("language ID"))));
    assert_eq!(s.file_associations, vec![(b"**/*.rs".to_vec(), b"rust".to_vec())]);
    assert!(!s.ruler);

    let mut s = Settings::new();
    let root = JsonValue::Object(vec![entry(
        "files.associations",
        JsonValue::Object(vec![entry("*.rs", JsonValue::Bool(true))]),
    )]);
    assert!(matches!(s.apply_json(&root, &["rust"]), Err(Error::SettingsInvalid("files.associations"))));
    let mut s = Settings::new();
    assert!(matches!(s.apply_json(&JsonValue::Array(vec![]), &["rust"]), Err(Error::SettingsInvalid("Non-object root"))));
}
