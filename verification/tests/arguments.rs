use ze2::commands::arguments::{
    command_bool_argument, command_editor_color_argument, command_encoding_argument,
    command_eof_style_argument, command_line_break_argument, command_replace_arguments,
    command_string_argument, parse_margins, command_column_argument, command_tab_width_argument,
    command_binding_argument,
};
use ze2::settings::BindingMode;
use ze2::icu::builtin_encodings;
use ze2::settings::{EditorColor, EofStyle};

fn arg(s: &str) -> Option<Vec<u8>> {
    Some(s.as_bytes().to_vec())
}

#[test]
fn replace_arguments_split_once() {
    assert!(
        command_replace_arguments(&arg("old new value"))
            == Some((b"old".to_vec(), b"new value".to_vec()))
    );
    assert!(command_replace_arguments(&arg("old")).is_none());
}

#[test]
fn bool_arguments_accept_common_values() {
    for value in ["true", "on", "yes", "1"] {
        assert!(command_bool_argument(&arg(value)) == Some(true));
    }
    for value in ["false", "off", "no", "0"] {
        assert!(command_bool_argument(&arg(value)) == Some(false));
    }
    assert!(command_bool_argument(&arg("toggle")).is_none());
}

#[test]
fn editor_color_arguments_accept_supported_values() {
    assert!(command_editor_color_argument(&arg("original")) == Some(EditorColor::Original));
    assert!(command_editor_color_argument(&arg("white-on-blue")) == Some(EditorColor::WhiteOnBlue));
    assert!(command_editor_color_argument(&arg("whiteOnBlue")) == Some(EditorColor::WhiteOnBlue));
    assert!(command_editor_color_argument(&arg("blue")).is_none());
}

#[test]
fn eof_style_arguments_accept_supported_values() {
    assert!(command_eof_style_argument(&arg("original")) == Some(EofStyle::Original));
    assert!(command_eof_style_argument(&arg("classic")) == Some(EofStyle::Classic));
    assert!(command_eof_style_argument(&arg("ks3")) == Some(EofStyle::Ks3));
    assert!(command_eof_style_argument(&arg(" Hidden ")) == Some(EofStyle::Hidden));
    assert!(command_eof_style_argument(&arg("modern")).is_none());
}

#[test]
fn encoding_arguments_accept_canonical_and_label_names() {
    let encodings = builtin_encodings();
    assert!(command_encoding_argument(&arg("utf-8"), &encodings) == Some("UTF-8"));
    assert!(command_encoding_argument(&arg("UTF-8 BOM"), &encodings) == Some("UTF-8 BOM"));
    assert!(command_encoding_argument(&arg("not-an-encoding"), &encodings).is_none());
}

#[test]
fn line_break_arguments_accept_common_values() {
    for value in ["crlf", "cr-lf", "dos", "windows"] {
        assert!(command_line_break_argument(&arg(value)) == Some(true));
    }
    for value in ["lf", "unix"] {
        assert!(command_line_break_argument(&arg(value)) == Some(false));
    }
    assert!(command_line_break_argument(&arg("toggle")).is_none());
}

#[test]
fn string_arguments_are_trimmed_and_never_blank() {
    assert_eq!(command_string_argument(&arg("  hello world \t")), Some(b"hello world".to_vec()));
    assert_eq!(command_string_argument(&arg(" \u{3000} ")), None);
    assert_eq!(command_string_argument(&None), None);
    assert!(command_bool_argument(&arg("  YES ")) == Some(true));
    assert!(command_bool_argument(&None).is_none());
    assert!(command_replace_arguments(&arg("  a\u{3000}b  c ")) == Some((b"a".to_vec(), b"b  c".to_vec())));
}

#[test]
fn set_margins_parses_advertised_arguments() {
    assert_eq!(parse_margins(Some(b"72")), Some((0, 72, 0)));
    assert_eq!(parse_margins(Some(b"5 72")), Some((5, 72, 5)));
    assert_eq!(parse_margins(Some(b"5 72 3")), Some((5, 72, 3)));
}

#[test]
fn set_margins_truncates_extra_and_rejects_junk() {
    // 4th+ values are dropped, not treated as an error.
    assert_eq!(parse_margins(Some(b"1 2 3 4")), Some((1, 2, 3)));
    // Missing/empty/non-numeric input is rejected so the command no-ops.
    assert_eq!(parse_margins(None), None);
    assert_eq!(parse_margins(Some(b"")), None);
    assert_eq!(parse_margins(Some(b"a b")), None);
}

#[test]
fn set_margins_reads_signed_numbers_and_rejects_any_bad_word() {
    assert_eq!(parse_margins(Some(b"  -3\t+7  ")), Some((-3, 7, -3)));
    assert_eq!(parse_margins(Some(b"1 2 3 x")), None);
    assert_eq!(parse_margins(Some(b"99999999999999999999")), None);
    assert_eq!(parse_margins(Some(b"-")), None);
}


#[test]
fn column_arguments_are_normalized() {
    assert_eq!(command_column_argument(&arg(" 72 ")), 72);
    assert_eq!(command_column_argument(&arg("5")), 20);
    assert_eq!(command_column_argument(&arg("-3")), 0);
    assert_eq!(command_column_argument(&arg("wide")), 0);
    assert_eq!(command_column_argument(&None), 0);
}

#[test]
fn tab_width_takes_the_first_word() {
    assert_eq!(command_tab_width_argument(&arg("  4 8")), Some(4));
    assert_eq!(command_tab_width_argument(&arg("-2")), Some(-2));
    assert_eq!(command_tab_width_argument(&arg("four")), None);
    assert_eq!(command_tab_width_argument(&arg("   ")), None);
    assert_eq!(command_tab_width_argument(&None), None);
}

#[test]
fn binding_arguments_name_a_mode() {
    assert_eq!(command_binding_argument(&arg(" ghostty ")), Some(BindingMode::Ghostty));
    assert_eq!(command_binding_argument(&arg("original")), Some(BindingMode::Original));
    assert_eq!(command_binding_argument(&arg("Ghostty")), None);
    assert_eq!(command_binding_argument(&None), None);
}
