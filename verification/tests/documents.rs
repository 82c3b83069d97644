use ze2::documents::{Document, DocumentManager};
use ze2::editor::{validate_goto_point, ParseIntError};
use ze2::helpers::Point;

fn parse(s: &str) -> (&str, Option<Point>) {
    let (p, g) = DocumentManager::parse_filename_goto(s.as_bytes());
    (std::str::from_utf8(p).unwrap(), g)
}

#[test]
fn test_parse_last_numbers() {
    assert_eq!(parse("123"), ("123", None));
    assert_eq!(parse("abc"), ("abc", None));
    assert_eq!(parse(":123"), (":123", None));
    assert_eq!(parse("abc:123"), ("abc", Some(Point { x: 0, y: 122 })));
    assert_eq!(parse("45:123"), ("45", Some(Point { x: 0, y: 122 })));
    assert_eq!(parse(":45:123"), (":45", Some(Point { x: 0, y: 122 })));
    assert_eq!(parse("abc:45:123"), ("abc", Some(Point { x: 122, y: 44 })));
    assert_eq!(parse("abc:def:123"), ("abc:def", Some(Point { x: 0, y: 122 })));
    assert_eq!(parse("1:2:3"), ("1", Some(Point { x: 2, y: 1 })));
    assert_eq!(parse("::3"), (":", Some(Point { x: 0, y: 2 })));
    assert_eq!(parse("1::3"), ("1:", Some(Point { x: 0, y: 2 })));
    assert_eq!(parse(""), ("", None));
    assert_eq!(parse(":"), (":", None));
    assert_eq!(parse("::"), ("::", None));
    assert_eq!(parse("a:1"), ("a", Some(Point { x: 0, y: 0 })));
    assert_eq!(parse("1:a"), ("1:a", None));
    assert_eq!(parse("file.txt:10"), ("file.txt", Some(Point { x: 0, y: 9 })));
    assert_eq!(parse("file.txt:10:5"), ("file.txt", Some(Point { x: 4, y: 9 })));
}

#[test]
fn untitled_documents_are_numbered() {
    let mut m = DocumentManager::new();
    assert_eq!(m.len(), 0);
    assert!(m.active().is_none());
    m.add_untitled();
    m.add_untitled();
    assert_eq!(m.len(), 2);
    assert_eq!(m.active().unwrap().filename, b"Untitled-2.txt".to_vec());
    m.remove_active();
    assert_eq!(m.active().unwrap().filename, b"Untitled-1.txt".to_vec());
    m.add_untitled();
    assert_eq!(m.active().unwrap().new_file_counter, 2);
    m.active_mut().unwrap().dirty = true;
    assert!(m.active().unwrap().dirty);
}

#[test]
fn opening_files_replaces_a_pristine_untitled_document() {
    let mut m = DocumentManager::new();
    m.add_untitled();
    m.add_file_path(b"/home/u/a.txt".to_vec(), Some((1, 10)));
    assert_eq!(m.len(), 1);
    let a = m.active().unwrap();
    assert_eq!(a.filename, b"a.txt".to_vec());
    assert_eq!(a.dir, Some(b"/home/u".to_vec()));
    assert_eq!(a.ruler, 0);
    m.add_file_path(b"/repo/.git/COMMIT_EDITMSG".to_vec(), Some((1, 11)));
    assert_eq!(m.len(), 2);
    assert_eq!(m.active().unwrap().ruler, 72);
    // Re-activating the first file moves it to the end.
    assert!(m.update_active(Some((1, 10))));
    assert_eq!(m.active().unwrap().filename, b"a.txt".to_vec());
    assert!(!m.update_active(Some((1, 10))));
    assert!(!m.update_active(Some((9, 9))));
    m.add_file_path(b"/top".to_vec(), None);
    assert_eq!(m.active().unwrap().dir, Some(b"/".to_vec()));
    assert_eq!(m.len(), 3);
}

#[test]
fn document_bookkeeping() {
    let mut d = Document::new();
    d.save(Some(b"/x/y.rs".to_vec()), Some((3, 4)));
    assert_eq!(d.path, Some(b"/x/y.rs".to_vec()));
    assert_eq!(d.file_id, Some((3, 4)));
    d.reread(Some((3, 5)));
    assert_eq!(d.file_id, Some((3, 5)));
    d.override_language(Some("rust"));
    assert_eq!(d.language_override, Some(Some("rust")));
    d.auto_detect_language();
    assert_eq!(d.language_override, None);
}

#[test]
fn goto_points_are_zero_based() {
    assert_eq!(validate_goto_point("10"), Ok(Point { x: -1, y: 9 }));
    assert_eq!(validate_goto_point("10:5"), Ok(Point { x: 4, y: 9 }));
    assert_eq!(validate_goto_point("0:0"), Ok(Point { x: -1, y: -1 }));
    assert_eq!(validate_goto_point("+3:-2"), Ok(Point { x: -3, y: 2 }));
    assert_eq!(validate_goto_point("a"), Err(ParseIntError));
    assert_eq!(validate_goto_point("1:"), Err(ParseIntError));
    assert_eq!(validate_goto_point("1:2:3"), Err(ParseIntError));
    assert_eq!(validate_goto_point(""), Err(ParseIntError));
    assert_eq!(
        validate_goto_point("-9223372036854775808"),
        Ok(Point { x: -1, y: -9223372036854775808 })
    );
}
