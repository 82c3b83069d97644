use ze2::commands::arguments::command_path_argument;
use ze2::path::normalize;

fn norm(s: &str) -> String {
    String::from_utf8(normalize(s.as_bytes())).unwrap()
}

#[test]
fn test_unix() {
    assert_eq!(norm("/a/b/c"), "/a/b/c");
    assert_eq!(norm("/a/b/c/"), "/a/b/c");
    assert_eq!(norm("/a/./b"), "/a/b");
    assert_eq!(norm("/a/b/../c"), "/a/c");
    assert_eq!(norm("/../../a"), "/a");
    assert_eq!(norm("/../"), "/");
    assert_eq!(norm("/a//b/c"), "/a/b/c");
    assert_eq!(norm("/a/b/c/../../../../d"), "/d");
    assert_eq!(norm("//"), "/");
}

#[test]
fn path_arguments_are_absolute_and_normal() {
    let arg = |s: &str| Some(s.as_bytes().to_vec());
    assert_eq!(command_path_argument(&arg(" notes.txt "), b"/home/u"), Some(b"/home/u/notes.txt".to_vec()));
    assert_eq!(command_path_argument(&arg("../x"), b"/home/u/"), Some(b"/home/x".to_vec()));
    assert_eq!(command_path_argument(&arg("/etc/./hosts"), b"/home/u"), Some(b"/etc/hosts".to_vec()));
    assert_eq!(command_path_argument(&arg("   "), b"/"), None);
    assert_eq!(command_path_argument(&None, b"/"), None);
}

#[test]
fn normalizing_twice_changes_nothing() {
    for p in [&b"/a/./b//c/../d/"[..], b"/../x/..", b"/", b"/a/b/c", b"//.//..//z"] {
        let once = normalize(p);
        assert_eq!(normalize(&once), once);
    }
}
