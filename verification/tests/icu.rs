use std::cmp::Ordering;
use ze2::icu::{builtin_encodings, compare_strings_ascii};

#[test]
fn test_compare_strings_ascii() {
    // Empty strings
    assert_eq!(compare_strings_ascii(b"", b""), Ordering::Equal);
    // Equal strings
    assert_eq!(compare_strings_ascii(b"hello", b"hello"), Ordering::Equal);
    // Different lengths
    assert_eq!(compare_strings_ascii(b"abc", b"abcd"), Ordering::Less);
    assert_eq!(compare_strings_ascii(b"abcd", b"abc"), Ordering::Greater);
    // Same chars, different cases - 1st char wins
    assert_eq!(compare_strings_ascii(b"AbC", b"aBc"), Ordering::Less);
    // Different chars, different cases
    assert_eq!(compare_strings_ascii(b"a", b"B"), Ordering::Less);
    assert_eq!(compare_strings_ascii(b"B", b"a"), Ordering::Greater);
    // Different chars, different cases - 2nd char wins, because it differs
    assert_eq!(compare_strings_ascii(b"hallo", b"Hello"), Ordering::Less);
    assert_eq!(compare_strings_ascii(b"Hello", b"hallo"), Ordering::Greater);
}

#[test]
fn builtin_encodings_are_utf8_with_and_without_bom() {
    let e = builtin_encodings();
    assert_eq!(e.len(), 2);
    assert_eq!(e[0].canonical, "UTF-8");
    assert_eq!(e[1].label, "UTF-8 BOM");
}

#[test]
fn collation_is_a_total_order() {
    assert_eq!(compare_strings_ascii(b"abc", b"abca"), Ordering::Less);
    assert_eq!(compare_strings_ascii(b"abca", b"ABCD"), Ordering::Less);
    assert_eq!(compare_strings_ascii(b"abc", b"ABCD"), Ordering::Less);
    assert_eq!(compare_strings_ascii(b"ABCD", b"abc"), Ordering::Greater);
    // Case decides only between strings that fold to the same one.
    assert_eq!(compare_strings_ascii(b"Ab", b"ab"), Ordering::Less);
    assert_eq!(compare_strings_ascii(b"ab", b"Ab"), Ordering::Greater);
}
