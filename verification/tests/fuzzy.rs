use ze2::fuzzy::score_fuzzy;

fn score(h: &str, n: &str, allow: bool) -> (i32, Vec<usize>) {
    score_fuzzy(h, n, &h.to_lowercase(), &n.to_lowercase(), allow)
}

#[test]
fn fuzzy_scores_and_positions() {
    assert_eq!(score("HelloWorld", "hw", true), (12, vec![0, 5]));
    assert_eq!(score("src/main.rs", "main", false), (43, vec![4, 5, 6, 7]));
    assert_eq!(score("foo_bar", "fb", true), (16, vec![0, 4]));
    assert_eq!(score("NullPointerException", "NPE", true), (18, vec![0, 4, 11]));
    assert_eq!(score("a/b", "a\\b", true), (33, vec![0, 1, 2]));
}

#[test]
fn fuzzy_matches_in_sequence_only() {
    // "de" in "ede" matches at 1..3, not the first "e".
    assert_eq!(score("ede", "de", true), (9, vec![1, 2]));
}

#[test]
fn fuzzy_no_match_cases() {
    assert_eq!(score("HelloWorld", "hw", false), (0, vec![]));
    assert_eq!(score("abc", "abcd", true), (0, vec![]));
    assert_eq!(score("", "a", true), (0, vec![]));
    assert_eq!(score("a", "", true), (0, vec![]));
    assert_eq!(score("abc", "xyz", true), (0, vec![]));
}
