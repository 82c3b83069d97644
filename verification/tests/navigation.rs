use ze2::document::{ReadableDocument, WriteableDocument};
use ze2::navigation::{word_backward, word_forward, word_select};

#[test]
fn test_word_navigation() {
    assert_eq!(word_forward(&"Hello World".as_bytes(), 0), 5);
    assert_eq!(word_forward(&"Hello,World".as_bytes(), 0), 5);
    assert_eq!(word_forward(&"   Hello".as_bytes(), 0), 8);
    assert_eq!(word_forward(&"\n\nHello".as_bytes(), 0), 1);

    assert_eq!(word_backward(&"Hello World".as_bytes(), 11), 6);
    assert_eq!(word_backward(&"Hello,World".as_bytes(), 10), 6);
    assert_eq!(word_backward(&"Hello   ".as_bytes(), 7), 0);
    assert_eq!(word_backward(&"Hello\n\n".as_bytes(), 7), 6);
}

#[test]
fn word_navigation_edges() {
    // A lone separator takes the following word along.
    assert_eq!(word_forward(&"a.bc d".as_bytes(), 1), 4);
    assert_eq!(word_forward(&"a..bc".as_bytes(), 1), 3);
    assert_eq!(word_forward(&"\r\nab".as_bytes(), 0), 4);
    assert_eq!(word_forward(&"abc".as_bytes(), 3), 3);
    assert_eq!(word_forward(&"abc".as_bytes(), 9), 9);
    assert_eq!(word_backward(&"ab\r\n".as_bytes(), 4), 0);
    assert_eq!(word_backward(&"".as_bytes(), 0), 0);
    let v: Vec<u8> = b"one two".to_vec();
    assert_eq!(word_forward(&v, 3), 7);
}

#[test]
fn word_select_finds_the_word_under_the_cursor() {
    let doc = "foo bar,baz\nqux".as_bytes();
    assert_eq!(word_select(&doc, 5), 4..7);
    assert_eq!(word_select(&doc, 4), 4..7);
    assert_eq!(word_select(&doc, 7), 7..8);
    assert_eq!(word_select(&doc, 11), 8..11);
    assert_eq!(word_select(&doc, 15), 12..15);
    assert_eq!(word_select(&doc, 0), 0..3);
}

#[test]
fn documents_read_in_clamped_chunks_and_replace() {
    let doc = "hello".as_bytes();
    assert_eq!(doc.read_forward(2), b"llo");
    assert_eq!(doc.read_forward(9), b"");
    assert_eq!(doc.read_backward(2), b"he");
    assert_eq!(doc.read_backward(9), b"hello");
    let mut v = b"hello world".to_vec();
    v.replace(0, 5, b"goodbye");
    assert_eq!(v, b"goodbye world".to_vec());
    v.replace(20, 30, b"!");
    assert_eq!(v, b"goodbye world!".to_vec());
}
