use ze2::helpers::{Point, Rect, Size};
use ze2::text::lex_less;

#[test]
fn rectangles_intersect_to_their_common_part() {
    let a = Rect { left: 0, top: 0, right: 10, bottom: 5 };
    let b = Rect { left: 4, top: -2, right: 20, bottom: 3 };
    let c = a.intersect(b);
    assert_eq!(c, Rect { left: 4, top: 0, right: 10, bottom: 3 });
    assert_eq!(c, b.intersect(a));
    for (x, y) in [(4, 0), (9, 2), (3, 1), (10, 1), (5, 3), (5, -1)] {
        let p = Point { x, y };
        assert_eq!(c.contains(p), a.contains(p) && b.contains(p));
    }
    // Disjoint rectangles give an empty one, never a negative size.
    let d = a.intersect(Rect { left: 20, top: 20, right: 30, bottom: 30 });
    assert!(d.is_empty());
    assert!(d.width() >= 0 && d.height() >= 0);
    assert_eq!(Size { width: 3, height: 2 }.as_rect(), Rect { left: 0, top: 0, right: 3, bottom: 2 });
}

#[test]
fn byte_strings_are_ordered_lexicographically() {
    assert!(lex_less(b"abc", b"abd"));
    assert!(lex_less(b"ab", b"abc"));
    assert!(!lex_less(b"abc", b"ab"));
    assert!(!lex_less(b"abc", b"abc"));
    assert!(lex_less(b"", b"a"));
    // Exactly one of a < b, b < a, a == b; and the order is transitive.
    let words: [&[u8]; 5] = [b"", b"a", b"ab", b"b", b"ba"];
    for a in words {
        for b in words {
            let n = [lex_less(a, b), lex_less(b, a), a == b].iter().filter(|&&x| x).count();
            assert_eq!(n, 1);
            for c in words {
                if lex_less(a, b) && lex_less(b, c) {
                    assert!(lex_less(a, c));
                }
            }
        }
    }
}
