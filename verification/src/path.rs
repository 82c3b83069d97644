//! Path helpers: lexical normalization of absolute (Unix-style) paths.

use vstd::prelude::*;
use crate::text::{extend_bytes, find_byte, find_byte_exec};

verus! {

/// Whether a path segment is `.`.
pub open spec fn is_dot(s: Seq<u8>) -> bool {
    s.len() == 1 && s[0] == 0x2e
}

/// Whether a path segment is `..`.
pub open spec fn is_dot_dot(s: Seq<u8>) -> bool {
    s.len() == 2 && s[0] == 0x2e && s[1] == 0x2e
}

/// The segments that remain after walking the segments of `p` from offset
/// `i` on, starting with the segments `st`: empty segments and `.` are
/// dropped, `..` drops the segment before it (never the root), and every other
/// segment is kept.
pub open spec fn norm_stack(p: Seq<u8>, i: int, st: Seq<Seq<u8>>) -> Seq<Seq<u8>>
    decreases p.len() + 1 - i,
{
    if i < 0 || i >= p.len() {
        st
    } else {
        let e = find_byte(p, 0x2f, i);
        if e < i {
            st
        } else {
            let seg = p.subrange(i, e);
            let st2 = if seg.len() == 0 || is_dot(seg) {
                st
            } else if is_dot_dot(seg) {
                if st.len() > 0 {
                    st.drop_last()
                } else {
                    st
                }
            } else {
                st.push(seg)
            };
            proof {
                lemma_find_byte(p, 0x2f, i);
            }
            norm_stack(p, e + 1, st2)
        }
    }
}

/// The absolute path made of the segments `st`: `/` alone, or each segment after a `/`.
pub open spec fn render(st: Seq<Seq<u8>>) -> Seq<u8>
    decreases st.len(),
{
    if st.len() == 0 {
        seq![0x2fu8]
    } else if st.len() == 1 {
        seq![0x2fu8] + st[0]
    } else {
        render(st.drop_last()) + seq![0x2fu8] + st.last()
    }
}

/// The normal form of an absolute path.
pub open spec fn spec_normalize_path(p: Seq<u8>) -> Seq<u8> {
    render(norm_stack(p, 1, Seq::empty()))
}

pub proof fn lemma_find_byte(s: Seq<u8>, b: u8, i: int)
    requires
        0 <= i <= s.len(),
    ensures
        i <= find_byte(s, b, i) <= s.len(),
    decreases s.len() - i,
{
    if i < s.len() && s[i] != b {
        lemma_find_byte(s, b, i + 1);
    }
}

/// Normalizes an absolute path by removing redundant components: repeated
/// and trailing separators, `.`, and `..` with the segment before it (at the
/// root, `..` stays at the root).
pub fn normalize(path: &[u8]) -> (r: Vec<u8>)
    requires
        path@.len() > 0,
        path@[0] == 0x2f,
    ensures
        r@ == spec_normalize_path(path@),
{
    let mut stack: Vec<(usize, usize)> = Vec::new();
    let ghost mut st: Seq<Seq<u8>> = Seq::empty();
    let mut i: usize = 1;
    while i < path.len()
        invariant
            1 <= i <= path@.len(),
            st.len() == stack@.len(),
            forall|k: int|
                0 <= k < stack@.len() ==> #[trigger] stack@[k].0 <= stack@[k].1 <= path@.len() && st[k]
                    == path@.subrange(stack@[k].0 as int, stack@[k].1 as int),
            norm_stack(path@, i as int, st) == norm_stack(path@, 1, Seq::empty()),
        decreases path@.len() - i,
    {
        proof {
            lemma_find_byte(path@, 0x2f, i as int);
        }
        let e = find_byte_exec(path, 0x2f, i);
        let len = e - i;
        let is_dot_seg = len == 1 && path[i] == 0x2e;
        let is_dot_dot_seg = len == 2 && path[i] == 0x2e && path[i + 1] == 0x2e;
        let ghost seg = path@.subrange(i as int, e as int);

        if len == 0 || is_dot_seg {
        } else if is_dot_dot_seg {
            if stack.len() > 0 {
                stack.pop();
                proof {
                    st = st.drop_last();
                }
            }
        } else {
            stack.push((i, e));
            proof {
                st = st.push(seg);
            }
        }
        if e >= path.len() {
            proof {
                assert(norm_stack(path@, e + 1, st) == st);
                assert(norm_stack(path@, path@.len() as int, st) == st);
            }
            i = path.len();
        } else {
            i = e + 1;
        }
    }
    let mut out: Vec<u8> = Vec::new();
    out.push(0x2f);
    let mut k: usize = 0;
    while k < stack.len()
        invariant
            k <= stack@.len(),
            st.len() == stack@.len(),
            forall|m: int|
                0 <= m < stack@.len() ==> #[trigger] stack@[m].0 <= stack@[m].1 <= path@.len() && st[m]
                    == path@.subrange(stack@[m].0 as int, stack@[m].1 as int),
            k == 0 ==> out@ == seq![0x2fu8],
            k > 0 ==> out@ == render(st.take(k as int)),
        decreases stack@.len() - k,
    {
        let (a, b) = stack[k];
        if k > 0 {
            out.push(0x2f);
        }
        extend_bytes(&mut out, &path[a..b]);
        proof {
            assert(st.take(k + 1).drop_last() =~= st.take(k as int));
            if k == 0 {
                assert(out@ =~= seq![0x2fu8] + st[0]);
            } else {
                assert(out@ =~= render(st.take(k as int)) + seq![0x2fu8] + st[k as int]);
            }
        }
        k += 1;
    }
    proof {
        assert(st.take(k as int) =~= st);
        if st.len() == 0 {
            assert(render(st) == seq![0x2fu8]);
        }
    }
    out
}

/// A segment that normalization keeps as it is: not empty, not `.` or `..`,
/// and without a separator.
pub open spec fn good_segment(s: Seq<u8>) -> bool {
    s.len() > 0 && !is_dot(s) && !is_dot_dot(s) && forall|k: int| 0 <= k < s.len() ==> s[k] != 0x2f
}

/// Every segment of `st` is kept as it is.
pub open spec fn good_segments(st: Seq<Seq<u8>>) -> bool {
    forall|k: int| 0 <= k < st.len() ==> good_segment(#[trigger] st[k])
}

/// `find_byte` stops at the first `b` at or after `i`, or at the end.
proof fn lemma_find_byte_first(s: Seq<u8>, b: u8, i: int)
    requires
        0 <= i <= s.len(),
    ensures
        i <= find_byte(s, b, i) <= s.len(),
        forall|k: int| i <= k < find_byte(s, b, i) ==> s[k] != b,
        find_byte(s, b, i) < s.len() ==> s[find_byte(s, b, i)] == b,
    decreases s.len() - i,
{
    if i < s.len() && s[i] != b {
        lemma_find_byte_first(s, b, i + 1);
    }
}

/// Searching a prefix that ends just before a `b` finds what searching the
/// whole finds, or the prefix's end.
proof fn lemma_find_byte_take(s: Seq<u8>, b: u8, i: int, j: int)
    requires
        0 <= i <= j < s.len(),
        s[j] == b,
    ensures
        find_byte(s.take(j), b, i) == find_byte(s, b, i),
        find_byte(s, b, i) <= j,
    decreases j - i,
{
    if i < j && s[i] != b {
        lemma_find_byte_take(s, b, i + 1, j);
    }
}

/// Normalization keeps only good segments.
proof fn lemma_norm_stack_good(p: Seq<u8>, i: int, st: Seq<Seq<u8>>)
    requires
        good_segments(st),
    ensures
        good_segments(norm_stack(p, i, st)),
    decreases p.len() + 1 - i,
{
    if 0 <= i < p.len() {
        let e = find_byte(p, 0x2f, i);
        lemma_find_byte_first(p, 0x2f, i);
        let seg = p.subrange(i, e);
        let st2 = if seg.len() == 0 || is_dot(seg) {
            st
        } else if is_dot_dot(seg) {
            if st.len() > 0 {
                st.drop_last()
            } else {
                st
            }
        } else {
            st.push(seg)
        };
        assert(good_segments(st2));
        lemma_norm_stack_good(p, e + 1, st2);
    }
}

/// The walk over a path can be cut at a separator: the part before it is
/// walked on its own, and the walk goes on after it.
proof fn lemma_norm_stack_split(p: Seq<u8>, i: int, j: int, st: Seq<Seq<u8>>)
    requires
        0 <= i <= j < p.len(),
        p[j] == 0x2f,
    ensures
        norm_stack(p, i, st) == norm_stack(p, j + 1, norm_stack(p.take(j), i, st)),
    decreases j - i,
{
    let e = find_byte(p, 0x2f, i);
    lemma_find_byte_take(p, 0x2f, i, j);
    lemma_find_byte_first(p, 0x2f, i);
    let q = p.take(j);
    assert(q.subrange(i, e) == p.subrange(i, e));
    let seg = p.subrange(i, e);
    let st2 = if seg.len() == 0 || is_dot(seg) {
        st
    } else if is_dot_dot(seg) {
        if st.len() > 0 {
            st.drop_last()
        } else {
            st
        }
    } else {
        st.push(seg)
    };
    if i == j {
        assert(norm_stack(q, i, st) == st);
    } else if e < j {
        lemma_norm_stack_split(p, e + 1, j, st2);
    } else {
        assert(norm_stack(q, e + 1, st2) == st2);
    }
}

/// Normalizing a path made of good segments gives those segments back.
proof fn lemma_render_norm(st: Seq<Seq<u8>>)
    requires
        good_segments(st),
    ensures
        norm_stack(render(st), 1, Seq::empty()) == st,
        render(st).len() >= 1,
        render(st)[0] == 0x2f,
    decreases st.len(),
{
    if st.len() == 0 {
        assert(norm_stack(render(st), 1, Seq::empty()) == Seq::<Seq<u8>>::empty());
    } else {
        let last = st.last();
        assert(good_segment(st[st.len() - 1]));
        let prefix = st.drop_last();
        let p = render(st);
        let j: int = if st.len() == 1 {
            0
        } else {
            render(prefix).len() as int
        };
        if st.len() == 1 {
            assert(p =~= seq![0x2fu8] + last);
            assert(prefix =~= Seq::<Seq<u8>>::empty());
        } else {
            assert forall|k: int| 0 <= k < prefix.len() implies good_segment(#[trigger] prefix[k]) by {
                assert(prefix[k] == st[k]);
            }
            lemma_render_norm(prefix);
            let q = render(prefix);
            assert(p =~= q + seq![0x2fu8] + last);
            assert(p.take(j) =~= q);
            lemma_norm_stack_split(p, 1, j, Seq::empty());
        }
        assert(p[j] == 0x2f);
        assert forall|k: int| j + 1 <= k < p.len() implies p[k] != 0x2f by {
            assert(p[k] == last[k - j - 1]);
        }
        lemma_find_byte_first(p, 0x2f, j + 1);
        assert(find_byte(p, 0x2f, j + 1) == p.len());
        assert(p.subrange(j + 1, p.len() as int) =~= last);
        assert(norm_stack(p, p.len() as int + 1, prefix.push(last)) == prefix.push(last));
        assert(prefix.push(last) =~= st);
    }
}

/// Normalizing a normalized path changes nothing.
pub proof fn lemma_normalize_idempotent(p: Seq<u8>)
    ensures
        spec_normalize_path(spec_normalize_path(p)) == spec_normalize_path(p),
{
    let st = norm_stack(p, 1, Seq::empty());
    lemma_norm_stack_good(p, 1, Seq::empty());
    lemma_render_norm(st);
}

} // verus!
