//! What the editor needs of ICU that does not call into the library: error
//! codes, encoding names, and the ASCII collation used without ICU.

use vstd::prelude::*;
use std::cmp::Ordering;
use crate::text::{lemma_lex_order, lex_lt, lex_lt_from, lower_seq, to_lower};

verus! {

/// An ICU error code (`UErrorCode`); 0 stands for "ICU is missing".
#[derive(Debug, Clone, Copy, PartialEq, Eq, Structural)]
pub struct Error(pub u32);

/// An encoding: the name shown, and the canonical name the converter takes.
#[derive(Clone, Copy, Debug, PartialEq, Eq)]
pub struct Encoding {
    pub label: &'static str,
    pub canonical: &'static str,
}

/// The encodings that are always available, ICU or not: UTF-8 and UTF-8 with BOM.
pub fn builtin_encodings() -> (r: Vec<Encoding>)
    ensures
        r@ == seq![
            Encoding { label: "UTF-8", canonical: "UTF-8" },
            Encoding { label: "UTF-8 BOM", canonical: "UTF-8 BOM" },
        ],
{
    let r = vec![
        Encoding { label: "UTF-8", canonical: "UTF-8" },
        Encoding { label: "UTF-8 BOM", canonical: "UTF-8 BOM" },
    ];
    assert(r@ =~= seq![
        Encoding { label: "UTF-8", canonical: "UTF-8" },
        Encoding { label: "UTF-8 BOM", canonical: "UTF-8 BOM" },
    ]);
    r
}

/// The first index at or after `i`, before the shorter length, where the two
/// strings differ; the shorter length if there is none.
pub open spec fn first_diff(a: Seq<u8>, b: Seq<u8>, i: int) -> int
    decreases a.len() - i,
{
    if i < 0 || i >= a.len() || i >= b.len() || a[i] != b[i] {
        i
    } else {
        first_diff(a, b, i + 1)
    }
}

/// The first index at or after `i`, before the shorter length, where the two
/// strings differ ignoring ASCII case; the shorter length if there is none.
pub open spec fn first_ci_diff(a: Seq<u8>, b: Seq<u8>, i: int) -> int
    decreases a.len() - i,
{
    if i < 0 || i >= a.len() || i >= b.len() || to_lower(a[i]) != to_lower(b[i]) {
        i
    } else {
        first_ci_diff(a, b, i + 1)
    }
}

/// The sign of `x`: -1, 0 or 1.
pub open spec fn sign(x: int) -> int {
    if x < 0 {
        -1
    } else if x > 0 {
        1
    } else {
        0
    }
}

/// Whether `a` collates before `b`: the strings folded to lower case decide
/// in lexicographic order (a proper prefix first); where they fold to the
/// same string, the bytes themselves decide (upper case first).
pub open spec fn collates_before(a: Seq<u8>, b: Seq<u8>) -> bool {
    if lower_seq(a) != lower_seq(b) {
        lex_lt(lower_seq(a), lower_seq(b))
    } else {
        lex_lt(a, b)
    }
}

/// The collation order of two ASCII strings, as a sign (see [`collates_before`]).
pub open spec fn ascii_collation(a: Seq<u8>, b: Seq<u8>) -> int {
    if a == b {
        0
    } else if collates_before(a, b) {
        -1
    } else {
        1
    }
}

proof fn lemma_ci_scan(a: Seq<u8>, b: Seq<u8>, k: int)
    requires
        0 <= k <= a.len(),
        k <= b.len(),
    ensures
        k <= first_ci_diff(a, b, k),
        first_ci_diff(a, b, k) <= a.len(),
        first_ci_diff(a, b, k) <= b.len(),
        forall|i: int| k <= i < first_ci_diff(a, b, k) ==> to_lower(a[i]) == to_lower(b[i]),
        first_ci_diff(a, b, k) < a.len() && first_ci_diff(a, b, k) < b.len() ==> to_lower(a[first_ci_diff(a, b, k)])
            != to_lower(b[first_ci_diff(a, b, k)]),
        lex_lt_from(lower_seq(a), lower_seq(b), k) == lex_lt_from(lower_seq(a), lower_seq(b), first_ci_diff(a, b, k)),
    decreases a.len() - k,
{
    if k < a.len() && k < b.len() && to_lower(a[k]) == to_lower(b[k]) {
        lemma_ci_scan(a, b, k + 1);
    }
}

proof fn lemma_diff_scan(a: Seq<u8>, b: Seq<u8>, k: int)
    requires
        0 <= k <= a.len(),
        k <= b.len(),
    ensures
        k <= first_diff(a, b, k),
        first_diff(a, b, k) <= a.len(),
        first_diff(a, b, k) <= b.len(),
        forall|i: int| k <= i < first_diff(a, b, k) ==> a[i] == b[i],
        first_diff(a, b, k) < a.len() && first_diff(a, b, k) < b.len() ==> a[first_diff(a, b, k)] != b[first_diff(a, b, k)],
        lex_lt_from(a, b, k) == lex_lt_from(a, b, first_diff(a, b, k)),
    decreases a.len() - k,
{
    if k < a.len() && k < b.len() && a[k] == b[k] {
        lemma_diff_scan(a, b, k + 1);
    }
}

proof fn lemma_lowered_differ(a: Seq<u8>, b: Seq<u8>, j: usize)
    requires
        j < a.len(),
        j < b.len(),
        to_lower(a[j as int]) != to_lower(b[j as int]),
    ensures
        lower_seq(a)[j as int] != lower_seq(b)[j as int],
        lower_seq(a) != lower_seq(b),
{
    if lower_seq(a) == lower_seq(b) {
        assert(lower_seq(a)[j as int] == lower_seq(b)[j as int]);
    }
}

/// Collation is a strict total order: no string collates before itself, of
/// two different strings exactly one collates before the other, and it is
/// transitive; so `compare_strings_ascii` is antisymmetric and transitive.
pub proof fn lemma_collation_order(a: Seq<u8>, b: Seq<u8>, c: Seq<u8>)
    ensures
        ascii_collation(a, b) == -ascii_collation(b, a),
        ascii_collation(a, b) == 0 <==> a == b,
        ascii_collation(a, b) < 0 && ascii_collation(b, c) < 0 ==> ascii_collation(a, c) < 0,
{
    let la = lower_seq(a);
    let lb = lower_seq(b);
    let lc = lower_seq(c);
    lemma_lex_order(la, lb, lc);
    lemma_lex_order(a, b, c);
    lemma_lex_order(lb, la, lc);
    lemma_lex_order(b, a, c);
    lemma_lex_order(la, lc, lb);
    lemma_lex_order(a, c, b);
    if a == b {
        assert(la == lb);
    }
    if ascii_collation(a, b) < 0 && ascii_collation(b, c) < 0 {
        if la == lc {
            if la != lb {
                assert(lex_lt(la, lb) && lex_lt(lb, lc));
                assert(false);
            }
            assert(a != c) by {
                if a == c {
                    assert(lex_lt(a, b) && lex_lt(b, a));
                }
            }
        }
    }
}

/// An order's sign: -1 for less, 0 for equal, 1 for greater.
pub open spec fn order_sign(o: Ordering) -> int {
    match o {
        Ordering::Less => -1,
        Ordering::Equal => 0,
        Ordering::Greater => 1,
    }
}

fn lower(b: u8) -> (r: u8)
    ensures
        r == to_lower(b),
{
    if 0x41 <= b && b <= 0x5a {
        b + 0x20
    } else {
        b
    }
}

fn order_of_bytes(x: u8, y: u8) -> (o: Ordering)
    ensures
        order_sign(o) == sign(x - y),
{
    if x < y {
        Ordering::Less
    } else if x == y {
        Ordering::Equal
    } else {
        Ordering::Greater
    }
}

/// The first index where the strings differ, or the shorter length.
fn find_first_diff(a: &[u8], b: &[u8]) -> (i: usize)
    ensures
        i == first_diff(a@, b@, 0),
        i <= a@.len(),
        i <= b@.len(),
{
    let n = if a.len() < b.len() { a.len() } else { b.len() };
    let mut i: usize = 0;
    while i < n && a[i] == b[i]
        invariant
            i <= n,
            n <= a@.len(),
            n <= b@.len(),
            n == a@.len() || n == b@.len(),
            first_diff(a@, b@, i as int) == first_diff(a@, b@, 0),
        decreases n - i,
    {
        i += 1;
    }
    i
}

/// The first index at or after `i` where the strings differ ignoring ASCII
/// case, or the shorter length.
fn find_first_ci_diff(a: &[u8], b: &[u8], i: usize) -> (j: usize)
    requires
        i <= a@.len(),
        i <= b@.len(),
    ensures
        j == first_ci_diff(a@, b@, i as int),
        j <= a@.len(),
        j <= b@.len(),
{
    let n = if a.len() < b.len() { a.len() } else { b.len() };
    let mut j = i;
    while j < n && lower(a[j]) == lower(b[j])
        invariant
            i <= j <= n,
            n <= a@.len(),
            n <= b@.len(),
            n == a@.len() || n == b@.len(),
            first_ci_diff(a@, b@, j as int) == first_ci_diff(a@, b@, i as int),
        decreases n - j,
    {
        j += 1;
    }
    j
}

/// Unicode-like collation of ASCII strings, used where ICU is not available
/// (see [`collates_before`]).
pub fn compare_strings_ascii(a: &[u8], b: &[u8]) -> (o: Ordering)
    ensures
        order_sign(o) == ascii_collation(a@, b@),
{
    proof {
        lemma_ci_scan(a@, b@, 0);
        lemma_diff_scan(a@, b@, 0);
    }
    let j = find_first_ci_diff(a, b, 0);
    if j < a.len() && j < b.len() {
        proof {
            lemma_lowered_differ(a@, b@, j);
        }
        return order_of_bytes(lower(a[j]), lower(b[j]));
    }
    if a.len() != b.len() {
        proof {
            assert(lower_seq(a@).len() != lower_seq(b@).len());
        }
        return if a.len() < b.len() {
            Ordering::Less
        } else {
            Ordering::Greater
        };
    }
    proof {
        assert(lower_seq(a@) =~= lower_seq(b@));
    }
    let i = find_first_diff(a, b);
    if i < a.len() {
        return order_of_bytes(a[i], b[i]);
    }
    proof {
        assert(a@ =~= b@);
    }
    Ordering::Equal
}

/// The result of an ICU collator's comparison.
#[allow(non_camel_case_types)]
#[derive(Clone, Copy, Debug, PartialEq, Eq, Structural)]
pub enum UCollationResult {
    UCOL_EQUAL,
    UCOL_GREATER,
    UCOL_LESS,
}

/// The order a collator's result stands for.
pub fn collation_order(r: UCollationResult) -> (o: Ordering)
    ensures
        order_sign(o) == match r {
            UCollationResult::UCOL_EQUAL => 0int,
            UCollationResult::UCOL_GREATER => 1int,
            UCollationResult::UCOL_LESS => -1int,
        },
{
    match r {
        UCollationResult::UCOL_EQUAL => Ordering::Equal,
        UCollationResult::UCOL_GREATER => Ordering::Greater,
        UCollationResult::UCOL_LESS => Ordering::Less,
    }
}

} // verus!
