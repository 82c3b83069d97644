//! Byte-string helpers over UTF-8 text: ASCII case, Unicode whitespace
//! trimming and splitting, prefixes.

use vstd::prelude::*;
use vstd::string::StringSliceAdditionalSpecFns;

verus! {

pub open spec fn is_ascii_ws(b: u8) -> bool {
    b == 0x20 || (0x09 <= b <= 0x0d)
}

pub open spec fn is_ascii_digit(b: u8) -> bool {
    0x30 <= b <= 0x39
}

pub open spec fn is_ascii_alnum(b: u8) -> bool {
    is_ascii_digit(b) || (0x41 <= b <= 0x5a) || (0x61 <= b <= 0x7a)
}

pub open spec fn to_lower(b: u8) -> u8 {
    if 0x41 <= b <= 0x5a {
        (b + 0x20) as u8
    } else {
        b
    }
}

/// ASCII lower-casing of every byte.
pub open spec fn lower_seq(s: Seq<u8>) -> Seq<u8> {
    Seq::new(s.len(), |i: int| to_lower(s[i]))
}

/// Length of the Unicode whitespace character (`char::is_whitespace`) encoded at
/// `s[i..]`, 0 if there is none.
pub open spec fn ws_len_at(s: Seq<u8>, i: int) -> int {
    if i < 0 || i >= s.len() {
        0
    } else if is_ascii_ws(s[i]) {
        1
    } else if i + 1 < s.len() && s[i] == 0xC2 && (s[i + 1] == 0x85 || s[i + 1] == 0xA0) {
        2
    } else if i + 2 < s.len() && ((s[i] == 0xE1 && s[i + 1] == 0x9A && s[i + 2] == 0x80) || (s[i]
        == 0xE2 && s[i + 1] == 0x80 && ((0x80 <= s[i + 2] <= 0x8A) || s[i + 2] == 0xA8 || s[i + 2]
        == 0xA9 || s[i + 2] == 0xAF)) || (s[i] == 0xE2 && s[i + 1] == 0x81 && s[i + 2] == 0x9F)
        || (s[i] == 0xE3 && s[i + 1] == 0x80 && s[i + 2] == 0x80)) {
        3
    } else {
        0
    }
}

/// Length of the whitespace character that ends right before `s[j]`, 0 if none.
pub open spec fn ws_len_before(s: Seq<u8>, j: int) -> int {
    if j >= 1 && j <= s.len() && is_ascii_ws(s[j - 1]) {
        1
    } else if j >= 2 && j <= s.len() && ws_len_at(s, j - 2) == 2 {
        2
    } else if j >= 3 && j <= s.len() && ws_len_at(s, j - 3) == 3 {
        3
    } else {
        0
    }
}

/// The first offset at or after `i` not starting with whitespace.
pub open spec fn skip_ws(s: Seq<u8>, i: int) -> int
    decreases s.len() - i,
{
    if i >= 0 && ws_len_at(s, i) > 0 {
        skip_ws(s, i + ws_len_at(s, i))
    } else {
        i
    }
}

/// The last offset at or before `j` (and not below `lo`) not preceded by whitespace.
pub open spec fn skip_ws_back(s: Seq<u8>, lo: int, j: int) -> int
    decreases j,
{
    if j > lo && ws_len_before(s, j) > 0 && j - ws_len_before(s, j) >= lo {
        skip_ws_back(s, lo, j - ws_len_before(s, j))
    } else {
        j
    }
}

/// `str::trim`: the text without leading and trailing whitespace.
pub open spec fn spec_trim(s: Seq<u8>) -> Seq<u8> {
    let a = skip_ws(s, 0);
    s.subrange(a, skip_ws_back(s, a, s.len() as int))
}

/// `str::trim_start`.
pub open spec fn spec_trim_start(s: Seq<u8>) -> Seq<u8> {
    s.subrange(skip_ws(s, 0), s.len() as int)
}

/// The first offset at or after `i` starting a whitespace character, or the length.
pub open spec fn find_ws(s: Seq<u8>, i: int) -> int
    decreases s.len() - i,
{
    if i < 0 || i >= s.len() || ws_len_at(s, i) > 0 {
        i
    } else {
        find_ws(s, i + 1)
    }
}

pub proof fn lemma_skip_ws_bounds(s: Seq<u8>, i: int)
    requires
        0 <= i <= s.len(),
    ensures
        i <= skip_ws(s, i) <= s.len(),
    decreases s.len() - i,
{
    if ws_len_at(s, i) > 0 {
        lemma_skip_ws_bounds(s, i + ws_len_at(s, i));
    }
}

pub proof fn lemma_skip_ws_back_bounds(s: Seq<u8>, lo: int, j: int)
    requires
        0 <= lo <= j <= s.len(),
    ensures
        lo <= skip_ws_back(s, lo, j) <= j,
    decreases j,
{
    if j > lo && ws_len_before(s, j) > 0 && j - ws_len_before(s, j) >= lo {
        lemma_skip_ws_back_bounds(s, lo, j - ws_len_before(s, j));
    }
}

pub proof fn lemma_find_ws_bounds(s: Seq<u8>, i: int)
    requires
        0 <= i <= s.len(),
    ensures
        i <= find_ws(s, i) <= s.len(),
        find_ws(s, i) < s.len() ==> ws_len_at(s, find_ws(s, i)) > 0,
    decreases s.len() - i,
{
    if i < s.len() && ws_len_at(s, i) == 0 {
        lemma_find_ws_bounds(s, i + 1);
    }
}

/// The length of the whitespace character at `s[i..]`, 0 if none.
pub fn ws_len(s: &[u8], i: usize) -> (n: usize)
    ensures
        n == ws_len_at(s@, i as int),
        n > 0 ==> i + n <= s@.len(),
{
    let len = s.len();
    if i >= len {
        return 0;
    }
    let b = s[i];
    if b == 0x20 || (0x09 <= b && b <= 0x0d) {
        1
    } else if len - i > 1 && b == 0xC2 && (s[i + 1] == 0x85 || s[i + 1] == 0xA0) {
        2
    } else if len - i > 2 {
        let b1 = s[i + 1];
        let b2 = s[i + 2];
        if (b == 0xE1 && b1 == 0x9A && b2 == 0x80) || (b == 0xE2 && b1 == 0x80 && ((0x80 <= b2
            && b2 <= 0x8A) || b2 == 0xA8 || b2 == 0xA9 || b2 == 0xAF)) || (b == 0xE2 && b1 == 0x81
            && b2 == 0x9F) || (b == 0xE3 && b1 == 0x80 && b2 == 0x80) {
            3
        } else {
            0
        }
    } else {
        0
    }
}

/// The length of the whitespace character ending right before `s[j]`, 0 if none.
pub fn ws_len_back(s: &[u8], j: usize) -> (n: usize)
    requires
        j <= s@.len(),
    ensures
        n == ws_len_before(s@, j as int),
{
    if j >= 1 && (s[j - 1] == 0x20 || (0x09 <= s[j - 1] && s[j - 1] <= 0x0d)) {
        1
    } else if j >= 2 && ws_len(s, j - 2) == 2 {
        2
    } else if j >= 3 && ws_len(s, j - 3) == 3 {
        3
    } else {
        0
    }
}

/// `str::trim` on the UTF-8 bytes of a string.
pub fn trim(s: &[u8]) -> (r: &[u8])
    ensures
        r@ == spec_trim(s@),
{
    let mut a: usize = 0;
    let len = s.len();
    loop
        invariant
            len == s@.len(),
            a <= s@.len(),
            skip_ws(s@, a as int) == skip_ws(s@, 0),
        ensures
            a <= s@.len(),
            a == skip_ws(s@, 0),
        decreases s@.len() - a,
    {
        let n = ws_len(s, a);
        if n == 0 {
            break;
        }
        a = a + n;
    }
    let mut b: usize = s.len();
    loop
        invariant
            a <= b <= s@.len(),
            a == skip_ws(s@, 0),
            skip_ws_back(s@, a as int, b as int) == skip_ws_back(s@, a as int, s@.len() as int),
        ensures
            a <= b <= s@.len(),
            b == skip_ws_back(s@, a as int, s@.len() as int),
        decreases b,
    {
        if b <= a {
            break;
        }
        let n = ws_len_back(s, b);
        if n == 0 || b - n < a {
            break;
        }
        b = b - n;
    }
    &s[a..b]
}

/// `str::trim_start` on the UTF-8 bytes of a string.
pub fn trim_start(s: &[u8]) -> (r: &[u8])
    ensures
        r@ == spec_trim_start(s@),
{
    let mut a: usize = 0;
    let len = s.len();
    loop
        invariant
            len == s@.len(),
            a <= s@.len(),
            skip_ws(s@, a as int) == skip_ws(s@, 0),
        ensures
            a <= s@.len(),
            a == skip_ws(s@, 0),
        decreases s@.len() - a,
    {
        let n = ws_len(s, a);
        if n == 0 {
            break;
        }
        a = a + n;
    }
    &s[a..s.len()]
}

/// Position of the first whitespace character at or after `i`, or the length.
pub fn find_whitespace(s: &[u8], i: usize) -> (r: usize)
    requires
        i <= s@.len(),
    ensures
        r == find_ws(s@, i as int),
{
    let mut k = i;
    while k < s.len() && ws_len(s, k) == 0
        invariant
            i <= k <= s@.len(),
            find_ws(s@, k as int) == find_ws(s@, i as int),
        decreases s@.len() - k,
    {
        k += 1;
    }
    k
}

/// ASCII lower-case copy of the bytes.
pub fn to_ascii_lowercase(s: &[u8]) -> (r: Vec<u8>)
    ensures
        r@ == lower_seq(s@),
{
    let mut r: Vec<u8> = Vec::new();
    let mut i: usize = 0;
    while i < s.len()
        invariant
            i <= s@.len(),
            r@ == lower_seq(s@.subrange(0, i as int)),
        decreases s@.len() - i,
    {
        let b = s[i];
        r.push(if 0x41 <= b && b <= 0x5a { b + 0x20 } else { b });
        i += 1;
        assert(r@ =~= lower_seq(s@.subrange(0, i as int)));
    }
    assert(s@.subrange(0, i as int) =~= s@);
    r
}

/// Byte-wise equality of two byte strings.
pub fn bytes_eq(a: &[u8], b: &[u8]) -> (r: bool)
    ensures
        r == (a@ == b@),
{
    if a.len() != b.len() {
        return false;
    }
    let mut i: usize = 0;
    while i < a.len()
        invariant
            a@.len() == b@.len(),
            i <= a@.len(),
            forall|k: int| 0 <= k < i ==> a@[k] == b@[k],
        decreases a@.len() - i,
    {
        if a[i] != b[i] {
            return false;
        }
        i += 1;
    }
    assert(a@ =~= b@);
    true
}

/// Whether `s` starts with `prefix`.
pub fn starts_with(s: &[u8], prefix: &[u8]) -> (r: bool)
    ensures
        r == (prefix@.len() <= s@.len() && s@.subrange(0, prefix@.len() as int) == prefix@),
{
    if prefix.len() > s.len() {
        return false;
    }
    bytes_eq(&s[0..prefix.len()], prefix)
}

/// Case-insensitive (ASCII) equality.
pub fn eq_ignore_ascii_case(a: &[u8], b: &[u8]) -> (r: bool)
    ensures
        r == (lower_seq(a@) == lower_seq(b@)),
{
    let la = to_ascii_lowercase(a);
    let lb = to_ascii_lowercase(b);
    let r = bytes_eq(la.as_slice(), lb.as_slice());
    proof {
        if lower_seq(a@) == lower_seq(b@) {
            assert(la@ == lb@);
        }
    }
    r
}

/// A byte-string copy of a string slice's UTF-8 bytes.
pub fn str_bytes(s: &str) -> (r: &[u8])
    ensures
        r@ == s.spec_bytes(),
{
    s.as_bytes()
}


/// Byte-wise lexicographic order from position `i` on, for byte strings that
/// agree before `i`: the first differing byte decides, and a proper prefix comes first.
pub open spec fn lex_lt_from(a: Seq<u8>, b: Seq<u8>, i: int) -> bool
    decreases a.len() - i,
{
    if i < 0 || i >= a.len() {
        0 <= i < b.len()
    } else if i >= b.len() {
        false
    } else if a[i] != b[i] {
        a[i] < b[i]
    } else {
        lex_lt_from(a, b, i + 1)
    }
}

/// Byte-wise lexicographic order, the order of `Ord` on strings.
pub open spec fn lex_lt(a: Seq<u8>, b: Seq<u8>) -> bool {
    lex_lt_from(a, b, 0)
}

proof fn lemma_lex_from_irreflexive_asym(a: Seq<u8>, b: Seq<u8>, i: int)
    requires
        0 <= i,
    ensures
        !(lex_lt_from(a, b, i) && lex_lt_from(b, a, i)),
        !lex_lt_from(a, a, i),
    decreases a.len() - i,
{
    if i < a.len() && i < b.len() && a[i] == b[i] {
        lemma_lex_from_irreflexive_asym(a, b, i + 1);
    }
    if i < a.len() {
        lemma_lex_from_irreflexive_asym(a, a, i + 1);
    }
}

proof fn lemma_lex_from_transitive(a: Seq<u8>, b: Seq<u8>, c: Seq<u8>, i: int)
    requires
        0 <= i,
        lex_lt_from(a, b, i),
        lex_lt_from(b, c, i),
    ensures
        lex_lt_from(a, c, i),
    decreases a.len() - i,
{
    if i < a.len() && i < b.len() && i < c.len() && a[i] == b[i] && b[i] == c[i] {
        lemma_lex_from_transitive(a, b, c, i + 1);
    }
}

proof fn lemma_lex_from_total(a: Seq<u8>, b: Seq<u8>, i: int)
    requires
        0 <= i <= a.len(),
        i <= b.len(),
        a.take(i) == b.take(i),
        a != b,
    ensures
        lex_lt_from(a, b, i) || lex_lt_from(b, a, i),
    decreases a.len() - i,
{
    if i == a.len() && i == b.len() {
        assert(a =~= a.take(i));
        assert(b =~= b.take(i));
    } else if i < a.len() && i < b.len() && a[i] == b[i] {
        assert(a.take(i + 1) =~= a.take(i).push(a[i]));
        assert(b.take(i + 1) =~= b.take(i).push(b[i]));
        lemma_lex_from_total(a, b, i + 1);
    }
}

/// The lexicographic order is a strict total order: irreflexive, asymmetric,
/// transitive, and any two different byte strings are ordered one way or the other.
pub proof fn lemma_lex_order(a: Seq<u8>, b: Seq<u8>, c: Seq<u8>)
    ensures
        !lex_lt(a, a),
        !(lex_lt(a, b) && lex_lt(b, a)),
        lex_lt(a, b) && lex_lt(b, c) ==> lex_lt(a, c),
        a != b ==> lex_lt(a, b) || lex_lt(b, a),
{
    lemma_lex_from_irreflexive_asym(a, b, 0);
    if lex_lt(a, b) && lex_lt(b, c) {
        lemma_lex_from_transitive(a, b, c, 0);
    }
    if a != b {
        assert(a.take(0) =~= b.take(0));
        lemma_lex_from_total(a, b, 0);
    }
}

/// Whether `a` comes before `b` in byte-wise lexicographic order.
pub fn lex_less(a: &[u8], b: &[u8]) -> (r: bool)
    ensures
        r == lex_lt(a@, b@),
{
    let mut i: usize = 0;
    while i < a.len() && i < b.len() && a[i] == b[i]
        invariant
            i <= a@.len(),
            i <= b@.len(),
            lex_lt_from(a@, b@, i as int) == lex_lt(a@, b@),
        decreases a@.len() - i,
    {
        i += 1;
    }
    if i < a.len() && i < b.len() {
        a[i] < b[i]
    } else {
        i == a.len() && i < b.len()
    }
}


/// Appends the bytes of `s` to `out`.
pub fn extend_bytes(out: &mut Vec<u8>, s: &[u8])
    ensures
        final(out)@ == old(out)@ + s@,
{
    let mut chunk = vstd::slice::slice_to_vec(s);
    out.append(&mut chunk);
}


/// The decimal digits of `n`, most significant first, without leading zeros.
pub open spec fn decimal(n: nat) -> Seq<u8>
    decreases n,
{
    if n < 10 {
        seq![(0x30 + n) as u8]
    } else {
        decimal(n / 10).push((0x30 + n % 10) as u8)
    }
}

/// Appends the decimal digits of `n`.
pub fn push_decimal(out: &mut Vec<u8>, n: u64)
    ensures
        final(out)@ == old(out)@ + decimal(n as nat),
    decreases n,
{
    if n >= 10 {
        push_decimal(out, n / 10);
    }
    out.push((0x30 + n % 10) as u8);
    assert(final(out)@ =~= old(out)@ + decimal(n as nat));
}


/// The words of `s` from offset `i` on, as `str::split_whitespace` gives them.
pub open spec fn words_from(s: Seq<u8>, i: int) -> Seq<Seq<u8>>
    decreases s.len() - i,
{
    let a = skip_ws(s, i);
    if i < 0 || i > s.len() || a < i || a >= s.len() {
        Seq::empty()
    } else {
        let b = find_ws(s, a);
        if b <= a || b > s.len() {
            Seq::empty()
        } else {
            seq![s.subrange(a, b)] + words_from(s, b)
        }
    }
}

/// The words of `s`, as `str::split_whitespace` gives them.
pub open spec fn words(s: Seq<u8>) -> Seq<Seq<u8>> {
    words_from(s, 0)
}

/// The next word at or after `i`: its start and end; `start == s.len()` if there is none.
pub fn next_word(s: &[u8], i: usize) -> (r: (usize, usize))
    requires
        i <= s@.len(),
    ensures
        r.0 == skip_ws(s@, i as int),
        r.0 < s@.len() ==> r.1 == find_ws(s@, r.0 as int) && r.0 < r.1 <= s@.len(),
        r.0 >= s@.len() ==> r.0 == s@.len() && r.1 == r.0,
        i <= r.0,
{
    proof {
        lemma_skip_ws_bounds(s@, i as int);
    }
    let mut a = i;
    let len = s.len();
    loop
        invariant
            len == s@.len(),
            i <= a <= s@.len(),
            skip_ws(s@, a as int) == skip_ws(s@, i as int),
        ensures
            a == skip_ws(s@, i as int),
            i <= a <= s@.len(),
            ws_len_at(s@, a as int) == 0,
        decreases s@.len() - a,
    {
        let n = ws_len(s, a);
        if n == 0 {
            break;
        }
        assert(a + n <= s@.len());
        a = a + n;
    }
    if a >= s.len() {
        return (a, a);
    }
    proof {
        lemma_find_ws_bounds(s@, a as int);
    }
    let b = find_whitespace(s, a);
    assert(ws_len_at(s@, a as int) == 0);
    assert(b != a);
    (a, b)
}

/// The value of a string of decimal digits.
pub open spec fn digits_value(d: Seq<u8>) -> int
    decreases d.len(),
{
    if d.len() == 0 {
        0
    } else {
        digits_value(d.drop_last()) * 10 + (d.last() - 0x30)
    }
}

/// Whether every byte is an ASCII digit.
pub open spec fn is_digits(d: Seq<u8>) -> bool {
    forall|k: int| 0 <= k < d.len() ==> is_ascii_digit(#[trigger] d[k])
}

/// What `str::parse::<isize>` gives: an optional `+` or `-`, then one or more
/// decimal digits, in range.
pub open spec fn spec_parse_isize(s: Seq<u8>) -> Option<int> {
    let neg = s.len() > 0 && s[0] == 0x2d;
    let start: int = if s.len() > 0 && (s[0] == 0x2d || s[0] == 0x2b) { 1 } else { 0 };
    let d = s.skip(start);
    let v = if neg { -digits_value(d) } else { digits_value(d) };
    if d.len() == 0 || !is_digits(d) {
        None
    } else if v < isize::MIN || v > isize::MAX {
        None
    } else {
        Some(v)
    }
}

proof fn lemma_digits_value_prefix(d: Seq<u8>, k: int)
    requires
        0 <= k <= d.len(),
        forall|j: int| 0 <= j < d.len() ==> is_ascii_digit(#[trigger] d[j]),
    ensures
        0 <= digits_value(d.take(k)) <= digits_value(d),
    decreases d.len() - k,
{
    if k < d.len() {
        lemma_digits_value_prefix(d, k + 1);
        assert(d.take(k + 1).drop_last() =~= d.take(k));
    } else {
        assert(d.take(k) =~= d);
    }
    lemma_digits_value_nonneg(d.take(k));
}

pub proof fn lemma_digits_value_nonneg(d: Seq<u8>)
    requires
        forall|j: int| 0 <= j < d.len() ==> is_ascii_digit(#[trigger] d[j]),
    ensures
        0 <= digits_value(d),
    decreases d.len(),
{
    if d.len() > 0 {
        lemma_digits_value_nonneg(d.drop_last());
    }
}

/// `str::parse::<isize>` on the bytes of a string.
pub fn parse_isize(s: &[u8]) -> (r: Option<isize>)
    ensures
        match r {
            Some(v) => spec_parse_isize(s@) == Some(v as int),
            None => spec_parse_isize(s@) is None,
        },
{
    if s.len() == 0 {
        return None;
    }
    let neg = s[0] == 0x2d;
    let start: usize = if s[0] == 0x2d || s[0] == 0x2b { 1 } else { 0 };
    if start == s.len() {
        return None;
    }
    let ghost d = s@.skip(start as int);
    let mut v: isize = 0;
    let mut i: usize = start;
    while i < s.len()
        invariant
            start <= i <= s@.len(),
            d == s@.skip(start as int),
            neg == (s@[0] == 0x2d),
            start == (if s@[0] == 0x2d || s@[0] == 0x2b { 1usize } else { 0usize }),
            forall|k: int| 0 <= k < i - start ==> is_ascii_digit(#[trigger] d[k]),
            v == (if neg { -digits_value(d.take(i - start)) } else { digits_value(d.take(i - start)) }),
        decreases s@.len() - i,
    {
        let c = s[i];
        if !(0x30 <= c && c <= 0x39) {
            proof {
                let k = i - start;
                assert(d[k] == s@[i as int]);
                assert(!is_ascii_digit(d[k]));
                assert(!is_digits(d));
            }
            return None;
        }
        let digit = (c - 0x30) as isize;
        proof {
            assert(d.take(i - start + 1).drop_last() =~= d.take(i - start));
        }
        let m = match v.checked_mul(10) {
            Some(m) => m,
            None => {
                proof {
                    assert(d[i - start] == s@[i as int]);
                    lemma_overflow_stays(d, i - start);
                    lemma_digits_value_nonneg(d.take(i - start));
                }
                return None;
            },
        };
        let next = if neg { m.checked_sub(digit) } else { m.checked_add(digit) };
        match next {
            Some(n) => {
                v = n;
            },
            None => {
                proof {
                    assert(d[i - start] == s@[i as int]);
                    lemma_overflow_stays(d, i - start);
                    lemma_digits_value_nonneg(d.take(i - start));
                }
                return None;
            },
        }
        proof {
            assert(d[i - start] == s@[i as int]);
            lemma_overflow_stays(d, i - start);
        }
        i += 1;
    }
    assert(d.take(i - start) =~= d);
    Some(v)
}

/// Once a prefix of a digit string overflows, so does the whole (or a digit
/// that is no digit comes later).
proof fn lemma_overflow_stays(d: Seq<u8>, k: int)
    requires
        0 <= k < d.len(),
        forall|j: int| 0 <= j < k ==> is_ascii_digit(#[trigger] d[j]),
        is_ascii_digit(d[k]),
    ensures
        is_digits(d) ==> digits_value(d.take(k + 1)) <= digits_value(d),
        digits_value(d.take(k + 1)) == digits_value(d.take(k)) * 10 + (d[k] - 0x30),
{
    assert(d.take(k + 1).drop_last() =~= d.take(k));
    if is_digits(d) {
        lemma_digits_value_prefix(d, k + 1);
    }
}

/// The first byte offset holding `b` at or after `i`, or the length.
pub open spec fn find_byte(s: Seq<u8>, b: u8, i: int) -> int
    decreases s.len() - i,
{
    if i < 0 || i >= s.len() || s[i] == b {
        i
    } else {
        find_byte(s, b, i + 1)
    }
}

/// The first offset holding `b` lies between `i` and the length, and holds `b`
/// where it is not the length.
pub proof fn lemma_find_byte_bounds(s: Seq<u8>, b: u8, i: int)
    requires
        0 <= i <= s.len(),
    ensures
        i <= find_byte(s, b, i) <= s.len(),
        find_byte(s, b, i) < s.len() ==> s[find_byte(s, b, i)] == b,
    decreases s.len() - i,
{
    if i < s.len() && s[i] != b {
        lemma_find_byte_bounds(s, b, i + 1);
    }
}

/// Index of the first `b` at or after `i`, or the length.
pub fn find_byte_exec(s: &[u8], b: u8, i: usize) -> (r: usize)
    requires
        i <= s@.len(),
    ensures
        r == find_byte(s@, b, i as int),
        i <= r <= s@.len(),
        r < s@.len() ==> s@[r as int] == b,
{
    let mut k = i;
    while k < s.len() && s[k] != b
        invariant
            i <= k <= s@.len(),
            find_byte(s@, b, k as int) == find_byte(s@, b, i as int),
        decreases s@.len() - k,
    {
        k += 1;
    }
    k
}

} // verus!
