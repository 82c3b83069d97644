//! Fuzzy matching as in VS Code's fuzzy scorer: a score for how well a query
//! matches a target, and the target positions that matched.
//!
//! Case folding is done by ICU where it is available, so the folded texts are
//! inputs here, char for char alongside the texts they fold.

use vstd::prelude::*;

verus! {

/// Query and target characters match: equal, or both path separators.
pub open spec fn spec_consider_as_equal(a: char, b: char) -> bool {
    a == b || (a == '/' && b == '\\') || (a == '\\' && b == '/')
}

/// Matching ignores the platform's path separator: a `/` in the query matches
/// a `\` in the target and the other way round, matching is symmetric and
/// reflexive, and apart from the two separators only equal characters match.
pub proof fn lemma_separators_match_both_ways(a: char, b: char)
    ensures
        spec_consider_as_equal(a, b) == spec_consider_as_equal(b, a),
        spec_consider_as_equal(a, a),
        spec_consider_as_equal('/', '\\'),
        spec_consider_as_equal('\\', '/'),
        spec_consider_as_equal(a, b) ==> a == b || ((a == '/' || a == '\\') && (b == '/' || b == '\\')),
{
}

/// The bonus for matching right after `c`: 5 after a path separator, 4 after
/// another separator, else 0.
pub open spec fn spec_separator_bonus(c: char) -> int {
    if c == '/' || c == '\\' {
        5
    } else if c == '_' || c == '-' || c == '.' || c == ' ' || c == '\'' || c == '"' || c == ':' {
        4
    } else {
        0
    }
}

/// The score of matching query char `q` (folded `ql`) with target char `t`
/// (folded `tl`, preceded by `prev`) after `seq` consecutive matches: 0 for no
/// match, else 1, plus 5 per consecutive match, plus 1 for the same case,
/// plus 8 at the start, a separator bonus after a separator, or 2 for an
/// upper-case letter inside a word that starts a new run.
pub open spec fn spec_char_score(q: char, ql: char, prev: Option<char>, t: char, tl: char, seq: int) -> int {
    if !spec_consider_as_equal(ql, tl) {
        0
    } else {
        1 + (if seq > 0 { seq * 5 } else { 0 }) + (if q == t { 1int } else { 0 }) + match prev {
            Some(p) => if spec_separator_bonus(p) > 0 {
                spec_separator_bonus(p)
            } else if t != tl && seq == 0 {
                2
            } else {
                0
            },
            None => 8,
        }
    }
}

/// The inputs of a match: target, folded target, query, folded query, and
/// whether the query may match non-contiguously.
pub struct FuzzyInput {
    pub t: Seq<char>,
    pub tl: Seq<char>,
    pub q: Seq<char>,
    pub ql: Seq<char>,
    pub allow: bool,
}

/// Whether the folded query matches the folded target contiguously at `j`.
pub open spec fn contiguous_at(x: FuzzyInput, j: int) -> bool {
    j + x.ql.len() <= x.tl.len() && x.tl.subrange(j, j + x.ql.len()) == x.ql
}

/// The score of query char `i` at target char `j`, given the diagonal cell.
pub open spec fn cell_score(x: FuzzyInput, i: int, j: int, diag: int, seq: int) -> int {
    if diag == 0 && i != 0 {
        0
    } else {
        spec_char_score(
            x.q[i],
            x.ql[i],
            if j != 0 { Some(x.t[j - 1]) } else { None },
            x.t[j],
            x.tl[j],
            seq,
        )
    }
}

/// Cell `(i, j)` of the scoring matrix: the best score of the first `i + 1`
/// query chars within the first `j + 1` target chars, and the length of the
/// run of consecutive matches that ends at `(i, j)` (0 where `j` does not match `i`).
pub open spec fn cell(x: FuzzyInput, i: int, j: int) -> (int, int)
    decreases i, j,
{
    if i < 0 || j < 0 {
        (0, 0)
    } else {
        let left = if j > 0 { cell(x, i, j - 1).0 } else { 0 };
        let dm = if i > 0 && j > 0 { cell(x, i - 1, j - 1) } else { (0, 0) };
        let score = cell_score(x, i, j, dm.0, dm.1);
        if score != 0 && dm.0 + score >= left && (x.allow || i > 0 || contiguous_at(x, j)) {
            (dm.0 + score, dm.1 + 1)
        } else {
            (left, 0)
        }
    }
}

/// No sum of the scoring overflows an `i32`.
pub open spec fn fits_i32(x: FuzzyInput) -> bool {
    forall|i: int, j: int|
        0 <= i < x.q.len() && 0 <= j < x.t.len() ==> {
            let dm = if i > 0 && j > 0 { #[trigger] cell(x, i - 1, j - 1) } else { (0, 0) };
            let s = cell_score(x, i, j, dm.0, dm.1);
            s != 0 ==> dm.0 + s <= i32::MAX
        }
}

/// The matched target positions, in ascending order, found by walking back
/// from cell `(i, j)`: left over non-matches, diagonally over matches.
pub open spec fn positions_from(x: FuzzyInput, i: int, j: int) -> Seq<usize>
    decreases j,
{
    if i < 0 || j < 0 {
        Seq::empty()
    } else if cell(x, i, j).1 == 0 {
        if j == 0 {
            Seq::empty()
        } else {
            positions_from(x, i, j - 1)
        }
    } else if i == 0 || j == 0 {
        seq![j as usize]
    } else {
        positions_from(x, i - 1, j - 1).push(j as usize)
    }
}

/// The result of matching: no match for an empty text or a query longer than
/// the target, else the score of the last cell and the matched positions.
pub open spec fn spec_score_fuzzy(x: FuzzyInput) -> (int, Seq<usize>) {
    if x.t.len() == 0 || x.q.len() == 0 || x.t.len() < x.q.len() {
        (0, Seq::empty())
    } else {
        (cell(x, x.q.len() - 1, x.t.len() - 1).0, positions_from(x, x.q.len() - 1, x.t.len() - 1))
    }
}

/// The first `rs.len()` cells of row `i`: scores in `rs`, run lengths in `rm`.
pub open spec fn row_ok(x: FuzzyInput, i: int, rs: Seq<i32>, rm: Seq<i32>) -> bool {
    &&& rs.len() == rm.len()
    &&& forall|b: int| 0 <= b < rs.len() ==> rs[b] == #[trigger] cell(x, i, b).0 && rm[b] == cell(x, i, b).1
}

proof fn lemma_row_push(x: FuzzyInput, i: int, rs: Seq<i32>, rm: Seq<i32>, vs: i32, vm: i32)
    requires
        row_ok(x, i, rs, rm),
        vs == cell(x, i, rs.len() as int).0,
        vm == cell(x, i, rs.len() as int).1,
    ensures
        row_ok(x, i, rs.push(vs), rm.push(vm)),
{
    assert forall|b: int| 0 <= b < rs.len() + 1 implies rs.push(vs)[b] == #[trigger] cell(x, i, b).0 && rm.push(vm)[b]
        == cell(x, i, b).1 by {
        if b < rs.len() {
            assert(rs.push(vs)[b] == rs[b]);
            assert(rm.push(vm)[b] == rm[b]);
        }
    }
}

proof fn lemma_cell_step(x: FuzzyInput, i: int, j: int, left: int, diag: int, seq: int, score: int, valid: bool)
    requires
        0 <= i,
        0 <= j,
        left == (if j > 0 { cell(x, i, j - 1).0 } else { 0 }),
        (diag, seq) == (if i > 0 && j > 0 { cell(x, i - 1, j - 1) } else { (0, 0) }),
        score == cell_score(x, i, j, diag, seq),
        valid == (score != 0 && diag + score >= left && (x.allow || i > 0 || contiguous_at(x, j))),
    ensures
        cell(x, i, j) == (if valid { (diag + score, seq + 1) } else { (left, 0) }),
{
}

pub proof fn lemma_cell_nonneg(x: FuzzyInput, i: int, j: int)
    ensures
        cell(x, i, j).0 >= 0,
        cell(x, i, j).1 >= 0,
    decreases i, j,
{
    if i >= 0 && j >= 0 {
        if j > 0 {
            lemma_cell_nonneg(x, i, j - 1);
        }
        if i > 0 && j > 0 {
            lemma_cell_nonneg(x, i - 1, j - 1);
        }
    }
}

/// Query and target characters that count as the same: equal, or both path
/// separators (`/` or `\`).
pub open spec fn same_char(a: char, b: char) -> bool {
    a == b || ((a == '/' || a == '\\') && (b == '/' || b == '\\'))
}

/// The first `i + 1` characters of `q` occur in order among the first `j + 1`
/// characters of `t` (see [`same_char`]).
pub open spec fn occurs_in_order(q: Seq<char>, t: Seq<char>, i: int, j: int) -> bool
    decreases j + 1,
{
    if i < 0 {
        true
    } else if j < 0 {
        false
    } else {
        occurs_in_order(q, t, i, j - 1) || (same_char(q[i], t[j]) && occurs_in_order(q, t, i - 1, j - 1))
    }
}

/// A cell of the scoring matrix, with non-contiguous matches allowed, is
/// positive exactly where the query's first characters occur in order.
proof fn lemma_cell_positive(x: FuzzyInput, i: int, j: int)
    requires
        x.allow,
        0 <= i,
        0 <= j,
    ensures
        cell(x, i, j).0 > 0 <==> occurs_in_order(x.ql, x.tl, i, j),
    decreases i, j,
{
    lemma_separators_match_both_ways(x.ql[i], x.tl[j]);
    if j > 0 {
        lemma_cell_positive(x, i, j - 1);
        lemma_cell_nonneg(x, i, j - 1);
    }
    if i > 0 && j > 0 {
        lemma_cell_positive(x, i - 1, j - 1);
        lemma_cell_nonneg(x, i - 1, j - 1);
    }
    let left = if j > 0 { cell(x, i, j - 1).0 } else { 0 };
    let dm = if i > 0 && j > 0 { cell(x, i - 1, j - 1) } else { (0, 0) };
    let score = cell_score(x, i, j, dm.0, dm.1);
    let prior = occurs_in_order(x.ql, x.tl, i - 1, j - 1);
    assert(i == 0 ==> prior);
    assert(i > 0 && j == 0 ==> !prior);
    assert(left > 0 <==> occurs_in_order(x.ql, x.tl, i, j - 1));
    assert(dm.0 > 0 || i == 0 <==> prior);
    assert(spec_consider_as_equal(x.ql[i], x.tl[j]) <==> same_char(x.ql[i], x.tl[j]));
    assert(score >= 0);
    assert(score != 0 <==> (same_char(x.ql[i], x.tl[j]) && prior));
    assert(occurs_in_order(x.ql, x.tl, i, j) == (occurs_in_order(x.ql, x.tl, i, j - 1) || (same_char(
        x.ql[i],
        x.tl[j],
    ) && prior)));
}

/// With non-contiguous matches allowed, a query matches a target (its score
/// is positive) exactly when the query's characters, case-folded, occur in
/// order in the case-folded target, `/` and `\` counting as the same.
pub proof fn lemma_match_iff_in_order(x: FuzzyInput)
    requires
        x.allow,
        x.q.len() > 0,
        x.t.len() >= x.q.len(),
    ensures
        spec_score_fuzzy(x).0 > 0 <==> occurs_in_order(x.ql, x.tl, x.q.len() - 1, x.t.len() - 1),
{
    lemma_cell_positive(x, x.q.len() - 1, x.t.len() - 1);
}

/// The positions found from a positive cell `(i, j)`: one per query
/// character up to `i`, ascending, within the first `j + 1` target
/// characters, each at a target character that counts as the query's.
proof fn lemma_positions(x: FuzzyInput, i: int, j: int)
    requires
        0 <= i,
        0 <= j <= usize::MAX,
        cell(x, i, j).0 > 0,
    ensures
        positions_from(x, i, j).len() == i + 1,
        forall|k: int| 0 <= k < i + 1 ==> #[trigger] positions_from(x, i, j)[k] <= j,
        forall|k: int, l: int| 0 <= k < l < i + 1 ==> positions_from(x, i, j)[k] < positions_from(x, i, j)[l],
        forall|k: int|
            0 <= k < i + 1 ==> same_char(x.ql[k], x.tl[#[trigger] positions_from(x, i, j)[k] as int]),
    decreases j,
{
    lemma_cell_nonneg(x, i, j);
    if j > 0 {
        lemma_cell_nonneg(x, i, j - 1);
    }
    if i > 0 && j > 0 {
        lemma_cell_nonneg(x, i - 1, j - 1);
    }
    lemma_separators_match_both_ways(x.ql[i], x.tl[j]);
    if cell(x, i, j).1 == 0 {
        lemma_positions(x, i, j - 1);
    } else if i == 0 || j == 0 {
    } else {
        lemma_positions(x, i - 1, j - 1);
        let p = positions_from(x, i - 1, j - 1);
        assert(positions_from(x, i, j) == p.push(j as usize));
    }
}

/// The positions of a match: one per query character, ascending, each at a
/// target character that counts as the query character (case-folded, `/`
/// and `\` the same).
pub proof fn lemma_match_positions(x: FuzzyInput)
    requires
        spec_score_fuzzy(x).0 > 0,
        x.t.len() <= usize::MAX,
    ensures
        spec_score_fuzzy(x).1.len() == x.q.len(),
        forall|k: int, l: int| 0 <= k < l < x.q.len() ==> spec_score_fuzzy(x).1[k] < spec_score_fuzzy(x).1[l],
        forall|k: int|
            0 <= k < x.q.len() ==> #[trigger] spec_score_fuzzy(x).1[k] < x.t.len() && same_char(
                x.ql[k],
                x.tl[spec_score_fuzzy(x).1[k] as int],
            ),
{
    lemma_positions(x, x.q.len() - 1, x.t.len() - 1);
}

fn consider_as_equal(a: char, b: char) -> (r: bool)
    ensures
        r == spec_consider_as_equal(a, b),
{
    a == b || (a == '/' && b == '\\') || (a == '\\' && b == '/')
}

fn score_separator_at_pos(ch: char) -> (r: i32)
    ensures
        r == spec_separator_bonus(ch),
{
    if ch == '/' || ch == '\\' {
        5
    } else if ch == '_' || ch == '-' || ch == '.' || ch == ' ' || ch == '\'' || ch == '"' || ch == ':' {
        4
    } else {
        0
    }
}

fn compute_char_score(
    query: char,
    query_lower: char,
    target_prev: Option<char>,
    target_curr: char,
    target_curr_lower: char,
    matches_sequence_len: i32,
) -> (r: i32)
    requires
        matches_sequence_len >= 0,
        spec_char_score(query, query_lower, target_prev, target_curr, target_curr_lower, matches_sequence_len as int)
            <= i32::MAX,
    ensures
        r == spec_char_score(query, query_lower, target_prev, target_curr, target_curr_lower, matches_sequence_len as int),
{
    if !consider_as_equal(query_lower, target_curr_lower) {
        return 0;
    }
    let mut score: i32 = 1;
    if matches_sequence_len > 0 {
        score += matches_sequence_len * 5;
    }
    if query == target_curr {
        score += 1;
    }
    match target_prev {
        Some(p) => {
            let bonus = score_separator_at_pos(p);
            if bonus > 0 {
                score += bonus;
            } else if target_curr != target_curr_lower && matches_sequence_len == 0 {
                score += 2;
            }
        },
        None => {
            score += 8;
        },
    }
    score
}

fn starts_with_chars(s: &[char], off: usize, prefix: &[char]) -> (r: bool)
    requires
        off <= s@.len(),
    ensures
        r == (off + prefix@.len() <= s@.len() && s@.subrange(off as int, off + prefix@.len()) == prefix@),
{
    let n = s.len();
    if prefix.len() > n - off {
        return false;
    }
    let mut k: usize = 0;
    while k < prefix.len()
        invariant
            n == s@.len(),
            off + prefix@.len() <= s@.len(),
            k <= prefix@.len(),
            forall|m: int| 0 <= m < k ==> s@[off + m] == prefix@[m],
        decreases prefix@.len() - k,
    {
        if s[off + k] != prefix[k] {
            return false;
        }
        k += 1;
    }
    assert(s@.subrange(off as int, off + prefix@.len()) =~= prefix@);
    true
}

/// Scores how well `needle` matches `haystack`, given as chars: the score (0
/// for no match) and the matched positions (char indices) in the haystack. The
/// folded texts are the case-folded haystack and needle.
#[verifier::spinoff_prover]
pub fn score_fuzzy_chars(
    haystack: &[char],
    needle: &[char],
    haystack_folded: &[char],
    needle_folded: &[char],
    allow_non_contiguous_matches: bool,
) -> (r: (i32, Vec<usize>))
    requires
        haystack_folded@.len() >= haystack@.len(),
        needle_folded@.len() >= needle@.len(),
        fits_i32(
            FuzzyInput {
                t: haystack@,
                tl: haystack_folded@,
                q: needle@,
                ql: needle_folded@,
                allow: allow_non_contiguous_matches,
            },
        ),
    ensures
        ({
            let x = FuzzyInput {
                t: haystack@,
                tl: haystack_folded@,
                q: needle@,
                ql: needle_folded@,
                allow: allow_non_contiguous_matches,
            };
            (r.0 as int, r.1@) == spec_score_fuzzy(x)
        }),
{
    let ghost x = FuzzyInput {
        t: haystack@,
        tl: haystack_folded@,
        q: needle@,
        ql: needle_folded@,
        allow: allow_non_contiguous_matches,
    };
    let tn = haystack.len();
    let qn = needle.len();
    if tn == 0 || qn == 0 || tn < qn {
        return (0, Vec::new());
    }
    let mut scores: Vec<Vec<i32>> = Vec::new();
    let mut matches: Vec<Vec<i32>> = Vec::new();
    let mut i: usize = 0;
    while i < qn
        invariant
            tn == x.t.len(),
            qn == x.q.len(),
            x.tl.len() >= tn,
            x.ql.len() >= qn,
            0 < qn <= tn,
            x == (FuzzyInput {
                t: haystack@,
                tl: haystack_folded@,
                q: needle@,
                ql: needle_folded@,
                allow: allow_non_contiguous_matches,
            }),
            fits_i32(x),
            i <= qn,
            scores@.len() == i,
            matches@.len() == i,
            forall|a: int| 0 <= a < i ==> #[trigger] scores@[a]@.len() == tn,
            forall|a: int| 0 <= a < i ==> #[trigger] matches@[a]@.len() == tn,
            forall|a: int, b: int|
                0 <= a < i && 0 <= b < tn ==> scores@[a]@[b] == #[trigger] cell(x, a, b).0 && matches@[a]@[b]
                    == cell(x, a, b).1,
        decreases qn - i,
    {
        let mut row_s: Vec<i32> = Vec::new();
        let mut row_m: Vec<i32> = Vec::new();
        let mut j: usize = 0;
        while j < tn
            invariant
                tn == x.t.len(),
                qn == x.q.len(),
                x.tl.len() >= tn,
                x.ql.len() >= qn,
                x == (FuzzyInput {
                    t: haystack@,
                    tl: haystack_folded@,
                    q: needle@,
                    ql: needle_folded@,
                    allow: allow_non_contiguous_matches,
                }),
                fits_i32(x),
                i < qn,
                j <= tn,
                scores@.len() == i,
                matches@.len() == i,
                forall|a: int| 0 <= a < i ==> #[trigger] scores@[a]@.len() == tn,
            forall|a: int| 0 <= a < i ==> #[trigger] matches@[a]@.len() == tn,
                forall|a: int, b: int|
                    0 <= a < i && 0 <= b < tn ==> scores@[a]@[b] == #[trigger] cell(x, a, b).0
                        && matches@[a]@[b] == cell(x, a, b).1,
                row_s@.len() == j,
                row_ok(x, i as int, row_s@, row_m@),
            decreases tn - j,
        {
            proof {
                lemma_cell_nonneg(x, i as int, j - 1);
                lemma_cell_nonneg(x, i - 1, j - 1);
            }
            let left_score: i32 = if j > 0 { row_s[j - 1] } else { 0 };
            let diag_score: i32 = if i > 0 && j > 0 { scores[i - 1][j - 1] } else { 0 };
            let matches_sequence_len: i32 = if i > 0 && j > 0 { matches[i - 1][j - 1] } else { 0 };
            proof {
                if i > 0 && j > 0 {
                    assert(diag_score == cell(x, i - 1, j - 1).0);
                }
                if j > 0 {
                    assert(left_score == cell(x, i as int, j - 1).0);
                }
            }
            let ghost dm = if i > 0 && j > 0 { cell(x, i - 1, j - 1) } else { (0int, 0int) };
            assert(dm.0 == diag_score && dm.1 == matches_sequence_len);
            let score = if diag_score == 0 && i != 0 {
                0
            } else {
                proof {
                    let s = cell_score(x, i as int, j as int, dm.0, dm.1);
                    assert(s != 0 ==> dm.0 + s <= i32::MAX);
                }
                compute_char_score(
                    needle[i],
                    needle_folded[i],
                    if j != 0 { Some(haystack[j - 1]) } else { None },
                    haystack[j],
                    haystack_folded[j],
                    matches_sequence_len,
                )
            };
            let valid = score != 0 && diag_score + score >= left_score && (allow_non_contiguous_matches || i > 0
                || starts_with_chars(haystack_folded, j, needle_folded));
            proof {
                let left = if j > 0 { cell(x, i as int, j - 1).0 } else { 0 };
                assert(left == left_score);
                assert(score == cell_score(x, i as int, j as int, dm.0, dm.1));
                if score != 0 && diag_score + score >= left_score && !allow_non_contiguous_matches && i == 0 {
                    assert(contiguous_at(x, j as int) == (j + needle_folded@.len() <= haystack_folded@.len()
                        && haystack_folded@.subrange(j as int, j + needle_folded@.len()) == needle_folded@));
                }
                lemma_cell_step(
                    x,
                    i as int,
                    j as int,
                    left_score as int,
                    diag_score as int,
                    matches_sequence_len as int,
                    score as int,
                    valid,
                );
            }
            let ghost old_s = row_s@;
            let ghost old_m = row_m@;
            if valid {
                row_m.push(matches_sequence_len + 1);
                row_s.push(diag_score + score);
            } else {
                row_m.push(0);
                row_s.push(left_score);
            }
            proof {
                lemma_row_push(x, i as int, old_s, old_m, row_s@[j as int], row_m@[j as int]);
                assert(row_s@ == old_s.push(row_s@[j as int]));
                assert(row_m@ == old_m.push(row_m@[j as int]));
            }
            j += 1;
        }
        let ghost rs = row_s@;
        let ghost rm = row_m@;
        let ghost old_scores = scores@;
        let ghost old_matches = matches@;
        scores.push(row_s);
        matches.push(row_m);
        proof {
            assert forall|a: int, b: int| 0 <= a < i + 1 && 0 <= b < tn implies scores@[a]@[b] == #[trigger] cell(
                x,
                a,
                b,
            ).0 && matches@[a]@[b] == cell(x, a, b).1 by {
                if a == i {
                    assert(scores@[a]@ == rs);
                    assert(matches@[a]@ == rm);
                    assert(rs[b] == cell(x, i as int, b).0 && rm[b] == cell(x, i as int, b).1);
                } else {
                    assert(scores@[a] == old_scores[a]);
                    assert(matches@[a] == old_matches[a]);
                }
            }
        }
        i += 1;
    }
    assert(i == qn);
    assert forall|a: int, b: int| 0 <= a < qn && 0 <= b < tn implies matches@[a]@[b] == #[trigger] cell(x, a, b).1 by {
        assert(scores@[a]@[b] == cell(x, a, b).0 && matches@[a]@[b] == cell(x, a, b).1);
    }
    let last = scores[qn - 1][tn - 1];
    let mut stack: Vec<usize> = Vec::new();
    let mut qi = qn - 1;
    let mut ti = tn - 1;
    loop
        invariant_except_break
            positions_from(x, qn - 1, tn - 1) == positions_from(x, qi as int, ti as int) + stack@.reverse(),
        invariant
            qi < qn,
            ti < tn,
            tn == x.t.len(),
            qn == x.q.len(),
            matches@.len() == qn,
            forall|a: int| 0 <= a < qn ==> #[trigger] matches@[a]@.len() == tn,
            forall|a: int, b: int|
                0 <= a < qn && 0 <= b < tn ==> matches@[a]@[b] == #[trigger] cell(x, a, b).1,
        ensures
            positions_from(x, qn - 1, tn - 1) == stack@.reverse(),
        decreases ti,
    {
        let m = matches[qi][ti];
        assert(m == cell(x, qi as int, ti as int).1);
        if m == 0 {
            if ti == 0 {
                assert(positions_from(x, qi as int, ti as int) =~= Seq::<usize>::empty());
                assert(Seq::<usize>::empty() + stack@.reverse() =~= stack@.reverse());
                break;
            }
            ti -= 1;
        } else {
            let ghost before = stack@;
            stack.push(ti);
            assert(stack@.reverse() =~= seq![ti] + before.reverse());
            if qi == 0 || ti == 0 {
                assert(positions_from(x, qi as int, ti as int) =~= seq![ti]);
                break;
            }
            proof {
                let p = positions_from(x, qi - 1, ti - 1);
                assert(positions_from(x, qi as int, ti as int) == p.push(ti));
                assert(p.push(ti) + before.reverse() =~= p + stack@.reverse());
            }
            qi -= 1;
            ti -= 1;
        }
    }
    let mut positions: Vec<usize> = Vec::new();
    let mut k = stack.len();
    while k > 0
        invariant
            k <= stack@.len(),
            positions@ == stack@.subrange(k as int, stack@.len() as int).reverse(),
        decreases k,
    {
        k -= 1;
        positions.push(stack[k]);
        assert(positions@ =~= stack@.subrange(k as int, stack@.len() as int).reverse());
    }
    assert(stack@.subrange(0, stack@.len() as int) =~= stack@);
    (last, positions)
}

/// The string's characters, in order.
fn map_chars(s: &str) -> (r: Vec<char>)
    ensures
        r@ == s@,
{
    broadcast use vstd::string::axiom_spec_iter;
    let mut out: Vec<char> = Vec::new();
    for c in it: s.chars()
        invariant
            out@ == it.seq().take(it.index() as int),
    {
        out.push(c);
        assert(out@ =~= it.seq().take(it.index() + 1));
    }
    assert(out@ =~= s@);
    out
}

/// Scores how well `needle` matches `haystack` (see [`score_fuzzy_chars`]); the
/// folded texts are the case folding of each, which ICU provides where it is
/// available.
pub fn score_fuzzy(
    haystack: &str,
    needle: &str,
    haystack_folded: &str,
    needle_folded: &str,
    allow_non_contiguous_matches: bool,
) -> (r: (i32, Vec<usize>))
    requires
        haystack_folded@.len() >= haystack@.len(),
        needle_folded@.len() >= needle@.len(),
        fits_i32(
            FuzzyInput {
                t: haystack@,
                tl: haystack_folded@,
                q: needle@,
                ql: needle_folded@,
                allow: allow_non_contiguous_matches,
            },
        ),
    ensures
        (r.0 as int, r.1@) == spec_score_fuzzy(
            FuzzyInput {
                t: haystack@,
                tl: haystack_folded@,
                q: needle@,
                ql: needle_folded@,
                allow: allow_non_contiguous_matches,
            },
        ),
{
    let target = map_chars(haystack);
    let query = map_chars(needle);
    let target_lower = map_chars(haystack_folded);
    let query_lower = map_chars(needle_folded);
    score_fuzzy_chars(
        target.as_slice(),
        query.as_slice(),
        target_lower.as_slice(),
        query_lower.as_slice(),
        allow_non_contiguous_matches,
    )
}

} // verus!
