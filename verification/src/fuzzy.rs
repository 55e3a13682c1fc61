//! The matching and ranking engine: case-insensitive exact (contiguous
//! substring) and fuzzy (subsequence) matching with a positional scoring
//! function, and the composite rank key that orders surviving candidates.

use vstd::prelude::*;
use vstd::multiset::Multiset;

use crate::config::{SearchMode, SearchScheme};

verus! {

/// The case-folded code point used for comparisons: ASCII upper-case letters
/// fold to lower case, every other character stands for itself.
pub open spec fn norm_code(c: char) -> int {
    if 65 <= c as u32 && c as u32 <= 90 {
        c as u32 + 32
    } else {
        c as u32 as int
    }
}

/// Case-insensitive character equality.
pub open spec fn ci_eq(a: char, b: char) -> bool {
    norm_code(a) == norm_code(b)
}

/// The query matches as a contiguous substring of the haystack at offset `i`.
pub open spec fn sub_at(hay: Seq<char>, q: Seq<char>, i: int) -> bool {
    &&& 0 <= i
    &&& i + q.len() <= hay.len()
    &&& forall|j: int| 0 <= j < q.len() ==> ci_eq(hay[i + j], q[j])
}

/// The query is a (case-insensitive) subsequence of the haystack.
pub open spec fn is_subseq(q: Seq<char>, hay: Seq<char>) -> bool
    decreases hay.len(),
{
    if q.len() == 0 {
        true
    } else if hay.len() == 0 {
        false
    } else if ci_eq(hay[0], q[0]) {
        is_subseq(q.drop_first(), hay.drop_first()) || is_subseq(q, hay.drop_first())
    } else {
        is_subseq(q, hay.drop_first())
    }
}

/// Whether the haystack survives the pattern under the given mode.
pub open spec fn matches_q(hay: Seq<char>, q: Seq<char>, mode: SearchMode) -> bool {
    match mode {
        SearchMode::Exact => exists|i: int| sub_at(hay, q, i),
        SearchMode::Fuzzy => is_subseq(q, hay),
    }
}

/// The least offset at or after `i` where the query matches contiguously.
pub open spec fn first_sub(hay: Seq<char>, q: Seq<char>, i: int) -> Option<int>
    decreases hay.len() - i when 0 <= i
{
    if i + q.len() > hay.len() {
        None
    } else if sub_at(hay, q, i) {
        Some(i)
    } else {
        first_sub(hay, q, i + 1)
    }
}

/// Leftmost greedy subsequence match from offset `h`: the positions of the
/// first and last matched character.
pub open spec fn greedy(hay: Seq<char>, q: Seq<char>, h: int) -> Option<(int, int)>
    decreases hay.len() - h when 0 <= h && q.len() > 0
{
    if h >= hay.len() {
        None
    } else if ci_eq(hay[h], q[0]) {
        if q.len() == 1 {
            Some((h, h))
        } else {
            match greedy(hay, q.drop_first(), h + 1) {
                Some(p) => Some((h, p.1)),
                None => None,
            }
        }
    } else {
        greedy(hay, q, h + 1)
    }
}

/// The match positions used for scoring, per mode.
pub open spec fn positions_of(hay: Seq<char>, q: Seq<char>, mode: SearchMode) -> Option<(int, int)> {
    match mode {
        SearchMode::Exact => match first_sub(hay, q, 0) {
            Some(i) => Some((i, i + q.len() - 1)),
            None => None,
        },
        SearchMode::Fuzzy => greedy(hay, q, 0),
    }
}

proof fn lemma_first_sub_props(hay: Seq<char>, q: Seq<char>, i: int)
    requires
        0 <= i,
    ensures
        first_sub(hay, q, i) matches Some(j) ==> i <= j && sub_at(hay, q, j),
        first_sub(hay, q, i) is Some <==> exists|j: int| i <= j && sub_at(hay, q, j),
    decreases hay.len() - i,
{
    if i + q.len() > hay.len() {
        assert forall|j: int| i <= j implies !sub_at(hay, q, j) by {}
    } else if sub_at(hay, q, i) {
    } else {
        lemma_first_sub_props(hay, q, i + 1);
        if exists|j: int| i <= j && sub_at(hay, q, j) {
            let j = choose|j: int| i <= j && sub_at(hay, q, j);
            assert(i + 1 <= j && sub_at(hay, q, j));
        }
    }
}

/// Dropping the head of the pattern keeps it a subsequence.
proof fn lemma_subseq_drop(q: Seq<char>, hay: Seq<char>)
    requires
        q.len() > 0,
        is_subseq(q, hay),
    ensures
        is_subseq(q.drop_first(), hay),
    decreases hay.len(),
{
    if hay.len() == 0 {
    } else {
        if ci_eq(hay[0], q[0]) && is_subseq(q.drop_first(), hay.drop_first()) {
            if q.len() > 1 {
                // the tail matches within hay.drop_first(), so also within hay
                assert(is_subseq(q.drop_first(), hay));
            }
        } else {
            assert(is_subseq(q, hay.drop_first()));
            lemma_subseq_drop(q, hay.drop_first());
            assert(is_subseq(q.drop_first(), hay.drop_first()));
            assert(is_subseq(q.drop_first(), hay));
        }
    }
}

/// The greedy scan succeeds exactly when a subsequence match exists.
proof fn lemma_greedy_complete(hay: Seq<char>, q: Seq<char>, h: int)
    requires
        0 <= h <= hay.len(),
        q.len() > 0,
    ensures
        greedy(hay, q, h) is Some <==> is_subseq(q, hay.skip(h)),
    decreases hay.len() - h,
{
    let rest = hay.skip(h);
    if h >= hay.len() {
        assert(rest.len() == 0);
    } else {
        assert(rest.len() > 0 && rest[0] == hay[h]);
        assert(rest.drop_first() =~= hay.skip(h + 1));
        if ci_eq(hay[h], q[0]) {
            if q.len() == 1 {
                assert(is_subseq(q.drop_first(), rest.drop_first()));
                assert(is_subseq(q, rest));
            } else {
                lemma_greedy_complete(hay, q.drop_first(), h + 1);
                if is_subseq(q, rest) {
                    if is_subseq(q, rest.drop_first()) {
                        lemma_subseq_drop(q, rest.drop_first());
                    }
                    assert(is_subseq(q.drop_first(), hay.skip(h + 1)));
                }
            }
        } else {
            lemma_greedy_complete(hay, q, h + 1);
        }
    }
}

/// Case-folds one character's code point.
fn lower_code(c: char) -> (r: u32)
    ensures
        r as int == norm_code(c),
{
    let u = c as u32;
    if 65 <= u && u <= 90 {
        u + 32
    } else {
        u
    }
}

/// Case-insensitive character comparison.
pub fn ci_eq_exec(a: char, b: char) -> (r: bool)
    ensures
        r == ci_eq(a, b),
{
    lower_code(a) == lower_code(b)
}

/// Finds the match positions of the (non-empty) query in the haystack, or
/// `None` when the pattern rejects the haystack.
pub fn match_positions(hay: &Vec<char>, q: &Vec<char>, mode: SearchMode) -> (r: Option<
    (usize, usize),
>)
    requires
        q@.len() > 0,
    ensures
        r is Some <==> matches_q(hay@, q@, mode),
        r matches Some(p) ==> {
            &&& positions_of(hay@, q@, mode) == Some((p.0 as int, p.1 as int))
            &&& p.0 <= p.1 < hay@.len()
            &&& p.1 - p.0 + 1 >= q@.len()
        },
{
    match mode {
        SearchMode::Exact => match_exact(hay, q),
        SearchMode::Fuzzy => match_fuzzy(hay, q),
    }
}

fn match_exact(hay: &Vec<char>, q: &Vec<char>) -> (r: Option<(usize, usize)>)
    requires
        q@.len() > 0,
    ensures
        r is Some <==> matches_q(hay@, q@, SearchMode::Exact),
        r matches Some(p) ==> {
            &&& positions_of(hay@, q@, SearchMode::Exact) == Some((p.0 as int, p.1 as int))
            &&& p.0 <= p.1 < hay@.len()
            &&& p.1 - p.0 + 1 >= q@.len()
        },
{
    let n = hay.len();
    let m = q.len();
    proof {
        lemma_first_sub_props(hay@, q@, 0);
    }
    if m > n {
        assert(forall|j: int| !sub_at(hay@, q@, j));
        return None;
    }
    let mut i: usize = 0;
    while i <= n - m
        invariant
            q@.len() == m > 0,
            hay@.len() == n >= m,
            0 <= i <= n - m + 1,
            forall|j: int| 0 <= j < i ==> !sub_at(hay@, q@, j),
        decreases n - m - i + 1,
    {
        let mut j: usize = 0;
        let mut ok = true;
        while ok && j < m
            invariant
                q@.len() == m,
                hay@.len() == n,
                i + m <= n,
                0 <= j <= m,
                ok ==> forall|k: int| 0 <= k < j ==> ci_eq(hay@[i + k], q@[k]),
                !ok ==> !sub_at(hay@, q@, i as int),
            decreases (if ok { 1int } else { 0int }), m - j,
        {
            if !ci_eq_exec(hay[i + j], q[j]) {
                assert(!ci_eq(hay@[i + j as int], q@[j as int]));
                ok = false;
                assert(!sub_at(hay@, q@, i as int));
            } else {
                assert(ci_eq(hay@[i + j as int], q@[j as int]));
                j += 1;
            }
        }
        if ok && j == m {
            assert(sub_at(hay@, q@, i as int));
            proof {
                lemma_first_sub_is(hay@, q@, 0, i as int);
            }
            return Some((i, i + m - 1));
        }
        assert(!sub_at(hay@, q@, i as int));
        i += 1;
    }
    assert forall|j: int| !sub_at(hay@, q@, j) by {
        if 0 <= j <= n - m {
            assert(j < i);
        }
    }
    None
}

/// `first_sub` returns exactly the least matching offset.
proof fn lemma_first_sub_is(hay: Seq<char>, q: Seq<char>, i0: int, j: int)
    requires
        0 <= i0 <= j,
        forall|m: int| i0 <= m < j ==> !sub_at(hay, q, m),
        sub_at(hay, q, j),
    ensures
        first_sub(hay, q, i0) == Some(j),
    decreases j - i0,
{
    assert(j + q.len() <= hay.len());
    if i0 < j {
        lemma_first_sub_is(hay, q, i0 + 1, j);
    }
}

fn match_fuzzy(hay: &Vec<char>, q: &Vec<char>) -> (r: Option<(usize, usize)>)
    requires
        q@.len() > 0,
    ensures
        r is Some <==> matches_q(hay@, q@, SearchMode::Fuzzy),
        r matches Some(p) ==> {
            &&& positions_of(hay@, q@, SearchMode::Fuzzy) == Some((p.0 as int, p.1 as int))
            &&& p.0 <= p.1 < hay@.len()
            &&& p.1 - p.0 + 1 >= q@.len()
        },
{
    let n = hay.len();
    let m = q.len();
    let mut h: usize = 0;
    let mut qi: usize = 0;
    let mut first: usize = 0;
    let mut last: usize = 0;
    while h < n && qi < m
        invariant
            q@.len() == m > 0,
            hay@.len() == n,
            0 <= h <= n,
            0 <= qi <= m,
            qi < m ==> greedy(hay@, q@, 0) == greedy_resume(hay@, q@, qi as int, first as int, h as int),
            qi == m ==> greedy(hay@, q@, 0) == Some((first as int, last as int)),
            qi == m ==> first <= last < n && last - first + 1 >= m,
            qi > 0 ==> first <= h && qi <= h && last < h && first <= last && last - first + 1 >= qi,
        decreases n - h,
    {
        let ghost old_qi = qi as int;
        let ghost hh = h as int;
        proof {
            assert(q@.skip(0) =~= q@);
        }
        let ghost qrest = q@.skip(old_qi);
        if ci_eq_exec(hay[h], q[qi]) {
            if qi == 0 {
                first = h;
            }
            last = h;
            qi += 1;
            proof {
                assert(qrest[0] == q@[old_qi]);
                assert(ci_eq(hay@[hh], qrest[0]));
                if qi < m {
                    assert(qrest.len() > 1);
                    assert(qrest.drop_first() =~= q@.skip(qi as int));
                    assert(greedy(hay@, qrest, hh) == (match greedy(hay@, q@.skip(qi as int), hh + 1) {
                        Some(p) => Some((hh, p.1)),
                        None => None,
                    }));
                } else {
                    assert(qrest.len() == 1);
                    assert(greedy(hay@, qrest, hh) == Some((hh, hh)));
                }
            }
        } else {
            proof {
                assert(qrest[0] == q@[old_qi]);
                assert(!ci_eq(hay@[hh], qrest[0]));
                assert(greedy(hay@, qrest, hh) == greedy(hay@, qrest, hh + 1));
            }
        }
        h += 1;
    }
    if qi == m {
        proof {
            lemma_greedy_complete(hay@, q@, 0);
            assert(hay@.skip(0) =~= hay@);
        }
        Some((first, last))
    } else {
        assert(h == n);
        proof {
            let qrest = q@.skip(qi as int);
            assert(qrest.len() > 0);
            assert(greedy(hay@, q@, 0) is None);
            lemma_greedy_complete(hay@, q@, 0);
            assert(hay@.skip(0) =~= hay@);
        }
        None
    }
}

/// What the greedy scan will produce once `qi` characters have matched, the
/// first at `first`, resuming at offset `h`.
pub open spec fn greedy_resume(hay: Seq<char>, q: Seq<char>, qi: int, first: int, h: int) -> Option<
    (int, int),
> {
    if qi == 0 {
        greedy(hay, q, h)
    } else {
        match greedy(hay, q.skip(qi), h) {
            Some(p) => Some((first, p.1)),
            None => None,
        }
    }
}

/// The greatest raw match score; every match scores within
/// `[SCORE_BASE - GAP_WEIGHT * GAP_CAP - POS_CAP, SCORE_BASE]`.
pub const SCORE_BASE: u64 = 1000000;

/// The match's start offset penalizes the score by at most this much.
pub const POS_CAP: u64 = 1000;

/// Gaps between matched characters beyond this bound penalize no further.
pub const GAP_CAP: u64 = 10000;

/// Weight of one gap character against one offset step.
pub const GAP_WEIGHT: u64 = 16;

/// Width of one tie-break lane in the composite rank key.
pub const LANE: u64 = 1048576;

/// Largest value a tie-break lane can hold.
pub const LANE_MAX: u64 = 1048575;

/// Pathname distances at or above this bound saturate.
pub const DIST_CAP: u64 = 1048574;

/// The saturated pathname-distance penalty for matches that begin before
/// the basename.
pub const DIST_MAX: u64 = 1048575;

/// Width of the original-index lane of the composite rank key.
pub const IDX_LANE: u128 = 0x10000000000000000;

/// The positional score of a match spanning `first..=last` for a query of
/// `qlen` characters: earlier and tighter matches score higher.
pub open spec fn score_of(first: int, last: int, qlen: int) -> int {
    let gap0 = (last - first + 1) - qlen;
    let gap = if gap0 > GAP_CAP as int {
        GAP_CAP as int
    } else {
        gap0
    };
    let pos = if first > POS_CAP as int {
        POS_CAP as int
    } else {
        first
    };
    SCORE_BASE - GAP_WEIGHT * gap - pos
}

/// A filesystem path separator.
pub open spec fn is_sep(c: char) -> bool {
    c == '/' || c == '\\'
}

/// The haystack's length once trailing separators are ignored.
pub open spec fn trimmed_len(hay: Seq<char>) -> int
    decreases hay.len(),
{
    if hay.len() == 0 {
        0
    } else if is_sep(hay.last()) {
        trimmed_len(hay.drop_last())
    } else {
        hay.len() as int
    }
}

/// The offset just after the last separator among the first `n` characters,
/// or zero when there is none.
pub open spec fn after_last_sep(hay: Seq<char>, n: int) -> int
    decreases n,
{
    if n <= 0 {
        0
    } else if is_sep(hay[n - 1]) {
        n
    } else {
        after_last_sep(hay, n - 1)
    }
}

/// Where the basename begins, trailing separators ignored.
pub open spec fn base_start(hay: Seq<char>) -> int {
    after_last_sep(hay, trimmed_len(hay))
}

/// Pathname distance: how far into the basename the match begins, or the
/// saturated maximum penalty when it begins before the basename.
pub open spec fn path_dist(hay: Seq<char>, first: int) -> int {
    let b = base_start(hay);
    if first >= b {
        if first - b > DIST_CAP as int {
            DIST_CAP as int
        } else {
            first - b
        }
    } else {
        DIST_MAX as int
    }
}

/// The haystack-length lane, saturated at the lane width.
pub open spec fn lane_len(hay_len: int) -> int {
    if hay_len > LANE_MAX as int {
        LANE_MAX as int
    } else {
        hay_len
    }
}

/// The composite rank key: inverted score, then pathname distance, then
/// haystack length, then original index, most significant first. Ascending
/// order of keys is the display order.
pub open spec fn key_parts(score: int, dist: int, len_c: int, idx: int) -> int {
    (((SCORE_BASE - score) * LANE + dist) * LANE + len_c) * (IDX_LANE as int) + idx
}

/// The composite key of candidate `idx`, defined when the haystack matches.
pub open spec fn key_of(
    hay: Seq<char>,
    q: Seq<char>,
    mode: SearchMode,
    scheme: SearchScheme,
    idx: int,
) -> int {
    let p = positions_of(hay, q, mode)->Some_0;
    let score = score_of(p.0, p.1, q.len() as int);
    match scheme {
        SearchScheme::Path => key_parts(score, path_dist(hay, p.0), lane_len(hay.len() as int), idx),
        SearchScheme::Plain => key_parts(score, 0, 0, idx),
    }
}

/// The keyed surviving candidates among the first `n` haystacks, in input
/// order.
pub open spec fn keyed_prefix(
    hays: Seq<Seq<char>>,
    q: Seq<char>,
    mode: SearchMode,
    scheme: SearchScheme,
    n: int,
) -> Seq<(u128, usize)>
    decreases n,
{
    if n <= 0 {
        Seq::empty()
    } else {
        let rest = keyed_prefix(hays, q, mode, scheme, n - 1);
        if matches_q(hays[n - 1], q, mode) {
            rest.push(((key_of(hays[n - 1], q, mode, scheme, n - 1) as u128), (n - 1) as usize))
        } else {
            rest
        }
    }
}

/// Ordering of keyed candidates: by key, then by original index.
pub open spec fn pair_le(a: (u128, usize), b: (u128, usize)) -> bool {
    a.0 < b.0 || (a.0 == b.0 && a.1 <= b.1)
}

/// `pair_le` as a first-class ordering for `sort_by`.
pub open spec fn pair_leq() -> spec_fn((u128, usize), (u128, usize)) -> bool {
    |a: (u128, usize), b: (u128, usize)| pair_le(a, b)
}

/// The surviving candidates of the whole input, sorted ascending by
/// composite key.
pub open spec fn ranked_pairs(
    hays: Seq<Seq<char>>,
    q: Seq<char>,
    mode: SearchMode,
    scheme: SearchScheme,
) -> Seq<(u128, usize)> {
    keyed_prefix(hays, q, mode, scheme, hays.len() as int).sort_by(pair_leq())
}

/// `pair_le` is a total ordering.
pub proof fn lemma_pair_total()
    ensures
        vstd::relations::total_ordering(pair_leq()),
{
    let leq = pair_leq();
    assert forall|a: (u128, usize), b: (u128, usize)| #[trigger] leq(a, b) && leq(b, a) implies a
        == b by {}
    assert forall|a: (u128, usize), b: (u128, usize), c: (u128, usize)|
        #[trigger] leq(a, b) && #[trigger] leq(b, c) implies leq(a, c) by {}
    assert forall|a: (u128, usize), b: (u128, usize)| #[trigger] leq(a, b) || #[trigger] leq(
        b,
        a,
    ) by {}
}

/// Whether the character separates path components.
fn is_sep_exec(c: char) -> (r: bool)
    ensures
        r == is_sep(c),
{
    c == '/' || c == '\\'
}

/// The positional score of a match, per `score_of`.
pub fn compute_score(first: usize, last: usize, qlen: usize) -> (r: u64)
    requires
        first <= last,
        last < usize::MAX,
        last - first + 1 >= qlen,
    ensures
        r as int == score_of(first as int, last as int, qlen as int),
        SCORE_BASE - GAP_WEIGHT * GAP_CAP - POS_CAP <= r <= SCORE_BASE,
{
    let gap0: usize = last - first + 1 - qlen;
    let gap: u64 = if gap0 as u64 > GAP_CAP {
        GAP_CAP
    } else {
        gap0 as u64
    };
    let pos: u64 = if first as u64 > POS_CAP {
        POS_CAP
    } else {
        first as u64
    };
    SCORE_BASE - GAP_WEIGHT * gap - pos
}

/// The pathname-distance lane of a candidate, per `path_dist`.
pub fn path_dist_exec(hay: &Vec<char>, first: usize) -> (r: u64)
    ensures
        r as int == path_dist(hay@, first as int),
        r <= DIST_MAX,
{
    let n = hay.len();
    let mut t: usize = n;
    proof {
        assert(hay@.subrange(0, n as int) =~= hay@);
    }
    while t > 0 && is_sep_exec(hay[t - 1])
        invariant
            0 <= t <= n,
            n == hay@.len(),
            trimmed_len(hay@) == trimmed_len(hay@.subrange(0, t as int)),
        decreases t,
    {
        proof {
            let s = hay@.subrange(0, t as int);
            assert(s.last() == hay@[t - 1]);
            assert(s.drop_last() =~= hay@.subrange(0, t - 1));
        }
        t -= 1;
    }
    proof {
        let s = hay@.subrange(0, t as int);
        if t > 0 {
            assert(s.last() == hay@[t - 1]);
        }
        assert(trimmed_len(hay@) == t);
    }
    let mut b: usize = t;
    while b > 0 && !is_sep_exec(hay[b - 1])
        invariant
            0 <= b <= t <= n,
            n == hay@.len(),
            trimmed_len(hay@) == t,
            after_last_sep(hay@, t as int) == after_last_sep(hay@, b as int),
        decreases b,
    {
        b -= 1;
    }
    assert(base_start(hay@) == b);
    if first >= b {
        let d = (first - b) as u64;
        if d > DIST_CAP {
            DIST_CAP
        } else {
            d
        }
    } else {
        DIST_MAX
    }
}

/// Packs the composite rank key, per `key_parts`.
pub fn make_key(score: u64, dist: u64, len_c: u64, idx: usize) -> (r: u128)
    requires
        score <= SCORE_BASE,
        SCORE_BASE - score <= LANE_MAX,
        dist <= LANE_MAX,
        len_c <= LANE_MAX,
    ensures
        r as int == key_parts(score as int, dist as int, len_c as int, idx as int),
{
    let inv: u64 = SCORE_BASE - score;
    assert(inv * LANE <= LANE_MAX * LANE);
    let mid: u64 = inv * LANE + dist;
    assert(mid * LANE <= (LANE_MAX * LANE + LANE_MAX) * LANE) by (nonlinear_arith)
        requires
            mid <= LANE_MAX * LANE + LANE_MAX,
    ;
    let hi: u64 = mid * LANE + len_c;
    let r: u128 = (hi as u128) * IDX_LANE + (idx as u128);
    r
}

/// Inserting into a sequence adds one occurrence to its multiset.
proof fn lemma_insert_multiset<A>(s: Seq<A>, x: A, j: int)
    requires
        0 <= j <= s.len(),
    ensures
        s.insert(j, x).to_multiset() =~= s.to_multiset().insert(x),
{
    broadcast use vstd::seq_lib::group_to_multiset_ensures;
    broadcast use vstd::multiset::group_multiset_axioms;

    let a = s.subrange(0, j);
    let b = s.subrange(j, s.len() as int);
    assert(s =~= a + b);
    assert(s.insert(j, x) =~= a + (seq![x] + b));
    vstd::seq_lib::lemma_multiset_commutative(a, seq![x] + b);
    vstd::seq_lib::lemma_multiset_commutative(seq![x], b);
    vstd::seq_lib::lemma_multiset_commutative(a, b);
    assert(seq![x] =~= Seq::<A>::empty().push(x));
    assert(seq![x].to_multiset() =~= Multiset::<A>::empty().insert(x));
}

/// Inserting at the scanned position keeps the sequence sorted.
proof fn lemma_sorted_insert(s: Seq<(u128, usize)>, x: (u128, usize), j: int)
    requires
        vstd::relations::sorted_by(s, pair_leq()),
        0 <= j <= s.len(),
        forall|k: int| 0 <= k < j ==> pair_le(s[k], x),
        j < s.len() ==> !pair_le(s[j], x),
    ensures
        vstd::relations::sorted_by(s.insert(j, x), pair_leq()),
{
    let t = s.insert(j, x);
    let leq = pair_leq();
    assert forall|p: int, r: int| 0 <= p < r < t.len() implies leq(t[p], t[r]) by {
        if p < j && r < j {
            assert(t[p] == s[p] && t[r] == s[r]);
        } else if p < j && r == j {
            assert(t[p] == s[p] && t[r] == x);
        } else if p < j && r > j {
            assert(t[p] == s[p] && t[r] == s[r - 1]);
        } else if p == j && r > j {
            assert(t[p] == x && t[r] == s[r - 1]);
            assert(!pair_le(s[j], x));
            assert(pair_le(x, s[j]));
            assert(leq(s[j], s[r - 1]) || j == r - 1);
        } else {
            assert(t[p] == s[p - 1] && t[r] == s[r - 1]);
        }
    }
}

/// Sorts keyed candidates ascending by composite key, stably realized as
/// the unique order `sort_by` specifies.
pub fn sort_pairs(v: Vec<(u128, usize)>) -> (r: Vec<(u128, usize)>)
    ensures
        r@ == v@.sort_by(pair_leq()),
{
    proof {
        lemma_pair_total();
        v@.lemma_sort_by_ensures(pair_leq());
    }
    let mut out: Vec<(u128, usize)> = Vec::new();
    let mut i: usize = 0;
    proof {
        assert(v@.subrange(0, 0) =~= Seq::<(u128, usize)>::empty());
    }
    while i < v.len()
        invariant
            0 <= i <= v@.len(),
            vstd::relations::sorted_by(out@, pair_leq()),
            out@.to_multiset() == v@.subrange(0, i as int).to_multiset(),
        decreases v@.len() - i,
    {
        let x = v[i];
        let mut j: usize = 0;
        let mut scan = true;
        while scan && j < out.len()
            invariant
                0 <= j <= out@.len(),
                forall|k: int| 0 <= k < j ==> pair_le(out@[k], x),
                !scan ==> j < out@.len() && !pair_le(out@[j as int], x),
            decreases (if scan { 1int } else { 0int }), out@.len() - j,
        {
            let y = out[j];
            let le = y.0 < x.0 || (y.0 == x.0 && y.1 <= x.1);
            if le {
                j += 1;
            } else {
                scan = false;
            }
        }
        let ghost pre = out@;
        out.insert(j, x);
        proof {
            lemma_sorted_insert(pre, x, j as int);
            lemma_insert_multiset(pre, x, j as int);
            broadcast use vstd::seq_lib::group_to_multiset_ensures;

            assert(v@.subrange(0, i + 1) =~= v@.subrange(0, i as int).push(v@[i as int]));
        }
        i += 1;
    }
    proof {
        assert(v@.subrange(0, v@.len() as int) =~= v@);
        vstd::seq_lib::lemma_sorted_unique(out@, v@.sort_by(pair_leq()), pair_leq());
    }
    out
}

} // verus!
