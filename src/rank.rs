//! Fuzzy ranking: score each candidate's display text against a query, keep
//! the candidates that match, order them by score (best first, ties in input
//! order) and keep at most `limit` of them.
use fuzzy_matcher::FuzzyMatcher;
use vstd::prelude::*;

verus! {

/// The score that the default skim matcher gives `choice` against `pattern`,
/// or `None` where it finds no match.
pub uninterp spec fn skim_score(choice: Seq<char>, pattern: Seq<char>) -> Option<i64>;

/// `c` with ASCII upper case mapped to lower case, as a code point.
pub open spec fn ascii_fold(c: char) -> u32 {
    let u = c as u32;
    if 0x41 <= u && u <= 0x5a {
        (u + 0x20) as u32
    } else {
        u
    }
}

/// The characters of `pattern` occur in `choice` in order, ASCII case
/// ignored (the greedy scan finds such an occurrence whenever one exists).
pub open spec fn fuzzy_subsequence(choice: Seq<char>, pattern: Seq<char>) -> bool
    decreases choice.len(),
{
    if pattern.len() == 0 {
        true
    } else if choice.len() == 0 {
        false
    } else if ascii_fold(choice[0]) == ascii_fold(pattern[0]) {
        fuzzy_subsequence(choice.drop_first(), pattern.drop_first())
    } else {
        fuzzy_subsequence(choice.drop_first(), pattern)
    }
}

/// Relies on `fuzzy_matcher::skim::SkimMatcherV2::fuzzy_match` with the
/// default matcher: an empty pattern scores 0, and a pattern that is not an
/// in-order subsequence of the choice (ASCII case ignored) gives `None`.
#[verifier::external_body]
fn fuzzy_score(choice: &str, pattern: &str) -> (r: Option<i64>)
    ensures
        r == skim_score(choice@, pattern@),
        pattern@.len() == 0 ==> r == Some(0i64),
        !fuzzy_subsequence(choice@, pattern@) ==> r is None,
{
    fuzzy_matcher::skim::SkimMatcherV2::default().fuzzy_match(choice, pattern)
}

/// Candidate `i` was matched.
pub open spec fn is_hit(scores: Seq<Option<i64>>, i: int) -> bool {
    0 <= i < scores.len() && scores[i] is Some
}

/// The score of a matched candidate.
pub open spec fn score_at(scores: Seq<Option<i64>>, i: int) -> int {
    scores[i]->0 as int
}

/// Candidate `i` comes before candidate `j`: a higher score, or the same
/// score and an earlier position.
pub open spec fn precedes(scores: Seq<Option<i64>>, i: int, j: int) -> bool {
    score_at(scores, i) > score_at(scores, j) || (score_at(scores, i) == score_at(scores, j) && i
        < j)
}

/// The number of matched candidates.
pub open spec fn hit_count(scores: Seq<Option<i64>>) -> nat
    decreases scores.len(),
{
    if scores.len() == 0 {
        0
    } else {
        hit_count(scores.drop_last()) + if scores.last() is Some {
            1nat
        } else {
            0nat
        }
    }
}

/// The smaller of two naturals.
pub open spec fn min(a: nat, b: nat) -> nat {
    if a <= b {
        a
    } else {
        b
    }
}

/// `r` is the ranking of `scores`: the first `limit` matched candidates in
/// the order `precedes`, which is total on distinct candidates, so exactly
/// one sequence meets this.
pub open spec fn is_ranking(scores: Seq<Option<i64>>, r: Seq<usize>, limit: nat) -> bool {
    &&& r.len() == min(limit, hit_count(scores))
    &&& forall|k: int| 0 <= k < r.len() ==> is_hit(scores, #[trigger] r[k] as int)
    &&& forall|a: int, b: int|
        0 <= a < b < r.len() ==> precedes(scores, #[trigger] r[a] as int, #[trigger] r[b] as int)
    &&& forall|j: int, k: int|
        #![trigger is_hit(scores, j), r[k]]
        is_hit(scores, j) && !r.contains(j as usize) && 0 <= k < r.len() ==> precedes(
            scores,
            r[k] as int,
            j,
        )
}

/// Two rankings of the same scores under the same limit are the same
/// sequence: `is_ranking` leaves no choice.
pub proof fn lemma_ranking_unique(scores: Seq<Option<i64>>, r1: Seq<usize>, r2: Seq<usize>, limit: nat)
    requires
        is_ranking(scores, r1, limit),
        is_ranking(scores, r2, limit),
    ensures
        r1 == r2,
{
    assert forall|k: int| 0 <= k < r1.len() implies r1[k] == r2[k] by {
        lemma_ranking_agrees_at(scores, r1, r2, limit, k);
    }
    assert(r1 =~= r2);
}

/// Two rankings agree at position `k` (by induction on `k`).
proof fn lemma_ranking_agrees_at(
    scores: Seq<Option<i64>>,
    r1: Seq<usize>,
    r2: Seq<usize>,
    limit: nat,
    k: int,
)
    requires
        is_ranking(scores, r1, limit),
        is_ranking(scores, r2, limit),
        0 <= k < r1.len(),
    ensures
        r1[k] == r2[k],
    decreases k,
{
    assert forall|i: int| 0 <= i < k implies r1[i] == r2[i] by {
        lemma_ranking_agrees_at(scores, r1, r2, limit, i);
    }
    let a = r1[k] as int;
    let b = r2[k] as int;
    if a != b {
        assert(is_hit(scores, a));
        assert(is_hit(scores, b));
        // `a` comes strictly before `b` in the first ranking's order...
        if r1.contains(b as usize) {
            let j = choose|j: int| 0 <= j < r1.len() && r1[j] == b as usize;
            if j < k {
                assert(r2[j] == b as usize);
                assert(precedes(scores, r2[j] as int, r2[k] as int));
            } else {
                assert(precedes(scores, r1[k] as int, r1[j] as int));
            }
        } else {
            assert(precedes(scores, r1[k] as int, b));
        }
        assert(precedes(scores, a, b));
        // ...and `b` strictly before `a` in the second's, which cannot be.
        if r2.contains(a as usize) {
            let j = choose|j: int| 0 <= j < r2.len() && r2[j] == a as usize;
            if j < k {
                assert(r1[j] == a as usize);
                assert(precedes(scores, r1[j] as int, r1[k] as int));
            } else {
                assert(precedes(scores, r2[k] as int, r2[j] as int));
            }
        } else {
            assert(precedes(scores, r2[k] as int, a));
        }
    }
}

/// The scores that the matcher gives each text against `query`.
pub open spec fn scores_for(texts: Seq<Seq<char>>, query: Seq<char>) -> Seq<Option<i64>> {
    Seq::new(texts.len(), |i: int| skim_score(texts[i], query))
}

/// The texts that `candidates` hold.
pub open spec fn texts_of(candidates: Seq<String>) -> Seq<Seq<char>> {
    Seq::new(candidates.len(), |i: int| candidates[i]@)
}

/// The score held by `o`, the lowest score where there is none.
fn score_value(o: Option<i64>) -> (r: i64)
    ensures
        o is Some ==> r == o->0,
{
    match o {
        Some(t) => t,
        None => i64::MIN,
    }
}

/// Ranks candidates by their scores: indices of the matched ones, best
/// first, ties in input order, at most `limit` of them.
pub fn rank_scores(scores: &Vec<Option<i64>>, limit: usize) -> (r: Vec<usize>)
    ensures
        is_ranking(scores@, r@, limit as nat),
        r@.len() <= limit,
        forall|k: int| 0 <= k < r@.len() ==> #[trigger] scores@[r@[k] as int] is Some,
        forall|a: int, b: int|
            0 <= a < b < r@.len() ==> score_at(scores@, #[trigger] r@[a] as int) >= score_at(
                scores@,
                #[trigger] r@[b] as int,
            ),
        forall|a: int, b: int|
            0 <= a < b < r@.len() && score_at(scores@, #[trigger] r@[a] as int) == score_at(
                scores@,
                #[trigger] r@[b] as int,
            ) ==> r@[a] < r@[b],
{
    let n = scores.len();
    let mut sorted: Vec<usize> = Vec::new();
    let mut i: usize = 0;
    while i < n
        invariant
            n == scores@.len(),
            i <= n,
            sorted@.len() == hit_count(scores@.take(i as int)),
            forall|k: int| 0 <= k < sorted@.len() ==> #[trigger] sorted@[k] < i,
            forall|k: int| 0 <= k < sorted@.len() ==> is_hit(scores@, #[trigger] sorted@[k] as int),
            forall|j: int| 0 <= j < i && is_hit(scores@, j) ==> sorted@.contains(j as usize),
            forall|a: int, b: int|
                0 <= a < b < sorted@.len() ==> precedes(
                    scores@,
                    #[trigger] sorted@[a] as int,
                    #[trigger] sorted@[b] as int,
                ),
        decreases n - i,
    {
        assert(scores@.take(i + 1).drop_last() =~= scores@.take(i as int));
        match scores[i] {
            None => {},
            Some(s) => {
                let mut p: usize = 0;
                while p < sorted.len() && score_value(scores[sorted[p]]) >= s
                    invariant
                        n == scores@.len(),
                        i < n,
                        scores@[i as int] == Some(s),
                        p <= sorted@.len(),
                        forall|k: int| 0 <= k < sorted@.len() ==> #[trigger] sorted@[k] < i,
                        forall|k: int|
                            0 <= k < sorted@.len() ==> is_hit(scores@, #[trigger] sorted@[k] as int),
                        forall|k: int|
                            0 <= k < p ==> precedes(scores@, #[trigger] sorted@[k] as int, i as int),
                    decreases sorted@.len() - p,
                {
                    p = p + 1;
                }
                proof {
                    if p < sorted@.len() {
                        assert forall|k: int| p <= k < sorted@.len() implies precedes(
                            scores@,
                            i as int,
                            #[trigger] sorted@[k] as int,
                        ) by {
                            if k > p {
                                assert(precedes(scores@, sorted@[p as int] as int, sorted@[k] as int));
                            }
                        }
                    }
                }
                let ghost old_sorted = sorted@;
                sorted.insert(p, i);
                assert(sorted@ == old_sorted.insert(p as int, i));
                assert forall|j: int| 0 <= j < i + 1 && is_hit(scores@, j) implies sorted@.contains(
                    j as usize,
                ) by {
                    if j == i {
                        assert(sorted@[p as int] == i);
                    } else {
                        let q = choose|q: int| 0 <= q < old_sorted.len() && old_sorted[q] == j as usize;
                        if q < p {
                            assert(sorted@[q] == j as usize);
                        } else {
                            assert(sorted@[q + 1] == j as usize);
                        }
                    }
                }
            },
        }
        i = i + 1;
    }
    assert(scores@.take(n as int) =~= scores@);
    let m = if limit < sorted.len() {
        limit
    } else {
        sorted.len()
    };
    let mut r: Vec<usize> = Vec::new();
    let mut k: usize = 0;
    while k < m
        invariant
            m <= sorted@.len(),
            k <= m,
            r@ == sorted@.take(k as int),
        decreases m - k,
    {
        r.push(sorted[k]);
        k = k + 1;
        assert(r@ =~= sorted@.take(k as int));
    }
    assert forall|j: int, k2: int|
        #![trigger is_hit(scores@, j), r@[k2]]
        is_hit(scores@, j) && !r@.contains(j as usize) && 0 <= k2 < r@.len() implies precedes(
        scores@,
        r@[k2] as int,
        j,
    ) by {
        let q = choose|q: int| 0 <= q < sorted@.len() && sorted@[q] == j as usize;
        if q < m {
            assert(r@[q] == j as usize);
        } else {
            assert(precedes(scores@, sorted@[k2] as int, sorted@[q] as int));
        }
    }
    r
}

/// Ranks `candidates` (display texts) against `query`: the indices of the
/// candidates that the matcher accepts, best score first, ties in input
/// order, at most `limit` of them.
pub fn rank(candidates: &Vec<String>, query: &str, limit: usize) -> (r: Vec<usize>)
    ensures
        is_ranking(scores_for(texts_of(candidates@), query@), r@, limit as nat),
        r@.len() <= limit,
        forall|k: int|
            0 <= k < r@.len() ==> fuzzy_subsequence(
                candidates@[#[trigger] r@[k] as int]@,
                query@,
            ),
        forall|a: int, b: int|
            0 <= a < b < r@.len() ==> score_at(
                scores_for(texts_of(candidates@), query@),
                #[trigger] r@[a] as int,
            ) >= score_at(scores_for(texts_of(candidates@), query@), #[trigger] r@[b] as int),
        forall|a: int, b: int|
            0 <= a < b < r@.len() && score_at(
                scores_for(texts_of(candidates@), query@),
                #[trigger] r@[a] as int,
            ) == score_at(scores_for(texts_of(candidates@), query@), #[trigger] r@[b] as int) ==> r@[a]
                < r@[b],
{
    let n = candidates.len();
    let mut scores: Vec<Option<i64>> = Vec::new();
    let mut i: usize = 0;
    while i < n
        invariant
            n == candidates@.len(),
            i <= n,
            scores@.len() == i,
            forall|j: int| 0 <= j < i ==> #[trigger] scores@[j] == skim_score(candidates@[j]@, query@),
            forall|j: int|
                0 <= j < i && #[trigger] scores@[j] is Some ==> fuzzy_subsequence(
                    candidates@[j]@,
                    query@,
                ),
        decreases n - i,
    {
        let s = fuzzy_score(candidates[i].as_str(), query);
        scores.push(s);
        i = i + 1;
    }
    assert(scores@ =~= scores_for(texts_of(candidates@), query@));
    rank_scores(&scores, limit)
}

} // verus!
