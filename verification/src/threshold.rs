//! Random match threshold estimation.
//!
//! A run of matches against the reference is considered real rather than
//! random once it is at least as long as a threshold derived from the size
//! of the index and the alphabet. For each candidate run length `i` in
//! `1..k` the caller evaluates, in log space, whether the cumulative
//! probability that the longest chance run stays at or below `i` already
//! exceeds the tolerated error bound; the threshold is the first candidate
//! for which it does, or `k` when none qualifies.

use vstd::prelude::*;

verus! {

/// Position of the first `true` in `s` at or after `i`, or `s.len()` when
/// every element from `i` on is `false`.
pub open spec fn first_true_from(s: Seq<bool>, i: int) -> int
    decreases s.len() - i,
{
    if i < 0 || i >= s.len() {
        s.len() as int
    } else if s[i] {
        i
    } else {
        first_true_from(s, i + 1)
    }
}

/// The threshold determined by the per-candidate exceedance outcomes:
/// one more than the index of the first candidate whose cumulative
/// chance-probability bound was exceeded, or `k` when none was.
pub open spec fn spec_threshold(k: int, exceeds: Seq<bool>) -> int {
    1 + first_true_from(exceeds, 0)
}

proof fn lemma_first_true_from_bounds(s: Seq<bool>, i: int)
    requires
        0 <= i <= s.len(),
    ensures
        i <= first_true_from(s, i) <= s.len(),
        first_true_from(s, i) < s.len() ==> s[first_true_from(s, i)],
        forall|j: int| i <= j < first_true_from(s, i) ==> !s[j],
    decreases s.len() - i,
{
    if i < s.len() && !s[i] {
        lemma_first_true_from_bounds(s, i + 1);
    }
}

/// The smallest candidate run length in `1..k` whose chance-probability
/// bound is exceeded, or `k` when no candidate's bound is.
///
/// `exceeds[i - 1]` reports, for candidate run length `i`, whether the
/// log-scale cumulative probability that the longest chance run stays at
/// or below `i` exceeds the tolerated log error bound. The result always
/// lies in `[1, k]`.
pub fn random_match_threshold(k: usize, exceeds: &Vec<bool>) -> (t: usize)
    requires
        exceeds@.len() + 1 == k,
    ensures
        t == spec_threshold(k as int, exceeds@),
        1 <= t <= k,
        t < k ==> exceeds@[t - 1],
        forall|j: int| 0 <= j < t - 1 ==> !exceeds@[j],
{
    proof {
        lemma_first_true_from_bounds(exceeds@, 0);
    }
    let len = exceeds.len();
    let mut idx: usize = 0;
    while idx < len
        invariant
            idx <= len,
            len == exceeds@.len(),
            len + 1 == k,
            forall|j: int| 0 <= j < idx ==> !exceeds@[j],
            first_true_from(exceeds@, 0) == first_true_from(exceeds@, idx as int),
        decreases len - idx,
    {
        if exceeds[idx] {
            return idx + 1;
        }
        idx = idx + 1;
    }
    k
}

/// Lowering the tolerated error probability never lowers the threshold.
///
/// When the error bound is made stricter, every candidate run length whose
/// chance-probability bound still exceeds it would also have exceeded the
/// laxer bound; so, for a fixed index and alphabet, the threshold is
/// non-increasing as the tolerated error probability increases.
pub proof fn lemma_threshold_monotone(k: int, strict: Seq<bool>, lax: Seq<bool>)
    requires
        strict.len() + 1 == k,
        lax.len() + 1 == k,
        forall|j: int| 0 <= j < strict.len() && strict[j] ==> lax[j],
    ensures
        spec_threshold(k, lax) <= spec_threshold(k, strict),
{
    lemma_first_true_monotone(strict, lax, 0);
}

proof fn lemma_first_true_monotone(strict: Seq<bool>, lax: Seq<bool>, i: int)
    requires
        strict.len() == lax.len(),
        0 <= i <= strict.len(),
        forall|j: int| 0 <= j < strict.len() && strict[j] ==> lax[j],
    ensures
        first_true_from(lax, i) <= first_true_from(strict, i),
    decreases strict.len() - i,
{
    if i < strict.len() {
        if strict[i] {
            assert(lax[i]);
        } else {
            lemma_first_true_monotone(strict, lax, i + 1);
            if lax[i] {
                lemma_first_true_from_bounds(strict, i + 1);
            }
        }
    }
}

} // verus!
