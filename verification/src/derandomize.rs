//! Derandomization of matching statistics.
//!
//! A single backward pass turns the raw matching statistics of a query
//! into signed run values. Positive values record confidence in an
//! ongoing real match; non-positive, decreasing values count backward
//! through a region suspected to be random noise or a gap.

use vstd::prelude::*;

verus! {

/// Parameters shared by the derandomizing and decoding passes: the k-mer
/// length `k` and the random match threshold.
#[derive(Clone, Copy)]
pub struct TranslateParams {
    pub k: usize,
    pub threshold: usize,
}

/// The run value assigned at a position by the backward pass, from the
/// matching statistic there (`curr`), the statistic one position later
/// (`next`), and the run value already assigned one position later
/// (`next_run`). The first matching rule applies: a full-length statistic
/// inside a plateau, after a closed maximal run, or after a suspected gap
/// resets the value to `k`; a sub-threshold statistic keeps counting
/// backward; an above-threshold statistic restarts the value at the
/// statistic itself unless a longer run is already under way.
pub open spec fn spec_ms_to_run(curr: int, next: int, next_run: int, threshold: int, k: int) -> int {
    if curr == k && next == k {
        k
    } else if curr == k && next_run == 1 {
        k
    } else if curr == k && next_run < 0 {
        k
    } else if curr < threshold {
        next_run - 1
    } else if curr > threshold && next_run <= 0 {
        curr
    } else if curr > threshold && next_run == 1 {
        curr
    } else if curr > threshold && next_run < curr {
        curr
    } else {
        next_run - 1
    }
}

/// The run value at position `i` of the backward pass over `ms`: the last
/// position keeps its matching statistic, every other position is derived
/// from the position after it, and position `0` is never scanned and
/// keeps its initial value `0`.
pub open spec fn spec_run_value(ms: Seq<usize>, threshold: int, k: int, i: int) -> int
    decreases ms.len() - i,
{
    if i + 1 >= ms.len() {
        ms.last() as int
    } else if i <= 0 {
        0
    } else {
        spec_ms_to_run(
            ms[i] as int,
            ms[i + 1] as int,
            spec_run_value(ms, threshold, k, i + 1),
            threshold,
            k,
        )
    }
}

/// Every run value stays within `[-(n - 1 - i), k]`: the backward pass
/// starts from a statistic in `[0, k]` and each step either resets to a
/// value in `[0, k]` or decreases the following position's value by one.
pub proof fn lemma_run_value_bounds(ms: Seq<usize>, threshold: int, k: int, i: int)
    requires
        ms.len() >= 1,
        forall|j: int| 0 <= j < ms.len() ==> ms[j] <= k,
        0 <= i < ms.len(),
    ensures
        -(ms.len() - 1 - i) <= spec_run_value(ms, threshold, k, i) <= k,
    decreases ms.len() - i,
{
    assert(ms[0] <= k);
    if i + 1 >= ms.len() {
        assert(ms.last() <= k);
    } else if i > 0 {
        lemma_run_value_bounds(ms, threshold, k, i + 1);
        assert(ms[i] <= k);
    }
}

/// Exact executable counterpart of one backward-pass step.
fn ms_to_run(curr: usize, next: usize, next_run: i64, threshold: usize, k: usize) -> (run: i64)
    requires
        k <= i64::MAX,
        curr <= k,
        i64::MIN < next_run,
    ensures
        run == spec_ms_to_run(curr as int, next as int, next_run as int, threshold as int, k as int),
{
    if curr == k && next == k {
        k as i64
    } else if curr == k && next_run == 1 {
        k as i64
    } else if curr == k && next_run < 0 {
        k as i64
    } else if curr < threshold {
        next_run - 1
    } else if curr > threshold && next_run <= 0 {
        curr as i64
    } else if curr > threshold && next_run == 1 {
        curr as i64
    } else if curr > threshold && next_run < curr as i64 {
        curr as i64
    } else {
        next_run - 1
    }
}

/// Backward pass converting matching statistics into signed run values.
///
/// The result has the same length as `ms`; its last element equals the
/// last matching statistic, every other scanned position follows the
/// backward-step rule applied to its successor, and position `0`, which
/// the scan never reaches, is `0`.
pub fn derandomize_ms(ms: &Vec<usize>, params_in: &Option<TranslateParams>) -> (runs: Vec<i64>)
    requires
        params_in is Some,
        ms@.len() >= 2,
        ms@.len() <= i64::MAX,
        params_in->0.k <= i64::MAX,
        forall|j: int| 0 <= j < ms@.len() ==> ms@[j] <= params_in->0.k,
    ensures
        runs@.len() == ms@.len(),
        forall|i: int| 0 <= i < ms@.len()
            ==> runs@[i] == spec_run_value(ms@, params_in->0.threshold as int, params_in->0.k as int, i),
        forall|i: int| 0 <= i < ms@.len()
            ==> -(ms@.len() as int) < #[trigger] runs@[i] <= params_in->0.k,
{
    let params = (*params_in).unwrap();
    let len = ms.len();

    let mut runs: Vec<i64> = vec![0; len];

    proof {
        assert(forall|j: int| 0 <= j < len ==> runs@[j] == 0i64);
    }

    // Traverse the matching statistics in reverse
    runs[len - 1] = ms[len - 1] as i64;
    let mut i: usize = 2;
    while i < len
        invariant
            2 <= i <= len,
            len == ms@.len(),
            2 <= len <= i64::MAX,
            runs@.len() == len,
            params.k <= i64::MAX,
            forall|j: int| 0 <= j < len ==> ms@[j] <= params.k,
            runs@[0] == 0i64,
            forall|p: int| len - i < p < len
                ==> runs@[p] == spec_run_value(ms@, params.threshold as int, params.k as int, p),
        decreases len - i,
    {
        proof {
            lemma_run_value_bounds(ms@, params.threshold as int, params.k as int, len - i + 1);
        }
        runs[len - i] = ms_to_run(ms[len - i], ms[len - i + 1], runs[len - i + 1], params.threshold, params.k);
        i = i + 1;
    }
    proof {
        assert forall|p: int| 0 <= p < ms@.len() implies -(ms@.len() as int) < #[trigger] runs@[p]
            <= params.k by {
            lemma_run_value_bounds(ms@, params.threshold as int, params.k as int, p);
        }
    }
    runs
}

} // verus!
