//! Decoding run values into alignment symbols.
//!
//! A forward pass over positions `3..n - 1` classifies each query
//! position from the run values around it. The pass mutates positions
//! other than the current one — a boundary marks the following position,
//! a retroactive upgrade rewrites the preceding one, and a detected gap
//! fills a whole span and advances the cursor past it — so it runs as an
//! explicit cursor over a mutable output buffer. Positions never reached
//! by the cursor stay undetermined.

use vstd::prelude::*;

verus! {

use crate::derandomize::TranslateParams;

/// Per-position classification of the query against the reference.
#[derive(Clone, Copy, Debug, PartialEq, Eq, Structural)]
pub enum AlignmentSymbol {
    /// Position confidently inside a real match run.
    Match,
    /// Pivot where a confident run degrades into a sub-threshold one; a
    /// likely substitution.
    RandomBoundary,
    /// Position inside a short non-matching span.
    Insertion,
    /// Position inside a long non-matching span.
    Gap,
    /// Position the decoder could not classify.
    Undetermined,
}

/// How many consecutive positions directly before `pos` carry a negative
/// run value; the scan never looks below position `1`.
pub open spec fn spec_gap_scan_len(runs: Seq<i64>, pos: int) -> nat
    decreases pos,
{
    if pos > 1 && 0 <= pos - 1 < runs.len() && runs[pos - 1] < 0 {
        1 + spec_gap_scan_len(runs, pos - 1)
    } else {
        0
    }
}

/// `res` with the `count` positions from `start` on replaced by `sym`;
/// positions past the end of `res` are dropped.
pub open spec fn spec_fill(
    res: Seq<AlignmentSymbol>,
    start: int,
    count: int,
    sym: AlignmentSymbol,
) -> Seq<AlignmentSymbol> {
    Seq::new(res.len(), |j: int| if start <= j < start + count { sym } else { res[j] })
}

/// One decoding step at cursor position `pos`: the symbols after the step
/// and the next cursor position. The first matching rule applies, reading
/// the run values around the cursor and the matching statistic `curr_ms`
/// at it. A suspected gap is measured by scanning backward over negative
/// run values, filled forward from the cursor — as a gap when longer than
/// `29`, else as an insertion — and skipped.
pub open spec fn spec_decode_step(
    runs: Seq<i64>,
    curr_ms: int,
    threshold: int,
    k: int,
    res: Seq<AlignmentSymbol>,
    pos: int,
) -> (Seq<AlignmentSymbol>, int) {
    let prev = runs[pos - 1] as int;
    let curr = runs[pos] as int;
    let next = runs[pos + 1] as int;
    if curr == k && next == k {
        (res.update(pos, AlignmentSymbol::Match), pos + 1)
    } else if curr > threshold && 0 < next < threshold {
        (
            res.update(pos, AlignmentSymbol::RandomBoundary).update(
                pos + 1,
                AlignmentSymbol::RandomBoundary,
            ),
            pos + 1,
        )
    } else if next == 1 && curr == curr_ms {
        (res.update(pos, AlignmentSymbol::Match), pos + 1)
    } else if curr > threshold {
        (res.update(pos, AlignmentSymbol::Match), pos + 1)
    } else if curr == next - 1 && curr > 0 {
        (res.update(pos, AlignmentSymbol::Match), pos + 1)
    } else if curr == 0 && next == 1 && prev > 0 {
        (res.update(pos, AlignmentSymbol::Undetermined).update(pos - 1, AlignmentSymbol::Match), pos + 1)
    } else if curr == 0 && next == 1 && prev == -1 {
        let gap_len = spec_gap_scan_len(runs, pos) as int;
        let sym = if gap_len > 29 {
            AlignmentSymbol::Gap
        } else {
            AlignmentSymbol::Insertion
        };
        let fill_end = if pos + gap_len >= runs.len() {
            runs.len() as int
        } else {
            pos + gap_len
        };
        (spec_fill(res, pos, gap_len, sym), fill_end)
    } else {
        (res.update(pos, AlignmentSymbol::Undetermined), pos + 1)
    }
}

/// The symbols produced by running the decoding cursor from `pos` until
/// it passes position `runs.len() - 2`, starting from the symbols `res`.
pub open spec fn spec_decode_from(
    ms: Seq<usize>,
    runs: Seq<i64>,
    threshold: int,
    k: int,
    res: Seq<AlignmentSymbol>,
    pos: int,
) -> Seq<AlignmentSymbol>
    decreases runs.len() - pos,
{
    if pos < 3 || pos + 1 >= runs.len() || pos >= ms.len() {
        res
    } else {
        let step = spec_decode_step(runs, ms[pos] as int, threshold, k, res, pos);
        spec_decode_from(ms, runs, threshold, k, step.0, step.1)
    }
}

/// A sequence of `n` undetermined symbols: the decoder's initial output.
pub open spec fn spec_blank(n: nat) -> Seq<AlignmentSymbol> {
    Seq::new(n, |j: int| AlignmentSymbol::Undetermined)
}

/// The cursor never writes more than one position behind itself, so
/// every position before `pos - 1` keeps its prior classification.
/// Started at position `3`, the decoder leaves the first two positions
/// untouched.
pub proof fn lemma_decode_preserves_prefix(
    ms: Seq<usize>,
    runs: Seq<i64>,
    threshold: int,
    k: int,
    res: Seq<AlignmentSymbol>,
    pos: int,
    j: int,
)
    requires
        res.len() == runs.len(),
        0 <= j < res.len(),
        j < pos - 1,
    ensures
        spec_decode_from(ms, runs, threshold, k, res, pos).len() == res.len(),
        spec_decode_from(ms, runs, threshold, k, res, pos)[j] == res[j],
    decreases runs.len() - pos,
{
    if pos < 3 || pos + 1 >= runs.len() || pos >= ms.len() {
    } else {
        let step = spec_decode_step(runs, ms[pos] as int, threshold, k, res, pos);
        assert(step.0.len() == res.len());
        assert(step.0[j] == res[j]);
        lemma_decode_preserves_prefix(ms, runs, threshold, k, step.0, step.1, j);
    }
}

/// Exact executable counterpart of one decoding step: classifies the
/// position at the cursor (and, for some rules, its neighbours), then
/// advances the cursor.
fn run_to_aln(
    runs: &Vec<i64>,
    curr_ms: usize,
    threshold: usize,
    k: usize,
    res: &mut Vec<AlignmentSymbol>,
    pos: &mut usize,
)
    requires
        old(res)@.len() == runs@.len(),
        3 <= *old(pos),
        *old(pos) + 1 < runs@.len(),
        k <= i64::MAX,
        curr_ms <= i64::MAX,
        threshold <= i64::MAX,
    ensures
        final(res)@ == spec_decode_step(
            runs@,
            curr_ms as int,
            threshold as int,
            k as int,
            old(res)@,
            *old(pos) as int,
        ).0,
        *final(pos) as int == spec_decode_step(
            runs@,
            curr_ms as int,
            threshold as int,
            k as int,
            old(res)@,
            *old(pos) as int,
        ).1,
        *old(pos) < *final(pos) <= runs@.len(),
{
    let i = *pos;
    let n = runs.len();
    let prev = runs[i - 1];
    let curr = runs[i];
    let next = runs[i + 1];
    let ki = k as i64;
    let ti = threshold as i64;

    if curr == ki && next == ki {
        res[i] = AlignmentSymbol::Match;
        *pos = i + 1;
    } else if curr > ti && next > 0 && next < ti {
        res[i] = AlignmentSymbol::RandomBoundary;
        res[i + 1] = AlignmentSymbol::RandomBoundary;
        *pos = i + 1;
    } else if next == 1 && curr == curr_ms as i64 {
        res[i] = AlignmentSymbol::Match;
        *pos = i + 1;
    } else if curr > ti {
        res[i] = AlignmentSymbol::Match;
        *pos = i + 1;
    } else if next > i64::MIN && curr == next - 1 && curr > 0 {
        res[i] = AlignmentSymbol::Match;
        *pos = i + 1;
    } else if curr == 0 && next == 1 && prev > 0 {
        res[i] = AlignmentSymbol::Undetermined;
        res[i - 1] = AlignmentSymbol::Match;
        *pos = i + 1;
    } else if curr == 0 && next == 1 && prev == -1 {
        // Measure the suspected gap by scanning backward over negative
        // run values, never below position 1.
        let mut next_gap: usize = i;
        let mut gap_len: usize = 0;
        while next_gap > 1 && runs[next_gap - 1] < 0
            invariant
                1 <= next_gap <= i,
                gap_len == i - next_gap,
                i + 1 < runs@.len(),
                spec_gap_scan_len(runs@, i as int) == gap_len + spec_gap_scan_len(
                    runs@,
                    next_gap as int,
                ),
            decreases next_gap,
        {
            gap_len = gap_len + 1;
            next_gap = next_gap - 1;
        }
        assert(spec_gap_scan_len(runs@, i as int) == gap_len);
        let sym = if gap_len > 29 {
            AlignmentSymbol::Gap
        } else {
            AlignmentSymbol::Insertion
        };
        let fill_end = if gap_len >= n - i {
            n
        } else {
            i + gap_len
        };
        let mut j = i;
        while j < fill_end
            invariant
                i <= j <= fill_end <= n,
                res@.len() == n,
                forall|p: int| i <= p < j ==> res@[p] == sym,
                forall|p: int| 0 <= p < n && !(i <= p < j) ==> res@[p] == old(res)@[p],
            decreases fill_end - j,
        {
            res[j] = sym;
            j = j + 1;
        }
        assert(res@ =~= spec_fill(old(res)@, i as int, gap_len as int, sym));
        *pos = fill_end;
    } else {
        res[i] = AlignmentSymbol::Undetermined;
        *pos = i + 1;
    }
}

/// Forward pass decoding the run values (and the matching statistics they
/// came from) into one alignment symbol per query position.
///
/// The result has the same length as the inputs and equals the decoding
/// cursor's output when started at position `3` over a fully undetermined
/// buffer; the first positions and the last one, which the cursor never
/// visits, stay undetermined unless a retroactive rule rewrites them.
pub fn translate_runs(
    ms: &Vec<usize>,
    runs: &Vec<i64>,
    params_in: &Option<TranslateParams>,
) -> (aln: Vec<AlignmentSymbol>)
    requires
        params_in is Some,
        ms@.len() == runs@.len(),
        runs@.len() >= 5,
        params_in->0.k <= i64::MAX,
        params_in->0.threshold <= params_in->0.k,
        forall|j: int| 0 <= j < ms@.len() ==> ms@[j] <= params_in->0.k,
    ensures
        aln@.len() == ms@.len(),
        aln@ == spec_decode_from(
            ms@,
            runs@,
            params_in->0.threshold as int,
            params_in->0.k as int,
            spec_blank(runs@.len()),
            3,
        ),
        aln@[0] == AlignmentSymbol::Undetermined,
        aln@[1] == AlignmentSymbol::Undetermined,
{
    let params = (*params_in).unwrap();
    let len = runs.len();

    let mut aln: Vec<AlignmentSymbol> = Vec::new();
    while aln.len() < len
        invariant
            aln@.len() <= len,
            forall|p: int| 0 <= p < aln@.len() ==> aln@[p] == AlignmentSymbol::Undetermined,
        decreases len - aln.len(),
    {
        aln.push(AlignmentSymbol::Undetermined);
    }
    proof {
        assert(aln@ =~= spec_blank(len as nat));
    }

    // Traverse the runs
    let mut i: usize = 3;
    while i < len - 1
        invariant
            3 <= i <= len,
            len == runs@.len(),
            ms@.len() == len,
            len >= 5,
            aln@.len() == len,
            params.k <= i64::MAX,
            params.threshold <= params.k,
            forall|j: int| 0 <= j < len ==> ms@[j] <= params.k,
            spec_decode_from(
                ms@,
                runs@,
                params.threshold as int,
                params.k as int,
                aln@,
                i as int,
            ) == spec_decode_from(
                ms@,
                runs@,
                params.threshold as int,
                params.k as int,
                spec_blank(len as nat),
                3,
            ),
        decreases len - i,
    {
        run_to_aln(runs, ms[i], params.threshold, params.k, &mut aln, &mut i);
    }
    proof {
        lemma_decode_preserves_prefix(
            ms@,
            runs@,
            params.threshold as int,
            params.k as int,
            spec_blank(len as nat),
            3,
            0,
        );
        lemma_decode_preserves_prefix(
            ms@,
            runs@,
            params.threshold as int,
            params.k as int,
            spec_blank(len as nat),
            3,
            1,
        );
    }
    aln
}

} // verus!
