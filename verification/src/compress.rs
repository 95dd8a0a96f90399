//! Compressing alignment symbols into run-length records.
//!
//! A single left-to-right scan groups the maximal contiguous spans of
//! aligned positions — those whose symbol is neither a gap nor
//! undetermined — into records `(start, end, matches, mismatches)` with
//! 1-based inclusive coordinates. The records come out in scan order, so
//! they are sorted by start and pairwise disjoint, and together they
//! cover every aligned position.

use vstd::prelude::*;

verus! {

use crate::translate::AlignmentSymbol;

/// Whether a position with this symbol belongs to an alignment run.
/// Gaps and undetermined positions separate runs and belong to none.
pub open spec fn spec_in_run(s: AlignmentSymbol) -> bool {
    s != AlignmentSymbol::Gap && s != AlignmentSymbol::Undetermined
}

/// Whether this symbol counts as a match inside a run; every other
/// symbol inside a run counts as a mismatch.
pub open spec fn spec_is_match(s: AlignmentSymbol) -> bool {
    s == AlignmentSymbol::Match || s == AlignmentSymbol::RandomBoundary
}

/// Number of match symbols in `aln[lo..hi]`.
pub open spec fn spec_match_count(aln: Seq<AlignmentSymbol>, lo: int, hi: int) -> int
    decreases hi - lo,
{
    if lo >= hi {
        0
    } else {
        spec_match_count(aln, lo, hi - 1) + if spec_is_match(aln[hi - 1]) {
            1int
        } else {
            0int
        }
    }
}

/// Whether the record `rec = (start, end, matches, mismatches)`
/// describes, in 1-based inclusive coordinates, a maximal contiguous
/// span of aligned positions of `aln` with its exact match and mismatch
/// tallies.
pub open spec fn spec_is_maximal_run(
    aln: Seq<AlignmentSymbol>,
    rec: (usize, usize, usize, usize),
) -> bool {
    let start = rec.0 as int;
    let end = rec.1 as int;
    &&& 1 <= start <= end <= aln.len()
    &&& forall|p: int| start - 1 <= p < end ==> spec_in_run(#[trigger] aln[p])
    &&& (start == 1 || !spec_in_run(aln[start - 2]))
    &&& (end == aln.len() || !spec_in_run(aln[end]))
    &&& rec.2 == spec_match_count(aln, start - 1, end)
    &&& rec.2 + rec.3 == end - start + 1
}

/// Scan the alignment symbols into run-length records.
///
/// Each record is a maximal contiguous span of aligned positions with its
/// exact match and mismatch counts; the records are sorted by start,
/// pairwise disjoint, and cover every aligned position.
#[verifier::rlimit(50)]
pub fn run_lengths(aln: &Vec<AlignmentSymbol>) -> (encodings: Vec<(usize, usize, usize, usize)>)
    ensures
        forall|r: int| 0 <= r < encodings@.len()
            ==> spec_is_maximal_run(aln@, #[trigger] encodings@[r]),
        forall|r: int|
            #![trigger encodings@[r]]
            0 <= r < encodings@.len() - 1 ==> encodings@[r].1 < encodings@[r + 1].0,
        forall|p: int| 0 <= p < aln@.len() && spec_in_run(#[trigger] aln@[p])
            ==> exists|r: int|
                #![trigger encodings@[r]]
                0 <= r < encodings@.len() && encodings@[r].0 - 1 <= p < encodings@[r].1,
{
    // Store run lengths as Vec<(start, end, matches, mismatches)>
    let mut encodings: Vec<(usize, usize, usize, usize)> = Vec::new();
    let len = aln.len();

    let mut i: usize = 0;
    let mut match_start: bool = false;
    while i < len
        invariant
            i <= len,
            len == aln@.len(),
            !match_start,
            forall|r: int| 0 <= r < encodings@.len()
                ==> spec_is_maximal_run(aln@, #[trigger] encodings@[r]),
            forall|r: int| 0 <= r < encodings@.len() ==> (#[trigger] encodings@[r]).1 <= i,
            forall|r: int|
                #![trigger encodings@[r]]
                0 <= r < encodings@.len() - 1 ==> encodings@[r].1 < encodings@[r + 1].0,
            forall|p: int| 0 <= p < i && spec_in_run(#[trigger] aln@[p])
                ==> exists|r: int|
                    #![trigger encodings@[r]]
                    0 <= r < encodings@.len() && encodings@[r].0 - 1 <= p < encodings@[r].1,
            i == 0 || i == len || !spec_in_run(aln@[i - 1]) || !spec_in_run(aln@[i as int]),
        decreases len - i,
    {
        match_start = (aln[i] != AlignmentSymbol::Gap && aln[i] != AlignmentSymbol::Undetermined)
            && !match_start;
        if match_start {
            let start = i;
            let mut matches: usize = 0;
            while i < len && (aln[i] != AlignmentSymbol::Gap && aln[i]
                != AlignmentSymbol::Undetermined)
                invariant
                    start <= i <= len,
                    start < len,
                    len == aln@.len(),
                    spec_in_run(aln@[start as int]),
                    forall|p: int| start <= p < i ==> spec_in_run(#[trigger] aln@[p]),
                    matches == spec_match_count(aln@, start as int, i as int),
                    matches <= i - start,
                decreases len - i,
            {
                if aln[i] == AlignmentSymbol::Match || aln[i] == AlignmentSymbol::RandomBoundary {
                    matches = matches + 1;
                }
                i = i + 1;
            }
            let ghost prior = encodings@;
            encodings.push((start + 1, i, matches, i - start - matches));
            proof {
                assert(encodings@ == prior.push(((start + 1) as usize, i, matches, (i - start - matches) as usize)));
                assert forall|p: int| 0 <= p < i && spec_in_run(#[trigger] aln@[p])
                    implies exists|r: int|
                    #![trigger encodings@[r]]
                    0 <= r < encodings@.len() && encodings@[r].0 - 1 <= p < encodings@[r].1 by {
                    if p < start {
                        let r0 = choose|r: int|
                            #![trigger prior[r]]
                            0 <= r < prior.len() && prior[r].0 - 1 <= p < prior[r].1;
                        assert(encodings@[r0] == prior[r0]);
                        assert(0 <= r0 < encodings@.len() && encodings@[r0].0 - 1 <= p
                            < encodings@[r0].1);
                    } else {
                        let r1 = encodings@.len() - 1;
                        assert(encodings@[r1].0 - 1 <= p < encodings@[r1].1);
                    }
                }
            }
            match_start = false;
        } else {
            i = i + 1;
        }
    }
    encodings
}

} // verus!
