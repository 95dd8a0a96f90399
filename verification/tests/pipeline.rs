//! Scenario tests for the whole pipeline and for each decoding rule.

use sablast::compress::run_lengths;
use sablast::derandomize::{derandomize_ms, TranslateParams};
use sablast::threshold::random_match_threshold;
use sablast::translate::{translate_runs, AlignmentSymbol};

use AlignmentSymbol::{Gap, Insertion, Match, RandomBoundary, Undetermined};

#[test]
fn threshold_stays_within_bounds() {
    // Whatever the exceedance outcomes, the threshold lies in [1, k].
    let cases: Vec<Vec<bool>> = vec![
        vec![],
        vec![false],
        vec![true],
        vec![false, false, false],
        vec![false, true, false],
        vec![false, false, true],
        vec![true, true, true],
    ];
    for exceeds in cases {
        let k = exceeds.len() + 1;
        let t = random_match_threshold(k, &exceeds);
        assert!(1 <= t && t <= k);
    }
}

#[test]
fn threshold_picks_first_exceeding_candidate() {
    assert_eq!(random_match_threshold(5, &vec![false, true, true, false]), 2);
    assert_eq!(random_match_threshold(5, &vec![false, false, false, false]), 5);
    assert_eq!(random_match_threshold(5, &vec![false, false, false, true]), 4);
    assert_eq!(random_match_threshold(1, &vec![]), 1);
}

#[test]
fn derandomize_preserves_length() {
    let params = Some(TranslateParams { k: 31, threshold: 22 });
    for n in [2usize, 5, 17, 100] {
        let ms: Vec<usize> = (0..n).map(|i| (i * 7) % 32).collect();
        assert_eq!(derandomize_ms(&ms, &params).len(), n);
    }
}

#[test]
fn derandomize_shortest_input() {
    // With two positions, only the last is scanned; the first keeps its
    // initial value.
    let params = Some(TranslateParams { k: 31, threshold: 22 });
    assert_eq!(derandomize_ms(&vec![5, 9], &params), vec![0, 9]);
}

#[test]
fn translate_marks_full_length_plateau() {
    let params = Some(TranslateParams { k: 31, threshold: 22 });
    let ms: Vec<usize> = vec![31; 8];
    let runs = derandomize_ms(&ms, &params);
    assert_eq!(runs, vec![0, 31, 31, 31, 31, 31, 31, 31]);
    let aln = translate_runs(&ms, &runs, &params);
    let expected = vec![
        Undetermined,
        Undetermined,
        Undetermined,
        Match,
        Match,
        Match,
        Match,
        Undetermined,
    ];
    assert_eq!(aln, expected);
}

#[test]
fn translate_boundary_and_retroactive_rules() {
    let params = Some(TranslateParams { k: 31, threshold: 22 });
    // A confident run degrading into a sub-threshold one marks a boundary
    // at the pivot and after it; the later rules overwrite the second mark
    // with a match, and the retroactive rule upgrades an already-visited
    // position.
    let ms: Vec<usize> = vec![0, 0, 0, 0, 0, 0, 5, 0];
    let runs: Vec<i64> = vec![0, 0, 0, 23, 10, 11, 0, 1];
    let aln = translate_runs(&ms, &runs, &params);
    let expected = vec![
        Undetermined,
        Undetermined,
        Undetermined,
        RandomBoundary,
        Match,
        Match,
        Undetermined,
        Undetermined,
    ];
    assert_eq!(aln, expected);
}

#[test]
fn translate_fills_short_gap_as_insertion() {
    let params = Some(TranslateParams { k: 31, threshold: 22 });
    // Three negative run values before the cursor measure a gap of three,
    // short enough to be written as insertions.
    let ms: Vec<usize> = vec![0, 0, 0, 0, 7, 0, 0, 0, 0, 0];
    let runs: Vec<i64> = vec![0, -3, -2, -1, 0, 1, 2, 3, 31, 31];
    let aln = translate_runs(&ms, &runs, &params);
    let expected = vec![
        Undetermined,
        Undetermined,
        Undetermined,
        Undetermined,
        Insertion,
        Insertion,
        Insertion,
        Undetermined,
        Match,
        Undetermined,
    ];
    assert_eq!(aln, expected);
}

#[test]
fn translate_fills_long_gap_as_gap() {
    let params = Some(TranslateParams { k: 31, threshold: 22 });
    // Thirty-one negative run values before the cursor: longer than the
    // insertion cutoff, so the span is written as a gap.
    let n = 40usize;
    let mut runs: Vec<i64> = vec![0; n];
    for p in 1..33 {
        runs[p] = p as i64 - 32;
    }
    // runs[32] == 0, make the two after it close a gap: curr 0, next 1.
    runs[33] = 1;
    runs[34] = 2;
    let ms: Vec<usize> = vec![9; n];
    let aln = translate_runs(&ms, &runs, &params);
    assert_eq!(aln.len(), n);
    // The cursor reaches the gap-closing position at 32, measures 31
    // negative run values behind it, and fills forward to the end.
    assert!(aln[..32].iter().all(|s| *s == Undetermined));
    assert!(aln[32..].iter().all(|s| *s == Gap));
}

#[test]
fn run_lengths_mixed_symbols() {
    let aln = vec![Undetermined, Match, Insertion, Match, Gap, RandomBoundary];
    let got = run_lengths(&aln);
    assert_eq!(got, vec![(2, 4, 2, 1), (6, 6, 1, 0)]);
}

#[test]
fn run_lengths_empty_and_excluded_only() {
    assert_eq!(run_lengths(&vec![]), vec![]);
    assert_eq!(run_lengths(&vec![Gap, Undetermined, Gap]), vec![]);
}

#[test]
fn full_query_in_reference_gives_one_clean_run() {
    // Matching statistics of a query fully contained in the reference:
    // they rise to k and stay there. The pipeline reports a single run
    // spanning nearly the whole query with no mismatches.
    let params = Some(TranslateParams { k: 31, threshold: 22 });
    let mut ms: Vec<usize> = (1..=31).collect();
    ms.extend(std::iter::repeat(31).take(9));
    let runs = derandomize_ms(&ms, &params);
    let aln = translate_runs(&ms, &runs, &params);
    let records = run_lengths(&aln);
    assert_eq!(records, vec![(4, 39, 36, 0)]);
}

#[test]
fn query_sharing_nothing_gives_no_runs() {
    // A query with no k-mers in common with the reference: statistics all
    // zero, every position undetermined, no alignment runs.
    let params = Some(TranslateParams { k: 31, threshold: 22 });
    let ms: Vec<usize> = vec![0; 40];
    let runs = derandomize_ms(&ms, &params);
    let aln = translate_runs(&ms, &runs, &params);
    assert!(aln.iter().all(|s| *s == Undetermined));
    assert_eq!(run_lengths(&aln), vec![]);
}
