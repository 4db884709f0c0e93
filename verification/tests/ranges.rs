use std::ops::Range;

use tiered_io::ranges::merge_ranges;

#[test]
fn test_merge_ranges() {
    let fetches = merge_ranges(&[], 0, 0);
    assert!(fetches.is_empty());

    let fetches = merge_ranges(&[0..3], 0, 0);
    assert_eq!(fetches, vec![0..3]);

    let fetches = merge_ranges(&[0..2, 3..5], 0, 0);
    assert_eq!(fetches, vec![0..2, 3..5]);

    let fetches = merge_ranges(&[0..1, 1..2], 0, 1);
    assert_eq!(fetches, vec![0..2]);

    let fetches = merge_ranges(&[0..1, 2..72], 1, 4);
    assert_eq!(fetches, vec![0..72]);

    let fetches = merge_ranges(&[0..1, 56..72, 73..75], 1, 512);
    assert_eq!(fetches, vec![0..1, 56..75]);

    let fetches = merge_ranges(&[0..1, 56..72, 73..75], 1, 8);
    assert_eq!(fetches, vec![0..1, 56..72, 73..75]);

    let fetches = merge_ranges(&[0..1, 5..6, 7..9, 2..3, 4..6], 1, 10);
    assert_eq!(fetches, vec![0..9]);

    let fetches = merge_ranges(&[0..1, 5..6, 7..9, 2..3, 4..6], 1, 1);
    assert_eq!(fetches, vec![0..3, 4..6, 5..9]);

    let fetches = merge_ranges(&[0..1, 6..7, 8..9, 10..14, 9..10], 4, 10);
    assert_eq!(fetches, vec![0..1, 6..14]);

    let fetches = merge_ranges(&[1..3, 2..4, 3..5, 10..14], 0, 10);
    assert_eq!(fetches, vec![1..5, 10..14]);

    let fetches = merge_ranges(
        &[
            18781576..18867979,
            18868061..18953346,
            18953430..19038832,
            19038914..19124728,
            19124810..19210947,
            19211031..19297046,
            19297127..19383242,
            19383327..19470108,
            19470191..19556216,
            19556299..19642233,
            19642321..19642849,
            19642918..19644971,
            19645304..19676379,
            19676437..19676510,
        ],
        256,
        512 * 1024,
    );
    assert_eq!(
        fetches,
        vec![18781576..19383242, 19383327..19644971, 19645304..19676510]
    );
}

fn covered(ranges: &[Range<usize>], p: usize) -> bool {
    ranges.iter().any(|r| r.start <= p && p < r.end)
}

#[test]
fn test_merge_preserves_coverage() {
    let input = [3..5, 0..2, 9..12, 4..7];
    let merged = merge_ranges(&input, 2, 100);
    // every input byte is covered by the output
    for p in 0..16 {
        if covered(&input, p) {
            assert!(covered(&merged, p));
        }
    }
    // output is sorted by start
    for w in merged.windows(2) {
        assert!(w[0].start <= w[1].start);
    }
}

#[test]
fn test_merge_zero_gap_exact_coverage() {
    let input = [5..9, 0..3, 2..5, 12..13];
    let merged = merge_ranges(&input, 0, 100);
    for p in 0..20 {
        assert_eq!(covered(&input, p), covered(&merged, p));
    }
    assert_eq!(merged, vec![0..9, 12..13]);
}
