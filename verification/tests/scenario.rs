use std::cmp::Ordering;

use colour_poa::colours::{ColourMatchParams, Colours, Label};

fn pair(c1: i32, c2: i32) -> Colours {
    Colours { c1, c2 }
}

/// Fold a collection of competing path values the way a dynamic-programming
/// cell does: start from the annihilator and merge each arriving path in.
fn merge_all(paths: &[Colours]) -> Colours {
    let mut acc = Colours::zero();
    for p in paths {
        acc = acc.add(*p);
    }
    acc
}

/// Three sequences — seeded `(1,0)`, `(0,1)` and `(0,0)` — aligned with
/// match reward `(1,1)`, mismatch penalty `(-12,-12)` and gap penalty
/// `(-3,-3)`. A position supported identically by the first two sequences
/// ties on both channels and classifies as both groups; a position only the
/// first sequence supports keeps channel 1 and classifies as group 1 alone.
#[test]
fn three_sequences_end_to_end() {
    let params = ColourMatchParams::from_penalty(12);
    let gap = pair(-3, -3);
    let seed1 = pair(1, 0);
    let seed2 = pair(0, 1);
    let seed3 = pair(0, 0);

    // A shared position: each sequence's path carries its seed plus two
    // matching positions, so the first two paths tie at (3, 2) vs (2, 3).
    let matched = params.score(b'A', b'A');
    let path1 = seed1.mul(matched).mul(matched);
    let path2 = seed2.mul(matched).mul(matched);
    let path3 = seed3.mul(matched).mul(matched);
    assert_eq!(path1, pair(3, 2));
    assert_eq!(path2, pair(2, 3));
    assert_eq!(path3, pair(2, 2));
    let shared = merge_all(&[path1, path2, path3]);
    assert_eq!(shared, pair(3, 3));
    assert_eq!(shared.classify(), Label::BothGroups);

    // A position reached only by the first sequence, the others gapped away.
    let only1 = merge_all(&[path1, seed2.mul(gap), seed3.mul(gap)]);
    assert_eq!(only1, pair(3, 0));
    assert_eq!(only1.classify(), Label::GroupOnly1);
}

/// Mismatching symbols charge both channels and push a position to black.
#[test]
fn mismatch_positions_classify_neither() {
    let params = ColourMatchParams::from_penalty(12);
    let mismatched = params.score(b'A', b'C');
    let path1 = pair(1, 0).mul(mismatched);
    assert_eq!(path1, pair(-11, -12));
    assert_eq!(path1.classify(), Label::Neither);
    let path2 = pair(0, 1).mul(mismatched);
    // Merging the two all-negative paths zeroes each losing channel in
    // turn, so the position settles at (0, 0): still no support.
    let merged = merge_all(&[path1, path2]);
    assert_eq!(merged, pair(0, 0));
    assert_eq!(merged.classify(), Label::Neither);
}

/// Merging one and the same collection of nonnegative-maximum path values
/// in many different orders always lands in the same ordering class.
#[test]
fn merge_order_keeps_the_ordering_class() {
    let values = [
        pair(5, 0),
        pair(0, 5),
        pair(3, 3),
        pair(2, 7),
        pair(7, 2),
        pair(0, 0),
        pair(4, -9),
        pair(-9, 4),
    ];
    let reference = merge_all(&values);

    // A fixed linear-congruential shuffle keeps the test deterministic.
    let mut order: Vec<usize> = (0..values.len()).collect();
    let mut state: u64 = 0x2545F4914F6CDD1D;
    for round in 0..50 {
        for i in (1..order.len()).rev() {
            state = state.wrapping_mul(6364136223846793005).wrapping_add(1442695040888963407);
            let j = (state >> 33) as usize % (i + 1);
            order.swap(i, j);
        }
        let shuffled: Vec<Colours> = order.iter().map(|&i| values[i]).collect();
        let result = merge_all(&shuffled);
        assert_eq!(
            result.cmp(&reference),
            Ordering::Equal,
            "round {round}: order {order:?} changed the ordering class"
        );
    }
}

/// Two runs over identical input produce identical raw pairs, label text
/// included: the fold is deterministic.
#[test]
fn repeated_runs_are_byte_identical() {
    let values = [pair(1, 0), pair(0, 1), pair(3, 3), pair(-2, 5)];
    let first = merge_all(&values);
    let second = merge_all(&values);
    assert_eq!(first, second);
    assert_eq!(first.label(), second.label());
    assert_eq!(first.render(), second.render());
}
