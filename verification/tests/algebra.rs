use std::cmp::Ordering;

use colour_poa::colours::Colours;

fn pair(c1: i32, c2: i32) -> Colours {
    Colours { c1, c2 }
}

#[test]
fn combine_left_and_right_identity() {
    let samples = [
        pair(0, 0),
        pair(3, -1),
        pair(-12, 7),
        pair(i32::MAX, i32::MIN),
        pair(1, 1),
    ];
    for x in samples {
        assert_eq!(Colours::one().mul(x), x);
        assert_eq!(x.mul(Colours::one()), x);
    }
}

#[test]
fn annihilator_never_wins_a_merge() {
    let dominant = [pair(3, 1), pair(0, 5), pair(7, 7), pair(2, 0)];
    for x in dominant {
        let m = Colours::zero().add(x);
        assert_eq!(m.cmp(&x), Ordering::Equal);
        let m = x.add(Colours::zero());
        assert_eq!(m.cmp(&x), Ordering::Equal);
    }
    // A strictly dominant channel keeps its value and zeroes the loser.
    assert_eq!(Colours::zero().add(pair(3, 1)), pair(3, 0));
    // A tie keeps the raw tuple unchanged.
    assert_eq!(Colours::zero().add(pair(7, 7)), pair(7, 7));
    assert_eq!(Colours::zero().add(pair(-4, -4)), pair(-4, -4));
}

#[test]
fn merge_zeroing_rule() {
    assert_eq!(pair(5, 5).add(pair(3, 7)), pair(0, 7));
    assert_eq!(pair(5, 2).add(pair(1, 1)), pair(5, 0));
    assert_eq!(pair(4, 4).add(pair(4, 4)), pair(4, 4));
}

#[test]
fn combine_additivity() {
    assert_eq!(pair(1, 1).mul(pair(1, 1)), pair(2, 2));
    assert_eq!(pair(-12, -12).mul(pair(1, 1)), pair(-11, -11));
}

#[test]
fn combine_saturates_at_the_bounds() {
    assert_eq!(pair(i32::MAX, 1).mul(pair(1, 1)), pair(i32::MAX, 2));
    assert_eq!(Colours::zero().mul(pair(-3, -3)), Colours::zero());
    assert_eq!(pair(i32::MIN, i32::MAX).mul(pair(-1, 1)), pair(i32::MIN, i32::MAX));
}

#[test]
fn ordering_collapses_but_equality_does_not() {
    let a = pair(5, 0);
    let b = pair(0, 5);
    assert_eq!(a.cmp(&b), Ordering::Equal);
    assert_eq!(a.partial_cmp(&b), Some(Ordering::Equal));
    assert!(a != b);
    assert!(a == pair(5, 0));
}

#[test]
fn ordering_compares_by_the_larger_channel() {
    assert_eq!(pair(5, 0).cmp(&pair(1, 4)), Ordering::Greater);
    assert_eq!(pair(-3, 2).cmp(&pair(6, 1)), Ordering::Less);
    assert_eq!(pair(-7, -2).cmp(&pair(-2, -9)), Ordering::Equal);
    assert!(pair(1, 2) < pair(3, 0));
    assert!(pair(3, 0) > pair(1, 2));
}

#[test]
fn identity_and_annihilator_values() {
    assert_eq!(Colours::one(), pair(0, 0));
    assert_eq!(Colours::zero(), pair(i32::MIN, i32::MIN));
}
