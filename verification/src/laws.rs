//! Algebraic laws of the provenance-scoring operations.
//!
//! These proof functions state, once and publicly, what the contracts of
//! [`crate::colours`] add up to: the combination identity, how the
//! annihilator behaves under a merge, and how far the merge's zeroing rule
//! keeps the collapsed ordering independent of the order in which competing
//! paths are resolved.

use vstd::prelude::*;

use crate::colours::{combined, max_i, merged, order_cmp, order_value, Colours};

verus! {

/// Left and right identity of path combination: combining with `(0, 0)`
/// changes nothing.
pub proof fn lemma_combine_identity(x: Colours)
    ensures
        combined(Colours { c1: 0, c2: 0 }, x) == x,
        combined(x, Colours { c1: 0, c2: 0 }) == x,
{
}

/// Merging is commutative as an operation on raw tuples.
pub proof fn lemma_merge_commutative(a: Colours, b: Colours)
    ensures
        merged(a, b) == merged(b, a),
{
}

/// The annihilator never wins a merge. Against `(i32::MIN, i32::MIN)` the
/// other pair's channels are the per-channel maxima, so the result is the
/// other pair itself when its channels tie, and otherwise the other pair
/// with its losing channel zeroed. On the collapsed ordering the result is
/// never below the other pair, and is ordering-equal to it whenever the
/// other pair's channels tie or its dominant channel is nonnegative. (With
/// an all-negative, non-tied pair such as `(-5, -3)`, zeroing lifts the
/// collapsed value to `0`, so ordering-equality cannot hold there.)
pub proof fn lemma_annihilator_merge(x: Colours)
    ensures
        merged(Colours { c1: i32::MIN, c2: i32::MIN }, x) == (if x.c1 > x.c2 {
            Colours { c1: x.c1, c2: 0 }
        } else if x.c2 > x.c1 {
            Colours { c1: 0, c2: x.c2 }
        } else {
            x
        }),
        order_value(merged(Colours { c1: i32::MIN, c2: i32::MIN }, x)) >= order_value(x),
        x.c1 == x.c2 || order_value(x) >= 0 ==> order_cmp(
            merged(Colours { c1: i32::MIN, c2: i32::MIN }, x),
            x,
        ) == core::cmp::Ordering::Equal,
{
}

/// What a merge does on the collapsed ordering axis: the result's value is
/// the larger of the two arguments' values whenever that is nonnegative or
/// the per-channel maxima tie; zeroing can only ever lift it, to `0`.
pub proof fn lemma_merge_order_value(a: Colours, b: Colours)
    ensures
        order_value(merged(a, b)) >= max_i(order_value(a), order_value(b)),
        max_i(order_value(a), order_value(b)) >= 0 ==> order_value(merged(a, b)) == max_i(
            order_value(a),
            order_value(b),
        ),
{
}

/// The merge of a whole sequence of competing path values, folded from the
/// annihilator exactly as a dynamic-programming cell accumulates them.
pub open spec fn merge_fold(s: Seq<Colours>) -> Colours
    decreases s.len(),
{
    if s.len() == 0 {
        Colours { c1: i32::MIN, c2: i32::MIN }
    } else {
        merged(merge_fold(s.drop_last()), s.last())
    }
}

/// The largest collapsed ordering value among the pairs of `s`, starting
/// from the annihilator's value.
pub open spec fn seq_max_order(s: Seq<Colours>) -> int
    decreases s.len(),
{
    if s.len() == 0 {
        i32::MIN as int
    } else {
        max_i(seq_max_order(s.drop_last()), order_value(s.last()))
    }
}

/// No element of `s` lies above `seq_max_order(s)`.
proof fn lemma_seq_max_order_ge(s: Seq<Colours>, i: int)
    requires
        0 <= i < s.len(),
    ensures
        seq_max_order(s) >= order_value(s[i]),
    decreases s.len(),
{
    if i < s.len() - 1 {
        lemma_seq_max_order_ge(s.drop_last(), i);
    }
}

/// Some element of `s` attains `seq_max_order(s)`.
proof fn lemma_seq_max_order_attained(s: Seq<Colours>)
    requires
        s.len() > 0,
    ensures
        exists|i: int| 0 <= i < s.len() && order_value(s[i]) == seq_max_order(s),
    decreases s.len(),
{
    if s.len() == 1 {
        assert(seq_max_order(s.drop_last()) == i32::MIN as int);
        assert(order_value(s[0]) == seq_max_order(s));
    } else if seq_max_order(s) == order_value(s.last()) {
        assert(order_value(s[s.len() - 1]) == seq_max_order(s));
    } else {
        lemma_seq_max_order_attained(s.drop_last());
        let j = choose|j: int|
            0 <= j < s.drop_last().len() && order_value(s.drop_last()[j]) == seq_max_order(
                s.drop_last(),
            );
        assert(order_value(s[j]) == seq_max_order(s));
    }
}

/// Folding a sequence of pairs with nonnegative collapsed values reaches
/// exactly the largest of those values.
proof fn lemma_fold_order_value(s: Seq<Colours>)
    requires
        s.len() > 0,
        forall|i: int| 0 <= i < s.len() ==> order_value(#[trigger] s[i]) >= 0,
    ensures
        order_value(merge_fold(s)) == seq_max_order(s),
    decreases s.len(),
{
    if s.len() == 1 {
        assert(merge_fold(s.drop_last()) == (Colours { c1: i32::MIN, c2: i32::MIN }));
        assert(seq_max_order(s.drop_last()) == i32::MIN as int);
        assert(order_value(s[0]) >= 0);
        lemma_annihilator_merge(s[0]);
    } else {
        let d = s.drop_last();
        assert(forall|i: int| 0 <= i < d.len() ==> order_value(#[trigger] d[i]) >= 0);
        lemma_fold_order_value(d);
        assert(order_value(s[s.len() - 1]) >= 0);
        lemma_merge_order_value(merge_fold(d), s.last());
    }
}

/// Order-independence of repeated merging, on the collapsed ordering axis:
/// two arrangements of one and the same collection of path values, all with
/// nonnegative collapsed values, fold to ordering-equal results whatever
/// the order in which the paths were resolved. (Restricted to nonnegative
/// collapsed values: folding `(-1, -1)` before `(-5, -3)` reaches the
/// collapsed value `-1`, the other order reaches `0`, so the law cannot
/// hold of such pairs.)
pub proof fn lemma_merge_order_independent(s1: Seq<Colours>, s2: Seq<Colours>)
    requires
        s1.len() > 0,
        forall|i: int| 0 <= i < s1.len() ==> order_value(#[trigger] s1[i]) >= 0,
        s1.to_multiset() == s2.to_multiset(),
    ensures
        order_cmp(merge_fold(s1), merge_fold(s2)) == core::cmp::Ordering::Equal,
{
    s1.to_multiset_ensures();
    s2.to_multiset_ensures();
    assert(s2.len() == s1.len());
    assert forall|i: int| 0 <= i < s2.len() implies order_value(#[trigger] s2[i]) >= 0 by {
        assert(s2.contains(s2[i]));
        assert(s2.to_multiset().count(s2[i]) > 0);
        assert(s1.contains(s2[i]));
        let j = choose|j: int| 0 <= j < s1.len() && s1[j] == s2[i];
        assert(order_value(s1[j]) >= 0);
    }
    lemma_fold_order_value(s1);
    lemma_fold_order_value(s2);
    lemma_seq_max_order_eq(s1, s2);
}

/// Sequences holding the same pairs, in whatever order, share their largest
/// collapsed value.
proof fn lemma_seq_max_order_eq(s1: Seq<Colours>, s2: Seq<Colours>)
    requires
        s1.len() > 0,
        s2.len() > 0,
        s1.to_multiset() == s2.to_multiset(),
    ensures
        seq_max_order(s1) == seq_max_order(s2),
{
    s1.to_multiset_ensures();
    s2.to_multiset_ensures();
    lemma_seq_max_order_attained(s1);
    let i = choose|i: int| 0 <= i < s1.len() && order_value(s1[i]) == seq_max_order(s1);
    assert(s1.contains(s1[i]));
    assert(s1.to_multiset().count(s1[i]) > 0);
    assert(s2.to_multiset().count(s1[i]) > 0);
    assert(s2.contains(s1[i]));
    let j = choose|j: int| 0 <= j < s2.len() && s2[j] == s1[i];
    lemma_seq_max_order_ge(s2, j);
    lemma_seq_max_order_attained(s2);
    let k = choose|k: int| 0 <= k < s2.len() && order_value(s2[k]) == seq_max_order(s2);
    assert(s2.contains(s2[k]));
    assert(s2.to_multiset().count(s2[k]) > 0);
    assert(s1.to_multiset().count(s2[k]) > 0);
    assert(s1.contains(s2[k]));
    let l = choose|l: int| 0 <= l < s1.len() && s1[l] == s2[k];
    lemma_seq_max_order_ge(s1, l);
}

} // verus!
