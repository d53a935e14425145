//! The provenance-scoring algebra: a two-channel integer score pair whose
//! operations let a partial-order alignment engine track, for every path
//! through the consensus graph, how strongly each of two labelled groups of
//! input sequences supports that path.
//!
//! Overflow policy: channel addition saturates at the bounds of `i32`, so
//! every operation is total and deterministic even on extreme penalties.

use vstd::prelude::*;

verus! {

/// A pair of per-group score accumulators. `c1` carries the support of
/// group 1, `c2` the support of group 2. Equality is full tuple equality;
/// the alignment ordering collapses a pair to `max(c1, c2)` and is a
/// deliberately coarser relation (see [`order_value`] and [`Colours::cmp`]).
#[derive(Copy, Clone, Debug, PartialEq, Eq, Structural)]
pub struct Colours {
    pub c1: i32,
    pub c2: i32,
}

/// The presentation category of an accumulated score pair: which groups,
/// judged by a strictly positive channel, support the position it decorates.
#[derive(Copy, Clone, Debug, PartialEq, Eq, Structural)]
pub enum Label {
    GroupOnly1,
    GroupOnly2,
    BothGroups,
    Neither,
}

/// The larger of two mathematical integers.
pub open spec fn max_i(a: int, b: int) -> int {
    if a >= b {
        a
    } else {
        b
    }
}

/// The single axis on which the alignment engine compares score pairs:
/// the larger of the two channels.
pub open spec fn order_value(p: Colours) -> int {
    max_i(p.c1 as int, p.c2 as int)
}

/// `v` clamped to the representable range of `i32`.
pub open spec fn sat32(v: int) -> int {
    if v > i32::MAX as int {
        i32::MAX as int
    } else if v < i32::MIN as int {
        i32::MIN as int
    } else {
        v
    }
}

/// Channel-wise saturating addition: the value accumulated when one
/// alignment path is extended by one more position.
pub open spec fn combined(a: Colours, b: Colours) -> Colours {
    Colours {
        c1: sat32(a.c1 as int + b.c1 as int) as i32,
        c2: sat32(a.c2 as int + b.c2 as int) as i32,
    }
}

/// The resolution of two competing paths converging on one graph node:
/// take each channel's maximum, then let the dominant channel win and zero
/// the loser; a tie keeps both maxima. This three-way branch, not a plain
/// per-channel maximum, is what the colour semantics rest on.
pub open spec fn merged(a: Colours, b: Colours) -> Colours {
    let m1 = max_i(a.c1 as int, b.c1 as int);
    let m2 = max_i(a.c2 as int, b.c2 as int);
    if m1 > m2 {
        Colours { c1: m1 as i32, c2: 0 }
    } else if m2 > m1 {
        Colours { c1: 0, c2: m2 as i32 }
    } else {
        Colours { c1: m1 as i32, c2: m2 as i32 }
    }
}

/// The ordering the alignment engine sees: pairs compare by [`order_value`]
/// alone, so tuples with equal maxima are ordering-equal even when they are
/// not equal as tuples.
pub open spec fn order_cmp(a: Colours, b: Colours) -> core::cmp::Ordering {
    if order_value(a) > order_value(b) {
        core::cmp::Ordering::Greater
    } else if order_value(b) > order_value(a) {
        core::cmp::Ordering::Less
    } else {
        core::cmp::Ordering::Equal
    }
}

/// The decision table of the colour classifier: a channel counts as present
/// exactly when it is strictly positive.
pub open spec fn classified(p: Colours) -> Label {
    if p.c1 > 0 && p.c2 > 0 {
        Label::BothGroups
    } else if p.c1 > 0 {
        Label::GroupOnly1
    } else if p.c2 > 0 {
        Label::GroupOnly2
    } else {
        Label::Neither
    }
}

/// Saturating addition on `i32`, the executable form of [`sat32`].
fn sat_add_i32(a: i32, b: i32) -> (r: i32)
    ensures
        r as int == sat32(a as int + b as int),
{
    let s: i64 = a as i64 + b as i64;
    if s > i32::MAX as i64 {
        i32::MAX
    } else if s < i32::MIN as i64 {
        i32::MIN
    } else {
        s as i32
    }
}

impl Colours {
    /// The additive identity `(0, 0)`: the neutral element of path
    /// combination, carried by an empty path.
    pub fn one() -> (r: Colours)
        ensures
            r == (Colours { c1: 0, c2: 0 }),
    {
        Colours { c1: 0, c2: 0 }
    }

    /// The annihilator `(i32::MIN, i32::MIN)`: the worst representable pair,
    /// used to initialise dynamic-programming cells so that any real score
    /// merges ahead of it.
    pub fn zero() -> (r: Colours)
        ensures
            r == (Colours { c1: i32::MIN, c2: i32::MIN }),
            order_value(r) == i32::MIN as int,
    {
        Colours { c1: i32::MIN, c2: i32::MIN }
    }

    /// Accumulate along a single path: both channels add independently,
    /// saturating at the bounds of `i32`.
    pub fn mul(self, rhs: Colours) -> (r: Colours)
        ensures
            r == combined(self, rhs),
    {
        Colours { c1: sat_add_i32(self.c1, rhs.c1), c2: sat_add_i32(self.c2, rhs.c2) }
    }

    /// Resolve two competing paths: dominant channel wins and the loser is
    /// zeroed, a tie keeps both channel maxima.
    pub fn add(self, rhs: Colours) -> (r: Colours)
        ensures
            r == merged(self, rhs),
    {
        let m1: i32 = if self.c1 >= rhs.c1 {
            self.c1
        } else {
            rhs.c1
        };
        let m2: i32 = if self.c2 >= rhs.c2 {
            self.c2
        } else {
            rhs.c2
        };
        if m1 > m2 {
            Colours { c1: m1, c2: 0 }
        } else if m2 > m1 {
            Colours { c1: 0, c2: m2 }
        } else {
            Colours { c1: m1, c2: m2 }
        }
    }

    /// Compare two pairs on the collapsed axis `max(c1, c2)`. Pairs with
    /// equal maxima are `Equal` here even when they differ as tuples.
    pub fn cmp(&self, other: &Colours) -> (r: core::cmp::Ordering)
        ensures
            r == order_cmp(*self, *other),
    {
        let sm: i32 = if self.c1 >= self.c2 {
            self.c1
        } else {
            self.c2
        };
        let om: i32 = if other.c1 >= other.c2 {
            other.c1
        } else {
            other.c2
        };
        if sm > om {
            core::cmp::Ordering::Greater
        } else if om > sm {
            core::cmp::Ordering::Less
        } else {
            core::cmp::Ordering::Equal
        }
    }

    /// The presentation category of this pair, by the sign of each channel.
    pub fn classify(self) -> (l: Label)
        ensures
            l == classified(self),
    {
        if self.c1 > 0 && self.c2 > 0 {
            Label::BothGroups
        } else if self.c1 > 0 {
            Label::GroupOnly1
        } else if self.c2 > 0 {
            Label::GroupOnly2
        } else {
            Label::Neither
        }
    }
}

/// The DOT colour name of a label: `red` and `blue` for the single groups,
/// `red:blue` for joint support, `black` for no support.
pub open spec fn colour_name(l: Label) -> Seq<char> {
    match l {
        Label::GroupOnly1 => "red"@,
        Label::BothGroups => "red:blue"@,
        Label::GroupOnly2 => "blue"@,
        Label::Neither => "black"@,
    }
}

/// The raw textual rendering of a pair: `(<c1>,<c2>)`.
pub open spec fn pair_text(p: Colours) -> Seq<char> {
    "("@ + crate::text::int_text(p.c1 as int) + ","@ + crate::text::int_text(p.c2 as int) + ")"@
}

/// The full edge-label text handed to the DOT exporter:
/// `(<c1>,<c2>)" color="<colourname>`. The embedded quotes complete the
/// attribute the exporter opened, so downstream tooling sees the raw pair
/// and the colour side by side.
pub open spec fn label_text(p: Colours) -> Seq<char> {
    "("@ + crate::text::int_text(p.c1 as int) + ","@ + crate::text::int_text(p.c2 as int)
        + ")\" color=\""@ + colour_name(classified(p))
}

/// The DOT colour name of `l`, as [`colour_name`] says.
pub fn colour_of(l: Label) -> (r: &'static str)
    ensures
        r@ == colour_name(l),
{
    match l {
        Label::GroupOnly1 => "red",
        Label::BothGroups => "red:blue",
        Label::GroupOnly2 => "blue",
        Label::Neither => "black",
    }
}

impl Colours {
    /// The raw pair as text, `(<c1>,<c2>)`: the debugging rendering shown
    /// beside the colour label.
    pub fn render(self) -> (s: String)
        ensures
            s@ == pair_text(self),
    {
        let mut s = "(".to_owned();
        s.append(crate::text::decimal_i32(self.c1).as_str());
        s.append(",");
        s.append(crate::text::decimal_i32(self.c2).as_str());
        s.append(")");
        proof {
            assert(s@ =~= pair_text(self));
        }
        s
    }

    /// The node/edge label for the DOT export: the raw pair, then the
    /// colour of its classification, in the exact shape
    /// `(<c1>,<c2>)" color="<colourname>`.
    pub fn label(self) -> (s: String)
        ensures
            s@ == label_text(self),
    {
        let mut s = "(".to_owned();
        s.append(crate::text::decimal_i32(self.c1).as_str());
        s.append(",");
        s.append(crate::text::decimal_i32(self.c2).as_str());
        s.append(")\" color=\"");
        s.append(colour_of(self.classify()));
        proof {
            assert(s@ =~= label_text(self));
        }
        s
    }
}

impl PartialOrd for Colours {
    fn partial_cmp(&self, other: &Colours) -> (r: Option<core::cmp::Ordering>) {
        Some(self.cmp(other))
    }
}

impl vstd::std_specs::cmp::PartialOrdSpecImpl for Colours {
    open spec fn obeys_partial_cmp_spec() -> bool {
        true
    }

    open spec fn partial_cmp_spec(&self, other: &Colours) -> Option<core::cmp::Ordering> {
        Some(order_cmp(*self, *other))
    }
}

/// The scoring configuration handed to the alignment engine: the reward for
/// an exact symbol match and the penalty for a mismatch.
pub struct ColourMatchParams {
    pub match_score: Colours,
    pub mismatch_score: Colours,
}

impl ColourMatchParams {
    /// The standard configuration: a match rewards both groups by one, a
    /// mismatch charges both groups the given magnitude.
    pub fn from_penalty(mismatch_penalty: i32) -> (r: ColourMatchParams)
        requires
            mismatch_penalty > i32::MIN,
        ensures
            r.match_score == (Colours { c1: 1, c2: 1 }),
            r.mismatch_score.c1 as int == -(mismatch_penalty as int),
            r.mismatch_score.c2 as int == -(mismatch_penalty as int),
    {
        ColourMatchParams {
            match_score: Colours { c1: 1, c2: 1 },
            mismatch_score: Colours { c1: -mismatch_penalty, c2: -mismatch_penalty },
        }
    }

    /// The per-position scoring function the engine is configured with:
    /// the match reward when the symbols agree, the mismatch penalty
    /// otherwise.
    pub fn score(&self, a: u8, b: u8) -> (r: Colours)
        ensures
            a == b ==> r == self.match_score,
            a != b ==> r == self.mismatch_score,
    {
        if a == b {
            self.match_score
        } else {
            self.mismatch_score
        }
    }
}

/// The seed pair a caller assigns to an input sequence from its group
/// identifier: `(1, 0)` for group "1", `(0, 1)` for group "2", and the
/// neutral `(0, 0)` for anything else.
pub open spec fn seed_of(id: Seq<char>) -> Colours {
    if id == seq!['1'] {
        Colours { c1: 1, c2: 0 }
    } else if id == seq!['2'] {
        Colours { c1: 0, c2: 1 }
    } else {
        Colours { c1: 0, c2: 0 }
    }
}

/// Map a sequence's group identifier to its seed pair, as [`seed_of`] says.
pub fn seed_for_group(id: &str) -> (r: Colours)
    ensures
        r == seed_of(id@),
{
    let n: usize = id.unicode_len();
    if n == 1 {
        let c: char = id.get_char(0);
        if c == '1' {
            proof {
                assert(id@ =~= seq!['1']);
            }
            Colours { c1: 1, c2: 0 }
        } else if c == '2' {
            proof {
                assert(id@ =~= seq!['2']);
            }
            Colours { c1: 0, c2: 1 }
        } else {
            proof {
                assert(id@ != seq!['1']);
                assert(id@ != seq!['2']);
            }
            Colours { c1: 0, c2: 0 }
        }
    } else {
        proof {
            assert(id@ != seq!['1']);
            assert(id@ != seq!['2']);
        }
        Colours { c1: 0, c2: 0 }
    }
}

} // verus!

