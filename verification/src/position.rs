//! The position capability: the contract every position metric satisfies.

use crate::text::len8_of;
use vstd::prelude::*;

pub mod composite_position;
pub mod utf16_position;
pub mod utf8_index;
pub mod utf8_position;

verus! {

/// Some representation of text position.
///
/// A metric carries an origin, can be computed by scanning a string, can be
/// added (addition mirrors string concatenation), supports a saturating
/// distance, and is totally ordered. The spec functions give the
/// mathematical meaning of each operation; the proof functions are laws that
/// every metric establishes, so that code generic over a metric can rely on
/// them.
pub trait TextPosition: Sized + Copy {
    /// Origin.
    spec fn zero_spec() -> Self;

    /// Equality of positions under this metric. For most metrics this is
    /// plain equality of the fields; a metric may instead single out one
    /// canonical field.
    spec fn eq_spec(self, other: Self) -> bool;

    /// The total order of positions under this metric.
    spec fn le_spec(self, other: Self) -> bool;

    /// The position that scanning `s` from its own origin advances a cursor by.
    spec fn from_text(s: Seq<char>) -> Self;

    /// True when `self.add_spec(rhs)` stays within the width of the fields,
    /// so that the executable addition cannot overflow.
    spec fn add_fits(self, rhs: Self) -> bool;

    /// Addition, with concatenation semantics: adding the positions of two
    /// fragments yields the position of the combined fragment.
    spec fn add_spec(self, rhs: Self) -> Self;

    /// The saturating distance from `rhs` to `self`: the origin when `self`
    /// does not lie past `rhs`.
    spec fn sub_spec(self, rhs: Self) -> Self;

    /// Origin.
    fn zero() -> (r: Self)
        ensures
            r == Self::zero_spec(),
    ;

    /// Calculate a text position pointing to the end of string.
    fn from_str(s: &str) -> (r: Self)
        requires
            len8_of(s@) <= u32::MAX,
        ensures
            r == Self::from_text(s@),
    ;

    /// Combine two positions, as if the texts they were scanned from were
    /// concatenated.
    fn add(self, rhs: Self) -> (r: Self)
        requires
            self.add_fits(rhs),
        ensures
            r == self.add_spec(rhs),
    ;

    /// Calculate the distance from `rhs` to `self`.
    ///
    /// Return the origin if `self <= rhs`.
    fn saturating_sub(self, rhs: Self) -> (r: Self)
        ensures
            r == self.sub_spec(rhs),
    ;

    /// Whether `self` lies at or before `other`.
    fn le(self, other: Self) -> (r: bool)
        ensures
            r == self.le_spec(other),
    ;

    /// Whether `self` and `other` are the same position under this metric.
    fn equals(self, other: Self) -> (r: bool)
        ensures
            r == self.eq_spec(other),
    ;

    /// The order is reflexive.
    proof fn lemma_le_refl(a: Self)
        ensures
            a.le_spec(a),
    ;

    /// The order is transitive.
    proof fn lemma_le_trans(a: Self, b: Self, c: Self)
        requires
            a.le_spec(b),
            b.le_spec(c),
        ensures
            a.le_spec(c),
    ;

    /// The order is total.
    proof fn lemma_le_total(a: Self, b: Self)
        ensures
            a.le_spec(b) || b.le_spec(a),
    ;

    /// Positions below each other are equal under the metric.
    proof fn lemma_le_antisym(a: Self, b: Self)
        requires
            a.le_spec(b),
            b.le_spec(a),
        ensures
            a.eq_spec(b),
    ;

    /// Equal positions sit at the same place in the order.
    proof fn lemma_eq_le(a: Self, b: Self)
        requires
            a.eq_spec(b),
        ensures
            a.le_spec(b),
            b.le_spec(a),
    ;

    /// The origin comes first in the order.
    proof fn lemma_zero_le(a: Self)
        ensures
            Self::zero_spec().le_spec(a),
    ;

    /// The origin is a left identity of addition.
    proof fn lemma_zero_add(a: Self)
        ensures
            Self::zero_spec().add_fits(a),
            Self::zero_spec().add_spec(a) == a,
    ;

    /// Subtracting a position that lies past `p` saturates to the origin.
    proof fn lemma_sub_underflow(p: Self, q: Self)
        requires
            !q.le_spec(p),
        ensures
            p.sub_spec(q).eq_spec(Self::zero_spec()),
    ;

    /// Subtracting a position from a sum recovers the other summand.
    proof fn lemma_sub_of_add(a: Self, d: Self)
        requires
            a.add_fits(d),
        ensures
            a.add_spec(d).sub_spec(a) == d,
    ;

    /// Addition never moves a position backwards.
    proof fn lemma_add_grows(a: Self, d: Self)
        requires
            a.add_fits(d),
        ensures
            a.le_spec(a.add_spec(d)),
    ;
}

} // verus!
