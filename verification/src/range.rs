//! Range of text between two positions, generic over the position metric.

use crate::position::composite_position::CompositePosition;
use crate::position::utf16_position::Utf16Position;
use crate::position::utf8_index::Utf8Index;
use crate::position::utf8_position::Utf8Position;
use crate::position::TextPosition;
use crate::render::dec_digits;
use crate::render::gnu_range_string;
use crate::render::gnu_range_text;
use vstd::prelude::*;
use vstd::string::StringExecFns;

verus! {

// DESIGN: Prefer (index, len) over (start, end)
//         because invariant `len >= 0` is easier to encode in type system
//         than `start <= end`.
/// Range of text between two positions.
///
/// The range is stored as a start position and a length. The length is never
/// negative by construction: it is only ever produced by the metric's
/// saturating subtraction, which clamps at the origin.
#[derive(Copy, Clone, Debug, Ord, PartialOrd, Eq, PartialEq, Hash)]
pub struct TextRange<P> {
    /// Start position of text range.
    pub index: P,

    /// Size of text range.
    pub len: P,
}

impl<P: TextPosition> TextRange<P> {
    /// True when the end of the range can be computed without overflow.
    pub open spec fn fits(self) -> bool {
        self.index.add_fits(self.len)
    }

    /// The position one past the covered text: start plus length.
    pub open spec fn end_spec(self) -> P {
        self.index.add_spec(self.len)
    }

    /// Equality of ranges under the metric's own equality.
    pub open spec fn eq_spec(self, other: Self) -> bool {
        self.index.eq_spec(other.index) && self.len.eq_spec(other.len)
    }

    /// True when the range covers no text.
    pub open spec fn is_empty_spec(self) -> bool {
        self.len.eq_spec(P::zero_spec())
    }

    /// True when `pos` lies within the range, the end boundary included.
    pub open spec fn contains_spec(self, pos: P) -> bool {
        self.index.le_spec(pos) && pos.le_spec(self.end_spec())
    }

    /// True when the range contains the whole of `other`.
    pub open spec fn covers_spec(self, other: Self) -> bool {
        self.index.le_spec(other.index) && other.end_spec().le_spec(self.end_spec())
    }

    /// The range a half-open `start..end` pair describes: an inverted pair
    /// yields an empty range at `start`, by saturation.
    pub open spec fn from_bounds_spec(start: P, end: P) -> Self {
        TextRange { index: start, len: end.sub_spec(start) }
    }

    /// The smallest range whose start is the earlier start and whose end is
    /// the later end.
    pub open spec fn extend_spec(self, other: Self) -> Self {
        let start = if self.index.le_spec(other.index) {
            self.index
        } else {
            other.index
        };
        let end = if self.end_spec().le_spec(other.end_spec()) {
            other.end_spec()
        } else {
            self.end_spec()
        };
        Self::from_bounds_spec(start, end)
    }

    /// A range whose start and length are both the origin.
    pub fn zero() -> (r: Self)
        ensures
            r.index == P::zero_spec(),
            r.len == P::zero_spec(),
    {
        TextRange { index: P::zero(), len: P::zero() }
    }

    /// Create a range.
    pub fn at(index: P, len: P) -> (r: Self)
        ensures
            r.index == index,
            r.len == len,
    {
        TextRange { index, len }
    }

    /// Create an empty range pointing to a position.
    pub fn empty(index: P) -> (r: Self)
        ensures
            r.index == index,
            r.len == P::zero_spec(),
    {
        TextRange { index, len: P::zero() }
    }

    /// Create a range from origin to end.
    pub fn up_to(len: P) -> (r: Self)
        ensures
            r.index == P::zero_spec(),
            r.len == len,
    {
        TextRange { index: P::zero(), len }
    }

    /// Create a range from a half-open start and end pair. When `end`
    /// precedes `start`, the result is an empty range at `start` rather than
    /// an error: the length saturates to the origin.
    pub fn from_bounds(start: P, end: P) -> (r: Self)
        ensures
            r == Self::from_bounds_spec(start, end),
    {
        TextRange { index: start, len: end.saturating_sub(start) }
    }

    /// The start position.
    pub fn start(self) -> (r: P)
        ensures
            r == self.index,
    {
        self.index
    }

    /// The end position: start plus length.
    pub fn end(self) -> (r: P)
        requires
            self.fits(),
        ensures
            r == self.end_spec(),
    {
        self.index.add(self.len)
    }

    /// Empty range pointing to the start position.
    pub fn to_start(self) -> (r: Self)
        ensures
            r.index == self.index,
            r.len == P::zero_spec(),
    {
        Self::empty(self.start())
    }

    /// Empty range pointing to the end position.
    pub fn to_end(self) -> (r: Self)
        requires
            self.fits(),
        ensures
            r.index == self.end_spec(),
            r.len == P::zero_spec(),
    {
        Self::empty(self.end())
    }

    /// Whether the range contains a position inclusively.
    ///
    /// True if `pos == self.end()`.
    pub fn contains_inclusive(self, pos: P) -> (r: bool)
        requires
            self.fits(),
        ensures
            r == self.contains_spec(pos),
    {
        self.index.le(pos) && pos.le(self.end())
    }

    /// Whether the range contains another range entirely.
    pub fn covers(self, other: Self) -> (r: bool)
        requires
            self.fits(),
            other.fits(),
        ensures
            r == self.covers_spec(other),
    {
        self.start().le(other.start()) && other.end().le(self.end())
    }

    /// Whether the range is empty.
    pub fn is_empty(self) -> (r: bool)
        ensures
            r == self.is_empty_spec(),
    {
        self.len.equals(P::zero())
    }

    /// Extend a range to cover the other range.
    pub fn extend(self, other: Self) -> (r: Self)
        requires
            self.fits(),
            other.fits(),
        ensures
            r == self.extend_spec(other),
    {
        let self_start = self.start();
        let other_start = other.start();
        let start = if self_start.le(other_start) {
            self_start
        } else {
            other_start
        };
        let self_end = self.end();
        let other_end = other.end();
        let end = if self_end.le(other_end) {
            other_end
        } else {
            self_end
        };
        Self::from_bounds(start, end)
    }
}

impl TextRange<Utf8Index> {
    /// The `start..end` notation for a byte-index range.
    pub fn display_string(&self) -> (r: String)
        requires
            self.fits(),
        ensures
            r@ == dec_digits(self.index.index as nat) + seq!['.', '.'] + dec_digits(
                self.end_spec().index as nat,
            ),
    {
        proof {
            reveal_strlit("..");
        }
        let mut s = self.index.display_string();
        s.append("..");
        let e = self.end();
        let t = e.display_string();
        s.append(t.as_str());
        proof {
            assert(s@ =~= dec_digits(self.index.index as nat) + seq!['.', '.'] + dec_digits(
                self.end_spec().index as nat,
            ));
        }
        s
    }
}

impl TextRange<Utf8Position> {
    /// The one-based GNU `row.col-row.col` notation for this range.
    pub fn display_string(&self) -> (r: String)
        requires
            self.fits(),
            self.index.row < u32::MAX,
            self.index.column < u32::MAX,
            self.end_spec().row < u32::MAX,
            self.end_spec().column < u32::MAX,
        ensures
            r@ == gnu_range_text(
                self.index.row as nat,
                self.index.column as nat,
                self.end_spec().row as nat,
                self.end_spec().column as nat,
            ),
    {
        let e = self.end();
        gnu_range_string(self.index.row, self.index.column, e.row, e.column)
    }
}

impl TextRange<Utf16Position> {
    /// The one-based GNU `row.col-row.col` notation for this range.
    pub fn display_string(&self) -> (r: String)
        requires
            self.fits(),
            self.index.row < u32::MAX,
            self.index.column < u32::MAX,
            self.end_spec().row < u32::MAX,
            self.end_spec().column < u32::MAX,
        ensures
            r@ == gnu_range_text(
                self.index.row as nat,
                self.index.column as nat,
                self.end_spec().row as nat,
                self.end_spec().column as nat,
            ),
    {
        let e = self.end();
        gnu_range_string(self.index.row, self.index.column, e.row, e.column)
    }
}

impl TextRange<CompositePosition> {
    /// The one-based GNU `row.col-row.col` notation for this range, over the
    /// byte column.
    pub fn display_string(&self) -> (r: String)
        requires
            self.fits(),
            self.index.row < u32::MAX,
            self.index.column8 < u32::MAX,
            self.end_spec().row < u32::MAX,
            self.end_spec().column8 < u32::MAX,
        ensures
            r@ == gnu_range_text(
                self.index.row as nat,
                self.index.column8 as nat,
                self.end_spec().row as nat,
                self.end_spec().column8 as nat,
            ),
    {
        let e = self.end();
        gnu_range_string(self.index.row, self.index.column8, e.row, e.column8)
    }
}

/// A range built from a start and end pair starts at the given start; when
/// the pair is inverted, the range is empty.
pub proof fn lemma_from_bounds<P: TextPosition>(start: P, end: P)
    ensures
        TextRange::<P>::from_bounds_spec(start, end).index == start,
        start.le_spec(end) ==> TextRange::<P>::from_bounds_spec(start, end).len == end.sub_spec(
            start,
        ),
        !start.le_spec(end) ==> TextRange::<P>::from_bounds_spec(start, end).is_empty_spec(),
{
    if !start.le_spec(end) {
        P::lemma_sub_underflow(end, start);
    }
}

/// `covers` is reflexive: a range contains itself.
pub proof fn lemma_covers_refl<P: TextPosition>(r: TextRange<P>)
    ensures
        r.covers_spec(r),
{
    P::lemma_le_refl(r.index);
    P::lemma_le_refl(r.end_spec());
}

/// `covers` is transitive.
pub proof fn lemma_covers_trans<P: TextPosition>(a: TextRange<P>, b: TextRange<P>, c: TextRange<P>)
    requires
        a.covers_spec(b),
        b.covers_spec(c),
    ensures
        a.covers_spec(c),
{
    P::lemma_le_trans(a.index, b.index, c.index);
    P::lemma_le_trans(c.end_spec(), b.end_spec(), a.end_spec());
}

/// A range contains both of its boundaries: the start, and — inclusively —
/// the end.
pub proof fn lemma_contains_bounds<P: TextPosition>(r: TextRange<P>)
    requires
        r.fits(),
    ensures
        r.contains_spec(r.index),
        r.contains_spec(r.end_spec()),
{
    P::lemma_le_refl(r.index);
    P::lemma_le_refl(r.end_spec());
    P::lemma_add_grows(r.index, r.len);
}

/// Extending a range with itself changes nothing.
pub proof fn lemma_extend_self<P: TextPosition>(r: TextRange<P>)
    requires
        r.fits(),
    ensures
        r.extend_spec(r) == r,
{
    P::lemma_sub_of_add(r.index, r.len);
}

/// `extend` is commutative.
pub proof fn lemma_extend_commutes_utf8_index(a: TextRange<Utf8Index>, b: TextRange<Utf8Index>)
    ensures
        a.extend_spec(b) == b.extend_spec(a),
{
}

/// `extend` is commutative.
pub proof fn lemma_extend_commutes_utf8_position(
    a: TextRange<Utf8Position>,
    b: TextRange<Utf8Position>,
)
    ensures
        a.extend_spec(b) == b.extend_spec(a),
{
}

/// `extend` is commutative.
pub proof fn lemma_extend_commutes_utf16_position(
    a: TextRange<Utf16Position>,
    b: TextRange<Utf16Position>,
)
    ensures
        a.extend_spec(b) == b.extend_spec(a),
{
}

/// `extend` is commutative under the composite metric's canonical byte-index
/// equality, provided byte indices that tie come with equal rows: on a tie
/// the two orders pick different start positions, and the saturating
/// subtraction branches on their rows, which only positions scanned from one
/// text keep consistent with the byte index.
pub proof fn lemma_extend_commutes_composite_position(
    a: TextRange<CompositePosition>,
    b: TextRange<CompositePosition>,
)
    requires
        a.index.index == b.index.index ==> a.index.row == b.index.row,
        a.end_spec().index == b.end_spec().index ==> a.end_spec().row == b.end_spec().row,
    ensures
        a.extend_spec(b).eq_spec(b.extend_spec(a)),
{
}

} // verus!
