//! Text position that carries every supported metric at once.

use crate::position::utf16_position::Utf16Position;
use crate::position::utf8_index::Utf8Index;
use crate::position::utf8_position::Utf8Position;
use crate::position::TextPosition;
use crate::render::point_string;
use crate::render::point_text;
use crate::text::char_len16;
use crate::text::char_len8;
use crate::text::len16_of;
use crate::text::len8_of;
use crate::text::lemma_line_of_unbroken;
use crate::text::lemma_measure_bounds;
use crate::text::lemma_measures_concat;
use crate::text::lemma_measures_push;
use crate::text::line_of;
use crate::text::rows_of;
use crate::text::utf16_len_of_char;
use crate::text::utf8_len_of_char;
use vstd::prelude::*;

verus! {

broadcast use vstd::string::group_string_axioms;

/// Text position represented by multiple measure:
///
/// - index: UTF-8 index
/// - row: Line number.
/// - column8: Column number as number of UTF-8 code units (bytes).
/// - column16: Column number as number of UTF-16 code units (basically half of bytes).
///
/// All of them start from 0.
///
/// Equality and ordering go by the byte index alone: for positions scanned
/// from one text the byte index already determines the other fields, so it
/// is the canonical measure.
#[derive(Copy, Clone, Debug)]
pub struct CompositePosition {
    /// UTF-8 index.
    pub index: u32,

    /// Line number.
    pub row: u32,

    /// Column number as number of UTF-8 code units (bytes).
    pub column8: u32,

    /// Column number as number of UTF-16 code units (basically half of bytes).
    pub column16: u32,
}

impl CompositePosition {
    /// A position with all four measures given.
    pub fn new(index: u32, row: u32, column8: u32, column16: u32) -> (r: Self)
        ensures
            r.index == index,
            r.row == row,
            r.column8 == column8,
            r.column16 == column16,
    {
        CompositePosition { index, row, column8, column16 }
    }

    /// The advance a single character contributes to every measure at once.
    pub fn from_char(c: char) -> (r: Self)
        ensures
            c == '\n' ==> r == (CompositePosition { index: 1, row: 1, column8: 0, column16: 0 }),
            c != '\n' ==> r.index == char_len8(c) && r.row == 0 && r.column8 == char_len8(c)
                && r.column16 == char_len16(c),
    {
        if c == '\n' {
            CompositePosition { index: 1, row: 1, column8: 0, column16: 0 }
        } else {
            let len8 = utf8_len_of_char(c);
            CompositePosition { index: len8, row: 0, column8: len8, column16: utf16_len_of_char(c) }
        }
    }

    /// Advance this position in place, as `add` does.
    pub fn add_assign(&mut self, rhs: Self)
        requires
            old(self).add_fits(rhs),
        ensures
            *final(self) == old(self).add_spec(rhs),
    {
        let sum = (*self).add(rhs);
        *self = sum;
    }

    /// The byte-index view of this position: a lossless projection.
    pub fn to_utf8_index(self) -> (r: Utf8Index)
        ensures
            r.index == self.index,
    {
        Utf8Index { index: self.index }
    }

    /// The byte-column view of this position: a lossless projection.
    pub fn to_utf8_position(self) -> (r: Utf8Position)
        ensures
            r.row == self.row,
            r.column == self.column8,
    {
        Utf8Position { row: self.row, column: self.column8 }
    }

    /// The UTF-16-column view of this position: a lossless projection.
    pub fn to_utf16_position(self) -> (r: Utf16Position)
        ensures
            r.row == self.row,
            r.column == self.column16,
    {
        Utf16Position { row: self.row, column: self.column16 }
    }

    /// The one-based `row:column` notation over the byte column, as a
    /// diagnostic would print it.
    pub fn display_string(&self) -> (r: String)
        requires
            self.row < u32::MAX,
            self.column8 < u32::MAX,
        ensures
            r@ == point_text(self.row as nat, self.column8 as nat),
    {
        point_string(self.row, self.column8)
    }
}

impl PartialEq for CompositePosition {
    fn eq(&self, other: &Self) -> (r: bool) {
        self.index == other.index
    }
}

impl vstd::std_specs::cmp::PartialEqSpecImpl for CompositePosition {
    open spec fn obeys_eq_spec() -> bool {
        true
    }

    open spec fn eq_spec(&self, other: &Self) -> bool {
        self.index == other.index
    }
}

impl PartialOrd for CompositePosition {
    fn partial_cmp(&self, other: &Self) -> (r: Option<core::cmp::Ordering>) {
        if self.index < other.index {
            Some(core::cmp::Ordering::Less)
        } else if self.index == other.index {
            Some(core::cmp::Ordering::Equal)
        } else {
            Some(core::cmp::Ordering::Greater)
        }
    }
}

impl vstd::std_specs::cmp::PartialOrdSpecImpl for CompositePosition {
    open spec fn obeys_partial_cmp_spec() -> bool {
        true
    }

    open spec fn partial_cmp_spec(&self, other: &Self) -> Option<core::cmp::Ordering> {
        if self.index < other.index {
            Some(core::cmp::Ordering::Less)
        } else if self.index == other.index {
            Some(core::cmp::Ordering::Equal)
        } else {
            Some(core::cmp::Ordering::Greater)
        }
    }
}

impl TextPosition for CompositePosition {
    open spec fn zero_spec() -> Self {
        CompositePosition { index: 0, row: 0, column8: 0, column16: 0 }
    }

    open spec fn eq_spec(self, other: Self) -> bool {
        self.index == other.index
    }

    open spec fn le_spec(self, other: Self) -> bool {
        self.index <= other.index
    }

    open spec fn from_text(s: Seq<char>) -> Self {
        CompositePosition {
            index: len8_of(s) as u32,
            row: rows_of(s) as u32,
            column8: len8_of(line_of(s)) as u32,
            column16: len16_of(line_of(s)) as u32,
        }
    }

    open spec fn add_fits(self, rhs: Self) -> bool {
        self.index + rhs.index <= u32::MAX && (if rhs.row == 0 {
            self.column8 + rhs.column8 <= u32::MAX && self.column16 + rhs.column16 <= u32::MAX
        } else {
            self.row + rhs.row <= u32::MAX
        })
    }

    open spec fn add_spec(self, rhs: Self) -> Self {
        if rhs.row == 0 {
            CompositePosition {
                index: (self.index + rhs.index) as u32,
                row: self.row,
                column8: (self.column8 + rhs.column8) as u32,
                column16: (self.column16 + rhs.column16) as u32,
            }
        } else {
            CompositePosition {
                index: (self.index + rhs.index) as u32,
                row: (self.row + rhs.row) as u32,
                column8: rhs.column8,
                column16: rhs.column16,
            }
        }
    }

    open spec fn sub_spec(self, rhs: Self) -> Self {
        if self.row < rhs.row {
            Self::zero_spec()
        } else if self.row == rhs.row {
            CompositePosition {
                index: if self.index >= rhs.index {
                    (self.index - rhs.index) as u32
                } else {
                    0u32
                },
                row: 0,
                column8: if self.column8 >= rhs.column8 {
                    (self.column8 - rhs.column8) as u32
                } else {
                    0u32
                },
                column16: if self.column16 >= rhs.column16 {
                    (self.column16 - rhs.column16) as u32
                } else {
                    0u32
                },
            }
        } else {
            CompositePosition {
                index: if self.index >= rhs.index {
                    (self.index - rhs.index) as u32
                } else {
                    0u32
                },
                row: (self.row - rhs.row) as u32,
                column8: self.column8,
                column16: self.column16,
            }
        }
    }

    fn zero() -> Self {
        CompositePosition { index: 0, row: 0, column8: 0, column16: 0 }
    }

    fn from_str(s: &str) -> Self {
        let mut index: u32 = 0;
        let mut row: u32 = 0;
        let mut column8: u32 = 0;
        let mut column16: u32 = 0;
        for c in it: s.chars()
            invariant
                len8_of(s@) <= u32::MAX,
                it.seq() == s@,
                index == len8_of(it.seq().subrange(0, it.index() as int)),
                row == rows_of(it.seq().subrange(0, it.index() as int)),
                column8 == len8_of(line_of(it.seq().subrange(0, it.index() as int))),
                column16 == len16_of(line_of(it.seq().subrange(0, it.index() as int))),
        {
            proof {
                let i = it.index() as int;
                let whole = it.seq();
                let rest = whole.subrange(i + 1, whole.len() as int);
                assert(whole.subrange(0, i + 1) =~= whole.subrange(0, i).push(whole[i]));
                lemma_measures_push(whole.subrange(0, i), whole[i]);
                lemma_measures_push(line_of(whole.subrange(0, i)), whole[i]);
                assert(whole =~= whole.subrange(0, i + 1) + rest);
                lemma_measures_concat(whole.subrange(0, i + 1), rest);
                lemma_measure_bounds(whole.subrange(0, i + 1));
            }
            index = index + utf8_len_of_char(c);
            if c == '\n' {
                row = row + 1;
                column8 = 0;
                column16 = 0;
            } else {
                column8 = column8 + utf8_len_of_char(c);
                column16 = column16 + utf16_len_of_char(c);
            }
        }
        proof {
            assert(s@.subrange(0, s@.len() as int) =~= s@);
            lemma_measure_bounds(s@);
        }
        CompositePosition { index, row, column8, column16 }
    }

    fn add(self, rhs: Self) -> Self {
        let index = self.index + rhs.index;
        if rhs.row == 0 {
            CompositePosition {
                index,
                row: self.row,
                column8: self.column8 + rhs.column8,
                column16: self.column16 + rhs.column16,
            }
        } else {
            CompositePosition {
                index,
                row: self.row + rhs.row,
                column8: rhs.column8,
                column16: rhs.column16,
            }
        }
    }

    fn saturating_sub(self, rhs: Self) -> Self {
        if self.row < rhs.row {
            CompositePosition { index: 0, row: 0, column8: 0, column16: 0 }
        } else if self.row == rhs.row {
            CompositePosition {
                index: self.index.saturating_sub(rhs.index),
                row: 0,
                column8: self.column8.saturating_sub(rhs.column8),
                column16: self.column16.saturating_sub(rhs.column16),
            }
        } else {
            CompositePosition {
                index: self.index.saturating_sub(rhs.index),
                row: self.row - rhs.row,
                column8: self.column8,
                column16: self.column16,
            }
        }
    }

    fn le(self, other: Self) -> bool {
        self.index <= other.index
    }

    fn equals(self, other: Self) -> bool {
        self.index == other.index
    }

    proof fn lemma_le_refl(a: Self) {
    }

    proof fn lemma_le_trans(a: Self, b: Self, c: Self) {
    }

    proof fn lemma_le_total(a: Self, b: Self) {
    }

    proof fn lemma_le_antisym(a: Self, b: Self) {
    }

    proof fn lemma_eq_le(a: Self, b: Self) {
    }

    proof fn lemma_zero_le(a: Self) {
    }

    proof fn lemma_zero_add(a: Self) {
    }

    proof fn lemma_sub_underflow(p: Self, q: Self) {
    }

    proof fn lemma_sub_of_add(a: Self, d: Self) {
    }

    proof fn lemma_add_grows(a: Self, d: Self) {
    }

}

/// Scanning an empty text yields the origin.
pub proof fn lemma_from_text_empty()
    ensures
        CompositePosition::from_text(Seq::<char>::empty()) == CompositePosition::zero_spec(),
{
}

/// Addition mirrors concatenation: the position of `a + b` is the sum of the
/// positions of `a` and of `b`, in every one of the four fields, for any two
/// fragments.
pub proof fn lemma_from_text_concat(a: Seq<char>, b: Seq<char>)
    requires
        len8_of(a + b) <= u32::MAX,
    ensures
        CompositePosition::from_text(a).add_fits(CompositePosition::from_text(b)),
        CompositePosition::from_text(a).add_spec(CompositePosition::from_text(b))
            == CompositePosition::from_text(a + b),
{
    lemma_measures_concat(a, b);
    lemma_measure_bounds(a);
    lemma_measure_bounds(b);
    lemma_measure_bounds(a + b);
    if rows_of(b) == 0 {
        lemma_line_of_unbroken(b);
        lemma_measures_concat(line_of(a), b);
    }
}

/// The origin is also a right identity of addition.
pub proof fn lemma_add_zero(p: CompositePosition)
    ensures
        p.add_fits(CompositePosition::zero_spec()),
        p.add_spec(CompositePosition::zero_spec()) == p,
{
}

/// The saturating distance undoes addition, under the canonical byte-index
/// equality. The subtraction branches on the row fields, so the law asks
/// that the rows not contradict the byte indices: a pair with `q.index <
/// p.index` but `q.row > p.row` cannot come from scanning one text, and on
/// such a pair the distance saturates to the origin instead.
pub proof fn lemma_add_sub(p: CompositePosition, q: CompositePosition)
    requires
        q.row <= p.row || q.index == p.index,
    ensures
        q.le_spec(p) ==> q.add_spec(p.sub_spec(q)).eq_spec(p),
        !q.le_spec(p) ==> p.sub_spec(q).eq_spec(CompositePosition::zero_spec()),
{
}

/// The composite of a scanned text projects onto each single metric's own
/// scan of that text: the four fields are kept mutually consistent. This is
/// the verified form of the cross-check that equality and ordering by byte
/// index agree with the row-and-column views for positions derived from one
/// text.
pub proof fn lemma_projections_agree(s: Seq<char>)
    ensures
        Utf8Index::from_text(s).index == CompositePosition::from_text(s).index,
        Utf8Position::from_text(s) == (Utf8Position {
            row: CompositePosition::from_text(s).row,
            column: CompositePosition::from_text(s).column8,
        }),
        Utf16Position::from_text(s) == (Utf16Position {
            row: CompositePosition::from_text(s).row,
            column: CompositePosition::from_text(s).column16,
        }),
{
}

/// Scanning more text never moves a position backwards, under any metric.
/// For positions scanned from one text the byte-index order therefore
/// agrees with the row-and-column orders: both place the position of the
/// shorter prefix at or before the position of the longer. This is the
/// verified form of the cross-check that ordering by byte index matches the
/// row-and-column views.
pub proof fn lemma_scan_monotone(a: Seq<char>, t: Seq<char>)
    requires
        len8_of(a + t) <= u32::MAX,
    ensures
        CompositePosition::from_text(a).le_spec(CompositePosition::from_text(a + t)),
        Utf8Index::from_text(a).le_spec(Utf8Index::from_text(a + t)),
        Utf8Position::from_text(a).le_spec(Utf8Position::from_text(a + t)),
        Utf16Position::from_text(a).le_spec(Utf16Position::from_text(a + t)),
{
    lemma_measures_concat(a, t);
    lemma_measure_bounds(a);
    lemma_measure_bounds(t);
    lemma_measure_bounds(a + t);
    if rows_of(t) == 0 {
        lemma_line_of_unbroken(t);
        lemma_measures_concat(line_of(a), t);
        lemma_measure_bounds(line_of(a));
    }
}

} // verus!
