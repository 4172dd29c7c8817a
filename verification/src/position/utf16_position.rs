//! Text position as a (row, column) pair with the column in UTF-16 units.

use crate::position::TextPosition;
use crate::render::point_string;
use crate::render::point_text;
use crate::text::char_len16;
use crate::text::len16_of;
use crate::text::len8_of;
use crate::text::lemma_line_of_unbroken;
use crate::text::lemma_measure_bounds;
use crate::text::lemma_measures_concat;
use crate::text::lemma_measures_push;
use crate::text::line_of;
use crate::text::rows_of;
use crate::text::utf16_len_of_char;
use vstd::prelude::*;

verus! {

broadcast use vstd::string::group_string_axioms;

/// Text position as (row, column) pair.
/// Column number (= length of the final line) is measured as number of UTF-16 code units (basically half of bytes).
/// Start from 0.
#[derive(Copy, Clone, Debug, Ord, PartialOrd, Eq, PartialEq, Hash, Structural)]
pub struct Utf16Position {
    pub row: u32,
    pub column: u32,
}

impl Utf16Position {
    /// A position at the given row and UTF-16 column.
    pub fn new(row: u32, column: u32) -> (r: Self)
        ensures
            r.row == row,
            r.column == column,
    {
        Utf16Position { row, column }
    }

    /// The advance a single character contributes: a newline starts the next
    /// row, any other character widens the column by its UTF-16 length.
    pub fn from_char(c: char) -> (r: Self)
        ensures
            c == '\n' ==> r == (Utf16Position { row: 1, column: 0 }),
            c != '\n' ==> r.row == 0 && r.column == char_len16(c),
    {
        if c == '\n' {
            Utf16Position { row: 1, column: 0 }
        } else {
            Utf16Position { row: 0, column: utf16_len_of_char(c) }
        }
    }

    /// Advance this position in place, as `add` does.
    pub fn add_assign(&mut self, rhs: Self)
        requires
            old(self).add_fits(rhs),
        ensures
            *final(self) == old(self).add_spec(rhs),
    {
        let sum = (*self).add(rhs);
        *self = sum;
    }

    /// The one-based `row:column` notation, as a diagnostic would print it.
    pub fn display_string(&self) -> (r: String)
        requires
            self.row < u32::MAX,
            self.column < u32::MAX,
        ensures
            r@ == point_text(self.row as nat, self.column as nat),
    {
        point_string(self.row, self.column)
    }
}

impl TextPosition for Utf16Position {
    open spec fn zero_spec() -> Self {
        Utf16Position { row: 0, column: 0 }
    }

    open spec fn eq_spec(self, other: Self) -> bool {
        self == other
    }

    open spec fn le_spec(self, other: Self) -> bool {
        self.row < other.row || (self.row == other.row && self.column <= other.column)
    }

    open spec fn from_text(s: Seq<char>) -> Self {
        Utf16Position { row: rows_of(s) as u32, column: len16_of(line_of(s)) as u32 }
    }

    open spec fn add_fits(self, rhs: Self) -> bool {
        if rhs.row == 0 {
            self.column + rhs.column <= u32::MAX
        } else {
            self.row + rhs.row <= u32::MAX
        }
    }

    open spec fn add_spec(self, rhs: Self) -> Self {
        if rhs.row == 0 {
            Utf16Position { row: self.row, column: (self.column + rhs.column) as u32 }
        } else {
            Utf16Position { row: (self.row + rhs.row) as u32, column: rhs.column }
        }
    }

    open spec fn sub_spec(self, rhs: Self) -> Self {
        if self.row < rhs.row {
            Self::zero_spec()
        } else if self.row == rhs.row {
            Utf16Position {
                row: 0,
                column: if self.column >= rhs.column {
                    (self.column - rhs.column) as u32
                } else {
                    0u32
                },
            }
        } else {
            Utf16Position { row: (self.row - rhs.row) as u32, column: self.column }
        }
    }

    fn zero() -> Self {
        Utf16Position { row: 0, column: 0 }
    }

    fn from_str(s: &str) -> Self {
        let mut row: u32 = 0;
        let mut column: u32 = 0;
        for c in it: s.chars()
            invariant
                len8_of(s@) <= u32::MAX,
                it.seq() == s@,
                row == rows_of(it.seq().subrange(0, it.index() as int)),
                column == len16_of(line_of(it.seq().subrange(0, it.index() as int))),
        {
            proof {
                let i = it.index() as int;
                let whole = it.seq();
                let rest = whole.subrange(i + 1, whole.len() as int);
                assert(whole.subrange(0, i + 1) =~= whole.subrange(0, i).push(whole[i]));
                lemma_measures_push(whole.subrange(0, i), whole[i]);
                lemma_measures_push(line_of(whole.subrange(0, i)), whole[i]);
                assert(whole =~= whole.subrange(0, i + 1) + rest);
                lemma_measures_concat(whole.subrange(0, i + 1), rest);
                lemma_measure_bounds(whole.subrange(0, i + 1));
            }
            if c == '\n' {
                row = row + 1;
                column = 0;
            } else {
                column = column + utf16_len_of_char(c);
            }
        }
        proof {
            assert(s@.subrange(0, s@.len() as int) =~= s@);
            lemma_measure_bounds(s@);
        }
        Utf16Position { row, column }
    }

    fn add(self, rhs: Self) -> Self {
        if rhs.row == 0 {
            Utf16Position { row: self.row, column: self.column + rhs.column }
        } else {
            Utf16Position { row: self.row + rhs.row, column: rhs.column }
        }
    }

    fn saturating_sub(self, rhs: Self) -> Self {
        if self.row < rhs.row {
            Utf16Position { row: 0, column: 0 }
        } else if self.row == rhs.row {
            Utf16Position { row: 0, column: self.column.saturating_sub(rhs.column) }
        } else {
            Utf16Position { row: self.row - rhs.row, column: self.column }
        }
    }

    fn le(self, other: Self) -> bool {
        self.row < other.row || (self.row == other.row && self.column <= other.column)
    }

    fn equals(self, other: Self) -> bool {
        self.row == other.row && self.column == other.column
    }

    proof fn lemma_le_refl(a: Self) {
    }

    proof fn lemma_le_trans(a: Self, b: Self, c: Self) {
    }

    proof fn lemma_le_total(a: Self, b: Self) {
    }

    proof fn lemma_le_antisym(a: Self, b: Self) {
    }

    proof fn lemma_eq_le(a: Self, b: Self) {
    }

    proof fn lemma_zero_le(a: Self) {
    }

    proof fn lemma_zero_add(a: Self) {
    }

    proof fn lemma_sub_underflow(p: Self, q: Self) {
    }

    proof fn lemma_sub_of_add(a: Self, d: Self) {
    }

    proof fn lemma_add_grows(a: Self, d: Self) {
    }

}

/// Scanning an empty text yields the origin.
pub proof fn lemma_from_text_empty()
    ensures
        Utf16Position::from_text(Seq::<char>::empty()) == Utf16Position::zero_spec(),
{
}

/// Addition mirrors concatenation: the position of `a + b` is the sum of the
/// positions of `a` and of `b`, for any two fragments.
pub proof fn lemma_from_text_concat(a: Seq<char>, b: Seq<char>)
    requires
        len8_of(a + b) <= u32::MAX,
    ensures
        Utf16Position::from_text(a).add_fits(Utf16Position::from_text(b)),
        Utf16Position::from_text(a).add_spec(Utf16Position::from_text(b))
            == Utf16Position::from_text(a + b),
{
    lemma_measures_concat(a, b);
    lemma_measure_bounds(a);
    lemma_measure_bounds(b);
    lemma_measure_bounds(a + b);
    if rows_of(b) == 0 {
        lemma_line_of_unbroken(b);
        lemma_measures_concat(line_of(a), b);
    }
}

/// The origin is also a right identity of addition.
pub proof fn lemma_add_zero(p: Utf16Position)
    ensures
        p.add_fits(Utf16Position::zero_spec()),
        p.add_spec(Utf16Position::zero_spec()) == p,
{
}

/// The saturating distance undoes addition: when `q` lies at or before `p`,
/// advancing `q` by the distance from `q` to `p` lands on `p`; otherwise the
/// distance is the origin.
pub proof fn lemma_add_sub(p: Utf16Position, q: Utf16Position)
    ensures
        q.le_spec(p) ==> q.add_fits(p.sub_spec(q)) && q.add_spec(p.sub_spec(q)) == p,
        !q.le_spec(p) ==> p.sub_spec(q) == Utf16Position::zero_spec(),
{
}

} // verus!
