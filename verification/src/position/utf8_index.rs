//! Text position represented by a UTF-8 byte index.

use crate::position::TextPosition;
use crate::render::dec_digits;
use crate::render::decimal_string;
use crate::text::char_len8;
use crate::text::len8_of;
use crate::text::lemma_measures_concat;
use crate::text::lemma_measures_push;
use crate::text::utf8_len_of_char;
use vstd::prelude::*;

verus! {

broadcast use vstd::string::group_string_axioms;

/// Text position represented by UTF-8 index.
/// Start from 0.
#[derive(Copy, Clone, Debug, Default, Ord, PartialOrd, Eq, PartialEq, Hash, Structural)]
pub struct Utf8Index {
    /// Index to UTF-8 string.
    pub index: u32,
}

impl Utf8Index {
    /// A position at the given byte index.
    pub fn new(index: u32) -> (r: Self)
        ensures
            r.index == index,
    {
        Utf8Index { index }
    }

    /// The advance a single character contributes: its byte length.
    pub fn from_char(c: char) -> (r: Self)
        ensures
            r.index == char_len8(c),
    {
        Utf8Index { index: utf8_len_of_char(c) }
    }

    /// Advance this position in place, as `add` does.
    pub fn add_assign(&mut self, rhs: Self)
        requires
            old(self).add_fits(rhs),
        ensures
            *final(self) == old(self).add_spec(rhs),
    {
        let sum = (*self).add(rhs);
        *self = sum;
    }

    /// The index in base-ten notation, as a diagnostic would print it.
    pub fn display_string(&self) -> (r: String)
        ensures
            r@ == dec_digits(self.index as nat),
    {
        decimal_string(self.index)
    }
}

impl TextPosition for Utf8Index {
    open spec fn zero_spec() -> Self {
        Utf8Index { index: 0 }
    }

    open spec fn eq_spec(self, other: Self) -> bool {
        self.index == other.index
    }

    open spec fn le_spec(self, other: Self) -> bool {
        self.index <= other.index
    }

    open spec fn from_text(s: Seq<char>) -> Self {
        Utf8Index { index: len8_of(s) as u32 }
    }

    open spec fn add_fits(self, rhs: Self) -> bool {
        self.index + rhs.index <= u32::MAX
    }

    open spec fn add_spec(self, rhs: Self) -> Self {
        Utf8Index { index: (self.index + rhs.index) as u32 }
    }

    open spec fn sub_spec(self, rhs: Self) -> Self {
        Utf8Index {
            index: if self.index >= rhs.index {
                (self.index - rhs.index) as u32
            } else {
                0u32
            },
        }
    }

    fn zero() -> Self {
        Utf8Index { index: 0 }
    }

    fn from_str(s: &str) -> Self {
        let mut index: u32 = 0;
        for c in it: s.chars()
            invariant
                len8_of(s@) <= u32::MAX,
                it.seq() == s@,
                index == len8_of(it.seq().subrange(0, it.index() as int)),
        {
            proof {
                let i = it.index() as int;
                let whole = it.seq();
                assert(whole.subrange(0, i + 1) =~= whole.subrange(0, i).push(whole[i]));
                lemma_measures_push(whole.subrange(0, i), whole[i]);
                assert(whole =~= whole.subrange(0, i + 1) + whole.subrange(
                    i + 1,
                    whole.len() as int,
                ));
                lemma_measures_concat(
                    whole.subrange(0, i + 1),
                    whole.subrange(i + 1, whole.len() as int),
                );
            }
            index = index + utf8_len_of_char(c);
        }
        proof {
            assert(s@.subrange(0, s@.len() as int) =~= s@);
        }
        Utf8Index { index }
    }

    fn add(self, rhs: Self) -> Self {
        Utf8Index { index: self.index + rhs.index }
    }

    fn saturating_sub(self, rhs: Self) -> Self {
        Utf8Index { index: self.index.saturating_sub(rhs.index) }
    }

    fn le(self, other: Self) -> bool {
        self.index <= other.index
    }

    fn equals(self, other: Self) -> bool {
        self.index == other.index
    }

    proof fn lemma_le_refl(a: Self) {
    }

    proof fn lemma_le_trans(a: Self, b: Self, c: Self) {
    }

    proof fn lemma_le_total(a: Self, b: Self) {
    }

    proof fn lemma_le_antisym(a: Self, b: Self) {
    }

    proof fn lemma_eq_le(a: Self, b: Self) {
    }

    proof fn lemma_zero_le(a: Self) {
    }

    proof fn lemma_zero_add(a: Self) {
    }

    proof fn lemma_sub_underflow(p: Self, q: Self) {
    }

    proof fn lemma_sub_of_add(a: Self, d: Self) {
    }

    proof fn lemma_add_grows(a: Self, d: Self) {
    }

}

/// Scanning an empty text yields the origin.
pub proof fn lemma_from_text_empty()
    ensures
        Utf8Index::from_text(Seq::<char>::empty()) == Utf8Index::zero_spec(),
{
}

/// Addition mirrors concatenation: the position of `a + b` is the sum of the
/// positions of `a` and of `b`.
pub proof fn lemma_from_text_concat(a: Seq<char>, b: Seq<char>)
    requires
        len8_of(a + b) <= u32::MAX,
    ensures
        Utf8Index::from_text(a).add_fits(Utf8Index::from_text(b)),
        Utf8Index::from_text(a).add_spec(Utf8Index::from_text(b)) == Utf8Index::from_text(a + b),
{
    lemma_measures_concat(a, b);
}

/// The origin is also a right identity of addition.
pub proof fn lemma_add_zero(p: Utf8Index)
    ensures
        p.add_fits(Utf8Index::zero_spec()),
        p.add_spec(Utf8Index::zero_spec()) == p,
{
}

/// The saturating distance undoes addition: when `q` lies at or before `p`,
/// advancing `q` by the distance from `q` to `p` lands on `p`; otherwise the
/// distance is the origin.
pub proof fn lemma_add_sub(p: Utf8Index, q: Utf8Index)
    ensures
        q.le_spec(p) ==> q.add_fits(p.sub_spec(q)) && q.add_spec(p.sub_spec(q)) == p,
        !q.le_spec(p) ==> p.sub_spec(q) == Utf8Index::zero_spec(),
{
}

} // verus!
