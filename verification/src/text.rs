//! Mathematical model of a text fragment, seen as a sequence of characters.
//!
//! A position metric only ever looks at three measures of a fragment: how many
//! newline characters it holds, the line that follows its last newline, and
//! the length of a fragment in UTF-8 bytes or UTF-16 code units. The spec
//! functions here define those measures; the lemmas say how they behave under
//! `push` and concatenation, which is all the scanning loops and the algebraic
//! laws need.

use vstd::prelude::*;

verus! {

/// Number of bytes in the UTF-8 encoding of `c`.
pub open spec fn char_len8(c: char) -> nat {
    if (c as u32) < 0x80 {
        1
    } else if (c as u32) < 0x800 {
        2
    } else if (c as u32) < 0x10000 {
        3
    } else {
        4
    }
}

/// Number of UTF-16 code units in the encoding of `c`: two for a character
/// outside the basic multilingual plane (a surrogate pair), one otherwise.
pub open spec fn char_len16(c: char) -> nat {
    if (c as u32) < 0x10000 {
        1
    } else {
        2
    }
}

/// Length of `s` in UTF-8 bytes.
pub open spec fn len8_of(s: Seq<char>) -> nat
    decreases s.len(),
{
    if s.len() == 0 {
        0
    } else {
        len8_of(s.drop_last()) + char_len8(s.last())
    }
}

/// Length of `s` in UTF-16 code units.
pub open spec fn len16_of(s: Seq<char>) -> nat
    decreases s.len(),
{
    if s.len() == 0 {
        0
    } else {
        len16_of(s.drop_last()) + char_len16(s.last())
    }
}

/// Number of newline characters in `s`: the row a cursor lands on after
/// scanning `s` from the start of a line.
pub open spec fn rows_of(s: Seq<char>) -> nat
    decreases s.len(),
{
    if s.len() == 0 {
        0
    } else {
        rows_of(s.drop_last()) + (if s.last() == '\n' {
            1nat
        } else {
            0nat
        })
    }
}

/// The final line of `s`: everything after its last newline, or all of `s`
/// when it holds no newline.
pub open spec fn line_of(s: Seq<char>) -> Seq<char>
    decreases s.len(),
{
    if s.len() == 0 {
        Seq::<char>::empty()
    } else if s.last() == '\n' {
        Seq::<char>::empty()
    } else {
        line_of(s.drop_last()).push(s.last())
    }
}

/// UTF-8 byte length of a character, computed from its scalar value.
pub fn utf8_len_of_char(c: char) -> (n: u32)
    ensures
        n == char_len8(c),
{
    let u = c as u32;
    if u < 0x80 {
        1
    } else if u < 0x800 {
        2
    } else if u < 0x10000 {
        3
    } else {
        4
    }
}

/// UTF-16 code unit length of a character, computed from its scalar value.
pub fn utf16_len_of_char(c: char) -> (n: u32)
    ensures
        n == char_len16(c),
{
    let u = c as u32;
    if u < 0x10000 {
        1
    } else {
        2
    }
}

/// How each measure grows when one character is appended.
pub proof fn lemma_measures_push(s: Seq<char>, c: char)
    ensures
        len8_of(s.push(c)) == len8_of(s) + char_len8(c),
        len16_of(s.push(c)) == len16_of(s) + char_len16(c),
        rows_of(s.push(c)) == rows_of(s) + (if c == '\n' {
            1nat
        } else {
            0nat
        }),
        line_of(s.push(c)) == (if c == '\n' {
            Seq::<char>::empty()
        } else {
            line_of(s).push(c)
        }),
{
    assert(s.push(c).drop_last() =~= s);
    assert(s.push(c).last() == c);
}

/// How each measure behaves under concatenation: lengths and newline counts
/// add, and the final line of `a + b` is the final line of `b`, prefixed by
/// the final line of `a` when `b` holds no newline of its own.
pub proof fn lemma_measures_concat(a: Seq<char>, b: Seq<char>)
    ensures
        len8_of(a + b) == len8_of(a) + len8_of(b),
        len16_of(a + b) == len16_of(a) + len16_of(b),
        rows_of(a + b) == rows_of(a) + rows_of(b),
        line_of(a + b) == (if rows_of(b) == 0 {
            line_of(a) + b
        } else {
            line_of(b)
        }),
    decreases b.len(),
{
    if b.len() == 0 {
        assert(a + b =~= a);
        assert(line_of(a) + b =~= line_of(a));
    } else {
        let b0 = b.drop_last();
        let c = b.last();
        lemma_measures_concat(a, b0);
        assert(a + b =~= (a + b0).push(c));
        lemma_measures_push(a + b0, c);
        lemma_measures_push(b0, c);
        assert(b0.push(c) =~= b);
        if c != '\n' && rows_of(b0) == 0 {
            assert((line_of(a) + b0).push(c) =~= line_of(a) + b);
        }
    }
}

/// A fragment without a newline is its own final line.
pub proof fn lemma_line_of_unbroken(s: Seq<char>)
    requires
        rows_of(s) == 0,
    ensures
        line_of(s) == s,
    decreases s.len(),
{
    if s.len() != 0 {
        lemma_line_of_unbroken(s.drop_last());
        assert(line_of(s.drop_last()).push(s.last()) =~= s);
    }
}

/// Bounds tying the measures together: every character takes at least one
/// byte, at most as many UTF-16 units as bytes, and the final line is no
/// longer than the whole fragment under either unit.
pub proof fn lemma_measure_bounds(s: Seq<char>)
    ensures
        rows_of(s) <= s.len(),
        s.len() <= len8_of(s),
        len16_of(s) <= len8_of(s),
        len8_of(line_of(s)) <= len8_of(s),
        len16_of(line_of(s)) <= len16_of(s),
    decreases s.len(),
{
    if s.len() != 0 {
        lemma_measure_bounds(s.drop_last());
        if s.last() != '\n' {
            lemma_measures_push(line_of(s.drop_last()), s.last());
        }
    }
}

} // verus!
