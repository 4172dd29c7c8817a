//! Verified textual rendering of positions and ranges.
//!
//! Verus gives no way to implement `core::fmt::Display`, so the position and
//! range types expose methods that return a `String` instead. The spec
//! functions here define the decimal notation those methods must produce:
//! `dec_digits` is ordinary base-ten notation without a sign or leading
//! zeros, and the exec functions build it digit by digit.

use vstd::prelude::*;
use vstd::string::StringExecFns;

verus! {

/// The digit character for a value below ten.
pub open spec fn digit_char(d: nat) -> char {
    if d == 0 {
        '0'
    } else if d == 1 {
        '1'
    } else if d == 2 {
        '2'
    } else if d == 3 {
        '3'
    } else if d == 4 {
        '4'
    } else if d == 5 {
        '5'
    } else if d == 6 {
        '6'
    } else if d == 7 {
        '7'
    } else if d == 8 {
        '8'
    } else {
        '9'
    }
}

/// Base-ten notation of `n`: most significant digit first, no leading zeros.
pub open spec fn dec_digits(n: nat) -> Seq<char>
    decreases n,
{
    if n < 10 {
        seq![digit_char(n)]
    } else {
        dec_digits(n / 10).push(digit_char(n % 10))
    }
}

fn digit_str(d: u32) -> (r: &'static str)
    requires
        d < 10,
    ensures
        r@ == seq![digit_char(d as nat)],
{
    proof {
        reveal_strlit("0");
        reveal_strlit("1");
        reveal_strlit("2");
        reveal_strlit("3");
        reveal_strlit("4");
        reveal_strlit("5");
        reveal_strlit("6");
        reveal_strlit("7");
        reveal_strlit("8");
        reveal_strlit("9");
    }
    let r = if d == 0 {
        "0"
    } else if d == 1 {
        "1"
    } else if d == 2 {
        "2"
    } else if d == 3 {
        "3"
    } else if d == 4 {
        "4"
    } else if d == 5 {
        "5"
    } else if d == 6 {
        "6"
    } else if d == 7 {
        "7"
    } else if d == 8 {
        "8"
    } else {
        "9"
    };
    proof {
        assert(r@ =~= seq![digit_char(d as nat)]);
    }
    r
}

/// Renders `n` in base ten.
pub fn decimal_string(n: u32) -> (r: String)
    ensures
        r@ == dec_digits(n as nat),
    decreases n,
{
    if n < 10 {
        digit_str(n).to_owned()
    } else {
        let mut s = decimal_string(n / 10);
        s.append(digit_str(n % 10));
        proof {
            assert(dec_digits((n / 10) as nat) + seq![digit_char((n % 10) as nat)] =~= dec_digits(
                (n / 10) as nat,
            ).push(digit_char((n % 10) as nat)));
        }
        s
    }
}

/// Notation for a one-based `row:column` point, as a diagnostic line prints it.
pub open spec fn point_text(row: nat, col: nat) -> Seq<char> {
    dec_digits(row + 1) + seq![':'] + dec_digits(col + 1)
}

/// Renders a zero-based row and column pair as one-based `row:column`.
pub fn point_string(row: u32, col: u32) -> (r: String)
    requires
        row < u32::MAX,
        col < u32::MAX,
    ensures
        r@ == point_text(row as nat, col as nat),
{
    proof {
        reveal_strlit(":");
    }
    let mut s = decimal_string(row + 1);
    s.append(":");
    let t = decimal_string(col + 1);
    s.append(t.as_str());
    proof {
        assert(s@ =~= point_text(row as nat, col as nat));
    }
    s
}

/// Notation for a range of one-based points, `row.col-row.col`, the GNU
/// convention for a span in compiler diagnostics.
pub open spec fn gnu_range_text(start_row: nat, start_col: nat, end_row: nat, end_col: nat) -> Seq<
    char,
> {
    dec_digits(start_row + 1) + seq!['.'] + dec_digits(start_col + 1) + seq!['-'] + dec_digits(
        end_row + 1,
    ) + seq!['.'] + dec_digits(end_col + 1)
}

/// Renders a zero-based span as the one-based GNU `row.col-row.col` form.
pub fn gnu_range_string(start_row: u32, start_col: u32, end_row: u32, end_col: u32) -> (r: String)
    requires
        start_row < u32::MAX,
        start_col < u32::MAX,
        end_row < u32::MAX,
        end_col < u32::MAX,
    ensures
        r@ == gnu_range_text(start_row as nat, start_col as nat, end_row as nat, end_col as nat),
{
    proof {
        reveal_strlit(".");
        reveal_strlit("-");
    }
    let mut s = decimal_string(start_row + 1);
    s.append(".");
    let t = decimal_string(start_col + 1);
    s.append(t.as_str());
    s.append("-");
    let t = decimal_string(end_row + 1);
    s.append(t.as_str());
    s.append(".");
    let t = decimal_string(end_col + 1);
    s.append(t.as_str());
    proof {
        assert(s@ =~= gnu_range_text(
            start_row as nat,
            start_col as nat,
            end_row as nat,
            end_col as nat,
        ));
    }
    s
}

} // verus!
