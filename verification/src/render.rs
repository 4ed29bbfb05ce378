//! Canonical decimal rendering of a micro-unit coordinate.
//!
//! A value is rounded to hundredths with round-half-to-even (banker's
//! rounding) and printed with trailing zeros dropped: an integer prints
//! with no decimal point, a value whose hundredths digit is zero prints
//! with one decimal, anything else with two.

use vstd::prelude::*;

use crate::arith::{floor_div, floor_rem, lemma_div_range};

verus! {

/// Micro-units per hundredth of a unit: the grain the output keeps.
pub const MICRO_PER_HUNDREDTH: i64 = 10_000;

/// Round `n / d` to the nearest integer, ties to the even neighbour.
pub open spec fn round_half_even(n: int, d: int) -> int {
    let q = n / d;
    let r = n % d;
    if 2 * r < d {
        q
    } else if 2 * r > d {
        q + 1
    } else if q % 2 == 0 {
        q
    } else {
        q + 1
    }
}

/// An exact tie never rounds to an odd neighbour.
pub proof fn lemma_tie_rounds_to_even(n: int, d: int)
    requires
        2 * (n % d) == d,
    ensures
        round_half_even(n, d) % 2 == 0,
{
}

/// The decimal digit character for `d` (meaningful for `0 <= d <= 9`).
pub open spec fn digit_char(d: int) -> char {
    if d == 0 {
        '0'
    } else if d == 1 {
        '1'
    } else if d == 2 {
        '2'
    } else if d == 3 {
        '3'
    } else if d == 4 {
        '4'
    } else if d == 5 {
        '5'
    } else if d == 6 {
        '6'
    } else if d == 7 {
        '7'
    } else if d == 8 {
        '8'
    } else {
        '9'
    }
}

/// The decimal digits of `n`, most significant first.
pub open spec fn dec_digits(n: nat) -> Seq<char>
    decreases n,
{
    if n < 10 {
        seq![digit_char(n as int)]
    } else {
        dec_digits(n / 10).push(digit_char((n % 10) as int))
    }
}

/// The canonical text of the micro-unit value `n`: an optional minus
/// sign, the whole units, and at most two decimals with trailing zeros
/// dropped.
pub open spec fn rendered(n: int) -> Seq<char> {
    let h = round_half_even(n, MICRO_PER_HUNDREDTH as int);
    let m = if h < 0 {
        -h
    } else {
        h
    };
    let sign: Seq<char> = if h < 0 {
        seq!['-']
    } else {
        Seq::empty()
    };
    let f = m % 100;
    let frac: Seq<char> = if f == 0 {
        Seq::empty()
    } else if f % 10 == 0 {
        seq!['.', digit_char(f / 10)]
    } else {
        seq!['.', digit_char(f / 10), digit_char(f % 10)]
    };
    sign + dec_digits((m / 100) as nat) + frac
}

/// The character for one digit.
fn digit_str(d: u64) -> (r: &'static str)
    requires
        d < 10,
    ensures
        r@ == seq![digit_char(d as int)],
{
    proof {
        reveal_strlit("0");
        reveal_strlit("1");
        reveal_strlit("2");
        reveal_strlit("3");
        reveal_strlit("4");
        reveal_strlit("5");
        reveal_strlit("6");
        reveal_strlit("7");
        reveal_strlit("8");
        reveal_strlit("9");
        assert("0"@ =~= seq![digit_char(0)]);
        assert("1"@ =~= seq![digit_char(1)]);
        assert("2"@ =~= seq![digit_char(2)]);
        assert("3"@ =~= seq![digit_char(3)]);
        assert("4"@ =~= seq![digit_char(4)]);
        assert("5"@ =~= seq![digit_char(5)]);
        assert("6"@ =~= seq![digit_char(6)]);
        assert("7"@ =~= seq![digit_char(7)]);
        assert("8"@ =~= seq![digit_char(8)]);
        assert("9"@ =~= seq![digit_char(9)]);
    }
    if d == 0 {
        "0"
    } else if d == 1 {
        "1"
    } else if d == 2 {
        "2"
    } else if d == 3 {
        "3"
    } else if d == 4 {
        "4"
    } else if d == 5 {
        "5"
    } else if d == 6 {
        "6"
    } else if d == 7 {
        "7"
    } else if d == 8 {
        "8"
    } else {
        "9"
    }
}

/// Appends the decimal digits of `n`, most significant first.
fn push_digits(s: &mut String, n: u64)
    ensures
        final(s)@ == old(s)@ + dec_digits(n as nat),
    decreases n,
{
    if n >= 10 {
        push_digits(s, n / 10);
    }
    let d = digit_str(n % 10);
    s.append(d);
    proof {
        if n < 10 {
            assert(final(s)@ =~= old(s)@ + dec_digits(n as nat));
        } else {
            assert(final(s)@ =~= old(s)@ + dec_digits(n as nat));
        }
    }
}

/// Output formatter: the canonical decimal text of a micro-unit value,
/// exactly as the model `rendered` states it.
pub fn format_output(n: i64) -> (s: String)
    ensures
        s@ == rendered(n as int),
{
    proof {
        assert(-(0x1000_0000_0000_0000int) * 10_000int <= n as int <= 0x1000_0000_0000_0000int
            * 10_000int) by (nonlinear_arith)
            requires
                i64::MIN as int <= n as int <= i64::MAX as int,
        {
        }
        lemma_div_range(n as int, MICRO_PER_HUNDREDTH as int, 0x1000_0000_0000_0000int);
    }
    let q: i128 = floor_div(n as i128, MICRO_PER_HUNDREDTH as i128);
    let r: i128 = floor_rem(n as i128, MICRO_PER_HUNDREDTH as i128);
    let h: i128 = if 2 * r < (MICRO_PER_HUNDREDTH as i128) {
        q
    } else if 2 * r > (MICRO_PER_HUNDREDTH as i128) {
        q + 1
    } else if floor_rem(q, 2) == 0 {
        q
    } else {
        q + 1
    };
    proof {
        assert(h == round_half_even(n as int, MICRO_PER_HUNDREDTH as int));
    }
    let m: u64 = if h < 0 {
        (-h) as u64
    } else {
        h as u64
    };
    let whole: u64 = m / 100;
    let f: u64 = m % 100;
    let mut s = String::new();
    proof {
        reveal_strlit("-");
        reveal_strlit(".");
    }
    if h < 0 {
        s.append("-");
    }
    push_digits(&mut s, whole);
    if f != 0 {
        s.append(".");
        let tenths = digit_str(f / 10);
        s.append(tenths);
        if f % 10 != 0 {
            let hundredths = digit_str(f % 10);
            s.append(hundredths);
        }
    }
    proof {
        assert(s@ =~= rendered(n as int));
    }
    s
}

} // verus!
