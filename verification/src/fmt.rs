//! Decimal formatting of coordinates for G-code words.
//!
//! A value is written with up to three decimal places, rounded half away
//! from zero, with trailing zeros and a trailing decimal point stripped:
//! `2.5` rather than `2.500`, `10` rather than `10.000`.

use crate::rat::{Rat, RatV};
use vstd::prelude::*;

verus! {

pub open spec fn digit_char(d: int) -> char {
    if d == 0 {
        '0'
    } else if d == 1 {
        '1'
    } else if d == 2 {
        '2'
    } else if d == 3 {
        '3'
    } else if d == 4 {
        '4'
    } else if d == 5 {
        '5'
    } else if d == 6 {
        '6'
    } else if d == 7 {
        '7'
    } else if d == 8 {
        '8'
    } else {
        '9'
    }
}

/// The decimal digits of `n`, most significant first.
pub open spec fn dec_str(n: nat) -> Seq<char>
    decreases n,
{
    if n < 10 {
        seq![digit_char(n as int)]
    } else {
        dec_str(n / 10) + seq![digit_char((n % 10) as int)]
    }
}

/// The value in thousandths, rounded half away from zero.
pub open spec fn round_millis(v: RatV) -> int
    recommends
        v.d >= 1,
{
    if v.n >= 0 {
        (2 * v.n * 1000 + v.d) / (2 * v.d)
    } else {
        -((2 * (-v.n) * 1000 + v.d) / (2 * v.d))
    }
}

/// The fractional part: empty when zero, else a point and one to three
/// digits with trailing zeros stripped.
pub open spec fn frac_str(f: int) -> Seq<char>
    recommends
        0 <= f < 1000,
{
    if f == 0 {
        Seq::<char>::empty()
    } else {
        let d1 = f / 100;
        let d2 = (f / 10) % 10;
        let d3 = f % 10;
        if d3 != 0 {
            seq!['.', digit_char(d1), digit_char(d2), digit_char(d3)]
        } else if d2 != 0 {
            seq!['.', digit_char(d1), digit_char(d2)]
        } else {
            seq!['.', digit_char(d1)]
        }
    }
}

/// The formatted text of a rational coordinate value.
#[verifier::opaque]
pub open spec fn fmt3(v: RatV) -> Seq<char>
    recommends
        v.d >= 1,
{
    let m = round_millis(v);
    let a = if m >= 0 {
        m
    } else {
        -m
    };
    let sign = if m < 0 {
        seq!['-']
    } else {
        Seq::<char>::empty()
    };
    sign + dec_str((a / 1000) as nat) + frac_str(a % 1000)
}

/// Relies on String::push: appends exactly one character.
#[verifier::external_body]
pub fn push_char(s: &mut String, c: char)
    ensures
        final (s)@ == old(s)@.push(c),
{
    s.push(c);
}

/// One decimal digit as a character.
fn digit(d: u128) -> (c: char)
    requires
        d < 10,
    ensures
        c == digit_char(d as int),
{
    if d == 0 {
        '0'
    } else if d == 1 {
        '1'
    } else if d == 2 {
        '2'
    } else if d == 3 {
        '3'
    } else if d == 4 {
        '4'
    } else if d == 5 {
        '5'
    } else if d == 6 {
        '6'
    } else if d == 7 {
        '7'
    } else if d == 8 {
        '8'
    } else {
        '9'
    }
}

/// Append the decimal digits of `n`.
pub fn push_digits(s: &mut String, n: u128)
    ensures
        final (s)@ == old(s)@ + dec_str(n as nat),
    decreases n,
{
    if n < 10 {
        let c = digit(n);
        push_char(s, c);
        proof {
            assert(s@ =~= old(s)@ + dec_str(n as nat));
        }
    } else {
        push_digits(s, n / 10);
        let c = digit(n % 10);
        push_char(s, c);
        proof {
            assert(s@ =~= old(s)@ + dec_str(n as nat));
        }
    }
}

/// Append the formatted text of `v`.
pub fn fmt3_into(s: &mut String, v: Rat)
    ensures
        final (s)@ == old(s)@ + fmt3(v@),
{
    proof {
        reveal(fmt3);
    }
    let n = v.num();
    let d = v.den();
    let a_in: u128 = if n >= 0 {
        n as u128
    } else {
        (-(n as i128)) as u128
    };
    let t: u128 = 2 * a_in * 1000 + (d as u128);
    let q: u128 = t / (2 * (d as u128));
    proof {
        if n >= 0 {
            assert(q as int == round_millis(v@));
        } else {
            assert(q as int == -round_millis(v@));
        }
    }
    let neg = n < 0 && q != 0;
    let whole = q / 1000;
    let frac = q % 1000;
    if neg {
        push_char(s, '-');
    }
    push_digits(s, whole);
    if frac != 0 {
        push_char(s, '.');
        let d1 = digit(frac / 100);
        let d2 = digit((frac / 10) % 10);
        let d3 = digit(frac % 10);
        push_char(s, d1);
        if frac % 10 != 0 {
            push_char(s, d2);
            push_char(s, d3);
            proof {
                assert(s@ =~= old(s)@ + fmt3(v@));
            }
        } else if (frac / 10) % 10 != 0 {
            push_char(s, d2);
            proof {
                assert(s@ =~= old(s)@ + fmt3(v@));
            }
        } else {
            proof {
                assert(s@ =~= old(s)@ + fmt3(v@));
            }
        }
    } else {
        proof {
            assert(s@ =~= old(s)@ + fmt3(v@));
        }
    }
}

} // verus!
