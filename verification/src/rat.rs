//! Exact rational numbers.
//!
//! Every non-integer magnitude in the language (unit conversion factors,
//! linspace steps, toolpath coordinates) is an exact rational kept in lowest
//! terms.  The specification level works with `RatV`, a pair of unbounded
//! integers; the executable `Rat` stores an `i64` numerator and a positive
//! `i64` denominator and reports an overflow instead of silently losing
//! precision when a normalized result leaves that range.

use vstd::arithmetic::div_mod::*;
use vstd::prelude::*;

verus! {

/// A rational value at the specification level: `n / d`.
pub struct RatV {
    pub n: int,
    pub d: int,
}

/// A well-formed spec rational has a positive denominator.
pub open spec fn rat_wf(v: RatV) -> bool {
    v.d >= 1
}

/// Two spec rationals denote the same value.
pub open spec fn rat_eqv(a: RatV, b: RatV) -> bool {
    a.n * b.d == b.n * a.d
}

pub open spec fn iabs(x: int) -> nat {
    if x >= 0 {
        x as nat
    } else {
        (-x) as nat
    }
}

/// Greatest common divisor, by Euclid's recurrence.
pub open spec fn gcd(a: nat, b: nat) -> nat
    decreases b,
{
    if b == 0 {
        a
    } else {
        gcd(b, a % b)
    }
}

/// `n / d` reduced by the greatest common divisor of `|n|` and `d`.
pub open spec fn norm(n: int, d: int) -> RatV
    recommends
        d >= 1,
{
    let g = gcd(iabs(n), d as nat) as int;
    RatV { n: n / g, d: d / g }
}

/// The normalized value fits the executable representation.
pub open spec fn rat_fits(v: RatV) -> bool {
    i64::MIN <= v.n <= i64::MAX && 1 <= v.d <= i64::MAX
}

pub open spec fn int_rat(i: int) -> RatV {
    RatV { n: i, d: 1 }
}

pub open spec fn rat_add(a: RatV, b: RatV) -> RatV {
    norm(a.n * b.d + b.n * a.d, a.d * b.d)
}

pub open spec fn rat_sub(a: RatV, b: RatV) -> RatV {
    norm(a.n * b.d - b.n * a.d, a.d * b.d)
}

pub open spec fn rat_mul(a: RatV, b: RatV) -> RatV {
    norm(a.n * b.n, a.d * b.d)
}

/// Division; the divisor's sign moves into the numerator so the result's
/// denominator stays positive.
pub open spec fn rat_div(a: RatV, b: RatV) -> RatV
    recommends
        b.n != 0,
{
    if b.n >= 0 {
        norm(a.n * b.d, a.d * b.n)
    } else {
        norm(-(a.n * b.d), -(a.d * b.n))
    }
}

/// Multiply by the integer fraction `num / den` (both positive).
pub open spec fn rat_scale(a: RatV, num: int, den: int) -> RatV {
    norm(a.n * num, a.d * den)
}

pub open spec fn rat_neg(a: RatV) -> RatV {
    RatV { n: -a.n, d: a.d }
}

pub open spec fn rat_le(a: RatV, b: RatV) -> bool {
    a.n * b.d <= b.n * a.d
}

pub open spec fn rat_lt(a: RatV, b: RatV) -> bool {
    a.n * b.d < b.n * a.d
}

/// The least integer at or above `n / d`, written over nonnegative
/// divisions only.
pub open spec fn rat_ceil(v: RatV) -> int
    recommends
        v.d >= 1,
{
    if v.n > 0 {
        (v.n - 1) / v.d + 1
    } else {
        -((-v.n) / v.d)
    }
}

/// The greatest integer at or below `n / d`, written over nonnegative
/// divisions only.
pub open spec fn rat_floor(v: RatV) -> int
    recommends
        v.d >= 1,
{
    if v.n >= 0 {
        v.n / v.d
    } else {
        -((-v.n + v.d - 1) / v.d)
    }
}

/// `x % f == 0`; used only with `f >= 1`.
pub open spec fn divides(f: nat, x: nat) -> bool {
    x as int % (f as int) == 0
}

/// The gcd of two naturals, the second positive, is positive and divides both.
pub proof fn lemma_gcd_divides(a: nat, b: nat)
    requires
        b >= 1,
    ensures
        gcd(a, b) >= 1,
        divides(gcd(a, b), a),
        divides(gcd(a, b), b),
    decreases b,
{
    let r = a % b;
    lemma_mod_division_less_than_divisor(a as int, b as int);
    lemma_remainder_lower(a as int, b as int);
    if r == 0 {
        // gcd(a, b) == gcd(b, 0) == b
        assert(gcd(a, b) == gcd(b, 0));
        lemma_mod_self_0(b as int);
    } else {
        lemma_gcd_divides(b, r);
        let g = gcd(b, r);
        assert(gcd(a, b) == g);
        // a == (a / b) * b + r, g | b and g | r, hence g | a.
        lemma_fundamental_div_mod(a as int, b as int);
        let q = a as int / b as int;
        lemma_fundamental_div_mod(b as int, g as int);
        lemma_fundamental_div_mod(r as int, g as int);
        let kb = b as int / g as int;
        let kr = r as int / g as int;
        assert(b as int == g * kb);
        assert(r as int == g * kr);
        assert(a as int == (q * kb + kr) * g) by (nonlinear_arith)
            requires
                a as int == (b as int) * q + r,
                b as int == g * kb,
                r as int == g * kr,
        ;
        lemma_mod_multiples_basic(q * kb + kr, g as int);
    }
}

/// What normalization preserves: well-formedness, the denoted value, the
/// exact-division decomposition, and bounds on both components.
pub proof fn lemma_norm(n: int, d: int)
    requires
        d >= 1,
    ensures
        rat_wf(norm(n, d)),
        rat_eqv(norm(n, d), RatV { n, d }),
        norm(n, d).n * gcd(iabs(n), d as nat) == n,
        norm(n, d).d * gcd(iabs(n), d as nat) == d,
        iabs(norm(n, d).n) <= iabs(n),
        1 <= norm(n, d).d <= d,
        norm(n, d).n == 0 <==> n == 0,
        n >= 0 <==> norm(n, d).n >= 0,
{
    lemma_gcd_divides(iabs(n), d as nat);
    let g = gcd(iabs(n), d as nat) as int;
    // g divides |n| exactly, hence g divides n exactly.
    lemma_fundamental_div_mod(iabs(n) as int, g);
    let qa = iabs(n) as int / g;
    assert(iabs(n) as int == g * qa);
    lemma_div_pos_is_pos(iabs(n) as int, g);
    if n >= 0 {
        assert(n == qa * g) by (nonlinear_arith)
            requires
                iabs(n) as int == g * qa,
                n >= 0,
                iabs(n) == n,
        ;
        lemma_fundamental_div_mod_converse(n, g, qa, 0);
        assert(norm(n, d).n == qa);
    } else {
        assert(n == (-qa) * g) by (nonlinear_arith)
            requires
                iabs(n) as int == g * qa,
                n < 0,
                iabs(n) as int == -n,
        ;
        lemma_fundamental_div_mod_converse(n, g, -qa, 0);
        assert(norm(n, d).n == -qa);
    }
    let rn = norm(n, d).n;
    assert(rn * g == n) by (nonlinear_arith)
        requires
            (n >= 0 ==> rn == qa) && (n < 0 ==> rn == -qa),
            iabs(n) as int == g * qa,
            (n >= 0 ==> iabs(n) == n) && (n < 0 ==> iabs(n) as int == -n),
    ;
    // g divides d exactly.
    lemma_fundamental_div_mod(d, g);
    let qd = d / g;
    assert(d == g * qd);
    assert(d == qd * g) by (nonlinear_arith)
        requires
            d == g * qd,
    ;
    lemma_fundamental_div_mod_converse(d, g, qd, 0);
    let rd = norm(n, d).d;
    assert(rd == qd);
    assert(rd * g == d) by (nonlinear_arith)
        requires
            rd == qd,
            d == g * qd,
    ;
    // Denominator bounds: 1 <= d/g <= d.
    assert(rd >= 1) by (nonlinear_arith)
        requires
            rd * g == d,
            d >= 1,
            g >= 1,
    ;
    assert(rd <= d) by (nonlinear_arith)
        requires
            rd * g == d,
            rd >= 1,
            g >= 1,
    ;
    // Numerator bound: |n/g| <= |n|.
    assert(iabs(rn) <= iabs(n)) by (nonlinear_arith)
        requires
            rn * g == n,
            g >= 1,
    ;
    // The denoted value is unchanged: (n/g) * d == n * (d/g).
    assert(rn * d == n * rd) by (nonlinear_arith)
        requires
            rn * g == n,
            rd * g == d,
    ;
    assert(rn == 0 <==> n == 0) by (nonlinear_arith)
        requires
            rn * g == n,
            g >= 1,
    ;
    assert(n >= 0 <==> rn >= 0) by (nonlinear_arith)
        requires
            rn * g == n,
            g >= 1,
    ;
}

/// A numerator (any `i64`) times a denominator (a positive `i64`) stays
/// well inside `i128`.
proof fn lemma_num_den_bound(a: int, b: int)
    requires
        i64::MIN <= a <= i64::MAX,
        1 <= b <= i64::MAX,
    ensures
        -0x3fffffffffffffff8000000000000000 <= a * b <= 0x3fffffffffffffff8000000000000000,
{
    assert(-0x3fffffffffffffff8000000000000000 <= a * b
        <= 0x3fffffffffffffff8000000000000000) by (nonlinear_arith)
        requires
            -0x8000000000000000 <= a <= 0x7fffffffffffffff,
            1 <= b <= 0x7fffffffffffffff,
    ;
}

/// A product of two positive `i64` denominators stays inside `i128`.
proof fn lemma_den_den_bound(a: int, b: int)
    requires
        1 <= a <= i64::MAX,
        1 <= b <= i64::MAX,
    ensures
        1 <= a * b <= 0x3fffffffffffffff0000000000000001,
{
    assert(1 <= a * b <= 0x3fffffffffffffff0000000000000001) by (nonlinear_arith)
        requires
            1 <= a <= 0x7fffffffffffffff,
            1 <= b <= 0x7fffffffffffffff,
    ;
}

/// A product of two `i64` numerators stays inside `i128`.
proof fn lemma_num_num_bound(a: int, b: int)
    requires
        i64::MIN <= a <= i64::MAX,
        i64::MIN <= b <= i64::MAX,
    ensures
        -0x40000000000000000000000000000000 <= a * b <= 0x40000000000000000000000000000000,
{
    assert(-0x40000000000000000000000000000000 <= a * b
        <= 0x40000000000000000000000000000000) by (nonlinear_arith)
        requires
            -0x8000000000000000 <= a <= 0x7fffffffffffffff,
            -0x8000000000000000 <= b <= 0x7fffffffffffffff,
    ;
}

/// An exact rational: numerator `n`, positive denominator `d`, in lowest
/// terms up to the normalization performed by every constructor.
#[derive(Clone, Copy, Debug)]
pub struct Rat {
    n: i64,
    d: i64,
}

impl View for Rat {
    type V = RatV;

    closed spec fn view(&self) -> RatV {
        RatV { n: self.n as int, d: self.d as int }
    }
}

#[verifier::type_invariant]
pub open spec fn rat_inv(r: Rat) -> bool {
    rat_fits(r@)
}

/// Euclid's algorithm.
fn gcd_u128(a0: u128, b0: u128) -> (g: u128)
    ensures
        g as nat == gcd(a0 as nat, b0 as nat),
{
    let mut a = a0;
    let mut b = b0;
    while b != 0
        invariant
            gcd(a as nat, b as nat) == gcd(a0 as nat, b0 as nat),
        decreases b,
    {
        let t = a % b;
        proof {
            lemma_mod_division_less_than_divisor(a as int, b as int);
            lemma_remainder_lower(a as int, b as int);
            assert(gcd(a as nat, b as nat) == gcd(b as nat, t as nat));
        }
        a = b;
        b = t;
    }
    a
}

impl Rat {
    /// Build the normalized form of `n / d`, or report that it does not fit.
    ///
    /// This is the single constructor every arithmetic operation funnels
    /// through.
    pub fn make(n: i128, d: i128) -> (r: Option<Rat>)
        requires
            1 <= d,
            i128::MIN < n,
        ensures
            match r {
                Some(q) => q@ == norm(n as int, d as int) && rat_fits(norm(n as int, d as int)),
                None => !rat_fits(norm(n as int, d as int)),
            },
    {
        proof {
            lemma_norm(n as int, d as int);
        }
        let neg = n < 0;
        let na: u128 = if n >= 0 {
            n as u128
        } else {
            (-n) as u128
        };
        let da: u128 = d as u128;
        let g = gcd_u128(na, da);
        proof {
            assert(na as nat == iabs(n as int));
            lemma_gcd_divides(na as nat, da as nat);
        }
        let rn_abs = na / g;
        let rd = da / g;
        proof {
            let gi = g as int;
            let v = norm(n as int, d as int);
            // rn_abs == |n| / g == |v.n|, rd == d / g == v.d.
            assert(rn_abs as int == iabs(n as int) as int / gi);
            assert(rd as int == d as int / gi);
            assert(v.d == rd as int);
            // |v.n| == |n|/g: v.n * g == n and sign of v.n matches n.
            assert(iabs(v.n) as int * gi == iabs(n as int) as int) by (nonlinear_arith)
                requires
                    v.n * gi == n as int,
                    gi >= 1,
            ;
            lemma_fundamental_div_mod_converse(
                iabs(n as int) as int,
                gi,
                iabs(v.n) as int,
                0,
            );
            assert(iabs(v.n) as int == rn_abs as int);
        }
        if rd <= i64::MAX as u128 {
            if !neg && rn_abs <= i64::MAX as u128 {
                Some(Rat { n: rn_abs as i64, d: rd as i64 })
            } else if neg && rn_abs <= 9223372036854775808u128 {
                let ni: i128 = -(rn_abs as i128);
                Some(Rat { n: ni as i64, d: rd as i64 })
            } else {
                None
            }
        } else {
            None
        }
    }

    /// A rational from a numerator and denominator already in lowest terms.
    pub fn from_reduced(n: i64, d: i64) -> (r: Rat)
        requires
            1 <= d,
            gcd(iabs(n as int), d as nat) == 1,
        ensures
            r@ == (RatV { n: n as int, d: d as int }),
    {
        Rat { n, d }
    }

    /// The rational `i / 1`.
    pub fn from_int(i: i64) -> (r: Rat)
        ensures
            r@ == int_rat(i as int),
    {
        proof {
            lemma_norm(i as int, 1);
            let g = gcd(iabs(i as int), 1) as int;
            // norm(i, 1) is (i, 1) itself: the gcd divides 1.
            assert(norm(i as int, 1).d * g == 1);
            assert(g == 1 && norm(i as int, 1).d == 1) by (nonlinear_arith)
                requires
                    norm(i as int, 1).d * g == 1,
                    g >= 1,
                    norm(i as int, 1).d >= 1,
            ;
            assert(norm(i as int, 1).n == i as int);
        }
        Rat { n: i, d: 1 }
    }

    pub fn num(&self) -> (r: i64)
        ensures
            r as int == self@.n,
    {
        self.n
    }

    pub fn den(&self) -> (r: i64)
        ensures
            r as int == self@.d,
            1 <= r,
    {
        proof {
            use_type_invariant(self);
        }
        self.d
    }

    pub fn zero() -> (r: Rat)
        ensures
            r@ == int_rat(0),
    {
        Rat::from_int(0)
    }

    pub fn is_zero(&self) -> (r: bool)
        ensures
            r == (self@.n == 0),
    {
        self.n == 0
    }

    /// Exact sum, or `None` when the normalized sum leaves `i64` range.
    pub fn add(self, other: Rat) -> (r: Option<Rat>)
        ensures
            match r {
                Some(q) => q@ == rat_add(self@, other@) && rat_fits(rat_add(self@, other@)),
                None => !rat_fits(rat_add(self@, other@)),
            },
    {
        proof {
            use_type_invariant(self);
            use_type_invariant(other);
            lemma_num_den_bound(self.n as int, other.d as int);
            lemma_num_den_bound(other.n as int, self.d as int);
            lemma_den_den_bound(self.d as int, other.d as int);
        }
        let rn = (self.n as i128) * (other.d as i128) + (other.n as i128) * (self.d as i128);
        let rd = (self.d as i128) * (other.d as i128);
        Rat::make(rn, rd)
    }

    /// Exact difference, or `None` when it leaves `i64` range.
    pub fn sub(self, other: Rat) -> (r: Option<Rat>)
        ensures
            match r {
                Some(q) => q@ == rat_sub(self@, other@) && rat_fits(rat_sub(self@, other@)),
                None => !rat_fits(rat_sub(self@, other@)),
            },
    {
        proof {
            use_type_invariant(self);
            use_type_invariant(other);
            lemma_num_den_bound(self.n as int, other.d as int);
            lemma_num_den_bound(other.n as int, self.d as int);
            lemma_den_den_bound(self.d as int, other.d as int);
        }
        let rn = (self.n as i128) * (other.d as i128) - (other.n as i128) * (self.d as i128);
        let rd = (self.d as i128) * (other.d as i128);
        Rat::make(rn, rd)
    }

    /// Exact product, or `None` when it leaves `i64` range.
    pub fn mul(self, other: Rat) -> (r: Option<Rat>)
        ensures
            match r {
                Some(q) => q@ == rat_mul(self@, other@) && rat_fits(rat_mul(self@, other@)),
                None => !rat_fits(rat_mul(self@, other@)),
            },
    {
        proof {
            use_type_invariant(self);
            use_type_invariant(other);
            lemma_num_num_bound(self.n as int, other.n as int);
            lemma_den_den_bound(self.d as int, other.d as int);
        }
        let rn = (self.n as i128) * (other.n as i128);
        let rd = (self.d as i128) * (other.d as i128);
        Rat::make(rn, rd)
    }

    /// Exact quotient by a nonzero divisor, or `None` when it leaves `i64`
    /// range.
    pub fn div(self, other: Rat) -> (r: Option<Rat>)
        requires
            other@.n != 0,
        ensures
            match r {
                Some(q) => q@ == rat_div(self@, other@) && rat_fits(rat_div(self@, other@)),
                None => !rat_fits(rat_div(self@, other@)),
            },
    {
        proof {
            use_type_invariant(self);
            use_type_invariant(other);
            let n1 = self.n as int;
            let d1 = self.d as int;
            let n2 = other.n as int;
            let d2 = other.d as int;
            assert((-0x40000000000000000000000000000000 <= n1 * d2
                <= 0x40000000000000000000000000000000) && (n2 >= 1 ==> 1 <= d1 * n2
                <= 0x40000000000000000000000000000000) && (n2 <= -1 ==> -0x40000000000000000000000000000000
                <= d1 * n2 <= -1)) by (nonlinear_arith)
                requires
                    -0x8000000000000000 <= n1 <= 0x7fffffffffffffff,
                    1 <= d1 <= 0x7fffffffffffffff,
                    -0x8000000000000000 <= n2 <= 0x7fffffffffffffff,
                    1 <= d2 <= 0x7fffffffffffffff,
            ;
        }
        let rn = (self.n as i128) * (other.d as i128);
        let rd = (self.d as i128) * (other.n as i128);
        if other.n >= 0 {
            Rat::make(rn, rd)
        } else {
            Rat::make(-rn, -rd)
        }
    }

    /// Exact multiplication by the integer fraction `num / den`, or `None`
    /// when the result leaves `i64` range.
    pub fn mul_frac(self, num: i64, den: i64) -> (r: Option<Rat>)
        requires
            1 <= num,
            1 <= den,
        ensures
            match r {
                Some(q) => q@ == rat_scale(self@, num as int, den as int) && rat_fits(
                    rat_scale(self@, num as int, den as int),
                ),
                None => !rat_fits(rat_scale(self@, num as int, den as int)),
            },
    {
        proof {
            use_type_invariant(self);
            lemma_num_den_bound(self.n as int, num as int);
            lemma_den_den_bound(self.d as int, den as int);
        }
        let rn = (self.n as i128) * (num as i128);
        let rd = (self.d as i128) * (den as i128);
        Rat::make(rn, rd)
    }

    /// Exact negation, or `None` for the one unrepresentable numerator.
    pub fn neg(self) -> (r: Option<Rat>)
        ensures
            match r {
                Some(q) => q@ == rat_neg(self@) && self@.n > i64::MIN,
                None => self@.n == i64::MIN,
            },
    {
        proof {
            use_type_invariant(self);
        }
        if self.n > i64::MIN {
            Some(Rat { n: -self.n, d: self.d })
        } else {
            None
        }
    }

    /// The ceiling, which always fits `i64`.
    pub fn ceil_i64(&self) -> (r: i64)
        ensures
            r as int == rat_ceil(self@),
    {
        proof {
            use_type_invariant(self);
        }
        let d = self.d as u128;
        if self.n > 0 {
            let a = (self.n - 1) as u128;
            let q = a / d;
            proof {
                lemma_div_nonincreasing(a as int, d as int);
                lemma_div_pos_is_pos(a as int, d as int);
            }
            (q as i64) + 1
        } else {
            let a = (-(self.n as i128)) as u128;
            let q = a / d;
            proof {
                lemma_div_nonincreasing(a as int, d as int);
                lemma_div_pos_is_pos(a as int, d as int);
            }
            -(q as i128) as i64
        }
    }

    /// The floor, which always fits `i64`.
    pub fn floor_i64(&self) -> (r: i64)
        ensures
            r as int == rat_floor(self@),
    {
        proof {
            use_type_invariant(self);
        }
        let d = self.d as u128;
        if self.n >= 0 {
            let a = self.n as u128;
            let q = a / d;
            proof {
                lemma_div_nonincreasing(a as int, d as int);
                lemma_div_pos_is_pos(a as int, d as int);
            }
            q as i64
        } else {
            let a = (-(self.n as i128)) as u128;
            let t = a + d - 1;
            let q = t / d;
            proof {
                // ceil(a/d) <= a for a >= 1: (d*a + (d-1)) / d == a.
                lemma_div_pos_is_pos(t as int, d as int);
                lemma_basic_div_specific_divisor(d as int);
                assert((d - 1) as int / d as int == 0);
                lemma_div_multiples_vanish_fancy(a as int, (d - 1) as int, d as int);
                assert((d as int * a as int + (d - 1)) / d as int == a as int);
                assert(t as int <= d as int * a as int + (d - 1)) by (nonlinear_arith)
                    requires
                        1 <= a as int,
                        1 <= d as int,
                        t as int == a as int + d as int - 1,
                ;
                lemma_div_is_ordered(t as int, d as int * a as int + (d - 1), d as int);
            }
            -(q as i128) as i64
        }
    }

    pub fn le(&self, other: &Rat) -> (r: bool)
        ensures
            r == rat_le(self@, other@),
    {
        proof {
            use_type_invariant(self);
            use_type_invariant(other);
            lemma_num_den_bound(self.n as int, other.d as int);
            lemma_num_den_bound(other.n as int, self.d as int);
        }
        (self.n as i128) * (other.d as i128) <= (other.n as i128) * (self.d as i128)
    }

    pub fn lt(&self, other: &Rat) -> (r: bool)
        ensures
            r == rat_lt(self@, other@),
    {
        proof {
            use_type_invariant(self);
            use_type_invariant(other);
            lemma_num_den_bound(self.n as int, other.d as int);
            lemma_num_den_bound(other.n as int, self.d as int);
        }
        (self.n as i128) * (other.d as i128) < (other.n as i128) * (self.d as i128)
    }

    /// Exact value equality (not representation equality).
    pub fn eq_val(&self, other: &Rat) -> (r: bool)
        ensures
            r == rat_eqv(self@, other@),
    {
        proof {
            use_type_invariant(self);
            use_type_invariant(other);
            lemma_num_den_bound(self.n as int, other.d as int);
            lemma_num_den_bound(other.n as int, self.d as int);
        }
        (self.n as i128) * (other.d as i128) == (other.n as i128) * (self.d as i128)
    }
}

} // verus!
