//! Unit-aware numbers.
//!
//! A `Number` is a magnitude (an integer or an exact rational) tagged with an
//! optional physical unit.  All conversions go through millimeters as the
//! common base; every factor is an integer number of tenths of a millimeter,
//! so conversion is exact.  A unitless value acts as a wildcard in
//! unit-reconciling arithmetic: the destination unit of a binary operation is
//! the left operand's unit unless the left operand is unitless, in which case
//! it is the right operand's.

use crate::err::{ErrorKind, GcadError};
use crate::rat::{int_rat, rat_add, rat_div, rat_fits, rat_mul, rat_scale, rat_sub, Rat, RatV};
use vstd::prelude::*;

verus! {

/// A physical length unit, or `Unitless` for a bare scalar.
#[derive(Clone, Copy, PartialEq, Eq, Structural, Debug)]
pub enum Unit {
    MM,
    CM,
    M,
    FT,
    IN,
    YD,
    Unitless,
}

/// Conversion factor to millimeters, in tenths of a millimeter, so that
/// every factor (including 25.4 mm per inch) is an integer.
pub open spec fn factor10(u: Unit) -> int {
    match u {
        Unit::MM => 10,
        Unit::CM => 100,
        Unit::M => 10000,
        Unit::IN => 254,
        Unit::FT => 3048,
        Unit::YD => 9144,
        Unit::Unitless => 10,
    }
}

impl Unit {
    /// The conversion factor of `factor10`, as an executable value.
    pub fn factor(self) -> (f: i64)
        ensures
            f as int == factor10(self),
            1 <= f,
    {
        match self {
            Unit::MM => 10,
            Unit::CM => 100,
            Unit::M => 10000,
            Unit::IN => 254,
            Unit::FT => 3048,
            Unit::YD => 9144,
            Unit::Unitless => 10,
        }
    }
}

/// A magnitude at the specification level.
pub enum MagV {
    Int(int),
    Rat(RatV),
}

/// Every magnitude denotes a rational.
pub open spec fn mag_ratv(m: MagV) -> RatV {
    match m {
        MagV::Int(i) => int_rat(i),
        MagV::Rat(v) => v,
    }
}

/// A number at the specification level.
pub struct NumberV {
    pub mag: MagV,
    pub unit: Unit,
}

/// The magnitude of a number: an `i64` or an exact rational.
#[derive(Clone, Copy, Debug)]
pub enum InnerValue {
    Integer(i64),
    Rational(Rat),
}

impl View for InnerValue {
    type V = MagV;

    open spec fn view(&self) -> MagV {
        match *self {
            InnerValue::Integer(i) => MagV::Int(i as int),
            InnerValue::Rational(r) => MagV::Rat(r@),
        }
    }
}

/// A magnitude tagged with an optional unit.
#[derive(Clone, Copy, Debug)]
pub struct Number {
    pub value: InnerValue,
    pub unit: Unit,
}

impl View for Number {
    type V = NumberV;

    open spec fn view(&self) -> NumberV {
        NumberV { mag: self.value@, unit: self.unit }
    }
}

/// Conversion between these units keeps the magnitude untouched.
pub open spec fn conv_identity(from: Unit, to: Unit) -> bool {
    from == Unit::Unitless || to == Unit::Unitless || from == to
}

/// The magnitude after conversion: `m * factor(from) / factor(to)`,
/// expressed through the millimeter base.
pub open spec fn conv_mag(m: MagV, from: Unit, to: Unit) -> MagV {
    if conv_identity(from, to) {
        m
    } else {
        MagV::Rat(rat_scale(mag_ratv(m), factor10(from), factor10(to)))
    }
}

/// The converted magnitude is representable.
pub open spec fn conv_ok(m: MagV, from: Unit, to: Unit) -> bool {
    conv_identity(from, to) || rat_fits(rat_scale(mag_ratv(m), factor10(from), factor10(to)))
}

pub open spec fn spec_convert(v: NumberV, to: Unit) -> NumberV {
    NumberV { mag: conv_mag(v.mag, v.unit, to), unit: to }
}

/// The value of a number expressed in millimeters.
pub open spec fn spec_mm(v: NumberV) -> RatV {
    mag_ratv(conv_mag(v.mag, v.unit, Unit::MM))
}

pub open spec fn mm_ok(v: NumberV) -> bool {
    conv_ok(v.mag, v.unit, Unit::MM)
}

/// Magnitude addition: two integers stay integer, any other combination is
/// exact rational arithmetic.
pub open spec fn mag_add(a: MagV, b: MagV) -> MagV {
    match (a, b) {
        (MagV::Int(i), MagV::Int(j)) => MagV::Int(i + j),
        _ => MagV::Rat(rat_add(mag_ratv(a), mag_ratv(b))),
    }
}

pub open spec fn mag_add_ok(a: MagV, b: MagV) -> bool {
    match (a, b) {
        (MagV::Int(i), MagV::Int(j)) => i64::MIN <= i + j <= i64::MAX,
        _ => rat_fits(rat_add(mag_ratv(a), mag_ratv(b))),
    }
}

pub open spec fn mag_sub(a: MagV, b: MagV) -> MagV {
    match (a, b) {
        (MagV::Int(i), MagV::Int(j)) => MagV::Int(i - j),
        _ => MagV::Rat(rat_sub(mag_ratv(a), mag_ratv(b))),
    }
}

pub open spec fn mag_sub_ok(a: MagV, b: MagV) -> bool {
    match (a, b) {
        (MagV::Int(i), MagV::Int(j)) => i64::MIN <= i - j <= i64::MAX,
        _ => rat_fits(rat_sub(mag_ratv(a), mag_ratv(b))),
    }
}

pub open spec fn mag_mul(a: MagV, b: MagV) -> MagV {
    match (a, b) {
        (MagV::Int(i), MagV::Int(j)) => MagV::Int(i * j),
        _ => MagV::Rat(rat_mul(mag_ratv(a), mag_ratv(b))),
    }
}

pub open spec fn mag_mul_ok(a: MagV, b: MagV) -> bool {
    match (a, b) {
        (MagV::Int(i), MagV::Int(j)) => i64::MIN <= i * j <= i64::MAX,
        _ => rat_fits(rat_mul(mag_ratv(a), mag_ratv(b))),
    }
}

/// Division always promotes to rational.
pub open spec fn mag_div(a: MagV, b: MagV) -> MagV {
    MagV::Rat(rat_div(mag_ratv(a), mag_ratv(b)))
}

pub open spec fn mag_div_ok(a: MagV, b: MagV) -> bool {
    mag_ratv(b).n != 0 && rat_fits(rat_div(mag_ratv(a), mag_ratv(b)))
}

impl InnerValue {
    pub fn from_rat(r: Rat) -> (v: InnerValue)
        ensures
            v@ == MagV::Rat(r@),
    {
        InnerValue::Rational(r)
    }

    /// The magnitude as an exact rational.
    pub fn as_rat(&self) -> (r: Rat)
        ensures
            r@ == mag_ratv(self@),
    {
        match *self {
            InnerValue::Integer(i) => Rat::from_int(i),
            InnerValue::Rational(r) => r,
        }
    }

    pub fn add(self, other: InnerValue) -> (r: Result<InnerValue, GcadError>)
        ensures
            match r {
                Ok(v) => mag_add_ok(self@, other@) && v@ == mag_add(self@, other@),
                Err(e) => !mag_add_ok(self@, other@) && e.kind == ErrorKind::Overflow,
            },
    {
        match (self, other) {
            (InnerValue::Integer(i), InnerValue::Integer(j)) => match i.checked_add(j) {
                Some(s) => Ok(InnerValue::Integer(s)),
                None => Err(GcadError::new(ErrorKind::Overflow, String::new())),
            },
            _ => match self.as_rat().add(other.as_rat()) {
                Some(s) => Ok(InnerValue::Rational(s)),
                None => Err(GcadError::new(ErrorKind::Overflow, String::new())),
            },
        }
    }

    pub fn sub(self, other: InnerValue) -> (r: Result<InnerValue, GcadError>)
        ensures
            match r {
                Ok(v) => mag_sub_ok(self@, other@) && v@ == mag_sub(self@, other@),
                Err(e) => !mag_sub_ok(self@, other@) && e.kind == ErrorKind::Overflow,
            },
    {
        match (self, other) {
            (InnerValue::Integer(i), InnerValue::Integer(j)) => match i.checked_sub(j) {
                Some(s) => Ok(InnerValue::Integer(s)),
                None => Err(GcadError::new(ErrorKind::Overflow, String::new())),
            },
            _ => match self.as_rat().sub(other.as_rat()) {
                Some(s) => Ok(InnerValue::Rational(s)),
                None => Err(GcadError::new(ErrorKind::Overflow, String::new())),
            },
        }
    }

    pub fn mul(self, other: InnerValue) -> (r: Result<InnerValue, GcadError>)
        ensures
            match r {
                Ok(v) => mag_mul_ok(self@, other@) && v@ == mag_mul(self@, other@),
                Err(e) => !mag_mul_ok(self@, other@) && e.kind == ErrorKind::Overflow,
            },
    {
        match (self, other) {
            (InnerValue::Integer(i), InnerValue::Integer(j)) => match i.checked_mul(j) {
                Some(s) => Ok(InnerValue::Integer(s)),
                None => Err(GcadError::new(ErrorKind::Overflow, String::new())),
            },
            _ => match self.as_rat().mul(other.as_rat()) {
                Some(s) => Ok(InnerValue::Rational(s)),
                None => Err(GcadError::new(ErrorKind::Overflow, String::new())),
            },
        }
    }

    pub fn div(self, other: InnerValue) -> (r: Result<InnerValue, GcadError>)
        ensures
            match r {
                Ok(v) => mag_div_ok(self@, other@) && v@ == mag_div(self@, other@),
                Err(e) => !mag_div_ok(self@, other@) && (if mag_ratv(other@).n == 0 {
                    e.kind == ErrorKind::Domain
                } else {
                    e.kind == ErrorKind::Overflow
                }),
            },
    {
        let a = self.as_rat();
        let b = other.as_rat();
        if b.is_zero() {
            Err(GcadError::new(ErrorKind::Domain, String::new()))
        } else {
            match a.div(b) {
                Some(s) => Ok(InnerValue::Rational(s)),
                None => Err(GcadError::new(ErrorKind::Overflow, String::new())),
            }
        }
    }
}

impl Number {
    pub fn from_int(i: i64) -> (r: Number)
        ensures
            r@ == (NumberV { mag: MagV::Int(i as int), unit: Unit::Unitless }),
    {
        Number { value: InnerValue::Integer(i), unit: Unit::Unitless }
    }

    pub fn from_int_and_unit(i: i64, unit: Unit) -> (r: Number)
        ensures
            r@ == (NumberV { mag: MagV::Int(i as int), unit: unit }),
    {
        Number { value: InnerValue::Integer(i), unit }
    }

    pub fn from_rat(v: Rat) -> (r: Number)
        ensures
            r@ == (NumberV { mag: MagV::Rat(v@), unit: Unit::Unitless }),
    {
        Number { value: InnerValue::Rational(v), unit: Unit::Unitless }
    }

    pub fn from_rat_and_unit(v: Rat, unit: Unit) -> (r: Number)
        ensures
            r@ == (NumberV { mag: MagV::Rat(v@), unit: unit }),
    {
        Number { value: InnerValue::Rational(v), unit }
    }

    /// The deliberate gate that rejects dimensioned numbers wherever a pure
    /// scalar is required: succeeds exactly when the number is unitless.
    pub fn as_scalar(&self) -> (r: Option<InnerValue>)
        ensures
            match r {
                Some(v) => self@.unit == Unit::Unitless && v@ == self@.mag,
                None => self@.unit != Unit::Unitless,
            },
    {
        match self.unit {
            Unit::Unitless => Some(self.value),
            _ => None,
        }
    }

    /// The scalar gate, returning the magnitude as an exact rational.
    pub fn as_scalar_rat(&self) -> (r: Option<Rat>)
        ensures
            match r {
                Some(q) => self@.unit == Unit::Unitless && q@ == mag_ratv(self@.mag),
                None => self@.unit != Unit::Unitless,
            },
    {
        match self.unit {
            Unit::Unitless => Some(self.value.as_rat()),
            _ => None,
        }
    }

    /// The magnitude when it is an integer, whatever the unit.
    pub fn as_int(&self) -> (r: Option<i64>)
        ensures
            match r {
                Some(i) => self@.mag == MagV::Int(i as int),
                None => self@.mag is Rat,
            },
    {
        match self.value {
            InnerValue::Integer(i) => Some(i),
            InnerValue::Rational(_) => None,
        }
    }

    /// Convert to another unit through the millimeter base; converting to or
    /// from `Unitless`, or to the same unit, keeps the magnitude untouched.
    pub fn convert_unit(&self, unit: Unit) -> (r: Result<Number, GcadError>)
        ensures
            match r {
                Ok(n) => conv_ok(self@.mag, self@.unit, unit) && n@ == spec_convert(self@, unit),
                Err(e) => !conv_ok(self@.mag, self@.unit, unit) && e.kind == ErrorKind::Overflow,
            },
    {
        if matches!(self.unit, Unit::Unitless) || matches!(unit, Unit::Unitless) || self.unit
            == unit {
            Ok(Number { value: self.value, unit })
        } else {
            let m = self.value.as_rat();
            match m.mul_frac(self.unit.factor(), unit.factor()) {
                Some(q) => Ok(Number { value: InnerValue::Rational(q), unit }),
                None => Err(GcadError::new(ErrorKind::Overflow, String::new())),
            }
        }
    }

    /// The value in millimeters, as an exact rational.
    pub fn mm_value(&self) -> (r: Result<Rat, GcadError>)
        ensures
            match r {
                Ok(q) => mm_ok(self@) && q@ == spec_mm(self@),
                Err(e) => !mm_ok(self@) && e.kind == ErrorKind::Overflow,
            },
    {
        match self.convert_unit(Unit::MM) {
            Ok(n) => Ok(n.value.as_rat()),
            Err(e) => Err(e),
        }
    }
}

/// `b` to the `e`-th power, as an integer.
pub open spec fn int_pow(b: int, e: nat) -> int
    decreases e,
{
    if e == 0 {
        1
    } else {
        int_pow(b, (e - 1) as nat) * b
    }
}

/// `v` to the `e`-th power, as an exact rational.
pub open spec fn rat_pow(v: RatV, e: nat) -> RatV
    decreases e,
{
    if e == 0 {
        int_rat(1)
    } else {
        rat_mul(rat_pow(v, (e - 1) as nat), v)
    }
}

/// `n` factorial.
pub open spec fn spec_fact(n: nat) -> int
    decreases n,
{
    if n == 0 {
        1
    } else {
        spec_fact((n - 1) as nat) * n
    }
}

impl Number {
    /// Raise to a power.  The exponent must be a unitless, nonnegative
    /// integer: a dimensioned exponent is a unit error, a non-integer one a
    /// type error, a negative one a domain error.  The result keeps the
    /// base's unit and its magnitude kind; a result outside the
    /// representable range is an overflow error.
    pub fn pow(&self, other: &Number) -> (r: Result<Number, GcadError>)
        ensures
            match r {
                Ok(n) => other@.unit == Unit::Unitless && (other@.mag matches MagV::Int(e) && e >= 0
                    && n@.unit == self@.unit && (match self@.mag {
                    MagV::Int(b) => n@.mag == MagV::Int(int_pow(b, e as nat)),
                    MagV::Rat(v) => n@.mag == MagV::Rat(rat_pow(v, e as nat)),
                })),
                Err(e) => e.kind == ErrorKind::Unit || e.kind == ErrorKind::Type || e.kind
                    == ErrorKind::Domain || e.kind == ErrorKind::Overflow,
            },
    {
        if !matches!(other.unit, Unit::Unitless) {
            return Err(GcadError::new(ErrorKind::Unit, String::new()));
        }
        let e = match other.as_int() {
            Some(e) => e,
            None => {
                return Err(GcadError::new(ErrorKind::Type, String::new()));
            },
        };
        if e < 0 {
            return Err(GcadError::new(ErrorKind::Domain, String::new()));
        }
        let eu = e as u64;
        match self.value {
            InnerValue::Integer(b) => {
                let mut acc: i64 = 1;
                let mut k: u64 = 0;
                while k < eu
                    invariant
                        k <= eu,
                        acc as int == int_pow(b as int, k as nat),
                    decreases eu - k,
                {
                    acc = match acc.checked_mul(b) {
                        Some(a) => a,
                        None => {
                            return Err(GcadError::new(ErrorKind::Overflow, String::new()));
                        },
                    };
                    k = k + 1;
                }
                Ok(Number { value: InnerValue::Integer(acc), unit: self.unit })
            },
            InnerValue::Rational(v) => {
                let mut acc: Rat = Rat::from_int(1);
                let mut k: u64 = 0;
                while k < eu
                    invariant
                        k <= eu,
                        acc@ == rat_pow(v@, k as nat),
                    decreases eu - k,
                {
                    acc = match acc.mul(v) {
                        Some(a) => a,
                        None => {
                            return Err(GcadError::new(ErrorKind::Overflow, String::new()));
                        },
                    };
                    k = k + 1;
                }
                Ok(Number { value: InnerValue::Rational(acc), unit: self.unit })
            },
        }
    }

    /// The factorial of a unitless, nonnegative integer; anything else is a
    /// unit, type or domain error, and an unrepresentable result an
    /// overflow error.
    pub fn factorial(&self) -> (r: Result<Number, GcadError>)
        ensures
            match r {
                Ok(n) => self@.unit == Unit::Unitless && (self@.mag matches MagV::Int(b) && b >= 0
                    && n@ == (NumberV {
                    mag: MagV::Int(spec_fact(b as nat)),
                    unit: Unit::Unitless,
                })),
                Err(e) => e.kind == ErrorKind::Unit || e.kind == ErrorKind::Type || e.kind
                    == ErrorKind::Domain || e.kind == ErrorKind::Overflow,
            },
    {
        if !matches!(self.unit, Unit::Unitless) {
            return Err(GcadError::new(ErrorKind::Unit, String::new()));
        }
        let b = match self.as_int() {
            Some(b) => b,
            None => {
                return Err(GcadError::new(ErrorKind::Type, String::new()));
            },
        };
        if b < 0 {
            return Err(GcadError::new(ErrorKind::Domain, String::new()));
        }
        let bu = b as u64;
        let mut acc: i64 = 1;
        let mut k: u64 = 0;
        while k < bu
            invariant
                k <= bu <= i64::MAX,
                acc as int == spec_fact(k as nat),
            decreases bu - k,
        {
            let next = k + 1;
            acc = match acc.checked_mul(next as i64) {
                Some(a) => a,
                None => {
                    return Err(GcadError::new(ErrorKind::Overflow, String::new()));
                },
            };
            k = next;
        }
        Ok(Number { value: InnerValue::Integer(acc), unit: Unit::Unitless })
    }
}

/// The destination unit of unit-reconciling arithmetic: the left operand's
/// unit unless the left operand is unitless, in which case the right's.
pub open spec fn dst_unit(a: NumberV, b: NumberV) -> Unit {
    if a.unit == Unit::Unitless {
        b.unit
    } else {
        a.unit
    }
}

pub open spec fn num_bin_ok(
    a: NumberV,
    b: NumberV,
    mag_ok: spec_fn(MagV, MagV) -> bool,
) -> bool {
    let d = dst_unit(a, b);
    conv_ok(a.mag, a.unit, d) && conv_ok(b.mag, b.unit, d) && mag_ok(
        conv_mag(a.mag, a.unit, d),
        conv_mag(b.mag, b.unit, d),
    )
}

pub open spec fn num_bin(a: NumberV, b: NumberV, mag_op: spec_fn(MagV, MagV) -> MagV) -> NumberV {
    let d = dst_unit(a, b);
    NumberV { mag: mag_op(conv_mag(a.mag, a.unit, d), conv_mag(b.mag, b.unit, d)), unit: d }
}

impl Number {
    /// The executable destination unit.
    fn dst(&self, other: &Number) -> (u: Unit)
        ensures
            u == dst_unit(self@, other@),
    {
        if matches!(self.unit, Unit::Unitless) {
            other.unit
        } else {
            self.unit
        }
    }

    pub fn add(self, other: Number) -> (r: Result<Number, GcadError>)
        ensures
            match r {
                Ok(n) => num_bin_ok(self@, other@, |x: MagV, y: MagV| mag_add_ok(x, y)) && n@
                    == num_bin(self@, other@, |x: MagV, y: MagV| mag_add(x, y)),
                Err(e) => !num_bin_ok(self@, other@, |x: MagV, y: MagV| mag_add_ok(x, y))
                    && e.kind == ErrorKind::Overflow,
            },
    {
        let d = self.dst(&other);
        let l = self.convert_unit(d)?;
        let g = other.convert_unit(d)?;
        let v = l.value.add(g.value)?;
        Ok(Number { value: v, unit: d })
    }

    pub fn sub(self, other: Number) -> (r: Result<Number, GcadError>)
        ensures
            match r {
                Ok(n) => num_bin_ok(self@, other@, |x: MagV, y: MagV| mag_sub_ok(x, y)) && n@
                    == num_bin(self@, other@, |x: MagV, y: MagV| mag_sub(x, y)),
                Err(e) => !num_bin_ok(self@, other@, |x: MagV, y: MagV| mag_sub_ok(x, y))
                    && e.kind == ErrorKind::Overflow,
            },
    {
        let d = self.dst(&other);
        let l = self.convert_unit(d)?;
        let g = other.convert_unit(d)?;
        let v = l.value.sub(g.value)?;
        Ok(Number { value: v, unit: d })
    }

    pub fn mul(self, other: Number) -> (r: Result<Number, GcadError>)
        ensures
            match r {
                Ok(n) => num_bin_ok(self@, other@, |x: MagV, y: MagV| mag_mul_ok(x, y)) && n@
                    == num_bin(self@, other@, |x: MagV, y: MagV| mag_mul(x, y)),
                Err(e) => !num_bin_ok(self@, other@, |x: MagV, y: MagV| mag_mul_ok(x, y))
                    && e.kind == ErrorKind::Overflow,
            },
    {
        let d = self.dst(&other);
        let l = self.convert_unit(d)?;
        let g = other.convert_unit(d)?;
        let v = l.value.mul(g.value)?;
        Ok(Number { value: v, unit: d })
    }

    pub fn div(self, other: Number) -> (r: Result<Number, GcadError>)
        ensures
            match r {
                Ok(n) => num_bin_ok(self@, other@, |x: MagV, y: MagV| mag_div_ok(x, y)) && n@
                    == num_bin(self@, other@, |x: MagV, y: MagV| mag_div(x, y)),
                Err(e) => !num_bin_ok(self@, other@, |x: MagV, y: MagV| mag_div_ok(x, y)) && ({
                    let d = dst_unit(self@, other@);
                    if conv_ok(self@.mag, self@.unit, d) && conv_ok(other@.mag, other@.unit, d)
                        && mag_ratv(conv_mag(other@.mag, other@.unit, d)).n == 0 {
                        e.kind == ErrorKind::Domain
                    } else {
                        e.kind == ErrorKind::Overflow
                    }
                }),
            },
    {
        let d = self.dst(&other);
        let l = self.convert_unit(d)?;
        let g = other.convert_unit(d)?;
        let v = l.value.div(g.value)?;
        Ok(Number { value: v, unit: d })
    }

    /// Negation, defined through magnitude subtraction from zero.
    pub fn neg(self) -> (r: Result<Number, GcadError>)
        ensures
            match r {
                Ok(n) => mag_sub_ok(MagV::Int(0), self@.mag) && n@ == (NumberV {
                    mag: mag_sub(MagV::Int(0), self@.mag),
                    unit: self@.unit,
                }),
                Err(e) => !mag_sub_ok(MagV::Int(0), self@.mag) && e.kind == ErrorKind::Overflow,
            },
    {
        let z = InnerValue::Integer(0);
        let v = z.sub(self.value)?;
        Ok(Number { value: v, unit: self.unit })
    }
}

} // verus!
