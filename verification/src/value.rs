//! Script values: the tagged union the interpreter evaluates to.
//!
//! Arithmetic and negation are defined only between `Number` variants; any
//! other combination fails with a type mismatch.  A `Range` is a lazy,
//! restartable arithmetic sequence produced only by `linspace`.

use crate::err::{ErrorKind, GcadError};
use crate::numbers::{
    int_pow, mag_add, mag_add_ok, mag_div, mag_div_ok, mag_mul, mag_mul_ok, mag_sub, mag_sub_ok,
    num_bin, num_bin_ok, rat_pow, spec_fact, MagV, Number, NumberV, Unit,
};
use vstd::prelude::*;

verus! {

/// A script value at the specification level.
pub enum SvV {
    Num(NumberV),
    Str(Seq<char>),
    Range { start: NumberV, step: NumberV, num: nat },
    Null,
}

/// A runtime script value.
#[derive(Clone, Debug)]
pub enum ScriptValue {
    Number(Number),
    Str(String),
    Range { start: Number, step: Number, num: usize },
    Null,
}

impl View for ScriptValue {
    type V = SvV;

    open spec fn view(&self) -> SvV {
        match self {
            ScriptValue::Number(n) => SvV::Num(n@),
            ScriptValue::Str(s) => SvV::Str(s@),
            ScriptValue::Range { start, step, num } => SvV::Range {
                start: start@,
                step: step@,
                num: num@ as nat,
            },
            ScriptValue::Null => SvV::Null,
        }
    }
}


/// The binary operators as functions of the operand values: the exact
/// result where one exists, `None` where the combination is a type error
/// or the arithmetic is unrepresentable.
pub open spec fn sv_add_res(a: SvV, b: SvV) -> Option<SvV> {
    match (a, b) {
        (SvV::Num(x), SvV::Num(y)) => if num_bin_ok(x, y, |p: MagV, q: MagV| mag_add_ok(p, q)) {
            Some(SvV::Num(num_bin(x, y, |p: MagV, q: MagV| mag_add(p, q))))
        } else {
            None
        },
        _ => None,
    }
}

pub open spec fn sv_sub_res(a: SvV, b: SvV) -> Option<SvV> {
    match (a, b) {
        (SvV::Num(x), SvV::Num(y)) => if num_bin_ok(x, y, |p: MagV, q: MagV| mag_sub_ok(p, q)) {
            Some(SvV::Num(num_bin(x, y, |p: MagV, q: MagV| mag_sub(p, q))))
        } else {
            None
        },
        _ => None,
    }
}

pub open spec fn sv_mul_res(a: SvV, b: SvV) -> Option<SvV> {
    match (a, b) {
        (SvV::Num(x), SvV::Num(y)) => if num_bin_ok(x, y, |p: MagV, q: MagV| mag_mul_ok(p, q)) {
            Some(SvV::Num(num_bin(x, y, |p: MagV, q: MagV| mag_mul(p, q))))
        } else {
            None
        },
        _ => None,
    }
}

pub open spec fn sv_div_res(a: SvV, b: SvV) -> Option<SvV> {
    match (a, b) {
        (SvV::Num(x), SvV::Num(y)) => if num_bin_ok(x, y, |p: MagV, q: MagV| mag_div_ok(p, q)) {
            Some(SvV::Num(num_bin(x, y, |p: MagV, q: MagV| mag_div(p, q))))
        } else {
            None
        },
        _ => None,
    }
}

impl ScriptValue {
    /// An exact copy; cloning through this method keeps the view.
    pub fn dup(&self) -> (r: ScriptValue)
        ensures
            r@ == self@,
    {
        match self {
            ScriptValue::Number(n) => ScriptValue::Number(*n),
            ScriptValue::Str(s) => ScriptValue::Str(s.clone()),
            ScriptValue::Range { start, step, num } => ScriptValue::Range {
                start: *start,
                step: *step,
                num: *num,
            },
            ScriptValue::Null => ScriptValue::Null,
        }
    }

    pub fn add(self, other: ScriptValue) -> (r: Result<ScriptValue, GcadError>)
        ensures
            match (self@, other@) {
                (SvV::Num(a), SvV::Num(b)) => match r {
                    Ok(v) => num_bin_ok(a, b, |x: MagV, y: MagV| mag_add_ok(x, y)) && v@
                        == SvV::Num(num_bin(a, b, |x: MagV, y: MagV| mag_add(x, y))),
                    Err(e) => !num_bin_ok(a, b, |x: MagV, y: MagV| mag_add_ok(x, y)) && e.kind
                        == ErrorKind::Overflow,
                },
                _ => r matches Err(e) && e.kind == ErrorKind::Type,
            },
    {
        match (self, other) {
            (ScriptValue::Number(a), ScriptValue::Number(b)) => Ok(
                ScriptValue::Number(a.add(b)?),
            ),
            _ => Err(GcadError::new(ErrorKind::Type, String::new())),
        }
    }

    pub fn sub(self, other: ScriptValue) -> (r: Result<ScriptValue, GcadError>)
        ensures
            match (self@, other@) {
                (SvV::Num(a), SvV::Num(b)) => match r {
                    Ok(v) => num_bin_ok(a, b, |x: MagV, y: MagV| mag_sub_ok(x, y)) && v@
                        == SvV::Num(num_bin(a, b, |x: MagV, y: MagV| mag_sub(x, y))),
                    Err(e) => !num_bin_ok(a, b, |x: MagV, y: MagV| mag_sub_ok(x, y)) && e.kind
                        == ErrorKind::Overflow,
                },
                _ => r matches Err(e) && e.kind == ErrorKind::Type,
            },
    {
        match (self, other) {
            (ScriptValue::Number(a), ScriptValue::Number(b)) => Ok(
                ScriptValue::Number(a.sub(b)?),
            ),
            _ => Err(GcadError::new(ErrorKind::Type, String::new())),
        }
    }

    pub fn mul(self, other: ScriptValue) -> (r: Result<ScriptValue, GcadError>)
        ensures
            match (self@, other@) {
                (SvV::Num(a), SvV::Num(b)) => match r {
                    Ok(v) => num_bin_ok(a, b, |x: MagV, y: MagV| mag_mul_ok(x, y)) && v@
                        == SvV::Num(num_bin(a, b, |x: MagV, y: MagV| mag_mul(x, y))),
                    Err(e) => !num_bin_ok(a, b, |x: MagV, y: MagV| mag_mul_ok(x, y)) && e.kind
                        == ErrorKind::Overflow,
                },
                _ => r matches Err(e) && e.kind == ErrorKind::Type,
            },
    {
        match (self, other) {
            (ScriptValue::Number(a), ScriptValue::Number(b)) => Ok(
                ScriptValue::Number(a.mul(b)?),
            ),
            _ => Err(GcadError::new(ErrorKind::Type, String::new())),
        }
    }

    pub fn div(self, other: ScriptValue) -> (r: Result<ScriptValue, GcadError>)
        ensures
            match (self@, other@) {
                (SvV::Num(a), SvV::Num(b)) => match r {
                    Ok(v) => num_bin_ok(a, b, |x: MagV, y: MagV| mag_div_ok(x, y)) && v@
                        == SvV::Num(num_bin(a, b, |x: MagV, y: MagV| mag_div(x, y))),
                    Err(e) => !num_bin_ok(a, b, |x: MagV, y: MagV| mag_div_ok(x, y)) && (e.kind
                        == ErrorKind::Overflow || e.kind == ErrorKind::Domain),
                },
                _ => r matches Err(e) && e.kind == ErrorKind::Type,
            },
    {
        match (self, other) {
            (ScriptValue::Number(a), ScriptValue::Number(b)) => Ok(
                ScriptValue::Number(a.div(b)?),
            ),
            _ => Err(GcadError::new(ErrorKind::Type, String::new())),
        }
    }

    /// Negation is defined only for numbers.
    pub fn neg(self) -> (r: Result<ScriptValue, GcadError>)
        ensures
            match self@ {
                SvV::Num(a) => match r {
                    Ok(v) => mag_sub_ok(MagV::Int(0), a.mag) && v@ == SvV::Num(
                        NumberV { mag: mag_sub(MagV::Int(0), a.mag), unit: a.unit },
                    ),
                    Err(e) => !mag_sub_ok(MagV::Int(0), a.mag) && e.kind == ErrorKind::Overflow,
                },
                _ => r matches Err(e) && e.kind == ErrorKind::Type,
            },
    {
        match self {
            ScriptValue::Number(a) => Ok(ScriptValue::Number(a.neg()?)),
            _ => Err(GcadError::new(ErrorKind::Type, String::new())),
        }
    }

    /// Raise to a power; defined only between numbers, with the exponent a
    /// unitless nonnegative integer.
    pub fn pow(&self, other: &ScriptValue) -> (r: Result<ScriptValue, GcadError>)
        ensures
            match (self@, other@) {
                (SvV::Num(a), SvV::Num(b)) => match r {
                    Ok(v) => b.unit == Unit::Unitless && (b.mag matches MagV::Int(e) && e >= 0
                        && v@ == SvV::Num(
                        NumberV {
                            mag: match a.mag {
                                MagV::Int(base) => MagV::Int(int_pow(base, e as nat)),
                                MagV::Rat(w) => MagV::Rat(rat_pow(w, e as nat)),
                            },
                            unit: a.unit,
                        },
                    )),
                    Err(e) => e.kind == ErrorKind::Unit || e.kind == ErrorKind::Type || e.kind
                        == ErrorKind::Domain || e.kind == ErrorKind::Overflow,
                },
                _ => r matches Err(e) && e.kind == ErrorKind::Type,
            },
    {
        match (self, other) {
            (ScriptValue::Number(a), ScriptValue::Number(b)) => Ok(
                ScriptValue::Number(a.pow(b)?),
            ),
            _ => Err(GcadError::new(ErrorKind::Type, String::new())),
        }
    }

    /// The factorial; defined only for a number holding a unitless
    /// nonnegative integer.
    pub fn factorial(&self) -> (r: Result<ScriptValue, GcadError>)
        ensures
            match self@ {
                SvV::Num(a) => match r {
                    Ok(v) => a.unit == Unit::Unitless && (a.mag matches MagV::Int(b) && b >= 0
                        && v@ == SvV::Num(
                        NumberV { mag: MagV::Int(spec_fact(b as nat)), unit: Unit::Unitless },
                    )),
                    Err(e) => e.kind == ErrorKind::Unit || e.kind == ErrorKind::Type || e.kind
                        == ErrorKind::Domain || e.kind == ErrorKind::Overflow,
                },
                _ => r matches Err(e) && e.kind == ErrorKind::Type,
            },
    {
        match self {
            ScriptValue::Number(a) => Ok(ScriptValue::Number(a.factorial()?)),
            _ => Err(GcadError::new(ErrorKind::Type, String::new())),
        }
    }

    /// Text extraction succeeds only for the string variant.
    pub fn into_text(self) -> (r: Result<String, GcadError>)
        ensures
            match r {
                Ok(s) => self@ matches SvV::Str(t) && s@ == t,
                Err(e) => !(self@ is Str) && e.kind == ErrorKind::Type,
            },
    {
        match self {
            ScriptValue::Str(s) => Ok(s),
            _ => Err(GcadError::new(ErrorKind::Type, String::new())),
        }
    }

    /// Number extraction succeeds only for the number variant.
    pub fn into_number(self) -> (r: Result<Number, GcadError>)
        ensures
            match r {
                Ok(n) => self@ == SvV::Num(n@),
                Err(e) => !(self@ is Num) && e.kind == ErrorKind::Type,
            },
    {
        match self {
            ScriptValue::Number(n) => Ok(n),
            _ => Err(GcadError::new(ErrorKind::Type, String::new())),
        }
    }
}

} // verus!
