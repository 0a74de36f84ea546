//! The builtins: dispatch, argument coercion, and the typed cores.
//!
//! Each builtin's behaviour is a named relation (`..._rel`) between the
//! context before and after and the outcome, and a call-level relation
//! (`..._call_rel`) that composes binding, coercion and the effect.  The
//! typed cores (`do_...`) are verified against the former; the wrappers and
//! the dispatcher against the latter, name by name, so a whole call's
//! meaning is pinned from the argument list down to the emitted text.

use crate::binder::{
    args_v, bind, bind_err, bind_ok, named_v, params_v, resolved, ParamSpec,
};
use crate::engine::ScriptEngine;
use crate::env::Material;
use crate::err::{ErrorKind, GcadError};
use crate::gcode::{
    comment_step, lemma_comment_extends, lemma_extends_refl, lemma_spindle_extends, out_extends,
    spindle_step, GStateV,
};
use crate::numbers::{
    conv_ok, mag_div, mag_div_ok, mag_ratv, mag_sub, mag_sub_ok, mm_ok, num_bin, num_bin_ok,
    spec_convert, spec_mm, MagV, Number, NumberV, Unit,
};
use crate::parser::str_eq;
use crate::paths::{apply_moves, contour_moves_from, drill_moves, z_ok};
use crate::rat::{rat_ceil, rat_div, rat_fits, rat_le, Rat};
use crate::value::{ScriptValue, SvV};
use vstd::prelude::*;
use vstd::string::StrSliceExecFns;

verus! {

/// A copy of slot `k`.
fn slot_at(b: &Vec<Option<ScriptValue>>, k: usize) -> (r: Option<ScriptValue>)
    requires
        k < b@.len(),
    ensures
        crate::binder::opt_sv(r) == crate::binder::opt_sv(b@[k as int]),
{
    match &b[k] {
        Some(v) => Some(v.dup()),
        None => None,
    }
}

/// A coercion failure's message, naming the argument's declared position.
fn type_err_at(idx: usize) -> (r: GcadError)
    ensures
        r.kind == ErrorKind::Type,
{
    let mut msg = String::new();
    msg.append("argument ");
    crate::fmt::push_digits(&mut msg, idx as u128);
    msg.append(" is not the correct type");
    GcadError::new(ErrorKind::Type, msg)
}

/// Coerce a resolved slot to a number; anything else is a type error
/// naming the argument's position.
fn coerce_number(slot: Option<ScriptValue>, idx: usize) -> (r: Result<Number, GcadError>)
    ensures
        match r {
            Ok(n) => slot matches Some(v) && v@ == SvV::Num(n@),
            Err(e) => e.kind == ErrorKind::Type && !(slot matches Some(v) && v@ is Num),
        },
{
    match slot {
        Some(ScriptValue::Number(n)) => Ok(n),
        _ => Err(type_err_at(idx)),
    }
}

/// Coerce an optional slot to an optional number.
fn coerce_number_opt(slot: Option<ScriptValue>, idx: usize) -> (r: Result<
    Option<Number>,
    GcadError,
>)
    ensures
        match r {
            Ok(o) => match o {
                Some(n) => slot matches Some(v) && v@ == SvV::Num(n@),
                None => slot is None,
            },
            Err(e) => e.kind == ErrorKind::Type && !(slot is None || (slot matches Some(v) && v@
                is Num)),
        },
{
    match slot {
        Some(ScriptValue::Number(n)) => Ok(Some(n)),
        None => Ok(None),
        _ => Err(type_err_at(idx)),
    }
}

/// Coerce a resolved slot to a string; anything else is a type error
/// naming the argument's position.
fn coerce_string(slot: Option<ScriptValue>, idx: usize) -> (r: Result<String, GcadError>)
    ensures
        match r {
            Ok(s) => slot matches Some(v) && v@ == SvV::Str(s@),
            Err(e) => e.kind == ErrorKind::Type && !(slot matches Some(v) && v@ is Str),
        },
{
    match slot {
        Some(ScriptValue::Str(s)) => Ok(s),
        _ => Err(type_err_at(idx)),
    }
}


/// A builtin's outcome at the specification level: the returned value's
/// view, or the error.
pub open spec fn outcome(r: Result<ScriptValue, GcadError>) -> Result<SvV, GcadError> {
    match r {
        Ok(v) => Ok(v@),
        Err(e) => Err(e),
    }
}

/// The dispatcher's outcome; `Ok(None)` does not arise for a known name.
pub open spec fn outcome_opt(r: Result<Option<ScriptValue>, GcadError>) -> Result<
    SvV,
    GcadError,
> {
    match r {
        Ok(Some(v)) => Ok(v@),
        Ok(None) => Ok(SvV::Null),
        Err(e) => Err(e),
    }
}

pub open spec fn slot_is_num(o: Option<SvV>) -> bool {
    o matches Some(SvV::Num(_))
}

pub open spec fn slot_is_str(o: Option<SvV>) -> bool {
    o matches Some(SvV::Str(_))
}

pub open spec fn slot_is_opt_num(o: Option<SvV>) -> bool {
    o is None || slot_is_num(o)
}

pub open spec fn num_of(o: Option<SvV>) -> NumberV {
    match o {
        Some(SvV::Num(n)) => n,
        _ => arbitrary(),
    }
}

pub open spec fn str_of(o: Option<SvV>) -> Seq<char> {
    match o {
        Some(SvV::Str(s)) => s,
        _ => arbitrary(),
    }
}

pub open spec fn opt_num_of(o: Option<SvV>) -> Option<NumberV> {
    match o {
        Some(SvV::Num(n)) => Some(n),
        _ => None,
    }
}

/// What `rpm` does: spindle-on at the scalar speed, or a unit error that
/// changes nothing.
pub open spec fn rpm_rel(g0: GStateV, g1: GStateV, rpm: NumberV, out: Result<
    SvV,
    GcadError,
>) -> bool {
    match out {
        Ok(v) => rpm.unit == Unit::Unitless && v == SvV::Null && g1 == spindle_step(
            g0,
            mag_ratv(rpm.mag),
        ),
        Err(e) => rpm.unit != Unit::Unitless && e.kind == ErrorKind::Unit && g1 == g0,
    }
}

/// What `material` does: overwrite the live parameters from the preset and
/// re-issue the spindle speed, or a name error that changes nothing.
pub open spec fn material_rel(
    g0: GStateV,
    g1: GStateV,
    mats: Map<Seq<char>, crate::env::MaterialV>,
    name: Seq<char>,
    out: Result<SvV, GcadError>,
) -> bool {
    match out {
        Ok(v) => mats.contains_key(name) && v == SvV::Null && ({
            let m = mats[name];
            g1 == spindle_step(
                GStateV {
                    stepover: m.stepover,
                    depth_per_pass: m.depth_per_pass,
                    feed_rate: m.feed_rate,
                    plunge_rate: m.plunge_rate,
                    ..g0
                },
                m.rpm,
            )
        }),
        Err(e) => !mats.contains_key(name) && e.kind == ErrorKind::Name && g1 == g0,
    }
}

/// What `cutter_diameter` does: set the tool diameter in millimeters.
pub open spec fn cutter_rel(g0: GStateV, g1: GStateV, d: NumberV, out: Result<
    SvV,
    GcadError,
>) -> bool {
    match out {
        Ok(v) => d.unit != Unit::Unitless && mm_ok(d) && v == SvV::Null && g1 == (GStateV {
            cutter_diameter: spec_mm(d),
            ..g0
        }),
        Err(e) => g1 == g0 && (if d.unit == Unit::Unitless {
            e.kind == ErrorKind::Unit
        } else {
            !mm_ok(d) && e.kind == ErrorKind::Overflow
        }),
    }
}

/// What `drill` does: the drill cycle at the millimeter values, succeeding
/// exactly when units are present, every value converts, and the machine
/// takes every move.
pub open spec fn drill_rel(
    g0: GStateV,
    g1: GStateV,
    x: NumberV,
    y: NumberV,
    depth: NumberV,
    out: Result<SvV, GcadError>,
) -> bool {
    let units_ok = x.unit != Unit::Unitless && y.unit != Unit::Unitless && depth.unit
        != Unit::Unitless;
    let mms_ok = mm_ok(x) && mm_ok(y) && mm_ok(depth);
    let mvs = drill_moves(spec_mm(x), spec_mm(y), spec_mm(depth));
    match out {
        Ok(v) => units_ok && mms_ok && v == SvV::Null && apply_moves(g0, mvs) == Some(g1),
        Err(e) => if !units_ok {
            e.kind == ErrorKind::Unit && g1 == g0
        } else if !mms_ok {
            e.kind == ErrorKind::Overflow && g1 == g0
        } else {
            e.kind == ErrorKind::Overflow && apply_moves(g0, mvs) is None
        },
    }
}

/// What `contour_line` does with a fully resolved end point.
pub open spec fn contour_rel(
    g0: GStateV,
    g1: GStateV,
    x1: NumberV,
    y1: NumberV,
    x2: NumberV,
    y2: NumberV,
    depth: NumberV,
    out: Result<SvV, GcadError>,
) -> bool {
    let units_ok = x1.unit != Unit::Unitless && y1.unit != Unit::Unitless && x2.unit
        != Unit::Unitless && y2.unit != Unit::Unitless && depth.unit != Unit::Unitless;
    let mms_ok = mm_ok(x1) && mm_ok(y1) && mm_ok(x2) && mm_ok(y2) && mm_ok(depth);
    let dpp = g0.depth_per_pass;
    let nn = rat_ceil(rat_div(spec_mm(depth), dpp));
    let mvs = contour_moves_from(
        spec_mm(x1),
        spec_mm(y1),
        spec_mm(x2),
        spec_mm(y2),
        spec_mm(depth),
        1,
        nn,
    );
    match out {
        Ok(v) => units_ok && mms_ok && dpp.n != 0 && rat_fits(rat_div(spec_mm(depth), dpp)) && (
        forall|i: int| 1 <= i <= nn ==> z_ok(spec_mm(depth), i, nn)) && v == SvV::Null
            && apply_moves(g0, mvs) == Some(g1),
        Err(e) => if !units_ok {
            e.kind == ErrorKind::Unit && g1 == g0
        } else if !mms_ok {
            e.kind == ErrorKind::Overflow && g1 == g0
        } else if dpp.n == 0 {
            e.kind == ErrorKind::Domain && g1 == g0
        } else {
            e.kind == ErrorKind::Overflow && (!rat_fits(rat_div(spec_mm(depth), dpp)) || (
            exists|i: int| 1 <= i <= nn && !z_ok(spec_mm(depth), i, nn)) || apply_moves(
                g0,
                mvs,
            ) is None)
        },
    }
}

/// What `circle_pocket` does with a fully resolved diameter.
pub open spec fn circle_rel(
    g0: GStateV,
    g1: GStateV,
    cx: NumberV,
    cy: NumberV,
    diam: NumberV,
    depth: NumberV,
    out: Result<SvV, GcadError>,
) -> bool {
    let units_ok = cx.unit != Unit::Unitless && cy.unit != Unit::Unitless && diam.unit
        != Unit::Unitless && depth.unit != Unit::Unitless;
    let mms_ok = mm_ok(cx) && mm_ok(cy) && mm_ok(diam) && mm_ok(depth);
    let cut = g0.cutter_diameter;
    let dpp = g0.depth_per_pass;
    let nc = crate::rat::rat_floor(rat_div(spec_mm(diam), cut));
    let np = rat_ceil(rat_div(spec_mm(depth), dpp));
    match out {
        Ok(v) => units_ok && mms_ok && crate::paths::circle_ok(
            g0,
            spec_mm(cx),
            spec_mm(cy),
            spec_mm(diam),
            spec_mm(depth),
        ) && v == SvV::Null && apply_moves(
            g0,
            crate::paths::circle_moves(
                spec_mm(cx),
                spec_mm(cy),
                spec_mm(diam),
                cut,
                spec_mm(depth),
                np,
                nc,
            ),
        ) == Some(g1),
        Err(e) => if !units_ok {
            e.kind == ErrorKind::Unit && g1 == g0
        } else if !mms_ok {
            e.kind == ErrorKind::Overflow && g1 == g0
        } else if rat_le(spec_mm(diam), cut) || cut.n == 0 || dpp.n == 0 {
            e.kind == ErrorKind::Domain && g1 == g0
        } else {
            !crate::paths::circle_ok(g0, spec_mm(cx), spec_mm(cy), spec_mm(diam), spec_mm(depth))
                && (e.kind == ErrorKind::Overflow || e.kind == ErrorKind::Domain)
        },
    }
}

/// What `groove_pocket` does.
pub open spec fn groove_rel(
    g0: GStateV,
    g1: GStateV,
    x: NumberV,
    y: NumberV,
    w: NumberV,
    h: NumberV,
    depth: NumberV,
    out: Result<SvV, GcadError>,
) -> bool {
    let units_ok = x.unit != Unit::Unitless && y.unit != Unit::Unitless && w.unit
        != Unit::Unitless && h.unit != Unit::Unitless && depth.unit != Unit::Unitless;
    let mms_ok = mm_ok(x) && mm_ok(y) && mm_ok(w) && mm_ok(h) && mm_ok(depth);
    let so = g0.stepover;
    let dpp = g0.depth_per_pass;
    let cut = g0.cutter_diameter;
    let np = rat_ceil(rat_div(spec_mm(depth), dpp));
    let pat = crate::paths::groove_pat_of(spec_mm(x), spec_mm(y), spec_mm(w), spec_mm(h), cut, so);
    match out {
        Ok(v) => units_ok && mms_ok && crate::paths::groove_ok(
            g0,
            spec_mm(x),
            spec_mm(y),
            spec_mm(w),
            spec_mm(h),
            spec_mm(depth),
        ) && v == SvV::Null && (np >= 1 ==> apply_moves(
            g0,
            crate::paths::groove_passes_from(pat, spec_mm(depth), 1, np),
        ) == Some(g1)) && (np < 1 ==> g1 == g0),
        Err(e) => if !units_ok {
            e.kind == ErrorKind::Unit && g1 == g0
        } else if !mms_ok {
            e.kind == ErrorKind::Overflow && g1 == g0
        } else if dpp.n == 0 || so.n == 0 {
            e.kind == ErrorKind::Domain && g1 == g0
        } else {
            !crate::paths::groove_ok(
                g0,
                spec_mm(x),
                spec_mm(y),
                spec_mm(w),
                spec_mm(h),
                spec_mm(depth),
            ) && (e.kind == ErrorKind::Overflow || e.kind == ErrorKind::Domain)
        },
    }
}

/// What `define_material` does: register the preset from five scalars.
pub open spec fn define_material_rel(
    m0: Map<Seq<char>, crate::env::MaterialV>,
    m1: Map<Seq<char>, crate::env::MaterialV>,
    name: Seq<char>,
    so: NumberV,
    dpp: NumberV,
    fr: NumberV,
    pr: NumberV,
    rpm: NumberV,
    out: Result<SvV, GcadError>,
) -> bool {
    let units_ok = so.unit == Unit::Unitless && dpp.unit == Unit::Unitless && fr.unit
        == Unit::Unitless && pr.unit == Unit::Unitless && rpm.unit == Unit::Unitless;
    match out {
        Ok(v) => units_ok && v == SvV::Null && m1 == m0.insert(
            name,
            crate::env::MaterialV {
                stepover: mag_ratv(so.mag),
                depth_per_pass: mag_ratv(dpp.mag),
                feed_rate: mag_ratv(fr.mag),
                plunge_rate: mag_ratv(pr.mag),
                rpm: mag_ratv(rpm.mag),
            },
        ),
        Err(e) => !units_ok && e.kind == ErrorKind::Unit && m1 == m0,
    }
}

/// What `comment` does: one parenthesized line, never failing.
pub open spec fn comment_rel(g0: GStateV, g1: GStateV, text: Seq<char>, out: Result<
    SvV,
    GcadError,
>) -> bool {
    out matches Ok(v) && v == SvV::Null && g1 == comment_step(g0, text)
}

pub open spec fn linspace_units_ok(start: NumberV, stop: NumberV, num: NumberV) -> bool {
    num.unit == Unit::Unitless && !(start.unit == Unit::Unitless && stop.unit != Unit::Unitless)
        && !(start.unit != Unit::Unitless && stop.unit == Unit::Unitless)
}

/// What `linspace` does: success exactly when the unit rules hold, the
/// count is an integer of at least one (one itself divides by zero), and
/// every value is representable; each failure carries the kind of the first
/// broken rule.
pub open spec fn linspace_rel(start: NumberV, stop: NumberV, num: NumberV, out: Result<
    SvV,
    GcadError,
>) -> bool {
    let units_ok = linspace_units_ok(start, stop, num);
    let cok = conv_ok(stop.mag, stop.unit, start.unit);
    let stop2 = spec_convert(stop, start.unit);
    let n = num.mag->Int_0;
    let count_ok = num.mag is Int && 1 <= n <= usize::MAX;
    let sub_ok = num_bin_ok(stop2, start, |a: MagV, b: MagV| mag_sub_ok(a, b));
    let diff = num_bin(stop2, start, |a: MagV, b: MagV| mag_sub(a, b));
    let div_ok = mag_div_ok(diff.mag, MagV::Int(n - 1));
    match out {
        Ok(v) => units_ok && cok && count_ok && n != 1 && sub_ok && div_ok && v == SvV::Range {
            start: start,
            step: NumberV { mag: mag_div(diff.mag, MagV::Int(n - 1)), unit: diff.unit },
            num: n as nat,
        },
        Err(e) => !(units_ok && cok && count_ok && n != 1 && sub_ok && div_ok) && e.kind == (
        if !units_ok {
            ErrorKind::Unit
        } else if !cok {
            ErrorKind::Overflow
        } else if !count_ok {
            ErrorKind::Type
        } else if n == 1 {
            ErrorKind::Domain
        } else {
            ErrorKind::Overflow
        }),
    }
}

/// What `scale` does: set the transform from two scalars.
pub open spec fn scale_rel(g0: GStateV, g1: GStateV, x: NumberV, y: NumberV, out: Result<
    SvV,
    GcadError,
>) -> bool {
    let units_ok = x.unit == Unit::Unitless && y.unit == Unit::Unitless;
    match out {
        Ok(v) => units_ok && v == SvV::Null && g1 == (GStateV {
            sx: mag_ratv(x.mag),
            sy: mag_ratv(y.mag),
            ..g0
        }),
        Err(e) => !units_ok && e.kind == ErrorKind::Unit && g1 == g0,
    }
}


pub open spec fn rpm_params() -> Seq<(Seq<char>, bool)> {
    seq![("rpm"@, true)]
}

pub open spec fn material_params() -> Seq<(Seq<char>, bool)> {
    seq![("name"@, true)]
}

pub open spec fn cutter_params() -> Seq<(Seq<char>, bool)> {
    seq![("diameter"@, true)]
}

pub open spec fn contour_params() -> Seq<(Seq<char>, bool)> {
    seq![
        ("x1"@, true),
        ("y1"@, true),
        ("x2"@, false),
        ("y2"@, false),
        ("depth"@, true),
        ("up"@, false),
    ]
}

pub open spec fn drill_params() -> Seq<(Seq<char>, bool)> {
    seq![("x"@, true), ("y"@, true), ("depth"@, true)]
}

pub open spec fn circle_params() -> Seq<(Seq<char>, bool)> {
    seq![("cx"@, true), ("cy"@, true), ("diameter"@, false), ("radius"@, false), ("depth"@, true)]
}

pub open spec fn define_material_params() -> Seq<(Seq<char>, bool)> {
    seq![
        ("name"@, true),
        ("stepover"@, true),
        ("depth_per_pass"@, true),
        ("feed_rate"@, true),
        ("plunge_rate"@, true),
        ("rpm"@, true),
    ]
}

pub open spec fn groove_params() -> Seq<(Seq<char>, bool)> {
    seq![("x"@, true), ("y"@, true), ("width"@, true), ("height"@, true), ("depth"@, true)]
}

pub open spec fn comment_params() -> Seq<(Seq<char>, bool)> {
    seq![("text"@, true)]
}

pub open spec fn linspace_params() -> Seq<(Seq<char>, bool)> {
    seq![("start"@, true), ("stop"@, true), ("num"@, true)]
}

pub open spec fn scale_params() -> Seq<(Seq<char>, bool)> {
    seq![("x"@, true), ("y"@, true)]
}

/// A whole `rpm` call: bind per the declared parameters, coerce, act.
pub open spec fn rpm_call_rel(
    g0: GStateV,
    g1: GStateV,
    av: Seq<SvV>,
    nv: Seq<(Seq<char>, SvV)>,
    out: Result<SvV, GcadError>,
) -> bool {
    let pv = rpm_params();
    if !bind_ok(pv, av, nv) {
        (out matches Err(e) && bind_err(pv, av, nv, e)) && g1 == g0
    } else if !slot_is_num(resolved(pv, av, nv, 0)) {
        (out matches Err(e) && e.kind == ErrorKind::Type) && g1 == g0
    } else {
        rpm_rel(g0, g1, num_of(resolved(pv, av, nv, 0)), out)
    }
}

/// A whole `material` call.
pub open spec fn material_call_rel(
    g0: GStateV,
    g1: GStateV,
    mats: Map<Seq<char>, crate::env::MaterialV>,
    av: Seq<SvV>,
    nv: Seq<(Seq<char>, SvV)>,
    out: Result<SvV, GcadError>,
) -> bool {
    let pv = material_params();
    if !bind_ok(pv, av, nv) {
        (out matches Err(e) && bind_err(pv, av, nv, e)) && g1 == g0
    } else if !slot_is_str(resolved(pv, av, nv, 0)) {
        (out matches Err(e) && e.kind == ErrorKind::Type) && g1 == g0
    } else {
        material_rel(g0, g1, mats, str_of(resolved(pv, av, nv, 0)), out)
    }
}

/// A whole `cutter_diameter` call.
pub open spec fn cutter_call_rel(
    g0: GStateV,
    g1: GStateV,
    av: Seq<SvV>,
    nv: Seq<(Seq<char>, SvV)>,
    out: Result<SvV, GcadError>,
) -> bool {
    let pv = cutter_params();
    if !bind_ok(pv, av, nv) {
        (out matches Err(e) && bind_err(pv, av, nv, e)) && g1 == g0
    } else if !slot_is_num(resolved(pv, av, nv, 0)) {
        (out matches Err(e) && e.kind == ErrorKind::Type) && g1 == g0
    } else {
        cutter_rel(g0, g1, num_of(resolved(pv, av, nv, 0)), out)
    }
}

/// A whole `contour_line` call, including the resolution of the end point:
/// either both of `x2`/`y2`, or `up` (then `x2 = x1`, `y2 = y1 + up`).
pub open spec fn contour_call_rel(
    g0: GStateV,
    g1: GStateV,
    av: Seq<SvV>,
    nv: Seq<(Seq<char>, SvV)>,
    out: Result<SvV, GcadError>,
) -> bool {
    let pv = contour_params();
    if !bind_ok(pv, av, nv) {
        (out matches Err(e) && bind_err(pv, av, nv, e)) && g1 == g0
    } else if !(slot_is_num(resolved(pv, av, nv, 0)) && slot_is_num(resolved(pv, av, nv, 1))
        && slot_is_opt_num(resolved(pv, av, nv, 2)) && slot_is_opt_num(resolved(pv, av, nv, 3))
        && slot_is_num(resolved(pv, av, nv, 4)) && slot_is_opt_num(resolved(pv, av, nv, 5))) {
        (out matches Err(e) && e.kind == ErrorKind::Type) && g1 == g0
    } else {
        let x1 = num_of(resolved(pv, av, nv, 0));
        let y1 = num_of(resolved(pv, av, nv, 1));
        let depth = num_of(resolved(pv, av, nv, 4));
        match opt_num_of(resolved(pv, av, nv, 5)) {
            Some(u) => if u.unit == Unit::Unitless {
                (out matches Err(e) && e.kind == ErrorKind::Unit) && g1 == g0
            } else if !num_bin_ok(y1, u, |a: MagV, b: MagV| crate::numbers::mag_add_ok(a, b)) {
                (out matches Err(e) && e.kind == ErrorKind::Overflow) && g1 == g0
            } else {
                contour_rel(
                    g0,
                    g1,
                    x1,
                    y1,
                    x1,
                    num_bin(y1, u, |a: MagV, b: MagV| crate::numbers::mag_add(a, b)),
                    depth,
                    out,
                )
            },
            None => match (opt_num_of(resolved(pv, av, nv, 2)), opt_num_of(resolved(pv, av, nv, 3))) {
                (Some(a), Some(b)) => contour_rel(g0, g1, x1, y1, a, b, depth, out),
                _ => (out matches Err(e) && e.kind == ErrorKind::Argument) && g1 == g0,
            },
        }
    }
}

/// A whole `drill` call.
pub open spec fn drill_call_rel(
    g0: GStateV,
    g1: GStateV,
    av: Seq<SvV>,
    nv: Seq<(Seq<char>, SvV)>,
    out: Result<SvV, GcadError>,
) -> bool {
    let pv = drill_params();
    if !bind_ok(pv, av, nv) {
        (out matches Err(e) && bind_err(pv, av, nv, e)) && g1 == g0
    } else if !(slot_is_num(resolved(pv, av, nv, 0)) && slot_is_num(resolved(pv, av, nv, 1))
        && slot_is_num(resolved(pv, av, nv, 2))) {
        (out matches Err(e) && e.kind == ErrorKind::Type) && g1 == g0
    } else {
        drill_rel(
            g0,
            g1,
            num_of(resolved(pv, av, nv, 0)),
            num_of(resolved(pv, av, nv, 1)),
            num_of(resolved(pv, av, nv, 2)),
            out,
        )
    }
}

/// A whole `circle_pocket` call, including the diameter-or-radius
/// resolution (twice the radius when the diameter is absent).
pub open spec fn circle_call_rel(
    g0: GStateV,
    g1: GStateV,
    av: Seq<SvV>,
    nv: Seq<(Seq<char>, SvV)>,
    out: Result<SvV, GcadError>,
) -> bool {
    let pv = circle_params();
    if !bind_ok(pv, av, nv) {
        (out matches Err(e) && bind_err(pv, av, nv, e)) && g1 == g0
    } else if !(slot_is_num(resolved(pv, av, nv, 0)) && slot_is_num(resolved(pv, av, nv, 1))
        && slot_is_opt_num(resolved(pv, av, nv, 2)) && slot_is_opt_num(resolved(pv, av, nv, 3))
        && slot_is_num(resolved(pv, av, nv, 4))) {
        (out matches Err(e) && e.kind == ErrorKind::Type) && g1 == g0
    } else {
        let cx = num_of(resolved(pv, av, nv, 0));
        let cy = num_of(resolved(pv, av, nv, 1));
        let depth = num_of(resolved(pv, av, nv, 4));
        match opt_num_of(resolved(pv, av, nv, 2)) {
            Some(d) => circle_rel(g0, g1, cx, cy, d, depth, out),
            None => match opt_num_of(resolved(pv, av, nv, 3)) {
                Some(rv) => if !num_bin_ok(
                    rv,
                    NumberV { mag: MagV::Int(2), unit: Unit::Unitless },
                    |a: MagV, b: MagV| crate::numbers::mag_mul_ok(a, b),
                ) {
                    (out matches Err(e) && e.kind == ErrorKind::Overflow) && g1 == g0
                } else {
                    circle_rel(
                        g0,
                        g1,
                        cx,
                        cy,
                        num_bin(
                            rv,
                            NumberV { mag: MagV::Int(2), unit: Unit::Unitless },
                            |a: MagV, b: MagV| crate::numbers::mag_mul(a, b),
                        ),
                        depth,
                        out,
                    )
                },
                None => (out matches Err(e) && e.kind == ErrorKind::Argument) && g1 == g0,
            },
        }
    }
}

/// A whole `define_material` call.
pub open spec fn define_material_call_rel(
    m0: Map<Seq<char>, crate::env::MaterialV>,
    m1: Map<Seq<char>, crate::env::MaterialV>,
    av: Seq<SvV>,
    nv: Seq<(Seq<char>, SvV)>,
    out: Result<SvV, GcadError>,
) -> bool {
    let pv = define_material_params();
    if !bind_ok(pv, av, nv) {
        (out matches Err(e) && bind_err(pv, av, nv, e)) && m1 == m0
    } else if !(slot_is_str(resolved(pv, av, nv, 0)) && slot_is_num(resolved(pv, av, nv, 1))
        && slot_is_num(resolved(pv, av, nv, 2)) && slot_is_num(resolved(pv, av, nv, 3))
        && slot_is_num(resolved(pv, av, nv, 4)) && slot_is_num(resolved(pv, av, nv, 5))) {
        (out matches Err(e) && e.kind == ErrorKind::Type) && m1 == m0
    } else {
        define_material_rel(
            m0,
            m1,
            str_of(resolved(pv, av, nv, 0)),
            num_of(resolved(pv, av, nv, 1)),
            num_of(resolved(pv, av, nv, 2)),
            num_of(resolved(pv, av, nv, 3)),
            num_of(resolved(pv, av, nv, 4)),
            num_of(resolved(pv, av, nv, 5)),
            out,
        )
    }
}

/// A whole `groove_pocket` call.
pub open spec fn groove_call_rel(
    g0: GStateV,
    g1: GStateV,
    av: Seq<SvV>,
    nv: Seq<(Seq<char>, SvV)>,
    out: Result<SvV, GcadError>,
) -> bool {
    let pv = groove_params();
    if !bind_ok(pv, av, nv) {
        (out matches Err(e) && bind_err(pv, av, nv, e)) && g1 == g0
    } else if !(slot_is_num(resolved(pv, av, nv, 0)) && slot_is_num(resolved(pv, av, nv, 1))
        && slot_is_num(resolved(pv, av, nv, 2)) && slot_is_num(resolved(pv, av, nv, 3))
        && slot_is_num(resolved(pv, av, nv, 4))) {
        (out matches Err(e) && e.kind == ErrorKind::Type) && g1 == g0
    } else {
        groove_rel(
            g0,
            g1,
            num_of(resolved(pv, av, nv, 0)),
            num_of(resolved(pv, av, nv, 1)),
            num_of(resolved(pv, av, nv, 2)),
            num_of(resolved(pv, av, nv, 3)),
            num_of(resolved(pv, av, nv, 4)),
            out,
        )
    }
}

/// A whole `comment` call.
pub open spec fn comment_call_rel(
    g0: GStateV,
    g1: GStateV,
    av: Seq<SvV>,
    nv: Seq<(Seq<char>, SvV)>,
    out: Result<SvV, GcadError>,
) -> bool {
    let pv = comment_params();
    if !bind_ok(pv, av, nv) {
        (out matches Err(e) && bind_err(pv, av, nv, e)) && g1 == g0
    } else if !slot_is_str(resolved(pv, av, nv, 0)) {
        (out matches Err(e) && e.kind == ErrorKind::Type) && g1 == g0
    } else {
        comment_rel(g0, g1, str_of(resolved(pv, av, nv, 0)), out)
    }
}

/// A whole `linspace` call; the G-code state never moves.
pub open spec fn linspace_call_rel(
    g0: GStateV,
    g1: GStateV,
    av: Seq<SvV>,
    nv: Seq<(Seq<char>, SvV)>,
    out: Result<SvV, GcadError>,
) -> bool {
    let pv = linspace_params();
    g1 == g0 && if !bind_ok(pv, av, nv) {
        out matches Err(e) && bind_err(pv, av, nv, e)
    } else if !(slot_is_num(resolved(pv, av, nv, 0)) && slot_is_num(resolved(pv, av, nv, 1))
        && slot_is_num(resolved(pv, av, nv, 2))) {
        out matches Err(e) && e.kind == ErrorKind::Type
    } else {
        linspace_rel(
            num_of(resolved(pv, av, nv, 0)),
            num_of(resolved(pv, av, nv, 1)),
            num_of(resolved(pv, av, nv, 2)),
            out,
        )
    }
}

/// A whole `scale` call.
pub open spec fn scale_call_rel(
    g0: GStateV,
    g1: GStateV,
    av: Seq<SvV>,
    nv: Seq<(Seq<char>, SvV)>,
    out: Result<SvV, GcadError>,
) -> bool {
    let pv = scale_params();
    if !bind_ok(pv, av, nv) {
        (out matches Err(e) && bind_err(pv, av, nv, e)) && g1 == g0
    } else if !(slot_is_num(resolved(pv, av, nv, 0)) && slot_is_num(resolved(pv, av, nv, 1))) {
        (out matches Err(e) && e.kind == ErrorKind::Type) && g1 == g0
    } else {
        scale_rel(g0, g1, num_of(resolved(pv, av, nv, 0)), num_of(resolved(pv, av, nv, 1)), out)
    }
}

fn unit_err(msg: &str) -> (r: GcadError)
    ensures
        r.kind == ErrorKind::Unit,
{
    GcadError::new(ErrorKind::Unit, msg.to_owned())
}

impl ScriptEngine {
    /// Set the spindle speed: the argument must be a pure scalar.
    pub fn do_rpm(&mut self, rpm: Number) -> (r: Result<ScriptValue, GcadError>)
        ensures
            rpm_rel(old(self).gcode@, final (self).gcode@, rpm@, outcome(r)),
            final (self).global_vars@ == old(self).global_vars@,
            final (self).materials@ == old(self).materials@,
            out_extends(old(self).gcode@, final (self).gcode@),
    {
        proof {
            lemma_extends_refl(self.gcode@);
        }
        let s = match rpm.as_scalar_rat() {
            Some(s) => s,
            None => {
                return Err(unit_err("rpm must be a plain number"));
            },
        };
        proof {
            lemma_spindle_extends(self.gcode@, s@);
        }
        self.gcode.set_rpm(s);
        Ok(ScriptValue::Null)
    }

    /// Apply a registered material preset: overwrite the live machining
    /// parameters and re-issue the spindle-speed command.
    pub fn do_material(&mut self, name: &String) -> (r: Result<ScriptValue, GcadError>)
        ensures
            material_rel(
                old(self).gcode@,
                final (self).gcode@,
                old(self).materials@,
                name@,
                outcome(r),
            ),
            final (self).global_vars@ == old(self).global_vars@,
            final (self).materials@ == old(self).materials@,
            out_extends(old(self).gcode@, final (self).gcode@),
    {
        let ghost g0 = self.gcode@;
        proof {
            lemma_extends_refl(g0);
        }
        let m = match self.materials.get(name) {
            Some(m) => m,
            None => {
                return Err(
                    GcadError::named(
                        ErrorKind::Name,
                        "unknown material".to_owned(),
                        name.clone(),
                    ),
                );
            },
        };
        self.gcode.stepover = m.stepover;
        self.gcode.depth_per_pass = m.depth_per_pass;
        self.gcode.feed_rate = m.feed_rate;
        self.gcode.plunge_rate = m.plunge_rate;
        proof {
            lemma_spindle_extends(self.gcode@, m@.rpm);
            assert(out_extends(g0, spindle_step(self.gcode@, m@.rpm)));
        }
        self.gcode.set_rpm(m.rpm);
        Ok(ScriptValue::Null)
    }

    /// Set the active tool diameter, in millimeters.
    pub fn do_cutter_diameter(&mut self, diameter: Number) -> (r: Result<ScriptValue, GcadError>)
        ensures
            cutter_rel(old(self).gcode@, final (self).gcode@, diameter@, outcome(r)),
            final (self).global_vars@ == old(self).global_vars@,
            final (self).materials@ == old(self).materials@,
            out_extends(old(self).gcode@, final (self).gcode@),
    {
        proof {
            lemma_extends_refl(self.gcode@);
        }
        if matches!(diameter.unit, Unit::Unitless) {
            return Err(unit_err("diameter must have a unit"));
        }
        let mm = self.mm_of(diameter)?;
        self.gcode.cutter_diameter = mm;
        proof {
            assert(final (self).gcode@ =~= (GStateV {
                cutter_diameter: spec_mm(diameter@),
                ..old(self).gcode@
            }));
        }
        Ok(ScriptValue::Null)
    }

    /// A number's value in millimeters; overflow is the only failure.
    fn mm_of(&self, n: Number) -> (r: Result<Rat, GcadError>)
        ensures
            match r {
                Ok(q) => mm_ok(n@) && q@ == spec_mm(n@),
                Err(e) => !mm_ok(n@) && e.kind == ErrorKind::Overflow,
            },
    {
        n.mm_value()
    }

    /// Drill a hole; all three arguments must carry units.
    pub fn do_drill(&mut self, x: Number, y: Number, depth: Number) -> (r: Result<
        ScriptValue,
        GcadError,
    >)
        ensures
            drill_rel(old(self).gcode@, final (self).gcode@, x@, y@, depth@, outcome(r)),
            final (self).global_vars@ == old(self).global_vars@,
            final (self).materials@ == old(self).materials@,
            out_extends(old(self).gcode@, final (self).gcode@),
    {
        proof {
            lemma_extends_refl(self.gcode@);
        }
        if matches!(x.unit, Unit::Unitless) || matches!(y.unit, Unit::Unitless) || matches!(
            depth.unit,
            Unit::Unitless,
        ) {
            return Err(unit_err("all arguments must have a unit"));
        }
        let xm = self.mm_of(x)?;
        let ym = self.mm_of(y)?;
        let dm = self.mm_of(depth)?;
        self.gcode.drill(xm, ym, dm)?;
        Ok(ScriptValue::Null)
    }

    /// Cut a straight multi-pass line; all dimensioned arguments must carry
    /// units.
    pub fn do_contour_line(
        &mut self,
        x1: Number,
        y1: Number,
        x2: Number,
        y2: Number,
        depth: Number,
    ) -> (r: Result<ScriptValue, GcadError>)
        ensures
            contour_rel(old(self).gcode@, final (self).gcode@, x1@, y1@, x2@, y2@, depth@, outcome(r)),
            final (self).global_vars@ == old(self).global_vars@,
            final (self).materials@ == old(self).materials@,
            out_extends(old(self).gcode@, final (self).gcode@),
    {
        proof {
            lemma_extends_refl(self.gcode@);
        }
        if matches!(x1.unit, Unit::Unitless) || matches!(y1.unit, Unit::Unitless) || matches!(
            x2.unit,
            Unit::Unitless,
        ) || matches!(y2.unit, Unit::Unitless) || matches!(depth.unit, Unit::Unitless) {
            return Err(unit_err("all arguments must have a unit"));
        }
        let a = self.mm_of(x1)?;
        let b = self.mm_of(y1)?;
        let c = self.mm_of(x2)?;
        let d = self.mm_of(y2)?;
        let e = self.mm_of(depth)?;
        self.gcode.contour_line(a, b, c, d, e)?;
        Ok(ScriptValue::Null)
    }

    /// Cut a circular pocket.  The diameter must exceed the cutter diameter.
    pub fn do_circle_pocket(
        &mut self,
        cx: Number,
        cy: Number,
        diameter: Number,
        depth: Number,
    ) -> (r: Result<ScriptValue, GcadError>)
        ensures
            circle_rel(old(self).gcode@, final (self).gcode@, cx@, cy@, diameter@, depth@, outcome(r)),
            final (self).global_vars@ == old(self).global_vars@,
            final (self).materials@ == old(self).materials@,
            out_extends(old(self).gcode@, final (self).gcode@),
    {
        proof {
            lemma_extends_refl(self.gcode@);
        }
        if matches!(cx.unit, Unit::Unitless) || matches!(cy.unit, Unit::Unitless) || matches!(
            diameter.unit,
            Unit::Unitless,
        ) || matches!(depth.unit, Unit::Unitless) {
            return Err(unit_err("all arguments must have a unit"));
        }
        let a = self.mm_of(cx)?;
        let b = self.mm_of(cy)?;
        let c = self.mm_of(diameter)?;
        let d = self.mm_of(depth)?;
        self.gcode.circle_pocket(a, b, c, d)?;
        Ok(ScriptValue::Null)
    }

    /// Cut a spiral rectangular pocket with lower-left corner (x, y).
    pub fn do_groove_pocket(
        &mut self,
        x: Number,
        y: Number,
        width: Number,
        height: Number,
        depth: Number,
    ) -> (r: Result<ScriptValue, GcadError>)
        ensures
            groove_rel(
                old(self).gcode@,
                final (self).gcode@,
                x@,
                y@,
                width@,
                height@,
                depth@,
                outcome(r),
            ),
            final (self).global_vars@ == old(self).global_vars@,
            final (self).materials@ == old(self).materials@,
            out_extends(old(self).gcode@, final (self).gcode@),
    {
        proof {
            lemma_extends_refl(self.gcode@);
        }
        if matches!(x.unit, Unit::Unitless) || matches!(y.unit, Unit::Unitless) || matches!(
            width.unit,
            Unit::Unitless,
        ) || matches!(height.unit, Unit::Unitless) || matches!(depth.unit, Unit::Unitless) {
            return Err(unit_err("all arguments must have a unit"));
        }
        let a = self.mm_of(x)?;
        let b = self.mm_of(y)?;
        let c = self.mm_of(width)?;
        let d = self.mm_of(height)?;
        let e = self.mm_of(depth)?;
        self.gcode.groove_pocket(a, b, c, d, e)?;
        Ok(ScriptValue::Null)
    }

    /// Register (or overwrite) a material preset; every parameter must be a
    /// pure scalar.
    pub fn do_define_material(
        &mut self,
        name: String,
        stepover: Number,
        depth_per_pass: Number,
        feed_rate: Number,
        plunge_rate: Number,
        rpm: Number,
    ) -> (r: Result<ScriptValue, GcadError>)
        ensures
            define_material_rel(
                old(self).materials@,
                final (self).materials@,
                name@,
                stepover@,
                depth_per_pass@,
                feed_rate@,
                plunge_rate@,
                rpm@,
                outcome(r),
            ),
            final (self).global_vars@ == old(self).global_vars@,
            final (self).gcode@ == old(self).gcode@,
            out_extends(old(self).gcode@, final (self).gcode@),
    {
        proof {
            lemma_extends_refl(self.gcode@);
        }
        let so = match stepover.as_scalar_rat() {
            Some(v) => v,
            None => {
                return Err(unit_err("stepover must be a plain number"));
            },
        };
        let dpp = match depth_per_pass.as_scalar_rat() {
            Some(v) => v,
            None => {
                return Err(unit_err("depth_per_pass must be a plain number"));
            },
        };
        let fr = match feed_rate.as_scalar_rat() {
            Some(v) => v,
            None => {
                return Err(unit_err("feed_rate must be a plain number"));
            },
        };
        let pr = match plunge_rate.as_scalar_rat() {
            Some(v) => v,
            None => {
                return Err(unit_err("plunge_rate must be a plain number"));
            },
        };
        let rv = match rpm.as_scalar_rat() {
            Some(v) => v,
            None => {
                return Err(unit_err("rpm must be a plain number"));
            },
        };
        self.materials.set(
            name,
            Material { stepover: so, depth_per_pass: dpp, feed_rate: fr, plunge_rate: pr, rpm: rv },
        );
        Ok(ScriptValue::Null)
    }

    /// Emit a comment line.
    pub fn do_comment(&mut self, text: &String) -> (r: ScriptValue)
        ensures
            comment_rel(old(self).gcode@, final (self).gcode@, text@, Ok(r@)),
            final (self).global_vars@ == old(self).global_vars@,
            final (self).materials@ == old(self).materials@,
            out_extends(old(self).gcode@, final (self).gcode@),
    {
        proof {
            lemma_comment_extends(self.gcode@, text@);
        }
        self.gcode.write_comment(text.as_str());
        ScriptValue::Null
    }

    /// Produce a lazy arithmetic sequence of `num` values from `start` with
    /// step `(stop - start) / (num - 1)`, `stop` first brought to `start`'s
    /// unit.  `num` must be a unitless integer, nonnegative; a count of one
    /// would divide by zero and is a domain error.
    pub fn do_linspace(&mut self, start: Number, stop: Number, num: Number) -> (r: Result<
        ScriptValue,
        GcadError,
    >)
        ensures
            linspace_rel(start@, stop@, num@, outcome(r)),
            final (self).global_vars@ == old(self).global_vars@,
            final (self).materials@ == old(self).materials@,
            final (self).gcode@ == old(self).gcode@,
            out_extends(old(self).gcode@, final (self).gcode@),
    {
        proof {
            lemma_extends_refl(self.gcode@);
        }
        if !matches!(num.unit, Unit::Unitless) {
            return Err(unit_err("num must not have a unit"));
        }
        if matches!(start.unit, Unit::Unitless) && !matches!(stop.unit, Unit::Unitless) {
            return Err(unit_err("start must have a unit if stop has a unit"));
        }
        if !matches!(start.unit, Unit::Unitless) && matches!(stop.unit, Unit::Unitless) {
            return Err(unit_err("stop must have a unit if start has a unit"));
        }
        let stop2 = stop.convert_unit(start.unit)?;
        let n = match num.as_int() {
            Some(n) => n,
            None => {
                return Err(
                    GcadError::new(ErrorKind::Type, "num argument must be an integer".to_owned()),
                );
            },
        };
        if n < 1 || n as u64 > usize::MAX as u64 {
            return Err(
                GcadError::new(
                    ErrorKind::Type,
                    "num argument must be a positive integer".to_owned(),
                ),
            );
        }
        if n == 1 {
            return Err(
                GcadError::new(
                    ErrorKind::Domain,
                    "a range of one value has no step".to_owned(),
                ),
            );
        }
        let diff = stop2.sub(start)?;
        let step = diff.div(Number::from_int(n - 1))?;
        Ok(ScriptValue::Range { start, step, num: n as usize })
    }

    /// Set the 2D coordinate transform to a non-uniform scale; both factors
    /// must be pure scalars.
    pub fn do_scale(&mut self, x: Number, y: Number) -> (r: Result<ScriptValue, GcadError>)
        ensures
            scale_rel(old(self).gcode@, final (self).gcode@, x@, y@, outcome(r)),
            final (self).global_vars@ == old(self).global_vars@,
            final (self).materials@ == old(self).materials@,
            out_extends(old(self).gcode@, final (self).gcode@),
    {
        proof {
            lemma_extends_refl(self.gcode@);
        }
        let sx = match x.as_scalar_rat() {
            Some(v) => v,
            None => {
                return Err(unit_err("all arguments must not have a unit"));
            },
        };
        let sy = match y.as_scalar_rat() {
            Some(v) => v,
            None => {
                return Err(unit_err("all arguments must not have a unit"));
            },
        };
        self.gcode.set_scale(sx, sy);
        Ok(ScriptValue::Null)
    }
}

/// The optional-view of an optional number.
pub open spec fn onv(o: Option<Number>) -> Option<NumberV> {
    match o {
        Some(n) => Some(n@),
        None => None,
    }
}

impl ScriptEngine {
    /// Resolve a contour line's end point: either both of `x2`/`y2`, or
    /// `up` (meaning `x2 = x1`, `y2 = y1 + up`, which must carry a unit)
    /// must be given.
    pub fn resolve_contour_end(
        &self,
        x1: Number,
        y1: Number,
        x2: Option<Number>,
        y2: Option<Number>,
        up: Option<Number>,
    ) -> (r: Result<(Number, Number), GcadError>)
        ensures
            match r {
                Ok(p) => match onv(up) {
                    Some(u) => u.unit != Unit::Unitless && num_bin_ok(
                        y1@,
                        u,
                        |a: MagV, b: MagV| crate::numbers::mag_add_ok(a, b),
                    ) && p.0@ == x1@ && p.1@ == num_bin(
                        y1@,
                        u,
                        |a: MagV, b: MagV| crate::numbers::mag_add(a, b),
                    ),
                    None => onv(x2) matches Some(a) && onv(y2) matches Some(b) && p.0@ == a && p.1@
                        == b,
                },
                Err(e) => match onv(up) {
                    Some(u) => if u.unit == Unit::Unitless {
                        e.kind == ErrorKind::Unit
                    } else {
                        e.kind == ErrorKind::Overflow && !num_bin_ok(
                            y1@,
                            u,
                            |a: MagV, b: MagV| crate::numbers::mag_add_ok(a, b),
                        )
                    },
                    None => (onv(x2) is None || onv(y2) is None) && e.kind == ErrorKind::Argument,
                },
            },
    {
        match up {
            Some(u) => {
                if matches!(u.unit, Unit::Unitless) {
                    return Err(unit_err("up must have a unit"));
                }
                let ny = y1.add(u)?;
                Ok((x1, ny))
            },
            None => match (x2, y2) {
                (Some(a), Some(b)) => Ok((a, b)),
                _ => Err(
                    GcadError::new(
                        ErrorKind::Argument,
                        "either x2/y2 must be specified or another argument like up".to_owned(),
                    ),
                ),
            },
        }
    }

    /// Resolve a circular pocket's diameter: exactly the given diameter, or
    /// twice the radius, else an argument error.
    pub fn resolve_circle_diameter(
        &self,
        diameter: Option<Number>,
        radius: Option<Number>,
    ) -> (r: Result<Number, GcadError>)
        ensures
            match r {
                Ok(d) => match onv(diameter) {
                    Some(dv) => d@ == dv,
                    None => onv(radius) matches Some(rv) && num_bin_ok(
                        rv,
                        NumberV { mag: MagV::Int(2), unit: Unit::Unitless },
                        |a: MagV, b: MagV| crate::numbers::mag_mul_ok(a, b),
                    ) && d@ == num_bin(
                        rv,
                        NumberV { mag: MagV::Int(2), unit: Unit::Unitless },
                        |a: MagV, b: MagV| crate::numbers::mag_mul(a, b),
                    ),
                },
                Err(e) => match onv(diameter) {
                    Some(_) => false,
                    None => match onv(radius) {
                        Some(rv) => e.kind == ErrorKind::Overflow && !num_bin_ok(
                            rv,
                            NumberV { mag: MagV::Int(2), unit: Unit::Unitless },
                            |a: MagV, b: MagV| crate::numbers::mag_mul_ok(a, b),
                        ),
                        None => e.kind == ErrorKind::Argument,
                    },
                },
            },
    {
        match diameter {
            Some(d) => Ok(d),
            None => match radius {
                Some(rr) => {
                    let two = Number::from_int(2);
                    let d = rr.mul(two)?;
                    Ok(d)
                },
                None => Err(
                    GcadError::new(
                        ErrorKind::Argument,
                        "either diameter or radius must be specified".to_owned(),
                    ),
                ),
            },
        }
    }
}

/// The names the dispatcher recognizes.
pub open spec fn is_builtin_name(n: Seq<char>) -> bool {
    ||| n == "rpm"@
    ||| n == "material"@
    ||| n == "cutter_diameter"@
    ||| n == "contour_line"@
    ||| n == "define_material"@
    ||| n == "drill"@
    ||| n == "circle_pocket"@
    ||| n == "groove_pocket"@
    ||| n == "comment"@
    ||| n == "linspace"@
    ||| n == "scale"@
}

impl ScriptEngine {
    fn builtin_rpm(
        &mut self,
        args: &Vec<ScriptValue>,
        nargs: &Vec<(String, ScriptValue)>,
    ) -> (r: Result<ScriptValue, GcadError>)
        ensures
            final (self).global_vars@ == old(self).global_vars@,
            final (self).materials@ == old(self).materials@,
            out_extends(old(self).gcode@, final (self).gcode@),
            rpm_call_rel(
                old(self).gcode@,
                final (self).gcode@,
                args_v(args@),
                named_v(nargs@),
                outcome(r),
            ),
    {
        proof {
            lemma_extends_refl(self.gcode@);
        }
        let params = vec![ParamSpec { name: "rpm", required: true }];
        proof {
            assert(params_v(params@) =~= rpm_params());
        }
        let b = bind("rpm", &params, args, nargs)?;
        let rpm = coerce_number(slot_at(&b, 0), 0)?;
        self.do_rpm(rpm)
    }

    fn builtin_material(
        &mut self,
        args: &Vec<ScriptValue>,
        nargs: &Vec<(String, ScriptValue)>,
    ) -> (r: Result<ScriptValue, GcadError>)
        ensures
            final (self).global_vars@ == old(self).global_vars@,
            final (self).materials@ == old(self).materials@,
            out_extends(old(self).gcode@, final (self).gcode@),
            material_call_rel(
                old(self).gcode@,
                final (self).gcode@,
                old(self).materials@,
                args_v(args@),
                named_v(nargs@),
                outcome(r),
            ),
    {
        proof {
            lemma_extends_refl(self.gcode@);
        }
        let params = vec![ParamSpec { name: "name", required: true }];
        proof {
            assert(params_v(params@) =~= material_params());
        }
        let b = bind("material", &params, args, nargs)?;
        let name = coerce_string(slot_at(&b, 0), 0)?;
        self.do_material(&name)
    }

    fn builtin_cutter_diameter(
        &mut self,
        args: &Vec<ScriptValue>,
        nargs: &Vec<(String, ScriptValue)>,
    ) -> (r: Result<ScriptValue, GcadError>)
        ensures
            final (self).global_vars@ == old(self).global_vars@,
            final (self).materials@ == old(self).materials@,
            out_extends(old(self).gcode@, final (self).gcode@),
            cutter_call_rel(
                old(self).gcode@,
                final (self).gcode@,
                args_v(args@),
                named_v(nargs@),
                outcome(r),
            ),
    {
        proof {
            lemma_extends_refl(self.gcode@);
        }
        let params = vec![ParamSpec { name: "diameter", required: true }];
        proof {
            assert(params_v(params@) =~= cutter_params());
        }
        let b = bind("cutter_diameter", &params, args, nargs)?;
        let d = coerce_number(slot_at(&b, 0), 0)?;
        self.do_cutter_diameter(d)
    }

    fn builtin_contour_line(
        &mut self,
        args: &Vec<ScriptValue>,
        nargs: &Vec<(String, ScriptValue)>,
    ) -> (r: Result<ScriptValue, GcadError>)
        ensures
            final (self).global_vars@ == old(self).global_vars@,
            final (self).materials@ == old(self).materials@,
            out_extends(old(self).gcode@, final (self).gcode@),
            contour_call_rel(
                old(self).gcode@,
                final (self).gcode@,
                args_v(args@),
                named_v(nargs@),
                outcome(r),
            ),
    {
        proof {
            lemma_extends_refl(self.gcode@);
        }
        let params = vec![
            ParamSpec { name: "x1", required: true },
            ParamSpec { name: "y1", required: true },
            ParamSpec { name: "x2", required: false },
            ParamSpec { name: "y2", required: false },
            ParamSpec { name: "depth", required: true },
            ParamSpec { name: "up", required: false },
        ];
        proof {
            assert(params_v(params@) =~= contour_params());
        }
        let b = bind("contour_line", &params, args, nargs)?;
        let x1 = coerce_number(slot_at(&b, 0), 0)?;
        let y1 = coerce_number(slot_at(&b, 1), 1)?;
        let x2 = coerce_number_opt(slot_at(&b, 2), 2)?;
        let y2 = coerce_number_opt(slot_at(&b, 3), 3)?;
        let depth = coerce_number(slot_at(&b, 4), 4)?;
        let up = coerce_number_opt(slot_at(&b, 5), 5)?;
        let (ex, ey) = self.resolve_contour_end(x1, y1, x2, y2, up)?;
        self.do_contour_line(x1, y1, ex, ey, depth)
    }

    fn builtin_drill(
        &mut self,
        args: &Vec<ScriptValue>,
        nargs: &Vec<(String, ScriptValue)>,
    ) -> (r: Result<ScriptValue, GcadError>)
        ensures
            final (self).global_vars@ == old(self).global_vars@,
            final (self).materials@ == old(self).materials@,
            out_extends(old(self).gcode@, final (self).gcode@),
            drill_call_rel(
                old(self).gcode@,
                final (self).gcode@,
                args_v(args@),
                named_v(nargs@),
                outcome(r),
            ),
    {
        proof {
            lemma_extends_refl(self.gcode@);
        }
        let params = vec![
            ParamSpec { name: "x", required: true },
            ParamSpec { name: "y", required: true },
            ParamSpec { name: "depth", required: true },
        ];
        proof {
            assert(params_v(params@) =~= drill_params());
        }
        let b = bind("drill", &params, args, nargs)?;
        let x = coerce_number(slot_at(&b, 0), 0)?;
        let y = coerce_number(slot_at(&b, 1), 1)?;
        let depth = coerce_number(slot_at(&b, 2), 2)?;
        self.do_drill(x, y, depth)
    }

    fn builtin_circle_pocket(
        &mut self,
        args: &Vec<ScriptValue>,
        nargs: &Vec<(String, ScriptValue)>,
    ) -> (r: Result<ScriptValue, GcadError>)
        ensures
            final (self).global_vars@ == old(self).global_vars@,
            final (self).materials@ == old(self).materials@,
            out_extends(old(self).gcode@, final (self).gcode@),
            circle_call_rel(
                old(self).gcode@,
                final (self).gcode@,
                args_v(args@),
                named_v(nargs@),
                outcome(r),
            ),
    {
        proof {
            lemma_extends_refl(self.gcode@);
        }
        let params = vec![
            ParamSpec { name: "cx", required: true },
            ParamSpec { name: "cy", required: true },
            ParamSpec { name: "diameter", required: false },
            ParamSpec { name: "radius", required: false },
            ParamSpec { name: "depth", required: true },
        ];
        proof {
            assert(params_v(params@) =~= circle_params());
        }
        let b = bind("circle_pocket", &params, args, nargs)?;
        let cx = coerce_number(slot_at(&b, 0), 0)?;
        let cy = coerce_number(slot_at(&b, 1), 1)?;
        let diameter = coerce_number_opt(slot_at(&b, 2), 2)?;
        let radius = coerce_number_opt(slot_at(&b, 3), 3)?;
        let depth = coerce_number(slot_at(&b, 4), 4)?;
        let d = self.resolve_circle_diameter(diameter, radius)?;
        self.do_circle_pocket(cx, cy, d, depth)
    }

    fn builtin_define_material(
        &mut self,
        args: &Vec<ScriptValue>,
        nargs: &Vec<(String, ScriptValue)>,
    ) -> (r: Result<ScriptValue, GcadError>)
        ensures
            final (self).global_vars@ == old(self).global_vars@,
            final (self).gcode@ == old(self).gcode@,
            out_extends(old(self).gcode@, final (self).gcode@),
            define_material_call_rel(
                old(self).materials@,
                final (self).materials@,
                args_v(args@),
                named_v(nargs@),
                outcome(r),
            ),
    {
        proof {
            lemma_extends_refl(self.gcode@);
        }
        let params = vec![
            ParamSpec { name: "name", required: true },
            ParamSpec { name: "stepover", required: true },
            ParamSpec { name: "depth_per_pass", required: true },
            ParamSpec { name: "feed_rate", required: true },
            ParamSpec { name: "plunge_rate", required: true },
            ParamSpec { name: "rpm", required: true },
        ];
        proof {
            assert(params_v(params@) =~= define_material_params());
        }
        let b = bind("define_material", &params, args, nargs)?;
        let name = coerce_string(slot_at(&b, 0), 0)?;
        let so = coerce_number(slot_at(&b, 1), 1)?;
        let dpp = coerce_number(slot_at(&b, 2), 2)?;
        let fr = coerce_number(slot_at(&b, 3), 3)?;
        let pr = coerce_number(slot_at(&b, 4), 4)?;
        let rpm = coerce_number(slot_at(&b, 5), 5)?;
        self.do_define_material(name, so, dpp, fr, pr, rpm)
    }

    fn builtin_groove_pocket(
        &mut self,
        args: &Vec<ScriptValue>,
        nargs: &Vec<(String, ScriptValue)>,
    ) -> (r: Result<ScriptValue, GcadError>)
        ensures
            final (self).global_vars@ == old(self).global_vars@,
            final (self).materials@ == old(self).materials@,
            out_extends(old(self).gcode@, final (self).gcode@),
            groove_call_rel(
                old(self).gcode@,
                final (self).gcode@,
                args_v(args@),
                named_v(nargs@),
                outcome(r),
            ),
    {
        proof {
            lemma_extends_refl(self.gcode@);
        }
        let params = vec![
            ParamSpec { name: "x", required: true },
            ParamSpec { name: "y", required: true },
            ParamSpec { name: "width", required: true },
            ParamSpec { name: "height", required: true },
            ParamSpec { name: "depth", required: true },
        ];
        proof {
            assert(params_v(params@) =~= groove_params());
        }
        let b = bind("groove_pocket", &params, args, nargs)?;
        let x = coerce_number(slot_at(&b, 0), 0)?;
        let y = coerce_number(slot_at(&b, 1), 1)?;
        let w = coerce_number(slot_at(&b, 2), 2)?;
        let h = coerce_number(slot_at(&b, 3), 3)?;
        let depth = coerce_number(slot_at(&b, 4), 4)?;
        self.do_groove_pocket(x, y, w, h, depth)
    }

    fn builtin_comment(
        &mut self,
        args: &Vec<ScriptValue>,
        nargs: &Vec<(String, ScriptValue)>,
    ) -> (r: Result<ScriptValue, GcadError>)
        ensures
            final (self).global_vars@ == old(self).global_vars@,
            final (self).materials@ == old(self).materials@,
            out_extends(old(self).gcode@, final (self).gcode@),
            comment_call_rel(
                old(self).gcode@,
                final (self).gcode@,
                args_v(args@),
                named_v(nargs@),
                outcome(r),
            ),
    {
        proof {
            lemma_extends_refl(self.gcode@);
        }
        let params = vec![ParamSpec { name: "text", required: true }];
        proof {
            assert(params_v(params@) =~= comment_params());
        }
        let b = bind("comment", &params, args, nargs)?;
        let text = coerce_string(slot_at(&b, 0), 0)?;
        Ok(self.do_comment(&text))
    }

    fn builtin_linspace(
        &mut self,
        args: &Vec<ScriptValue>,
        nargs: &Vec<(String, ScriptValue)>,
    ) -> (r: Result<ScriptValue, GcadError>)
        ensures
            final (self).global_vars@ == old(self).global_vars@,
            final (self).materials@ == old(self).materials@,
            out_extends(old(self).gcode@, final (self).gcode@),
            linspace_call_rel(
                old(self).gcode@,
                final (self).gcode@,
                args_v(args@),
                named_v(nargs@),
                outcome(r),
            ),
    {
        proof {
            lemma_extends_refl(self.gcode@);
        }
        let params = vec![
            ParamSpec { name: "start", required: true },
            ParamSpec { name: "stop", required: true },
            ParamSpec { name: "num", required: true },
        ];
        proof {
            assert(params_v(params@) =~= linspace_params());
        }
        let b = bind("linspace", &params, args, nargs)?;
        let start = coerce_number(slot_at(&b, 0), 0)?;
        let stop = coerce_number(slot_at(&b, 1), 1)?;
        let num = coerce_number(slot_at(&b, 2), 2)?;
        self.do_linspace(start, stop, num)
    }

    fn builtin_scale(
        &mut self,
        args: &Vec<ScriptValue>,
        nargs: &Vec<(String, ScriptValue)>,
    ) -> (r: Result<ScriptValue, GcadError>)
        ensures
            final (self).global_vars@ == old(self).global_vars@,
            final (self).materials@ == old(self).materials@,
            out_extends(old(self).gcode@, final (self).gcode@),
            scale_call_rel(
                old(self).gcode@,
                final (self).gcode@,
                args_v(args@),
                named_v(nargs@),
                outcome(r),
            ),
    {
        proof {
            lemma_extends_refl(self.gcode@);
        }
        let params = vec![
            ParamSpec { name: "x", required: true },
            ParamSpec { name: "y", required: true },
        ];
        proof {
            assert(params_v(params@) =~= scale_params());
        }
        let b = bind("scale", &params, args, nargs)?;
        let x = coerce_number(slot_at(&b, 0), 0)?;
        let y = coerce_number(slot_at(&b, 1), 1)?;
        self.do_scale(x, y)
    }

    /// Dispatch a call by builtin name; `Ok(None)` exactly when the name
    /// matches no builtin.
    pub fn call_builtin(
        &mut self,
        ident: &str,
        args: &Vec<ScriptValue>,
        nargs: &Vec<(String, ScriptValue)>,
    ) -> (r: Result<Option<ScriptValue>, GcadError>)
        ensures
            r matches Ok(o) && o is None ==> !is_builtin_name(ident@),
            !is_builtin_name(ident@) ==> (r matches Ok(o) && o is None),
            final (self).global_vars@ == old(self).global_vars@,
            ident@ != "define_material"@ ==> final (self).materials@ == old(self).materials@,
            out_extends(old(self).gcode@, final (self).gcode@),
            ident@ == "rpm"@ ==> rpm_call_rel(
                old(self).gcode@,
                final (self).gcode@,
                args_v(args@),
                named_v(nargs@),
                outcome_opt(r),
            ),
            ident@ == "material"@ ==> material_call_rel(
                old(self).gcode@,
                final (self).gcode@,
                old(self).materials@,
                args_v(args@),
                named_v(nargs@),
                outcome_opt(r),
            ),
            ident@ == "cutter_diameter"@ ==> cutter_call_rel(
                old(self).gcode@,
                final (self).gcode@,
                args_v(args@),
                named_v(nargs@),
                outcome_opt(r),
            ),
            ident@ == "contour_line"@ ==> contour_call_rel(
                old(self).gcode@,
                final (self).gcode@,
                args_v(args@),
                named_v(nargs@),
                outcome_opt(r),
            ),
            ident@ == "drill"@ ==> drill_call_rel(
                old(self).gcode@,
                final (self).gcode@,
                args_v(args@),
                named_v(nargs@),
                outcome_opt(r),
            ),
            ident@ == "circle_pocket"@ ==> circle_call_rel(
                old(self).gcode@,
                final (self).gcode@,
                args_v(args@),
                named_v(nargs@),
                outcome_opt(r),
            ),
            ident@ == "define_material"@ ==> define_material_call_rel(
                old(self).materials@,
                final (self).materials@,
                args_v(args@),
                named_v(nargs@),
                outcome_opt(r),
            ) && final (self).gcode@ == old(self).gcode@,
            ident@ == "groove_pocket"@ ==> groove_call_rel(
                old(self).gcode@,
                final (self).gcode@,
                args_v(args@),
                named_v(nargs@),
                outcome_opt(r),
            ),
            ident@ == "comment"@ ==> comment_call_rel(
                old(self).gcode@,
                final (self).gcode@,
                args_v(args@),
                named_v(nargs@),
                outcome_opt(r),
            ),
            ident@ == "linspace"@ ==> linspace_call_rel(
                old(self).gcode@,
                final (self).gcode@,
                args_v(args@),
                named_v(nargs@),
                outcome_opt(r),
            ),
            ident@ == "scale"@ ==> scale_call_rel(
                old(self).gcode@,
                final (self).gcode@,
                args_v(args@),
                named_v(nargs@),
                outcome_opt(r),
            ),
            r matches Err(e) ==> e.kind != ErrorKind::Syntax,
    {
        proof {
            lemma_extends_refl(self.gcode@);
            reveal_strlit("rpm");
            reveal_strlit("material");
            reveal_strlit("cutter_diameter");
            reveal_strlit("contour_line");
            reveal_strlit("define_material");
            reveal_strlit("drill");
            reveal_strlit("circle_pocket");
            reveal_strlit("groove_pocket");
            reveal_strlit("comment");
            reveal_strlit("linspace");
            reveal_strlit("scale");
            assert("rpm"@.len() == 3);
            assert("material"@.len() == 8);
            assert("cutter_diameter"@.len() == 15);
            assert("contour_line"@.len() == 12);
            assert("define_material"@.len() == 15);
            assert("drill"@.len() == 5);
            assert("circle_pocket"@.len() == 13);
            assert("groove_pocket"@.len() == 13);
            assert("comment"@.len() == 7);
            assert("linspace"@.len() == 8);
            assert("scale"@.len() == 5);
            assert("material"@[0] == 'm');
            assert("linspace"@[0] == 'l');
            assert("cutter_diameter"@[0] == 'c');
            assert("define_material"@[0] == 'd');
            assert("circle_pocket"@[0] == 'c');
            assert("groove_pocket"@[0] == 'g');
            assert("drill"@[0] == 'd');
            assert("scale"@[0] == 's');
            assert("rpm"@ != "material"@);
            assert("rpm"@ != "cutter_diameter"@);
            assert("rpm"@ != "contour_line"@);
            assert("rpm"@ != "define_material"@);
            assert("rpm"@ != "drill"@);
            assert("rpm"@ != "circle_pocket"@);
            assert("rpm"@ != "groove_pocket"@);
            assert("rpm"@ != "comment"@);
            assert("rpm"@ != "linspace"@);
            assert("rpm"@ != "scale"@);
            assert("material"@ != "cutter_diameter"@);
            assert("material"@ != "contour_line"@);
            assert("material"@ != "define_material"@);
            assert("material"@ != "drill"@);
            assert("material"@ != "circle_pocket"@);
            assert("material"@ != "groove_pocket"@);
            assert("material"@ != "comment"@);
            assert("material"@ != "linspace"@);
            assert("material"@ != "scale"@);
            assert("cutter_diameter"@ != "contour_line"@);
            assert("cutter_diameter"@ != "define_material"@);
            assert("cutter_diameter"@ != "drill"@);
            assert("cutter_diameter"@ != "circle_pocket"@);
            assert("cutter_diameter"@ != "groove_pocket"@);
            assert("cutter_diameter"@ != "comment"@);
            assert("cutter_diameter"@ != "linspace"@);
            assert("cutter_diameter"@ != "scale"@);
            assert("contour_line"@ != "define_material"@);
            assert("contour_line"@ != "drill"@);
            assert("contour_line"@ != "circle_pocket"@);
            assert("contour_line"@ != "groove_pocket"@);
            assert("contour_line"@ != "comment"@);
            assert("contour_line"@ != "linspace"@);
            assert("contour_line"@ != "scale"@);
            assert("define_material"@ != "drill"@);
            assert("define_material"@ != "circle_pocket"@);
            assert("define_material"@ != "groove_pocket"@);
            assert("define_material"@ != "comment"@);
            assert("define_material"@ != "linspace"@);
            assert("define_material"@ != "scale"@);
            assert("drill"@ != "circle_pocket"@);
            assert("drill"@ != "groove_pocket"@);
            assert("drill"@ != "comment"@);
            assert("drill"@ != "linspace"@);
            assert("drill"@ != "scale"@);
            assert("circle_pocket"@ != "groove_pocket"@);
            assert("circle_pocket"@ != "comment"@);
            assert("circle_pocket"@ != "linspace"@);
            assert("circle_pocket"@ != "scale"@);
            assert("groove_pocket"@ != "comment"@);
            assert("groove_pocket"@ != "linspace"@);
            assert("groove_pocket"@ != "scale"@);
            assert("comment"@ != "linspace"@);
            assert("comment"@ != "scale"@);
            assert("linspace"@ != "scale"@);
        }
        if str_eq(ident, "rpm") {
            Ok(Some(self.builtin_rpm(args, nargs)?))
        } else if str_eq(ident, "material") {
            Ok(Some(self.builtin_material(args, nargs)?))
        } else if str_eq(ident, "cutter_diameter") {
            Ok(Some(self.builtin_cutter_diameter(args, nargs)?))
        } else if str_eq(ident, "contour_line") {
            Ok(Some(self.builtin_contour_line(args, nargs)?))
        } else if str_eq(ident, "define_material") {
            Ok(Some(self.builtin_define_material(args, nargs)?))
        } else if str_eq(ident, "drill") {
            Ok(Some(self.builtin_drill(args, nargs)?))
        } else if str_eq(ident, "circle_pocket") {
            Ok(Some(self.builtin_circle_pocket(args, nargs)?))
        } else if str_eq(ident, "groove_pocket") {
            Ok(Some(self.builtin_groove_pocket(args, nargs)?))
        } else if str_eq(ident, "comment") {
            Ok(Some(self.builtin_comment(args, nargs)?))
        } else if str_eq(ident, "linspace") {
            Ok(Some(self.builtin_linspace(args, nargs)?))
        } else if str_eq(ident, "scale") {
            Ok(Some(self.builtin_scale(args, nargs)?))
        } else {
            Ok(None)
        }
    }
}

} // verus!
