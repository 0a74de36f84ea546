//! Laws of the numeric model and the emission machine, proved once and for
//! all inputs.

use crate::gcode::{
    axis_text, cmd_text, join_sp, motion_step, opt_eqv, opt_seq, rapid_step, Cmd, GStateV,
};
use crate::numbers::{factor10, mag_ratv, spec_convert, NumberV, Unit};
use crate::rat::{
    gcd, iabs, lemma_norm, norm, rat_eqv, rat_mul, rat_scale, rat_wf, RatV,
};
use vstd::prelude::*;

verus! {

/// Converting to a unit and back denotes exactly the value one started
/// with: the round trip is lossless, not merely within tolerance.
pub proof fn lemma_convert_round_trip(v: NumberV, b: Unit)
    requires
        rat_wf(mag_ratv(v.mag)),
    ensures
        rat_eqv(
            mag_ratv(spec_convert(spec_convert(v, b), v.unit).mag),
            mag_ratv(v.mag),
        ),
{
    let a = v.unit;
    let r = mag_ratv(v.mag);
    if a == Unit::Unitless || b == Unit::Unitless || a == b {
        // both conversions keep the magnitude untouched
        assert(rat_eqv(r, r));
    } else {
        let fa = factor10(a);
        let fb = factor10(b);
        let w = rat_scale(r, fa, fb);
        let z = rat_scale(w, fb, fa);
        lemma_norm(r.n * fa, r.d * fb);
        let g = gcd(iabs(r.n * fa), (r.d * fb) as nat) as int;
        assert(r.d * fb >= 1) by (nonlinear_arith)
            requires
                r.d >= 1,
                fb >= 1,
        ;
        lemma_norm(w.n * fb, w.d * fa);
        let g2 = gcd(iabs(w.n * fb), (w.d * fa) as nat) as int;
        assert(w.d * fa >= 1) by (nonlinear_arith)
            requires
                w.d >= 1,
                fa >= 1,
        ;
        // z * (g2 * g) recovers r * (fa * fb) on both components
        assert(z.n * (g2 * g) == r.n * (fa * fb)) by (nonlinear_arith)
            requires
                z.n * g2 == w.n * fb,
                w.n * g == r.n * fa,
        ;
        assert(z.d * (g2 * g) == r.d * (fb * fa)) by (nonlinear_arith)
            requires
                z.d * g2 == w.d * fa,
                w.d * g == r.d * fb,
        ;
        assert(z.n * r.d * (g2 * g) == r.n * z.d * (g2 * g)) by (nonlinear_arith)
            requires
                z.n * (g2 * g) == r.n * (fa * fb),
                z.d * (g2 * g) == r.d * (fb * fa),
        ;
        assert(z.n * r.d == r.n * z.d) by (nonlinear_arith)
            requires
                z.n * r.d * (g2 * g) == r.n * z.d * (g2 * g),
                g >= 1,
                g2 >= 1,
        ;
    }
}

/// Converting to the same unit is the identity, exactly.
pub proof fn lemma_convert_same_unit(v: NumberV)
    ensures
        spec_convert(v, v.unit) == v,
{
}

/// Unit-reconciling arithmetic lands in the left operand's unit, unless the
/// left operand is unitless, in which case it adopts the right's.
pub proof fn lemma_arithmetic_destination_unit(a: NumberV, b: NumberV, op: spec_fn(
    crate::numbers::MagV,
    crate::numbers::MagV,
) -> crate::numbers::MagV)
    ensures
        crate::numbers::num_bin(a, b, op).unit == (if a.unit == Unit::Unitless {
            b.unit
        } else {
            a.unit
        }),
{
}

/// Two consecutive rapid moves to the same target: the second changes
/// nothing at all — no line is emitted and no tracked state moves.
pub proof fn lemma_rapid_modal_suppression(s: GStateV, x: RatV, y: RatV, z: Option<RatV>)
    ensures
        rapid_step(rapid_step(s, x, y, z), x, y, z) == rapid_step(s, x, y, z),
{
    reveal(motion_step);
    let xt = rat_mul(x, s.sx);
    let yt = rat_mul(y, s.sy);
    assert(rat_eqv(xt, xt));
    assert(rat_eqv(yt, yt));
    if z is Some {
        assert(rat_eqv(z->0, z->0));
    }
}

/// A rapid move whose X and Y already equal the tracked position and whose
/// Z differs emits one line holding only the command word (when it
/// changed) and the Z word.
pub proof fn lemma_rapid_z_only(s: GStateV, x: RatV, y: RatV, zv: RatV)
    requires
        opt_eqv(s.mx, rat_mul(x, s.sx)),
        opt_eqv(s.my, rat_mul(y, s.sy)),
        !opt_eqv(s.mz, zv),
    ensures
        rapid_step(s, x, y, Some(zv)).out == s.out + join_sp(
            opt_seq(s.last_cmd != Some(Cmd::G0), cmd_text(Cmd::G0)) + seq![axis_text('Z', zv)],
        ) + seq!['\n'],
{
    reveal(motion_step);
    assert(crate::gcode::motion_pieces(
        s,
        Cmd::G0,
        Some(rat_mul(x, s.sx)),
        Some(rat_mul(y, s.sy)),
        Some(zv),
        None,
        None,
        None,
    ) =~= opt_seq(s.last_cmd != Some(Cmd::G0), cmd_text(Cmd::G0)) + seq![axis_text('Z', zv)]);
}

} // verus!
