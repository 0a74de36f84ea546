//! Toolpath algorithms: drilling, multi-pass line contouring, concentric
//! circular pocketing and spiral rectangular pocketing.
//!
//! Each algorithm is specified as a sequence of abstract moves; its contract
//! states that the emission state after the call is exactly the fold of that
//! sequence over the modal state machine.

use crate::err::{ErrorKind, GcadError};
use crate::gcode::{
    arc_i, arc_j, arc_ok, arc_step, cut_step, lemma_extends_refl, lemma_extends_trans,
    lemma_motion_extends, motion_step, out_extends, plunge_step, rapid_step, xform_ok, Cmd,
    GStateV, GcodeState,
};
use crate::rat::{
    gcd, iabs, int_rat, rat_add, rat_ceil, rat_div, rat_fits, rat_floor, rat_le, rat_mul,
    rat_neg, rat_scale, rat_sub, Rat, RatV,
};
use vstd::prelude::*;

verus! {

/// An abstract toolpath move.
#[allow(inconsistent_fields)]
pub enum MoveOp {
    Rapid { x: RatV, y: RatV, z: Option<RatV> },
    Cut { x: RatV, y: RatV, z: Option<RatV> },
    Plunge { z: RatV },
    Arc { x: RatV, y: RatV, cx: RatV, cy: RatV },
}

pub open spec fn opt_fits(z: Option<RatV>) -> bool {
    match z {
        Some(v) => rat_fits(v),
        None => true,
    }
}

/// The move's coordinates are representable and the machine can take it.
pub open spec fn move_ok(s: GStateV, m: MoveOp) -> bool {
    match m {
        MoveOp::Rapid { x, y, z } => rat_fits(x) && rat_fits(y) && opt_fits(z) && xform_ok(
            s,
            x,
            y,
        ),
        MoveOp::Cut { x, y, z } => rat_fits(x) && rat_fits(y) && opt_fits(z) && xform_ok(s, x, y),
        MoveOp::Plunge { z } => rat_fits(z),
        MoveOp::Arc { x, y, cx, cy } => rat_fits(x) && rat_fits(y) && rat_fits(cx) && rat_fits(cy)
            && arc_ok(s, x, y, cx, cy),
    }
}

pub open spec fn move_step(s: GStateV, m: MoveOp) -> GStateV {
    match m {
        MoveOp::Rapid { x, y, z } => rapid_step(s, x, y, z),
        MoveOp::Cut { x, y, z } => cut_step(s, x, y, z),
        MoveOp::Plunge { z } => plunge_step(s, z),
        MoveOp::Arc { x, y, cx, cy } => arc_step(s, x, y, cx, cy),
    }
}

/// Fold a move sequence over the state machine; `None` when some move
/// cannot be taken.
pub open spec fn apply_moves(s: GStateV, ms: Seq<MoveOp>) -> Option<GStateV>
    decreases ms.len(),
{
    if ms.len() == 0 {
        Some(s)
    } else if move_ok(s, ms[0]) {
        apply_moves(move_step(s, ms[0]), ms.drop_first())
    } else {
        None
    }
}

/// One accepted move unfolds the fold by a step.
pub proof fn lemma_apply_cons_ok(s: GStateV, ms: Seq<MoveOp>)
    requires
        ms.len() > 0,
        move_ok(s, ms[0]),
    ensures
        apply_moves(s, ms) == apply_moves(move_step(s, ms[0]), ms.drop_first()),
{
}

/// One refused move fails the whole fold.
pub proof fn lemma_apply_cons_fail(s: GStateV, ms: Seq<MoveOp>)
    requires
        ms.len() > 0,
        !move_ok(s, ms[0]),
    ensures
        apply_moves(s, ms) is None,
{
}

/// Folding a concatenation is folding the parts in order.
pub proof fn lemma_apply_append(s: GStateV, a: Seq<MoveOp>, b: Seq<MoveOp>)
    ensures
        apply_moves(s, a + b) == (match apply_moves(s, a) {
            Some(t) => apply_moves(t, b),
            None => None,
        }),
    decreases a.len(),
{
    if a.len() == 0 {
        assert(a + b =~= b);
    } else {
        assert((a + b)[0] == a[0]);
        assert((a + b).len() > 0);
        if move_ok(s, a[0]) {
            assert((a + b).drop_first() =~= a.drop_first() + b);
            lemma_apply_append(move_step(s, a[0]), a.drop_first(), b);
        }
    }
}

/// One move only appends to the output.
pub proof fn lemma_move_extends(s: GStateV, m: MoveOp)
    ensures
        out_extends(s, move_step(s, m)),
{
    match m {
        MoveOp::Rapid { x, y, z } => {
            lemma_motion_extends(
                s,
                Cmd::G0,
                Some(rat_mul(x, s.sx)),
                Some(rat_mul(y, s.sy)),
                z,
                None,
                None,
                None,
            );
        },
        MoveOp::Cut { x, y, z } => {
            lemma_motion_extends(
                s,
                Cmd::G1,
                Some(rat_mul(x, s.sx)),
                Some(rat_mul(y, s.sy)),
                z,
                None,
                None,
                Some(s.feed_rate),
            );
        },
        MoveOp::Plunge { z } => {
            lemma_motion_extends(s, Cmd::G1, None, None, Some(z), None, None, Some(s.plunge_rate));
        },
        MoveOp::Arc { x, y, cx, cy } => {
            lemma_motion_extends(
                s,
                Cmd::G3,
                Some(rat_mul(x, s.sx)),
                Some(rat_mul(y, s.sy)),
                None,
                Some(arc_i(s, cx)),
                Some(arc_j(s, cy)),
                Some(s.feed_rate),
            );
        },
    }
}

/// An accepted move sequence only appends to the output.
pub proof fn lemma_apply_extends(s: GStateV, ms: Seq<MoveOp>)
    requires
        apply_moves(s, ms) is Some,
    ensures
        out_extends(s, apply_moves(s, ms)->0),
    decreases ms.len(),
{
    if ms.len() == 0 {
        lemma_extends_refl(s);
    } else {
        let t = move_step(s, ms[0]);
        lemma_move_extends(s, ms[0]);
        lemma_apply_extends(t, ms.drop_first());
        lemma_extends_trans(s, t, apply_moves(s, ms)->0);
    }
}

/// The drill cycle: rapid to the point, rapid down to 0.25, plunge to
/// `-depth`, rapid up to 5.
pub open spec fn drill_moves(x: RatV, y: RatV, depth: RatV) -> Seq<MoveOp> {
    seq![
        MoveOp::Rapid { x, y, z: None },
        MoveOp::Rapid { x, y, z: Some(RatV { n: 1, d: 4 }) },
        MoveOp::Plunge { z: rat_neg(depth) },
        MoveOp::Rapid { x, y, z: Some(int_rat(5)) },
    ]
}

/// A quarter, for the approach height and the retract margin.
fn quarter() -> (r: Rat)
    ensures
        r@ == (RatV { n: 1, d: 4 }),
{
    proof {
        reveal_with_fuel(gcd, 4);
        assert(gcd(iabs(1), 4) == 1);
    }
    Rat::from_reduced(1, 4)
}

impl GcodeState {
    /// Drill a hole at (x, y) to the given depth (all millimeters); fails
    /// only when a coordinate or transformed coordinate is unrepresentable.
    pub fn drill(&mut self, x: Rat, y: Rat, depth: Rat) -> (r: Result<(), GcadError>)
        ensures
            match r {
                Ok(_) => apply_moves(old(self)@, drill_moves(x@, y@, depth@)) == Some(
                    final (self)@,
                ),
                Err(e) => apply_moves(old(self)@, drill_moves(x@, y@, depth@)) is None && e.kind
                    == ErrorKind::Overflow,
            },
            out_extends(old(self)@, final (self)@),
    {
        let ghost s0 = self@;
        let ghost mvs = drill_moves(x@, y@, depth@);
        proof {
            use_type_invariant(x);
            use_type_invariant(y);
            use_type_invariant(depth);
            reveal_with_fuel(apply_moves, 6);
        }
        let nd = match depth.neg() {
            Some(v) => v,
            None => {
                proof {
                    assert(!move_ok(s0, mvs[2]));
                    assert(apply_moves(s0, mvs) is None);
                    lemma_extends_refl(s0);
                }
                return Err(GcadError::new(ErrorKind::Overflow, String::new()));
            },
        };
        match self.rapid_move_xy(x, y) {
            Ok(_) => {},
            Err(e) => {
                proof {
                    assert(!move_ok(s0, mvs[0]));
                    lemma_extends_refl(s0);
                }
                return Err(e);
            },
        }
        let ghost s1 = self@;
        proof {
            lemma_move_extends(s0, mvs[0]);
            assert(out_extends(s0, s1));
        }
        let q = quarter();
        match self.rapid_move(x, y, Some(q)) {
            Ok(_) => {},
            Err(e) => {
                proof {
                    assert(!move_ok(s1, mvs[1]));
                }
                return Err(e);
            },
        }
        let ghost s2 = self@;
        proof {
            lemma_move_extends(s1, mvs[1]);
            lemma_extends_trans(s0, s1, s2);
        }
        self.plunge(nd);
        let ghost s3 = self@;
        proof {
            lemma_move_extends(s2, mvs[2]);
            lemma_extends_trans(s0, s2, s3);
        }
        let five = Rat::from_int(5);
        match self.rapid_move(x, y, Some(five)) {
            Ok(_) => {},
            Err(e) => {
                proof {
                    assert(!move_ok(s3, mvs[3]));
                }
                return Err(e);
            },
        }
        proof {
            assert(apply_moves(s0, mvs) == Some(self@));
            lemma_apply_extends(s0, mvs);
        }
        Ok(())
    }
}

/// The cutting depth of pass `i` of `n`: `-(depth * i / n)`.
pub open spec fn z_of_pass(depth: RatV, i: int, n: int) -> RatV {
    rat_neg(rat_div(rat_mul(depth, int_rat(i)), int_rat(n)))
}

/// Every intermediate of the pass-depth computation is representable.
pub open spec fn z_ok(depth: RatV, i: int, n: int) -> bool {
    rat_fits(rat_mul(depth, int_rat(i))) && rat_fits(
        rat_div(rat_mul(depth, int_rat(i)), int_rat(n)),
    ) && rat_fits(z_of_pass(depth, i, n))
}

/// The executable pass depth.
fn pass_z(depth: Rat, i: u64, n: u64) -> (r: Option<Rat>)
    requires
        1 <= i <= i64::MAX,
        1 <= n <= i64::MAX,
    ensures
        match r {
            Some(q) => z_ok(depth@, i as int, n as int) && q@ == z_of_pass(
                depth@,
                i as int,
                n as int,
            ),
            None => !z_ok(depth@, i as int, n as int),
        },
{
    let m = match depth.mul(Rat::from_int(i as i64)) {
        Some(m) => m,
        None => {
            return None;
        },
    };
    let d = match m.div(Rat::from_int(n as i64)) {
        Some(d) => d,
        None => {
            return None;
        },
    };
    d.neg()
}

/// One pass of a contour line: approach, plunge, cut, retract.
pub open spec fn contour_pass_moves(
    x1: RatV,
    y1: RatV,
    x2: RatV,
    y2: RatV,
    depth: RatV,
    i: int,
    n: int,
) -> Seq<MoveOp> {
    seq![
        MoveOp::Rapid { x: x1, y: y1, z: None },
        MoveOp::Plunge { z: z_of_pass(depth, i, n) },
        MoveOp::Cut { x: x2, y: y2, z: None },
        MoveOp::Rapid { x: x2, y: y2, z: Some(int_rat(5)) },
    ]
}

/// The passes from `i` through `n`.
pub open spec fn contour_moves_from(
    x1: RatV,
    y1: RatV,
    x2: RatV,
    y2: RatV,
    depth: RatV,
    i: int,
    n: int,
) -> Seq<MoveOp>
    decreases n + 1 - i,
{
    if i > n {
        Seq::<MoveOp>::empty()
    } else {
        contour_pass_moves(x1, y1, x2, y2, depth, i, n) + contour_moves_from(
            x1,
            y1,
            x2,
            y2,
            depth,
            i + 1,
            n,
        )
    }
}

impl GcodeState {
    /// One pass of `contour_line`.
    fn contour_pass(
        &mut self,
        x1: Rat,
        y1: Rat,
        x2: Rat,
        y2: Rat,
        depth: Rat,
        i: u64,
        n: u64,
        five: Rat,
    ) -> (r: Result<(), GcadError>)
        requires
            1 <= i <= n <= i64::MAX,
            five@ == int_rat(5),
        ensures
            ({
                let pass = contour_pass_moves(x1@, y1@, x2@, y2@, depth@, i as int, n as int);
                match r {
                    Ok(_) => z_ok(depth@, i as int, n as int) && apply_moves(old(self)@, pass)
                        == Some(final (self)@),
                    Err(e) => e.kind == ErrorKind::Overflow && (!z_ok(depth@, i as int, n as int)
                        || apply_moves(old(self)@, pass) is None),
                }
            }),
            out_extends(old(self)@, final (self)@),
    {
        let ghost sc = self@;
        let ghost pass = contour_pass_moves(x1@, y1@, x2@, y2@, depth@, i as int, n as int);
        let ghost r1 = pass.drop_first();
        let ghost r2 = r1.drop_first();
        let ghost r3 = r2.drop_first();
        proof {
            use_type_invariant(x1);
            use_type_invariant(y1);
            use_type_invariant(x2);
            use_type_invariant(y2);
            assert(r1[0] == pass[1] && r2[0] == pass[2] && r3[0] == pass[3]);
            assert(r3.drop_first().len() == 0);
        }
        let z = match pass_z(depth, i, n) {
            Some(z) => z,
            None => {
                proof {
                    lemma_extends_refl(sc);
                }
                return Err(GcadError::new(ErrorKind::Overflow, String::new()));
            },
        };
        match self.rapid_move_xy(x1, y1) {
            Ok(_) => {},
            Err(e) => {
                proof {
                    lemma_apply_cons_fail(sc, pass);
                    lemma_extends_refl(sc);
                }
                return Err(e);
            },
        }
        let ghost t1 = self@;
        proof {
            lemma_apply_cons_ok(sc, pass);
            assert(t1 == move_step(sc, pass[0]));
            lemma_move_extends(sc, pass[0]);
        }
        self.plunge(z);
        let ghost t2 = self@;
        proof {
            use_type_invariant(z);
            lemma_apply_cons_ok(t1, r1);
            assert(t2 == move_step(t1, r1[0]));
            lemma_move_extends(t1, r1[0]);
            lemma_extends_trans(sc, t1, t2);
        }
        match self.cutting_move(x2, y2, None) {
            Ok(_) => {},
            Err(e) => {
                proof {
                    lemma_apply_cons_fail(t2, r2);
                }
                return Err(e);
            },
        }
        let ghost t3 = self@;
        proof {
            lemma_apply_cons_ok(t2, r2);
            assert(t3 == move_step(t2, r2[0]));
            lemma_move_extends(t2, r2[0]);
            lemma_extends_trans(sc, t2, t3);
        }
        match self.rapid_move(x2, y2, Some(five)) {
            Ok(_) => {},
            Err(e) => {
                proof {
                    lemma_apply_cons_fail(t3, r3);
                    assert(apply_moves(sc, pass) is None);
                }
                return Err(e);
            },
        }
        proof {
            lemma_apply_cons_ok(t3, r3);
            assert(apply_moves(sc, pass) == Some(self@));
            lemma_move_extends(t3, r3[0]);
            lemma_extends_trans(sc, t3, self@);
        }
        Ok(())
    }

    /// Cut a straight line from (x1, y1) to (x2, y2) in `ceil(depth /
    /// depth_per_pass)` passes, re-approaching and re-cutting the same line
    /// at increasing depth each pass.  Fails with a domain error when the
    /// depth per pass is zero, and with an overflow error when a coordinate
    /// computation is unrepresentable.
    pub fn contour_line(
        &mut self,
        x1: Rat,
        y1: Rat,
        x2: Rat,
        y2: Rat,
        depth: Rat,
    ) -> (r: Result<(), GcadError>)
        ensures
            ({
                let dpp = old(self)@.depth_per_pass;
                let nn = rat_ceil(rat_div(depth@, dpp));
                let mvs = contour_moves_from(x1@, y1@, x2@, y2@, depth@, 1, nn);
                match r {
                    Ok(_) => dpp.n != 0 && rat_fits(rat_div(depth@, dpp)) && (forall|i: int|
                        1 <= i <= nn ==> z_ok(depth@, i, nn)) && apply_moves(old(self)@, mvs)
                        == Some(final (self)@),
                    Err(e) => if dpp.n == 0 {
                        e.kind == ErrorKind::Domain && final (self)@ == old(self)@
                    } else {
                        e.kind == ErrorKind::Overflow && (!rat_fits(rat_div(depth@, dpp)) || (
                        exists|i: int| 1 <= i <= nn && !z_ok(depth@, i, nn)) || apply_moves(
                            old(self)@,
                            mvs,
                        ) is None)
                    },
                }
            }),
            out_extends(old(self)@, final (self)@),
    {
        let ghost s0 = self@;
        proof {
            lemma_extends_refl(s0);
        }
        let ghost dpp = self@.depth_per_pass;
        if self.depth_per_pass.is_zero() {
            return Err(GcadError::new(ErrorKind::Domain, String::new()));
        }
        let q = match depth.div(self.depth_per_pass) {
            Some(q) => q,
            None => {
                return Err(GcadError::new(ErrorKind::Overflow, String::new()));
            },
        };
        let np = q.ceil_i64();
        let ghost nn = rat_ceil(rat_div(depth@, dpp));
        let ghost full = contour_moves_from(x1@, y1@, x2@, y2@, depth@, 1, nn);
        if np <= 0 {
            proof {
                assert(full =~= Seq::<MoveOp>::empty());
                assert(apply_moves(s0, full) == Some(s0));
            }
            return Ok(());
        }
        let n = np as u64;
        let five = Rat::from_int(5);
        proof {
            use_type_invariant(x1);
            use_type_invariant(y1);
            use_type_invariant(x2);
            use_type_invariant(y2);
        }
        let mut i: u64 = 1;
        while i <= n
            invariant
                1 <= i <= n + 1,
                n == nn,
                1 <= n <= i64::MAX,
                s0 == old(self)@,
                dpp == s0.depth_per_pass,
                dpp.n != 0,
                rat_fits(rat_div(depth@, dpp)),
                nn == rat_ceil(rat_div(depth@, dpp)),
                full == contour_moves_from(x1@, y1@, x2@, y2@, depth@, 1, nn),
                five@ == int_rat(5),
                rat_fits(x1@) && rat_fits(y1@) && rat_fits(x2@) && rat_fits(y2@),
                forall|k: int| 1 <= k < i ==> z_ok(depth@, k, nn),
                out_extends(s0, self@),
                apply_moves(s0, full) == apply_moves(
                    self@,
                    contour_moves_from(x1@, y1@, x2@, y2@, depth@, i as int, nn),
                ),
            decreases n + 1 - i,
        {
            let ghost sc = self@;
            let ghost rest = contour_moves_from(x1@, y1@, x2@, y2@, depth@, i as int, nn);
            let ghost pass = contour_pass_moves(x1@, y1@, x2@, y2@, depth@, i as int, nn);
            let ghost tail = contour_moves_from(x1@, y1@, x2@, y2@, depth@, i as int + 1, nn);
            proof {
                assert(rest == pass + tail);
                lemma_apply_append(sc, pass, tail);
            }
            match self.contour_pass(x1, y1, x2, y2, depth, i, n, five) {
                Ok(_) => {},
                Err(e) => {
                    proof {
                        if !z_ok(depth@, i as int, nn) {
                            assert(1 <= i as int <= nn && !z_ok(depth@, i as int, nn));
                        }
                        lemma_extends_trans(s0, sc, self@);
                    }
                    return Err(e);
                },
            }
            proof {
                assert(apply_moves(s0, full) == apply_moves(self@, tail));
                lemma_extends_trans(s0, sc, self@);
            }
            i = i + 1;
        }
        proof {
            assert(contour_moves_from(x1@, y1@, x2@, y2@, depth@, i as int, nn)
                =~= Seq::<MoveOp>::empty());
        }
        Ok(())
    }
}

/// Half of `a` times `k`: `a * k / 2`.
pub open spec fn c_half_of(a: RatV, k: int) -> RatV {
    rat_scale(rat_mul(a, int_rat(k)), 1, 2)
}

pub open spec fn c_half_of_ok(a: RatV, k: int) -> bool {
    rat_fits(rat_mul(a, int_rat(k))) && rat_fits(c_half_of(a, k))
}

/// `cx + xoff + cut*k/2`, the arc end on the positive side.
pub open spec fn c_plus(cx: RatV, xoff: RatV, cut: RatV, k: int) -> RatV {
    rat_add(rat_add(cx, xoff), c_half_of(cut, k))
}

pub open spec fn c_plus_ok(cx: RatV, xoff: RatV, cut: RatV, k: int) -> bool {
    rat_fits(rat_add(cx, xoff)) && c_half_of_ok(cut, k) && rat_fits(c_plus(cx, xoff, cut, k))
}

/// `cx - xoff - cut*k/2`, the arc end on the negative side.
pub open spec fn c_minus(cx: RatV, xoff: RatV, cut: RatV, k: int) -> RatV {
    rat_sub(rat_sub(cx, xoff), c_half_of(cut, k))
}

pub open spec fn c_minus_ok(cx: RatV, xoff: RatV, cut: RatV, k: int) -> bool {
    rat_fits(rat_sub(cx, xoff)) && c_half_of_ok(cut, k) && rat_fits(c_minus(cx, xoff, cut, k))
}

/// The stepped arc center `cx + cut/4`.
pub open spec fn c_ccx(cx: RatV, cut: RatV) -> RatV {
    rat_add(cx, rat_scale(cut, 1, 4))
}

pub open spec fn c_ccx_ok(cx: RatV, cut: RatV) -> bool {
    rat_fits(rat_scale(cut, 1, 4)) && rat_fits(c_ccx(cx, cut))
}

/// The approach offset `diameter/2 - cut*nc/2`.
pub open spec fn c_xoff(diam: RatV, cut: RatV, nc: int) -> RatV {
    rat_sub(rat_scale(diam, 1, 2), c_half_of(cut, nc))
}

pub open spec fn c_xoff_ok(diam: RatV, cut: RatV, nc: int) -> bool {
    rat_fits(rat_scale(diam, 1, 2)) && c_half_of_ok(cut, nc) && rat_fits(c_xoff(diam, cut, nc))
}

/// The two arcs of circle `j`: a half circle to the negative side around
/// the pocket center, then back — around the center again for the last
/// circle, around a center stepped outward by a quarter cutter otherwise.
pub open spec fn circle_arc_pair(
    cx: RatV,
    cy: RatV,
    xoff: RatV,
    cut: RatV,
    j: int,
    nc: int,
) -> Seq<MoveOp> {
    seq![
        MoveOp::Arc { x: c_minus(cx, xoff, cut, j - 1), y: cy, cx: cx, cy: cy },
        if j == nc {
            MoveOp::Arc { x: c_plus(cx, xoff, cut, j - 1), y: cy, cx: cx, cy: cy }
        } else {
            MoveOp::Arc { x: c_plus(cx, xoff, cut, j), y: cy, cx: c_ccx(cx, cut), cy: cy }
        },
    ]
}

/// The coordinates of circle `j` are representable.
pub open spec fn arc_j_ok(cx: RatV, xoff: RatV, cut: RatV, j: int, nc: int) -> bool {
    c_minus_ok(cx, xoff, cut, j - 1) && (if j == nc {
        c_plus_ok(cx, xoff, cut, j - 1)
    } else {
        c_plus_ok(cx, xoff, cut, j) && c_ccx_ok(cx, cut)
    })
}

/// The arcs of circles `j` through `nc`.
pub open spec fn circle_arcs_from(
    cx: RatV,
    cy: RatV,
    xoff: RatV,
    cut: RatV,
    j: int,
    nc: int,
) -> Seq<MoveOp>
    decreases nc + 1 - j,
{
    if j > nc {
        Seq::<MoveOp>::empty()
    } else {
        circle_arc_pair(cx, cy, xoff, cut, j, nc) + circle_arcs_from(cx, cy, xoff, cut, j + 1, nc)
    }
}

/// One depth pass: plunge, sweep all circles, and step back to the start
/// radius with a cutting move between passes.
pub open spec fn circle_pass_moves(
    cx: RatV,
    cy: RatV,
    xoff: RatV,
    cut: RatV,
    depth: RatV,
    i: int,
    np: int,
    nc: int,
) -> Seq<MoveOp> {
    seq![MoveOp::Plunge { z: z_of_pass(depth, i, np) }] + circle_arcs_from(
        cx,
        cy,
        xoff,
        cut,
        1,
        nc,
    ) + (if i < np {
        seq![MoveOp::Cut { x: rat_add(cx, xoff), y: cy, z: None }]
    } else {
        Seq::<MoveOp>::empty()
    })
}

pub open spec fn circle_passes_from(
    cx: RatV,
    cy: RatV,
    xoff: RatV,
    cut: RatV,
    depth: RatV,
    i: int,
    np: int,
    nc: int,
) -> Seq<MoveOp>
    decreases np + 1 - i,
{
    if i > np {
        Seq::<MoveOp>::empty()
    } else {
        circle_pass_moves(cx, cy, xoff, cut, depth, i, np, nc) + circle_passes_from(
            cx,
            cy,
            xoff,
            cut,
            depth,
            i + 1,
            np,
            nc,
        )
    }
}

/// The whole pocket: approach at the start radius, plunge to a safe 2.5,
/// all passes, and a rapid retract from the outermost radius.
pub open spec fn circle_moves(
    cx: RatV,
    cy: RatV,
    diam: RatV,
    cut: RatV,
    depth: RatV,
    np: int,
    nc: int,
) -> Seq<MoveOp> {
    let xoff = c_xoff(diam, cut, nc);
    seq![
        MoveOp::Rapid { x: rat_add(cx, xoff), y: cy, z: None },
        MoveOp::Plunge { z: RatV { n: 5, d: 2 } },
    ] + circle_passes_from(cx, cy, xoff, cut, depth, 1, np, nc) + seq![
        MoveOp::Rapid { x: c_plus(cx, xoff, cut, nc - 1), y: cy, z: Some(int_rat(5)) },
    ]
}

/// Everything `circle_pocket` needs: the guard, nonzero divisors,
/// representable coordinates, and an accepted move sequence.
pub open spec fn circle_ok(s: GStateV, cx: RatV, cy: RatV, diam: RatV, depth: RatV) -> bool {
    let cut = s.cutter_diameter;
    let dpp = s.depth_per_pass;
    let nc = rat_floor(rat_div(diam, cut));
    let np = rat_ceil(rat_div(depth, dpp));
    let xoff = c_xoff(diam, cut, nc);
    &&& !rat_le(diam, cut)
    &&& cut.n != 0
    &&& dpp.n != 0
    &&& rat_fits(rat_div(diam, cut))
    &&& rat_fits(rat_div(depth, dpp))
    &&& nc > i64::MIN
    &&& c_xoff_ok(diam, cut, nc)
    &&& rat_fits(rat_add(cx, xoff))
    &&& c_plus_ok(cx, xoff, cut, nc - 1)
    &&& (np >= 1 ==> (forall|i: int| 1 <= i <= np ==> z_ok(depth, i, np)) && (forall|j: int|
        1 <= j <= nc ==> arc_j_ok(cx, xoff, cut, j, nc)))
    &&& apply_moves(s, circle_moves(cx, cy, diam, cut, depth, np, nc)) is Some
}

/// The executable `a * k / 2`.
fn half_of(a: Rat, k: i64) -> (r: Option<Rat>)
    ensures
        match r {
            Some(q) => c_half_of_ok(a@, k as int) && q@ == c_half_of(a@, k as int),
            None => !c_half_of_ok(a@, k as int),
        },
{
    let m = match a.mul(Rat::from_int(k)) {
        Some(m) => m,
        None => {
            return None;
        },
    };
    m.mul_frac(1, 2)
}

/// The executable `cx + xoff + cut*k/2`.
fn plus_coord(cx: Rat, xoff: Rat, cut: Rat, k: i64) -> (r: Option<Rat>)
    ensures
        match r {
            Some(q) => c_plus_ok(cx@, xoff@, cut@, k as int) && q@ == c_plus(
                cx@,
                xoff@,
                cut@,
                k as int,
            ),
            None => !c_plus_ok(cx@, xoff@, cut@, k as int),
        },
{
    let b = match cx.add(xoff) {
        Some(b) => b,
        None => {
            return None;
        },
    };
    let h = match half_of(cut, k) {
        Some(h) => h,
        None => {
            return None;
        },
    };
    b.add(h)
}

/// The executable `cx - xoff - cut*k/2`.
fn minus_coord(cx: Rat, xoff: Rat, cut: Rat, k: i64) -> (r: Option<Rat>)
    ensures
        match r {
            Some(q) => c_minus_ok(cx@, xoff@, cut@, k as int) && q@ == c_minus(
                cx@,
                xoff@,
                cut@,
                k as int,
            ),
            None => !c_minus_ok(cx@, xoff@, cut@, k as int),
        },
{
    let b = match cx.sub(xoff) {
        Some(b) => b,
        None => {
            return None;
        },
    };
    let h = match half_of(cut, k) {
        Some(h) => h,
        None => {
            return None;
        },
    };
    b.sub(h)
}

impl GcodeState {
    /// The two arcs of circle `j`.
    fn arc_pair(
        &mut self,
        cx: Rat,
        cy: Rat,
        xoff: Rat,
        cut: Rat,
        j: u64,
        nc: u64,
    ) -> (r: Result<(), GcadError>)
        requires
            1 <= j <= nc <= i64::MAX,
        ensures
            ({
                let pair = circle_arc_pair(cx@, cy@, xoff@, cut@, j as int, nc as int);
                match r {
                    Ok(_) => arc_j_ok(cx@, xoff@, cut@, j as int, nc as int) && apply_moves(
                        old(self)@,
                        pair,
                    ) == Some(final (self)@),
                    Err(e) => (e.kind == ErrorKind::Overflow || e.kind == ErrorKind::Domain) && (
                    !arc_j_ok(cx@, xoff@, cut@, j as int, nc as int) || apply_moves(
                        old(self)@,
                        pair,
                    ) is None),
                }
            }),
            out_extends(old(self)@, final (self)@),
    {
        let ghost sc = self@;
        proof {
            lemma_extends_refl(sc);
        }
        let ghost pair = circle_arc_pair(cx@, cy@, xoff@, cut@, j as int, nc as int);
        let ghost r1 = pair.drop_first();
        proof {
            use_type_invariant(cx);
            use_type_invariant(cy);
            assert(r1[0] == pair[1]);
            assert(r1.drop_first().len() == 0);
        }
        let a1 = match minus_coord(cx, xoff, cut, (j - 1) as i64) {
            Some(a) => a,
            None => {
                return Err(GcadError::new(ErrorKind::Overflow, String::new()));
            },
        };
        match self.arc_cut(a1, cy, cx, cy) {
            Ok(_) => {},
            Err(e) => {
                proof {
                    use_type_invariant(a1);
                    lemma_apply_cons_fail(sc, pair);
                }
                return Err(e);
            },
        }
        let ghost t1 = self@;
        proof {
            use_type_invariant(a1);
            lemma_apply_cons_ok(sc, pair);
            assert(t1 == move_step(sc, pair[0]));
            lemma_move_extends(sc, pair[0]);
        }
        if j == nc {
            let a2 = match plus_coord(cx, xoff, cut, (j - 1) as i64) {
                Some(a) => a,
                None => {
                    return Err(GcadError::new(ErrorKind::Overflow, String::new()));
                },
            };
            match self.arc_cut(a2, cy, cx, cy) {
                Ok(_) => {},
                Err(e) => {
                    proof {
                        use_type_invariant(a2);
                        lemma_apply_cons_fail(t1, r1);
                    }
                    return Err(e);
                },
            }
            proof {
                use_type_invariant(a2);
                lemma_apply_cons_ok(t1, r1);
                assert(apply_moves(sc, pair) == Some(self@));
                lemma_move_extends(t1, r1[0]);
                lemma_extends_trans(sc, t1, self@);
            }
        } else {
            let a2 = match plus_coord(cx, xoff, cut, j as i64) {
                Some(a) => a,
                None => {
                    return Err(GcadError::new(ErrorKind::Overflow, String::new()));
                },
            };
            let qc = match cut.mul_frac(1, 4) {
                Some(q) => q,
                None => {
                    return Err(GcadError::new(ErrorKind::Overflow, String::new()));
                },
            };
            let ccx = match cx.add(qc) {
                Some(c) => c,
                None => {
                    return Err(GcadError::new(ErrorKind::Overflow, String::new()));
                },
            };
            match self.arc_cut(a2, cy, ccx, cy) {
                Ok(_) => {},
                Err(e) => {
                    proof {
                        use_type_invariant(a2);
                        use_type_invariant(ccx);
                        lemma_apply_cons_fail(t1, r1);
                    }
                    return Err(e);
                },
            }
            proof {
                use_type_invariant(a2);
                use_type_invariant(ccx);
                lemma_apply_cons_ok(t1, r1);
                assert(apply_moves(sc, pair) == Some(self@));
                lemma_move_extends(t1, r1[0]);
                lemma_extends_trans(sc, t1, self@);
            }
        }
        Ok(())
    }

    /// All circles of one pass.
    fn circle_arcs(
        &mut self,
        cx: Rat,
        cy: Rat,
        xoff: Rat,
        cut: Rat,
        nc: i64,
    ) -> (r: Result<(), GcadError>)
        ensures
            ({
                let arcs = circle_arcs_from(cx@, cy@, xoff@, cut@, 1, nc as int);
                match r {
                    Ok(_) => (forall|j: int| 1 <= j <= nc as int ==> arc_j_ok(
                        cx@,
                        xoff@,
                        cut@,
                        j,
                        nc as int,
                    )) && apply_moves(old(self)@, arcs) == Some(final (self)@),
                    Err(e) => (e.kind == ErrorKind::Overflow || e.kind == ErrorKind::Domain) && (!(
                    forall|j: int| 1 <= j <= nc as int ==> arc_j_ok(cx@, xoff@, cut@, j, nc as int))
                        || apply_moves(old(self)@, arcs) is None),
                }
            }),
            out_extends(old(self)@, final (self)@),
    {
        let ghost s0 = self@;
        proof {
            lemma_extends_refl(s0);
        }
        let ghost nci = nc as int;
        if nc <= 0 {
            proof {
                assert(circle_arcs_from(cx@, cy@, xoff@, cut@, 1, nci)
                    =~= Seq::<MoveOp>::empty());
            }
            return Ok(());
        }
        let ncu = nc as u64;
        let mut j: u64 = 1;
        while j <= ncu
            invariant
                1 <= j <= ncu + 1,
                1 <= ncu <= i64::MAX,
                nci == ncu,
                nci == nc as int,
                s0 == old(self)@,
                forall|k: int| 1 <= k < j ==> arc_j_ok(cx@, xoff@, cut@, k, nci),
                out_extends(s0, self@),
                apply_moves(s0, circle_arcs_from(cx@, cy@, xoff@, cut@, 1, nci)) == apply_moves(
                    self@,
                    circle_arcs_from(cx@, cy@, xoff@, cut@, j as int, nci),
                ),
            decreases ncu + 1 - j,
        {
            let ghost sc = self@;
            let ghost rest = circle_arcs_from(cx@, cy@, xoff@, cut@, j as int, nci);
            let ghost pair = circle_arc_pair(cx@, cy@, xoff@, cut@, j as int, nci);
            let ghost tail = circle_arcs_from(cx@, cy@, xoff@, cut@, j as int + 1, nci);
            proof {
                assert(rest == pair + tail);
                lemma_apply_append(sc, pair, tail);
            }
            match self.arc_pair(cx, cy, xoff, cut, j, ncu) {
                Ok(_) => {},
                Err(e) => {
                    proof {
                        assert(pair == circle_arc_pair(cx@, cy@, xoff@, cut@, j as int, ncu as int));
                        if arc_j_ok(cx@, xoff@, cut@, j as int, ncu as int) {
                            assert(apply_moves(sc, pair) is None);
                            assert(apply_moves(sc, rest) is None);
                            assert(apply_moves(s0, circle_arcs_from(cx@, cy@, xoff@, cut@, 1, nci))
                                is None);
                        } else {
                            assert(1 <= j as int <= nci && !arc_j_ok(
                                cx@,
                                xoff@,
                                cut@,
                                j as int,
                                nci,
                            ));
                        }
                        lemma_extends_trans(s0, sc, self@);
                    }
                    return Err(e);
                },
            }
            proof {
                assert(apply_moves(s0, circle_arcs_from(cx@, cy@, xoff@, cut@, 1, nci))
                    == apply_moves(self@, tail));
                lemma_extends_trans(s0, sc, self@);
            }
            j = j + 1;
        }
        proof {
            assert(circle_arcs_from(cx@, cy@, xoff@, cut@, j as int, nci)
                =~= Seq::<MoveOp>::empty());
        }
        Ok(())
    }
}

impl GcodeState {
    /// One depth pass of `circle_pocket`.
    fn circle_one_pass(
        &mut self,
        cx: Rat,
        cy: Rat,
        xoff: Rat,
        cut: Rat,
        ax: Rat,
        depth: Rat,
        i: u64,
        np: u64,
        nc: i64,
    ) -> (r: Result<(), GcadError>)
        requires
            1 <= i <= np <= i64::MAX,
            ax@ == rat_add(cx@, xoff@),
        ensures
            ({
                let pass = circle_pass_moves(
                    cx@,
                    cy@,
                    xoff@,
                    cut@,
                    depth@,
                    i as int,
                    np as int,
                    nc as int,
                );
                match r {
                    Ok(_) => z_ok(depth@, i as int, np as int) && (forall|j: int|
                        1 <= j <= nc as int ==> arc_j_ok(cx@, xoff@, cut@, j, nc as int))
                        && apply_moves(old(self)@, pass) == Some(final (self)@),
                    Err(e) => (e.kind == ErrorKind::Overflow || e.kind == ErrorKind::Domain) && (
                    !z_ok(depth@, i as int, np as int) || !(forall|j: int|
                        1 <= j <= nc as int ==> arc_j_ok(cx@, xoff@, cut@, j, nc as int))
                        || apply_moves(old(self)@, pass) is None),
                }
            }),
            out_extends(old(self)@, final (self)@),
    {
        let ghost sc = self@;
        proof {
            lemma_extends_refl(sc);
        }
        let ghost pass = circle_pass_moves(
            cx@,
            cy@,
            xoff@,
            cut@,
            depth@,
            i as int,
            np as int,
            nc as int,
        );
        let ghost arcs = circle_arcs_from(cx@, cy@, xoff@, cut@, 1, nc as int);
        let ghost opt = (if (i as int) < np as int {
            seq![MoveOp::Cut { x: rat_add(cx@, xoff@), y: cy@, z: None }]
        } else {
            Seq::<MoveOp>::empty()
        });
        proof {
            assert(pass[0] == (MoveOp::Plunge { z: z_of_pass(depth@, i as int, np as int) }));
            assert(pass.drop_first() =~= arcs + opt);
        }
        let z = match pass_z(depth, i, np) {
            Some(z) => z,
            None => {
                return Err(GcadError::new(ErrorKind::Overflow, String::new()));
            },
        };
        self.plunge(z);
        let ghost t1 = self@;
        proof {
            use_type_invariant(z);
            lemma_apply_cons_ok(sc, pass);
            assert(t1 == move_step(sc, pass[0]));
            lemma_apply_append(t1, arcs, opt);
            lemma_move_extends(sc, pass[0]);
        }
        match self.circle_arcs(cx, cy, xoff, cut, nc) {
            Ok(_) => {},
            Err(e) => {
                proof {
                    if (forall|j: int| 1 <= j <= nc as int ==> arc_j_ok(
                        cx@,
                        xoff@,
                        cut@,
                        j,
                        nc as int,
                    )) {
                        assert(apply_moves(t1, arcs) is None);
                        assert(apply_moves(t1, arcs + opt) is None);
                        assert(apply_moves(sc, pass) is None);
                    }
                    lemma_extends_trans(sc, t1, self@);
                }
                return Err(e);
            },
        }
        let ghost t2 = self@;
        proof {
            lemma_extends_trans(sc, t1, t2);
        }
        if i < np {
            match self.cutting_move(ax, cy, None) {
                Ok(_) => {},
                Err(e) => {
                    proof {
                        use_type_invariant(ax);
                        lemma_apply_cons_fail(t2, opt);
                        assert(apply_moves(sc, pass) is None);
                    }
                    return Err(e);
                },
            }
            proof {
                use_type_invariant(ax);
                use_type_invariant(cy);
                lemma_apply_cons_ok(t2, opt);
                assert(opt.drop_first().len() == 0);
                assert(apply_moves(sc, pass) == Some(self@));
                lemma_move_extends(t2, opt[0]);
                lemma_extends_trans(sc, t2, self@);
            }
        } else {
            proof {
                assert(opt.len() == 0);
                assert(apply_moves(sc, pass) == Some(self@));
            }
        }
        Ok(())
    }

    /// Cut a circular pocket centered at (cx, cy) with the given diameter
    /// and depth (all millimeters), as concentric half-circle arc pairs
    /// swept outward from the center at each of `ceil(depth /
    /// depth_per_pass)` depths.  The diameter must exceed the cutter
    /// diameter, and cutter diameter and depth per pass must be nonzero,
    /// else a domain error; coordinate overflow is an overflow error.
    #[verifier::rlimit(100)]
    #[verifier::spinoff_prover]
    pub fn circle_pocket(
        &mut self,
        cx: Rat,
        cy: Rat,
        diameter: Rat,
        depth: Rat,
    ) -> (r: Result<(), GcadError>)
        ensures
            ({
                let cut = old(self)@.cutter_diameter;
                let dpp = old(self)@.depth_per_pass;
                let nc = rat_floor(rat_div(diameter@, cut));
                let np = rat_ceil(rat_div(depth@, dpp));
                match r {
                    Ok(_) => circle_ok(old(self)@, cx@, cy@, diameter@, depth@) && apply_moves(
                        old(self)@,
                        circle_moves(cx@, cy@, diameter@, cut, depth@, np, nc),
                    ) == Some(final (self)@),
                    Err(e) => !circle_ok(old(self)@, cx@, cy@, diameter@, depth@) && (if rat_le(
                        diameter@,
                        cut,
                    ) || cut.n == 0 || dpp.n == 0 {
                        e.kind == ErrorKind::Domain && final (self)@ == old(self)@
                    } else {
                        e.kind == ErrorKind::Overflow || e.kind == ErrorKind::Domain
                    }),
                }
            }),
            out_extends(old(self)@, final (self)@),
    {
        let ghost s0 = self@;
        proof {
            lemma_extends_refl(s0);
        }
        let cut = self.cutter_diameter;
        let dppr = self.depth_per_pass;
        if diameter.le(&cut) {
            return Err(
                GcadError::new(
                    ErrorKind::Domain,
                    String::from_str("Diameter must be greater than cutter diameter"),
                ),
            );
        }
        if cut.is_zero() {
            return Err(GcadError::new(ErrorKind::Domain, String::new()));
        }
        if dppr.is_zero() {
            return Err(GcadError::new(ErrorKind::Domain, String::new()));
        }
        let q1 = match diameter.div(cut) {
            Some(q) => q,
            None => {
                return Err(GcadError::new(ErrorKind::Overflow, String::new()));
            },
        };
        let nc = q1.floor_i64();
        let q2 = match depth.div(dppr) {
            Some(q) => q,
            None => {
                return Err(GcadError::new(ErrorKind::Overflow, String::new()));
            },
        };
        let np = q2.ceil_i64();
        if nc == i64::MIN {
            return Err(GcadError::new(ErrorKind::Overflow, String::new()));
        }
        let half_diam = match diameter.mul_frac(1, 2) {
            Some(h) => h,
            None => {
                return Err(GcadError::new(ErrorKind::Overflow, String::new()));
            },
        };
        let hc = match half_of(cut, nc) {
            Some(h) => h,
            None => {
                return Err(GcadError::new(ErrorKind::Overflow, String::new()));
            },
        };
        let xoff = match half_diam.sub(hc) {
            Some(x) => x,
            None => {
                return Err(GcadError::new(ErrorKind::Overflow, String::new()));
            },
        };
        let ax = match cx.add(xoff) {
            Some(a) => a,
            None => {
                return Err(GcadError::new(ErrorKind::Overflow, String::new()));
            },
        };
        let fx = match plus_coord(cx, xoff, cut, nc - 1) {
            Some(f) => f,
            None => {
                return Err(GcadError::new(ErrorKind::Overflow, String::new()));
            },
        };
        let ghost nci = nc as int;
        let ghost npi = np as int;
        let ghost full = circle_moves(cx@, cy@, diameter@, cut@, depth@, npi, nci);
        let ghost m0 = seq![
            MoveOp::Rapid { x: rat_add(cx@, xoff@), y: cy@, z: None },
            MoveOp::Plunge { z: RatV { n: 5, d: 2 } },
        ];
        let ghost passes = circle_passes_from(cx@, cy@, xoff@, cut@, depth@, 1, npi, nci);
        let ghost fin = seq![
            MoveOp::Rapid { x: c_plus(cx@, xoff@, cut@, nci - 1), y: cy@, z: Some(int_rat(5)) },
        ];
        proof {
            assert(full == (m0 + passes) + fin);
            lemma_apply_append(s0, m0 + passes, fin);
            lemma_apply_append(s0, m0, passes);
        }
        match self.rapid_move_xy(ax, cy) {
            Ok(_) => {},
            Err(e) => {
                proof {
                    use_type_invariant(ax);
                    use_type_invariant(cy);
                    lemma_apply_cons_fail(s0, m0);
                }
                return Err(e);
            },
        }
        let ghost t1 = self@;
        proof {
            use_type_invariant(ax);
            use_type_invariant(cy);
            lemma_apply_cons_ok(s0, m0);
            assert(t1 == move_step(s0, m0[0]));
            lemma_move_extends(s0, m0[0]);
        }
        let safe = {
            proof {
                reveal_with_fuel(gcd, 4);
                assert(gcd(iabs(5), 2) == 1);
            }
            Rat::from_reduced(5, 2)
        };
        self.plunge(safe);
        let ghost t2 = self@;
        proof {
            lemma_apply_cons_ok(t1, m0.drop_first());
            assert(m0.drop_first()[0] == m0[1]);
            assert(m0.drop_first().drop_first().len() == 0);
            assert(apply_moves(s0, m0) == Some(t2));
            lemma_move_extends(t1, m0[1]);
            lemma_extends_trans(s0, t1, t2);
        }
        if np >= 1 {
            let npu = np as u64;
            let mut i: u64 = 1;
            while i <= npu
                invariant
                    1 <= i <= npu + 1,
                    1 <= npu <= i64::MAX,
                    npi == npu,
                    npi == np as int,
                    nci == nc as int,
                    s0 == old(self)@,
                    cut@ == s0.cutter_diameter,
                    dppr@ == s0.depth_per_pass,
                    !rat_le(diameter@, cut@),
                    cut@.n != 0,
                    dppr@.n != 0,
                    nci == rat_floor(rat_div(diameter@, cut@)),
                    npi == rat_ceil(rat_div(depth@, dppr@)),
                    xoff@ == c_xoff(diameter@, cut@, nci),
                    full == circle_moves(cx@, cy@, diameter@, cut@, depth@, npi, nci),
                    full == (m0 + passes) + fin,
                    t2 == apply_moves(s0, m0)->0,
                    apply_moves(s0, m0) is Some,
                    ax@ == rat_add(cx@, xoff@),
                    passes == circle_passes_from(cx@, cy@, xoff@, cut@, depth@, 1, npi, nci),
                    forall|k: int| 1 <= k < i ==> z_ok(depth@, k, npi),
                    i > 1 ==> (forall|j: int| 1 <= j <= nci ==> arc_j_ok(cx@, xoff@, cut@, j, nci)),
                    out_extends(s0, self@),
                    apply_moves(t2, passes) == apply_moves(
                        self@,
                        circle_passes_from(cx@, cy@, xoff@, cut@, depth@, i as int, npi, nci),
                    ),
                decreases npu + 1 - i,
            {
                let ghost sc = self@;
                let ghost rest = circle_passes_from(cx@, cy@, xoff@, cut@, depth@, i as int, npi, nci);
                let ghost pass = circle_pass_moves(cx@, cy@, xoff@, cut@, depth@, i as int, npi, nci);
                let ghost tail = circle_passes_from(
                    cx@,
                    cy@,
                    xoff@,
                    cut@,
                    depth@,
                    i as int + 1,
                    npi,
                    nci,
                );
                proof {
                    assert(rest == pass + tail);
                    lemma_apply_append(sc, pass, tail);
                }
                match self.circle_one_pass(cx, cy, xoff, cut, ax, depth, i, npu, nc) {
                    Ok(_) => {},
                    Err(e) => {
                        proof {
                            lemma_extends_trans(s0, sc, self@);
                            if !z_ok(depth@, i as int, npi) {
                                assert(1 <= i as int <= npi && !z_ok(depth@, i as int, npi));
                            } else if !(forall|j: int| 1 <= j <= nci ==> arc_j_ok(
                                cx@,
                                xoff@,
                                cut@,
                                j,
                                nci,
                            )) {
                            } else {
                                assert(apply_moves(sc, pass) is None);
                                assert(apply_moves(sc, rest) is None);
                                assert(apply_moves(t2, passes) is None);
                                lemma_apply_append(s0, m0, passes);
                                assert(apply_moves(s0, m0 + passes) is None);
                                lemma_apply_append(s0, m0 + passes, fin);
                                assert(apply_moves(s0, full) is None);
                            }
                        }
                        return Err(e);
                    },
                }
                proof {
                    assert(apply_moves(t2, passes) == apply_moves(self@, tail));
                    lemma_extends_trans(s0, sc, self@);
                }
                i = i + 1;
            }
            proof {
                assert(circle_passes_from(cx@, cy@, xoff@, cut@, depth@, i as int, npi, nci)
                    =~= Seq::<MoveOp>::empty());
            }
        } else {
            proof {
                assert(passes =~= Seq::<MoveOp>::empty());
            }
        }
        let ghost t3 = self@;
        proof {
            assert(apply_moves(t2, passes) == Some(t3));
            assert(apply_moves(s0, m0 + passes) == Some(t3));
        }
        let five = Rat::from_int(5);
        match self.rapid_move(fx, cy, Some(five)) {
            Ok(_) => {},
            Err(e) => {
                proof {
                    use_type_invariant(fx);
                    use_type_invariant(cy);
                    lemma_apply_cons_fail(t3, fin);
                }
                return Err(e);
            },
        }
        proof {
            use_type_invariant(fx);
            use_type_invariant(cy);
            lemma_apply_cons_ok(t3, fin);
            assert(fin.drop_first().len() == 0);
            assert(apply_moves(s0, full) == Some(self@));
            lemma_move_extends(t3, fin[0]);
            lemma_extends_trans(s0, t3, self@);
        }
        Ok(())
    }
}

/// The spiral rectangle pattern, built outward: each loop traces the four
/// corners of the inset rectangle and returns to its starting corner, then
/// grows by the stepover on every side.  The traversal later reverses this
/// order.
pub open spec fn groove_pattern(
    cx: RatV,
    cy: RatV,
    cw: RatV,
    ch: RatV,
    so: RatV,
    so2: RatV,
    l: int,
) -> Seq<(RatV, RatV)>
    decreases l,
{
    if l <= 0 {
        Seq::<(RatV, RatV)>::empty()
    } else {
        let cx1 = rat_add(cx, cw);
        let cy1 = rat_add(cy, ch);
        let cx2 = rat_sub(cx1, cw);
        let cy2 = rat_sub(cy1, ch);
        seq![(cx, cy), (cx1, cy), (cx1, cy1), (cx2, cy1), (cx2, cy2)] + groove_pattern(
            rat_add(cx2, so),
            rat_add(cy2, so),
            rat_sub(cw, so2),
            rat_sub(ch, so2),
            so,
            so2,
            l - 1,
        )
    }
}

/// Every coordinate of the pattern construction is representable.
pub open spec fn groove_pattern_ok(
    cx: RatV,
    cy: RatV,
    cw: RatV,
    ch: RatV,
    so: RatV,
    so2: RatV,
    l: int,
) -> bool
    decreases l,
{
    if l <= 0 {
        true
    } else {
        let cx1 = rat_add(cx, cw);
        let cy1 = rat_add(cy, ch);
        let cx2 = rat_sub(cx1, cw);
        let cy2 = rat_sub(cy1, ch);
        rat_fits(cx1) && rat_fits(cy1) && rat_fits(cx2) && rat_fits(cy2) && rat_fits(
            rat_add(cx2, so),
        ) && rat_fits(rat_add(cy2, so)) && rat_fits(rat_sub(cw, so2)) && rat_fits(
            rat_sub(ch, so2),
        ) && groove_pattern_ok(
            rat_add(cx2, so),
            rat_add(cy2, so),
            rat_sub(cw, so2),
            rat_sub(ch, so2),
            so,
            so2,
            l - 1,
        )
    }
}

pub open spec fn seq_rev<A>(s: Seq<A>) -> Seq<A> {
    Seq::new(s.len(), |i: int| s[s.len() - 1 - i])
}

/// One depth pass over the reversed pattern: approach the first point (with
/// an extra retract before the first pass only), plunge, cut through the
/// remaining points, and retract — fully after the last pass, by a fixed
/// quarter-millimeter margin between passes.
pub open spec fn groove_pass_moves(
    pat: Seq<(RatV, RatV)>,
    depth: RatV,
    i: int,
    np: int,
) -> Seq<MoveOp>
    recommends
        pat.len() >= 1,
{
    let p0 = pat[0];
    let z = z_of_pass(depth, i, np);
    let head = if i == 1 {
        seq![
            MoveOp::Rapid { x: p0.0, y: p0.1, z: None },
            MoveOp::Rapid { x: p0.0, y: p0.1, z: Some(int_rat(5)) },
            MoveOp::Plunge { z },
        ]
    } else {
        seq![MoveOp::Rapid { x: p0.0, y: p0.1, z: None }, MoveOp::Plunge { z }]
    };
    let cuts = Seq::new(
        (pat.len() - 1) as nat,
        |k: int| MoveOp::Cut { x: pat[k + 1].0, y: pat[k + 1].1, z: None },
    );
    let tail = if i == np {
        seq![MoveOp::Rapid { x: p0.0, y: p0.1, z: Some(int_rat(5)) }]
    } else {
        seq![MoveOp::Rapid { x: p0.0, y: p0.1, z: Some(rat_add(z, RatV { n: 1, d: 4 })) }]
    };
    head + cuts + tail
}

pub open spec fn groove_passes_from(
    pat: Seq<(RatV, RatV)>,
    depth: RatV,
    i: int,
    np: int,
) -> Seq<MoveOp>
    decreases np + 1 - i,
{
    if i > np {
        Seq::<MoveOp>::empty()
    } else {
        groove_pass_moves(pat, depth, i, np) + groove_passes_from(pat, depth, i + 1, np)
    }
}

/// The number of spiral loops: `1 + ceil((width/2 - cutter) / stepover)`.
pub open spec fn groove_loops(w: RatV, cut: RatV, so: RatV) -> int {
    1 + rat_ceil(rat_div(rat_sub(rat_scale(w, 1, 2), cut), so))
}

/// The reversed pattern for the given pocket.
pub open spec fn groove_pat_of(
    x: RatV,
    y: RatV,
    w: RatV,
    h: RatV,
    cut: RatV,
    so: RatV,
) -> Seq<(RatV, RatV)> {
    seq_rev(
        groove_pattern(
            rat_add(x, rat_scale(cut, 1, 2)),
            rat_add(y, rat_scale(cut, 1, 2)),
            rat_sub(w, cut),
            rat_sub(h, cut),
            so,
            rat_scale(so, 2, 1),
            groove_loops(w, cut, so),
        ),
    )
}

/// Everything `groove_pocket` needs once at least one pass is due: the
/// pattern's prelude and every point representable, at least one loop, and
/// representable pass depths and retract heights.
pub open spec fn groove_ok(s: GStateV, x: RatV, y: RatV, w: RatV, h: RatV, depth: RatV) -> bool {
    let so = s.stepover;
    let dpp = s.depth_per_pass;
    let cut = s.cutter_diameter;
    let np = rat_ceil(rat_div(depth, dpp));
    let nl = groove_loops(w, cut, so);
    &&& dpp.n != 0
    &&& so.n != 0
    &&& rat_fits(rat_div(depth, dpp))
    &&& (np >= 1 ==> {
        &&& rat_fits(rat_scale(cut, 1, 2))
        &&& rat_fits(rat_add(x, rat_scale(cut, 1, 2)))
        &&& rat_fits(rat_add(y, rat_scale(cut, 1, 2)))
        &&& rat_fits(rat_sub(w, cut))
        &&& rat_fits(rat_sub(h, cut))
        &&& rat_fits(rat_scale(so, 2, 1))
        &&& rat_fits(rat_scale(w, 1, 2))
        &&& rat_fits(rat_sub(rat_scale(w, 1, 2), cut))
        &&& rat_fits(rat_div(rat_sub(rat_scale(w, 1, 2), cut), so))
        &&& nl <= i64::MAX
        &&& nl >= 1
        &&& groove_pattern_ok(
            rat_add(x, rat_scale(cut, 1, 2)),
            rat_add(y, rat_scale(cut, 1, 2)),
            rat_sub(w, cut),
            rat_sub(h, cut),
            so,
            rat_scale(so, 2, 1),
            nl,
        )
        &&& (forall|i: int| 1 <= i <= np ==> z_ok(depth, i, np))
        &&& (forall|i: int|
            1 <= i < np ==> rat_fits(rat_add(z_of_pass(depth, i, np), RatV { n: 1, d: 4 })))
        &&& apply_moves(s, groove_passes_from(groove_pat_of(x, y, w, h, cut, so), depth, 1, np))
            is Some
    })
}

/// The views of an executable point list.
pub open spec fn pv(s: Seq<(Rat, Rat)>) -> Seq<(RatV, RatV)> {
    s.map_values(|p: (Rat, Rat)| (p.0@, p.1@))
}

impl GcodeState {
    /// One depth pass of `groove_pocket`.
    #[verifier::rlimit(100)]
    #[verifier::spinoff_prover]
    fn groove_one_pass(
        &mut self,
        pat: &Vec<(Rat, Rat)>,
        depth: Rat,
        i: u64,
        np: u64,
        five: Rat,
        quart: Rat,
    ) -> (r: Result<(), GcadError>)
        requires
            pat@.len() >= 1,
            1 <= i <= np <= i64::MAX,
            five@ == int_rat(5),
            quart@ == (RatV { n: 1, d: 4 }),
        ensures
            ({
                let pass = groove_pass_moves(pv(pat@), depth@, i as int, np as int);
                match r {
                    Ok(_) => z_ok(depth@, i as int, np as int) && ((i as int) < np as int
                        ==> rat_fits(
                        rat_add(z_of_pass(depth@, i as int, np as int), RatV { n: 1, d: 4 }),
                    )) && apply_moves(old(self)@, pass) == Some(final (self)@),
                    Err(e) => (e.kind == ErrorKind::Overflow || e.kind == ErrorKind::Domain) && (
                    !z_ok(depth@, i as int, np as int) || ((i as int) < np as int && !rat_fits(
                        rat_add(z_of_pass(depth@, i as int, np as int), RatV { n: 1, d: 4 }),
                    )) || apply_moves(old(self)@, pass) is None),
                }
            }),
            out_extends(old(self)@, final (self)@),
    {
        let ghost sc = self@;
        proof {
            lemma_extends_refl(sc);
        }
        let ghost patv = pv(pat@);
        let ghost pass = groove_pass_moves(patv, depth@, i as int, np as int);
        let ghost z_v = z_of_pass(depth@, i as int, np as int);
        let ghost head = (if i as int == 1 {
            seq![
                MoveOp::Rapid { x: patv[0].0, y: patv[0].1, z: None },
                MoveOp::Rapid { x: patv[0].0, y: patv[0].1, z: Some(int_rat(5)) },
                MoveOp::Plunge { z: z_v },
            ]
        } else {
            seq![
                MoveOp::Rapid { x: patv[0].0, y: patv[0].1, z: None },
                MoveOp::Plunge { z: z_v },
            ]
        });
        let ghost cuts = Seq::new(
            (patv.len() - 1) as nat,
            |k: int| MoveOp::Cut { x: patv[k + 1].0, y: patv[k + 1].1, z: None },
        );
        let ghost tailm = (if i as int == np as int {
            seq![MoveOp::Rapid { x: patv[0].0, y: patv[0].1, z: Some(int_rat(5)) }]
        } else {
            seq![
                MoveOp::Rapid {
                    x: patv[0].0,
                    y: patv[0].1,
                    z: Some(rat_add(z_v, RatV { n: 1, d: 4 })),
                },
            ]
        });
        proof {
            assert(pass == (head + cuts) + tailm);
            lemma_apply_append(sc, head + cuts, tailm);
            lemma_apply_append(sc, head, cuts);
        }
        let z = match pass_z(depth, i, np) {
            Some(z) => z,
            None => {
                return Err(GcadError::new(ErrorKind::Overflow, String::new()));
            },
        };
        let p0 = (pat[0].0, pat[0].1);
        proof {
            use_type_invariant(p0.0);
            use_type_invariant(p0.1);
            use_type_invariant(z);
            assert((p0.0@, p0.1@) == patv[0]);
        }
        // approach and plunge
        match self.rapid_move_xy(p0.0, p0.1) {
            Ok(_) => {},
            Err(e) => {
                proof {
                    lemma_apply_cons_fail(sc, head);
                }
                return Err(e);
            },
        }
        let ghost t1 = self@;
        proof {
            lemma_apply_cons_ok(sc, head);
            assert(t1 == move_step(sc, head[0]));
            lemma_move_extends(sc, head[0]);
        }
        if i == 1 {
            match self.rapid_move(p0.0, p0.1, Some(five)) {
                Ok(_) => {},
                Err(e) => {
                    proof {
                        lemma_apply_cons_fail(t1, head.drop_first());
                    }
                    return Err(e);
                },
            }
            let ghost t2 = self@;
            proof {
                lemma_apply_cons_ok(t1, head.drop_first());
                assert(head.drop_first()[0] == head[1]);
                assert(t2 == move_step(t1, head[1]));
                lemma_move_extends(t1, head[1]);
                lemma_extends_trans(sc, t1, t2);
            }
            self.plunge(z);
            proof {
                lemma_apply_cons_ok(t2, head.drop_first().drop_first());
                assert(head.drop_first().drop_first()[0] == head[2]);
                assert(head.drop_first().drop_first().drop_first().len() == 0);
                assert(apply_moves(sc, head) == Some(self@));
                lemma_move_extends(t2, head[2]);
                lemma_extends_trans(sc, t2, self@);
            }
        } else {
            self.plunge(z);
            proof {
                lemma_apply_cons_ok(t1, head.drop_first());
                assert(head.drop_first()[0] == head[1]);
                assert(head.drop_first().drop_first().len() == 0);
                assert(apply_moves(sc, head) == Some(self@));
                lemma_move_extends(t1, head[1]);
                lemma_extends_trans(sc, t1, self@);
            }
        }
        let ghost th = self@;
        proof {
            assert(cuts.skip(0) =~= cuts);
        }
        // cut through the remaining pattern points
        let mut k: usize = 1;
        while k < pat.len()
            invariant
                1 <= k <= pat@.len(),
                patv == pv(pat@),
                patv.len() >= 1,
                cuts == Seq::new(
                    (patv.len() - 1) as nat,
                    |m: int| MoveOp::Cut { x: patv[m + 1].0, y: patv[m + 1].1, z: None },
                ),
                sc == old(self)@,
                pass == groove_pass_moves(patv, depth@, i as int, np as int),
                pass == (head + cuts) + tailm,
                z_ok(depth@, i as int, np as int),
                out_extends(sc, self@),
                apply_moves(sc, head) == Some(th),
                apply_moves(th, cuts) == apply_moves(self@, cuts.skip(k - 1)),
            decreases pat@.len() - k,
        {
            let ghost scur = self@;
            let ghost rest = cuts.skip(k - 1);
            proof {
                assert(rest[0] == cuts[k - 1]);
                assert(rest.drop_first() =~= cuts.skip(k as int));
            }
            let p = (pat[k].0, pat[k].1);
            proof {
                use_type_invariant(p.0);
                use_type_invariant(p.1);
                assert((p.0@, p.1@) == patv[k as int]);
            }
            match self.cutting_move(p.0, p.1, None) {
                Ok(_) => {},
                Err(e) => {
                    proof {
                        lemma_apply_cons_fail(scur, rest);
                        assert(apply_moves(th, cuts) is None);
                        lemma_apply_append(sc, head, cuts);
                        assert(apply_moves(sc, head + cuts) is None);
                        lemma_apply_append(sc, head + cuts, tailm);
                        assert(apply_moves(sc, pass) is None);
                    }
                    return Err(e);
                },
            }
            proof {
                lemma_apply_cons_ok(scur, rest);
                assert(self@ == move_step(scur, rest[0]));
                lemma_move_extends(scur, rest[0]);
                lemma_extends_trans(sc, scur, self@);
            }
            k = k + 1;
        }
        let ghost tc = self@;
        proof {
            assert(cuts.skip(k - 1) =~= Seq::<MoveOp>::empty());
            assert(apply_moves(th, cuts) == Some(tc));
        }
        // retract
        if i == np {
            match self.rapid_move(p0.0, p0.1, Some(five)) {
                Ok(_) => {},
                Err(e) => {
                    proof {
                        lemma_apply_cons_fail(tc, tailm);
                    }
                    return Err(e);
                },
            }
            proof {
                lemma_apply_cons_ok(tc, tailm);
                assert(tailm.drop_first().len() == 0);
                assert(apply_moves(sc, pass) == Some(self@));
                lemma_move_extends(tc, tailm[0]);
                lemma_extends_trans(sc, tc, self@);
            }
        } else {
            let zr = match z.add(quart) {
                Some(zr) => zr,
                None => {
                    return Err(GcadError::new(ErrorKind::Overflow, String::new()));
                },
            };
            match self.rapid_move(p0.0, p0.1, Some(zr)) {
                Ok(_) => {},
                Err(e) => {
                    proof {
                        use_type_invariant(zr);
                        lemma_apply_cons_fail(tc, tailm);
                    }
                    return Err(e);
                },
            }
            proof {
                use_type_invariant(zr);
                lemma_apply_cons_ok(tc, tailm);
                assert(tailm.drop_first().len() == 0);
                assert(apply_moves(sc, pass) == Some(self@));
                lemma_move_extends(tc, tailm[0]);
                lemma_extends_trans(sc, tc, self@);
            }
        }
        Ok(())
    }
}

impl GcodeState {
    /// Cut a rectangular pocket with lower-left corner (x, y), as a spiral
    /// pattern built from the innermost loop outward and traversed in
    /// reverse, at each of `ceil(depth / depth_per_pass)` depths.  The
    /// stepover and depth per pass must be nonzero, and the pattern must
    /// have at least one loop when a pass is due, else a domain error;
    /// coordinate overflow is an overflow error.
    pub fn groove_pocket(
        &mut self,
        x: Rat,
        y: Rat,
        width: Rat,
        height: Rat,
        depth: Rat,
    ) -> (r: Result<(), GcadError>)
        ensures
            ({
                let so = old(self)@.stepover;
                let dpp = old(self)@.depth_per_pass;
                let cut = old(self)@.cutter_diameter;
                let np = rat_ceil(rat_div(depth@, dpp));
                let pat = groove_pat_of(x@, y@, width@, height@, cut, so);
                match r {
                    Ok(_) => groove_ok(old(self)@, x@, y@, width@, height@, depth@) && (np >= 1
                        ==> apply_moves(old(self)@, groove_passes_from(pat, depth@, 1, np)) == Some(
                        final (self)@,
                    )) && (np < 1 ==> final (self)@ == old(self)@),
                    Err(e) => !groove_ok(old(self)@, x@, y@, width@, height@, depth@) && (if dpp.n
                        == 0 || so.n == 0 {
                        e.kind == ErrorKind::Domain && final (self)@ == old(self)@
                    } else {
                        e.kind == ErrorKind::Overflow || e.kind == ErrorKind::Domain
                    }),
                }
            }),
            out_extends(old(self)@, final (self)@),
    {
        let ghost s0 = self@;
        proof {
            lemma_extends_refl(s0);
        }
        let so_r = self.stepover;
        let dppr = self.depth_per_pass;
        let cut = self.cutter_diameter;
        if dppr.is_zero() {
            return Err(GcadError::new(ErrorKind::Domain, String::new()));
        }
        if so_r.is_zero() {
            return Err(GcadError::new(ErrorKind::Domain, String::new()));
        }
        let q2 = match depth.div(dppr) {
            Some(q) => q,
            None => {
                return Err(GcadError::new(ErrorKind::Overflow, String::new()));
            },
        };
        let np = q2.ceil_i64();
        if np <= 0 {
            return Ok(());
        }
        let npu = np as u64;
        let ghost npi = np as int;
        // the inset start corner and rectangle
        let half_cut = match cut.mul_frac(1, 2) {
            Some(h) => h,
            None => {
                return Err(GcadError::new(ErrorKind::Overflow, String::new()));
            },
        };
        let cx0 = match x.add(half_cut) {
            Some(v) => v,
            None => {
                return Err(GcadError::new(ErrorKind::Overflow, String::new()));
            },
        };
        let cy0 = match y.add(half_cut) {
            Some(v) => v,
            None => {
                return Err(GcadError::new(ErrorKind::Overflow, String::new()));
            },
        };
        let cw0 = match width.sub(cut) {
            Some(v) => v,
            None => {
                return Err(GcadError::new(ErrorKind::Overflow, String::new()));
            },
        };
        let ch0 = match height.sub(cut) {
            Some(v) => v,
            None => {
                return Err(GcadError::new(ErrorKind::Overflow, String::new()));
            },
        };
        let so2 = match so_r.mul_frac(2, 1) {
            Some(v) => v,
            None => {
                return Err(GcadError::new(ErrorKind::Overflow, String::new()));
            },
        };
        let half_w = match width.mul_frac(1, 2) {
            Some(v) => v,
            None => {
                return Err(GcadError::new(ErrorKind::Overflow, String::new()));
            },
        };
        let u = match half_w.sub(cut) {
            Some(v) => v,
            None => {
                return Err(GcadError::new(ErrorKind::Overflow, String::new()));
            },
        };
        let qd = match u.div(so_r) {
            Some(v) => v,
            None => {
                return Err(GcadError::new(ErrorKind::Overflow, String::new()));
            },
        };
        let nlc = qd.ceil_i64();
        if nlc == i64::MAX {
            return Err(GcadError::new(ErrorKind::Overflow, String::new()));
        }
        let nl = nlc + 1;
        if nl <= 0 {
            return Err(GcadError::new(ErrorKind::Domain, String::new()));
        }
        let nlu = nl as u64;
        let ghost nli = nl as int;
        // build the pattern, innermost loop first
        let mut pattern: Vec<(Rat, Rat)> = Vec::new();
        let mut cxc = cx0;
        let mut cyc = cy0;
        let mut cwc = cw0;
        let mut chc = ch0;
        let mut l: u64 = 0;
        while l < nlu
            invariant
                0 <= l <= nlu,
                nli == nlu,
                nli == nl as int,
                1 <= nli <= i64::MAX,
                s0 == old(self)@,
                self@ == s0,
                out_extends(s0, self@),
                cut@ == s0.cutter_diameter,
                so_r@ == s0.stepover,
                dppr@ == s0.depth_per_pass,
                dppr@.n != 0,
                so_r@.n != 0,
                1 <= npi <= i64::MAX,
                npi == np as int,
                npi == npu,
                npi == rat_ceil(rat_div(depth@, dppr@)),
                rat_fits(rat_div(depth@, dppr@)),
                nli == groove_loops(width@, cut@, so_r@),
                cx0@ == rat_add(x@, rat_scale(cut@, 1, 2)),
                cy0@ == rat_add(y@, rat_scale(cut@, 1, 2)),
                cw0@ == rat_sub(width@, cut@),
                ch0@ == rat_sub(height@, cut@),
                so2@ == rat_scale(so_r@, 2, 1),
                groove_pattern_ok(cx0@, cy0@, cw0@, ch0@, so_r@, so2@, nli) == groove_pattern_ok(
                    cxc@,
                    cyc@,
                    cwc@,
                    chc@,
                    so_r@,
                    so2@,
                    nli - l,
                ),
                groove_pattern(cx0@, cy0@, cw0@, ch0@, so_r@, so2@, nli) == pv(pattern@)
                    + groove_pattern(cxc@, cyc@, cwc@, chc@, so_r@, so2@, nli - l),
            decreases nlu - l,
        {
            let ghost patv0 = pv(pattern@);
            let cx1 = match cxc.add(cwc) {
                Some(v) => v,
                None => {
                    return Err(GcadError::new(ErrorKind::Overflow, String::new()));
                },
            };
            let cy1 = match cyc.add(chc) {
                Some(v) => v,
                None => {
                    return Err(GcadError::new(ErrorKind::Overflow, String::new()));
                },
            };
            let cx2 = match cx1.sub(cwc) {
                Some(v) => v,
                None => {
                    return Err(GcadError::new(ErrorKind::Overflow, String::new()));
                },
            };
            let cy2 = match cy1.sub(chc) {
                Some(v) => v,
                None => {
                    return Err(GcadError::new(ErrorKind::Overflow, String::new()));
                },
            };
            pattern.push((cxc, cyc));
            pattern.push((cx1, cyc));
            pattern.push((cx1, cy1));
            pattern.push((cx2, cy1));
            pattern.push((cx2, cy2));
            let nx = match cx2.add(so_r) {
                Some(v) => v,
                None => {
                    return Err(GcadError::new(ErrorKind::Overflow, String::new()));
                },
            };
            let ny = match cy2.add(so_r) {
                Some(v) => v,
                None => {
                    return Err(GcadError::new(ErrorKind::Overflow, String::new()));
                },
            };
            let nw = match cwc.sub(so2) {
                Some(v) => v,
                None => {
                    return Err(GcadError::new(ErrorKind::Overflow, String::new()));
                },
            };
            let nh = match chc.sub(so2) {
                Some(v) => v,
                None => {
                    return Err(GcadError::new(ErrorKind::Overflow, String::new()));
                },
            };
            proof {
                assert(pv(pattern@) =~= patv0 + seq![
                    (cxc@, cyc@),
                    (cx1@, cyc@),
                    (cx1@, cy1@),
                    (cx2@, cy1@),
                    (cx2@, cy2@),
                ]);
                assert(groove_pattern(cxc@, cyc@, cwc@, chc@, so_r@, so2@, nli - l) == seq![
                    (cxc@, cyc@),
                    (cx1@, cyc@),
                    (cx1@, cy1@),
                    (cx2@, cy1@),
                    (cx2@, cy2@),
                ] + groove_pattern(nx@, ny@, nw@, nh@, so_r@, so2@, nli - l - 1));
                assert(patv0 + (seq![
                    (cxc@, cyc@),
                    (cx1@, cyc@),
                    (cx1@, cy1@),
                    (cx2@, cy1@),
                    (cx2@, cy2@),
                ] + groove_pattern(nx@, ny@, nw@, nh@, so_r@, so2@, nli - l - 1)) =~= pv(pattern@)
                    + groove_pattern(nx@, ny@, nw@, nh@, so_r@, so2@, nli - l - 1));
            }
            cxc = nx;
            cyc = ny;
            cwc = nw;
            chc = nh;
            l = l + 1;
        }
        proof {
            assert(groove_pattern(cxc@, cyc@, cwc@, chc@, so_r@, so2@, 0)
                =~= Seq::<(RatV, RatV)>::empty());
            assert(pv(pattern@) + Seq::<(RatV, RatV)>::empty() =~= pv(pattern@));
            assert(pv(pattern@) == groove_pattern(cx0@, cy0@, cw0@, ch0@, so_r@, so2@, nli));
            assert(pv(pattern@).len() == 5 * nli) by {
                lemma_groove_pattern_len(cx0@, cy0@, cw0@, ch0@, so_r@, so2@, nli);
            }
        }
        // reverse the pattern so the cut begins at the innermost loop
        let mut rev: Vec<(Rat, Rat)> = Vec::new();
        let n_pts = pattern.len();
        let mut k: usize = 0;
        while k < n_pts
            invariant
                0 <= k <= n_pts,
                n_pts == pattern@.len(),
                rev@.len() == k,
                forall|m: int| 0 <= m < k ==> rev@[m] == pattern@[n_pts - 1 - m],
            decreases n_pts - k,
        {
            let p = (pattern[n_pts - 1 - k].0, pattern[n_pts - 1 - k].1);
            rev.push(p);
            k = k + 1;
        }
        let ghost patv = seq_rev(pv(pattern@));
        proof {
            assert(pv(rev@) =~= patv);
        }
        // the passes
        let five = Rat::from_int(5);
        let quart = quarter();
        let ghost t0 = self@;
        let ghost passes = groove_passes_from(patv, depth@, 1, npi);
        let mut i: u64 = 1;
        while i <= npu
            invariant
                1 <= i <= npu + 1,
                1 <= npu <= i64::MAX,
                npi == npu,
                npi == np as int,
                s0 == old(self)@,
                t0 == s0,
                so_r@ == s0.stepover,
                dppr@ == s0.depth_per_pass,
                cut@ == s0.cutter_diameter,
                dppr@.n != 0,
                so_r@.n != 0,
                npi == rat_ceil(rat_div(depth@, dppr@)),
                rat_fits(rat_div(depth@, dppr@)),
                nli == groove_loops(width@, cut@, so_r@),
                1 <= nli <= i64::MAX,
                rat_fits(rat_scale(cut@, 1, 2)),
                rat_fits(rat_add(x@, rat_scale(cut@, 1, 2))),
                rat_fits(rat_add(y@, rat_scale(cut@, 1, 2))),
                rat_fits(rat_sub(width@, cut@)),
                rat_fits(rat_sub(height@, cut@)),
                rat_fits(rat_scale(so_r@, 2, 1)),
                rat_fits(rat_scale(width@, 1, 2)),
                rat_fits(rat_sub(rat_scale(width@, 1, 2), cut@)),
                rat_fits(rat_div(rat_sub(rat_scale(width@, 1, 2), cut@), so_r@)),
                groove_pattern_ok(
                    rat_add(x@, rat_scale(cut@, 1, 2)),
                    rat_add(y@, rat_scale(cut@, 1, 2)),
                    rat_sub(width@, cut@),
                    rat_sub(height@, cut@),
                    so_r@,
                    rat_scale(so_r@, 2, 1),
                    nli,
                ),
                patv == groove_pat_of(x@, y@, width@, height@, cut@, so_r@),
                patv.len() >= 1,
                pv(rev@) == patv,
                rev@.len() == patv.len(),
                five@ == int_rat(5),
                quart@ == (RatV { n: 1, d: 4 }),
                passes == groove_passes_from(patv, depth@, 1, npi),
                forall|m: int| 1 <= m < i ==> z_ok(depth@, m, npi),
                forall|m: int|
                    1 <= m < i && m < npi ==> rat_fits(
                        rat_add(z_of_pass(depth@, m, npi), RatV { n: 1, d: 4 }),
                    ),
                out_extends(s0, self@),
                apply_moves(t0, passes) == apply_moves(
                    self@,
                    groove_passes_from(patv, depth@, i as int, npi),
                ),
            decreases npu + 1 - i,
        {
            let ghost sc = self@;
            let ghost rest = groove_passes_from(patv, depth@, i as int, npi);
            let ghost pass = groove_pass_moves(patv, depth@, i as int, npi);
            let ghost tail = groove_passes_from(patv, depth@, i as int + 1, npi);
            proof {
                assert(rest == pass + tail);
                lemma_apply_append(sc, pass, tail);
            }
            match self.groove_one_pass(&rev, depth, i, npu, five, quart) {
                Ok(_) => {},
                Err(e) => {
                    proof {
                        lemma_extends_trans(s0, sc, self@);
                        if !z_ok(depth@, i as int, npi) {
                            assert(1 <= i as int <= npi && !z_ok(depth@, i as int, npi));
                        } else if (i as int) < npi && !rat_fits(
                            rat_add(z_of_pass(depth@, i as int, npi), RatV { n: 1, d: 4 }),
                        ) {
                            assert(1 <= i as int && (i as int) < npi && !rat_fits(
                                rat_add(z_of_pass(depth@, i as int, npi), RatV { n: 1, d: 4 }),
                            ));
                        } else {
                            assert(apply_moves(sc, pass) is None);
                            assert(apply_moves(sc, rest) is None);
                            assert(apply_moves(t0, passes) is None);
                        }
                    }
                    return Err(e);
                },
            }
            proof {
                assert(apply_moves(t0, passes) == apply_moves(self@, tail));
                lemma_extends_trans(s0, sc, self@);
            }
            i = i + 1;
        }
        proof {
            assert(groove_passes_from(patv, depth@, i as int, npi) =~= Seq::<MoveOp>::empty());
            assert(apply_moves(t0, passes) == Some(self@));
        }
        Ok(())
    }
}

/// The pattern has five points per loop.
pub proof fn lemma_groove_pattern_len(
    cx: RatV,
    cy: RatV,
    cw: RatV,
    ch: RatV,
    so: RatV,
    so2: RatV,
    l: int,
)
    requires
        l >= 0,
    ensures
        groove_pattern(cx, cy, cw, ch, so, so2, l).len() == 5 * l,
    decreases l,
{
    if l > 0 {
        let cx1 = rat_add(cx, cw);
        let cy1 = rat_add(cy, ch);
        let cx2 = rat_sub(cx1, cw);
        let cy2 = rat_sub(cy1, ch);
        lemma_groove_pattern_len(
            rat_add(cx2, so),
            rat_add(cy2, so),
            rat_sub(cw, so2),
            rat_sub(ch, so2),
            so,
            so2,
            l - 1,
        );
    }
}

} // verus!
