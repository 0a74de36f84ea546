//! The modal G-code emission state machine.
//!
//! The machine tracks the last emitted command word, the last value written
//! for each axis/parameter word, and the output text.  Every primitive
//! resolves its target, applies the active scale transform to X/Y, suppresses
//! a line that moves nowhere, writes only the words whose value changed, and
//! updates the tracked state — the specification functions in this module say
//! exactly which characters are appended for every call.

use crate::err::{ErrorKind, GcadError};
use crate::fmt::{fmt3, fmt3_into, push_char};
use crate::rat::{int_rat, rat_eqv, rat_fits, rat_mul, rat_sub, Rat, RatV};
use vstd::prelude::*;
use vstd::string::StrSliceExecFns;
use vstd::string::StringExecFns;

verus! {

/// A command word: G or M code.
#[derive(Clone, Copy, PartialEq, Eq, Structural, Debug)]
pub enum Cmd {
    G0,
    G1,
    G3,
    G21,
    G90,
    M2,
    M3,
    M5,
}

pub open spec fn cmd_text(c: Cmd) -> Seq<char> {
    match c {
        Cmd::G0 => "G0"@,
        Cmd::G1 => "G1"@,
        Cmd::G3 => "G3"@,
        Cmd::G21 => "G21"@,
        Cmd::G90 => "G90"@,
        Cmd::M2 => "M02"@,
        Cmd::M3 => "M03"@,
        Cmd::M5 => "M05"@,
    }
}

fn cmd_str(c: Cmd) -> (r: &'static str)
    ensures
        r@ == cmd_text(c),
{
    match c {
        Cmd::G0 => "G0",
        Cmd::G1 => "G1",
        Cmd::G3 => "G3",
        Cmd::G21 => "G21",
        Cmd::G90 => "G90",
        Cmd::M2 => "M02",
        Cmd::M3 => "M03",
        Cmd::M5 => "M05",
    }
}

/// The emission state at the specification level.
#[verifier::ext_equal]
pub struct GStateV {
    pub stepover: RatV,
    pub depth_per_pass: RatV,
    pub feed_rate: RatV,
    pub plunge_rate: RatV,
    pub cutter_diameter: RatV,
    pub sx: RatV,
    pub sy: RatV,
    pub last_cmd: Option<Cmd>,
    pub mx: Option<RatV>,
    pub my: Option<RatV>,
    pub mz: Option<RatV>,
    pub mi: Option<RatV>,
    pub mj: Option<RatV>,
    pub mf: Option<RatV>,
    pub ms: Option<RatV>,
    pub out: Seq<char>,
}

/// An axis or parameter word: the letter followed by the formatted value.
pub open spec fn axis_text(c: char, v: RatV) -> Seq<char> {
    seq![c] + fmt3(v)
}

/// Words of a line joined by single spaces.
pub open spec fn join_sp(ws: Seq<Seq<char>>) -> Seq<char>
    decreases ws.len(),
{
    if ws.len() == 0 {
        Seq::<char>::empty()
    } else if ws.len() == 1 {
        ws[0]
    } else {
        join_sp(ws.drop_last()) + seq![' '] + ws.last()
    }
}

/// The tracked word equals this value (as a rational, not merely as a
/// representation).
pub open spec fn opt_eqv(m: Option<RatV>, v: RatV) -> bool {
    match m {
        Some(w) => rat_eqv(w, v),
        None => false,
    }
}

pub open spec fn opt_seq(keep: bool, t: Seq<char>) -> Seq<Seq<char>> {
    if keep {
        seq![t]
    } else {
        Seq::<Seq<char>>::empty()
    }
}

/// Would this word be written?  A word is a candidate when the argument is
/// present, and is suppressed when its value equals the tracked one.
pub open spec fn word_write(arg: Option<RatV>, m: Option<RatV>) -> bool {
    match arg {
        Some(v) => !opt_eqv(m, v),
        None => false,
    }
}

/// The word's contribution to the line.
pub open spec fn word_piece(c: char, arg: Option<RatV>, m: Option<RatV>) -> Seq<Seq<char>> {
    match arg {
        Some(v) => if opt_eqv(m, v) {
            Seq::<Seq<char>>::empty()
        } else {
            seq![axis_text(c, v)]
        },
        None => Seq::<Seq<char>>::empty(),
    }
}

/// The tracked word after the line: overwritten when the argument touched it.
pub open spec fn word_upd(arg: Option<RatV>, m: Option<RatV>) -> Option<RatV> {
    if arg is Some {
        arg
    } else {
        m
    }
}

/// The pieces of a motion line (commands `G0`, `G1`, `G3`).
pub open spec fn motion_pieces(
    s: GStateV,
    cmd: Cmd,
    x: Option<RatV>,
    y: Option<RatV>,
    z: Option<RatV>,
    i: Option<RatV>,
    j: Option<RatV>,
    f: Option<RatV>,
) -> Seq<Seq<char>> {
    opt_seq(s.last_cmd != Some(cmd), cmd_text(cmd)) + word_piece('X', x, s.mx) + word_piece(
        'Y',
        y,
        s.my,
    ) + word_piece('Z', z, s.mz) + word_piece('I', i, s.mi) + word_piece('J', j, s.mj)
        + word_piece('F', f, s.mf)
}

/// A motion line is emitted only when some axis word (X, Y or Z) survives
/// suppression: a line that moves nowhere emits nothing.
pub open spec fn motion_emits(
    s: GStateV,
    x: Option<RatV>,
    y: Option<RatV>,
    z: Option<RatV>,
) -> bool {
    word_write(x, s.mx) || word_write(y, s.my) || word_write(z, s.mz)
}

/// One motion line: either nothing happens, or the line's pieces are
/// appended and the tracked state takes the new values.
#[verifier::opaque]
pub open spec fn motion_step(
    s: GStateV,
    cmd: Cmd,
    x: Option<RatV>,
    y: Option<RatV>,
    z: Option<RatV>,
    i: Option<RatV>,
    j: Option<RatV>,
    f: Option<RatV>,
) -> GStateV {
    if !motion_emits(s, x, y, z) {
        s
    } else {
        GStateV {
            last_cmd: Some(cmd),
            mx: word_upd(x, s.mx),
            my: word_upd(y, s.my),
            mz: word_upd(z, s.mz),
            mi: word_upd(i, s.mi),
            mj: word_upd(j, s.mj),
            mf: word_upd(f, s.mf),
            out: s.out + join_sp(motion_pieces(s, cmd, x, y, z, i, j, f)) + seq!['\n'],
            ..s
        }
    }
}

/// A spindle-speed line (`M03 S...`): suppressed entirely when the speed
/// word would be suppressed.
pub open spec fn spindle_step(s: GStateV, rpm: RatV) -> GStateV {
    if opt_eqv(s.ms, rpm) {
        s
    } else {
        GStateV {
            last_cmd: Some(Cmd::M3),
            ms: Some(rpm),
            out: s.out + join_sp(
                opt_seq(s.last_cmd != Some(Cmd::M3), cmd_text(Cmd::M3)) + seq![
                    axis_text('S', rpm),
                ],
            ) + seq!['\n'],
            ..s
        }
    }
}

/// A comment line: parenthesized free text, no state change.
pub open spec fn comment_step(s: GStateV, text: Seq<char>) -> GStateV {
    GStateV { out: s.out + seq!['('] + text + seq![')'] + seq!['\n'], ..s }
}

/// A bare command line (`G90`, `G21`, `M02`, `M05`), modal like any other.
pub open spec fn simple_step(s: GStateV, cmd: Cmd) -> GStateV {
    if s.last_cmd == Some(cmd) {
        s
    } else {
        GStateV { last_cmd: Some(cmd), out: s.out + cmd_text(cmd) + seq!['\n'], ..s }
    }
}

/// The retract to safe Z in machine coordinates: written in full, and the
/// machine-coordinate move invalidates the tracked command and Z value.
pub open spec fn machine_retract_step(s: GStateV) -> GStateV {
    GStateV { last_cmd: None, mz: None, out: s.out + "G53 G0 Z-5\n"@, ..s }
}

/// The fixed header: absolute mode, metric units, a comment, a retract to a
/// known safe Z in machine coordinates, spindle stop.
pub open spec fn header_step(s: GStateV) -> GStateV {
    simple_step(
        machine_retract_step(
            comment_step(simple_step(simple_step(s, Cmd::G90), Cmd::G21), "Move to safe Z"@),
        ),
        Cmd::M5,
    )
}

/// The program-end instruction.
pub open spec fn finish_step(s: GStateV) -> GStateV {
    simple_step(s, Cmd::M2)
}

/// The earlier output is a prefix of the later: emission only appends.
pub open spec fn out_extends(a: GStateV, b: GStateV) -> bool {
    a.out.is_prefix_of(b.out)
}

pub proof fn lemma_extends_refl(a: GStateV)
    ensures
        out_extends(a, a),
{
    assert(a.out =~= a.out.subrange(0, a.out.len() as int));
}

pub proof fn lemma_extends_trans(a: GStateV, b: GStateV, c: GStateV)
    requires
        out_extends(a, b),
        out_extends(b, c),
    ensures
        out_extends(a, c),
{
    assert(a.out =~= c.out.subrange(0, a.out.len() as int));
}

pub proof fn lemma_motion_extends(
    s: GStateV,
    cmd: Cmd,
    x: Option<RatV>,
    y: Option<RatV>,
    z: Option<RatV>,
    i: Option<RatV>,
    j: Option<RatV>,
    f: Option<RatV>,
)
    ensures
        out_extends(s, motion_step(s, cmd, x, y, z, i, j, f)),
{
    reveal(motion_step);
    let t = motion_step(s, cmd, x, y, z, i, j, f);
    assert(s.out =~= t.out.subrange(0, s.out.len() as int));
}

pub proof fn lemma_spindle_extends(s: GStateV, rpm: RatV)
    ensures
        out_extends(s, spindle_step(s, rpm)),
{
    let t = spindle_step(s, rpm);
    assert(s.out =~= t.out.subrange(0, s.out.len() as int));
}

pub proof fn lemma_comment_extends(s: GStateV, text: Seq<char>)
    ensures
        out_extends(s, comment_step(s, text)),
{
    let t = comment_step(s, text);
    assert(s.out =~= t.out.subrange(0, s.out.len() as int));
}

pub proof fn lemma_simple_extends(s: GStateV, cmd: Cmd)
    ensures
        out_extends(s, simple_step(s, cmd)),
{
    let t = simple_step(s, cmd);
    assert(s.out =~= t.out.subrange(0, s.out.len() as int));
}

pub proof fn lemma_header_extends(s: GStateV)
    ensures
        out_extends(s, header_step(s)),
{
    let s1 = simple_step(s, Cmd::G90);
    let s2 = simple_step(s1, Cmd::G21);
    let s3 = comment_step(s2, "Move to safe Z"@);
    let s4 = machine_retract_step(s3);
    lemma_simple_extends(s, Cmd::G90);
    lemma_simple_extends(s1, Cmd::G21);
    lemma_comment_extends(s2, "Move to safe Z"@);
    assert(s3.out =~= s4.out.subrange(0, s3.out.len() as int));
    lemma_simple_extends(s4, Cmd::M5);
    lemma_extends_trans(s, s1, s2);
    lemma_extends_trans(s, s2, s3);
    lemma_extends_trans(s, s3, s4);
    lemma_extends_trans(s, s4, header_step(s));
}

/// The view of an optional executable rational.
pub open spec fn ov(o: Option<Rat>) -> Option<RatV> {
    match o {
        Some(r) => Some(r@),
        None => None,
    }
}

/// The transformed X/Y target fits the representation.
pub open spec fn xform_ok(s: GStateV, x: RatV, y: RatV) -> bool {
    rat_fits(rat_mul(x, s.sx)) && rat_fits(rat_mul(y, s.sy))
}

pub open spec fn rapid_step(s: GStateV, x: RatV, y: RatV, z: Option<RatV>) -> GStateV {
    motion_step(
        s,
        Cmd::G0,
        Some(rat_mul(x, s.sx)),
        Some(rat_mul(y, s.sy)),
        z,
        None,
        None,
        None,
    )
}

pub open spec fn cut_step(s: GStateV, x: RatV, y: RatV, z: Option<RatV>) -> GStateV {
    motion_step(
        s,
        Cmd::G1,
        Some(rat_mul(x, s.sx)),
        Some(rat_mul(y, s.sy)),
        z,
        None,
        None,
        Some(s.feed_rate),
    )
}

pub open spec fn plunge_step(s: GStateV, z: RatV) -> GStateV {
    motion_step(s, Cmd::G1, None, None, Some(z), None, None, Some(s.plunge_rate))
}

/// An arc's center is written as I/J offsets from the current position, so
/// the current X/Y must be known.
pub open spec fn arc_pos_known(s: GStateV) -> bool {
    s.mx is Some && s.my is Some
}

pub open spec fn arc_i(s: GStateV, cx: RatV) -> RatV {
    rat_sub(rat_mul(cx, s.sx), s.mx->0)
}

pub open spec fn arc_j(s: GStateV, cy: RatV) -> RatV {
    rat_sub(rat_mul(cy, s.sy), s.my->0)
}

pub open spec fn arc_ok(s: GStateV, x: RatV, y: RatV, cx: RatV, cy: RatV) -> bool {
    arc_pos_known(s) && xform_ok(s, x, y) && rat_fits(rat_mul(cx, s.sx)) && rat_fits(
        rat_mul(cy, s.sy),
    ) && rat_fits(arc_i(s, cx)) && rat_fits(arc_j(s, cy))
}

pub open spec fn arc_step(s: GStateV, x: RatV, y: RatV, cx: RatV, cy: RatV) -> GStateV {
    motion_step(
        s,
        Cmd::G3,
        Some(rat_mul(x, s.sx)),
        Some(rat_mul(y, s.sy)),
        None,
        Some(arc_i(s, cx)),
        Some(arc_j(s, cy)),
        Some(s.feed_rate),
    )
}

/// The initial state: parameters zero, identity transform, nothing tracked,
/// empty output.
pub open spec fn g_init() -> GStateV {
    GStateV {
        stepover: int_rat(0),
        depth_per_pass: int_rat(0),
        feed_rate: int_rat(0),
        plunge_rate: int_rat(0),
        cutter_diameter: int_rat(0),
        sx: int_rat(1),
        sy: int_rat(1),
        last_cmd: None,
        mx: None,
        my: None,
        mz: None,
        mi: None,
        mj: None,
        mf: None,
        ms: None,
        out: Seq::<char>::empty(),
    }
}

/// The live G-code writer: machining parameters, the scale transform, the
/// modal emission state, and the output text.
pub struct GcodeState {
    pub stepover: Rat,
    pub depth_per_pass: Rat,
    pub feed_rate: Rat,
    pub plunge_rate: Rat,
    pub cutter_diameter: Rat,
    pub sx: Rat,
    pub sy: Rat,
    pub last_cmd: Option<Cmd>,
    pub mx: Option<Rat>,
    pub my: Option<Rat>,
    pub mz: Option<Rat>,
    pub mi: Option<Rat>,
    pub mj: Option<Rat>,
    pub mf: Option<Rat>,
    pub ms: Option<Rat>,
    pub out: String,
}

impl View for GcodeState {
    type V = GStateV;

    open spec fn view(&self) -> GStateV {
        GStateV {
            stepover: self.stepover@,
            depth_per_pass: self.depth_per_pass@,
            feed_rate: self.feed_rate@,
            plunge_rate: self.plunge_rate@,
            cutter_diameter: self.cutter_diameter@,
            sx: self.sx@,
            sy: self.sy@,
            last_cmd: self.last_cmd,
            mx: ov(self.mx),
            my: ov(self.my),
            mz: ov(self.mz),
            mi: ov(self.mi),
            mj: ov(self.mj),
            mf: ov(self.mf),
            ms: ov(self.ms),
            out: self.out@,
        }
    }
}

/// Whether this word would be written against the tracked value.
fn opt_write(arg: &Option<Rat>, m: &Option<Rat>) -> (b: bool)
    ensures
        b == word_write(ov(*arg), ov(*m)),
{
    match arg {
        Some(v) => match m {
            Some(w) => !w.eq_val(v),
            None => true,
        },
        None => false,
    }
}

/// The word text: letter plus formatted value.
fn axis_str(c: char, v: Rat) -> (r: String)
    ensures
        r@ == axis_text(c, v@),
{
    let mut w = String::new();
    push_char(&mut w, c);
    fmt3_into(&mut w, v);
    proof {
        assert(w@ =~= axis_text(c, v@));
    }
    w
}

/// Append the piece of one word (if any) to the line's pieces.
fn push_word(pieces: &mut Vec<String>, c: char, arg: Option<Rat>, m: Option<Rat>)
    ensures
        final (pieces)@.map_values(|p: String| p@) == old(pieces)@.map_values(|p: String| p@)
            + word_piece(c, ov(arg), ov(m)),
{
    let w = opt_write(&arg, &m);
    if w {
        if let Some(v) = arg {
            pieces.push(axis_str(c, v));
        }
    }
    proof {
        assert(pieces@.map_values(|p: String| p@) =~= old(pieces)@.map_values(|p: String| p@)
            + word_piece(c, ov(arg), ov(m)));
    }
}

/// Join the pieces of a line with single spaces.
fn join_pieces(pieces: &Vec<String>) -> (line: String)
    ensures
        line@ == join_sp(pieces@.map_values(|p: String| p@)),
{
    let ghost target = pieces@.map_values(|p: String| p@);
    let mut line = String::new();
    let mut k: usize = 0;
    while k < pieces.len()
        invariant
            k <= pieces.len(),
            target == pieces@.map_values(|p: String| p@),
            line@ == join_sp(target.take(k as int)),
        decreases pieces.len() - k,
    {
        if k > 0 {
            push_char(&mut line, ' ');
        }
        line.append(pieces[k].as_str());
        proof {
            let t1 = target.take(k as int + 1);
            assert(t1.drop_last() =~= target.take(k as int));
            assert(t1.last() == target[k as int]);
            if k == 0 {
                assert(line@ =~= join_sp(t1));
            } else {
                assert(line@ =~= join_sp(t1));
            }
        }
        k = k + 1;
    }
    proof {
        assert(target.take(pieces@.len() as int) =~= target);
    }
    line
}

impl GcodeState {
    pub fn new() -> (r: GcodeState)
        ensures
            r@ == g_init(),
    {
        let r = GcodeState {
            stepover: Rat::zero(),
            depth_per_pass: Rat::zero(),
            feed_rate: Rat::zero(),
            plunge_rate: Rat::zero(),
            cutter_diameter: Rat::zero(),
            sx: Rat::from_int(1),
            sy: Rat::from_int(1),
            last_cmd: None,
            mx: None,
            my: None,
            mz: None,
            mi: None,
            mj: None,
            mf: None,
            ms: None,
            out: String::new(),
        };
        proof {
            assert(r@ =~= g_init());
        }
        r
    }

    /// The program text written so far.
    pub fn output(&self) -> (r: String)
        ensures
            r@ == self@.out,
    {
        self.out.clone()
    }

    /// Set the scale transform applied to every programmed X/Y.
    pub fn set_scale(&mut self, x: Rat, y: Rat)
        ensures
            final (self)@ == (GStateV { sx: x@, sy: y@, ..old(self)@ }),
    {
        self.sx = x;
        self.sy = y;
        proof {
            assert(final (self)@ =~= (GStateV { sx: x@, sy: y@, ..old(self)@ }));
        }
    }

    fn last_is(&self, cmd: Cmd) -> (b: bool)
        ensures
            b == (self@.last_cmd == Some(cmd)),
    {
        match self.last_cmd {
            Some(c) => c == cmd,
            None => false,
        }
    }

    /// Emit one motion line per `motion_step`.
    #[verifier::rlimit(100)]
    #[verifier::spinoff_prover]
    fn emit_motion(
        &mut self,
        cmd: Cmd,
        x: Option<Rat>,
        y: Option<Rat>,
        z: Option<Rat>,
        i: Option<Rat>,
        j: Option<Rat>,
        f: Option<Rat>,
    )
        ensures
            final (self)@ == motion_step(old(self)@, cmd, ov(x), ov(y), ov(z), ov(i), ov(j), ov(f)),
    {
        proof {
            reveal(motion_step);
        }
        let ghost s0 = self@;
        let wx = opt_write(&x, &self.mx);
        let wy = opt_write(&y, &self.my);
        let wz = opt_write(&z, &self.mz);
        if !(wx || wy || wz) {
            proof {
                assert(!motion_emits(s0, ov(x), ov(y), ov(z)));
            }
            return ;
        }
        let mut pieces: Vec<String> = Vec::new();
        if !self.last_is(cmd) {
            pieces.push(String::from_str(cmd_str(cmd)));
        }
        proof {
            assert(pieces@.map_values(|p: String| p@) =~= opt_seq(
                s0.last_cmd != Some(cmd),
                cmd_text(cmd),
            ));
        }
        push_word(&mut pieces, 'X', x, self.mx);
        push_word(&mut pieces, 'Y', y, self.my);
        push_word(&mut pieces, 'Z', z, self.mz);
        push_word(&mut pieces, 'I', i, self.mi);
        push_word(&mut pieces, 'J', j, self.mj);
        push_word(&mut pieces, 'F', f, self.mf);
        proof {
            assert(pieces@.map_values(|p: String| p@) == motion_pieces(
                s0,
                cmd,
                ov(x),
                ov(y),
                ov(z),
                ov(i),
                ov(j),
                ov(f),
            ));
        }
        let line = join_pieces(&pieces);
        self.out.append(line.as_str());
        push_char(&mut self.out, '\n');
        if x.is_some() {
            self.mx = x;
        }
        if y.is_some() {
            self.my = y;
        }
        if z.is_some() {
            self.mz = z;
        }
        if i.is_some() {
            self.mi = i;
        }
        if j.is_some() {
            self.mj = j;
        }
        if f.is_some() {
            self.mf = f;
        }
        self.last_cmd = Some(cmd);
        proof {
            let t = motion_step(s0, cmd, ov(x), ov(y), ov(z), ov(i), ov(j), ov(f));
            assert(self.out@ =~= t.out);
            assert(final (self)@ =~= t);
        }
    }

    /// A rapid move (`G0`): the scale transform applies to X and Y, never to
    /// Z; fails only when a transformed coordinate is unrepresentable, and
    /// then changes nothing.
    pub fn rapid_move(&mut self, x: Rat, y: Rat, z: Option<Rat>) -> (r: Result<(), GcadError>)
        ensures
            match r {
                Ok(_) => xform_ok(old(self)@, x@, y@) && final (self)@ == rapid_step(
                    old(self)@,
                    x@,
                    y@,
                    ov(z),
                ),
                Err(e) => !xform_ok(old(self)@, x@, y@) && e.kind == ErrorKind::Overflow && final (
                self)@ == old(self)@,
            },
    {
        let tx = x.mul(self.sx);
        let ty = y.mul(self.sy);
        match (tx, ty) {
            (Some(tx), Some(ty)) => {
                self.emit_motion(Cmd::G0, Some(tx), Some(ty), z, None, None, None);
                Ok(())
            },
            _ => Err(GcadError::new(ErrorKind::Overflow, String::new())),
        }
    }

    pub fn rapid_move_xy(&mut self, x: Rat, y: Rat) -> (r: Result<(), GcadError>)
        ensures
            match r {
                Ok(_) => xform_ok(old(self)@, x@, y@) && final (self)@ == rapid_step(
                    old(self)@,
                    x@,
                    y@,
                    None,
                ),
                Err(e) => !xform_ok(old(self)@, x@, y@) && e.kind == ErrorKind::Overflow && final (
                self)@ == old(self)@,
            },
    {
        self.rapid_move(x, y, None)
    }

    /// A feed-rate move (`G1`) to a transformed X/Y and optional Z, at the
    /// active feed rate.
    pub fn cutting_move(&mut self, x: Rat, y: Rat, z: Option<Rat>) -> (r: Result<(), GcadError>)
        ensures
            match r {
                Ok(_) => xform_ok(old(self)@, x@, y@) && final (self)@ == cut_step(
                    old(self)@,
                    x@,
                    y@,
                    ov(z),
                ),
                Err(e) => !xform_ok(old(self)@, x@, y@) && e.kind == ErrorKind::Overflow && final (
                self)@ == old(self)@,
            },
    {
        let tx = x.mul(self.sx);
        let ty = y.mul(self.sy);
        match (tx, ty) {
            (Some(tx), Some(ty)) => {
                let f = self.feed_rate;
                self.emit_motion(Cmd::G1, Some(tx), Some(ty), z, None, None, Some(f));
                Ok(())
            },
            _ => Err(GcadError::new(ErrorKind::Overflow, String::new())),
        }
    }

    /// A Z-only feed move at the plunge rate.
    pub fn plunge(&mut self, z: Rat)
        ensures
            final (self)@ == plunge_step(old(self)@, z@),
    {
        let f = self.plunge_rate;
        self.emit_motion(Cmd::G1, None, None, Some(z), None, None, Some(f));
    }

    /// A counter-clockwise arc (`G3`) to (x, y) around center (cx, cy); the
    /// center is written as I/J offsets from the current position, which must
    /// therefore be known.
    pub fn arc_cut(&mut self, x: Rat, y: Rat, cx: Rat, cy: Rat) -> (r: Result<(), GcadError>)
        ensures
            match r {
                Ok(_) => arc_ok(old(self)@, x@, y@, cx@, cy@) && final (self)@ == arc_step(
                    old(self)@,
                    x@,
                    y@,
                    cx@,
                    cy@,
                ),
                Err(e) => !arc_ok(old(self)@, x@, y@, cx@, cy@) && final (self)@ == old(self)@ && (
                if !arc_pos_known(old(self)@) {
                    e.kind == ErrorKind::Domain
                } else {
                    e.kind == ErrorKind::Overflow
                }),
            },
    {
        let (px, py) = match (&self.mx, &self.my) {
            (Some(px), Some(py)) => (*px, *py),
            _ => {
                return Err(GcadError::new(ErrorKind::Domain, String::new()));
            },
        };
        let tx = x.mul(self.sx);
        let ty = y.mul(self.sy);
        let tcx = cx.mul(self.sx);
        let tcy = cy.mul(self.sy);
        match (tx, ty, tcx, tcy) {
            (Some(tx), Some(ty), Some(tcx), Some(tcy)) => {
                let iv = tcx.sub(px);
                let jv = tcy.sub(py);
                match (iv, jv) {
                    (Some(iv), Some(jv)) => {
                        let f = self.feed_rate;
                        self.emit_motion(
                            Cmd::G3,
                            Some(tx),
                            Some(ty),
                            None,
                            Some(iv),
                            Some(jv),
                            Some(f),
                        );
                        Ok(())
                    },
                    _ => Err(GcadError::new(ErrorKind::Overflow, String::new())),
                }
            },
            _ => Err(GcadError::new(ErrorKind::Overflow, String::new())),
        }
    }

    /// Set the spindle speed and issue spindle-on.
    pub fn set_rpm(&mut self, rpm: Rat)
        ensures
            final (self)@ == spindle_step(old(self)@, rpm@),
    {
        let ghost s0 = self@;
        let suppressed = match &self.ms {
            Some(w) => w.eq_val(&rpm),
            None => false,
        };
        if suppressed {
            return ;
        }
        let mut pieces: Vec<String> = Vec::new();
        if !self.last_is(Cmd::M3) {
            pieces.push(String::from_str(cmd_str(Cmd::M3)));
        }
        pieces.push(axis_str('S', rpm));
        proof {
            assert(pieces@.map_values(|p: String| p@) =~= opt_seq(
                s0.last_cmd != Some(Cmd::M3),
                cmd_text(Cmd::M3),
            ) + seq![axis_text('S', rpm@)]);
        }
        let line = join_pieces(&pieces);
        self.out.append(line.as_str());
        push_char(&mut self.out, '\n');
        self.ms = Some(rpm);
        self.last_cmd = Some(Cmd::M3);
        proof {
            assert(final (self)@ =~= spindle_step(s0, rpm@));
        }
    }

    /// Emit a comment line: parenthesized free text, no motion.
    pub fn write_comment(&mut self, comment: &str)
        ensures
            final (self)@ == comment_step(old(self)@, comment@),
    {
        push_char(&mut self.out, '(');
        self.out.append(comment);
        push_char(&mut self.out, ')');
        push_char(&mut self.out, '\n');
        proof {
            assert(final (self)@ =~= comment_step(old(self)@, comment@));
        }
    }

    /// Emit a bare command line, subject to modal suppression.
    fn simple_cmd(&mut self, cmd: Cmd)
        ensures
            final (self)@ == simple_step(old(self)@, cmd),
    {
        let ghost s0 = self@;
        if self.last_is(cmd) {
            return ;
        }
        self.out.append(cmd_str(cmd));
        push_char(&mut self.out, '\n');
        self.last_cmd = Some(cmd);
        proof {
            assert(final (self)@ =~= simple_step(s0, cmd));
        }
    }

    /// Write the fixed header: `G90`, `G21`, a comment, a retract of Z to
    /// -5 mm in machine coordinates, spindle stop.
    pub fn write_header(&mut self)
        ensures
            final (self)@ == header_step(old(self)@),
    {
        self.simple_cmd(Cmd::G90);
        self.simple_cmd(Cmd::G21);
        self.write_comment("Move to safe Z");
        self.out.append("G53 G0 Z-5\n");
        self.last_cmd = None;
        self.mz = None;
        proof {
            assert(self@ =~= machine_retract_step(
                comment_step(
                    simple_step(simple_step(old(self)@, Cmd::G90), Cmd::G21),
                    "Move to safe Z"@,
                ),
            ));
        }
        self.simple_cmd(Cmd::M5);
    }

    /// Emit the program-end instruction.
    pub fn finish(&mut self)
        ensures
            final (self)@ == finish_step(old(self)@),
    {
        self.simple_cmd(Cmd::M2);
    }
}

} // verus!
