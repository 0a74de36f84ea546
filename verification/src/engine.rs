//! The script engine: a single compilation context holding the variable
//! environment, the materials registry and the G-code writer, with the
//! tree-walking interpreter.

use crate::ast::{BinOp, Expr, Span, Stmt};
use crate::env::{Env, Materials};
use crate::err::{ErrorKind, GcadError};
use crate::gcode::{
    finish_step, header_step, lemma_extends_refl, lemma_extends_trans, out_extends, GcodeState,
};
use crate::builtins::is_builtin_name;
use crate::numbers::{mag_add, mag_add_ok, mag_mul, mag_mul_ok, num_bin, num_bin_ok, MagV, Number, NumberV, Unit};
use crate::parser::ScriptParser;
use crate::value::{ScriptValue, SvV};
use vstd::prelude::*;

verus! {

/// The compilation context: one per run, threaded by reference through the
/// interpreter and the builtins.
pub struct ScriptEngine {
    pub global_vars: Env,
    pub materials: Materials,
    pub gcode: GcodeState,
}

impl ScriptEngine {
    /// A fresh context: empty environment, empty registry, initial G-code
    /// state.
    pub fn new() -> (r: ScriptEngine)
        ensures
            r.global_vars@ == Map::<Seq<char>, crate::value::SvV>::empty(),
            r.materials@ == Map::<Seq<char>, crate::env::MaterialV>::empty(),
            r.gcode@ == crate::gcode::g_init(),
    {
        ScriptEngine { global_vars: Env::new(), materials: Materials::new(), gcode: GcodeState::new() }
    }

    /// Write the fixed program header.
    pub fn write_header(&mut self)
        ensures
            final (self).gcode@ == header_step(old(self).gcode@),
            final (self).global_vars@ == old(self).global_vars@,
            final (self).materials@ == old(self).materials@,
    {
        self.gcode.write_header();
    }

    /// Emit the program-end instruction and hand the finished program text
    /// back.
    pub fn finish(&mut self) -> (r: String)
        ensures
            final (self).gcode@ == finish_step(old(self).gcode@),
            final (self).global_vars@ == old(self).global_vars@,
            final (self).materials@ == old(self).materials@,
            r@ == finish_step(old(self).gcode@).out,
    {
        self.gcode.finish();
        self.gcode.output()
    }

    /// Parse and execute a whole script against this context.  Statements
    /// run in order; the first error aborts the run and is returned with its
    /// source span.  A script that does not match the grammar is rejected
    /// with a `Syntax` error before anything executes.
    pub fn run(&mut self, source: &str) -> (r: Result<(), GcadError>)
        ensures
            old(self).global_vars@.dom().subset_of(final (self).global_vars@.dom()),
            out_extends(old(self).gcode@, final (self).gcode@),
            r matches Err(e) && e.kind == ErrorKind::Syntax ==> *final (self) == *old(self),
    {
        let ghost g0 = self.gcode@;
        proof {
            lemma_extends_refl(g0);
        }
        let program = match ScriptParser::parse(source) {
            Ok(p) => p,
            Err(e) => {
                return Err(e);
            },
        };
        let mut i: usize = 0;
        while i < program.stmts.len()
            invariant
                g0 == old(self).gcode@,
                old(self).global_vars@.dom().subset_of(self.global_vars@.dom()),
                out_extends(g0, self.gcode@),
            decreases program.stmts@.len() - i,
        {
            let ghost gi = self.gcode@;
            match self.exec_stmt(&program.stmts[i], u64::MAX) {
                Ok(_) => {},
                Err(e) => {
                    proof {
                        lemma_extends_trans(g0, gi, self.gcode@);
                    }
                    return Err(e);
                },
            }
            proof {
                lemma_extends_trans(g0, gi, self.gcode@);
            }
            i = i + 1;
        }
        Ok(())
    }

    /// Execute one statement.
    fn exec_stmt(&mut self, s: &Stmt, fuel: u64) -> (r: Result<(), GcadError>)
        ensures
            old(self).global_vars@.dom().subset_of(final (self).global_vars@.dom()),
            out_extends(old(self).gcode@, final (self).gcode@),
            r matches Err(e) ==> e.kind != ErrorKind::Syntax,
        decreases fuel,
    {
        let ghost g0 = self.gcode@;
        proof {
            lemma_extends_refl(g0);
        }
        if fuel == 0 {
            return Err(GcadError::new(ErrorKind::Overflow, "script nesting exceeds the machine limit".to_owned()));
        }
        match s {
            Stmt::Expr(e) => {
                self.exec_expr(e, fuel - 1)?;
                Ok(())
            },
            Stmt::For { var, var_span: _, range, range_span, body, span: _ } => {
                let rv = self.exec_expr(range, fuel - 1)?;
                let (start, step, num) = self.as_range(rv, *range_span)?;
                let ghost g1 = self.gcode@;
                let mut i: usize = 0;
                while i < num
                    invariant
                        fuel >= 1,
                        g0 == old(self).gcode@,
                        out_extends(g0, self.gcode@),
                        old(self).global_vars@.dom().subset_of(self.global_vars@.dom()),
                    decreases num - i,
                {
                    let iu = i as u64;
                    if iu > 0x7fffffffffffffff {
                        return Err(GcadError::new(ErrorKind::Overflow, String::new()));
                    }
                    self.bind_loop_var(var, start, step, iu)?;
                    let ghost gk = self.gcode@;
                    match self.exec_block(body, fuel - 1) {
                        Ok(_) => {},
                        Err(e) => {
                            proof {
                                lemma_extends_trans(g0, gk, self.gcode@);
                            }
                            return Err(e);
                        },
                    }
                    proof {
                        lemma_extends_trans(g0, gk, self.gcode@);
                    }
                    i = i + 1;
                }
                Ok(())
            },
        }
    }


    /// Bind the loop variable for iteration `i` of a for-loop: exactly
    /// `start + step * i`, computed with the value model's arithmetic, and
    /// stored over any earlier binding.
    fn bind_loop_var(&mut self, var: &String, start: Number, step: Number, iu: u64) -> (r: Result<
        (),
        GcadError,
    >)
        requires
            iu <= i64::MAX,
        ensures
            ({
                let idx = NumberV { mag: MagV::Int(iu as int), unit: Unit::Unitless };
                let prod = num_bin(step@, idx, |a: MagV, b: MagV| mag_mul(a, b));
                let bound = num_bin(start@, prod, |a: MagV, b: MagV| mag_add(a, b));
                match r {
                    Ok(_) => num_bin_ok(step@, idx, |a: MagV, b: MagV| mag_mul_ok(a, b))
                        && num_bin_ok(start@, prod, |a: MagV, b: MagV| mag_add_ok(a, b)) && final (
                    self).global_vars@ == old(self).global_vars@.insert(var@, SvV::Num(bound)),
                    Err(e) => e.kind == ErrorKind::Overflow && final (self).global_vars@ == old(
                        self,
                    ).global_vars@,
                }
            }),
            final (self).gcode@ == old(self).gcode@,
            final (self).materials@ == old(self).materials@,
    {
        let idx = Number::from_int(iu as i64);
        let offset = match step.mul(idx) {
            Ok(v) => v,
            Err(e) => {
                return Err(e);
            },
        };
        let value = match start.add(offset) {
            Ok(v) => v,
            Err(e) => {
                return Err(e);
            },
        };
        self.global_vars.set(var.clone(), ScriptValue::Number(value));
        Ok(())
    }

    /// Apply a binary operator to two evaluated operands: exactly the value
    /// model's `add`/`sub`/`mul`/`div` on them, with the operation's span
    /// attached to an error that carries none.
    fn apply_bin(&self, op: BinOp, l: ScriptValue, g: ScriptValue, span: Span) -> (r: Result<
        ScriptValue,
        GcadError,
    >)
        ensures
            ({
                let direct = match op {
                    BinOp::Add => crate::value::sv_add_res(l@, g@),
                    BinOp::Sub => crate::value::sv_sub_res(l@, g@),
                    BinOp::Mul => crate::value::sv_mul_res(l@, g@),
                    BinOp::Div => crate::value::sv_div_res(l@, g@),
                };
                match (r, direct) {
                    (Ok(v), Some(w)) => v@ == w,
                    (Err(e), None) => e.span is Some && (e.kind == ErrorKind::Type || e.kind
                        == ErrorKind::Overflow || e.kind == ErrorKind::Domain),
                    _ => false,
                }
            }),
    {
        let res = match op {
            BinOp::Add => l.add(g),
            BinOp::Sub => l.sub(g),
            BinOp::Mul => l.mul(g),
            BinOp::Div => l.div(g),
        };
        match res {
            Ok(v) => Ok(v),
            Err(e) => Err(e.at_if_unset(span.lo, span.hi)),
        }
    }

    /// A for-loop's range expression must have evaluated to a `Range`;
    /// anything else is a type error at that sub-expression's span.
    fn as_range(&self, rv: ScriptValue, range_span: Span) -> (r: Result<
        (Number, Number, usize),
        GcadError,
    >)
        ensures
            match r {
                Ok(p) => rv@ == SvV::Range { start: p.0@, step: p.1@, num: p.2 as nat },
                Err(e) => !(rv@ is Range) && e.kind == ErrorKind::Type && e.span == Some(
                    (range_span.lo, range_span.hi),
                ),
            },
    {
        match rv {
            ScriptValue::Range { start, step, num } => Ok((start, step, num)),
            _ => Err(
                GcadError::new(ErrorKind::Type, "expected a range".to_owned()).at(
                    range_span.lo,
                    range_span.hi,
                ),
            ),
        }
    }

    /// The error for a call whose identifier matches no builtin: a name
    /// error carrying the identifier and its span.
    fn unknown_builtin_err(&self, name: &String, name_span: Span) -> (r: GcadError)
        ensures
            r.kind == ErrorKind::Name,
            r.span == Some((name_span.lo, name_span.hi)),
            r.ident matches Some(id) && id@ == name@,
    {
        GcadError::named(ErrorKind::Name, "function not found".to_owned(), name.clone()).at(
            name_span.lo,
            name_span.hi,
        )
    }

    /// Execute the statements of a block in order, for side effects only.
    fn exec_block(&mut self, stmts: &Vec<Stmt>, fuel: u64) -> (r: Result<(), GcadError>)
        ensures
            old(self).global_vars@.dom().subset_of(final (self).global_vars@.dom()),
            out_extends(old(self).gcode@, final (self).gcode@),
            r matches Err(e) ==> e.kind != ErrorKind::Syntax,
        decreases fuel,
    {
        let ghost g0 = self.gcode@;
        proof {
            lemma_extends_refl(g0);
        }
        if fuel == 0 {
            return Err(GcadError::new(ErrorKind::Overflow, "script nesting exceeds the machine limit".to_owned()));
        }
        let mut i: usize = 0;
        while i < stmts.len()
            invariant
                fuel >= 1,
                g0 == old(self).gcode@,
                out_extends(g0, self.gcode@),
                old(self).global_vars@.dom().subset_of(self.global_vars@.dom()),
            decreases stmts@.len() - i,
        {
            let ghost gi = self.gcode@;
            match self.exec_stmt(&stmts[i], fuel - 1) {
                Ok(_) => {},
                Err(e) => {
                    proof {
                        lemma_extends_trans(g0, gi, self.gcode@);
                    }
                    return Err(e);
                },
            }
            proof {
                lemma_extends_trans(g0, gi, self.gcode@);
            }
            i = i + 1;
        }
        Ok(())
    }

    /// Evaluate an expression to a value, with side effects on the context.
    ///
    /// The contract pins the leaf cases; compound expressions behave as the
    /// composition of the value operations, the environment, the binder and
    /// the builtins, whose own contracts say the rest.
    fn exec_expr(&mut self, e: &Expr, fuel: u64) -> (r: Result<ScriptValue, GcadError>)
        ensures
            match e {
                Expr::Num { value, .. } => fuel >= 1 ==> (r matches Ok(v) && v@ == SvV::Num(value@)
                    && *final (self) == *old(self)),
                Expr::StrLit { value, .. } => fuel >= 1 ==> (r matches Ok(v) && v@ == SvV::Str(
                    value@,
                ) && *final (self) == *old(self)),
                Expr::Ident { name, span } => fuel >= 1 ==> *final (self) == *old(self) && (match r {
                    Ok(v) => old(self).global_vars@.contains_key(name@) && v@ == old(
                        self,
                    ).global_vars@[name@],
                    Err(err) => !old(self).global_vars@.contains_key(name@) && err.kind
                        == ErrorKind::Name && err.span == Some((span.lo, span.hi)) && (
                    err.ident matches Some(id) && id@ == name@),
                }),
                Expr::Assign { name, .. } => r matches Ok(v) ==> final (
                self).global_vars@.contains_key(name@) && final (self).global_vars@[name@] == v@
                    && (exists|m: Map<Seq<char>, SvV>|
                    final (self).global_vars@ == #[trigger] m.insert(name@, v@)),
                Expr::Bin { .. } => r matches Ok(v) ==> v@ is Num,
                Expr::Call { name, .. } => (r matches Ok(_) ==> is_builtin_name(name@)) && (
                !is_builtin_name(name@) ==> r is Err),
            },
            old(self).global_vars@.dom().subset_of(final (self).global_vars@.dom()),
            out_extends(old(self).gcode@, final (self).gcode@),
            r matches Err(e) ==> e.kind != ErrorKind::Syntax,
        decreases fuel,
    {
        let ghost g0 = self.gcode@;
        proof {
            lemma_extends_refl(g0);
        }
        if fuel == 0 {
            return Err(GcadError::new(ErrorKind::Overflow, "script nesting exceeds the machine limit".to_owned()));
        }
        match e {
            Expr::Num { value, .. } => Ok(ScriptValue::Number(*value)),
            Expr::StrLit { value, .. } => Ok(ScriptValue::Str(value.clone())),
            Expr::Ident { name, span } => match self.global_vars.get(name) {
                Some(v) => Ok(v),
                None => Err(
                    GcadError::named(
                        ErrorKind::Name,
                        "variable not found".to_owned(),
                        name.clone(),
                    ).at(span.lo, span.hi),
                ),
            },
            Expr::Assign { name, rhs, .. } => {
                let v = self.exec_expr(rhs, fuel - 1)?;
                let ghost pre = self.global_vars@;
                self.global_vars.set(name.clone(), v.dup());
                proof {
                    assert(self.global_vars@ == pre.insert(name@, v@));
                }
                Ok(v)
            },
            Expr::Bin { op, lhs, rhs, span } => {
                let l = self.exec_expr(lhs, fuel - 1)?;
                let ghost g1 = self.gcode@;
                let g = match self.exec_expr(rhs, fuel - 1) {
                    Ok(v) => v,
                    Err(e) => {
                        proof {
                            lemma_extends_trans(g0, g1, self.gcode@);
                        }
                        return Err(e);
                    },
                };
                proof {
                    lemma_extends_trans(g0, g1, self.gcode@);
                }
                self.apply_bin(*op, l, g, *span)
            },
            Expr::Call { name, name_span, args, span } => {
                // positional arguments strictly left to right, then named
                // arguments strictly in written order
                let mut pos: Vec<ScriptValue> = Vec::new();
                let mut k: usize = 0;
                while k < args.len()
                    invariant
                        fuel >= 1,
                        e matches Expr::Call { .. },
                        g0 == old(self).gcode@,
                        out_extends(g0, self.gcode@),
                        old(self).global_vars@.dom().subset_of(self.global_vars@.dom()),
                    decreases args@.len() - k,
                {
                    if args[k].name.is_none() {
                        let ghost gk = self.gcode@;
                        let v = match self.exec_expr(&args[k].value, fuel - 1) {
                            Ok(v) => v,
                            Err(e2) => {
                                proof {
                                    lemma_extends_trans(g0, gk, self.gcode@);
                                }
                                return Err(e2);
                            },
                        };
                        proof {
                            lemma_extends_trans(g0, gk, self.gcode@);
                        }
                        pos.push(v);
                    }
                    k = k + 1;
                }
                let mut named: Vec<(String, ScriptValue)> = Vec::new();
                let mut k2: usize = 0;
                while k2 < args.len()
                    invariant
                        fuel >= 1,
                        e matches Expr::Call { .. },
                        g0 == old(self).gcode@,
                        out_extends(g0, self.gcode@),
                        old(self).global_vars@.dom().subset_of(self.global_vars@.dom()),
                    decreases args@.len() - k2,
                {
                    if let Some(n) = &args[k2].name {
                        let ghost gk = self.gcode@;
                        let v = match self.exec_expr(&args[k2].value, fuel - 1) {
                            Ok(v) => v,
                            Err(e2) => {
                                proof {
                                    lemma_extends_trans(g0, gk, self.gcode@);
                                }
                                return Err(e2);
                            },
                        };
                        proof {
                            lemma_extends_trans(g0, gk, self.gcode@);
                        }
                        named.push((n.clone(), v));
                    }
                    k2 = k2 + 1;
                }
                let ghost gb = self.gcode@;
                let res = self.call_builtin(name.as_str(), &pos, &named);
                proof {
                    lemma_extends_trans(g0, gb, self.gcode@);
                }
                match res {
                    Ok(Some(v)) => Ok(v),
                    Ok(None) => Err(self.unknown_builtin_err(name, *name_span)),
                    Err(e) => Err(e.at_if_unset(span.lo, span.hi)),
                }
            },
        }
    }
}

} // verus!
