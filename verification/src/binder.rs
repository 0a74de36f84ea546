//! The argument binder: resolving a call's positional and named arguments
//! against a builtin's declared parameter list.
//!
//! The rules: a parameter is resolved from the positional argument at its
//! declared index, and a named argument with the same name always overrides
//! the positional value; an unresolved required parameter is an argument
//! error naming it; positional arguments beyond the declared count are an
//! arity error carrying the expected and actual counts; a named argument
//! matching no declared parameter is an unknown-argument error naming it.
//! Error precedence follows that order.

use crate::err::{ErrorKind, GcadError};
use crate::parser::str_eq;
use crate::value::{ScriptValue, SvV};
use vstd::prelude::*;
use vstd::string::StrSliceExecFns;

verus! {

/// One declared parameter of a builtin.
pub struct ParamSpec {
    pub name: &'static str,
    pub required: bool,
}

/// The views of a parameter list.
pub open spec fn params_v(ps: Seq<ParamSpec>) -> Seq<(Seq<char>, bool)> {
    ps.map_values(|p: ParamSpec| (p.name@, p.required))
}

pub open spec fn args_v(s: Seq<ScriptValue>) -> Seq<SvV> {
    s.map_values(|v: ScriptValue| v@)
}

pub open spec fn named_v(s: Seq<(String, ScriptValue)>) -> Seq<(Seq<char>, SvV)> {
    s.map_values(|p: (String, ScriptValue)| (p.0@, p.1@))
}

/// The last named argument with this name, if any: a duplicated name takes
/// its last written value.
pub open spec fn named_lookup(named: Seq<(Seq<char>, SvV)>, name: Seq<char>) -> Option<SvV>
    decreases named.len(),
{
    if named.len() == 0 {
        None
    } else if named.last().0 == name {
        Some(named.last().1)
    } else {
        named_lookup(named.drop_last(), name)
    }
}

/// What parameter `i` resolves to: the named argument with its name if one
/// exists, else the positional argument at its index, else nothing.
pub open spec fn resolved(
    params: Seq<(Seq<char>, bool)>,
    pos: Seq<SvV>,
    named: Seq<(Seq<char>, SvV)>,
    i: int,
) -> Option<SvV> {
    match named_lookup(named, params[i].0) {
        Some(v) => Some(v),
        None => if i < pos.len() {
            Some(pos[i])
        } else {
            None
        },
    }
}

/// A named argument's name matches some declared parameter.
pub open spec fn name_known(params: Seq<(Seq<char>, bool)>, name: Seq<char>) -> bool {
    exists|j: int| 0 <= j < params.len() && params[j].0 == name
}

/// The call shape is accepted.
pub open spec fn bind_ok(
    params: Seq<(Seq<char>, bool)>,
    pos: Seq<SvV>,
    named: Seq<(Seq<char>, SvV)>,
) -> bool {
    &&& (forall|i: int|
        0 <= i < params.len() && params[i].1 ==> resolved(params, pos, named, i) is Some)
    &&& pos.len() <= params.len()
    &&& (forall|k: int| 0 <= k < named.len() ==> name_known(params, #[trigger] named[k].0))
}

/// What a rejected call's error says: the kind in the declared precedence,
/// and the offending parameter or argument name where one exists.
pub open spec fn bind_err(
    params: Seq<(Seq<char>, bool)>,
    pos: Seq<SvV>,
    named: Seq<(Seq<char>, SvV)>,
    e: GcadError,
) -> bool {
    &&& !bind_ok(params, pos, named)
    &&& match e.kind {
        ErrorKind::Argument => (exists|i: int|
            0 <= i < params.len() && params[i].1 && resolved(params, pos, named, i) is None && (
            e.ident matches Some(id) && id@ == #[trigger] params[i].0)),
        ErrorKind::Arity { expected, actual } => expected == params.len() && actual == pos.len()
            && pos.len() > params.len(),
        ErrorKind::UnknownArgument => (exists|k: int|
            0 <= k < named.len() && !name_known(params, #[trigger] named[k].0) && (
            e.ident matches Some(id) && id@ == named[k].0)),
        _ => false,
    }
}

pub open spec fn opt_sv(o: Option<ScriptValue>) -> Option<SvV> {
    match o {
        Some(v) => Some(v@),
        None => None,
    }
}

/// Find the last named argument with this name.
fn lookup_named(named: &Vec<(String, ScriptValue)>, name: &str) -> (r: Option<ScriptValue>)
    ensures
        opt_sv(r) == named_lookup(named_v(named@), name@),
{
    let mut i = named.len();
    proof {
        assert(named_v(named@).take(i as int) =~= named_v(named@));
    }
    while i > 0
        invariant
            i <= named@.len(),
            named_lookup(named_v(named@), name@) == named_lookup(
                named_v(named@).take(i as int),
                name@,
            ),
        decreases i,
    {
        i = i - 1;
        proof {
            assert(named_v(named@).take(i as int + 1).drop_last() =~= named_v(named@).take(
                i as int,
            ));
            assert(named_v(named@).take(i as int + 1).last() == named_v(named@)[i as int]);
        }
        if str_eq(named[i].0.as_str(), name) {
            return Some(named[i].1.dup());
        }
    }
    proof {
        assert(named_v(named@).take(0) =~= Seq::<(Seq<char>, SvV)>::empty());
    }
    None
}

/// Bind a call's arguments against a declared parameter list.  On success
/// every slot holds exactly what `resolved` says; each failure carries its
/// kind and the offending name or counts, in the declared precedence.
pub fn bind(
    builtin: &str,
    params: &Vec<ParamSpec>,
    pos: &Vec<ScriptValue>,
    named: &Vec<(String, ScriptValue)>,
) -> (r: Result<Vec<Option<ScriptValue>>, GcadError>)
    ensures
        ({
            let pv = params_v(params@);
            let av = args_v(pos@);
            let nv = named_v(named@);
            match r {
                Ok(b) => bind_ok(pv, av, nv) && b@.len() == pv.len() && (forall|i: int|
                    0 <= i < pv.len() ==> opt_sv(#[trigger] b@[i]) == resolved(pv, av, nv, i)),
                Err(e) => bind_err(pv, av, nv, e),
            }
        }),
{
    let ghost pv = params_v(params@);
    let ghost av = args_v(pos@);
    let ghost nv = named_v(named@);
    let mut out: Vec<Option<ScriptValue>> = Vec::new();
    let mut i: usize = 0;
    while i < params.len()
        invariant
            i <= params@.len(),
            pv == params_v(params@),
            av == args_v(pos@),
            nv == named_v(named@),
            out@.len() == i,
            forall|k: int| 0 <= k < i ==> opt_sv(#[trigger] out@[k]) == resolved(pv, av, nv, k),
            forall|k: int| 0 <= k < i && pv[k].1 ==> resolved(pv, av, nv, k) is Some,
        decreases params@.len() - i,
    {
        let p = &params[i];
        let slot = match lookup_named(named, p.name) {
            Some(v) => Some(v),
            None => if i < pos.len() {
                Some(pos[i].dup())
            } else {
                None
            },
        };
        if p.required && slot.is_none() {
            proof {
                assert(pv[i as int].1 && resolved(pv, av, nv, i as int) is None);
            }
            let mut msg = builtin.to_owned();
            msg.append(": a required parameter is missing");
            return Err(GcadError::named(ErrorKind::Argument, msg, p.name.to_owned()));
        }
        out.push(slot);
        i = i + 1;
    }
    if pos.len() > params.len() {
        let mut msg = builtin.to_owned();
        msg.append(": too many positional arguments");
        return Err(GcadError::new(ErrorKind::Arity { expected: params.len(), actual: pos.len() }, msg));
    }
    // every named argument must match a declared parameter
    let mut k: usize = 0;
    while k < named.len()
        invariant
            k <= named@.len(),
            pv == params_v(params@),
            nv == named_v(named@),
            forall|m: int| 0 <= m < k ==> name_known(pv, #[trigger] nv[m].0),
        decreases named@.len() - k,
    {
        let mut found = false;
        let mut j: usize = 0;
        while j < params.len()
            invariant
                j <= params@.len(),
                k < named@.len(),
                pv == params_v(params@),
                nv == named_v(named@),
                found == exists|m: int| 0 <= m < j && pv[m].0 == nv[k as int].0,
            decreases params@.len() - j,
        {
            if str_eq(params[j].name, named[k].0.as_str()) {
                proof {
                    assert(pv[j as int].0 == nv[k as int].0);
                }
                found = true;
            }
            j = j + 1;
        }
        if !found {
            proof {
                assert(!name_known(pv, nv[k as int].0));
            }
            let mut msg = builtin.to_owned();
            msg.append(": unknown named argument");
            return Err(GcadError::named(ErrorKind::UnknownArgument, msg, named[k].0.clone()));
        }
        k = k + 1;
    }
    Ok(out)
}

} // verus!