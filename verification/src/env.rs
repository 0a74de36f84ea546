//! The global variable environment and the materials registry.
//!
//! Both are single flat name-to-value mappings with last-assignment-wins
//! semantics, viewed as maps at the specification level.

use crate::rat::{Rat, RatV};
use crate::value::{ScriptValue, SvV};
use vstd::prelude::*;

verus! {

/// The map denoted by an association list, later entries overriding earlier.
pub open spec fn assoc_map(s: Seq<(String, ScriptValue)>) -> Map<Seq<char>, SvV>
    decreases s.len(),
{
    if s.len() == 0 {
        Map::<Seq<char>, SvV>::empty()
    } else {
        assoc_map(s.drop_last()).insert(s.last().0@, s.last().1@)
    }
}

/// The single flat variable environment: identifier to last-assigned value.
pub struct Env {
    pub items: Vec<(String, ScriptValue)>,
}

impl View for Env {
    type V = Map<Seq<char>, SvV>;

    open spec fn view(&self) -> Map<Seq<char>, SvV> {
        assoc_map(self.items@)
    }
}

impl Env {
    pub fn new() -> (r: Env)
        ensures
            r@ == Map::<Seq<char>, SvV>::empty(),
    {
        Env { items: Vec::new() }
    }

    /// Bind `name`, overriding any earlier binding.
    pub fn set(&mut self, name: String, v: ScriptValue)
        ensures
            final (self)@ == old(self)@.insert(name@, v@),
    {
        self.items.push((name, v));
        proof {
            assert(self.items@.drop_last() =~= old(self).items@);
        }
    }

    /// Look a name up; `None` exactly when it was never bound.
    pub fn get(&self, name: &String) -> (r: Option<ScriptValue>)
        ensures
            match r {
                Some(v) => self@.contains_key(name@) && v@ == self@[name@],
                None => !self@.contains_key(name@),
            },
    {
        let mut i = self.items.len();
        proof {
            assert(self.items@.take(i as int) =~= self.items@);
        }
        while i > 0
            invariant
                i <= self.items@.len(),
                assoc_map(self.items@).contains_key(name@) == assoc_map(
                    self.items@.take(i as int),
                ).contains_key(name@),
                assoc_map(self.items@).contains_key(name@) ==> assoc_map(self.items@)[name@]
                    == assoc_map(self.items@.take(i as int))[name@],
            decreases i,
        {
            i = i - 1;
            proof {
                assert(self.items@.take(i as int + 1).drop_last() =~= self.items@.take(i as int));
                assert(self.items@.take(i as int + 1).last() == self.items@[i as int]);
            }
            if self.items[i].0 == *name {
                return Some(self.items[i].1.dup());
            }
        }
        proof {
            assert(self.items@.take(0) =~= Seq::<(String, ScriptValue)>::empty());
        }
        None
    }
}

/// A machining parameter preset, unitless by contract.
#[derive(Clone, Copy, Debug)]
pub struct Material {
    pub stepover: Rat,
    pub depth_per_pass: Rat,
    pub feed_rate: Rat,
    pub plunge_rate: Rat,
    pub rpm: Rat,
}

/// A preset at the specification level.
pub struct MaterialV {
    pub stepover: RatV,
    pub depth_per_pass: RatV,
    pub feed_rate: RatV,
    pub plunge_rate: RatV,
    pub rpm: RatV,
}

impl View for Material {
    type V = MaterialV;

    open spec fn view(&self) -> MaterialV {
        MaterialV {
            stepover: self.stepover@,
            depth_per_pass: self.depth_per_pass@,
            feed_rate: self.feed_rate@,
            plunge_rate: self.plunge_rate@,
            rpm: self.rpm@,
        }
    }
}

pub open spec fn mat_map(s: Seq<(String, Material)>) -> Map<Seq<char>, MaterialV>
    decreases s.len(),
{
    if s.len() == 0 {
        Map::<Seq<char>, MaterialV>::empty()
    } else {
        mat_map(s.drop_last()).insert(s.last().0@, s.last().1@)
    }
}

/// The name-to-preset registry; registering a name again overwrites it.
pub struct Materials {
    pub items: Vec<(String, Material)>,
}

impl View for Materials {
    type V = Map<Seq<char>, MaterialV>;

    open spec fn view(&self) -> Map<Seq<char>, MaterialV> {
        mat_map(self.items@)
    }
}

impl Materials {
    pub fn new() -> (r: Materials)
        ensures
            r@ == Map::<Seq<char>, MaterialV>::empty(),
    {
        Materials { items: Vec::new() }
    }

    pub fn set(&mut self, name: String, m: Material)
        ensures
            final (self)@ == old(self)@.insert(name@, m@),
    {
        self.items.push((name, m));
        proof {
            assert(self.items@.drop_last() =~= old(self).items@);
        }
    }

    pub fn get(&self, name: &String) -> (r: Option<Material>)
        ensures
            match r {
                Some(m) => self@.contains_key(name@) && m@ == self@[name@],
                None => !self@.contains_key(name@),
            },
    {
        let mut i = self.items.len();
        proof {
            assert(self.items@.take(i as int) =~= self.items@);
        }
        while i > 0
            invariant
                i <= self.items@.len(),
                mat_map(self.items@).contains_key(name@) == mat_map(
                    self.items@.take(i as int),
                ).contains_key(name@),
                mat_map(self.items@).contains_key(name@) ==> mat_map(self.items@)[name@]
                    == mat_map(self.items@.take(i as int))[name@],
            decreases i,
        {
            i = i - 1;
            proof {
                assert(self.items@.take(i as int + 1).drop_last() =~= self.items@.take(i as int));
                assert(self.items@.take(i as int + 1).last() == self.items@[i as int]);
            }
            if self.items[i].0 == *name {
                return Some(self.items[i].1);
            }
        }
        proof {
            assert(self.items@.take(0) =~= Seq::<(String, Material)>::empty());
        }
        None
    }
}

} // verus!
