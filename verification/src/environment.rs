//! The environment variables of the process, as a value.
//!
//! Secrets that come in through the environment are read once and burned: a
//! take returns the value and removes the variable, so that neither a later
//! scrape nor a child process finds it.
use vstd::prelude::*;

use crate::text::{opt_text, same};

verus! {

/// One variable.
#[derive(Debug)]
pub struct EnvVar {
    pub name: String,
    pub value: String,
}

/// What a list of variables means; a later setting of a name wins.
pub open spec fn vars_map(v: Seq<EnvVar>) -> Map<Seq<char>, Seq<char>>
    decreases v.len(),
{
    if v.len() == 0 {
        Map::empty()
    } else {
        vars_map(v.drop_last()).insert(v.last().name@, v.last().value@)
    }
}

/// A set of environment variables.
#[derive(Debug)]
pub struct Environment {
    vars: Vec<EnvVar>,
}

impl View for Environment {
    type V = Map<Seq<char>, Seq<char>>;

    closed spec fn view(&self) -> Map<Seq<char>, Seq<char>> {
        vars_map(self.vars@)
    }
}

/// The value of `name`, if it is set.
pub open spec fn value_of(env: Map<Seq<char>, Seq<char>>, name: Seq<char>) -> Option<Seq<char>> {
    if env.contains_key(name) {
        Some(env[name])
    } else {
        None
    }
}

impl Environment {
    /// The empty environment.
    pub fn new() -> (r: Environment)
        ensures
            r@ == Map::<Seq<char>, Seq<char>>::empty(),
    {
        Environment { vars: Vec::new() }
    }

    /// Sets a variable.
    pub fn set(&mut self, name: String, value: String)
        ensures
            final(self)@ == old(self)@.insert(name@, value@),
    {
        let ghost before = self.vars@;
        self.vars.push(EnvVar { name, value });
        assert(self.vars@.drop_last() =~= before);
    }

    /// The value of a variable.
    pub fn get(&self, name: &str) -> (r: Option<String>)
        ensures
            opt_text(r) == value_of(self@, name@),
    {
        let mut i: usize = self.vars.len();
        assert(self.vars@.take(i as int) =~= self.vars@);
        while i > 0
            invariant
                i <= self.vars@.len(),
                value_of(vars_map(self.vars@.take(i as int)), name@) == value_of(self@, name@),
            decreases i,
        {
            let ghost head = self.vars@.take(i as int);
            assert(head.drop_last() =~= self.vars@.take(i - 1));
            if same(self.vars[i - 1].name.as_str(), name) {
                return Some(self.vars[i - 1].value.clone());
            }
            i = i - 1;
        }
        None
    }

    /// Removes a variable.
    pub fn unset(&mut self, name: &str)
        ensures
            final(self)@ == old(self)@.remove(name@),
    {
        let mut left: Vec<EnvVar> = Vec::new();
        let mut i: usize = 0;
        assert(vars_map(left@) =~= vars_map(self.vars@.take(0)).remove(name@));
        while i < self.vars.len()
            invariant
                i <= self.vars@.len(),
                vars_map(left@) == vars_map(self.vars@.take(i as int)).remove(name@),
            decreases self.vars@.len() - i,
        {
            let ghost head = self.vars@.take(i + 1);
            assert(head.drop_last() =~= self.vars@.take(i as int));
            let v = &self.vars[i];
            if !same(v.name.as_str(), name) {
                let ghost before = left@;
                left.push(EnvVar { name: v.name.clone(), value: v.value.clone() });
                assert(left@.drop_last() =~= before);
            }
            assert(vars_map(left@) =~= vars_map(head).remove(name@));
            i = i + 1;
        }
        assert(self.vars@.take(i as int) =~= self.vars@);
        self.vars = left;
    }
}

/// A variable has the value that was given to it last, and no value when it was
/// given none.
pub proof fn law_the_last_value_counts(v: Seq<EnvVar>, e: EnvVar, name: Seq<char>)
    ensures
        value_of(vars_map(v.push(e)), e.name@) == Some(e.value@),
        name != e.name@ ==> value_of(vars_map(v.push(e)), name) == value_of(vars_map(v), name),
        value_of(vars_map(Seq::<EnvVar>::empty()), name) is None,
{
    assert(v.push(e).drop_last() =~= v);
}

} // verus!
