//! The variable store: names and the values bound to them.

use crate::value::{lemma_stored_lookup, lookup, stored, KeyMap, Value};
use vstd::prelude::*;

verus! {

/// The variables of a shell session.
#[derive(Debug)]
pub struct Variables {
    pub vars: KeyMap,
}

impl Variables {
    /// The value bound to `name`, if any.
    pub open spec fn spec_get(&self, name: Seq<char>) -> Option<Value> {
        lookup(self.vars.entries@, name)
    }

    /// The string bound to `name`; nothing when the name is unbound or bound to
    /// a value of another kind.
    pub open spec fn spec_get_str(&self, name: Seq<char>) -> Option<Seq<char>> {
        match self.spec_get(name) {
            Some(Value::Str(s)) => Some(s@),
            _ => None,
        }
    }

    /// No name is bound twice.
    pub open spec fn wf(&self) -> bool {
        self.vars.wf()
    }

    /// A store without variables.
    pub fn new() -> (r: Variables)
        ensures
            r.wf(),
            forall|name: Seq<char>| r.spec_get(name) is None,
    {
        Variables { vars: KeyMap::new() }
    }

    /// Binds `name` to `value`, in place of what it was bound to.
    pub fn set(&mut self, name: &str, value: Value)
        ensures
            final(self).spec_get(name@) == Some(value),
            forall|other: Seq<char>|
                other != name@ ==> final(self).spec_get(other) == old(self).spec_get(other),
            old(self).wf() ==> final(self).wf(),
    {
        let key = name.to_owned();
        proof {
            let after = stored(self.vars.entries@, key, value);
            lemma_stored_lookup(self.vars.entries@, key, value, key@);
            assert forall|other: Seq<char>| other != key@ implies #[trigger] lookup(after, other)
                == lookup(self.vars.entries@, other) by {
                lemma_stored_lookup(self.vars.entries@, key, value, other);
            }
        }
        self.vars.insert(key, value);
    }

    /// The value bound to `name`.
    pub fn get_ref(&self, name: &str) -> (r: Option<&Value>)
        ensures
            r matches Some(v) ==> self.spec_get(name@) == Some(*v),
            r is None ==> self.spec_get(name@) is None,
    {
        self.vars.get(name)
    }

    /// The string bound to `name`.
    pub fn get_str(&self, name: &str) -> (r: Option<String>)
        ensures
            r matches Some(s) ==> self.spec_get_str(name@) == Some(s@),
            r is None ==> self.spec_get_str(name@) is None,
    {
        match self.vars.get(name) {
            Some(Value::Str(s)) => Some(s.clone()),
            _ => None,
        }
    }
}

} // verus!
