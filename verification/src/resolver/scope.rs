use vstd::prelude::*;

use crate::environment::{bind, lookup, values_map};

verus! {

/// The names bound in one block of a Lox program, each to whether its
/// definition has been read yet.
pub struct Scope {
    entries: Vec<(String, bool)>,
}

impl View for Scope {
    type V = Map<Seq<char>, bool>;

    closed spec fn view(&self) -> Map<Seq<char>, bool> {
        values_map(self.entries@)
    }
}

impl Scope {
    /// A scope with no names.
    pub fn new() -> (r: Self)
        ensures
            r@ == Map::<Seq<char>, bool>::empty(),
    {
        Scope { entries: Vec::new() }
    }

    /// What the name is bound to, if it is.
    pub fn get(&self, name: &String) -> (r: Option<bool>)
        ensures
            r == (if self@.contains_key(name@) {
                Some(self@[name@])
            } else {
                None
            }),
    {
        match lookup(&self.entries, name) {
            Some(b) => Some(*b),
            None => None,
        }
    }

    /// Binds the name to `value`, and gives what it was bound to before.
    pub fn insert(&mut self, name: String, value: bool) -> (r: Option<bool>)
        ensures
            final(self)@ == old(self)@.insert(name@, value),
            r == (if old(self)@.contains_key(name@) {
                Some(old(self)@[name@])
            } else {
                None
            }),
    {
        let prev = self.get(&name);
        bind(&mut self.entries, name, value);
        prev
    }
}

} // verus!
