//! Atoms: the cells of an environment, as values.

use crate::environment::Environment;
use crate::types::{Atom, MalObject};
use vstd::prelude::*;

verus! {

impl Atom {
    /// A new cell of the environment that holds a copy of `obj`.
    pub fn new(obj: &MalObject, env: &mut Environment) -> (r: Self)
        ensures
            final(env)@ == old(env)@.add_cell(obj@),
            r.payload == old(env)@.cells.len(),
    {
        Atom { payload: env.new_cell(obj.clone()) }
    }

    /// A copy of what the atom's cell holds, if the environment has that cell.
    pub fn clone_payload(&self, env: &Environment) -> (r: Option<MalObject>)
        ensures
            match r {
                Some(v) => env@.cell(self.payload) == Some(v@),
                None => env@.cell(self.payload) is None,
            },
    {
        env.cell(self.payload)
    }

    /// Stores a copy of `obj` in the atom's cell.
    pub fn replace(&self, obj: &MalObject, env: &mut Environment)
        ensures
            final(env)@ == old(env)@.store(self.payload, obj@),
    {
        env.set_cell(self.payload, obj.clone());
    }
}

} // verus!
