//! `==` on objects: the equality of the language.

use crate::types::{equal, equal_values, MalObject};
use vstd::prelude::*;
use vstd::std_specs::cmp::PartialEqSpecImpl;

verus! {

impl PartialEq for MalObject {
    fn eq(&self, other: &Self) -> (r: bool) {
        equal(self, other)
    }
}

impl PartialEqSpecImpl for MalObject {
    open spec fn obeys_eq_spec() -> bool {
        true
    }

    open spec fn eq_spec(&self, other: &Self) -> bool {
        equal_values(self@, other@)
    }
}

impl Eq for MalObject {

}

} // verus!
