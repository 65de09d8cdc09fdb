//! The forms that every interpreter evaluates in its root frame before anything else.

use vstd::prelude::*;

verus! {

/// `not`.
pub const NOT: &'static str = "(def! not (fn* (a) (if a false true)))";

/// `load-file`: evaluates the forms of a file, one after the other.
pub const LOAD_FILE: &'static str =
    "(def! load-file (fn* (f) (do (map eval (rest (read-string (str \"(do \" (slurp f) \"\\nnil)\")))) nil)))";

/// `cond`: the macro that tries tests in order.
pub const COND: &'static str =
    "(defmacro! cond (fn* (& xs) (if (> (count xs) 0) (list 'if (first xs) (if (> (count xs) 1) (nth xs 1) (throw \"odd number of forms to cond\")) (cons 'cond (rest (rest xs)))))))";

/// The forms of the prelude, in the order in which they are evaluated.
pub open spec fn forms() -> Seq<Seq<char>> {
    seq![NOT@, LOAD_FILE@, COND@]
}

/// The forms of the prelude, in the order in which they are evaluated.
pub fn lines() -> (r: Vec<&'static str>)
    ensures
        r@.len() == forms().len(),
        forall|i: int| 0 <= i < r@.len() ==> (#[trigger] r@[i])@ == forms()[i],
{
    let mut r: Vec<&'static str> = Vec::new();
    r.push(NOT);
    r.push(LOAD_FILE);
    r.push(COND);
    r
}

} // verus!
