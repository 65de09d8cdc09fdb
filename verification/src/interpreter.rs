//! The interpreter: read a line, evaluate it in the root frame, print the result.

use crate::environment::{root, Environment, State};
use crate::evaluator;
use crate::evaluator::Failure;
use crate::printer;
use crate::printer::{shown, Outcome};
use crate::reader;
use crate::reader::{read_text, ReadFailure};
use crate::semantics;
use crate::types::{MalObject, Value};
use vstd::prelude::*;

verus! {

/// Why a line gave no value.
#[derive(Debug)]
pub enum Error {
    Read(reader::Error),
    Eval(evaluator::Error),
}

/// The mathematical view of an [`Error`] of the interpreter.
pub enum Trouble {
    Read(ReadFailure),
    Eval(Failure),
}

impl View for Error {
    type V = Trouble;

    open spec fn view(&self) -> Trouble {
        match self {
            Error::Read(e) => Trouble::Read(e@),
            Error::Eval(e) => Trouble::Eval(e@),
        }
    }
}

/// What reading a line gives.
pub open spec fn read_line(line: Seq<char>) -> Result<Value, Trouble> {
    match read_text(line) {
        Ok(v) => Ok(v),
        Err(e) => Err(Trouble::Read(e)),
    }
}

/// What evaluating a form in the root frame gives, within the environment's step limit.
pub open spec fn eval_root(st: State, ast: Value) -> (State, Result<Value, Trouble>) {
    let r = semantics::eval(st, ast, root(), st.step_limit as nat);
    (
        r.state,
        match r.result {
            Ok(v) => Ok(v),
            Err(e) => Err(Trouble::Eval(e)),
        },
    )
}

/// What a line comes to: the state of the environment after it, and the text to show
/// for it, nothing to show, or the text of its error.
pub open spec fn rep_line(st: State, line: Seq<char>) -> (
    State,
    Result<Option<Seq<char>>, Seq<char>>,
) {
    match read_line(line) {
        Err(e) => (st, shown(st.cells, Err(e))),
        Ok(ast) => {
            let (after, result) = eval_root(st, ast);
            (after, shown(after.cells, result))
        },
    }
}

/// Whether code returned what the meaning asks for.
pub open spec fn answered(r: Result<MalObject, Error>, meant: Result<Value, Trouble>) -> bool {
    match r {
        Ok(v) => meant == Ok::<Value, Trouble>(v@),
        Err(e) => meant == Err::<Value, Trouble>(e@),
    }
}

/// The first form of a line.
#[allow(non_snake_case)]
pub fn READ(line: &str) -> (r: Result<MalObject, Error>)
    ensures
        answered(r, read_line(line@)),
{
    match reader::read_str(line) {
        Ok(v) => Ok(v),
        Err(e) => Err(Error::Read(e)),
    }
}

/// The text to show for a result; `env` holds the cells that the atoms in it name.
#[allow(non_snake_case)]
pub fn PRINT(result: &Result<MalObject, Error>, env: &Environment) -> (r: Result<Outcome, String>)
    ensures
        printer::printed_as(
            r,
            shown(
                env@.cells,
                match result {
                    Ok(v) => Ok(v@),
                    Err(e) => Err(e@),
                },
            ),
        ),
{
    printer::print(result, env)
}

/// The value of a form in the root frame, within the environment's step limit.
#[allow(non_snake_case)]
pub fn EVAL(ast: &MalObject, env: &mut Environment) -> (r: Result<MalObject, Error>)
    ensures
        final(env)@ == eval_root(old(env)@, ast@).0,
        answered(r, eval_root(old(env)@, ast@).1),
{
    let fuel = env.step_limit;
    match evaluator::EVAL(ast, env, 0, fuel) {
        Ok(v) => Ok(v),
        Err(e) => Err(Error::Eval(e)),
    }
}

/// Reads a line, evaluates it and prints the result.
pub fn rep(line: &str, env: &mut Environment) -> (r: Result<Outcome, String>)
    ensures
        final(env)@ == rep_line(old(env)@, line@).0,
        printer::printed_as(r, rep_line(old(env)@, line@).1),
{
    let result = match READ(line) {
        Ok(ast) => EVAL(&ast, env),
        Err(e) => Err(e),
    };
    PRINT(&result, env)
}

} // verus!
