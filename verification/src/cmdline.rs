//! How an interpreter is launched: with no arguments it reads lines from its user, with
//! arguments it runs the script that the first of them names.

use crate::environment::{root, Environment, State};
use crate::evaluator::{pending_request, EVAL, HostRequest};
use crate::messages::failure_text;
use crate::semantics;
use crate::types::{list_of, view_items, MalObject, MalSymbol, Value};
use vstd::prelude::*;

verus! {

/// What an interpreter is to do.
#[derive(Debug)]
pub enum Mode {
    /// Read lines from the user, evaluate each and print its result.
    Repl,
    /// Run the script at a path.
    Batch(String),
}

/// Why an interpreter could not be launched or its script did not run.
#[derive(Debug)]
pub enum Error {
    /// The host could not read or write; the text says why.
    IO(String),
    BadArguments,
    /// The script failed; the text is that of its error.
    RepError(String),
    /// The script stopped where it needs something that the host has not supplied.
    Pending(HostRequest),
}

/// The mode that the arguments of a program ask for; the first argument is the
/// program's own name.
pub open spec fn mode_of(args: Seq<Seq<char>>) -> Option<Seq<char>> {
    if args.len() < 2 {
        None
    } else {
        Some(args[1])
    }
}

/// The arguments as strings.
pub open spec fn view_args(args: Seq<String>) -> Seq<Seq<char>> {
    Seq::new(args.len(), |i: int| args[i]@)
}

/// The arguments of the script: those after the script's path, as a list of strings.
pub open spec fn script_args(args: Seq<Seq<char>>) -> Value {
    list_of(
        Seq::new(
            if args.len() < 2 {
                0
            } else {
                (args.len() - 2) as nat
            },
            |i: int| Value::String(args[i + 2]),
        ),
    )
}

/// The form that runs the script at a path.
pub open spec fn load_form(path: Seq<char>) -> Value {
    list_of(seq![Value::Symbol("load-file"@), Value::String(path)])
}

/// The mode that the arguments of a program ask for.
pub fn process_argv(args: &Vec<String>) -> (mode: Mode)
    ensures
        match mode {
            Mode::Repl => mode_of(view_args(args@)) is None,
            Mode::Batch(path) => mode_of(view_args(args@)) == Some(path@),
        },
{
    if args.len() < 2 {
        Mode::Repl
    } else {
        Mode::Batch(args[1].clone())
    }
}

/// The state in which a launched interpreter starts its work: `*ARGV*` is bound in the
/// root frame to the arguments of the script.
pub open spec fn launched(st: State, args: Seq<Seq<char>>) -> State {
    st.set(root(), "*ARGV*"@, script_args(args))
}

/// Launches an interpreter: binds `*ARGV*` and, where the arguments name a script,
/// evaluates `(load-file path)` in the root frame.
///
/// `Ok(Mode::Repl)` says that the host is to read lines from its user now;
/// `Ok(Mode::Batch(..))` that the script has run.
pub fn launch(args: Vec<String>, env: &mut Environment) -> (r: Result<Mode, Error>)
    ensures
        match mode_of(view_args(args@)) {
            None => final(env)@ == launched(old(env)@, view_args(args@)) && r matches Ok(
                Mode::Repl,
            ),
            Some(path) => {
                let start = launched(old(env)@, view_args(args@));
                let run = semantics::eval(
                    start,
                    load_form(path),
                    root(),
                    old(env)@.step_limit as nat,
                );
                &&& final(env)@ == run.state
                &&& match run.result {
                    Ok(_) => r matches Ok(Mode::Batch(p)) && p@ == path,
                    Err(failure) => match pending_request(failure) {
                        Some(request) => r matches Err(Error::Pending(asked)) && asked@ == request,
                        None => r matches Err(Error::RepError(text)) && text@ == failure_text(
                            run.state.cells,
                            failure,
                        ),
                    },
                }
            },
        },
{
    let mode = process_argv(&args);
    let ghost texts = view_args(args@);
    let mut script_args: Vec<MalObject> = Vec::new();
    let mut i: usize = 2;
    assert(view_items(script_args@) =~= Seq::<Value>::empty());
    while i < args.len()
        invariant
            2 <= i,
            args.len() >= 2 ==> i <= args.len(),
            args.len() < 2 ==> i == 2,
            texts == view_args(args@),
            i <= args.len() ==> view_items(script_args@) == Seq::new(
                (i - 2) as nat,
                |j: int| Value::String(texts[j + 2]),
            ),
            i > args.len() ==> view_items(script_args@) == Seq::<Value>::empty(),
        decreases args.len() - i,
    {
        let arg = MalObject::String(args[i].clone());
        proof {
            crate::primitives::view_items_push(script_args@, arg);
            assert(Seq::new((i - 1) as nat, |j: int| Value::String(texts[j + 2])) =~= Seq::new(
                (i - 2) as nat,
                |j: int| Value::String(texts[j + 2]),
            ).push(arg@));
        }
        script_args.push(arg);
        i += 1;
    }
    proof {
        let count = if args.len() < 2 {
            0
        } else {
            (args.len() - 2) as nat
        };
        assert(view_items(script_args@) =~= Seq::new(count, |j: int| Value::String(texts[j + 2])));
        assert(list_of(view_items(script_args@)) == self::script_args(texts));
    }
    let ghost before = env@;
    env.set(MalSymbol(String::from_str("*ARGV*")), MalObject::wrap_list(script_args));
    assert(env@ == launched(before, texts));
    match mode {
        Mode::Repl => Ok(Mode::Repl),
        Mode::Batch(path) => {
            let mut cmd: Vec<MalObject> = Vec::new();
            cmd.push(MalObject::new_symbol("load-file"));
            cmd.push(MalObject::String(path.clone()));
            assert(view_items(cmd@) =~= seq![Value::Symbol("load-file"@), Value::String(path@)]);
            let fuel = env.step_limit;
            let form = MalObject::wrap_list(cmd);
            assert(form@ == load_form(path@));
            match EVAL(&form, env, 0, fuel) {
                Ok(_) => Ok(Mode::Batch(path)),
                Err(e) => match e.pending() {
                    Some(request) => Err(Error::Pending(request.clone())),
                    None => Err(Error::RepError(e.message(env))),
                },
            }
        },
    }
}

} // verus!
