//! The special forms: the heads that the evaluator treats by rules of their own.

use crate::environment::Environment;
use crate::evaluator::{evaluate_prefix, evaluated, EVAL, Error, EvalContext, Failure, TryOutcome};
use crate::semantics;
use crate::semantics::{done, Tried};
use crate::types::{
    equal, names_of, truthy, view_items, view_unfolds, Arity, BadArgCount, BadClosureParameters,
    Closure, ClosureParameters, Handle, MalObject, MalSymbol, TypeMismatch, Value,
};
use std::rc::Rc;
use vstd::prelude::*;

verus! {

/// Why a `def!` or `defmacro!` form is malformed.
#[derive(Clone, Copy, Debug, PartialEq, Eq, Structural)]
pub enum DefError {
    WrongArgCount(usize),
    KeyNotASymbol,
}

/// Why a `let*` form is malformed.
#[derive(Clone, Copy, Debug, PartialEq, Eq, Structural)]
pub enum LetError {
    WrongArgCount(usize),
    BindingsNotSequence,
    BindingsOddLength,
    ValueEvaluationFailed,
    BindToNonSymbol,
}

/// Why a `do` form is malformed.
#[derive(Clone, Copy, Debug, PartialEq, Eq, Structural)]
pub enum DoError {
    NothingToDo,
}

/// Why a `fn*` form is malformed.
#[derive(Clone, Copy, Debug, PartialEq, Eq, Structural)]
pub enum FnError {
    WrongArgCount(usize),
    ParametersNotGivenAsList,
    ParameterNotASymbol,
    BadVariadic(BadClosureParameters),
}

/// The heads that the evaluator treats by rules of their own.
#[derive(Clone, Copy, Debug, PartialEq, Eq, Structural)]
pub enum Special {
    Def,
    Defmacro,
    Let,
    Do,
    If,
    Fn,
    Quote,
    Quasiquote,
    Macroexpand,
    Try,
}


/// `def!` and `defmacro!`.
pub fn apply_def(
    args: &[MalObject],
    env: &mut Environment,
    scope: Handle,
    make_macro: bool,
    fuel: usize,
) -> (r: Result<MalObject, Error>)
    ensures
        evaluated(
            r,
            final(env)@,
            semantics::apply_def(old(env)@, view_items(args@), scope, make_macro, fuel as nat),
        ),
    decreases fuel, 1int, 0int,
{
    if args.len() != 2 {
        return Err(Error::Def(DefError::WrongArgCount(args.len())));
    }
    proof {
        view_unfolds(args@[0]);
    }
    let key = match &args[0] {
        MalObject::Symbol(s) => s,
        _ => {
            return Err(Error::Def(DefError::KeyNotASymbol));
        },
    };
    let value = match EVAL(&args[1], env, scope, fuel) {
        Ok(value) => value,
        Err(e) => {
            return Err(e);
        },
    };
    proof {
        view_unfolds(value);
    }
    let value = if make_macro {
        match &value {
            MalObject::Closure(c) => {
                let tweaked_closure = Closure {
                    parameters: ClosureParameters {
                        positional: c.parameters.positional.clone(),
                        others: match &c.parameters.others {
                            Some(s) => Some(s.clone()),
                            None => None,
                        },
                    },
                    body: c.body.clone(),
                    parent: c.parent,
                    is_macro: true,
                    meta: c.meta.clone(),
                };
                assert(names_of(tweaked_closure.parameters.positional@) =~= names_of(
                    c.parameters.positional@,
                ));
                MalObject::Closure(Rc::new(tweaked_closure))
            },
            _ => {
                return Err(Error::TypeMismatch(TypeMismatch::NotAClosure));
            },
        }
    } else {
        value
    };
    env.set_in(scope, key.clone(), value.clone());
    Ok(value)
}

/// `let*`: the body and the frame in which it is to be evaluated.
pub fn apply_let(args: &[MalObject], env: &mut Environment, scope: Handle, fuel: usize) -> (r:
    Result<EvalContext, Error>)
    ensures
        final(env)@ == semantics::apply_let(old(env)@, view_items(args@), scope, fuel as nat).state,
        match r {
            Ok((body, child)) => semantics::apply_let(
                old(env)@,
                view_items(args@),
                scope,
                fuel as nat,
            ).result == Ok::<(Value, Handle), Failure>((body@, child)),
            Err(e) => semantics::apply_let(
                old(env)@,
                view_items(args@),
                scope,
                fuel as nat,
            ).result == Err::<(Value, Handle), Failure>(e@),
        },
    decreases fuel, 2int, 0int,
{
    if args.len() != 2 {
        return Err(Error::Let(LetError::WrongArgCount(args.len())));
    }
    let bindings = match args[0].as_seq() {
        Ok(bindings) => bindings,
        Err(_) => {
            return Err(Error::Let(LetError::BindingsNotSequence));
        },
    };
    if bindings.len() % 2 != 0 {
        return Err(Error::Let(LetError::BindingsOddLength));
    }
    match make_let_environment(bindings.as_slice(), env, scope, fuel) {
        Ok(child) => Ok((args[1].clone(), child)),
        Err(e) => Err(e),
    }
}

/// A new child of `parent` with the bindings of a `let*` made in it, in order.
#[verifier::loop_isolation(false)]
fn make_let_environment(
    bindings: &[MalObject],
    env: &mut Environment,
    parent: Handle,
    fuel: usize,
) -> (r: Result<Handle, Error>)
    requires
        bindings.len() % 2 == 0,
    ensures
        final(env)@ == semantics::make_let_environment(
            old(env)@.spawn(parent),
            view_items(bindings@),
            old(env)@.frames.len() as Handle,
            fuel as nat,
            bindings.len() as int / 2,
        ).state,
        match r {
            Ok(child) => child == old(env)@.frames.len() && semantics::make_let_environment(
                old(env)@.spawn(parent),
                view_items(bindings@),
                child,
                fuel as nat,
                bindings.len() as int / 2,
            ).result is Ok,
            Err(e) => semantics::make_let_environment(
                old(env)@.spawn(parent),
                view_items(bindings@),
                old(env)@.frames.len() as Handle,
                fuel as nat,
                bindings.len() as int / 2,
            ).result == Err::<(), Failure>(e@),
        },
    decreases fuel, 1int, 1int,
{
    let ghost forms = view_items(bindings@);
    let child = env.spawn_from(parent);
    let ghost start = env@;
    let mut i: usize = 0;
    let mut pairs: usize = 0;
    while i < bindings.len()
        invariant
            i <= bindings.len(),
            bindings.len() % 2 == 0,
            i == 2 * pairs,
            forms == view_items(bindings@),
            semantics::make_let_environment(start, forms, child, fuel as nat, pairs as int)
                == done(env@, ()),
        decreases bindings.len() - i,
    {
        proof {
            view_unfolds(bindings@[i as int]);
        }
        let key = match &bindings[i] {
            MalObject::Symbol(s) => s,
            _ => {
                proof {
                    semantics::make_let_environment_stops(
                        start,
                        forms,
                        child,
                        fuel as nat,
                        pairs + 1,
                        bindings.len() as int / 2,
                    );
                }
                return Err(Error::Let(LetError::BindToNonSymbol));
            },
        };
        // The value is evaluated in the child, so that it sees the bindings before it.
        match EVAL(&bindings[i + 1], env, child, fuel) {
            Ok(value) => {
                env.set_in(child, key.clone(), value);
            },
            Err(e) => {
                proof {
                    semantics::make_let_environment_stops(
                        start,
                        forms,
                        child,
                        fuel as nat,
                        pairs + 1,
                        bindings.len() as int / 2,
                    );
                }
                return Err(e);
            },
        }
        i += 2;
        pairs += 1;
    }
    Ok(child)
}

/// `do`: the last form, after the others have been evaluated.
pub fn apply_do(args: &[MalObject], env: &mut Environment, scope: Handle, fuel: usize) -> (r:
    Result<MalObject, Error>)
    ensures
        evaluated(
            r,
            final(env)@,
            semantics::apply_do(old(env)@, view_items(args@), scope, fuel as nat),
        ),
    decreases fuel, 2int, 0int,
{
    if args.len() == 0 {
        return Err(Error::Do(DoError::NothingToDo));
    }
    match evaluate_prefix(args, args.len() - 1, env, scope, fuel) {
        Ok(_) => Ok(args[args.len() - 1].clone()),
        Err(e) => Err(e),
    }
}

/// `if`: the branch that is to be evaluated.
pub fn apply_if(args: &[MalObject], env: &mut Environment, scope: Handle, fuel: usize) -> (r:
    Result<MalObject, Error>)
    ensures
        evaluated(
            r,
            final(env)@,
            semantics::apply_if(old(env)@, view_items(args@), scope, fuel as nat),
        ),
    decreases fuel, 1int, 0int,
{
    match Arity::Between(2, 3).validate_for(args.len(), "if") {
        Err(bad) => {
            return Err(Error::BadArgCount(bad));
        },
        Ok(_) => {},
    }
    let condition = match EVAL(&args[0], env, scope, fuel) {
        Ok(condition) => condition,
        Err(e) => {
            return Err(e);
        },
    };
    if truthy(&condition) {
        Ok(args[1].clone())
    } else if args.len() == 3 {
        Ok(args[2].clone())
    } else {
        Ok(MalObject::Nil)
    }
}

/// `fn*`: the closure of a parameter list and a body in a frame.
#[verifier::loop_isolation(false)]
pub fn apply_fn(args: &[MalObject], scope: Handle) -> (r: Result<MalObject, Error>)
    ensures
        crate::primitives::returned(r, semantics::make_closure(view_items(args@), scope)),
{
    if args.len() != 2 {
        return Err(Error::Fn(FnError::WrongArgCount(args.len())));
    }
    let parameters = match args[0].as_seq() {
        Ok(parameters) => parameters,
        Err(_) => {
            return Err(Error::Fn(FnError::ParametersNotGivenAsList));
        },
    };
    let ghost symbols = view_items(parameters@);
    let mut names: Vec<MalSymbol> = Vec::new();
    let mut i: usize = 0;
    while i < parameters.len()
        invariant
            i <= parameters.len(),
            symbols == view_items(parameters@),
            names.len() == i,
            forall|j: int| 0 <= j < i ==> (#[trigger] symbols[j]) is Symbol,
            forall|j: int| 0 <= j < i ==> symbols[j] == Value::Symbol(#[trigger] names[j]@),
        decreases parameters.len() - i,
    {
        proof {
            view_unfolds(parameters@[i as int]);
        }
        match &parameters[i] {
            MalObject::Symbol(s) => names.push(s.clone()),
            _ => {
                assert(!(symbols[i as int] is Symbol));
                return Err(Error::Fn(FnError::ParameterNotASymbol));
            },
        }
        i += 1;
    }
    assert(names_of(names@) =~= semantics::symbol_names(symbols));
    let parameters = match ClosureParameters::new(names) {
        Ok(parameters) => parameters,
        Err(e) => {
            return Err(Error::Fn(FnError::BadVariadic(e)));
        },
    };
    let closure = Closure {
        parameters,
        body: args[1].clone(),
        parent: scope,
        is_macro: false,
        meta: MalObject::Nil,
    };
    let r = MalObject::Closure(Rc::new(closure));
    proof {
        view_unfolds(r);
        view_unfolds(MalObject::Nil);
    }
    Ok(r)
}

/// Whether code returned the form that quasiquotation asks for.
pub open spec fn rewritten(r: Result<MalObject, BadArgCount>, meant: Result<Value, BadArgCount>)
    -> bool {
    match r {
        Ok(v) => meant == Ok::<Value, BadArgCount>(v@),
        Err(bad) => meant == Err::<Value, BadArgCount>(bad),
    }
}

/// The form that builds what a quasiquoted form describes.
pub fn apply_quasiquote(ast: &MalObject) -> (r: Result<MalObject, BadArgCount>)
    ensures
        rewritten(r, semantics::quasiquote(ast@)),
    decreases ast, 0int,
{
    proof {
        view_unfolds(*ast);
    }
    match ast {
        MalObject::List(x) => quasiquote_internal(&x.payload, 0),
        MalObject::Vector(x) => quasiquote_internal(&x.payload, 0),
        _ => {
            let mut list: Vec<MalObject> = Vec::new();
            list.push(MalObject::new_symbol("quote"));
            list.push(ast.clone());
            assert(view_items(list@) =~= seq![Value::Symbol("quote"@), ast@]);
            Ok(MalObject::wrap_list(list))
        },
    }
}

/// The form that builds the elements of a quasiquoted sequence from place `from` on.
pub fn quasiquote_internal(ast: &Vec<MalObject>, from: usize) -> (r: Result<
    MalObject,
    BadArgCount,
>)
    ensures
        rewritten(r, semantics::quasiquote_from(view_items(ast@), from as int)),
    decreases ast, ast.len() - from,
{
    if from >= ast.len() {
        return Ok(MalObject::new_list());
    }
    let left = ast.len() - from;
    let unquote: MalObject = MalObject::new_symbol("unquote");
    if equal(&ast[from], &unquote) {
        match Arity::exactly(2).validate_for(left, "unquote") {
            Err(bad) => {
                return Err(bad);
            },
            Ok(_) => {},
        }
        return Ok(ast[from + 1].clone());
    }
    let splice_unquote: MalObject = MalObject::new_symbol("splice-unquote");
    let inner = match ast[from].as_seq() {
        Ok(inner) => {
            if inner.len() > 0 && equal(&inner[0], &splice_unquote) {
                Some(inner)
            } else {
                None
            }
        },
        Err(_) => None,
    };
    match inner {
        Some(inner) => {
            match Arity::at_least(1).validate_for(inner.len() - 1, "splice-unquote argument") {
                Err(bad) => {
                    return Err(bad);
                },
                Ok(_) => {},
            }
            let rest = match quasiquote_internal(ast, from + 1) {
                Ok(rest) => rest,
                Err(bad) => {
                    return Err(bad);
                },
            };
            let mut vec: Vec<MalObject> = Vec::new();
            vec.push(MalObject::new_symbol("concat"));
            vec.push(inner[1].clone());
            vec.push(rest);
            assert(view_items(vec@) =~= seq![
                Value::Symbol("concat"@),
                view_items(inner@)[1],
                rest@,
            ]);
            Ok(MalObject::wrap_list(vec))
        },
        None => {
            let first = match apply_quasiquote(&ast[from]) {
                Ok(first) => first,
                Err(bad) => {
                    return Err(bad);
                },
            };
            let rest = match quasiquote_internal(ast, from + 1) {
                Ok(rest) => rest,
                Err(bad) => {
                    return Err(bad);
                },
            };
            let mut vec: Vec<MalObject> = Vec::new();
            vec.push(MalObject::new_symbol("cons"));
            vec.push(first);
            vec.push(rest);
            assert(view_items(vec@) =~= seq![Value::Symbol("cons"@), first@, rest@]);
            Ok(MalObject::wrap_list(vec))
        },
    }
}

/// The value that a handler sees for an error: what the program threw, or the text of
/// any other error as a string.
pub fn exception_object(e: &Error, env: &Environment) -> (r: MalObject)
    ensures
        r@ == semantics::exception_value(env@, e@),
{
    match e {
        Error::UserException(obj) => obj.clone(),
        _ => MalObject::String(e.message(env)),
    }
}

/// The symbol and the handler of a catch clause.
pub fn catch_data(clause: &MalObject) -> (r: Result<(MalSymbol, MalObject), Error>)
    ensures
        match r {
            Ok((name, handler)) => semantics::catch_clause(clause@) == Ok::<
                (Seq<char>, Value),
                Failure,
            >((name@, handler@)),
            Err(e) => semantics::catch_clause(clause@) == Err::<(Seq<char>, Value), Failure>(e@),
        },
{
    proof {
        view_unfolds(*clause);
    }
    let data = match clause.as_list() {
        Ok(list) => &list.payload,
        Err(e) => {
            return Err(Error::TypeMismatch(e));
        },
    };
    match Arity::exactly(3).validate_for(data.len(), "try* catch list") {
        Err(bad) => {
            return Err(Error::BadArgCount(bad));
        },
        Ok(_) => {},
    }
    let catch_sym: MalObject = MalObject::new_symbol("catch*");
    if !equal(&data[0], &catch_sym) {
        return Err(Error::MissingCatchFromTry);
    }
    let exception_name = match data[1].as_symbol() {
        Ok(name) => name,
        Err(e) => {
            return Err(Error::TypeMismatch(e));
        },
    };
    Ok((exception_name.clone(), data[2].clone()))
}

/// `try*`: the value of the first form, or for its error the handler and the frame in
/// which the handler is to be evaluated.
pub fn apply_try(args: &[MalObject], env: &mut Environment, scope: Handle, fuel: usize) -> (r:
    Result<TryOutcome, Error>)
    ensures
        final(env)@ == semantics::apply_try(old(env)@, view_items(args@), scope, fuel as nat).state,
        match r {
            Ok(outcome) => semantics::apply_try(
                old(env)@,
                view_items(args@),
                scope,
                fuel as nat,
            ).result == Ok::<Tried, Failure>(outcome@),
            Err(e) => semantics::apply_try(
                old(env)@,
                view_items(args@),
                scope,
                fuel as nat,
            ).result == Err::<Tried, Failure>(e@),
        },
    decreases fuel, 1int, 0int,
{
    match Arity::Between(1, 2).validate_for(args.len(), "try*") {
        Err(bad) => {
            return Err(Error::BadArgCount(bad));
        },
        Ok(_) => {},
    }
    let clause = if args.len() == 2 {
        match catch_data(&args[1]) {
            Ok(clause) => Some(clause),
            Err(e) => {
                return Err(e);
            },
        }
    } else {
        None
    };
    match EVAL(&args[0], env, scope, fuel) {
        Ok(value) => Ok(TryOutcome::Finished(value)),
        Err(original) => match clause {
            None => Err(original),
            Some((exception_name, exception_handler)) => {
                if !original.catchable() {
                    return Err(original);
                }
                let value = exception_object(&original, env);
                let exception_env = env.spawn_from(scope);
                env.set_in(exception_env, exception_name, value);
                Ok(TryOutcome::Recover(original, exception_handler, exception_env))
            },
        },
    }
}

} // verus!
