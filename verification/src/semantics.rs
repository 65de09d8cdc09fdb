//! What evaluation means: the value and the state of the environment that a form
//! evaluates to within a number of steps.
//!
//! Every function here takes the state before and gives the state after with its result.
//! `fuel` bounds the steps: an evaluation that needs more fails with `StepLimit`. A form
//! in tail position is evaluated by the same rules as any other; that the evaluator
//! reaches it by a loop is a property of the code, not of the meaning.

use crate::environment::State;
use crate::evaluator::{is_catchable, Failure};
use crate::messages::failure_text;
use crate::primitives::{call_pure, is_pure};
use crate::special_forms::{DefError, DoError, FnError, LetError, Special};
use crate::types::{
    equal_values, is_callable, is_macro_value, list_of, map_of, parameters_of, seq_items, vector_of,
    Arity, Builtin, ClosureValue, Handle, Key, TypeMismatch, Value,
};
use vstd::prelude::*;

verus! {

/// A state of the environment with a result.
pub struct Step<T> {
    pub state: State,
    pub result: Result<T, Failure>,
}

/// The step that ends in a value.
pub open spec fn done<T>(state: State, value: T) -> Step<T> {
    Step { state, result: Ok(value) }
}

/// The step that ends in a failure.
pub open spec fn fail<T>(state: State, failure: Failure) -> Step<T> {
    Step { state, result: Err(failure) }
}

/// What applying a callable gives: a value, or a form to evaluate in a frame.
pub enum Applied {
    Finished(Value),
    EvaluateFurther(Value, Handle),
}

/// What `try*` gives: a value, or the handler to evaluate in a frame for an error.
pub enum Tried {
    Finished(Value),
    Recover(Failure, Value, Handle),
}

/// The special form that a head names.
pub open spec fn special_of(head: Value) -> Option<Special> {
    match head {
        Value::Symbol(name) => if name == "def!"@ {
            Some(Special::Def)
        } else if name == "defmacro!"@ {
            Some(Special::Defmacro)
        } else if name == "let*"@ {
            Some(Special::Let)
        } else if name == "do"@ {
            Some(Special::Do)
        } else if name == "if"@ {
            Some(Special::If)
        } else if name == "fn*"@ {
            Some(Special::Fn)
        } else if name == "quote"@ {
            Some(Special::Quote)
        } else if name == "quasiquote"@ {
            Some(Special::Quasiquote)
        } else if name == "macroexpand"@ {
            Some(Special::Macroexpand)
        } else if name == "try*"@ {
            Some(Special::Try)
        } else {
            None
        },
        _ => None,
    }
}

/// The failure of a call with a wrong number of arguments, if it is one.
pub open spec fn arity_failure(arity: Arity, n: int, name: &'static str) -> Option<Failure> {
    match arity.check(n as usize, name) {
        Ok(_) => None,
        Err(bad) => Some(Failure::BadArgCount(bad)),
    }
}

/// A closure as a value.
pub open spec fn closure_of(c: ClosureValue) -> Value {
    Value::Closure(Box::new(c))
}

// ---------------------------------------------------------------------------------------
// Quasiquotation
// ---------------------------------------------------------------------------------------
/// The form that builds what a quasiquoted form describes: `(quote x)` for what is no
/// sequence, and for a sequence what `quasiquote_from` gives.
pub open spec fn quasiquote(ast: Value) -> Result<Value, crate::types::BadArgCount>
    decreases ast, 0int,
{
    match ast {
        Value::List(items, _) => quasiquote_from(items, 0),
        Value::Vector(items, _) => quasiquote_from(items, 0),
        _ => Ok(list_of(seq![Value::Symbol("quote"@), ast])),
    }
}

/// The form that builds the elements of a quasiquoted sequence from place `i` on: the
/// empty list at the end; the form after `unquote`, which must be the last; `(concat s
/// rest)` where the element is `(splice-unquote s)`; `(cons element rest)` otherwise.
pub open spec fn quasiquote_from(items: Seq<Value>, i: int) -> Result<
    Value,
    crate::types::BadArgCount,
>
    decreases items, items.len() - i,
{
    if i < 0 || i >= items.len() {
        Ok(list_of(Seq::empty()))
    } else if equal_values(items[i], Value::Symbol("unquote"@)) {
        match Arity::Between(2, 2).check((items.len() - i) as usize, "unquote") {
            Err(bad) => Err(bad),
            Ok(_) => Ok(items[i + 1]),
        }
    } else {
        match spliced(items[i]) {
            Some(inner) => match Arity::AtLeast(1).check(
                (inner.len() - 1) as usize,
                "splice-unquote argument",
            ) {
                Err(bad) => Err(bad),
                Ok(_) => match quasiquote_from(items, i + 1) {
                    Err(bad) => Err(bad),
                    Ok(rest) => Ok(list_of(seq![Value::Symbol("concat"@), inner[1], rest])),
                },
            },
            None => match quasiquote(items[i]) {
                Err(bad) => Err(bad),
                Ok(first) => match quasiquote_from(items, i + 1) {
                    Err(bad) => Err(bad),
                    Ok(rest) => Ok(list_of(seq![Value::Symbol("cons"@), first, rest])),
                },
            },
        }
    }
}

/// The elements of a sequence whose first is the symbol `splice-unquote`.
pub open spec fn spliced(v: Value) -> Option<Seq<Value>> {
    match seq_items(v) {
        Some(inner) => if inner.len() > 0 && equal_values(
            inner[0],
            Value::Symbol("splice-unquote"@),
        ) {
            Some(inner)
        } else {
            None
        },
        None => None,
    }
}

// ---------------------------------------------------------------------------------------
// Closures
// ---------------------------------------------------------------------------------------
/// The closure that `fn*` makes of its arguments in a frame: the first argument is a
/// sequence of symbols, the parameters; the second is the body.
pub open spec fn make_closure(args: Seq<Value>, scope: Handle) -> Result<Value, Failure> {
    if args.len() != 2 {
        Err(Failure::Fn(FnError::WrongArgCount(args.len() as usize)))
    } else {
        match seq_items(args[0]) {
            None => Err(Failure::Fn(FnError::ParametersNotGivenAsList)),
            Some(symbols) => if !(forall|i: int|
                0 <= i < symbols.len() ==> (#[trigger] symbols[i]) is Symbol) {
                Err(Failure::Fn(FnError::ParameterNotASymbol))
            } else {
                match parameters_of(symbol_names(symbols)) {
                    Err(e) => Err(Failure::Fn(FnError::BadVariadic(e))),
                    Ok(parameters) => Ok(
                        closure_of(
                            ClosureValue {
                                parameters,
                                body: args[1],
                                parent: scope,
                                is_macro: false,
                                meta: Value::Nil,
                            },
                        ),
                    ),
                }
            },
        }
    }
}

/// The names of a sequence of symbols.
pub open spec fn symbol_names(symbols: Seq<Value>) -> Seq<Seq<char>> {
    Seq::new(
        symbols.len(),
        |i: int|
            match symbols[i] {
                Value::Symbol(name) => name,
                _ => Seq::empty(),
            },
    )
}

/// The state after binding the first `n` positional parameters to the arguments in
/// their places, in frame `frame`.
pub open spec fn bind_positional(
    st: State,
    frame: Handle,
    names: Seq<Seq<char>>,
    args: Seq<Value>,
    n: int,
) -> State
    decreases n,
{
    if n <= 0 {
        st
    } else {
        bind_positional(st, frame, names, args, n - 1).set(frame, names[n - 1], args[n - 1])
    }
}

/// The frame in which the body of a closure runs for some arguments: a new child of the
/// frame that the closure was made in, with each positional parameter bound to the
/// argument in its place and the collecting parameter, if there is one, to the list of
/// the arguments that are left.
pub open spec fn closure_frame(st: State, c: ClosureValue, args: Seq<Value>) -> Step<Handle> {
    match arity_failure(c.parameters.arity(), args.len() as int, "closure") {
        Some(failure) => fail(st, failure),
        None => {
            let child = st.frames.len() as Handle;
            let positional = c.parameters.positional;
            let bound = bind_positional(
                st.spawn(c.parent),
                child,
                positional,
                args,
                positional.len() as int,
            );
            match c.parameters.others {
                None => done(bound, child),
                Some(rest) => done(
                    bound.set(child, rest, list_of(args.skip(positional.len() as int))),
                    child,
                ),
            }
        },
    }
}

// ---------------------------------------------------------------------------------------
// Evaluation
// ---------------------------------------------------------------------------------------
/// The value of a form in a frame.
///
/// First the form is expanded while it is a call of a macro. An empty list is its own
/// value. A list whose head names a special form goes by that form's rule. Any other
/// list is an application: its elements are evaluated in order and the first is applied
/// to the others. What is no list goes by `evaluate_ast`.
pub open spec fn eval(st: State, ast: Value, scope: Handle, fuel: nat) -> Step<Value>
    decreases fuel, 0int, 0int,
{
    if fuel == 0 {
        fail(st, Failure::StepLimit)
    } else {
        let f = (fuel - 1) as nat;
        let expanded = macroexpand(st, ast, scope, f);
        match expanded.result {
            Err(e) => fail(expanded.state, e),
            Ok(form) => eval_form(expanded.state, form, scope, f),
        }
    }
}

/// The value of a form that is no call of a macro.
pub open spec fn eval_form(st: State, form: Value, scope: Handle, f: nat) -> Step<Value>
    decreases f, 6int, 0int,
{
    match form {
        Value::List(items, _) => if items.len() == 0 {
            done(st, list_of(Seq::empty()))
        } else {
            let args = items.skip(1);
            match special_of(items[0]) {
                Some(Special::Def) => apply_def(st, args, scope, false, f),
                Some(Special::Defmacro) => apply_def(st, args, scope, true, f),
                Some(Special::Let) => {
                    let r = apply_let(st, args, scope, f);
                    match r.result {
                        Err(e) => fail(r.state, e),
                        Ok((body, child)) => eval(r.state, body, child, f),
                    }
                },
                Some(Special::Do) => {
                    let r = apply_do(st, args, scope, f);
                    match r.result {
                        Err(e) => fail(r.state, e),
                        Ok(last) => eval(r.state, last, scope, f),
                    }
                },
                Some(Special::If) => {
                    let r = apply_if(st, args, scope, f);
                    match r.result {
                        Err(e) => fail(r.state, e),
                        Ok(branch) => eval(r.state, branch, scope, f),
                    }
                },
                Some(Special::Fn) => Step { state: st, result: make_closure(args, scope) },
                Some(Special::Quote) => match arity_failure(
                    Arity::Between(1, 1),
                    args.len() as int,
                    "quote",
                ) {
                    Some(failure) => fail(st, failure),
                    None => done(st, args[0]),
                },
                Some(Special::Quasiquote) => match arity_failure(
                    Arity::Between(1, 1),
                    args.len() as int,
                    "quasiquote",
                ) {
                    Some(failure) => fail(st, failure),
                    None => match quasiquote(args[0]) {
                        Err(bad) => fail(st, Failure::BadArgCount(bad)),
                        Ok(built) => eval(st, built, scope, f),
                    },
                },
                Some(Special::Macroexpand) => match arity_failure(
                    Arity::Between(1, 1),
                    args.len() as int,
                    "macroexpand",
                ) {
                    Some(failure) => fail(st, failure),
                    None => macroexpand(st, args[0], scope, f),
                },
                Some(Special::Try) => {
                    let r = apply_try(st, args, scope, f);
                    match r.result {
                        Err(e) => fail(r.state, e),
                        Ok(Tried::Finished(value)) => done(r.state, value),
                        Ok(Tried::Recover(original, handler, child)) => in_handler(
                            original,
                            eval(r.state, handler, child, f),
                        ),
                    }
                },
                None => {
                    let r = evaluate_sequence(st, items, scope, f, items.len() as int);
                    match r.result {
                        Err(e) => fail(r.state, e),
                        Ok(values) => {
                            let a = apply(r.state, values[0], values.skip(1), f);
                            match a.result {
                                Err(e) => fail(a.state, e),
                                Ok(Applied::Finished(value)) => done(a.state, value),
                                Ok(Applied::EvaluateFurther(next, frame)) => eval(
                                    a.state,
                                    next,
                                    frame,
                                    f,
                                ),
                            }
                        },
                    }
                },
            }
        },
        _ => evaluate_ast(st, form, scope, f),
    }
}

/// The result of a handler: its value, or the error it raised together with the one
/// that it was handling.
pub open spec fn in_handler(original: Failure, handled: Step<Value>) -> Step<Value> {
    match handled.result {
        Ok(value) => handled,
        Err(after) => fail(
            handled.state,
            Failure::InCatchHandler(Box::new(original), Box::new(after)),
        ),
    }
}

/// The macro that a form calls: the form is a list that is not empty, its head is a
/// symbol, and the symbol is bound to a closure that is marked as a macro.
pub open spec fn macro_of(st: State, ast: Value, scope: Handle) -> Option<Value> {
    match ast {
        Value::List(items, _) => if items.len() > 0 {
            match items[0] {
                Value::Symbol(name) => match st.get(scope, name) {
                    Some(value) => if is_macro_value(value) {
                        Some(value)
                    } else {
                        None
                    },
                    None => None,
                },
                _ => None,
            }
        } else {
            None
        },
        _ => None,
    }
}

/// The arguments of a form that calls a macro.
pub open spec fn macro_args(ast: Value) -> Seq<Value> {
    match ast {
        Value::List(items, _) => items.skip(1),
        _ => Seq::empty(),
    }
}

/// The form that is left when macros have been expanded: while the form calls a macro,
/// the macro is applied to the form's arguments, unevaluated, and its value takes the
/// form's place.
pub open spec fn macroexpand(st: State, ast: Value, scope: Handle, f: nat) -> Step<Value>
    decreases f, 5int, 0int,
{
    match macro_of(st, ast, scope) {
        None => done(st, ast),
        Some(callable) => if f == 0 {
            fail(st, Failure::StepLimit)
        } else {
            let r = apply_fully(st, callable, macro_args(ast), (f - 1) as nat);
            match r.result {
                Err(e) => fail(r.state, e),
                Ok(expanded) => macroexpand(r.state, expanded, scope, (f - 1) as nat),
            }
        },
    }
}

/// The value of applying a callable to arguments.
pub open spec fn apply_fully(st: State, callable: Value, args: Seq<Value>, f: nat) -> Step<Value>
    decreases f, 4int, 0int,
{
    let a = apply(st, callable, args, f);
    match a.result {
        Err(e) => fail(a.state, e),
        Ok(Applied::Finished(value)) => done(a.state, value),
        Ok(Applied::EvaluateFurther(next, frame)) => eval(a.state, next, frame, f),
    }
}

/// One step of applying a callable to arguments. A built-in operation gives its value. A
/// closure gives its body, to be evaluated in the frame that `closure_frame` makes. The
/// evaluation bridge gives its one argument, to be evaluated in the bridge's frame.
/// Nothing else can be applied.
pub open spec fn apply(st: State, callable: Value, args: Seq<Value>, f: nat) -> Step<Applied>
    decreases f, 3int, 0int,
{
    match callable {
        Value::Primitive(op, _) => {
            let r = call_primitive(st, op, args, f);
            match r.result {
                Err(e) => fail(r.state, e),
                Ok(value) => done(r.state, Applied::Finished(value)),
            }
        },
        Value::Closure(c) => {
            let r = closure_frame(st, *c, args);
            match r.result {
                Err(e) => fail(r.state, e),
                Ok(frame) => done(r.state, Applied::EvaluateFurther(c.body, frame)),
            }
        },
        Value::Eval(frame) => match arity_failure(Arity::Between(1, 1), args.len() as int, "eval") {
            Some(failure) => fail(st, failure),
            None => done(st, Applied::EvaluateFurther(args[0], frame)),
        },
        _ => fail(st, Failure::TypeMismatch(TypeMismatch::NotCallable)),
    }
}

/// The value of a built-in operation on arguments, after the number of arguments has
/// been checked against the operation's arity.
pub open spec fn call_primitive(st: State, op: Builtin, args: Seq<Value>, f: nat) -> Step<Value>
    decreases f, 2int, 0int,
{
    match arity_failure(op.spec_arity(), args.len() as int, op.spec_name()) {
        Some(failure) => fail(st, failure),
        None => if is_pure(op) {
            call_pure(st, op, args)
        } else if op == Builtin::Swap {
            swap(st, args, f)
        } else if op == Builtin::Apply {
            apply_value(st, args, f)
        } else {
            map_value(st, args, f)
        },
    }
}

/// `apply`: the first argument is applied to the others, the last of which is a
/// sequence whose elements are arguments each.
pub open spec fn apply_value(st: State, args: Seq<Value>, f: nat) -> Step<Value>
    decreases f, 1int, 0int,
{
    match seq_items(args[args.len() - 1]) {
        None => fail(st, Failure::TypeMismatch(TypeMismatch::NotASequence)),
        Some(last) => if f == 0 {
            fail(st, Failure::StepLimit)
        } else {
            apply_fully(st, args[0], args.subrange(1, args.len() - 1) + last, (f - 1) as nat)
        },
    }
}

/// `map`: the list of the values of the first argument applied to each element of the
/// second, in order.
pub open spec fn map_value(st: State, args: Seq<Value>, f: nat) -> Step<Value>
    decreases f, 1int, args.len() + 1,
{
    match seq_items(args[1]) {
        None => fail(st, Failure::TypeMismatch(TypeMismatch::NotASequence)),
        Some(items) => {
            let r = map_over(st, args[0], items, f, items.len() as int);
            match r.result {
                Err(e) => fail(r.state, e),
                Ok(values) => done(r.state, list_of(values)),
            }
        },
    }
}

/// `swap!`: the callable is applied to what the atom's cell holds and to the further
/// arguments; the value is stored in the cell and returned.
pub open spec fn swap(st: State, args: Seq<Value>, f: nat) -> Step<Value>
    decreases f, 1int, 0int,
{
    match args[0] {
        Value::Atom(cell) => if !is_callable(args[1]) {
            fail(st, Failure::TypeMismatch(TypeMismatch::NotCallable))
        } else {
            match st.cell(cell) {
                None => fail(st, Failure::TypeMismatch(TypeMismatch::NotAnAtom)),
                Some(held) => if f == 0 {
                    fail(st, Failure::StepLimit)
                } else {
                    let r = apply_fully(st, args[1], seq![held] + args.skip(2), (f - 1) as nat);
                    match r.result {
                        Err(e) => fail(r.state, e),
                        Ok(value) => done(r.state.store(cell, value), value),
                    }
                },
            }
        },
        _ => fail(st, Failure::TypeMismatch(TypeMismatch::NotAnAtom)),
    }
}

/// The values of applying a callable to each of the first `n` items, in order.
pub open spec fn map_over(st: State, callable: Value, items: Seq<Value>, f: nat, n: int) -> Step<
    Seq<Value>,
>
    decreases f, 0int, n,
{
    if n <= 0 {
        done(st, Seq::empty())
    } else {
        let before = map_over(st, callable, items, f, n - 1);
        match before.result {
            Err(e) => fail(before.state, e),
            Ok(values) => if f == 0 {
                fail(before.state, Failure::StepLimit)
            } else {
                let r = apply_fully(before.state, callable, seq![items[n - 1]], (f - 1) as nat);
                match r.result {
                    Err(e) => fail(r.state, e),
                    Ok(value) => done(r.state, values.push(value)),
                }
            },
        }
    }
}

/// The values of the first `n` forms, evaluated in order.
pub open spec fn evaluate_sequence(st: State, forms: Seq<Value>, scope: Handle, f: nat, n: int)
    -> Step<Seq<Value>>
    decreases f, 1int, n,
{
    if n <= 0 {
        done(st, Seq::empty())
    } else {
        let before = evaluate_sequence(st, forms, scope, f, n - 1);
        match before.result {
            Err(e) => fail(before.state, e),
            Ok(values) => {
                let r = eval(before.state, forms[n - 1], scope, f);
                match r.result {
                    Err(e) => fail(r.state, e),
                    Ok(value) => done(r.state, values.push(value)),
                }
            },
        }
    }
}

/// The first `n` entries of a map with their values evaluated, in order.
pub open spec fn evaluate_entries(
    st: State,
    entries: Seq<(Key, Value)>,
    scope: Handle,
    f: nat,
    n: int,
) -> Step<Seq<(Key, Value)>>
    decreases f, 1int, n,
{
    if n <= 0 {
        done(st, Seq::empty())
    } else {
        let before = evaluate_entries(st, entries, scope, f, n - 1);
        match before.result {
            Err(e) => fail(before.state, e),
            Ok(evaluated) => {
                let r = eval(before.state, entries[n - 1].1, scope, f);
                match r.result {
                    Err(e) => fail(r.state, e),
                    Ok(value) => done(r.state, evaluated.push((entries[n - 1].0, value))),
                }
            },
        }
    }
}

/// The value of a form by its kind: a symbol is looked up; the elements of a list or a
/// vector and the values of a map are evaluated in order; anything else is its own value.
pub open spec fn evaluate_ast(st: State, ast: Value, scope: Handle, f: nat) -> Step<Value>
    decreases f, 2int, 0int,
{
    match ast {
        Value::Symbol(name) => match st.get(scope, name) {
            Some(value) => done(st, value),
            None => fail(st, Failure::UnknownSymbol(name)),
        },
        Value::List(items, _) => {
            let r = evaluate_sequence(st, items, scope, f, items.len() as int);
            match r.result {
                Err(e) => fail(r.state, e),
                Ok(values) => done(r.state, list_of(values)),
            }
        },
        Value::Vector(items, _) => {
            let r = evaluate_sequence(st, items, scope, f, items.len() as int);
            match r.result {
                Err(e) => fail(r.state, e),
                Ok(values) => done(r.state, vector_of(values)),
            }
        },
        Value::HashMap(entries, _) => {
            let r = evaluate_entries(st, entries, scope, f, entries.len() as int);
            match r.result {
                Err(e) => fail(r.state, e),
                Ok(evaluated) => done(r.state, map_of(evaluated)),
            }
        },
        _ => done(st, ast),
    }
}

// ---------------------------------------------------------------------------------------
// Special forms
// ---------------------------------------------------------------------------------------
/// A closure marked as a macro.
pub open spec fn as_macro(value: Value) -> Result<Value, Failure> {
    match value {
        Value::Closure(c) => Ok(closure_of(ClosureValue { is_macro: true, ..*c })),
        _ => Err(Failure::TypeMismatch(TypeMismatch::NotAClosure)),
    }
}

/// `def!` and `defmacro!`: the second argument is evaluated and the first, a symbol, is
/// bound to the value in the frame `scope`. For `defmacro!` the value must be a closure,
/// and what is bound and returned is that closure marked as a macro.
pub open spec fn apply_def(st: State, args: Seq<Value>, scope: Handle, make_macro: bool, f: nat)
    -> Step<Value>
    decreases f, 1int, 0int,
{
    if args.len() != 2 {
        fail(st, Failure::Def(DefError::WrongArgCount(args.len() as usize)))
    } else {
        match args[0] {
            Value::Symbol(key) => {
                let r = eval(st, args[1], scope, f);
                match r.result {
                    Err(e) => fail(r.state, e),
                    Ok(value) => {
                        let bound = if make_macro {
                            as_macro(value)
                        } else {
                            Ok(value)
                        };
                        match bound {
                            Err(e) => fail(r.state, e),
                            Ok(value) => done(r.state.set(scope, key, value), value),
                        }
                    },
                }
            },
            _ => fail(st, Failure::Def(DefError::KeyNotASymbol)),
        }
    }
}

/// The state after the first `n` bindings of a `let*`: each value is evaluated in the
/// frame `child` and bound there to its symbol before the next is looked at.
pub open spec fn make_let_environment(
    st: State,
    bindings: Seq<Value>,
    child: Handle,
    f: nat,
    n: int,
) -> Step<()>
    decreases f, 1int, n,
{
    if n <= 0 {
        done(st, ())
    } else {
        let before = make_let_environment(st, bindings, child, f, n - 1);
        match before.result {
            Err(e) => fail(before.state, e),
            Ok(_) => match bindings[2 * (n - 1)] {
                Value::Symbol(key) => {
                    let r = eval(before.state, bindings[2 * (n - 1) + 1], child, f);
                    match r.result {
                        Err(e) => fail(r.state, e),
                        Ok(value) => done(r.state.set(child, key, value), ()),
                    }
                },
                _ => fail(before.state, Failure::Let(LetError::BindToNonSymbol)),
            },
        }
    }
}

/// `let*`: the first argument is a sequence of symbols, each followed by a form. A new
/// child of the frame `scope` is made and the bindings are made in it, in order. The
/// result is the second argument, the body, and the child, in which the body is to be
/// evaluated.
pub open spec fn apply_let(st: State, args: Seq<Value>, scope: Handle, f: nat) -> Step<
    (Value, Handle),
>
    decreases f, 2int, 0int,
{
    if args.len() != 2 {
        fail(st, Failure::Let(LetError::WrongArgCount(args.len() as usize)))
    } else {
        match seq_items(args[0]) {
            None => fail(st, Failure::Let(LetError::BindingsNotSequence)),
            Some(bindings) => if bindings.len() % 2 != 0 {
                fail(st, Failure::Let(LetError::BindingsOddLength))
            } else {
                let child = st.frames.len() as Handle;
                let r = make_let_environment(
                    st.spawn(scope),
                    bindings,
                    child,
                    f,
                    bindings.len() as int / 2,
                );
                match r.result {
                    Err(e) => fail(r.state, e),
                    Ok(_) => done(r.state, (args[1], child)),
                }
            },
        }
    }
}

/// `do`: every argument but the last is evaluated, in order. The result is the last
/// argument, which is to be evaluated in the same frame.
pub open spec fn apply_do(st: State, args: Seq<Value>, scope: Handle, f: nat) -> Step<Value>
    decreases f, 2int, 0int,
{
    if args.len() == 0 {
        fail(st, Failure::Do(DoError::NothingToDo))
    } else {
        let r = evaluate_sequence(st, args, scope, f, args.len() - 1);
        match r.result {
            Err(e) => fail(r.state, e),
            Ok(_) => done(r.state, args[args.len() - 1]),
        }
    }
}

/// `if`: the first argument is evaluated. The result is the branch that is to be
/// evaluated in the same frame: the second argument where the value counts as true, else
/// the third, and `nil` where there is no third.
pub open spec fn apply_if(st: State, args: Seq<Value>, scope: Handle, f: nat) -> Step<Value>
    decreases f, 1int, 0int,
{
    match arity_failure(Arity::Between(2, 3), args.len() as int, "if") {
        Some(failure) => fail(st, failure),
        None => {
            let r = eval(st, args[0], scope, f);
            match r.result {
                Err(e) => fail(r.state, e),
                Ok(condition) => if crate::types::is_truthy(condition) {
                    done(r.state, args[1])
                } else if args.len() == 3 {
                    done(r.state, args[2])
                } else {
                    done(r.state, Value::Nil)
                },
            }
        },
    }
}

/// The symbol and the handler of a catch clause `(catch* symbol handler)`.
pub open spec fn catch_clause(clause: Value) -> Result<(Seq<char>, Value), Failure> {
    match clause {
        Value::List(data, _) => match arity_failure(
            Arity::Between(3, 3),
            data.len() as int,
            "try* catch list",
        ) {
            Some(failure) => Err(failure),
            None => if !equal_values(data[0], Value::Symbol("catch*"@)) {
                Err(Failure::MissingCatchFromTry)
            } else {
                match data[1] {
                    Value::Symbol(name) => Ok((name, data[2])),
                    _ => Err(Failure::TypeMismatch(TypeMismatch::NotASymbol)),
                }
            },
        },
        _ => Err(Failure::TypeMismatch(TypeMismatch::NotAList)),
    }
}

/// The value that a handler sees for a failure: the value that the program threw, or
/// the text of any other failure as a string.
pub open spec fn exception_value(st: State, failure: Failure) -> Value {
    match failure {
        Failure::UserException(value) => value,
        _ => Value::String(failure_text(st.cells, failure)),
    }
}

/// `try*`: the catch clause, if there is one, is taken apart; the first argument is
/// evaluated. Its value is the result. Its failure is the result where there is no catch
/// clause or the failure is not one that can be caught. Otherwise a new child of the
/// frame `scope` binds the clause's symbol to the failure's value, and the result is the
/// handler, which is to be evaluated in that child.
pub open spec fn apply_try(st: State, args: Seq<Value>, scope: Handle, f: nat) -> Step<Tried>
    decreases f, 1int, 0int,
{
    match arity_failure(Arity::Between(1, 2), args.len() as int, "try*") {
        Some(failure) => fail(st, failure),
        None => {
            let clause = if args.len() == 2 {
                match catch_clause(args[1]) {
                    Ok(c) => Ok(Some(c)),
                    Err(e) => Err(e),
                }
            } else {
                Ok(None)
            };
            match clause {
                Err(e) => fail(st, e),
                Ok(clause) => {
                    let r = eval(st, args[0], scope, f);
                    match r.result {
                        Ok(value) => done(r.state, Tried::Finished(value)),
                        Err(original) => match clause {
                            None => fail(r.state, original),
                            Some((name, handler)) => if !is_catchable(original) {
                                fail(r.state, original)
                            } else {
                                let child = r.state.frames.len() as Handle;
                                done(
                                    r.state.spawn(scope).set(
                                        child,
                                        name,
                                        exception_value(r.state, original),
                                    ),
                                    Tried::Recover(original, handler, child),
                                )
                            },
                        },
                    }
                },
            }
        },
    }
}


// ---------------------------------------------------------------------------------------
// Errors of handlers
// ---------------------------------------------------------------------------------------
/// The failure `after` as raised by the innermost of `n` handlers, each handling the
/// original failure in its place, the first outermost.
pub open spec fn nest(originals: Seq<Failure>, n: int, after: Failure) -> Failure
    decreases n,
{
    if n <= 0 {
        after
    } else {
        nest(
            originals,
            n - 1,
            Failure::InCatchHandler(Box::new(originals[n - 1]), Box::new(after)),
        )
    }
}

/// A step whose failure, if it is one, was raised inside the handlers of `originals`.
pub open spec fn nested(originals: Seq<Failure>, step: Step<Value>) -> Step<Value> {
    match step.result {
        Ok(_) => step,
        Err(after) => fail(step.state, nest(originals, originals.len() as int, after)),
    }
}

/// Nesting looks at the first `n` originals only.
pub proof fn nest_prefix(a: Seq<Failure>, b: Seq<Failure>, n: int, after: Failure)
    requires
        n <= a.len(),
        n <= b.len(),
        forall|i: int| 0 <= i < n ==> a[i] == b[i],
    ensures
        nest(a, n, after) == nest(b, n, after),
    decreases n,
{
    if n > 0 {
        nest_prefix(
            a,
            b,
            n - 1,
            Failure::InCatchHandler(Box::new(a[n - 1]), Box::new(after)),
        );
    }
}

/// A failure inside one more handler is the failure of that handler inside the others.
pub proof fn nested_push(originals: Seq<Failure>, original: Failure, step: Step<Value>)
    ensures
        nested(originals.push(original), step) == nested(originals, in_handler(original, step)),
{
    match step.result {
        Ok(_) => {},
        Err(after) => {
            nest_prefix(
                originals.push(original),
                originals,
                originals.len() as int,
                Failure::InCatchHandler(Box::new(original), Box::new(after)),
            );
        },
    }
}

// ---------------------------------------------------------------------------------------
// What has failed stays failed
// ---------------------------------------------------------------------------------------
/// Once evaluating a sequence has failed, the failure and its state are the result.
pub proof fn evaluate_sequence_stops(
    st: State,
    forms: Seq<Value>,
    scope: Handle,
    f: nat,
    n: int,
    m: int,
)
    requires
        n <= m,
        evaluate_sequence(st, forms, scope, f, n).result is Err,
    ensures
        evaluate_sequence(st, forms, scope, f, m) == evaluate_sequence(st, forms, scope, f, n),
    decreases m - n,
{
    if n < m {
        evaluate_sequence_stops(st, forms, scope, f, n, m - 1);
    }
}

/// Once evaluating the values of a map has failed, the failure and its state are the
/// result.
pub proof fn evaluate_entries_stops(
    st: State,
    entries: Seq<(Key, Value)>,
    scope: Handle,
    f: nat,
    n: int,
    m: int,
)
    requires
        n <= m,
        evaluate_entries(st, entries, scope, f, n).result is Err,
    ensures
        evaluate_entries(st, entries, scope, f, m) == evaluate_entries(st, entries, scope, f, n),
    decreases m - n,
{
    if n < m {
        evaluate_entries_stops(st, entries, scope, f, n, m - 1);
    }
}

/// Once a binding of `let*` has failed, the failure and its state are the result.
pub proof fn make_let_environment_stops(
    st: State,
    bindings: Seq<Value>,
    child: Handle,
    f: nat,
    n: int,
    m: int,
)
    requires
        n <= m,
        make_let_environment(st, bindings, child, f, n).result is Err,
    ensures
        make_let_environment(st, bindings, child, f, m) == make_let_environment(
            st,
            bindings,
            child,
            f,
            n,
        ),
    decreases m - n,
{
    if n < m {
        make_let_environment_stops(st, bindings, child, f, n, m - 1);
    }
}

/// Once applying a callable to the items has failed, the failure and its state are the
/// result.
pub proof fn map_over_stops(st: State, callable: Value, items: Seq<Value>, f: nat, n: int, m: int)
    requires
        n <= m,
        map_over(st, callable, items, f, n).result is Err,
    ensures
        map_over(st, callable, items, f, m) == map_over(st, callable, items, f, n),
    decreases m - n,
{
    if n < m {
        map_over_stops(st, callable, items, f, n, m - 1);
    }
}

} // verus!
