//! The step limit: it decides whether an evaluation has a result, never which.

use crate::environment::State;
use crate::evaluator::Failure;
use crate::primitives::is_pure;
use crate::semantics;
use crate::semantics::{
    apply_fully, arity_failure, eval, macro_of, macroexpand, swap, Applied, Step, Tried,
};
use crate::special_forms::Special;
use crate::types::{is_callable, seq_items, Arity, Builtin, Handle, Key, Value};
use vstd::prelude::*;

verus! {

/// Whether a failure is that of an evaluation that took too many steps, by itself or
/// inside handlers.
pub open spec fn ran_out(failure: Failure) -> bool
    decreases failure,
{
    match failure {
        Failure::StepLimit => true,
        Failure::InCatchHandler(_, after) => ran_out(*after),
        _ => false,
    }
}

/// Whether a step ended within its steps: in a value, or in a failure of the program.
pub open spec fn finished<T>(step: Step<T>) -> bool {
    match step.result {
        Ok(_) => true,
        Err(failure) => !ran_out(failure),
    }
}

/// An evaluation that ended within its steps ends in the same way with one step more.
pub proof fn eval_with_one_more(st: State, ast: Value, scope: Handle, fuel: nat)
    requires
        finished(eval(st, ast, scope, fuel)),
    ensures
        eval(st, ast, scope, fuel + 1) == eval(st, ast, scope, fuel),
    decreases fuel, 0int, 0int,
{
    if fuel > 0 {
        let f = (fuel - 1) as nat;
        let expanded = macroexpand(st, ast, scope, f);
        macroexpand_with_one_more(st, ast, scope, f);
        match expanded.result {
            Ok(form) => eval_form_with_one_more(expanded.state, form, scope, f),
            Err(_) => {},
        }
    }
}

/// The same for a form that calls no macro.
pub proof fn eval_form_with_one_more(st: State, form: Value, scope: Handle, f: nat)
    requires
        finished(semantics::eval_form(st, form, scope, f)),
    ensures
        semantics::eval_form(st, form, scope, f + 1) == semantics::eval_form(st, form, scope, f),
    decreases f, 6int, 0int,
{
    match form {
        Value::List(items, _) => {
            if items.len() > 0 {
                let args = items.skip(1);
                match semantics::special_of(items[0]) {
                    Some(Special::Def) => apply_def_with_one_more(st, args, scope, false, f),
                    Some(Special::Defmacro) => apply_def_with_one_more(st, args, scope, true, f),
                    Some(Special::Let) => {
                        let r = semantics::apply_let(st, args, scope, f);
                        apply_let_with_one_more(st, args, scope, f);
                        match r.result {
                            Ok((body, child)) => eval_with_one_more(r.state, body, child, f),
                            Err(_) => {},
                        }
                    },
                    Some(Special::Do) => {
                        let r = semantics::apply_do(st, args, scope, f);
                        apply_do_with_one_more(st, args, scope, f);
                        match r.result {
                            Ok(last) => eval_with_one_more(r.state, last, scope, f),
                            Err(_) => {},
                        }
                    },
                    Some(Special::If) => {
                        let r = semantics::apply_if(st, args, scope, f);
                        apply_if_with_one_more(st, args, scope, f);
                        match r.result {
                            Ok(branch) => eval_with_one_more(r.state, branch, scope, f),
                            Err(_) => {},
                        }
                    },
                    Some(Special::Fn) => {},
                    Some(Special::Quote) => {},
                    Some(Special::Quasiquote) => {
                        if arity_failure(Arity::Between(1, 1), args.len() as int, "quasiquote")
                            is None {
                            match semantics::quasiquote(args[0]) {
                                Ok(built) => eval_with_one_more(st, built, scope, f),
                                Err(_) => {},
                            }
                        }
                    },
                    Some(Special::Macroexpand) => {
                        if arity_failure(Arity::Between(1, 1), args.len() as int, "macroexpand")
                            is None {
                            macroexpand_with_one_more(st, args[0], scope, f);
                        }
                    },
                    Some(Special::Try) => {
                        let r = semantics::apply_try(st, args, scope, f);
                        match r.result {
                            Ok(Tried::Recover(original, handler, child)) => {
                                apply_try_with_one_more(st, args, scope, f);
                                eval_with_one_more(r.state, handler, child, f);
                            },
                            _ => apply_try_with_one_more(st, args, scope, f),
                        }
                    },
                    None => {
                        let r = semantics::evaluate_sequence(
                            st,
                            items,
                            scope,
                            f,
                            items.len() as int,
                        );
                        evaluate_sequence_with_one_more(st, items, scope, f, items.len() as int);
                        match r.result {
                            Ok(values) => {
                                let a = semantics::apply(r.state, values[0], values.skip(1), f);
                                apply_with_one_more(r.state, values[0], values.skip(1), f);
                                match a.result {
                                    Ok(Applied::EvaluateFurther(next, frame)) => {
                                        eval_with_one_more(a.state, next, frame, f)
                                    },
                                    _ => {},
                                }
                            },
                            Err(_) => {},
                        }
                    },
                }
            }
        },
        _ => evaluate_ast_with_one_more(st, form, scope, f),
    }
}

/// The same for expanding macros.
pub proof fn macroexpand_with_one_more(st: State, ast: Value, scope: Handle, f: nat)
    requires
        finished(macroexpand(st, ast, scope, f)),
    ensures
        macroexpand(st, ast, scope, f + 1) == macroexpand(st, ast, scope, f),
    decreases f, 5int, 0int,
{
    match macro_of(st, ast, scope) {
        None => {},
        Some(callable) => {
            if f > 0 {
                let args = semantics::macro_args(ast);
                let r = apply_fully(st, callable, args, (f - 1) as nat);
                apply_fully_with_one_more(st, callable, args, (f - 1) as nat);
                match r.result {
                    Ok(expanded) => macroexpand_with_one_more(
                        r.state,
                        expanded,
                        scope,
                        (f - 1) as nat,
                    ),
                    Err(_) => {},
                }
            }
        },
    }
}

/// The same for applying a callable.
pub proof fn apply_fully_with_one_more(st: State, callable: Value, args: Seq<Value>, f: nat)
    requires
        finished(apply_fully(st, callable, args, f)),
    ensures
        apply_fully(st, callable, args, f + 1) == apply_fully(st, callable, args, f),
    decreases f, 4int, 0int,
{
    let a = semantics::apply(st, callable, args, f);
    apply_with_one_more(st, callable, args, f);
    match a.result {
        Ok(Applied::EvaluateFurther(next, frame)) => eval_with_one_more(a.state, next, frame, f),
        _ => {},
    }
}

/// The same for one step of applying a callable.
pub proof fn apply_with_one_more(st: State, callable: Value, args: Seq<Value>, f: nat)
    requires
        finished(semantics::apply(st, callable, args, f)),
    ensures
        semantics::apply(st, callable, args, f + 1) == semantics::apply(st, callable, args, f),
    decreases f, 3int, 0int,
{
    match callable {
        Value::Primitive(op, _) => call_primitive_with_one_more(st, op, args, f),
        _ => {},
    }
}

/// The same for a built-in operation.
pub proof fn call_primitive_with_one_more(st: State, op: Builtin, args: Seq<Value>, f: nat)
    requires
        finished(semantics::call_primitive(st, op, args, f)),
    ensures
        semantics::call_primitive(st, op, args, f + 1) == semantics::call_primitive(
            st,
            op,
            args,
            f,
        ),
    decreases f, 2int, 0int,
{
    if arity_failure(op.spec_arity(), args.len() as int, op.spec_name()) is None {
        if is_pure(op) {
        } else if op == Builtin::Swap {
            swap_with_one_more(st, args, f);
        } else if op == Builtin::Apply {
            match seq_items(args[args.len() - 1]) {
                Some(last) => {
                    if f > 0 {
                        apply_fully_with_one_more(
                            st,
                            args[0],
                            args.subrange(1, args.len() - 1) + last,
                            (f - 1) as nat,
                        );
                    }
                },
                None => {},
            }
        } else {
            match seq_items(args[1]) {
                Some(items) => map_over_with_one_more(st, args[0], items, f, items.len() as int),
                None => {},
            }
        }
    }
}

/// The same for `swap!`.
pub proof fn swap_with_one_more(st: State, args: Seq<Value>, f: nat)
    requires
        finished(swap(st, args, f)),
    ensures
        swap(st, args, f + 1) == swap(st, args, f),
    decreases f, 1int, 0int,
{
    match args[0] {
        Value::Atom(cell) => {
            if is_callable(args[1]) && st.cell(cell) is Some && f > 0 {
                apply_fully_with_one_more(
                    st,
                    args[1],
                    seq![st.cell(cell)->0] + args.skip(2),
                    (f - 1) as nat,
                );
            }
        },
        _ => {},
    }
}

/// The same for applying a callable to each item.
pub proof fn map_over_with_one_more(st: State, callable: Value, items: Seq<Value>, f: nat, n: int)
    requires
        finished(semantics::map_over(st, callable, items, f, n)),
    ensures
        semantics::map_over(st, callable, items, f + 1, n) == semantics::map_over(
            st,
            callable,
            items,
            f,
            n,
        ),
    decreases f, 0int, n,
{
    if n > 0 {
        let before = semantics::map_over(st, callable, items, f, n - 1);
        map_over_with_one_more(st, callable, items, f, n - 1);
        if before.result is Ok && f > 0 {
            apply_fully_with_one_more(before.state, callable, seq![items[n - 1]], (f - 1) as nat);
        }
    }
}

/// The same for evaluating a sequence.
pub proof fn evaluate_sequence_with_one_more(
    st: State,
    forms: Seq<Value>,
    scope: Handle,
    f: nat,
    n: int,
)
    requires
        finished(semantics::evaluate_sequence(st, forms, scope, f, n)),
    ensures
        semantics::evaluate_sequence(st, forms, scope, f + 1, n) == semantics::evaluate_sequence(
            st,
            forms,
            scope,
            f,
            n,
        ),
    decreases f, 1int, n,
{
    if n > 0 {
        let before = semantics::evaluate_sequence(st, forms, scope, f, n - 1);
        evaluate_sequence_with_one_more(st, forms, scope, f, n - 1);
        if before.result is Ok {
            eval_with_one_more(before.state, forms[n - 1], scope, f);
        }
    }
}

/// The same for evaluating the values of a map.
pub proof fn evaluate_entries_with_one_more(
    st: State,
    entries: Seq<(Key, Value)>,
    scope: Handle,
    f: nat,
    n: int,
)
    requires
        finished(semantics::evaluate_entries(st, entries, scope, f, n)),
    ensures
        semantics::evaluate_entries(st, entries, scope, f + 1, n) == semantics::evaluate_entries(
            st,
            entries,
            scope,
            f,
            n,
        ),
    decreases f, 1int, n,
{
    if n > 0 {
        let before = semantics::evaluate_entries(st, entries, scope, f, n - 1);
        evaluate_entries_with_one_more(st, entries, scope, f, n - 1);
        if before.result is Ok {
            eval_with_one_more(before.state, entries[n - 1].1, scope, f);
        }
    }
}

/// The same for evaluating a form by its kind.
pub proof fn evaluate_ast_with_one_more(st: State, ast: Value, scope: Handle, f: nat)
    requires
        finished(semantics::evaluate_ast(st, ast, scope, f)),
    ensures
        semantics::evaluate_ast(st, ast, scope, f + 1) == semantics::evaluate_ast(
            st,
            ast,
            scope,
            f,
        ),
    decreases f, 2int, 0int,
{
    match ast {
        Value::List(items, _) => evaluate_sequence_with_one_more(
            st,
            items,
            scope,
            f,
            items.len() as int,
        ),
        Value::Vector(items, _) => evaluate_sequence_with_one_more(
            st,
            items,
            scope,
            f,
            items.len() as int,
        ),
        Value::HashMap(entries, _) => evaluate_entries_with_one_more(
            st,
            entries,
            scope,
            f,
            entries.len() as int,
        ),
        _ => {},
    }
}

/// The same for `def!`.
pub proof fn apply_def_with_one_more(
    st: State,
    args: Seq<Value>,
    scope: Handle,
    make_macro: bool,
    f: nat,
)
    requires
        finished(semantics::apply_def(st, args, scope, make_macro, f)),
    ensures
        semantics::apply_def(st, args, scope, make_macro, f + 1) == semantics::apply_def(
            st,
            args,
            scope,
            make_macro,
            f,
        ),
    decreases f, 1int, 0int,
{
    if args.len() == 2 && args[0] is Symbol {
        eval_with_one_more(st, args[1], scope, f);
    }
}

/// The same for the bindings of `let*`.
pub proof fn make_let_environment_with_one_more(
    st: State,
    bindings: Seq<Value>,
    child: Handle,
    f: nat,
    n: int,
)
    requires
        finished(semantics::make_let_environment(st, bindings, child, f, n)),
    ensures
        semantics::make_let_environment(st, bindings, child, f + 1, n)
            == semantics::make_let_environment(st, bindings, child, f, n),
    decreases f, 1int, n,
{
    if n > 0 {
        let before = semantics::make_let_environment(st, bindings, child, f, n - 1);
        make_let_environment_with_one_more(st, bindings, child, f, n - 1);
        if before.result is Ok && bindings[2 * (n - 1)] is Symbol {
            eval_with_one_more(before.state, bindings[2 * (n - 1) + 1], child, f);
        }
    }
}

/// The same for `let*`.
pub proof fn apply_let_with_one_more(st: State, args: Seq<Value>, scope: Handle, f: nat)
    requires
        finished(semantics::apply_let(st, args, scope, f)),
    ensures
        semantics::apply_let(st, args, scope, f + 1) == semantics::apply_let(st, args, scope, f),
    decreases f, 2int, 0int,
{
    if args.len() == 2 {
        match seq_items(args[0]) {
            Some(bindings) => {
                if bindings.len() % 2 == 0 {
                    make_let_environment_with_one_more(
                        st.spawn(scope),
                        bindings,
                        st.frames.len() as Handle,
                        f,
                        bindings.len() as int / 2,
                    );
                }
            },
            None => {},
        }
    }
}

/// The same for `do`.
pub proof fn apply_do_with_one_more(st: State, args: Seq<Value>, scope: Handle, f: nat)
    requires
        finished(semantics::apply_do(st, args, scope, f)),
    ensures
        semantics::apply_do(st, args, scope, f + 1) == semantics::apply_do(st, args, scope, f),
    decreases f, 2int, 0int,
{
    if args.len() > 0 {
        evaluate_sequence_with_one_more(st, args, scope, f, args.len() - 1);
    }
}

/// The same for `if`.
pub proof fn apply_if_with_one_more(st: State, args: Seq<Value>, scope: Handle, f: nat)
    requires
        finished(semantics::apply_if(st, args, scope, f)),
    ensures
        semantics::apply_if(st, args, scope, f + 1) == semantics::apply_if(st, args, scope, f),
    decreases f, 1int, 0int,
{
    if arity_failure(Arity::Between(2, 3), args.len() as int, "if") is None {
        eval_with_one_more(st, args[0], scope, f);
    }
}

/// The same for `try*`: what it catches is no evaluation that took too many steps.
pub proof fn apply_try_with_one_more(st: State, args: Seq<Value>, scope: Handle, f: nat)
    requires
        finished(semantics::apply_try(st, args, scope, f)),
    ensures
        semantics::apply_try(st, args, scope, f + 1) == semantics::apply_try(st, args, scope, f),
    decreases f, 1int, 0int,
{
    if arity_failure(Arity::Between(1, 2), args.len() as int, "try*") is None {
        let clause = if args.len() == 2 {
            match semantics::catch_clause(args[1]) {
                Ok(c) => Ok(Some(c)),
                Err(e) => Err(e),
            }
        } else {
            Ok(None)
        };
        if clause is Ok {
            eval_with_one_more(st, args[0], scope, f);
        }
    }
}

/// The step limit decides whether an evaluation has a result, never which: an
/// evaluation that ended within its steps, in a value or in a failure of the program,
/// ends in the same value or failure and leaves the same state with any number of
/// steps more.
pub proof fn more_steps_change_nothing(st: State, ast: Value, scope: Handle, fuel: nat, more: nat)
    requires
        finished(eval(st, ast, scope, fuel)),
    ensures
        eval(st, ast, scope, fuel + more) == eval(st, ast, scope, fuel),
    decreases more,
{
    if more > 0 {
        more_steps_change_nothing(st, ast, scope, fuel, (more - 1) as nat);
        eval_with_one_more(st, ast, scope, (fuel + more - 1) as nat);
    }
}

} // verus!
