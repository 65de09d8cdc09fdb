//! Laws of the language, proved of its meaning.

use crate::environment::State;
use crate::primitives::{call_pure, is_pure, stateful_value};
use crate::semantics;
use crate::semantics::{
    apply_fully, arity_failure, done, eval, macro_of, macroexpand, swap, Applied, Tried,
};
use crate::special_forms::Special;
use crate::types::{
    find_key, insert_entry, is_callable, is_truthy, list_of, lookup, remove_key, seq_items, Arity,
    Builtin, ClosureValue, Handle, Key, Value,
};
use vstd::prelude::*;

verus! {

// ---------------------------------------------------------------------------------------
// Bindings
// ---------------------------------------------------------------------------------------
/// Where a key is found, it stands, and it stands nowhere before.
pub proof fn find_key_is_first<K>(entries: Seq<(K, Value)>, key: K, from: int, i: int)
    requires
        0 <= from,
        find_key(entries, key, from) == Some(i),
    ensures
        from <= i < entries.len(),
        entries[i].0 == key,
        forall|j: int| from <= j < i ==> (#[trigger] entries[j]).0 != key,
    decreases entries.len() - from,
{
    if from < entries.len() && entries[from].0 != key {
        find_key_is_first(entries, key, from + 1, i);
    }
}

/// Where a key is not found, it stands nowhere.
pub proof fn find_key_none<K>(entries: Seq<(K, Value)>, key: K, from: int)
    requires
        0 <= from,
        find_key(entries, key, from) is None,
    ensures
        forall|j: int| from <= j < entries.len() ==> (#[trigger] entries[j]).0 != key,
    decreases entries.len() - from,
{
    if from < entries.len() {
        find_key_none(entries, key, from + 1);
    }
}

/// A key is found at the first place where it stands.
pub proof fn find_key_at<K>(entries: Seq<(K, Value)>, key: K, from: int, i: int)
    requires
        0 <= from <= i < entries.len(),
        entries[i].0 == key,
        forall|j: int| from <= j < i ==> (#[trigger] entries[j]).0 != key,
    ensures
        find_key(entries, key, from) == Some(i),
    decreases i - from,
{
    if from < i {
        find_key_at(entries, key, from + 1, i);
    }
}

/// A key that stands nowhere is not found.
pub proof fn find_key_absent<K>(entries: Seq<(K, Value)>, key: K, from: int)
    requires
        0 <= from,
        forall|j: int| from <= j < entries.len() ==> (#[trigger] entries[j]).0 != key,
    ensures
        find_key(entries, key, from) is None,
    decreases entries.len() - from,
{
    if from < entries.len() {
        find_key_absent(entries, key, from + 1);
    }
}

/// What a key is bound to depends on where keys stand and on the value at the first
/// place of the key only.
pub proof fn lookup_by_places<K>(a: Seq<(K, Value)>, b: Seq<(K, Value)>, key: K)
    requires
        a.len() <= b.len(),
        forall|j: int| 0 <= j < a.len() ==> (#[trigger] a[j]).0 == b[j].0,
        forall|j: int| 0 <= j < a.len() && a[j].0 == key ==> (#[trigger] a[j]).1 == b[j].1,
        forall|j: int| a.len() <= j < b.len() ==> (#[trigger] b[j]).0 != key,
    ensures
        lookup(a, key) == lookup(b, key),
{
    match find_key(a, key, 0) {
        Some(i) => {
            find_key_is_first(a, key, 0, i);
            assert forall|j: int| 0 <= j < i implies (#[trigger] b[j]).0 != key by {
                assert(a[j].0 == b[j].0);
            }
            assert(a[i].0 == b[i].0);
            find_key_at(b, key, 0, i);
        },
        None => {
            find_key_none(a, key, 0);
            assert forall|j: int| 0 <= j < b.len() implies (#[trigger] b[j]).0 != key by {
                if j < a.len() {
                    assert(a[j].0 == b[j].0);
                }
            }
            find_key_absent(b, key, 0);
        },
    }
}

/// After binding a key to a value, the key is bound to that value and every other key
/// to what it was bound to before.
pub proof fn lookup_after_insert<K>(entries: Seq<(K, Value)>, key: K, value: Value, other: K)
    ensures
        lookup(insert_entry(entries, key, value), key) == Some(value),
        other != key ==> lookup(insert_entry(entries, key, value), other) == lookup(entries, other),
{
    let after = insert_entry(entries, key, value);
    match find_key(entries, key, 0) {
        Some(i) => {
            find_key_is_first(entries, key, 0, i);
            assert forall|j: int| 0 <= j < i implies (#[trigger] after[j]).0 != key by {
                assert(entries[j].0 != key);
            }
            find_key_at(after, key, 0, i);
            if other != key {
                assert forall|j: int| 0 <= j < entries.len() implies (#[trigger] entries[j]).0
                    == after[j].0 by {}
                lookup_by_places(entries, after, other);
            }
        },
        None => {
            find_key_none(entries, key, 0);
            assert forall|j: int| 0 <= j < entries.len() implies (#[trigger] after[j]).0
                != key by {
                assert(entries[j].0 != key);
            }
            find_key_at(after, key, 0, entries.len() as int);
            if other != key {
                lookup_by_places(entries, after, other);
            }
        },
    }
}

// ---------------------------------------------------------------------------------------
// Lexical scoping
// ---------------------------------------------------------------------------------------
/// A binding made in a frame is what a lookup that starts in that frame finds.
pub proof fn binding_is_seen(st: State, scope: Handle, key: Seq<char>, value: Value)
    requires
        scope < st.frames.len(),
    ensures
        st.set(scope, key, value).get(scope, key) == Some(value),
{
    lookup_after_insert(st.frames[scope as int].data, key, value, key);
}

/// A binding made in a frame does not change what any other key is bound to.
pub proof fn binding_keeps_other_keys(
    st: State,
    frame: Handle,
    key: Seq<char>,
    value: Value,
    scope: Handle,
    other: Seq<char>,
)
    requires
        other != key,
    ensures
        st.set(frame, key, value).get(scope, other) == st.get(scope, other),
    decreases scope,
{
    if scope < st.frames.len() {
        if frame < st.frames.len() {
            lookup_after_insert(st.frames[frame as int].data, key, value, other);
        }
        match st.frames[scope as int].parent {
            Some(parent) => {
                if parent < scope {
                    binding_keeps_other_keys(st, frame, key, value, parent, other);
                }
            },
            None => {},
        }
    }
}

/// Lexical scoping, first half: a binding made later in the frame that a closure was
/// created in is what the closure's frame sees, unless it binds the key itself. Here
/// `child` is a frame whose parent is `scope`, as the frame is in which a closure's body
/// runs.
pub proof fn later_binding_at_capture_site_is_seen(
    st: State,
    scope: Handle,
    child: Handle,
    key: Seq<char>,
    value: Value,
)
    requires
        child < st.frames.len(),
        st.frames[child as int].parent == Some(scope),
        scope < child,
        lookup(st.frames[child as int].data, key) is None,
    ensures
        st.set(scope, key, value).get(child, key) == Some(value),
{
    binding_is_seen(st, scope, key, value);
}

/// Lexical scoping, second half: a binding made in a frame that was created later, as
/// every child scope is, changes nothing of what a lookup from an earlier frame finds.
pub proof fn shadowing_in_later_frame_is_not_seen(
    st: State,
    scope: Handle,
    later: Handle,
    key: Seq<char>,
    value: Value,
    any: Seq<char>,
)
    requires
        scope < later,
    ensures
        st.set(later, key, value).get(scope, any) == st.get(scope, any),
    decreases scope,
{
    if scope < st.frames.len() {
        match st.frames[scope as int].parent {
            Some(parent) => {
                if parent < scope {
                    shadowing_in_later_frame_is_not_seen(st, parent, later, key, value, any);
                }
            },
            None => {},
        }
    }
}

/// A new frame changes nothing of what a lookup from a frame that was there before finds.
pub proof fn spawning_is_not_seen(st: State, parent: Handle, scope: Handle, any: Seq<char>)
    requires
        scope < st.frames.len(),
    ensures
        st.spawn(parent).get(scope, any) == st.get(scope, any),
    decreases scope,
{
    match st.frames[scope as int].parent {
        Some(p) => {
            if p < scope {
                spawning_is_not_seen(st, parent, p, any);
            }
        },
        None => {},
    }
}

// ---------------------------------------------------------------------------------------
// Macros
// ---------------------------------------------------------------------------------------
/// What expanding leaves calls no macro, in the state that expanding leaves.
pub proof fn expansion_is_complete(st: State, ast: Value, scope: Handle, f: nat)
    ensures
        macroexpand(st, ast, scope, f).result matches Ok(expanded) ==> macro_of(
            macroexpand(st, ast, scope, f).state,
            expanded,
            scope,
        ) is None,
    decreases f,
{
    match macro_of(st, ast, scope) {
        None => {},
        Some(callable) => {
            if f > 0 {
                let r = apply_fully(st, callable, crate::semantics::macro_args(ast), (f - 1) as nat);
                match r.result {
                    Err(_) => {},
                    Ok(expanded) => {
                        expansion_is_complete(r.state, expanded, scope, (f - 1) as nat);
                    },
                }
            }
        },
    }
}

/// Macro order: evaluating a form is evaluating what `macroexpand` makes of it, in the
/// state that expanding leaves. The steps that expanding took are not taken again, so
/// the expansion is evaluated within the same number of steps.
pub proof fn evaluation_is_evaluation_of_expansion(st: State, form: Value, scope: Handle, fuel: nat)
    requires
        fuel > 0,
        macroexpand(st, form, scope, (fuel - 1) as nat).result is Ok,
    ensures
        ({
            let expanding = macroexpand(st, form, scope, (fuel - 1) as nat);
            eval(st, form, scope, fuel) == eval(
                expanding.state,
                expanding.result->Ok_0,
                scope,
                fuel,
            )
        }),
{
    expansion_is_complete(st, form, scope, (fuel - 1) as nat);
}


// ---------------------------------------------------------------------------------------
// Nothing is ever taken away
// ---------------------------------------------------------------------------------------
/// Whether `after` has every frame and every cell of `before`, each frame with the
/// parent it had.
pub open spec fn extends(before: State, after: State) -> bool {
    &&& before.frames.len() <= after.frames.len()
    &&& before.cells.len() <= after.cells.len()
    &&& forall|i: int|
        0 <= i < before.frames.len() ==> (#[trigger] after.frames[i]).parent
            == before.frames[i].parent
}

/// Binding positional parameters takes nothing away.
pub proof fn bind_positional_extends(
    st: State,
    frame: Handle,
    names: Seq<Seq<char>>,
    args: Seq<Value>,
    n: int,
)
    ensures
        extends(st, semantics::bind_positional(st, frame, names, args, n)),
    decreases n,
{
    if n > 0 {
        bind_positional_extends(st, frame, names, args, n - 1);
    }
}

/// Making the frame of a closure's body takes nothing away, and the frame it makes is a
/// new child of the frame that the closure was created in, as long as handles can count
/// the frames.
pub proof fn closure_frame_extends(st: State, c: ClosureValue, args: Seq<Value>)
    ensures
        extends(st, semantics::closure_frame(st, c, args).state),
        st.frames.len() <= usize::MAX ==> (semantics::closure_frame(
            st,
            c,
            args,
        ).result matches Ok(frame) ==> {
            &&& frame == st.frames.len()
            &&& frame < semantics::closure_frame(st, c, args).state.frames.len()
            &&& semantics::closure_frame(st, c, args).state.frames[frame as int].parent == Some(
                c.parent,
            )
        }),
{
    let child = st.frames.len() as Handle;
    bind_positional_extends(
        st.spawn(c.parent),
        child,
        c.parameters.positional,
        args,
        c.parameters.positional.len() as int,
    );
}

/// An operation that calls nothing back takes nothing away.
pub proof fn call_pure_extends(st: State, op: Builtin, args: Seq<Value>)
    ensures
        extends(st, call_pure(st, op, args).state),
{
}

/// Evaluation takes nothing away.
pub proof fn eval_extends(st: State, ast: Value, scope: Handle, fuel: nat)
    ensures
        extends(st, eval(st, ast, scope, fuel).state),
    decreases fuel, 0int, 0int,
{
    if fuel > 0 {
        let f = (fuel - 1) as nat;
        macroexpand_extends(st, ast, scope, f);
        let expanded = macroexpand(st, ast, scope, f);
        match expanded.result {
            Ok(form) => eval_form_extends(expanded.state, form, scope, f),
            Err(_) => {},
        }
    }
}

/// Evaluating a form that calls no macro takes nothing away.
pub proof fn eval_form_extends(st: State, form: Value, scope: Handle, f: nat)
    ensures
        extends(st, semantics::eval_form(st, form, scope, f).state),
    decreases f, 6int, 0int,
{
    match form {
        Value::List(items, _) => {
            if items.len() > 0 {
                let args = items.skip(1);
                match semantics::special_of(items[0]) {
                    Some(Special::Def) => apply_def_extends(st, args, scope, false, f),
                    Some(Special::Defmacro) => apply_def_extends(st, args, scope, true, f),
                    Some(Special::Let) => {
                        apply_let_extends(st, args, scope, f);
                        let r = semantics::apply_let(st, args, scope, f);
                        match r.result {
                            Ok((body, child)) => eval_extends(r.state, body, child, f),
                            Err(_) => {},
                        }
                    },
                    Some(Special::Do) => {
                        apply_do_extends(st, args, scope, f);
                        let r = semantics::apply_do(st, args, scope, f);
                        match r.result {
                            Ok(last) => eval_extends(r.state, last, scope, f),
                            Err(_) => {},
                        }
                    },
                    Some(Special::If) => {
                        apply_if_extends(st, args, scope, f);
                        let r = semantics::apply_if(st, args, scope, f);
                        match r.result {
                            Ok(branch) => eval_extends(r.state, branch, scope, f),
                            Err(_) => {},
                        }
                    },
                    Some(Special::Fn) => {},
                    Some(Special::Quote) => {},
                    Some(Special::Quasiquote) => {
                        if arity_failure(Arity::Between(1, 1), args.len() as int, "quasiquote")
                            is None {
                            match semantics::quasiquote(args[0]) {
                                Ok(built) => eval_extends(st, built, scope, f),
                                Err(_) => {},
                            }
                        }
                    },
                    Some(Special::Macroexpand) => {
                        if arity_failure(Arity::Between(1, 1), args.len() as int, "macroexpand")
                            is None {
                            macroexpand_extends(st, args[0], scope, f);
                        }
                    },
                    Some(Special::Try) => {
                        apply_try_extends(st, args, scope, f);
                        let r = semantics::apply_try(st, args, scope, f);
                        match r.result {
                            Ok(Tried::Recover(original, handler, child)) => eval_extends(
                                r.state,
                                handler,
                                child,
                                f,
                            ),
                            _ => {},
                        }
                    },
                    None => {
                        evaluate_sequence_extends(st, items, scope, f, items.len() as int);
                        let r = semantics::evaluate_sequence(
                            st,
                            items,
                            scope,
                            f,
                            items.len() as int,
                        );
                        match r.result {
                            Ok(values) => {
                                apply_extends(r.state, values[0], values.skip(1), f);
                                let a = semantics::apply(r.state, values[0], values.skip(1), f);
                                match a.result {
                                    Ok(Applied::EvaluateFurther(next, frame)) => eval_extends(
                                        a.state,
                                        next,
                                        frame,
                                        f,
                                    ),
                                    _ => {},
                                }
                            },
                            Err(_) => {},
                        }
                    },
                }
            }
        },
        _ => evaluate_ast_extends(st, form, scope, f),
    }
}

/// Expanding macros takes nothing away.
pub proof fn macroexpand_extends(st: State, ast: Value, scope: Handle, f: nat)
    ensures
        extends(st, macroexpand(st, ast, scope, f).state),
    decreases f, 5int, 0int,
{
    match macro_of(st, ast, scope) {
        None => {},
        Some(callable) => {
            if f > 0 {
                apply_fully_extends(st, callable, semantics::macro_args(ast), (f - 1) as nat);
                let r = apply_fully(st, callable, semantics::macro_args(ast), (f - 1) as nat);
                match r.result {
                    Ok(expanded) => macroexpand_extends(r.state, expanded, scope, (f - 1) as nat),
                    Err(_) => {},
                }
            }
        },
    }
}

/// Applying a callable takes nothing away.
pub proof fn apply_fully_extends(st: State, callable: Value, args: Seq<Value>, f: nat)
    ensures
        extends(st, apply_fully(st, callable, args, f).state),
    decreases f, 4int, 0int,
{
    apply_extends(st, callable, args, f);
    let a = semantics::apply(st, callable, args, f);
    match a.result {
        Ok(Applied::EvaluateFurther(next, frame)) => eval_extends(a.state, next, frame, f),
        _ => {},
    }
}

/// One step of applying a callable takes nothing away.
pub proof fn apply_extends(st: State, callable: Value, args: Seq<Value>, f: nat)
    ensures
        extends(st, semantics::apply(st, callable, args, f).state),
    decreases f, 3int, 0int,
{
    match callable {
        Value::Primitive(op, _) => call_primitive_extends(st, op, args, f),
        Value::Closure(c) => closure_frame_extends(st, *c, args),
        _ => {},
    }
}

/// A built-in operation takes nothing away.
pub proof fn call_primitive_extends(st: State, op: Builtin, args: Seq<Value>, f: nat)
    ensures
        extends(st, semantics::call_primitive(st, op, args, f).state),
    decreases f, 2int, 0int,
{
    if arity_failure(op.spec_arity(), args.len() as int, op.spec_name()) is None {
        if is_pure(op) {
            call_pure_extends(st, op, args);
        } else if op == Builtin::Swap {
            swap_extends(st, args, f);
        } else if op == Builtin::Apply {
            match seq_items(args[args.len() - 1]) {
                Some(last) => {
                    if f > 0 {
                        apply_fully_extends(
                            st,
                            args[0],
                            args.subrange(1, args.len() - 1) + last,
                            (f - 1) as nat,
                        );
                    }
                },
                None => {},
            }
        } else {
            match seq_items(args[1]) {
                Some(items) => map_over_extends(st, args[0], items, f, items.len() as int),
                None => {},
            }
        }
    }
}

/// `swap!` takes nothing away.
pub proof fn swap_extends(st: State, args: Seq<Value>, f: nat)
    ensures
        extends(st, swap(st, args, f).state),
    decreases f, 1int, 0int,
{
    match args[0] {
        Value::Atom(cell) => {
            if is_callable(args[1]) && st.cell(cell) is Some && f > 0 {
                apply_fully_extends(
                    st,
                    args[1],
                    seq![st.cell(cell)->0] + args.skip(2),
                    (f - 1) as nat,
                );
            }
        },
        _ => {},
    }
}

/// Applying a callable to each item takes nothing away.
pub proof fn map_over_extends(st: State, callable: Value, items: Seq<Value>, f: nat, n: int)
    ensures
        extends(st, semantics::map_over(st, callable, items, f, n).state),
    decreases f, 0int, n,
{
    if n > 0 {
        map_over_extends(st, callable, items, f, n - 1);
        let before = semantics::map_over(st, callable, items, f, n - 1);
        if before.result is Ok && f > 0 {
            apply_fully_extends(before.state, callable, seq![items[n - 1]], (f - 1) as nat);
        }
    }
}

/// Evaluating a sequence takes nothing away.
pub proof fn evaluate_sequence_extends(st: State, forms: Seq<Value>, scope: Handle, f: nat, n: int)
    ensures
        extends(st, semantics::evaluate_sequence(st, forms, scope, f, n).state),
    decreases f, 1int, n,
{
    if n > 0 {
        evaluate_sequence_extends(st, forms, scope, f, n - 1);
        let before = semantics::evaluate_sequence(st, forms, scope, f, n - 1);
        if before.result is Ok {
            eval_extends(before.state, forms[n - 1], scope, f);
        }
    }
}

/// Evaluating the values of a map takes nothing away.
pub proof fn evaluate_entries_extends(
    st: State,
    entries: Seq<(Key, Value)>,
    scope: Handle,
    f: nat,
    n: int,
)
    ensures
        extends(st, semantics::evaluate_entries(st, entries, scope, f, n).state),
    decreases f, 1int, n,
{
    if n > 0 {
        evaluate_entries_extends(st, entries, scope, f, n - 1);
        let before = semantics::evaluate_entries(st, entries, scope, f, n - 1);
        if before.result is Ok {
            eval_extends(before.state, entries[n - 1].1, scope, f);
        }
    }
}

/// Evaluating a form by its kind takes nothing away.
pub proof fn evaluate_ast_extends(st: State, ast: Value, scope: Handle, f: nat)
    ensures
        extends(st, semantics::evaluate_ast(st, ast, scope, f).state),
    decreases f, 2int, 0int,
{
    match ast {
        Value::List(items, _) => evaluate_sequence_extends(st, items, scope, f, items.len() as int),
        Value::Vector(items, _) => evaluate_sequence_extends(
            st,
            items,
            scope,
            f,
            items.len() as int,
        ),
        Value::HashMap(entries, _) => evaluate_entries_extends(
            st,
            entries,
            scope,
            f,
            entries.len() as int,
        ),
        _ => {},
    }
}

/// `def!` takes nothing away.
pub proof fn apply_def_extends(st: State, args: Seq<Value>, scope: Handle, make_macro: bool, f: nat)
    ensures
        extends(st, semantics::apply_def(st, args, scope, make_macro, f).state),
    decreases f, 1int, 0int,
{
    if args.len() == 2 && args[0] is Symbol {
        eval_extends(st, args[1], scope, f);
    }
}

/// The bindings of `let*` take nothing away.
pub proof fn make_let_environment_extends(
    st: State,
    bindings: Seq<Value>,
    child: Handle,
    f: nat,
    n: int,
)
    ensures
        extends(st, semantics::make_let_environment(st, bindings, child, f, n).state),
    decreases f, 1int, n,
{
    if n > 0 {
        make_let_environment_extends(st, bindings, child, f, n - 1);
        let before = semantics::make_let_environment(st, bindings, child, f, n - 1);
        if before.result is Ok && bindings[2 * (n - 1)] is Symbol {
            eval_extends(before.state, bindings[2 * (n - 1) + 1], child, f);
        }
    }
}

/// `let*` takes nothing away.
pub proof fn apply_let_extends(st: State, args: Seq<Value>, scope: Handle, f: nat)
    ensures
        extends(st, semantics::apply_let(st, args, scope, f).state),
    decreases f, 2int, 0int,
{
    if args.len() == 2 {
        match seq_items(args[0]) {
            Some(bindings) => {
                if bindings.len() % 2 == 0 {
                    make_let_environment_extends(
                        st.spawn(scope),
                        bindings,
                        st.frames.len() as Handle,
                        f,
                        bindings.len() as int / 2,
                    );
                }
            },
            None => {},
        }
    }
}

/// `do` takes nothing away.
pub proof fn apply_do_extends(st: State, args: Seq<Value>, scope: Handle, f: nat)
    ensures
        extends(st, semantics::apply_do(st, args, scope, f).state),
    decreases f, 2int, 0int,
{
    if args.len() > 0 {
        evaluate_sequence_extends(st, args, scope, f, args.len() - 1);
    }
}

/// `if` takes nothing away.
pub proof fn apply_if_extends(st: State, args: Seq<Value>, scope: Handle, f: nat)
    ensures
        extends(st, semantics::apply_if(st, args, scope, f).state),
    decreases f, 1int, 0int,
{
    if arity_failure(Arity::Between(2, 3), args.len() as int, "if") is None {
        eval_extends(st, args[0], scope, f);
    }
}

/// `try*` takes nothing away.
pub proof fn apply_try_extends(st: State, args: Seq<Value>, scope: Handle, f: nat)
    ensures
        extends(st, semantics::apply_try(st, args, scope, f).state),
    decreases f, 1int, 0int,
{
    if arity_failure(Arity::Between(1, 2), args.len() as int, "try*") is None {
        eval_extends(st, args[0], scope, f);
    }
}

// ---------------------------------------------------------------------------------------
// Atoms
// ---------------------------------------------------------------------------------------
/// `deref` gives what `atom` was given, as long as handles can count the cells.
pub proof fn deref_gives_initial_value(st: State, value: Value)
    requires
        st.cells.len() <= usize::MAX,
    ensures
        ({
            let made = stateful_value(st, Builtin::MakeAtom, seq![value]);
            &&& made.result is Ok
            &&& stateful_value(made.state, Builtin::Deref, seq![made.result->Ok_0]) == done(
                made.state,
                value,
            )
        }),
{
}

/// `deref` gives the value that `reset!` stored last.
pub proof fn deref_gives_last_value_stored(st: State, cell: Handle, value: Value)
    requires
        cell < st.cells.len(),
    ensures
        ({
            let stored = stateful_value(st, Builtin::Reset, seq![Value::Atom(cell), value]);
            &&& stored.result == Ok::<Value, crate::evaluator::Failure>(value)
            &&& stateful_value(stored.state, Builtin::Deref, seq![Value::Atom(cell)]) == done(
                stored.state,
                value,
            )
        }),
{
}

/// `(swap! a f x ..)` returns what `(f (deref a) x ..)` returns, fails as it fails, and
/// what it returns is what `(deref a)` gives afterwards.
pub proof fn swap_stores_what_applying_gives(
    st: State,
    cell: Handle,
    callable: Value,
    extra: Seq<Value>,
    fuel: nat,
)
    requires
        cell < st.cells.len(),
        is_callable(callable),
        fuel > 0,
    ensures
        ({
            let held = st.cells[cell as int];
            let applying = apply_fully(st, callable, seq![held] + extra, (fuel - 1) as nat);
            let swapping = swap(st, seq![Value::Atom(cell), callable] + extra, fuel);
            &&& swapping.result == applying.result
            &&& applying.result matches Ok(value) ==> stateful_value(
                swapping.state,
                Builtin::Deref,
                seq![Value::Atom(cell)],
            ) == done(swapping.state, value)
        }),
{
    let args = seq![Value::Atom(cell), callable] + extra;
    assert(args.skip(2) =~= extra);
    apply_fully_extends(st, callable, seq![st.cells[cell as int]] + extra, (fuel - 1) as nat);
}


// ---------------------------------------------------------------------------------------
// Maps
// ---------------------------------------------------------------------------------------
/// Whether no key stands twice among the entries.
pub open spec fn keys_are_distinct<K>(entries: Seq<(K, Value)>) -> bool {
    forall|i: int, j: int|
        0 <= i < j < entries.len() ==> (#[trigger] entries[i]).0 != (#[trigger] entries[j]).0
}

/// Binding a key among entries with no key twice leaves no key twice.
pub proof fn binding_keeps_keys_distinct<K>(entries: Seq<(K, Value)>, key: K, value: Value)
    requires
        keys_are_distinct(entries),
    ensures
        keys_are_distinct(insert_entry(entries, key, value)),
{
    let after = insert_entry(entries, key, value);
    match find_key(entries, key, 0) {
        Some(at) => {
            find_key_is_first(entries, key, 0, at);
            assert forall|i: int, j: int| 0 <= i < j < after.len() implies (#[trigger] after[i]).0
                != (#[trigger] after[j]).0 by {
                assert(after[i].0 == entries[i].0);
                assert(after[j].0 == entries[j].0);
            }
        },
        None => {
            find_key_none(entries, key, 0);
            assert forall|i: int, j: int| 0 <= i < j < after.len() implies (#[trigger] after[i]).0
                != (#[trigger] after[j]).0 by {
                if j < entries.len() {
                    assert(after[i] == entries[i]);
                    assert(after[j] == entries[j]);
                } else {
                    assert(after[i] == entries[i]);
                    assert(entries[i].0 != key);
                }
            }
        },
    }
}

/// Taking a key away from entries with no key twice leaves no key twice, and leaves
/// nothing under the key.
pub proof fn removing_keeps_keys_distinct(entries: Seq<(Key, Value)>, key: Key, n: int)
    requires
        keys_are_distinct(entries),
        0 <= n <= entries.len(),
    ensures
        keys_are_distinct(remove_key(entries, key, n)),
        forall|i: int|
            0 <= i < remove_key(entries, key, n).len() ==> (#[trigger] remove_key(
                entries,
                key,
                n,
            )[i]).0 != key && exists|j: int|
                0 <= j < n && entries[j] == remove_key(entries, key, n)[i],
        lookup(remove_key(entries, key, n), key) is None,
    decreases n,
{
    let left = remove_key(entries, key, n);
    if n > 0 {
        removing_keeps_keys_distinct(entries, key, n - 1);
        let before = remove_key(entries, key, n - 1);
        let last = entries[n - 1];
        if last.0 != key {
            assert(left == before.push(last));
            assert forall|i: int| 0 <= i < left.len() implies (#[trigger] left[i]).0 != key
                && exists|j: int| 0 <= j < n && entries[j] == left[i] by {
                if i < before.len() {
                    assert(left[i] == before[i]);
                    let j = choose|j: int| 0 <= j < n - 1 && entries[j] == before[i];
                    assert(0 <= j < n && entries[j] == left[i]);
                } else {
                    assert(entries[n - 1] == left[i]);
                }
            }
            assert forall|i: int, j: int| 0 <= i < j < left.len() implies (#[trigger] left[i]).0
                != (#[trigger] left[j]).0 by {
                if j < before.len() {
                    assert(left[i] == before[i]);
                    assert(left[j] == before[j]);
                } else {
                    assert(left[i] == before[i]);
                    let m = choose|m: int| 0 <= m < n - 1 && entries[m] == before[i];
                    assert(entries[m].0 != entries[n - 1].0);
                }
            }
        }
    }
    assert forall|i: int| 0 <= i < left.len() implies (#[trigger] left[i]).0 != key by {}
    find_key_absent(left, key, 0);
}


// ---------------------------------------------------------------------------------------
// Truthiness
// ---------------------------------------------------------------------------------------
/// Zero, the empty string and the empty list count as true; nil and false do not.
pub proof fn what_counts_as_true()
    ensures
        is_truthy(Value::Integer(0)),
        is_truthy(Value::String(Seq::empty())),
        is_truthy(list_of(Seq::empty())),
        !is_truthy(Value::Nil),
        !is_truthy(Value::Bool(false)),
{
}

/// Truthiness: `if` goes on with its second argument for every value of its condition
/// but nil and false; for those it goes on with its third argument, or with nil where
/// there is none.
pub proof fn if_chooses_by_truthiness(st: State, args: Seq<Value>, scope: Handle, f: nat)
    requires
        2 <= args.len() <= 3,
        eval(st, args[0], scope, f).result is Ok,
    ensures
        ({
            let condition = eval(st, args[0], scope, f).result->Ok_0;
            semantics::apply_if(st, args, scope, f).result == Ok::<
                Value,
                crate::evaluator::Failure,
            >(
                if !(condition is Nil) && condition != Value::Bool(false) {
                    args[1]
                } else if args.len() == 3 {
                    args[2]
                } else {
                    Value::Nil
                },
            )
        }),
{
}

} // verus!
