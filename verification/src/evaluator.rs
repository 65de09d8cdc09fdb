//! The evaluator: a form and a frame of the environment to a value.

use crate::environment::{Environment, State, UnknownSymbol};
use crate::primitives;
use crate::primitives::returned;
use crate::reader;
use crate::reader::ReadFailure;
use crate::semantics;
use crate::semantics::{done, fail, in_handler, nest, nested, Applied, Step, Tried};
use crate::special_forms;
use crate::special_forms::{DefError, DoError, FnError, LetError, Special};
use crate::types::{
    map_of, view_entries, view_items, view_unfolds, Arity, BadArgCount, Builtin, Closure, Handle,
    HashKey, Key, MalInt, MalMap, MalObject, PrimitiveFnRef, TypeMismatch, Value,
};
use vstd::prelude::*;
use vstd::slice::slice_subrange;

verus! {

/// What an evaluation needs from the host before it can go on: the text of the file at a
/// path, or a line of input after showing a prompt.
#[derive(Debug)]
pub enum HostRequest {
    File(String),
    Line(String),
}

/// The mathematical view of a [`HostRequest`].
pub enum Request {
    File(Seq<char>),
    Line(Seq<char>),
}

impl View for HostRequest {
    type V = Request;

    open spec fn view(&self) -> Request {
        match self {
            HostRequest::File(path) => Request::File(path@),
            HostRequest::Line(prompt) => Request::Line(prompt@),
        }
    }
}

/// Why an evaluation gave no value.
#[derive(Debug)]
pub enum Error {
    UnknownSymbol(UnknownSymbol),
    ListHeadNotSymbol,
    Def(DefError),
    Let(LetError),
    Do(DoError),
    Fn(FnError),
    MissingCatchFromTry,
    InCatchHandler(ErrorDuringCatch),
    TypeMismatch(TypeMismatch),
    BadArgCount(BadArgCount),
    /// An index, and the range from the first number up to but without the second in
    /// which it does not lie.
    BadIndex(MalInt, usize, usize),
    DivideByZero,
    ReadError(reader::Error),
    /// The host could not read a file; the text says why.
    IOError(String),
    UserException(MalObject),
    /// The evaluation took more steps than the environment allows.
    StepLimit,
    /// The evaluation stopped where it needs something that the host has not supplied.
    HostRequest(HostRequest),
}

/// An error raised while the handler of an earlier one ran.
#[derive(Debug)]
pub struct ErrorDuringCatch {
    pub original: Box<Error>,
    pub after: Box<Error>,
}

/// The mathematical view of an [`Error`] of the evaluator.
pub enum Failure {
    UnknownSymbol(Seq<char>),
    ListHeadNotSymbol,
    Def(DefError),
    Let(LetError),
    Do(DoError),
    Fn(FnError),
    MissingCatchFromTry,
    /// The original error, and the one that its handler raised.
    InCatchHandler(Box<Failure>, Box<Failure>),
    TypeMismatch(TypeMismatch),
    BadArgCount(BadArgCount),
    BadIndex(MalInt, usize, usize),
    DivideByZero,
    ReadError(ReadFailure),
    IOError(Seq<char>),
    UserException(Value),
    StepLimit,
    HostRequest(Request),
}

/// The mathematical failure that an error stands for.
pub open spec fn failure_of(e: Error) -> Failure
    decreases e,
{
    match e {
        Error::UnknownSymbol(s) => Failure::UnknownSymbol(s.0@),
        Error::ListHeadNotSymbol => Failure::ListHeadNotSymbol,
        Error::Def(e) => Failure::Def(e),
        Error::Let(e) => Failure::Let(e),
        Error::Do(e) => Failure::Do(e),
        Error::Fn(e) => Failure::Fn(e),
        Error::MissingCatchFromTry => Failure::MissingCatchFromTry,
        Error::InCatchHandler(e) => Failure::InCatchHandler(
            Box::new(failure_of(*e.original)),
            Box::new(failure_of(*e.after)),
        ),
        Error::TypeMismatch(e) => Failure::TypeMismatch(e),
        Error::BadArgCount(e) => Failure::BadArgCount(e),
        Error::BadIndex(i, low, high) => Failure::BadIndex(i, low, high),
        Error::DivideByZero => Failure::DivideByZero,
        Error::ReadError(e) => Failure::ReadError(e@),
        Error::IOError(why) => Failure::IOError(why@),
        Error::UserException(v) => Failure::UserException(v@),
        Error::StepLimit => Failure::StepLimit,
        Error::HostRequest(r) => Failure::HostRequest(r@),
    }
}

impl View for Error {
    type V = Failure;

    open spec fn view(&self) -> Failure {
        failure_of(*self)
    }
}

/// Whether `try*` hands a failure to its handler. It does not for one that a handler
/// raised, for the step limit, nor for a request to the host.
pub open spec fn is_catchable(f: Failure) -> bool {
    !(f is InCatchHandler || f is StepLimit || f is HostRequest)
}

impl Error {
    /// Whether `try*` hands this error to its handler.
    pub fn catchable(&self) -> (r: bool)
        ensures
            r == is_catchable(self@),
    {
        match self {
            Error::InCatchHandler(_) | Error::StepLimit | Error::HostRequest(_) => false,
            _ => true,
        }
    }
}


/// A form and the frame to evaluate it in.
pub type EvalContext = (MalObject, Handle);

/// What applying a callable gives: a value, or a form to evaluate in a frame.
#[derive(Debug)]
pub enum ApplyOutcome {
    Finished(MalObject),
    EvaluateFurther(MalObject, Handle),
}

impl View for ApplyOutcome {
    type V = Applied;

    open spec fn view(&self) -> Applied {
        match self {
            ApplyOutcome::Finished(v) => Applied::Finished(v@),
            ApplyOutcome::EvaluateFurther(form, frame) => Applied::EvaluateFurther(form@, *frame),
        }
    }
}

/// What `try*` gives: a value, or for an error the handler to evaluate in a frame.
#[derive(Debug)]
pub enum TryOutcome {
    Finished(MalObject),
    Recover(Error, MalObject, Handle),
}

impl View for TryOutcome {
    type V = Tried;

    open spec fn view(&self) -> Tried {
        match self {
            TryOutcome::Finished(v) => Tried::Finished(v@),
            TryOutcome::Recover(original, handler, frame) => Tried::Recover(
                original@,
                handler@,
                *frame,
            ),
        }
    }
}

/// How the evaluation of a form goes on: it has its value; or its value is that of
/// another form in a frame; or that of a handler in a frame, for an error.
#[derive(Debug)]
pub enum Flow {
    Finished(MalObject),
    Continue(MalObject, Handle),
    Handle(Error, MalObject, Handle),
}

/// Whether code returned the result and left the state that the meaning asks for.
pub open spec fn evaluated(r: Result<MalObject, Error>, after: State, meant: Step<Value>) -> bool {
    after == meant.state && returned(r, meant.result)
}

/// What a way to go on comes to within `f` steps.
pub open spec fn flows_to(flow: Result<Flow, Error>, after: State, f: nat) -> Step<Value> {
    match flow {
        Err(e) => fail(after, e@),
        Ok(Flow::Finished(value)) => done(after, value@),
        Ok(Flow::Continue(form, frame)) => semantics::eval(after, form@, frame, f),
        Ok(Flow::Handle(original, handler, frame)) => in_handler(
            original@,
            semantics::eval(after, handler@, frame, f),
        ),
    }
}

/// The failures that a sequence of errors stands for.
pub open spec fn view_errors(errors: Seq<Error>) -> Seq<Failure> {
    Seq::new(errors.len(), |i: int| errors[i]@)
}

/// The error `e` as raised by the innermost of the handlers of `pending`.
fn finish(pending: Vec<Error>, e: Error) -> (r: Error)
    ensures
        r@ == nest(view_errors(pending@), pending.len() as int, e@),
{
    let ghost originals = view_errors(pending@);
    let ghost first = e@;
    let mut pending = pending;
    let mut e = e;
    while pending.len() > 0
        invariant
            pending.len() <= originals.len(),
            forall|i: int| 0 <= i < pending.len() ==> pending[i]@ == originals[i],
            nest(originals, pending.len() as int, e@) == nest(
                originals,
                originals.len() as int,
                first,
            ),
        decreases pending.len(),
    {
        let original = pending.pop().unwrap();
        e = Error::InCatchHandler(
            ErrorDuringCatch { original: Box::new(original), after: Box::new(e) },
        );
    }
    e
}

/// The value of a form in a frame, within `fuel` steps.
///
/// A form in tail position is evaluated by the loop, not by a call: the body of `let*`,
/// the last form of `do`, the branch of `if`, the body of a closure, what `quasiquote`
/// builds, and the handler of `try*`.
#[allow(non_snake_case)]
#[verifier::loop_isolation(false)]
pub fn EVAL(orig_ast: &MalObject, env: &mut Environment, orig_scope: Handle, fuel: usize) -> (r:
    Result<MalObject, Error>)
    ensures
        evaluated(r, final(env)@, semantics::eval(old(env)@, orig_ast@, orig_scope, fuel as nat)),
    decreases fuel, 0int, 0int,
{
    let ghost goal = semantics::eval(old(env)@, orig_ast@, orig_scope, fuel as nat);
    let mut ast = orig_ast.clone();
    let mut scope = orig_scope;
    let mut left = fuel;
    let mut pending: Vec<Error> = Vec::new();
    loop
        invariant
            left <= fuel,
            goal == nested(view_errors(pending@), semantics::eval(env@, ast@, scope, left as nat)),
        decreases left,
    {
        if left == 0 {
            return Err(finish(pending, Error::StepLimit));
        }
        left = left - 1;
        let form = match macroexpand(&ast, env, scope, left) {
            Ok(form) => form,
            Err(e) => {
                return Err(finish(pending, e));
            },
        };
        match eval_form(&form, env, scope, left) {
            Err(e) => {
                return Err(finish(pending, e));
            },
            Ok(Flow::Finished(value)) => {
                return Ok(value);
            },
            Ok(Flow::Continue(next, frame)) => {
                ast = next;
                scope = frame;
            },
            Ok(Flow::Handle(original, handler, frame)) => {
                proof {
                    semantics::nested_push(
                        view_errors(pending@),
                        original@,
                        semantics::eval(env@, handler@, frame, left as nat),
                    );
                    assert(view_errors(pending@.push(original)) =~= view_errors(pending@).push(
                        original@,
                    ));
                }
                pending.push(original);
                ast = handler;
                scope = frame;
            },
        }
    }
}

/// The special form that a head names.
pub fn special(head: &MalObject) -> (r: Option<Special>)
    ensures
        r == semantics::special_of(head@),
{
    match head {
        MalObject::Symbol(name) => {
            let name = name.0.as_str();
            if crate::text::same_text(name, "def!") {
                Some(Special::Def)
            } else if crate::text::same_text(name, "defmacro!") {
                Some(Special::Defmacro)
            } else if crate::text::same_text(name, "let*") {
                Some(Special::Let)
            } else if crate::text::same_text(name, "do") {
                Some(Special::Do)
            } else if crate::text::same_text(name, "if") {
                Some(Special::If)
            } else if crate::text::same_text(name, "fn*") {
                Some(Special::Fn)
            } else if crate::text::same_text(name, "quote") {
                Some(Special::Quote)
            } else if crate::text::same_text(name, "quasiquote") {
                Some(Special::Quasiquote)
            } else if crate::text::same_text(name, "macroexpand") {
                Some(Special::Macroexpand)
            } else if crate::text::same_text(name, "try*") {
                Some(Special::Try)
            } else {
                None
            }
        },
        _ => None,
    }
}

/// How the evaluation of a form that calls no macro goes on.
pub fn eval_form(form: &MalObject, env: &mut Environment, scope: Handle, fuel: usize) -> (flow:
    Result<Flow, Error>)
    ensures
        semantics::eval_form(old(env)@, form@, scope, fuel as nat) == flows_to(
            flow,
            final(env)@,
            fuel as nat,
        ),
    decreases fuel, 6int, 0int,
{
    proof {
        view_unfolds(*form);
    }
    let argv = match form {
        MalObject::List(argv) => &argv.payload,
        _ => {
            return match evaluate_ast(form, env, scope, fuel) {
                Ok(value) => Ok(Flow::Finished(value)),
                Err(e) => Err(e),
            };
        },
    };
    if argv.len() == 0 {
        return Ok(Flow::Finished(MalObject::new_list()));
    }
    let args = slice_subrange(argv.as_slice(), 1, argv.len());
    assert(view_items(args@) =~= view_items(argv@).skip(1));
    match special(&argv[0]) {
        Some(Special::Def) => match special_forms::apply_def(args, env, scope, false, fuel) {
            Ok(value) => Ok(Flow::Finished(value)),
            Err(e) => Err(e),
        },
        Some(Special::Defmacro) => match special_forms::apply_def(args, env, scope, true, fuel) {
            Ok(value) => Ok(Flow::Finished(value)),
            Err(e) => Err(e),
        },
        Some(Special::Let) => match special_forms::apply_let(args, env, scope, fuel) {
            Ok((body, child)) => Ok(Flow::Continue(body, child)),
            Err(e) => Err(e),
        },
        Some(Special::Do) => match special_forms::apply_do(args, env, scope, fuel) {
            Ok(last) => Ok(Flow::Continue(last, scope)),
            Err(e) => Err(e),
        },
        Some(Special::If) => match special_forms::apply_if(args, env, scope, fuel) {
            Ok(branch) => Ok(Flow::Continue(branch, scope)),
            Err(e) => Err(e),
        },
        Some(Special::Fn) => match special_forms::apply_fn(args, scope) {
            Ok(closure) => Ok(Flow::Finished(closure)),
            Err(e) => Err(e),
        },
        Some(Special::Quote) => match Arity::exactly(1).validate_for(args.len(), "quote") {
            Err(bad) => Err(Error::BadArgCount(bad)),
            Ok(_) => Ok(Flow::Finished(args[0].clone())),
        },
        Some(Special::Quasiquote) => match Arity::exactly(1).validate_for(
            args.len(),
            "quasiquote",
        ) {
            Err(bad) => Err(Error::BadArgCount(bad)),
            Ok(_) => match special_forms::apply_quasiquote(&args[0]) {
                Err(bad) => Err(Error::BadArgCount(bad)),
                Ok(built) => Ok(Flow::Continue(built, scope)),
            },
        },
        Some(Special::Macroexpand) => match Arity::exactly(1).validate_for(
            args.len(),
            "macroexpand",
        ) {
            Err(bad) => Err(Error::BadArgCount(bad)),
            Ok(_) => match macroexpand(&args[0], env, scope, fuel) {
                Ok(expanded) => Ok(Flow::Finished(expanded)),
                Err(e) => Err(e),
            },
        },
        Some(Special::Try) => match special_forms::apply_try(args, env, scope, fuel) {
            Ok(TryOutcome::Finished(value)) => Ok(Flow::Finished(value)),
            Ok(TryOutcome::Recover(original, handler, child)) => Ok(
                Flow::Handle(original, handler, child),
            ),
            Err(e) => Err(e),
        },
        None => {
            let evaluated = match evaluate_sequence_elementwise(argv.as_slice(), env, scope, fuel) {
                Ok(evaluated) => evaluated,
                Err(e) => {
                    return Err(e);
                },
            };
            let rest = slice_subrange(evaluated.as_slice(), 1, evaluated.len());
            assert(view_items(rest@) =~= view_items(evaluated@).skip(1));
            match apply(&evaluated[0], rest, env, fuel) {
                Ok(ApplyOutcome::Finished(value)) => Ok(Flow::Finished(value)),
                Ok(ApplyOutcome::EvaluateFurther(next, frame)) => Ok(Flow::Continue(next, frame)),
                Err(e) => Err(e),
            }
        },
    }
}

/// The value of applying a callable to arguments.
pub fn apply_fully(callable: &MalObject, args: &[MalObject], env: &mut Environment, fuel: usize)
    -> (r: Result<MalObject, Error>)
    ensures
        evaluated(
            r,
            final(env)@,
            semantics::apply_fully(old(env)@, callable@, view_items(args@), fuel as nat),
        ),
    decreases fuel, 4int, 0int,
{
    match apply(callable, args, env, fuel) {
        Ok(ApplyOutcome::Finished(obj)) => Ok(obj),
        Ok(ApplyOutcome::EvaluateFurther(ast, frame)) => EVAL(&ast, env, frame, fuel),
        Err(e) => Err(e),
    }
}

/// Whether code returned the outcome and left the state that the meaning asks for.
pub open spec fn applied(r: Result<ApplyOutcome, Error>, after: State, meant: Step<Applied>)
    -> bool {
    after == meant.state && match r {
        Ok(outcome) => meant.result == Ok::<Applied, Failure>(outcome@),
        Err(e) => meant.result == Err::<Applied, Failure>(e@),
    }
}

/// One step of applying a callable to arguments.
pub fn apply(callable: &MalObject, args: &[MalObject], env: &mut Environment, fuel: usize) -> (r:
    Result<ApplyOutcome, Error>)
    ensures
        applied(
            r,
            final(env)@,
            semantics::apply(old(env)@, callable@, view_items(args@), fuel as nat),
        ),
    decreases fuel, 3int, 0int,
{
    proof {
        view_unfolds(*callable);
    }
    match callable {
        MalObject::Primitive(f) => match call_primitive(f, args, env, fuel) {
            Ok(value) => Ok(ApplyOutcome::Finished(value)),
            Err(e) => Err(e),
        },
        MalObject::Closure(f) => {
            let ast = f.body.clone();
            match make_closure_env(f, args, env) {
                Ok(frame) => Ok(ApplyOutcome::EvaluateFurther(ast, frame)),
                Err(e) => Err(e),
            }
        },
        MalObject::Eval(bridge) => match Arity::exactly(1).validate_for(args.len(), "eval") {
            Err(bad) => Err(Error::BadArgCount(bad)),
            Ok(_) => Ok(ApplyOutcome::EvaluateFurther(args[0].clone(), bridge.env)),
        },
        _ => Err(Error::TypeMismatch(TypeMismatch::NotCallable)),
    }
}

/// The frame in which the body of a closure runs for some arguments.
#[verifier::loop_isolation(false)]
pub fn make_closure_env(func: &Closure, args: &[MalObject], env: &mut Environment) -> (r: Result<
    Handle,
    Error,
>)
    ensures
        final(env)@ == semantics::closure_frame(old(env)@, func@, view_items(args@)).state,
        match r {
            Ok(frame) => semantics::closure_frame(old(env)@, func@, view_items(args@)).result
                == Ok::<Handle, Failure>(frame),
            Err(e) => semantics::closure_frame(old(env)@, func@, view_items(args@)).result
                == Err::<Handle, Failure>(e@),
        },
{
    match func.parameters.arity().validate_for(args.len(), "closure") {
        Err(bad) => {
            return Err(Error::BadArgCount(bad));
        },
        Ok(_) => {},
    }
    let ghost before = env@;
    let ghost names = func@.parameters.positional;
    let ghost values = view_items(args@);
    let child = env.spawn_from(func.parent);
    let count = func.parameters.positional.len();
    let mut i: usize = 0;
    while i < count
        invariant
            i <= count,
            count == func.parameters.positional.len(),
            count <= args.len(),
            names == func@.parameters.positional,
            values == view_items(args@),
            env@ == semantics::bind_positional(
                before.spawn(func.parent),
                child,
                names,
                values,
                i as int,
            ),
        decreases count - i,
    {
        env.set_in(child, func.parameters.positional[i].clone(), args[i].clone());
        i += 1;
    }
    match &func.parameters.others {
        Some(rest_key) => {
            let rest = primitives::copy_items(args, count, args.len());
            assert(values.subrange(count as int, args.len() as int) =~= values.skip(count as int));
            env.set_in(child, rest_key.clone(), MalObject::wrap_list(rest));
        },
        None => {},
    }
    Ok(child)
}

/// The value of a form by its kind.
pub fn evaluate_ast(ast: &MalObject, env: &mut Environment, scope: Handle, fuel: usize) -> (r:
    Result<MalObject, Error>)
    ensures
        evaluated(r, final(env)@, semantics::evaluate_ast(old(env)@, ast@, scope, fuel as nat)),
    decreases fuel, 2int, 0int,
{
    proof {
        view_unfolds(*ast);
    }
    match ast {
        MalObject::Symbol(s) => match env.fetch(scope, s) {
            Ok(value) => Ok(value),
            Err(e) => Err(Error::UnknownSymbol(e)),
        },
        MalObject::List(list) => match evaluate_sequence_elementwise(
            list.payload.as_slice(),
            env,
            scope,
            fuel,
        ) {
            Ok(values) => Ok(MalObject::wrap_list(values)),
            Err(e) => Err(e),
        },
        MalObject::Vector(vec) => match evaluate_sequence_elementwise(
            vec.payload.as_slice(),
            env,
            scope,
            fuel,
        ) {
            Ok(values) => Ok(MalObject::wrap_vector(values)),
            Err(e) => Err(e),
        },
        MalObject::HashMap(map) => evaluate_map(map, env, scope, fuel),
        _ => Ok(ast.clone()),
    }
}

/// The map with its values evaluated, in order.
#[verifier::loop_isolation(false)]
pub fn evaluate_map(map: &MalMap, env: &mut Environment, scope: Handle, fuel: usize) -> (r: Result<
    MalObject,
    Error,
>)
    ensures
        final(env)@ == semantics::evaluate_entries(
            old(env)@,
            view_entries(map.payload@),
            scope,
            fuel as nat,
            map.payload.len() as int,
        ).state,
        match r {
            Ok(v) => semantics::evaluate_entries(
                old(env)@,
                view_entries(map.payload@),
                scope,
                fuel as nat,
                map.payload.len() as int,
            ).result matches Ok(entries) && v@ == map_of(entries),
            Err(e) => semantics::evaluate_entries(
                old(env)@,
                view_entries(map.payload@),
                scope,
                fuel as nat,
                map.payload.len() as int,
            ).result == Err::<Seq<(Key, Value)>, Failure>(e@),
        },
    decreases fuel, 1int, 1int,
{
    let ghost before = env@;
    let ghost entries = view_entries(map.payload@);
    let mut evaluated: Vec<(HashKey, MalObject)> = Vec::new();
    let mut i: usize = 0;
    assert(view_entries(evaluated@) =~= Seq::empty());
    while i < map.payload.len()
        invariant
            i <= map.payload.len(),
            entries == view_entries(map.payload@),
            semantics::evaluate_entries(before, entries, scope, fuel as nat, i as int) == done(
                env@,
                view_entries(evaluated@),
            ),
        decreases map.payload.len() - i,
    {
        match EVAL(&map.payload[i].1, env, scope, fuel) {
            Ok(new_value) => {
                let key = map.payload[i].0.clone();
                assert(view_entries(evaluated@.push((key, new_value))) =~= view_entries(
                    evaluated@,
                ).push((key@, new_value@)));
                evaluated.push((key, new_value));
            },
            Err(e) => {
                proof {
                    semantics::evaluate_entries_stops(
                        before,
                        entries,
                        scope,
                        fuel as nat,
                        i + 1,
                        map.payload.len() as int,
                    );
                }
                return Err(e);
            },
        }
        i += 1;
    }
    Ok(MalObject::wrap_map(evaluated))
}

/// The values of the first `count` forms, evaluated in order.
#[verifier::loop_isolation(false)]
pub fn evaluate_prefix(
    seq: &[MalObject],
    count: usize,
    env: &mut Environment,
    scope: Handle,
    fuel: usize,
) -> (r: Result<Vec<MalObject>, Error>)
    requires
        count <= seq.len(),
    ensures
        final(env)@ == semantics::evaluate_sequence(
            old(env)@,
            view_items(seq@),
            scope,
            fuel as nat,
            count as int,
        ).state,
        match r {
            Ok(values) => semantics::evaluate_sequence(
                old(env)@,
                view_items(seq@),
                scope,
                fuel as nat,
                count as int,
            ).result == Ok::<Seq<Value>, Failure>(view_items(values@)),
            Err(e) => semantics::evaluate_sequence(
                old(env)@,
                view_items(seq@),
                scope,
                fuel as nat,
                count as int,
            ).result == Err::<Seq<Value>, Failure>(e@),
        },
    decreases fuel, 1int, 1int,
{
    let ghost before = env@;
    let ghost forms = view_items(seq@);
    let mut values: Vec<MalObject> = Vec::new();
    let mut i: usize = 0;
    assert(view_items(values@) =~= Seq::empty());
    while i < count
        invariant
            i <= count <= seq.len(),
            forms == view_items(seq@),
            semantics::evaluate_sequence(before, forms, scope, fuel as nat, i as int) == done(
                env@,
                view_items(values@),
            ),
        decreases count - i,
    {
        match EVAL(&seq[i], env, scope, fuel) {
            Ok(value) => {
                proof {
                    primitives::view_items_push(values@, value);
                }
                values.push(value);
            },
            Err(e) => {
                proof {
                    semantics::evaluate_sequence_stops(
                        before,
                        forms,
                        scope,
                        fuel as nat,
                        i + 1,
                        count as int,
                    );
                }
                return Err(e);
            },
        }
        i += 1;
    }
    Ok(values)
}

/// The values of the forms, evaluated in order.
pub fn evaluate_sequence_elementwise(
    seq: &[MalObject],
    env: &mut Environment,
    scope: Handle,
    fuel: usize,
) -> (r: Result<Vec<MalObject>, Error>)
    ensures
        final(env)@ == semantics::evaluate_sequence(
            old(env)@,
            view_items(seq@),
            scope,
            fuel as nat,
            seq.len() as int,
        ).state,
        match r {
            Ok(values) => semantics::evaluate_sequence(
                old(env)@,
                view_items(seq@),
                scope,
                fuel as nat,
                seq.len() as int,
            ).result == Ok::<Seq<Value>, Failure>(view_items(values@)),
            Err(e) => semantics::evaluate_sequence(
                old(env)@,
                view_items(seq@),
                scope,
                fuel as nat,
                seq.len() as int,
            ).result == Err::<Seq<Value>, Failure>(e@),
        },
    decreases fuel, 1int, 2int,
{
    evaluate_prefix(seq, seq.len(), env, scope, fuel)
}

/// The macro that a form calls, if it calls one.
pub fn is_macro_call(ast: &MalObject, env: &Environment, scope: Handle) -> (r: Option<MalObject>)
    ensures
        match r {
            Some(m) => semantics::macro_of(env@, ast@, scope) == Some(m@),
            None => semantics::macro_of(env@, ast@, scope) is None,
        },
{
    proof {
        view_unfolds(*ast);
    }
    let list = match ast {
        MalObject::List(list) => &list.payload,
        _ => {
            return None;
        },
    };
    if list.len() == 0 {
        return None;
    }
    proof {
        view_unfolds(list@[0]);
    }
    let symbol = match &list[0] {
        MalObject::Symbol(symbol) => symbol,
        _ => {
            return None;
        },
    };
    match env.get_from(scope, symbol) {
        Some(value) => {
            if value.is_macro() {
                Some(value)
            } else {
                None
            }
        },
        None => None,
    }
}

/// The form that is left when macros have been expanded.
#[verifier::loop_isolation(false)]
pub fn macroexpand(ast: &MalObject, env: &mut Environment, scope: Handle, fuel: usize) -> (r:
    Result<MalObject, Error>)
    ensures
        evaluated(r, final(env)@, semantics::macroexpand(old(env)@, ast@, scope, fuel as nat)),
    decreases fuel, 5int, 0int,
{
    let ghost goal = semantics::macroexpand(old(env)@, ast@, scope, fuel as nat);
    let mut form = ast.clone();
    let mut left = fuel;
    loop
        invariant
            left <= fuel,
            goal == semantics::macroexpand(env@, form@, scope, left as nat),
        decreases left,
    {
        let closure = match is_macro_call(&form, env, scope) {
            Some(closure) => closure,
            None => {
                return Ok(form);
            },
        };
        if left == 0 {
            return Err(Error::StepLimit);
        }
        left = left - 1;
        proof {
            view_unfolds(form);
        }
        let expanded = match &form {
            MalObject::List(list) => {
                let args = slice_subrange(list.payload.as_slice(), 1, list.payload.len());
                assert(view_items(args@) =~= semantics::macro_args(form@));
                apply_fully(&closure, args, env, left)
            },
            _ => Ok(MalObject::Nil),
        };
        match expanded {
            Ok(expanded) => {
                form = expanded;
            },
            Err(e) => {
                return Err(e);
            },
        }
    }
}

/// The value of a built-in operation on arguments.
pub fn call_primitive(
    func: &PrimitiveFnRef,
    args: &[MalObject],
    env: &mut Environment,
    fuel: usize,
) -> (r: Result<MalObject, Error>)
    ensures
        evaluated(
            r,
            final(env)@,
            semantics::call_primitive(old(env)@, func.payload.op, view_items(args@), fuel as nat),
        ),
    decreases fuel, 2int, 0int,
{
    let op = func.payload.op;
    match op.arity().validate_for(args.len(), op.name()) {
        Err(bad) => {
            return Err(Error::BadArgCount(bad));
        },
        Ok(_) => {},
    }
    match op {
        Builtin::Swap => swap_(args, env, fuel),
        Builtin::Apply => apply_(args, env, fuel),
        Builtin::MapOver => map_(args, env, fuel),
        _ => primitives::call(op, args, env),
    }
}

/// `swap!`.
fn swap_(swap_args: &[MalObject], env: &mut Environment, fuel: usize) -> (r: Result<
    MalObject,
    Error,
>)
    requires
        swap_args.len() >= 2,
    ensures
        evaluated(r, final(env)@, semantics::swap(old(env)@, view_items(swap_args@), fuel as nat)),
    decreases fuel, 1int, 0int,
{
    let atom = match swap_args[0].as_atom() {
        Ok(atom) => *atom,
        Err(e) => {
            return Err(Error::TypeMismatch(e));
        },
    };
    let f = &swap_args[1];
    if !crate::types::callable(f) {
        return Err(Error::TypeMismatch(TypeMismatch::NotCallable));
    }
    let held = match atom.clone_payload(env) {
        Some(held) => held,
        None => {
            return Err(Error::TypeMismatch(TypeMismatch::NotAnAtom));
        },
    };
    if fuel == 0 {
        return Err(Error::StepLimit);
    }
    let mut args: Vec<MalObject> = Vec::new();
    args.push(held);
    assert(view_items(args@) =~= seq![held@]);
    primitives::extend_items(&mut args, swap_args, 2);
    let obj = match apply_fully(f, args.as_slice(), env, fuel - 1) {
        Ok(obj) => obj,
        Err(e) => {
            return Err(e);
        },
    };
    atom.replace(&obj, env);
    Ok(obj)
}

/// `apply`: the first argument applied to the others, the last of which is a sequence
/// whose elements are arguments each.
fn apply_(args: &[MalObject], env: &mut Environment, fuel: usize) -> (r: Result<
    MalObject,
    Error,
>)
    requires
        args.len() >= 2,
    ensures
        evaluated(
            r,
            final(env)@,
            semantics::apply_value(old(env)@, view_items(args@), fuel as nat),
        ),
    decreases fuel, 1int, 0int,
{
    let last = match args[args.len() - 1].as_seq() {
        Ok(last) => last,
        Err(e) => {
            return Err(Error::TypeMismatch(e));
        },
    };
    if fuel == 0 {
        return Err(Error::StepLimit);
    }
    let mut concatenated = primitives::copy_items(args, 1, args.len() - 1);
    primitives::extend_items(&mut concatenated, last.as_slice(), 0);
    assert(view_items(last@).skip(0) =~= view_items(last@));
    apply_fully(&args[0], concatenated.as_slice(), env, fuel - 1)
}

/// `map`: the list of the values of the first argument applied to each element of the
/// second.
#[verifier::loop_isolation(false)]
fn map_(args: &[MalObject], env: &mut Environment, fuel: usize) -> (r: Result<MalObject, Error>)
    requires
        args.len() == 2,
    ensures
        evaluated(
            r,
            final(env)@,
            semantics::map_value(old(env)@, view_items(args@), fuel as nat),
        ),
    decreases fuel, 1int, 3int,
{
    let ghost before = env@;
    let items = match args[1].as_seq() {
        Ok(items) => items,
        Err(e) => {
            return Err(Error::TypeMismatch(e));
        },
    };
    let ghost spec_items = view_items(items@);
    let mut result: Vec<MalObject> = Vec::new();
    let mut i: usize = 0;
    assert(view_items(result@) =~= Seq::empty());
    while i < items.len()
        invariant
            i <= items.len(),
            args.len() == 2,
            spec_items == view_items(items@),
            semantics::map_over(before, args@[0]@, spec_items, fuel as nat, i as int) == done(
                env@,
                view_items(result@),
            ),
        decreases items.len() - i,
    {
        if fuel == 0 {
            proof {
                semantics::map_over_stops(
                    before,
                    args@[0]@,
                    spec_items,
                    fuel as nat,
                    i + 1,
                    items.len() as int,
                );
            }
            return Err(Error::StepLimit);
        }
        let one = slice_subrange(items.as_slice(), i, i + 1);
        assert(view_items(one@) =~= seq![spec_items[i as int]]);
        match apply_fully(&args[0], one, env, fuel - 1) {
            Ok(value) => {
                proof {
                    primitives::view_items_push(result@, value);
                }
                result.push(value);
            },
            Err(e) => {
                proof {
                    semantics::map_over_stops(
                        before,
                        args@[0]@,
                        spec_items,
                        fuel as nat,
                        i + 1,
                        items.len() as int,
                    );
                }
                return Err(e);
            },
        }
        i += 1;
    }
    Ok(MalObject::wrap_list(result))
}


/// What a failure waits for from the host: the request that it is, or that the last of
/// its handlers raised.
pub open spec fn pending_request(f: Failure) -> Option<Request>
    decreases f,
{
    match f {
        Failure::HostRequest(r) => Some(r),
        Failure::InCatchHandler(_, after) => pending_request(*after),
        _ => None,
    }
}

impl Error {
    /// What the error waits for from the host, if it waits for anything.
    pub fn pending(&self) -> (r: Option<&HostRequest>)
        ensures
            match r {
                Some(request) => pending_request(self@) == Some(request@),
                None => pending_request(self@) is None,
            },
        decreases self,
    {
        match self {
            Error::HostRequest(r) => Some(r),
            Error::InCatchHandler(e) => e.after.pending(),
            _ => None,
        }
    }
}

impl Clone for HostRequest {
    fn clone(&self) -> (r: Self)
        ensures
            r@ == self@,
    {
        match self {
            HostRequest::File(path) => HostRequest::File(path.clone()),
            HostRequest::Line(prompt) => HostRequest::Line(prompt.clone()),
        }
    }
}

} // verus!
