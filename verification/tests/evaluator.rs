use rust_dmr_mal::environment::{add_eval, read_prelude, Environment};
use rust_dmr_mal::evaluator::{
    call_primitive, evaluate_sequence_elementwise, Error, HostRequest, EVAL,
};
use rust_dmr_mal::interpreter::{self, rep};
use rust_dmr_mal::printer::Outcome;
use rust_dmr_mal::reader::read_str;
use rust_dmr_mal::special_forms::{
    apply_def, apply_do, apply_fn, apply_if, apply_let, apply_quasiquote, apply_try, DefError,
    DoError, FnError, LetError,
};
use rust_dmr_mal::types::{
    BadClosureParameters, Builtin, MalObject, MalSymbol, PrimitiveFn, PrimitiveFnRef, TypeMismatch,
};

fn start() -> Environment {
    let mut env = Environment::default();
    read_prelude(&mut env).expect("the prelude evaluates");
    add_eval(&mut env);
    env
}

fn show(env: &mut Environment, line: &str) -> String {
    match rep(line, env) {
        Ok(Outcome::String(text)) => text,
        Ok(Outcome::Empty) => String::new(),
        Err(text) => panic!("{} failed: {}", line, text),
    }
}

fn error(env: &mut Environment, line: &str) -> Error {
    let ast = read_str(line).expect("the line reads");
    EVAL(&ast, env, 0, 100000).expect_err("the line fails")
}

fn forms(source: &str) -> Vec<MalObject> {
    read_str(source)
        .expect("the text reads")
        .as_seq()
        .expect("the text is a sequence")
        .clone()
}

#[test]
fn malformed_special_forms_are_refused() {
    let mut env = start();
    assert!(matches!(error(&mut env, "(def! a)"), Error::Def(DefError::WrongArgCount(1))));
    assert!(matches!(error(&mut env, "(def! 1 2)"), Error::Def(DefError::KeyNotASymbol)));
    assert!(matches!(error(&mut env, "(defmacro! m 1)"), Error::TypeMismatch(TypeMismatch::NotAClosure)));
    assert!(matches!(error(&mut env, "(let* (a 1))"), Error::Let(LetError::WrongArgCount(1))));
    assert!(matches!(error(&mut env, "(let* 1 2)"), Error::Let(LetError::BindingsNotSequence)));
    assert!(matches!(error(&mut env, "(let* (a) a)"), Error::Let(LetError::BindingsOddLength)));
    assert!(matches!(error(&mut env, "(let* (1 2) 3)"), Error::Let(LetError::BindToNonSymbol)));
    assert!(matches!(error(&mut env, "(do)"), Error::Do(DoError::NothingToDo)));
    assert!(matches!(error(&mut env, "(fn* (a))"), Error::Fn(FnError::WrongArgCount(1))));
    assert!(matches!(error(&mut env, "(fn* 1 2)"), Error::Fn(FnError::ParametersNotGivenAsList)));
    assert!(matches!(error(&mut env, "(fn* (1) 2)"), Error::Fn(FnError::ParameterNotASymbol)));
    assert!(matches!(
        error(&mut env, "(fn* (& a b) 2)"),
        Error::Fn(FnError::BadVariadic(BadClosureParameters::AmpersandPositionNotPenultimate))
    ));
    assert!(matches!(error(&mut env, "(try* 1 (finally* e 2))"), Error::MissingCatchFromTry));
    assert!(matches!(error(&mut env, "(try* 1 2)"), Error::TypeMismatch(TypeMismatch::NotAList)));
    assert!(matches!(error(&mut env, "(try* 1 (catch* 2 3))"), Error::TypeMismatch(TypeMismatch::NotASymbol)));
    assert!(matches!(error(&mut env, "(if 1)"), Error::BadArgCount(_)));
    assert!(matches!(error(&mut env, "(quote)"), Error::BadArgCount(_)));
    assert!(matches!(error(&mut env, "(quasiquote 1 2)"), Error::BadArgCount(_)));
    assert!(matches!(error(&mut env, "(macroexpand)"), Error::BadArgCount(_)));
    assert!(matches!(error(&mut env, "(try*)"), Error::BadArgCount(_)));
    assert!(matches!(error(&mut env, "`(unquote 1 2)"), Error::BadArgCount(_)));
}

#[test]
fn evaluation_errors_have_texts() {
    let mut env = start();
    for (line, text) in [
        ("(def! a)", "def!: WrongArgCount(1)"),
        ("(def! 1 2)", "def!: KeyNotASymbol"),
        ("(let* (a) a)", "let*: BindingsOddLength"),
        ("(do)", "do: NothingToDo"),
        ("(fn* (& a b) 2)", "fn*: BadVariadic(AmpersandPositionNotPenultimate)"),
        ("(fn* (& & b) 2)", "fn*: BadVariadic(TooManyAmpersands(2))"),
        ("(try* 1 (c e 2))", "bad syntax: missing catch* from try*"),
        ("(+ 1 \"a\")", "type mismatch: NotAnInt"),
        ("(if)", "When evaluating if expected from 2 to 3 arguments, but received 0 arguments"),
        ("(swap! 1)", "When evaluating swap! expected At least 2 arguments, but received 1 arguments"),
        ("(hash-map 1)", "When evaluating hash-map expected any even number, including zero arguments, but received 1 arguments"),
        ("(assoc {} 1)", "When evaluating assoc expected any odd number arguments, but received 2 arguments"),
        ("((fn* (a) a))", "When evaluating closure expected exactly 1 arguments, but received 0 arguments"),
        ("(eval 1 2)", "When evaluating eval expected exactly 1 arguments, but received 2 arguments"),
        ("(nth [1] -1)", "bad index: -1 not in range [0, 1)"),
        ("(read-string \"(\")", "read error: Read error: unbalanced sequence: list or vector missing a closing bracket."),
        ("(throw {:a 1})", "UserException: {:a 1}"),
        ("(throw \"s\")", "UserException: \"s\""),
    ] {
        assert_eq!(error(&mut env, line).message(&env), text);
    }
}

#[test]
fn primitives_check_the_kinds_of_their_arguments() {
    let mut env = start();
    for (line, kind) in [
        ("(+ 1 nil)", TypeMismatch::NotAnInt),
        ("(< 1 \"2\")", TypeMismatch::NotAnInt),
        ("(empty? 1)", TypeMismatch::NotASequence),
        ("(count 1)", TypeMismatch::NotASequence),
        ("(cons 1 2)", TypeMismatch::NotASequence),
        ("(concat [1] 2)", TypeMismatch::NotASequence),
        ("(nth 1 2)", TypeMismatch::NotASequence),
        ("(nth [1] :a)", TypeMismatch::NotAnInt),
        ("(first 1)", TypeMismatch::NotASequence),
        ("(rest 1)", TypeMismatch::NotASequence),
        ("(seq 1)", TypeMismatch::NotASequence),
        ("(conj 1 2)", TypeMismatch::NotASequence),
        ("(apply + 1)", TypeMismatch::NotASequence),
        ("(map + 1)", TypeMismatch::NotASequence),
        ("(symbol 1)", TypeMismatch::NotAString),
        ("(keyword 1)", TypeMismatch::NotIntoKeyword),
        ("(read-string 1)", TypeMismatch::NotAString),
        ("(slurp 1)", TypeMismatch::NotAString),
        ("(readline 1)", TypeMismatch::NotAString),
        ("(deref 1)", TypeMismatch::NotAnAtom),
        ("(reset! 1 2)", TypeMismatch::NotAnAtom),
        ("(swap! 1 +)", TypeMismatch::NotAnAtom),
        ("(swap! (atom 1) 2)", TypeMismatch::NotCallable),
        ("(hash-map 1 2)", TypeMismatch::NotAValidKey),
        ("(assoc {} 1 2)", TypeMismatch::NotAValidKey),
        ("(assoc 1 :a 2)", TypeMismatch::NotAMap),
        ("(dissoc {} 1)", TypeMismatch::NotAValidKey),
        ("(dissoc 1)", TypeMismatch::NotAMap),
        ("(get {} 1)", TypeMismatch::NotAValidKey),
        ("(get 1 :a)", TypeMismatch::NotAMap),
        ("(contains? nil :a)", TypeMismatch::NotAMap),
        ("(keys 1)", TypeMismatch::NotAMap),
        ("(vals 1)", TypeMismatch::NotAMap),
        ("(\"f\" 1)", TypeMismatch::NotCallable),
    ] {
        match error(&mut env, line) {
            Error::TypeMismatch(found) => assert_eq!(found, kind, "{}", line),
            other => panic!("{} gave {:?}", line, other),
        }
    }
}

#[test]
fn arithmetic_wraps() {
    let mut env = start();
    let max = isize::MAX;
    let min = isize::MIN;
    assert_eq!(show(&mut env, &format!("(+ {} 1)", max)), min.to_string());
    assert_eq!(show(&mut env, &format!("(- {} 1)", min)), max.to_string());
    assert_eq!(show(&mut env, &format!("(* {} 2)", max)), "-2");
    assert_eq!(show(&mut env, &format!("(/ {} -1)", min)), min.to_string());
    assert_eq!(show(&mut env, "(+)"), "0");
    assert_eq!(show(&mut env, "(*)"), "1");
    assert_eq!(show(&mut env, "(+ 1 2 3 4)"), "10");
    assert_eq!(show(&mut env, "(* 2 3 4)"), "24");
    assert_eq!(show(&mut env, "(- 2 5)"), "-3");
    assert_eq!(show(&mut env, "(/ 7 2)"), "3");
    assert_eq!(show(&mut env, "(/ 7 -2)"), "-3");
    assert_eq!(show(&mut env, "(/ -7 -2)"), "3");
    assert_eq!(show(&mut env, "(list (< 1 2) (<= 2 2) (> 1 2) (>= 1 2))"), "(true true false false)");
}

#[test]
fn tests_of_kind() {
    let mut env = start();
    assert_eq!(
        show(
            &mut env,
            "(list (nil? nil) (true? true) (false? false) (true? 1) (false? nil) (symbol? 'a) (keyword? :a) (string? \"a\") (number? 1) (list? '()) (vector? []) (map? {}) (sequential? []) (atom? (atom 1)) (fn? +) (fn? not) (fn? cond) (macro? cond) (macro? not) (fn? eval))"
        ),
        "(true true true false false true true true true true true true true true true true false true false true)"
    );
    assert_eq!(show(&mut env, "(list (symbol \"s\") (keyword \"k\") (keyword :k))"), "(s :k :k)");
    assert_eq!(show(&mut env, "(list (empty? ()) (empty? [1]) (count [1 2]))"), "(true false 2)");
    assert_eq!(show(&mut env, "(= (atom 1) (atom 1))"), "false");
    assert_eq!(show(&mut env, "(let* (a (atom 1)) (= a a))"), "true");
    assert_eq!(show(&mut env, "(list (= + +) (= not not) (= 1 \"1\") (= :a \"a\") (= nil false))"), "(false false false false false)");
}

#[test]
fn special_forms_hand_back_what_is_to_be_evaluated() {
    let mut env = start();
    let args = forms("(false (undefined) (+ 1 2))");
    let branch = apply_if(&args, &mut env, 0, 100).expect("if chooses");
    assert_eq!(branch, read_str("(+ 1 2)").unwrap());
    let args = forms("(1 (undefined))");
    let branch = apply_if(&args, &mut env, 0, 100).expect("if chooses");
    assert_eq!(branch, read_str("(undefined)").unwrap());
    let args = forms("((def! x 5) (undefined))");
    let last = apply_do(&args, &mut env, 0, 100).expect("do evaluates all but the last");
    assert_eq!(last, read_str("(undefined)").unwrap());
    assert_eq!(env.get(&MalSymbol("x".to_string())), Some(MalObject::Integer(5)));
    let args = forms("((a 1 b (+ a 1)) (undefined))");
    let frames = env.frames.len();
    let (body, child) = apply_let(&args, &mut env, 0, 100).expect("let binds");
    assert_eq!(body, read_str("(undefined)").unwrap());
    assert_eq!(child, frames);
    assert_eq!(env.get_from(child, &MalSymbol("b".to_string())), Some(MalObject::Integer(2)));
    assert_eq!(env.get(&MalSymbol("b".to_string())), None);
}

#[test]
fn def_binds_in_the_frame_it_is_given() {
    let mut env = start();
    let child = env.spawn_from(0);
    let args = forms("(y (+ 1 1))");
    let value = apply_def(&args, &mut env, child, false, 100).expect("def! binds");
    assert_eq!(value, MalObject::Integer(2));
    assert_eq!(env.get_from(child, &MalSymbol("y".to_string())), Some(MalObject::Integer(2)));
    assert_eq!(env.get(&MalSymbol("y".to_string())), None);
}

#[test]
fn fn_makes_a_closure_of_the_frame() {
    let args = forms("((a & more) (list a more))");
    match apply_fn(&args, 3).expect("fn* makes a closure") {
        MalObject::Closure(closure) => {
            assert_eq!(closure.parent, 3);
            assert!(!closure.is_macro);
            assert_eq!(closure.parameters.positional, vec![MalSymbol("a".to_string())]);
            assert_eq!(closure.parameters.others, Some(MalSymbol("more".to_string())));
            assert_eq!(closure.body, read_str("(list a more)").unwrap());
        }
        other => panic!("unexpected {:?}", other),
    }
    let mut env = start();
    assert_eq!(show(&mut env, "((fn* (a & more) (list a more)) 1 2 3)"), "(1 (2 3))");
    assert_eq!(show(&mut env, "((fn* (a & more) (list a more)) 1)"), "(1 ())");
}

#[test]
fn quasiquote_rewrites() {
    let env = Environment::empty();
    let text = |source: &str| {
        rust_dmr_mal::printer::pr_str(
            &apply_quasiquote(&read_str(source).unwrap()).expect("the form rewrites"),
            rust_dmr_mal::printer::PrintMode::ReadableRepresentation,
            &env,
        )
    };
    assert_eq!(text("a"), "(quote a)");
    assert_eq!(text("7"), "(quote 7)");
    assert_eq!(text("()"), "()");
    assert_eq!(text("(unquote a)"), "a");
    assert_eq!(text("(a b)"), "(cons (quote a) (cons (quote b) ()))");
    assert_eq!(text("(a (unquote b))"), "(cons (quote a) (cons b ()))");
    assert_eq!(text("(a unquote b)"), "(cons (quote a) b)");
    assert_eq!(text("((splice-unquote a) b)"), "(concat a (cons (quote b) ()))");
    assert_eq!(text("[a]"), "(cons (quote a) ())");
    let bad = apply_quasiquote(&read_str("((splice-unquote))").unwrap()).unwrap_err();
    assert_eq!(bad.name, "splice-unquote argument");
    let bad = apply_quasiquote(&read_str("(unquote)").unwrap()).unwrap_err();
    assert_eq!(bad.name, "unquote");
    assert_eq!(bad.got, 1);
}

#[test]
fn try_hands_back_the_handler() {
    let mut env = start();
    let args = forms("((throw 5) (catch* e (undefined e)))");
    let frames = env.frames.len();
    match apply_try(&args, &mut env, 0, 100).expect("try* recovers") {
        rust_dmr_mal::evaluator::TryOutcome::Recover(original, handler, child) => {
            assert!(matches!(original, Error::UserException(MalObject::Integer(5))));
            assert_eq!(handler, read_str("(undefined e)").unwrap());
            assert_eq!(child, frames);
            assert_eq!(env.get_from(child, &MalSymbol("e".to_string())), Some(MalObject::Integer(5)));
        }
        other => panic!("unexpected {:?}", other),
    }
    let args = forms("((throw 5))");
    assert!(matches!(
        apply_try(&args, &mut env, 0, 100),
        Err(Error::UserException(MalObject::Integer(5)))
    ));
}

#[test]
fn errors_of_macro_expansion_can_be_caught() {
    let mut env = start();
    show(&mut env, "(defmacro! bad (fn* () (throw :oops)))");
    assert_eq!(show(&mut env, "(try* (bad) (catch* e e))"), ":oops");
    assert_eq!(show(&mut env, "(try* (cond 1) (catch* e e))"), "\"odd number of forms to cond\"");
}

#[test]
fn the_error_of_a_handler_cannot_be_caught() {
    let mut env = start();
    match error(&mut env, "(try* (try* (throw 1) (catch* a (throw 2))) (catch* b 3))") {
        Error::InCatchHandler(both) => {
            assert!(matches!(*both.original, Error::UserException(MalObject::Integer(1))));
            assert!(matches!(*both.after, Error::UserException(MalObject::Integer(2))));
        }
        other => panic!("unexpected {:?}", other),
    }
}

#[test]
fn the_step_limit_counts_the_steps() {
    let mut env = start();
    let ast = read_str("(+ 1 (* 2 3))").unwrap();
    assert!(matches!(EVAL(&ast, &mut env, 0, 0), Err(Error::StepLimit)));
    assert!(matches!(EVAL(&ast, &mut env, 0, 2), Err(Error::StepLimit)));
    assert_eq!(EVAL(&ast, &mut env, 0, 3).unwrap(), MalObject::Integer(7));
    assert_eq!(EVAL(&MalObject::Integer(1), &mut env, 0, 1).unwrap(), MalObject::Integer(1));
}

#[test]
fn sequences_are_evaluated_in_order() {
    let mut env = start();
    let args = forms("((def! n 1) (def! n (+ n 1)) n (undefined) (def! n 100))");
    assert!(matches!(
        evaluate_sequence_elementwise(&args, &mut env, 0, 100),
        Err(Error::UnknownSymbol(_))
    ));
    assert_eq!(env.get(&MalSymbol("n".to_string())), Some(MalObject::Integer(2)));
    let args = forms("(1 (+ 1 1) [n])");
    let values = evaluate_sequence_elementwise(&args, &mut env, 0, 100).unwrap();
    assert_eq!(values, forms("(1 2 [2])"));
}

#[test]
fn primitives_are_called_after_their_arity_is_checked() {
    let mut env = start();
    let nth = PrimitiveFnRef { payload: PrimitiveFn { op: Builtin::Nth }, meta: Box::new(MalObject::Nil) };
    assert_eq!(
        call_primitive(&nth, &forms("([5 6] 1)"), &mut env, 10).unwrap(),
        MalObject::Integer(6)
    );
    match call_primitive(&nth, &forms("([5 6])"), &mut env, 10) {
        Err(Error::BadArgCount(bad)) => {
            assert_eq!(bad.name, "nth");
            assert_eq!(bad.got, 1);
        }
        other => panic!("unexpected {:?}", other),
    }
    assert!(matches!(
        call_primitive(&nth, &forms("([5 6] 2)"), &mut env, 10),
        Err(Error::BadIndex(2, 0, 2))
    ));
}

#[test]
fn the_host_supplies_files_lines_and_the_time() {
    let mut env = start();
    match error(&mut env, "(slurp \"notes.txt\")") {
        Error::HostRequest(HostRequest::File(path)) => assert_eq!(path, "notes.txt"),
        other => panic!("unexpected {:?}", other),
    }
    env.provide_file("notes.txt".to_string(), Ok("(+ 1 2)".to_string()));
    env.provide_file("gone.txt".to_string(), Err("no such file".to_string()));
    assert_eq!(show(&mut env, "(slurp \"notes.txt\")"), "\"(+ 1 2)\"");
    assert_eq!(show(&mut env, "(eval (read-string (slurp \"notes.txt\")))"), "3");
    assert_eq!(error(&mut env, "(slurp \"gone.txt\")").message(&env), "io error: no such file");
    assert_eq!(show(&mut env, "(try* (slurp \"gone.txt\") (catch* e e))"), "\"io error: no such file\"");

    match error(&mut env, "(readline \"> \")") {
        Error::HostRequest(HostRequest::Line(prompt)) => assert_eq!(prompt, "> "),
        other => panic!("unexpected {:?}", other),
    }
    env.provide_line(Some("typed".to_string()));
    env.provide_line(None);
    assert_eq!(show(&mut env, "(readline \"> \")"), "\"typed\"");
    assert_eq!(show(&mut env, "(readline \"> \")"), "nil");

    env.set_clock(1234);
    assert_eq!(show(&mut env, "(time-ms)"), "1234");
}

#[test]
fn a_request_to_the_host_cannot_be_caught() {
    let mut env = start();
    let e = error(&mut env, "(try* (slurp \"x\") (catch* e 1))");
    assert!(matches!(e.pending(), Some(HostRequest::File(_))));
    let e = error(&mut env, "(try* (throw 1) (catch* e (slurp \"x\")))");
    assert!(matches!(e, Error::InCatchHandler(_)));
    assert!(matches!(e.pending(), Some(HostRequest::File(_))));
    assert!(error(&mut env, "(throw 1)").pending().is_none());
    assert_eq!(
        error(&mut env, "(slurp \"x\")").message(&env),
        "waiting for the host to read the file x"
    );
}

#[test]
fn swap_sees_the_value_before_the_update() {
    let mut env = start();
    show(&mut env, "(def! a (atom 1))");
    assert_eq!(
        show(&mut env, "(swap! a (fn* (x) (do (reset! a 50) (+ x (deref a)))))"),
        "51"
    );
    assert_eq!(show(&mut env, "@a"), "51");
}

#[test]
fn load_file_evaluates_every_form() {
    let mut env = start();
    env.provide_file(
        "script.mal".to_string(),
        Ok("(def! one 1)\n; a comment\n(def! two (+ one 1))\n".to_string()),
    );
    assert_eq!(show(&mut env, "(load-file \"script.mal\")"), "nil");
    assert_eq!(show(&mut env, "(list one two)"), "(1 2)");
}

#[test]
fn interpreter_reads_and_evaluates_at_the_root() {
    let mut env = start();
    let ast = interpreter::READ("(def! z 9)").unwrap();
    assert_eq!(interpreter::EVAL(&ast, &mut env).unwrap(), MalObject::Integer(9));
    assert_eq!(env.get(&MalSymbol("z".to_string())), Some(MalObject::Integer(9)));
    assert!(matches!(interpreter::READ("("), Err(interpreter::Error::Read(_))));
    let ast = interpreter::READ("(zz)").unwrap();
    assert!(matches!(interpreter::EVAL(&ast, &mut env), Err(interpreter::Error::Eval(_))));
}

#[test]
fn more_steps_change_nothing() {
    for line in [
        "(+ 1 (* 2 3))",
        "(let* (a 1 b (+ a 2)) (* a b))",
        "(try* (nth (list 1 2) 5) (catch* e e))",
        "(cond false 1 true (swap! (atom 1) + 2))",
        "(undefined 1)",
    ] {
        let ast = read_str(line).unwrap();
        let mut fuel = 0;
        let first = loop {
            let mut env = start();
            match EVAL(&ast, &mut env, 0, fuel) {
                Err(e) if matches!(e, Error::StepLimit) => fuel += 1,
                other => break (other.map_err(|e| e.message(&env)), env.frames.len()),
            }
        };
        for more in [1, 7, 1000] {
            let mut env = start();
            let again = EVAL(&ast, &mut env, 0, fuel + more).map_err(|e| e.message(&env));
            assert_eq!((again, env.frames.len()), first, "{}", line);
        }
    }
}

#[test]
fn evaluation_takes_no_frame_and_no_cell_away() {
    let mut env = start();
    for line in [
        "(def! a (atom 1))",
        "((fn* (x) (let* (y x) (atom y))) 2)",
        "(try* (throw 1) (catch* e e))",
        "(undefined)",
    ] {
        let frames = env.frames.len();
        let cells = env.cells.len();
        let parents: Vec<Option<usize>> = env.frames.iter().map(|frame| frame.parent).collect();
        let _ = rep(line, &mut env);
        assert!(env.frames.len() >= frames);
        assert!(env.cells.len() >= cells);
        for (i, parent) in parents.iter().enumerate() {
            assert_eq!(env.frames[i].parent, *parent);
        }
    }
}
