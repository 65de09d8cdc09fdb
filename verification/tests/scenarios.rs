use rust_dmr_mal::environment::{add_eval, read_prelude, Environment};
use rust_dmr_mal::interpreter::rep;
use rust_dmr_mal::printer::Outcome;

fn start() -> Environment {
    let mut env = Environment::default();
    read_prelude(&mut env).expect("the prelude evaluates");
    add_eval(&mut env);
    env
}

fn show(env: &mut Environment, line: &str) -> String {
    match rep(line, env) {
        Ok(Outcome::String(text)) => text,
        Ok(Outcome::Empty) => String::new(),
        Err(text) => panic!("{} failed: {}", line, text),
    }
}

fn fails(env: &mut Environment, line: &str) -> String {
    match rep(line, env) {
        Ok(_) => panic!("{} did not fail", line),
        Err(text) => text,
    }
}

#[test]
fn arithmetic_and_let() {
    let mut env = start();
    assert_eq!(show(&mut env, "(+ 1 (* 2 3))"), "7");
    assert_eq!(show(&mut env, "(let* (a 1 b (+ a 2)) (* a b))"), "3");
}

#[test]
fn closures_and_tail_calls() {
    let mut env = start();
    assert_eq!(
        show(&mut env, "(def! count (fn* (n acc) (if (= n 0) acc (count (- n 1) (+ acc 1)))))"),
        "#<closure>"
    );
    assert_eq!(show(&mut env, "(count 10000 0)"), "10000");
}

#[test]
fn tail_calls_in_do_do_not_grow_the_stack() {
    let mut env = start();
    show(&mut env, "(def! down (fn* (n) (do 1 (if (= n 0) :done (down (- n 1))))))");
    assert_eq!(show(&mut env, "(down 10000)"), ":done");
}

#[test]
fn quasiquote_and_splice() {
    let mut env = start();
    assert_eq!(show(&mut env, "(def! xs (list 2 3))"), "(2 3)");
    assert_eq!(show(&mut env, "`(1 ~@xs 4)"), "(1 2 3 4)");
    assert_eq!(show(&mut env, "`(1 ~(+ 1 1) xs)"), "(1 2 xs)");
    assert_eq!(show(&mut env, "(quasiquote a)"), "a");
}

#[test]
fn macros_and_cond() {
    let mut env = start();
    assert_eq!(show(&mut env, "(cond false 1 false 2 true 3)"), "3");
    assert_eq!(show(&mut env, "(cond false 1)"), "nil");
    assert_eq!(
        fails(&mut env, "(cond true)"),
        "UserException: \"odd number of forms to cond\""
    );
}

#[test]
fn atoms() {
    let mut env = start();
    assert_eq!(show(&mut env, "(def! a (atom 10))"), "(atom 10)");
    assert_eq!(show(&mut env, "(swap! a (fn* (x) (+ x 5)))"), "15");
    assert_eq!(show(&mut env, "(deref a)"), "15");
    assert_eq!(show(&mut env, "@a"), "15");
    assert_eq!(show(&mut env, "(reset! a 3)"), "3");
    assert_eq!(show(&mut env, "(swap! a + 1 2)"), "6");
    assert_eq!(show(&mut env, "(deref a)"), "6");
}

#[test]
fn exceptions() {
    let mut env = start();
    assert_eq!(show(&mut env, "(try* (throw \"boom\") (catch* e e))"), "\"boom\"");
    assert_eq!(
        show(&mut env, "(try* (nth (list 1 2) 5) (catch* e e))"),
        "\"bad index: 5 not in range [0, 2)\""
    );
    assert_eq!(show(&mut env, "(try* (list 1 2))"), "(1 2)");
    assert_eq!(show(&mut env, "(try* 7 (catch* e 8))"), "7");
}

#[test]
fn truthiness() {
    let mut env = start();
    assert_eq!(show(&mut env, "(if 0 true false)"), "true");
    assert_eq!(show(&mut env, "(if \"\" true false)"), "true");
    assert_eq!(show(&mut env, "(if '() true false)"), "true");
    assert_eq!(show(&mut env, "(if nil true false)"), "false");
    assert_eq!(show(&mut env, "(if false true false)"), "false");
    assert_eq!(show(&mut env, "(if false 1)"), "nil");
}

#[test]
fn lexical_scoping() {
    let mut env = start();
    show(&mut env, "(def! x 1)");
    show(&mut env, "(def! f (fn* () x))");
    assert_eq!(show(&mut env, "(f)"), "1");
    show(&mut env, "(def! x 2)");
    assert_eq!(show(&mut env, "(f)"), "2");
    assert_eq!(show(&mut env, "(let* (x 3) (f))"), "2");
    assert_eq!(show(&mut env, "(((fn* (a) (fn* (b) (+ a b))) 5) 7)"), "12");
}

#[test]
fn macro_call_equals_its_expansion() {
    let mut env = start();
    show(&mut env, "(defmacro! unless (fn* (c a b) (list 'if c b a)))");
    assert_eq!(show(&mut env, "(macroexpand (unless false 1 2))"), "(if false 2 1)");
    assert_eq!(show(&mut env, "(unless false 1 2)"), "1");
    assert_eq!(show(&mut env, "(eval (macroexpand (unless false 1 2)))"), "1");
}

#[test]
fn error_in_handler_reports_both() {
    let mut env = start();
    assert_eq!(
        fails(&mut env, "(try* (throw 1) (catch* e (nth (list) 3)))"),
        "UserException: 1\nWhile handling the above exception, another exception occurred: bad index: 3 not in range [0, 0)"
    );
    assert_eq!(
        fails(
            &mut env,
            "(try* (try* (throw 1) (catch* e (throw 2))) (catch* f 3))"
        ),
        "UserException: 1\nWhile handling the above exception, another exception occurred: UserException: 2"
    );
}

#[test]
fn step_limit_stops_a_loop() {
    let mut env = start();
    env.set_step_limit(1000);
    show(&mut env, "(def! spin (fn* () (spin)))");
    assert_eq!(
        fails(&mut env, "(try* (spin) (catch* e 1))"),
        "the evaluation took more steps than the step limit allows"
    );
}

#[test]
fn comments_print_nothing() {
    let mut env = start();
    assert!(matches!(rep("; only a comment", &mut env), Ok(Outcome::Empty)));
    assert_eq!(show(&mut env, "1 ; a comment after a form"), "1");
}

#[test]
fn printing_and_reading() {
    let mut env = start();
    assert_eq!(show(&mut env, "(pr-str \"a\\nb\" :k 'sym [1 2] {\"x\" 1})"), "\"\\\"a\\\\nb\\\" :k sym [1 2] {\\\"x\\\" 1}\"");
    assert_eq!(show(&mut env, "(str \"a\" 1 :k)"), "\"a1:k\"");
    assert_eq!(show(&mut env, "(read-string \"(1 2 (3))\")"), "(1 2 (3))");
    assert_eq!(show(&mut env, "(prn 1 \"two\")"), "nil");
    assert_eq!(show(&mut env, "(println 1 \"two\")"), "nil");
    assert_eq!(env.take_output(), vec!["1 \"two\"".to_string(), "1 two".to_string()]);
    assert_eq!(show(&mut env, "-12"), "-12");
    assert_eq!(show(&mut env, "*host-language*"), "\"rust-dmr\"");
}

#[test]
fn sequences_and_maps() {
    let mut env = start();
    assert_eq!(show(&mut env, "(cons 1 [2 3])"), "(1 2 3)");
    assert_eq!(show(&mut env, "(concat [1] (list 2) [3 4])"), "(1 2 3 4)");
    assert_eq!(show(&mut env, "(conj (list 1 2) 3 4)"), "(4 3 1 2)");
    assert_eq!(show(&mut env, "(conj [1 2] 3 4)"), "[1 2 3 4]");
    assert_eq!(show(&mut env, "(first nil)"), "nil");
    assert_eq!(show(&mut env, "(rest nil)"), "()");
    assert_eq!(show(&mut env, "(rest [1 2 3])"), "(2 3)");
    assert_eq!(show(&mut env, "(nth [1 2 3] 2)"), "3");
    assert_eq!(show(&mut env, "(count nil)"), "0");
    assert_eq!(show(&mut env, "(seq \"ab\")"), "(\"a\" \"b\")");
    assert_eq!(show(&mut env, "(seq [])"), "nil");
    assert_eq!(show(&mut env, "(list? [1])"), "false");
    assert_eq!(show(&mut env, "(= (list 1 2) [1 2])"), "true");
    assert_eq!(show(&mut env, "(apply + 1 2 (list 3 4))"), "10");
    assert_eq!(show(&mut env, "(map (fn* (x) (* x x)) [1 2 3])"), "(1 4 9)");
    assert_eq!(show(&mut env, "(get (assoc {:a 1} :b 2 :a 3) :a)"), "3");
    assert_eq!(show(&mut env, "(get nil :a)"), "nil");
    assert_eq!(show(&mut env, "(contains? (dissoc {:a 1 :b 2} :a) :a)"), "false");
    assert_eq!(show(&mut env, "(= {:a 1 :b 2} {:b 2 :a 1})"), "true");
    assert_eq!(show(&mut env, "(keys (hash-map \"a\" 1))"), "(\"a\")");
    assert_eq!(show(&mut env, "(vals {:a 1})"), "(1)");
    assert_eq!(show(&mut env, "(/ -7 2)"), "-3");
    assert_eq!(fails(&mut env, "(/ 1 0)"), "cannot divide by zero!");
    assert_eq!(fails(&mut env, "(undefined-symbol)"), "'undefined-symbol' not found");
    assert_eq!(fails(&mut env, "(1 2)"), "type mismatch: NotCallable");
    assert_eq!(
        fails(&mut env, "(nth)"),
        "When evaluating nth expected exactly 2 arguments, but received 0 arguments"
    );
}

#[test]
fn closures_keep_the_frame_they_were_made_in() {
    let mut env = start();
    assert_eq!(show(&mut env, "(let* (x 1 f (fn* () x)) (f))"), "1");
    show(&mut env, "(def! make-adder (fn* (n) (fn* (m) (+ n m))))");
    show(&mut env, "(def! add5 (make-adder 5))");
    show(&mut env, "(def! n 100)");
    assert_eq!(show(&mut env, "(add5 2)"), "7");
    assert_eq!(show(&mut env, "(let* (n 1000) (add5 2))"), "7");
    assert_eq!(show(&mut env, "((fn* [a b] (- a b)) 5 3)"), "2");
}

#[test]
fn eval_evaluates_in_the_root_frame() {
    let mut env = start();
    assert_eq!(show(&mut env, "(eval (list + 1 2))"), "3");
    show(&mut env, "(def! x :root)");
    assert_eq!(show(&mut env, "(let* (x :inner) (eval 'x))"), ":root");
    assert_eq!(show(&mut env, "(let* (x :inner) (eval (list 'def! 'y 1)))"), "1");
    assert_eq!(show(&mut env, "y"), "1");
}

#[test]
fn variadic_functions_and_apply() {
    let mut env = start();
    assert_eq!(show(&mut env, "(apply (fn* (& more) (count more)) 1 2 [3])"), "3");
    assert_eq!(show(&mut env, "(apply list [])"), "()");
    assert_eq!(show(&mut env, "(map first [[1 2] [3]])"), "(1 3)");
    assert_eq!(show(&mut env, "(map (fn* (& xs) xs) ())"), "()");
    assert_eq!(show(&mut env, "(apply map (list list [1 2]))"), "((1) (2))");
}

#[test]
fn quoting() {
    let mut env = start();
    assert_eq!(show(&mut env, "'(+ 1 2)"), "(+ 1 2)");
    assert_eq!(show(&mut env, "(quote a)"), "a");
    assert_eq!(show(&mut env, "`[]"), "()");
    assert_eq!(show(&mut env, "`(a (b ~(+ 1 2)) ~@(list 4 5))"), "(a (b 3) 4 5)");
    assert_eq!(show(&mut env, "`~7"), "7");
    assert_eq!(show(&mut env, "[1 (+ 1 1) {:k (+ 1 2)}]"), "[1 2 {:k 3}]");
    assert_eq!(show(&mut env, "()"), "()");
}

#[test]
fn macros_take_their_arguments_unevaluated() {
    let mut env = start();
    show(&mut env, "(defmacro! twice (fn* (form) (list 'do form form)))");
    show(&mut env, "(def! n (atom 0))");
    assert_eq!(show(&mut env, "(twice (swap! n + 1))"), "2");
    assert_eq!(show(&mut env, "(macroexpand (twice (undefined)))"), "(do (undefined) (undefined))");
    assert_eq!(show(&mut env, "(macroexpand (cond a b c d))"), "(if a b (cond c d))");
    assert_eq!(show(&mut env, "(macroexpand 5)"), "5");
    show(&mut env, "(defmacro! one (fn* () '(two)))");
    show(&mut env, "(defmacro! two (fn* () 3))");
    assert_eq!(show(&mut env, "(macroexpand (one))"), "3");
    assert_eq!(show(&mut env, "(one)"), "3");
}

#[test]
fn do_and_let_evaluate_in_order() {
    let mut env = start();
    assert_eq!(show(&mut env, "(do (def! a 1) (def! b (+ a 1)) (* a b))"), "2");
    assert_eq!(show(&mut env, "(let* [p 2 q (* p p)] (let* (p 10) (+ p q)))"), "14");
    assert_eq!(show(&mut env, "(let* () 5)"), "5");
}
