use rust_dmr_mal::cmdline::{launch, process_argv, Error, Mode};
use rust_dmr_mal::environment::{add_eval, read_prelude, Environment};
use rust_dmr_mal::evaluator::HostRequest;
use rust_dmr_mal::types::{MalObject, MalSymbol};

fn start() -> Environment {
    let mut env = Environment::default();
    read_prelude(&mut env).expect("the prelude evaluates");
    add_eval(&mut env);
    env
}

fn args(words: &[&str]) -> Vec<String> {
    words.iter().map(|word| word.to_string()).collect()
}

fn argv(env: &Environment) -> Option<MalObject> {
    env.get(&MalSymbol("*ARGV*".to_string()))
}

#[test]
fn without_a_script_the_loop_is_asked_for() {
    assert!(matches!(process_argv(&args(&[])), Mode::Repl));
    assert!(matches!(process_argv(&args(&["mal"])), Mode::Repl));
    let mut env = start();
    assert!(matches!(launch(args(&["mal"]), &mut env), Ok(Mode::Repl)));
    assert_eq!(argv(&env), Some(MalObject::new_list()));
}

#[test]
fn the_first_argument_names_the_script() {
    match process_argv(&args(&["mal", "run.mal", "a", "b"])) {
        Mode::Batch(path) => assert_eq!(path, "run.mal"),
        other => panic!("unexpected {:?}", other),
    }
}

#[test]
fn the_script_sees_its_arguments() {
    let mut env = start();
    env.provide_file(
        "run.mal".to_string(),
        Ok("(def! seen (count *ARGV*))\n(prn *ARGV*)".to_string()),
    );
    match launch(args(&["mal", "run.mal", "a", "b c"]), &mut env) {
        Ok(Mode::Batch(path)) => assert_eq!(path, "run.mal"),
        other => panic!("unexpected {:?}", other),
    }
    assert_eq!(
        argv(&env),
        Some(MalObject::wrap_list(vec![
            MalObject::String("a".to_string()),
            MalObject::String("b c".to_string())
        ]))
    );
    assert_eq!(env.get(&MalSymbol("seen".to_string())), Some(MalObject::Integer(2)));
    assert_eq!(env.take_output(), vec!["(\"a\" \"b c\")".to_string()]);
    assert_eq!(env.take_output(), Vec::<String>::new());
}

#[test]
fn a_script_that_was_not_read_is_asked_for() {
    let mut env = start();
    match launch(args(&["mal", "run.mal"]), &mut env) {
        Err(Error::Pending(HostRequest::File(path))) => assert_eq!(path, "run.mal"),
        other => panic!("unexpected {:?}", other),
    }
}

#[test]
fn the_error_of_a_script_is_reported() {
    let mut env = start();
    env.provide_file("run.mal".to_string(), Ok("(nth (list 1) 4)".to_string()));
    match launch(args(&["mal", "run.mal"]), &mut env) {
        Err(Error::RepError(text)) => assert_eq!(text, "bad index: 4 not in range [0, 1)"),
        other => panic!("unexpected {:?}", other),
    }
    let mut env = start();
    env.provide_file("run.mal".to_string(), Err("permission denied".to_string()));
    match launch(args(&["mal", "run.mal"]), &mut env) {
        Err(Error::RepError(text)) => assert_eq!(text, "io error: permission denied"),
        other => panic!("unexpected {:?}", other),
    }
}
