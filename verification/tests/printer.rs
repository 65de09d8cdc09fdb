use rust_dmr_mal::environment::Environment;
use rust_dmr_mal::interpreter;
use rust_dmr_mal::printer::{pr_str, print, Outcome, PrintMode};
use rust_dmr_mal::reader::read_str;
use rust_dmr_mal::types::{Atom, MalObject};

fn both_modes(object: &MalObject, env: &Environment) -> (String, String) {
    (
        pr_str(object, PrintMode::ReadableRepresentation, env),
        pr_str(object, PrintMode::Directly, env),
    )
}

#[test]
fn strings_are_quoted_only_when_readable() {
    let env = Environment::empty();
    let object = MalObject::String("a \"b\"\n\\".to_string());
    assert_eq!(
        both_modes(&object, &env),
        ("\"a \\\"b\\\"\\n\\\\\"".to_string(), "a \"b\"\n\\".to_string())
    );
}

#[test]
fn the_mode_reaches_the_elements() {
    let env = Environment::empty();
    let object = read_str("(\"a\" [\"b\"] {\"k\" \"v\"})").unwrap();
    assert_eq!(
        both_modes(&object, &env),
        (
            "(\"a\" [\"b\"] {\"k\" \"v\"})".to_string(),
            "(a [b] {k v})".to_string()
        )
    );
}

#[test]
fn integers_print_in_decimal() {
    let env = Environment::empty();
    for (number, text) in [
        (0, "0"),
        (9, "9"),
        (10, "10"),
        (-1, "-1"),
        (1234567890, "1234567890"),
    ] {
        assert_eq!(
            pr_str(&MalObject::Integer(number), PrintMode::Directly, &env),
            text
        );
    }
    assert_eq!(
        pr_str(&MalObject::Integer(isize::MIN), PrintMode::Directly, &env),
        isize::MIN.to_string()
    );
    assert_eq!(
        pr_str(&MalObject::Integer(isize::MAX), PrintMode::Directly, &env),
        isize::MAX.to_string()
    );
}

#[test]
fn atoms_print_what_they_hold() {
    let mut env = Environment::empty();
    let atom = MalObject::Atom(Atom::new(&MalObject::String("x".to_string()), &mut env));
    assert_eq!(
        both_modes(&atom, &env),
        ("(atom \"x\")".to_string(), "(atom x)".to_string())
    );
    let dangling = MalObject::Atom(Atom { payload: 99 });
    assert_eq!(pr_str(&dangling, PrintMode::Directly, &env), "(atom)");
}

#[test]
fn an_atom_that_holds_itself_prints() {
    let mut env = Environment::empty();
    let atom = Atom::new(&MalObject::Nil, &mut env);
    atom.replace(&MalObject::Atom(atom), &mut env);
    let text = pr_str(&MalObject::Atom(atom), PrintMode::Directly, &env);
    let expected = format!("{}(atom){}", "(atom ".repeat(16), ")".repeat(16));
    assert_eq!(text, expected);
}

#[test]
fn reading_what_was_printed_gives_the_value() {
    let env = Environment::empty();
    for source in [
        "nil",
        "true",
        "false",
        "0",
        "-12",
        "abc",
        "a~b",
        ":kw",
        ":",
        "\"\"",
        "\"a\\\\\"",
        "\"q\\\"\\n\\\\n\"",
        "()",
        "[[] ()]",
        "(1 \"two\" :three four [5 {:six 7 \"eight\" (9)}])",
        "'(a `(b ~c ~@d) @e)",
        "^{:m 1} x",
    ] {
        let value = read_str(source).expect("the text reads");
        let text = pr_str(&value, PrintMode::ReadableRepresentation, &env);
        let again = read_str(&text).expect("the printed text reads");
        assert_eq!(again, value);
        assert_eq!(pr_str(&again, PrintMode::ReadableRepresentation, &env), text);
    }
}

#[test]
fn a_comment_shows_nothing() {
    let env = Environment::empty();
    let result = interpreter::READ("; just this");
    assert!(matches!(print(&result, &env), Ok(Outcome::Empty)));
    let result = interpreter::READ("(1 2");
    assert_eq!(
        print(&result, &env).unwrap_err(),
        "Read error: unbalanced sequence: list or vector missing a closing bracket."
    );
    let result = interpreter::READ("\"s\"");
    match print(&result, &env) {
        Ok(Outcome::String(text)) => assert_eq!(text, "\"s\""),
        other => panic!("unexpected {:?}", other),
    }
}
