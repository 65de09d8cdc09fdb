use rust_dmr_mal::environment::{add_eval, read_prelude, Environment};
use rust_dmr_mal::types::{MalObject, MalSymbol};

fn symbol(name: &str) -> MalSymbol {
    MalSymbol(name.to_string())
}

#[test]
fn an_empty_environment_binds_nothing() {
    let env = Environment::empty();
    assert_eq!(env.get(&symbol("+")), None);
    assert_eq!(env.frames.len(), 1);
}

#[test]
fn setting_returns_what_was_bound_before() {
    let mut env = Environment::empty();
    assert_eq!(env.set(symbol("a"), MalObject::Integer(1)), None);
    assert_eq!(env.set(symbol("a"), MalObject::Integer(2)), Some(MalObject::Integer(1)));
    assert_eq!(env.get(&symbol("a")), Some(MalObject::Integer(2)));
}

#[test]
fn a_lookup_walks_to_the_root() {
    let mut env = Environment::empty();
    env.set(symbol("a"), MalObject::Integer(1));
    env.set(symbol("b"), MalObject::Integer(2));
    let child = env.spawn_from(0);
    let grandchild = env.spawn_from(child);
    env.set_in(child, symbol("a"), MalObject::Integer(10));
    assert_eq!(env.get_from(grandchild, &symbol("a")), Some(MalObject::Integer(10)));
    assert_eq!(env.get_from(grandchild, &symbol("b")), Some(MalObject::Integer(2)));
    assert_eq!(env.get_from(child, &symbol("a")), Some(MalObject::Integer(10)));
    assert_eq!(env.get(&symbol("a")), Some(MalObject::Integer(1)));
    assert_eq!(env.get_from(grandchild, &symbol("c")), None);
}

#[test]
fn a_shadowing_in_a_child_is_not_seen_from_the_parent() {
    let mut env = Environment::empty();
    env.set(symbol("a"), MalObject::Integer(1));
    let child = env.spawn_from(0);
    let sibling = env.spawn_from(0);
    env.set_in(child, symbol("a"), MalObject::Integer(2));
    assert_eq!(env.get(&symbol("a")), Some(MalObject::Integer(1)));
    assert_eq!(env.get_from(sibling, &symbol("a")), Some(MalObject::Integer(1)));
    env.set(symbol("late"), MalObject::Integer(3));
    assert_eq!(env.get_from(child, &symbol("late")), Some(MalObject::Integer(3)));
}

#[test]
fn a_frame_that_does_not_exist_binds_nothing() {
    let mut env = Environment::empty();
    assert_eq!(env.set_in(7, symbol("a"), MalObject::Integer(1)), None);
    assert_eq!(env.get_from(7, &symbol("a")), None);
    assert_eq!(env.frames.len(), 1);
}

#[test]
fn fetch_names_the_symbol_that_is_not_bound() {
    let env = Environment::empty();
    assert_eq!(env.fetch(0, &symbol("nope")).unwrap_err().0, symbol("nope"));
}

#[test]
fn the_default_environment_binds_the_operations() {
    let env = Environment::default();
    for name in ["+", "-", "*", "/", "list", "swap!", "hash-map", "time-ms", "readline", "throw"] {
        assert!(matches!(env.get(&symbol(name)), Some(MalObject::Primitive(_))));
    }
    assert_eq!(
        env.get(&symbol("*host-language*")),
        Some(MalObject::String("rust-dmr".to_string()))
    );
    assert_eq!(env.get(&symbol("not")), None);
    assert_eq!(env.get(&symbol("eval")), None);
}

#[test]
fn the_prelude_defines_not_load_file_and_cond() {
    let mut env = Environment::default();
    assert_eq!(read_prelude(&mut env), Ok(()));
    assert!(matches!(env.get(&symbol("not")), Some(MalObject::Closure(_))));
    assert!(matches!(env.get(&symbol("load-file")), Some(MalObject::Closure(_))));
    assert!(env.get(&symbol("cond")).unwrap().is_macro());
}

#[test]
fn the_prelude_stops_at_its_first_error() {
    let mut env = Environment::default();
    env.set_step_limit(1);
    assert_eq!(
        read_prelude(&mut env),
        Err("the evaluation took more steps than the step limit allows".to_string())
    );
    assert!(env.get(&symbol("not")).is_none());
    assert!(env.get(&symbol("load-file")).is_none());
    assert!(env.get(&symbol("cond")).is_none());
}

#[test]
fn eval_is_bound_to_the_bridge() {
    let mut env = Environment::default();
    add_eval(&mut env);
    assert!(matches!(env.get(&symbol("eval")), Some(MalObject::Eval(_))));
}

#[test]
fn cells_hold_what_was_stored_last() {
    let mut env = Environment::empty();
    let cell = env.new_cell(MalObject::Integer(1));
    assert_eq!(env.cell(cell), Some(MalObject::Integer(1)));
    env.set_cell(cell, MalObject::Integer(2));
    assert_eq!(env.cell(cell), Some(MalObject::Integer(2)));
    assert_eq!(env.cell(cell + 1), None);
    env.set_cell(cell + 1, MalObject::Integer(3));
    assert_eq!(env.cells.len(), 1);
}

#[test]
fn a_snapshot_is_not_changed_by_what_comes_after() {
    let mut env = Environment::default();
    env.set(symbol("a"), MalObject::Integer(1));
    env.provide_line(Some("typed".to_string()));
    let cell = env.new_cell(MalObject::Integer(5));
    let before = env.snapshot();
    env.set(symbol("a"), MalObject::Integer(2));
    env.set_cell(cell, MalObject::Integer(6));
    env.spawn_from(0);
    env.provide_line(None);
    assert_eq!(before.get(&symbol("a")), Some(MalObject::Integer(1)));
    assert_eq!(before.cell(cell), Some(MalObject::Integer(5)));
    assert_eq!(before.frames.len() + 1, env.frames.len());
    assert_eq!(before.host.input, vec![Some("typed".to_string())]);
    assert_eq!(before.step_limit, env.step_limit);
}
