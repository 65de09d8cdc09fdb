use rust_dmr_mal::types::{
    build_map, callable, equal, truthy, Arity, BadClosureParameters, Builtin, ClosureParameters,
    HashKey, MalObject, MalSymbol, MapError, PrimitiveFn, PrimitiveFnRef, TypeMismatch,
};

fn symbols(names: &[&str]) -> Vec<MalSymbol> {
    names.iter().map(|name| MalSymbol(name.to_string())).collect()
}

#[test]
fn arities_accept_the_right_counts() {
    assert!(Arity::exactly(2).contains(2));
    assert!(!Arity::exactly(2).contains(1));
    assert!(!Arity::exactly(2).contains(3));
    assert!(Arity::at_least(1).contains(1));
    assert!(Arity::at_least(1).contains(100));
    assert!(!Arity::at_least(1).contains(0));
    assert!(Arity::Between(2, 3).contains(3));
    assert!(!Arity::Between(2, 3).contains(4));
    assert!(Arity::Odd.contains(3));
    assert!(!Arity::Odd.contains(4));
    assert!(Arity::Even.contains(0));
    assert!(!Arity::Even.contains(1));
}

#[test]
fn a_wrong_count_says_what_was_expected() {
    assert!(Arity::exactly(1).validate_for(1, "f").is_ok());
    let bad = Arity::exactly(1).validate_for(3, "f").unwrap_err();
    assert_eq!(bad.name, "f");
    assert_eq!(bad.expected, Arity::Between(1, 1));
    assert_eq!(bad.got, 3);
}

#[test]
fn parameters_without_ampersand_are_positional() {
    let parameters = ClosureParameters::new(symbols(&["a", "b"])).unwrap();
    assert_eq!(parameters.positional, symbols(&["a", "b"]));
    assert_eq!(parameters.others, None);
    assert_eq!(parameters.arity(), Arity::Between(2, 2));
}

#[test]
fn the_name_after_an_ampersand_collects() {
    let parameters = ClosureParameters::new(symbols(&["a", "&", "rest"])).unwrap();
    assert_eq!(parameters.positional, symbols(&["a"]));
    assert_eq!(parameters.others, Some(MalSymbol("rest".to_string())));
    assert_eq!(parameters.arity(), Arity::AtLeast(1));
    let parameters = ClosureParameters::new(symbols(&["&", "rest"])).unwrap();
    assert_eq!(parameters.positional, symbols(&[]));
    assert_eq!(parameters.arity(), Arity::AtLeast(0));
}

#[test]
fn misplaced_ampersands_are_refused() {
    assert_eq!(
        ClosureParameters::new(symbols(&["&"])).unwrap_err(),
        BadClosureParameters::TooShortForAmpersand
    );
    assert_eq!(
        ClosureParameters::new(symbols(&["a", "b", "&"])).unwrap_err(),
        BadClosureParameters::AmpersandPositionNotPenultimate
    );
    assert_eq!(
        ClosureParameters::new(symbols(&["&", "a", "b"])).unwrap_err(),
        BadClosureParameters::AmpersandPositionNotPenultimate
    );
    assert_eq!(
        ClosureParameters::new(symbols(&["&", "&", "a"])).unwrap_err(),
        BadClosureParameters::TooManyAmpersands(2)
    );
}

#[test]
fn only_nil_and_false_count_as_false() {
    assert!(!truthy(&MalObject::Nil));
    assert!(!truthy(&MalObject::Bool(false)));
    assert!(truthy(&MalObject::Bool(true)));
    assert!(truthy(&MalObject::Integer(0)));
    assert!(truthy(&MalObject::String(String::new())));
    assert!(truthy(&MalObject::new_list()));
}

#[test]
fn only_functions_can_be_called() {
    let plus = MalObject::Primitive(PrimitiveFnRef {
        payload: PrimitiveFn { op: Builtin::Sum },
        meta: Box::new(MalObject::Nil),
    });
    assert!(callable(&plus));
    assert!(!callable(&MalObject::Integer(1)));
    assert!(!callable(&MalObject::new_list()));
}

#[test]
fn equality_is_by_structure() {
    let list = MalObject::wrap_list(vec![MalObject::Integer(1), MalObject::new_keyword("a")]);
    let vector = MalObject::wrap_vector(vec![MalObject::Integer(1), MalObject::new_keyword("a")]);
    let shorter = MalObject::wrap_list(vec![MalObject::Integer(1)]);
    assert!(equal(&list, &vector));
    assert!(equal(&vector, &list));
    assert!(!equal(&list, &shorter));
    assert!(!equal(&MalObject::new_keyword("a"), &MalObject::String("a".to_string())));
    assert!(!equal(&MalObject::new_symbol("a"), &MalObject::String("a".to_string())));
    assert!(!equal(&MalObject::Nil, &MalObject::Bool(false)));
    assert!(equal(&MalObject::Nil, &MalObject::Nil));
    assert_eq!(list, vector);
    assert_ne!(list, shorter);
}

#[test]
fn maps_are_equal_whatever_the_order_of_their_entries() {
    let a = build_map(vec![
        MalObject::new_keyword("x"),
        MalObject::Integer(1),
        MalObject::String("y".to_string()),
        MalObject::Integer(2),
    ])
    .unwrap();
    let b = build_map(vec![
        MalObject::String("y".to_string()),
        MalObject::Integer(2),
        MalObject::new_keyword("x"),
        MalObject::Integer(1),
    ])
    .unwrap();
    let c = build_map(vec![MalObject::new_keyword("x"), MalObject::Integer(1)]).unwrap();
    let d = build_map(vec![
        MalObject::new_keyword("x"),
        MalObject::Integer(1),
        MalObject::String("y".to_string()),
        MalObject::Integer(3),
    ])
    .unwrap();
    assert!(equal(&a, &b));
    assert!(!equal(&a, &c));
    assert!(!equal(&a, &d));
}

#[test]
fn maps_need_keys_and_values() {
    assert_eq!(
        build_map(vec![MalObject::new_keyword("x")]).unwrap_err(),
        MapError::MissingValue
    );
    assert_eq!(
        build_map(vec![MalObject::Integer(1), MalObject::Integer(2)]).unwrap_err(),
        MapError::UnhashableKey
    );
    assert!(build_map(vec![]).is_ok());
}

#[test]
fn values_are_taken_for_what_they_are() {
    assert_eq!(MalObject::Integer(3).as_int(), Ok(3));
    assert_eq!(MalObject::Nil.as_int(), Err(TypeMismatch::NotAnInt));
    assert_eq!(MalObject::Bool(true).as_bool(), Ok(true));
    assert_eq!(MalObject::Nil.as_bool(), Err(TypeMismatch::NotABool));
    assert_eq!(MalObject::String("s".to_string()).as_string(), Ok("s"));
    assert_eq!(MalObject::Nil.as_string(), Err(TypeMismatch::NotAString));
    assert_eq!(
        MalObject::new_keyword("k").as_hashkey(),
        Ok(HashKey::Keyword("k".to_string()))
    );
    assert_eq!(MalObject::Integer(1).as_hashkey(), Err(TypeMismatch::NotAValidKey));
    assert_eq!(MalObject::Nil.as_seq().unwrap_err(), TypeMismatch::NotASequence);
    assert_eq!(MalObject::Nil.as_map().unwrap_err(), TypeMismatch::NotAMap);
    assert_eq!(MalObject::Nil.as_symbol().unwrap_err(), TypeMismatch::NotASymbol);
    assert_eq!(MalObject::Nil.as_atom().unwrap_err(), TypeMismatch::NotAnAtom);
    assert!(MalObject::Nil.as_list().is_err());
    assert!(MalObject::Nil.as_closure().is_err());
    assert!(MalObject::new_list().is_list());
    assert!(MalObject::new_list().is_seq());
    assert!(!MalObject::new_list().is_vector());
    assert!(!MalObject::Integer(1).is_macro());
}

#[test]
fn every_operation_has_a_name_of_its_own() {
    let all = Builtin::all();
    assert_eq!(all.len(), 58);
    for (i, a) in all.iter().enumerate() {
        for b in all.iter().skip(i + 1) {
            assert_ne!(a.name(), b.name());
        }
    }
}
