use rust_dmr_mal::environment::Environment;
use rust_dmr_mal::printer::{pr_str, PrintMode};
use rust_dmr_mal::reader::{read_atom, read_form, read_sequence, read_str, Error};
use rust_dmr_mal::strings::BuildError;
use rust_dmr_mal::tokens::{tokenize, Close, Open, Token, TokenizerError};
use rust_dmr_mal::types::{MalObject, MapError};

fn readable(input: &str) -> String {
    let env = Environment::empty();
    pr_str(
        &read_str(input).expect("the text reads"),
        PrintMode::ReadableRepresentation,
        &env,
    )
}

#[test]
fn atoms_are_read_by_their_first_characters() {
    assert_eq!(read_str("12").unwrap(), MalObject::Integer(12));
    assert_eq!(read_str("-7").unwrap(), MalObject::Integer(-7));
    assert_eq!(read_str("+7").unwrap(), MalObject::Integer(7));
    assert_eq!(read_str("007").unwrap(), MalObject::Integer(7));
    assert_eq!(read_str("-").unwrap(), MalObject::new_symbol("-"));
    assert_eq!(read_str("-a").unwrap(), MalObject::new_symbol("-a"));
    assert_eq!(read_str(":kw").unwrap(), MalObject::new_keyword("kw"));
    assert_eq!(read_str("true").unwrap(), MalObject::Bool(true));
    assert_eq!(read_str("false").unwrap(), MalObject::Bool(false));
    assert_eq!(read_str("nil").unwrap(), MalObject::Nil);
    assert_eq!(read_str("truely").unwrap(), MalObject::new_symbol("truely"));
    assert_eq!(
        read_str("\"a\\nb\"").unwrap(),
        MalObject::String("a\nb".to_string())
    );
}

#[test]
fn extreme_integers_are_read() {
    assert_eq!(
        read_str(&isize::MAX.to_string()).unwrap(),
        MalObject::Integer(isize::MAX)
    );
    assert_eq!(
        read_str(&isize::MIN.to_string()).unwrap(),
        MalObject::Integer(isize::MIN)
    );
}

#[test]
fn integers_that_do_not_fit_are_refused() {
    assert!(matches!(read_str("99999999999999999999999999"), Err(Error::ReadIntError)));
    assert!(matches!(read_str("-99999999999999999999999999"), Err(Error::ReadIntError)));
    assert!(matches!(read_str("12ab"), Err(Error::ReadIntError)));
}

#[test]
fn sequences_are_read() {
    assert_eq!(readable("(1 (2 [3 4]) {:a \"b\"})"), "(1 (2 [3 4]) {:a \"b\"})");
    assert_eq!(readable("()"), "()");
    assert_eq!(readable("[]"), "[]");
    assert_eq!(readable("{}"), "{}");
}

#[test]
fn a_later_entry_replaces_an_earlier_one_with_its_key() {
    assert_eq!(readable("{:a 1 :b 2 :a 3}"), "{:a 3 :b 2}");
}

#[test]
fn marks_become_lists() {
    assert_eq!(readable("'a"), "(quote a)");
    assert_eq!(readable("`a"), "(quasiquote a)");
    assert_eq!(readable("~a"), "(unquote a)");
    assert_eq!(readable("~@a"), "(splice-unquote a)");
    assert_eq!(readable("@a"), "(deref a)");
    assert_eq!(readable("^{:k 1} [2]"), "(with-meta [2] {:k 1})");
}

#[test]
fn only_the_first_form_is_read() {
    assert_eq!(readable("1 2 3"), "1");
}

#[test]
fn comments_are_passed_over() {
    assert_eq!(readable("; first\n(1 ; inside\n 2)"), "(1 2)");
    assert!(matches!(read_str("; nothing else"), Err(Error::ReadComment)));
}

#[test]
fn malformed_texts_are_refused() {
    assert!(matches!(read_str(""), Err(Error::NoMoreTokens)));
    assert!(matches!(read_str("'"), Err(Error::NoMoreTokens)));
    assert!(matches!(read_str("^a"), Err(Error::NoMoreTokens)));
    assert!(matches!(read_str("(1 2"), Err(Error::UnbalancedSequence)));
    assert!(matches!(read_str("[1 (2)"), Err(Error::UnbalancedSequence)));
    assert!(matches!(read_str(")"), Err(Error::UnexpectedCloseToken(Close::List))));
    assert!(matches!(read_str("(1 ]"), Err(Error::UnexpectedCloseToken(Close::Vector))));
    assert!(matches!(read_str("{:a}"), Err(Error::ReadMapError(MapError::MissingValue))));
    assert!(matches!(read_str("{1 2}"), Err(Error::ReadMapError(MapError::UnhashableKey))));
    assert!(matches!(
        read_str("\"a\\tb\""),
        Err(Error::StringError(BuildError::UnknownEscape('t')))
    ));
    assert!(matches!(
        read_str("\"abc"),
        Err(Error::TokenizerError(TokenizerError::UnbalancedString))
    ));
}

#[test]
fn read_errors_have_texts() {
    assert_eq!(
        read_str("(1 2").unwrap_err().message(),
        "Read error: unbalanced sequence: list or vector missing a closing bracket."
    );
    assert_eq!(
        read_str("\"a\\tb\"").unwrap_err().message(),
        "Read error: error building string: UnknownEscape('t')"
    );
    assert_eq!(
        read_str("\"a\\\tb\"").unwrap_err().message(),
        "Read error: error building string: UnknownEscape('\\t')"
    );
    assert_eq!(
        read_str("}").unwrap_err().message(),
        "Read error: unexpected Close::Map token while parsing"
    );
    assert_eq!(
        read_str("\"").unwrap_err().message(),
        "Read error: tokenizer failed: unbalanced string literal"
    );
    assert_eq!(read_str("1x").unwrap_err().message(), "Read error: failed to parse integer.");
}

#[test]
fn only_plain_characters_and_literals_are_values_by_themselves() {
    assert_eq!(
        read_atom(&Token::PlainChars("12".to_string())).unwrap(),
        MalObject::Integer(12)
    );
    assert_eq!(
        read_atom(&Token::StringLiteral("a\\\\b".to_string())).unwrap(),
        MalObject::String("a\\b".to_string())
    );
    assert!(matches!(read_atom(&Token::Open(Open::List)), Err(Error::Unimplemented)));
    assert_eq!(
        read_atom(&Token::Open(Open::List)).unwrap_err().message(),
        "Read error: haven't implemented this yet, but no need to panic!()"
    );
}

#[test]
fn forms_are_read_from_a_place_on() {
    let tokens = tokenize("1 (2 3) 4 ]").unwrap();
    let (form, next) = read_form(&tokens, 1);
    assert_eq!(form.unwrap(), read_str("(2 3)").unwrap());
    assert_eq!(next, 5);
    let (items, next) = read_sequence(&tokens, 0, Close::Vector);
    assert_eq!(items.unwrap().len(), 3);
    assert_eq!(next, 7);
    assert!(matches!(read_sequence(&tokens, 0, Close::List).0, Err(Error::UnexpectedCloseToken(Close::Vector))));
    assert!(matches!(read_form(&tokens, 9).0, Err(Error::NoMoreTokens)));
}
