use rust_dmr_mal::tokens::{create_token, tokenize, Close, Open, Token, TokenizerError, UnaryOp};

fn kinds(input: &str) -> Vec<String> {
    tokenize(input)
        .expect("the text tokenizes")
        .iter()
        .map(|token| format!("{:?}", token))
        .collect()
}

#[test]
fn brackets_and_marks_are_tokens_by_themselves() {
    let tokens = tokenize("([{}])'`~^@~@").expect("the text tokenizes");
    assert_eq!(tokens.len(), 12);
    assert!(matches!(tokens[0], Token::Open(Open::List)));
    assert!(matches!(tokens[1], Token::Open(Open::Vector)));
    assert!(matches!(tokens[2], Token::Open(Open::HashMap)));
    assert!(matches!(tokens[3], Token::Close(Close::HashMap)));
    assert!(matches!(tokens[4], Token::Close(Close::Vector)));
    assert!(matches!(tokens[5], Token::Close(Close::List)));
    assert!(matches!(tokens[6], Token::UnaryOp(UnaryOp::Quote)));
    assert!(matches!(tokens[7], Token::UnaryOp(UnaryOp::Quasiquote)));
    assert!(matches!(tokens[8], Token::UnaryOp(UnaryOp::Unquote)));
    assert!(matches!(tokens[9], Token::UnaryOp(UnaryOp::WithMeta)));
    assert!(matches!(tokens[10], Token::UnaryOp(UnaryOp::Deref)));
    assert!(matches!(tokens[11], Token::UnaryOp(UnaryOp::SpliceUnquote)));
}

#[test]
fn separators_are_dropped() {
    assert_eq!(
        kinds("  (+ 1,2 ,, abc)\n"),
        vec![
            "Open(List)",
            "PlainChars(\"+\")",
            "PlainChars(\"1\")",
            "PlainChars(\"2\")",
            "PlainChars(\"abc\")",
            "Close(List)"
        ]
    );
}

#[test]
fn plain_characters_run_over_marks() {
    assert_eq!(kinds("a~b@c^d"), vec!["PlainChars(\"a~b@c^d\")"]);
    assert_eq!(kinds("~a"), vec!["UnaryOp(Unquote)", "PlainChars(\"a\")"]);
}

#[test]
fn string_literals_hold_the_text_between_their_quotes() {
    assert_eq!(
        kinds("\"a b\" \"q\\\"r\" \"\""),
        vec![
            "StringLiteral(\"a b\")",
            "StringLiteral(\"q\\\\\\\"r\")",
            "StringLiteral(\"\")"
        ]
    );
}

#[test]
fn comments_run_to_the_end_of_the_line() {
    assert_eq!(
        kinds("1 ; two three\n4"),
        vec!["PlainChars(\"1\")", "Comment(\" two three\")", "PlainChars(\"4\")"]
    );
}

#[test]
fn empty_text_has_no_tokens() {
    assert_eq!(tokenize("").expect("the text tokenizes").len(), 0);
}

#[test]
fn unbalanced_strings_are_refused() {
    assert!(matches!(tokenize("\"abc"), Err(TokenizerError::UnbalancedString)));
    assert!(matches!(tokenize("\""), Err(TokenizerError::UnbalancedString)));
    assert!(matches!(tokenize("\"abc\\\""), Err(TokenizerError::UnbalancedString)));
    assert!(matches!(tokenize("(1 \"abc\\\nd\")"), Err(TokenizerError::UnbalancedString)));
}

#[test]
fn a_backslash_starts_no_token() {
    match tokenize("abc \\def") {
        Err(TokenizerError::NoCapture(rest)) => assert_eq!(rest, "\\def"),
        other => panic!("unexpected {:?}", other),
    }
}

#[test]
fn separators_alone_are_refused() {
    assert!(matches!(tokenize("  , "), Err(TokenizerError::NoFirstCharacter)));
}

#[test]
fn a_tilde_before_anything_but_an_at_sign_is_refused() {
    let captured: Vec<char> = "~x".chars().collect();
    assert!(matches!(create_token(&captured), Err(TokenizerError::BadTildeMatch)));
    let nothing: Vec<char> = Vec::new();
    assert!(matches!(create_token(&nothing), Err(TokenizerError::NoFirstCharacter)));
}

#[test]
fn unicode_white_space_separates() {
    assert_eq!(kinds("a\u{2003}b\u{3000}c"), vec!["PlainChars(\"a\")", "PlainChars(\"b\")", "PlainChars(\"c\")"]);
}
