use rust_dmr_mal::strings::{build_string, string_repr, BuildError};

#[test]
fn escapes_are_decoded() {
    assert_eq!(build_string("a\\nb\\\\c\\\"d"), Ok("a\nb\\c\"d".to_string()));
}

#[test]
fn unknown_escape_is_rejected() {
    assert_eq!(build_string("a\\tb"), Err(BuildError::UnknownEscape('t')));
}

#[test]
fn single_backslash_is_rejected() {
    assert_eq!(build_string("ab\\"), Err(BuildError::UnexpectedSingleBackslash));
}

#[test]
fn literal_escapes_special_characters() {
    assert_eq!(string_repr("a\nb\\c\"d"), "\"a\\nb\\\\c\\\"d\"");
}
