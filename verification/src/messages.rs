//! The texts in which errors are reported.

use crate::environment::Environment;
use crate::evaluator::{Error, Failure, HostRequest, Request};
use crate::printer::{print_value, write_value, PrintMode};
use crate::reader::ReadFailure;
use crate::special_forms::{DefError, FnError, LetError};
use crate::strings::BuildError;
use crate::text::{decimal, int_text, push_chars, push_decimal, push_int};
use crate::tokens::{Close, TokenizerError, TokenizerFailure};
use crate::types::{
    view_items, Arity, BadArgCount, BadClosureParameters, MalObject, MapError, TypeMismatch, Value,
};
use vstd::prelude::*;

verus! {

/// What the standard library's `Debug` prints for a character: the character between
/// single quotes, escaped where it would not show.
pub uninterp spec fn char_debug_text(c: char) -> Seq<char>;

/// `format!("{:?}", c)` for a character.
#[verifier::external_body]
fn debug_char(c: char) -> (r: String)
    ensures
        r@ == char_debug_text(c),
{
    format!("{:?}", c)
}

/// The name of a kind of type mismatch.
pub open spec fn mismatch_name(e: TypeMismatch) -> &'static str {
    match e {
        TypeMismatch::NotAnInt => "NotAnInt",
        TypeMismatch::NotAList => "NotAList",
        TypeMismatch::NotASequence => "NotASequence",
        TypeMismatch::NotASymbol => "NotASymbol",
        TypeMismatch::NotAString => "NotAString",
        TypeMismatch::NotAnAtom => "NotAnAtom",
        TypeMismatch::NotCallable => "NotCallable",
        TypeMismatch::NotAClosure => "NotAClosure",
        TypeMismatch::NotIntoKeyword => "NotIntoKeyword",
        TypeMismatch::NotABool => "NotABool",
        TypeMismatch::NotAMap => "NotAMap",
        TypeMismatch::NotAValidKey => "NotAValidKey",
        TypeMismatch::CantHoldMetadata => "CantHoldMetadata",
    }
}

/// The name of a kind of type mismatch.
fn mismatch_str(e: TypeMismatch) -> (r: &'static str)
    ensures
        r == mismatch_name(e),
{
    match e {
        TypeMismatch::NotAnInt => "NotAnInt",
        TypeMismatch::NotAList => "NotAList",
        TypeMismatch::NotASequence => "NotASequence",
        TypeMismatch::NotASymbol => "NotASymbol",
        TypeMismatch::NotAString => "NotAString",
        TypeMismatch::NotAnAtom => "NotAnAtom",
        TypeMismatch::NotCallable => "NotCallable",
        TypeMismatch::NotAClosure => "NotAClosure",
        TypeMismatch::NotIntoKeyword => "NotIntoKeyword",
        TypeMismatch::NotABool => "NotABool",
        TypeMismatch::NotAMap => "NotAMap",
        TypeMismatch::NotAValidKey => "NotAValidKey",
        TypeMismatch::CantHoldMetadata => "CantHoldMetadata",
    }
}

/// A variant's name with a number in brackets after it.
pub open spec fn with_count(name: Seq<char>, n: usize) -> Seq<char> {
    name + seq!['('] + decimal(n as nat) + seq![')']
}

/// Appends a variant's name with a number in brackets after it.
fn push_with_count(out: &mut String, name: &str, n: usize)
    ensures
        final(out)@ == old(out)@ + with_count(name@, n),
{
    push_chars(out, name);
    out.push('(');
    push_decimal(out, n);
    out.push(')');
    assert(out@ =~= old(out)@ + with_count(name@, n));
}

/// The text of a malformed `def!`.
pub open spec fn def_text(e: DefError) -> Seq<char> {
    match e {
        DefError::WrongArgCount(n) => with_count("WrongArgCount"@, n),
        DefError::KeyNotASymbol => "KeyNotASymbol"@,
    }
}

/// The text of a malformed `let*`.
pub open spec fn let_text(e: LetError) -> Seq<char> {
    match e {
        LetError::WrongArgCount(n) => with_count("WrongArgCount"@, n),
        LetError::BindingsNotSequence => "BindingsNotSequence"@,
        LetError::BindingsOddLength => "BindingsOddLength"@,
        LetError::ValueEvaluationFailed => "ValueEvaluationFailed"@,
        LetError::BindToNonSymbol => "BindToNonSymbol"@,
    }
}

/// The text of a malformed parameter list.
pub open spec fn parameters_text(e: BadClosureParameters) -> Seq<char> {
    match e {
        BadClosureParameters::TooManyAmpersands(n) => with_count("TooManyAmpersands"@, n),
        BadClosureParameters::TooShortForAmpersand => "TooShortForAmpersand"@,
        BadClosureParameters::AmpersandPositionNotPenultimate => {
            "AmpersandPositionNotPenultimate"@
        },
    }
}

/// The text of a malformed `fn*`.
pub open spec fn fn_text(e: FnError) -> Seq<char> {
    match e {
        FnError::WrongArgCount(n) => with_count("WrongArgCount"@, n),
        FnError::ParametersNotGivenAsList => "ParametersNotGivenAsList"@,
        FnError::ParameterNotASymbol => "ParameterNotASymbol"@,
        FnError::BadVariadic(e) => "BadVariadic("@ + parameters_text(e) + seq![')'],
    }
}

/// The text of a set of argument counts.
pub open spec fn arity_text(a: Arity) -> Seq<char> {
    match a {
        Arity::Between(low, high) => if low == high {
            "exactly "@ + decimal(low as nat)
        } else {
            "from "@ + decimal(low as nat) + " to "@ + decimal(high as nat)
        },
        Arity::AtLeast(low) => "At least "@ + decimal(low as nat),
        Arity::Odd => "any odd number"@,
        Arity::Even => "any even number, including zero"@,
    }
}

/// The text of a call with a wrong number of arguments.
pub open spec fn bad_arg_count_text(e: BadArgCount) -> Seq<char> {
    "When evaluating "@ + e.name@ + " expected "@ + arity_text(e.expected)
        + " arguments, but received "@ + decimal(e.got as nat) + " arguments"@
}

/// The text of a failure of the tokenizer.
pub open spec fn tokenizer_text(e: TokenizerFailure) -> Seq<char> {
    "tokenizer failed: "@ + match e {
        TokenizerFailure::NoFirstCharacter => "no characters to parse token from"@,
        TokenizerFailure::BadTildeMatch => "bad tilde match"@,
        TokenizerFailure::UnbalancedString => "unbalanced string literal"@,
        TokenizerFailure::NoCapture(_) => "no token can start here"@,
    }
}

/// The name of a kind of closing bracket.
pub open spec fn close_name(c: Close) -> &'static str {
    match c {
        Close::Vector => "Vector",
        Close::HashMap => "Map",
        Close::List => "List",
    }
}

/// The text of an escape that stands for nothing, given how its character is shown.
pub open spec fn unknown_escape_text(shown: Seq<char>) -> Seq<char> {
    "UnknownEscape("@ + shown + seq![')']
}

/// The text of a text that is no string.
pub open spec fn build_text(e: BuildError) -> Seq<char> {
    match e {
        BuildError::UnknownEscape(c) => unknown_escape_text(char_debug_text(c)),
        BuildError::UnexpectedSingleBackslash => "UnexpectedSingleBackslash"@,
    }
}

/// The text of a failure of the reader.
pub open spec fn read_failure_text(e: ReadFailure) -> Seq<char> {
    "Read error: "@ + match e {
        ReadFailure::TokenizerError(e) => tokenizer_text(e),
        ReadFailure::NoMoreTokens => "ran out of tokens while scanning for a form."@,
        ReadFailure::UnbalancedSequence => {
            "unbalanced sequence: list or vector missing a closing bracket."@
        },
        ReadFailure::ReadIntError => "failed to parse integer."@,
        ReadFailure::ReadComment => "read a comment instead of object"@,
        ReadFailure::UnexpectedCloseToken(c) => "unexpected Close::"@ + close_name(c)@
            + " token while parsing"@,
        ReadFailure::ReadMapError(e) => match e {
            MapError::MissingValue => "MissingValue"@,
            MapError::UnhashableKey => "UnhashableKey"@,
        },
        ReadFailure::StringError(e) => "error building string: "@ + build_text(e),
        ReadFailure::Unimplemented => "haven't implemented this yet, but no need to panic!()"@,
    }
}

/// The text of a request to the host.
pub open spec fn request_text(r: Request) -> Seq<char> {
    match r {
        Request::File(path) => "waiting for the host to read the file "@ + path,
        Request::Line(_) => "waiting for the host to read a line"@,
    }
}

/// The text of a failure of the evaluator. `cells` is what the cells of the environment
/// hold, for the value of a user's exception.
pub open spec fn failure_text(cells: Seq<Value>, f: Failure) -> Seq<char>
    decreases f,
{
    match f {
        Failure::UnknownSymbol(s) => seq!['\''] + s + "' not found"@,
        Failure::ListHeadNotSymbol => "cannot apply list whose first entry is not a symbol"@,
        Failure::TypeMismatch(e) => "type mismatch: "@ + mismatch_name(e)@,
        Failure::Def(e) => "def!: "@ + def_text(e),
        Failure::Let(e) => "let*: "@ + let_text(e),
        Failure::Do(e) => "do: NothingToDo"@,
        Failure::Fn(e) => "fn*: "@ + fn_text(e),
        Failure::BadArgCount(e) => bad_arg_count_text(e),
        Failure::DivideByZero => "cannot divide by zero!"@,
        Failure::ReadError(e) => "read error: "@ + read_failure_text(e),
        Failure::IOError(why) => "io error: "@ + why,
        Failure::BadIndex(i, low, high) => "bad index: "@ + int_text(i as int)
            + " not in range ["@ + decimal(low as nat) + ", "@ + decimal(high as nat) + seq![')'],
        Failure::MissingCatchFromTry => "bad syntax: missing catch* from try*"@,
        Failure::InCatchHandler(original, after) => failure_text(cells, *original)
            + "\nWhile handling the above exception, another exception occurred: "@
            + failure_text(cells, *after),
        Failure::UserException(v) => "UserException: "@ + print_value(
            cells,
            v,
            PrintMode::ReadableRepresentation,
            crate::printer::cell_depth(),
        ),
        Failure::StepLimit => "the evaluation took more steps than the step limit allows"@,
        Failure::HostRequest(r) => request_text(r),
    }
}

/// Appends the text of a malformed `def!`.
fn push_def(out: &mut String, e: DefError)
    ensures
        final(out)@ == old(out)@ + def_text(e),
{
    match e {
        DefError::WrongArgCount(n) => push_with_count(out, "WrongArgCount", n),
        DefError::KeyNotASymbol => push_chars(out, "KeyNotASymbol"),
    }
}

/// Appends the text of a malformed `let*`.
fn push_let(out: &mut String, e: LetError)
    ensures
        final(out)@ == old(out)@ + let_text(e),
{
    match e {
        LetError::WrongArgCount(n) => push_with_count(out, "WrongArgCount", n),
        LetError::BindingsNotSequence => push_chars(out, "BindingsNotSequence"),
        LetError::BindingsOddLength => push_chars(out, "BindingsOddLength"),
        LetError::ValueEvaluationFailed => push_chars(out, "ValueEvaluationFailed"),
        LetError::BindToNonSymbol => push_chars(out, "BindToNonSymbol"),
    }
}

/// Appends the text of a malformed parameter list.
fn push_parameters(out: &mut String, e: BadClosureParameters)
    ensures
        final(out)@ == old(out)@ + parameters_text(e),
{
    match e {
        BadClosureParameters::TooManyAmpersands(n) => push_with_count(
            out,
            "TooManyAmpersands",
            n,
        ),
        BadClosureParameters::TooShortForAmpersand => push_chars(out, "TooShortForAmpersand"),
        BadClosureParameters::AmpersandPositionNotPenultimate => push_chars(
            out,
            "AmpersandPositionNotPenultimate",
        ),
    }
}

/// Appends the text of a malformed `fn*`.
fn push_fn(out: &mut String, e: FnError)
    ensures
        final(out)@ == old(out)@ + fn_text(e),
{
    match e {
        FnError::WrongArgCount(n) => push_with_count(out, "WrongArgCount", n),
        FnError::ParametersNotGivenAsList => push_chars(out, "ParametersNotGivenAsList"),
        FnError::ParameterNotASymbol => push_chars(out, "ParameterNotASymbol"),
        FnError::BadVariadic(e) => {
            push_chars(out, "BadVariadic(");
            push_parameters(out, e);
            out.push(')');
            assert(out@ =~= old(out)@ + fn_text(FnError::BadVariadic(e)));
        },
    }
}

/// Appends the text of a set of argument counts.
fn push_arity(out: &mut String, a: Arity)
    ensures
        final(out)@ == old(out)@ + arity_text(a),
{
    match a {
        Arity::Between(low, high) => {
            if low == high {
                push_chars(out, "exactly ");
                push_decimal(out, low);
            } else {
                push_chars(out, "from ");
                push_decimal(out, low);
                push_chars(out, " to ");
                push_decimal(out, high);
            }
        },
        Arity::AtLeast(low) => {
            push_chars(out, "At least ");
            push_decimal(out, low);
        },
        Arity::Odd => push_chars(out, "any odd number"),
        Arity::Even => push_chars(out, "any even number, including zero"),
    }
    assert(out@ =~= old(out)@ + arity_text(a));
}

/// Appends the text of a call with a wrong number of arguments.
fn push_bad_arg_count(out: &mut String, e: &BadArgCount)
    ensures
        final(out)@ == old(out)@ + bad_arg_count_text(*e),
{
    push_chars(out, "When evaluating ");
    push_chars(out, e.name);
    push_chars(out, " expected ");
    push_arity(out, e.expected);
    push_chars(out, " arguments, but received ");
    push_decimal(out, e.got);
    push_chars(out, " arguments");
    assert(out@ =~= old(out)@ + bad_arg_count_text(*e));
}

/// Appends the text of an error of the tokenizer.
fn push_tokenizer(out: &mut String, e: &TokenizerError)
    ensures
        final(out)@ == old(out)@ + tokenizer_text(e@),
{
    push_chars(out, "tokenizer failed: ");
    match e {
        TokenizerError::NoFirstCharacter => push_chars(out, "no characters to parse token from"),
        TokenizerError::BadTildeMatch => push_chars(out, "bad tilde match"),
        TokenizerError::UnbalancedString => push_chars(out, "unbalanced string literal"),
        TokenizerError::NoCapture(_) => push_chars(out, "no token can start here"),
    }
    assert(out@ =~= old(out)@ + tokenizer_text(e@));
}

/// The name of a kind of closing bracket.
fn close_str(c: Close) -> (r: &'static str)
    ensures
        r == close_name(c),
{
    match c {
        Close::Vector => "Vector",
        Close::HashMap => "Map",
        Close::List => "List",
    }
}

/// Appends the text of an escape that stands for nothing; `shown` is how its character
/// is shown.
pub fn push_unknown_escape(out: &mut String, shown: &str)
    ensures
        final(out)@ == old(out)@ + unknown_escape_text(shown@),
{
    push_chars(out, "UnknownEscape(");
    push_chars(out, shown);
    out.push(')');
    assert(out@ =~= old(out)@ + unknown_escape_text(shown@));
}

/// Appends the text of a text that is no string.
fn push_build(out: &mut String, e: BuildError)
    ensures
        final(out)@ == old(out)@ + build_text(e),
{
    match e {
        BuildError::UnknownEscape(c) => {
            let shown = debug_char(c);
            push_unknown_escape(out, shown.as_str());
        },
        BuildError::UnexpectedSingleBackslash => push_chars(out, "UnexpectedSingleBackslash"),
    }
}

/// Appends the text of an error of the reader.
fn push_read_error(out: &mut String, e: &crate::reader::Error)
    ensures
        final(out)@ == old(out)@ + read_failure_text(e@),
{
    push_chars(out, "Read error: ");
    match e {
        crate::reader::Error::TokenizerError(e) => push_tokenizer(out, e),
        crate::reader::Error::NoMoreTokens => push_chars(
            out,
            "ran out of tokens while scanning for a form.",
        ),
        crate::reader::Error::UnbalancedSequence => push_chars(
            out,
            "unbalanced sequence: list or vector missing a closing bracket.",
        ),
        crate::reader::Error::ReadIntError => push_chars(out, "failed to parse integer."),
        crate::reader::Error::ReadComment => push_chars(out, "read a comment instead of object"),
        crate::reader::Error::UnexpectedCloseToken(c) => {
            push_chars(out, "unexpected Close::");
            push_chars(out, close_str(*c));
            push_chars(out, " token while parsing");
        },
        crate::reader::Error::ReadMapError(e) => match e {
            MapError::MissingValue => push_chars(out, "MissingValue"),
            MapError::UnhashableKey => push_chars(out, "UnhashableKey"),
        },
        crate::reader::Error::StringError(e) => {
            push_chars(out, "error building string: ");
            push_build(out, *e);
        },
        crate::reader::Error::Unimplemented => push_chars(
            out,
            "haven't implemented this yet, but no need to panic!()",
        ),
    }
    assert(out@ =~= old(out)@ + read_failure_text(e@));
}

/// Appends the text of a request to the host.
fn push_request(out: &mut String, r: &HostRequest)
    ensures
        final(out)@ == old(out)@ + request_text(r@),
{
    match r {
        HostRequest::File(path) => {
            push_chars(out, "waiting for the host to read the file ");
            push_chars(out, path.as_str());
            assert(out@ =~= old(out)@ + request_text(r@));
        },
        HostRequest::Line(_) => push_chars(out, "waiting for the host to read a line"),
    }
}

/// Appends the text of an error of the evaluator.
pub fn push_error(out: &mut String, e: &Error, cells: &Vec<MalObject>)
    ensures
        final(out)@ == old(out)@ + failure_text(view_items(cells@), e@),
    decreases e,
{
    let ghost start = out@;
    let ghost text = failure_text(view_items(cells@), e@);
    match e {
        Error::UnknownSymbol(s) => {
            out.push('\'');
            push_chars(out, s.0.0.as_str());
            push_chars(out, "' not found");
        },
        Error::ListHeadNotSymbol => push_chars(
            out,
            "cannot apply list whose first entry is not a symbol",
        ),
        Error::TypeMismatch(e) => {
            push_chars(out, "type mismatch: ");
            push_chars(out, mismatch_str(*e));
        },
        Error::Def(e) => {
            push_chars(out, "def!: ");
            push_def(out, *e);
        },
        Error::Let(e) => {
            push_chars(out, "let*: ");
            push_let(out, *e);
        },
        Error::Do(_) => push_chars(out, "do: NothingToDo"),
        Error::Fn(e) => {
            push_chars(out, "fn*: ");
            push_fn(out, *e);
        },
        Error::BadArgCount(e) => push_bad_arg_count(out, e),
        Error::DivideByZero => push_chars(out, "cannot divide by zero!"),
        Error::ReadError(e) => {
            push_chars(out, "read error: ");
            push_read_error(out, e);
        },
        Error::IOError(why) => {
            push_chars(out, "io error: ");
            push_chars(out, why.as_str());
        },
        Error::BadIndex(i, low, high) => {
            push_chars(out, "bad index: ");
            push_int(out, *i);
            push_chars(out, " not in range [");
            push_decimal(out, *low);
            push_chars(out, ", ");
            push_decimal(out, *high);
            out.push(')');
        },
        Error::MissingCatchFromTry => push_chars(out, "bad syntax: missing catch* from try*"),
        Error::InCatchHandler(e) => {
            push_error(out, &*e.original, cells);
            push_chars(
                out,
                "\nWhile handling the above exception, another exception occurred: ",
            );
            push_error(out, &*e.after, cells);
        },
        Error::UserException(v) => {
            push_chars(out, "UserException: ");
            write_value(out, v, PrintMode::ReadableRepresentation, cells, 16);
        },
        Error::StepLimit => push_chars(
            out,
            "the evaluation took more steps than the step limit allows",
        ),
        Error::HostRequest(r) => push_request(out, r),
    }
    assert(out@ =~= start + text);
}

impl Error {
    /// The text in which the error is reported; `env` holds the cells that the atoms of a
    /// user's exception name.
    pub fn message(&self, env: &Environment) -> (r: String)
        ensures
            r@ == failure_text(env@.cells, self@),
    {
        let mut out = String::new();
        push_error(&mut out, self, &env.cells);
        assert(out@ =~= failure_text(env@.cells, self@));
        out
    }
}

impl crate::reader::Error {
    /// The text in which the error is reported.
    pub fn message(&self) -> (r: String)
        ensures
            r@ == read_failure_text(self@),
    {
        let mut out = String::new();
        push_read_error(&mut out, self);
        assert(out@ =~= read_failure_text(self@));
        out
    }
}

} // verus!
