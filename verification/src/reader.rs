//! The reader: a sequence of tokens to a value.

use crate::strings::{build_string, unescape, BuildError};
use crate::text::{chars_of, digit_number, digit_value, same_text};
use crate::tokens::{
    tokenize, tokens_of, view_tokens, Close, Open, Token, TokenView, TokenizerError,
    TokenizerFailure, UnaryOp,
};
use crate::types::{
    build_keyword, build_map, list_of, map_from, vector_of, view_items, MalInt, MalObject, MapError,
    Value,
};
use vstd::prelude::*;

verus! {

/// Why a text is no form.
#[derive(Debug)]
pub enum Error {
    TokenizerError(TokenizerError),
    NoMoreTokens,
    UnbalancedSequence,
    ReadIntError,
    ReadComment,
    UnexpectedCloseToken(Close),
    Unimplemented,
    ReadMapError(MapError),
    StringError(BuildError),
}

/// The mathematical view of an [`Error`] of the reader.
pub enum ReadFailure {
    TokenizerError(TokenizerFailure),
    NoMoreTokens,
    UnbalancedSequence,
    ReadIntError,
    ReadComment,
    UnexpectedCloseToken(Close),
    Unimplemented,
    ReadMapError(MapError),
    StringError(BuildError),
}

impl View for Error {
    type V = ReadFailure;

    open spec fn view(&self) -> ReadFailure {
        match self {
            Error::TokenizerError(e) => ReadFailure::TokenizerError(e@),
            Error::NoMoreTokens => ReadFailure::NoMoreTokens,
            Error::UnbalancedSequence => ReadFailure::UnbalancedSequence,
            Error::ReadIntError => ReadFailure::ReadIntError,
            Error::ReadComment => ReadFailure::ReadComment,
            Error::UnexpectedCloseToken(c) => ReadFailure::UnexpectedCloseToken(*c),
            Error::Unimplemented => ReadFailure::Unimplemented,
            Error::ReadMapError(e) => ReadFailure::ReadMapError(*e),
            Error::StringError(e) => ReadFailure::StringError(*e),
        }
    }
}

/// The number that the first `n` of a sequence of decimal digits stand for.
pub open spec fn digits_value(digits: Seq<char>, n: int) -> int
    decreases n,
{
    if n <= 0 {
        0
    } else {
        digits_value(digits, n - 1) * 10 + match digit_value(digits[n - 1]) {
            Some(d) => d,
            None => 0,
        }
    }
}

/// Whether the characters from `from` on are all decimal digits.
pub open spec fn all_digits(text: Seq<char>, from: int) -> bool {
    forall|i: int| from <= i < text.len() ==> (#[trigger] digit_value(text[i])) is Some
}

/// The integer that a text stands for: an optional sign and then one decimal digit or
/// more, if the number fits the integers of the language.
pub open spec fn parse_int(text: Seq<char>) -> Option<MalInt> {
    let negative = text.len() > 0 && text[0] == '-';
    let signed = text.len() > 0 && (text[0] == '-' || text[0] == '+');
    let digits = if signed {
        text.skip(1)
    } else {
        text
    };
    if digits.len() == 0 || !all_digits(digits, 0) {
        None
    } else {
        let magnitude = digits_value(digits, digits.len() as int);
        let value = if negative {
            -magnitude
        } else {
            magnitude
        };
        if isize::MIN <= value <= isize::MAX {
            Some(value as isize)
        } else {
            None
        }
    }
}

/// The value that a run of plain characters stands for: an integer where it starts with a
/// digit, or with a sign and a digit; a keyword where it starts with a colon; `true`,
/// `false` and `nil`; a symbol otherwise.
pub open spec fn atom_of(text: Seq<char>) -> Result<Value, ReadFailure> {
    if text.len() == 0 {
        Ok(Value::Symbol(text))
    } else if text[0] == '+' || text[0] == '-' {
        if text.len() > 1 && digit_value(text[1]) is Some {
            int_of(text)
        } else {
            Ok(Value::Symbol(text))
        }
    } else if digit_value(text[0]) is Some {
        int_of(text)
    } else if text[0] == ':' {
        Ok(Value::Keyword(text.skip(1)))
    } else if text == "true"@ {
        Ok(Value::Bool(true))
    } else if text == "false"@ {
        Ok(Value::Bool(false))
    } else if text == "nil"@ {
        Ok(Value::Nil)
    } else {
        Ok(Value::Symbol(text))
    }
}

/// The integer value that a text stands for, or the error of a text that stands for none.
pub open spec fn int_of(text: Seq<char>) -> Result<Value, ReadFailure> {
    match parse_int(text) {
        Some(i) => Ok(Value::Integer(i)),
        None => Err(ReadFailure::ReadIntError),
    }
}

/// The symbol that a mark before a form becomes.
pub open spec fn op_name(op: UnaryOp) -> Seq<char> {
    match op {
        UnaryOp::Quote => "quote"@,
        UnaryOp::Quasiquote => "quasiquote"@,
        UnaryOp::Unquote => "unquote"@,
        UnaryOp::Deref => "deref"@,
        UnaryOp::SpliceUnquote => "splice-unquote"@,
        UnaryOp::WithMeta => "with-meta"@,
    }
}

/// The closing bracket of an opening one.
pub open spec fn closer_of(open: Open) -> Close {
    match open {
        Open::List => Close::List,
        Open::Vector => Close::Vector,
        Open::HashMap => Close::HashMap,
    }
}

/// The value that the elements between two brackets make.
pub open spec fn sequence_of(open: Open, items: Seq<Value>) -> Result<Value, ReadFailure> {
    match open {
        Open::List => Ok(list_of(items)),
        Open::Vector => Ok(vector_of(items)),
        Open::HashMap => match map_from(items) {
            Ok(m) => Ok(m),
            Err(e) => Err(ReadFailure::ReadMapError(e)),
        },
    }
}

/// The form that starts at place `pos`, and how many tokens it takes after its first.
///
/// An opening bracket starts a sequence that runs to its closing bracket. A closing
/// bracket is an error. Plain characters and string literals are values by themselves.
/// A comment is passed over, unless it is the last token. A mark makes a list of its
/// symbol and the next form; the metadata mark makes `(with-meta b a)` of the next two
/// forms `a` and `b`.
pub open spec fn read_form_at(tokens: Seq<TokenView>, pos: int) -> (Result<Value, ReadFailure>, nat)
    decreases tokens.len() - pos, 0int,
{
    if pos < 0 || pos >= tokens.len() {
        (Err(ReadFailure::NoMoreTokens), 0)
    } else {
        match tokens[pos] {
            TokenView::Open(open) => {
                let (r, used) = read_items(tokens, pos + 1, closer_of(open));
                match r {
                    Ok(items) => (sequence_of(open, items), used),
                    Err(e) => (Err(e), 0),
                }
            },
            TokenView::Close(kind) => (Err(ReadFailure::UnexpectedCloseToken(kind)), 0),
            TokenView::PlainChars(text) => (atom_of(text), 0),
            TokenView::StringLiteral(text) => match unescape(text) {
                Ok(s) => (Ok(Value::String(s)), 0),
                Err(e) => (Err(ReadFailure::StringError(e)), 0),
            },
            TokenView::Comment(_) => if pos + 1 >= tokens.len() {
                (Err(ReadFailure::ReadComment), 0)
            } else {
                let (r, extra) = read_form_at(tokens, pos + 1);
                (r, extra + 1)
            },
            TokenView::UnaryOp(UnaryOp::WithMeta) => {
                let (first, extra) = read_form_at(tokens, pos + 1);
                match first {
                    Err(e) => (Err(e), 0),
                    Ok(meta) => if pos + 2 + extra >= tokens.len() {
                        (Err(ReadFailure::NoMoreTokens), 0)
                    } else {
                        let (second, more) = read_form_at(tokens, pos + 2 + extra);
                        match second {
                            Err(e) => (Err(e), 0),
                            Ok(form) => (
                                Ok(list_of(seq![Value::Symbol("with-meta"@), form, meta])),
                                extra + more + 2,
                            ),
                        }
                    },
                }
            },
            TokenView::UnaryOp(op) => {
                let (r, extra) = read_form_at(tokens, pos + 1);
                match r {
                    Ok(form) => (Ok(list_of(seq![Value::Symbol(op_name(op)), form])), extra + 1),
                    Err(e) => (Err(e), 0),
                }
            },
        }
    }
}

/// The forms from place `pos` up to the closing bracket `closer`, and how many tokens
/// they take, the bracket included.
pub open spec fn read_items(tokens: Seq<TokenView>, pos: int, closer: Close) -> (
    Result<Seq<Value>, ReadFailure>,
    nat,
)
    decreases tokens.len() - pos, 1int,
{
    if pos < 0 || pos >= tokens.len() {
        (Err(ReadFailure::UnbalancedSequence), 0)
    } else if tokens[pos] == TokenView::Close(closer) {
        (Ok(Seq::empty()), 1)
    } else {
        let (r, extra) = read_form_at(tokens, pos);
        match r {
            Err(e) => (Err(e), 0),
            Ok(form) => if pos + 1 + extra >= tokens.len() {
                (Err(ReadFailure::UnbalancedSequence), 0)
            } else {
                let (rest, used) = read_items(tokens, pos + 1 + extra, closer);
                match rest {
                    Err(e) => (Err(e), 0),
                    Ok(items) => (Ok(seq![form] + items), 1 + extra + used),
                }
            },
        }
    }
}

/// The first form of a text.
pub open spec fn read_text(input: Seq<char>) -> Result<Value, ReadFailure> {
    match tokens_of(input) {
        Err(e) => Err(ReadFailure::TokenizerError(e)),
        Ok(tokens) => read_form_at(tokens, 0).0,
    }
}


/// The first digits of a number stand for no more than all of them.
pub proof fn digits_value_grows(digits: Seq<char>, n: int, m: int)
    requires
        0 <= n <= m,
    ensures
        0 <= digits_value(digits, n) <= digits_value(digits, m),
    decreases m,
{
    if n < m {
        digits_value_grows(digits, n, m - 1);
    } else if n > 0 {
        digits_value_grows(digits, n - 1, n - 1);
        digits_value_grows(digits, 0, n - 1);
    }
}

/// Whether a character is a decimal digit.
pub fn ascii_digit(c: char) -> (r: bool)
    ensures
        r == digit_value(c) is Some,
{
    digit_number(c).is_some()
}

/// The integer that a text stands for.
pub fn read_int(chars: &Vec<char>) -> (r: Result<MalObject, Error>)
    ensures
        match r {
            Ok(v) => int_of(chars@) == Ok::<Value, ReadFailure>(v@),
            Err(e) => int_of(chars@) == Err::<Value, ReadFailure>(e@),
        },
{
    let negative = chars.len() > 0 && chars[0] == '-';
    let start: usize = if chars.len() > 0 && (chars[0] == '-' || chars[0] == '+') {
        1
    } else {
        0
    };
    let ghost digits = if start == 1 {
        chars@.skip(1)
    } else {
        chars@
    };
    if start >= chars.len() {
        return Err(Error::ReadIntError);
    }
    let mut acc: isize = 0;
    let mut i: usize = start;
    while i < chars.len()
        invariant
            start <= i <= chars.len(),
            start <= 1,
            digits == if start == 1 {
                chars@.skip(1)
            } else {
                chars@
            },
            negative == (chars.len() > 0 && chars[0] == '-'),
            start == 1 <==> chars.len() > 0 && (chars[0] == '-' || chars[0] == '+'),
            forall|j: int| 0 <= j < i - start ==> (#[trigger] digit_value(digits[j])) is Some,
            acc == if negative {
                -digits_value(digits, i - start)
            } else {
                digits_value(digits, i - start)
            },
        decreases chars.len() - i,
    {
        assert(digits[i - start] == chars[i as int]);
        let d = match digit_number(chars[i]) {
            Some(d) => d,
            None => {
                assert(digit_value(digits[i - start]) is None);
                return Err(Error::ReadIntError);
            },
        };
        proof {
            digits_value_grows(digits, i - start + 1, digits.len() as int);
            digits_value_grows(digits, 0, i - start);
        }
        let shifted = match acc.checked_mul(10) {
            Some(m) => m,
            None => {
                return Err(Error::ReadIntError);
            },
        };
        let next = if negative {
            shifted.checked_sub(d as isize)
        } else {
            shifted.checked_add(d as isize)
        };
        acc = match next {
            Some(v) => v,
            None => {
                return Err(Error::ReadIntError);
            },
        };
        i += 1;
    }
    assert(all_digits(digits, 0));
    Ok(MalObject::Integer(acc))
}

/// The value that a run of plain characters stands for.
pub fn read_plain_chars(chars: &str) -> (r: Result<MalObject, Error>)
    ensures
        match r {
            Ok(v) => atom_of(chars@) == Ok::<Value, ReadFailure>(v@),
            Err(e) => atom_of(chars@) == Err::<Value, ReadFailure>(e@),
        },
{
    let text = chars_of(chars);
    if text.len() == 0 {
        return Ok(MalObject::new_symbol(chars));
    }
    let first = text[0];
    if first == '+' || first == '-' {
        if text.len() > 1 && ascii_digit(text[1]) {
            read_int(&text)
        } else {
            Ok(MalObject::new_symbol(chars))
        }
    } else if ascii_digit(first) {
        read_int(&text)
    } else if first == ':' {
        let name = crate::text::slice_string(&text, 1, text.len());
        assert(text@.subrange(1, text.len() as int) == text@.skip(1));
        Ok(build_keyword(name.as_str()))
    } else if same_text(chars, "true") {
        Ok(MalObject::Bool(true))
    } else if same_text(chars, "false") {
        Ok(MalObject::Bool(false))
    } else if same_text(chars, "nil") {
        Ok(MalObject::Nil)
    } else {
        Ok(MalObject::new_symbol(chars))
    }
}

/// The value of a token that is a value by itself.
pub fn read_atom(token: &Token) -> (r: Result<MalObject, Error>)
    ensures
        match token@ {
            TokenView::PlainChars(text) => match r {
                Ok(v) => atom_of(text) == Ok::<Value, ReadFailure>(v@),
                Err(e) => atom_of(text) == Err::<Value, ReadFailure>(e@),
            },
            TokenView::StringLiteral(text) => match r {
                Ok(v) => unescape(text) == Ok::<Seq<char>, BuildError>(v@->String_0) && v@ is String,
                Err(e) => unescape(text) is Err && e@ == ReadFailure::StringError(
                    unescape(text)->Err_0,
                ),
            },
            _ => r is Err && r->Err_0@ == ReadFailure::Unimplemented,
        },
{
    match token {
        Token::PlainChars(chars) => read_plain_chars(chars.as_str()),
        Token::StringLiteral(s) => match crate::types::build_string(s.as_str()) {
            Ok(text) => Ok(text),
            Err(e) => Err(Error::StringError(e)),
        },
        _ => Err(Error::Unimplemented),
    }
}

/// What `read_form` owes for the tokens from `pos` on.
pub open spec fn form_read(
    tokens: Seq<TokenView>,
    pos: int,
    r: (Result<MalObject, Error>, usize),
) -> bool {
    match r.0 {
        Ok(v) => read_form_at(tokens, pos).0 == Ok::<Value, ReadFailure>(v@) && r.1 == pos + 1
            + read_form_at(tokens, pos).1 && r.1 <= tokens.len(),
        Err(e) => read_form_at(tokens, pos).0 == Err::<Value, ReadFailure>(e@),
    }
}

/// What `read_sequence` owes for the tokens from `pos` on.
pub open spec fn items_read(
    tokens: Seq<TokenView>,
    pos: int,
    closer: Close,
    r: (Result<Vec<MalObject>, Error>, usize),
) -> bool {
    match r.0 {
        Ok(items) => read_items(tokens, pos, closer).0 == Ok::<Seq<Value>, ReadFailure>(
            view_items(items@),
        ) && r.1 == pos + read_items(tokens, pos, closer).1 && r.1 <= tokens.len(),
        Err(e) => read_items(tokens, pos, closer).0 == Err::<Seq<Value>, ReadFailure>(e@),
    }
}

/// The forms `done`, which took `count` tokens, before what is left of a sequence.
pub open spec fn items_after(
    done: Seq<Value>,
    count: int,
    rest: (Result<Seq<Value>, ReadFailure>, nat),
) -> (Result<Seq<Value>, ReadFailure>, nat) {
    match rest.0 {
        Ok(items) => (Ok(done + items), (count + rest.1) as nat),
        Err(e) => (Err(e), 0),
    }
}

/// The forms from `pos` up to the closing bracket, and the place after that bracket.
pub fn read_sequence(tokens: &Vec<Token>, pos: usize, closing_token: Close) -> (r: (
    Result<Vec<MalObject>, Error>,
    usize,
))
    ensures
        items_read(view_tokens(tokens@), pos as int, closing_token, r),
    decreases tokens.len() - pos, 1int,
{
    let ghost spec_tokens = view_tokens(tokens@);
    let mut elements: Vec<MalObject> = Vec::new();
    let mut cur: usize = pos;
    proof {
        let rest = read_items(spec_tokens, pos as int, closing_token);
        match rest.0 {
            Ok(items) => assert(view_items(elements@) + items =~= items),
            Err(_) => {},
        }
    }
    loop
        invariant
            spec_tokens == view_tokens(tokens@),
            pos <= cur,
            read_items(spec_tokens, pos as int, closing_token) == items_after(
                view_items(elements@),
                cur - pos,
                read_items(spec_tokens, cur as int, closing_token),
            ),
        decreases tokens.len() - cur,
    {
        if cur >= tokens.len() {
            return (Err(Error::UnbalancedSequence), cur);
        }
        let at_close = match &tokens[cur] {
            Token::Close(c) => *c == closing_token,
            _ => false,
        };
        assert(at_close == (spec_tokens[cur as int] == TokenView::Close(closing_token)));
        if at_close {
            assert(view_items(elements@) + Seq::<Value>::empty() =~= view_items(elements@));
            return (Ok(elements), cur + 1);
        }
        let (form, next) = read_form(tokens, cur);
        let form = match form {
            Ok(form) => form,
            Err(e) => {
                return (Err(e), cur);
            },
        };
        if next >= tokens.len() {
            return (Err(Error::UnbalancedSequence), cur);
        }
        proof {
            let before = view_items(elements@);
            let rest = read_items(spec_tokens, next as int, closing_token);
            match rest.0 {
                Ok(items) => assert(before + (seq![form@] + items) =~= before.push(form@)
                    + items),
                Err(_) => {},
            }
            assert(view_items(elements@.push(form)) =~= before.push(form@));
        }
        elements.push(form);
        cur = next;
    }
}

/// The list whose opening bracket stands before `pos`.
fn read_list(tokens: &Vec<Token>, pos: usize) -> (r: (Result<MalObject, Error>, usize))
    requires
        pos > 0,
        pos <= tokens.len(),
        tokens[pos - 1]@ == TokenView::Open(Open::List),
    ensures
        form_read(view_tokens(tokens@), pos - 1, r),
    decreases tokens.len() - pos, 2int,
{
    let (items, next) = read_sequence(tokens, pos, Close::List);
    match items {
        Ok(items) => (Ok(MalObject::wrap_list(items)), next),
        Err(e) => (Err(e), next),
    }
}

/// The vector whose opening bracket stands before `pos`.
fn read_vector(tokens: &Vec<Token>, pos: usize) -> (r: (Result<MalObject, Error>, usize))
    requires
        pos > 0,
        pos <= tokens.len(),
        tokens[pos - 1]@ == TokenView::Open(Open::Vector),
    ensures
        form_read(view_tokens(tokens@), pos - 1, r),
    decreases tokens.len() - pos, 2int,
{
    let (items, next) = read_sequence(tokens, pos, Close::Vector);
    match items {
        Ok(items) => (Ok(MalObject::wrap_vector(items)), next),
        Err(e) => (Err(e), next),
    }
}

/// The map whose opening bracket stands before `pos`.
fn read_map(tokens: &Vec<Token>, pos: usize) -> (r: (Result<MalObject, Error>, usize))
    requires
        pos > 0,
        pos <= tokens.len(),
        tokens[pos - 1]@ == TokenView::Open(Open::HashMap),
    ensures
        form_read(view_tokens(tokens@), pos - 1, r),
    decreases tokens.len() - pos, 2int,
{
    let (items, next) = read_sequence(tokens, pos, Close::HashMap);
    match items {
        Ok(items) => match build_map(items) {
            Ok(map) => (Ok(map), next),
            Err(e) => (Err(Error::ReadMapError(e)), next),
        },
        Err(e) => (Err(e), next),
    }
}

/// The list of the symbol `opname` and the form that starts at `pos`.
fn read_unary_operand(tokens: &Vec<Token>, pos: usize, opname: &str) -> (r: (
    Result<MalObject, Error>,
    usize,
))
    requires
        pos > 0,
        pos <= tokens.len(),
        tokens[pos - 1]@ is UnaryOp,
        tokens[pos - 1]@->UnaryOp_0 != UnaryOp::WithMeta,
        opname@ == op_name(tokens[pos - 1]@->UnaryOp_0),
    ensures
        form_read(view_tokens(tokens@), pos - 1, r),
    decreases tokens.len() - pos, 2int,
{
    let (form, next) = read_form(tokens, pos);
    match form {
        Ok(form) => {
            let mut list: Vec<MalObject> = Vec::new();
            list.push(MalObject::new_symbol(opname));
            list.push(form);
            assert(view_items(list@) =~= seq![Value::Symbol(opname@), form@]);
            (Ok(MalObject::wrap_list(list)), next)
        },
        Err(e) => (Err(e), next),
    }
}

/// The list `(with-meta b a)` of the two forms `a` and `b` that start at `pos`.
fn read_with_meta(tokens: &Vec<Token>, pos: usize) -> (r: (Result<MalObject, Error>, usize))
    requires
        pos > 0,
        pos <= tokens.len(),
        tokens[pos - 1]@ == TokenView::UnaryOp(UnaryOp::WithMeta),
    ensures
        form_read(view_tokens(tokens@), pos - 1, r),
    decreases tokens.len() - pos, 2int,
{
    let (first, next) = read_form(tokens, pos);
    let first = match first {
        Ok(first) => first,
        Err(e) => {
            return (Err(e), next);
        },
    };
    if next >= tokens.len() {
        return (Err(Error::NoMoreTokens), next);
    }
    let (second, after) = read_form(tokens, next);
    let second = match second {
        Ok(second) => second,
        Err(e) => {
            return (Err(e), after);
        },
    };
    let mut list: Vec<MalObject> = Vec::new();
    list.push(MalObject::new_symbol("with-meta"));
    list.push(second);
    list.push(first);
    assert(view_items(list@) =~= seq![Value::Symbol("with-meta"@), second@, first@]);
    (Ok(MalObject::wrap_list(list)), after)
}

/// The form that starts at `pos`, and the place after it.
pub fn read_form(tokens: &Vec<Token>, pos: usize) -> (r: (Result<MalObject, Error>, usize))
    ensures
        form_read(view_tokens(tokens@), pos as int, r),
    decreases tokens.len() - pos, 0int,
{
    if pos >= tokens.len() {
        return (Err(Error::NoMoreTokens), pos);
    }
    match &tokens[pos] {
        Token::Open(Open::List) => read_list(tokens, pos + 1),
        Token::Open(Open::Vector) => read_vector(tokens, pos + 1),
        Token::Open(Open::HashMap) => read_map(tokens, pos + 1),
        Token::Close(kind) => (Err(Error::UnexpectedCloseToken(*kind)), pos),
        Token::PlainChars(_) => (read_atom(&tokens[pos]), pos + 1),
        Token::StringLiteral(_) => (read_atom(&tokens[pos]), pos + 1),
        Token::Comment(_) => {
            if pos + 1 >= tokens.len() {
                (Err(Error::ReadComment), pos)
            } else {
                read_form(tokens, pos + 1)
            }
        },
        Token::UnaryOp(UnaryOp::Quote) => read_unary_operand(tokens, pos + 1, "quote"),
        Token::UnaryOp(UnaryOp::Quasiquote) => read_unary_operand(tokens, pos + 1, "quasiquote"),
        Token::UnaryOp(UnaryOp::Unquote) => read_unary_operand(tokens, pos + 1, "unquote"),
        Token::UnaryOp(UnaryOp::Deref) => read_unary_operand(tokens, pos + 1, "deref"),
        Token::UnaryOp(UnaryOp::SpliceUnquote) => read_unary_operand(
            tokens,
            pos + 1,
            "splice-unquote",
        ),
        Token::UnaryOp(UnaryOp::WithMeta) => read_with_meta(tokens, pos + 1),
    }
}

/// The first form of a text.
pub fn read_str(input: &str) -> (r: Result<MalObject, Error>)
    ensures
        match r {
            Ok(v) => read_text(input@) == Ok::<Value, ReadFailure>(v@),
            Err(e) => read_text(input@) == Err::<Value, ReadFailure>(e@),
        },
{
    let tokens = match tokenize(input) {
        Ok(tokens) => tokens,
        Err(e) => {
            return Err(Error::TokenizerError(e));
        },
    };
    read_form(&tokens, 0).0
}

} // verus!
