//! The tokenizer: source text to a sequence of tokens.

use crate::text::{chars_of, slice_string};
use vstd::prelude::*;

verus! {

/// A closing bracket, by the kind of sequence that it closes.
#[derive(Clone, Copy, Debug, PartialEq, Eq, Structural)]
pub enum Close {
    Vector,
    HashMap,
    List,
}

/// An opening bracket, by the kind of sequence that it opens.
#[derive(Clone, Copy, Debug, PartialEq, Eq, Structural)]
pub enum Open {
    Vector,
    HashMap,
    List,
}

/// A mark that stands before the form it applies to.
#[derive(Clone, Copy, Debug, PartialEq, Eq, Structural)]
pub enum UnaryOp {
    Quote,
    Quasiquote,
    Unquote,
    WithMeta,
    Deref,
    SpliceUnquote,
}

/// A token. A string literal holds the text between its quotes, a comment the text
/// after its semicolon.
#[derive(Debug)]
pub enum Token {
    Open(Open),
    Close(Close),
    UnaryOp(UnaryOp),
    StringLiteral(String),
    Comment(String),
    PlainChars(String),
}

/// The mathematical view of a [`Token`].
pub enum TokenView {
    Open(Open),
    Close(Close),
    UnaryOp(UnaryOp),
    StringLiteral(Seq<char>),
    Comment(Seq<char>),
    PlainChars(Seq<char>),
}

impl View for Token {
    type V = TokenView;

    open spec fn view(&self) -> TokenView {
        match self {
            Token::Open(o) => TokenView::Open(*o),
            Token::Close(c) => TokenView::Close(*c),
            Token::UnaryOp(u) => TokenView::UnaryOp(*u),
            Token::StringLiteral(s) => TokenView::StringLiteral(s@),
            Token::Comment(s) => TokenView::Comment(s@),
            Token::PlainChars(s) => TokenView::PlainChars(s@),
        }
    }
}

/// Why a text is no sequence of tokens.
#[derive(Debug)]
pub enum TokenizerError {
    /// Nothing but separators was left where a token had to start.
    NoFirstCharacter,
    BadTildeMatch,
    UnbalancedString,
    /// No token can start with the first character of the text that is held.
    NoCapture(String),
}

/// The mathematical view of a [`TokenizerError`].
pub enum TokenizerFailure {
    NoFirstCharacter,
    BadTildeMatch,
    UnbalancedString,
    NoCapture(Seq<char>),
}

impl View for TokenizerError {
    type V = TokenizerFailure;

    open spec fn view(&self) -> TokenizerFailure {
        match self {
            TokenizerError::NoFirstCharacter => TokenizerFailure::NoFirstCharacter,
            TokenizerError::BadTildeMatch => TokenizerFailure::BadTildeMatch,
            TokenizerError::UnbalancedString => TokenizerFailure::UnbalancedString,
            TokenizerError::NoCapture(s) => TokenizerFailure::NoCapture(s@),
        }
    }
}

/// The tokens of a sequence, in order.
pub open spec fn view_tokens(tokens: Seq<Token>) -> Seq<TokenView> {
    Seq::new(tokens.len(), |i: int| tokens[i]@)
}

/// White space: the characters with the Unicode property of that name.
pub open spec fn is_space(c: char) -> bool {
    ||| '\u{9}' <= c <= '\u{d}'
    ||| c == ' '
    ||| c == '\u{85}'
    ||| c == '\u{a0}'
    ||| c == '\u{1680}'
    ||| '\u{2000}' <= c <= '\u{200a}'
    ||| c == '\u{2028}'
    ||| c == '\u{2029}'
    ||| c == '\u{202f}'
    ||| c == '\u{205f}'
    ||| c == '\u{3000}'
}

/// What may stand between tokens: white space and commas.
pub open spec fn is_separator(c: char) -> bool {
    is_space(c) || c == ','
}

/// The characters that are a token by themselves.
pub open spec fn is_special(c: char) -> bool {
    ||| c == '['
    ||| c == ']'
    ||| c == '{'
    ||| c == '}'
    ||| c == '('
    ||| c == ')'
    ||| c == '\''
    ||| c == '`'
    ||| c == '~'
    ||| c == '^'
    ||| c == '@'
}

/// The characters that a run of plain characters is made of.
pub open spec fn is_plain(c: char) -> bool {
    !(is_space(c) || c == '[' || c == ']' || c == '{' || c == '}' || c == '(' || c == '\''
        || c == '\\' || c == '"' || c == '`' || c == ',' || c == ';' || c == ')')
}

/// The first place at or after `i` that holds no separator.
pub open spec fn skip_separators(s: Seq<char>, i: int) -> int
    decreases s.len() - i,
{
    if 0 <= i < s.len() && is_separator(s[i]) {
        skip_separators(s, i + 1)
    } else {
        i
    }
}

/// Skipping separators never goes back, nor beyond the end of the text.
pub proof fn skip_separators_advances(s: Seq<char>, i: int)
    ensures
        i <= skip_separators(s, i),
        0 <= i <= s.len() ==> skip_separators(s, i) <= s.len(),
    decreases s.len() - i,
{
    if 0 <= i < s.len() && is_separator(s[i]) {
        skip_separators_advances(s, i + 1);
    }
}

/// Where the inside of a string literal ends that goes on at `i`: at the first double
/// quote that no backslash escapes, at a backslash that escapes nothing on its line, or
/// at the end of the text.
pub open spec fn string_end(s: Seq<char>, i: int) -> int
    decreases s.len() - i,
{
    if i < 0 || i >= s.len() {
        i
    } else if s[i] == '\\' {
        if i + 1 < s.len() && s[i + 1] != '\n' {
            string_end(s, i + 2)
        } else {
            i
        }
    } else if s[i] == '"' {
        i
    } else {
        string_end(s, i + 1)
    }
}

/// Where the line ends that goes on at `i`.
pub open spec fn line_end(s: Seq<char>, i: int) -> int
    decreases s.len() - i,
{
    if 0 <= i < s.len() && s[i] != '\n' {
        line_end(s, i + 1)
    } else {
        i
    }
}

/// Where the run of plain characters ends that goes on at `i`.
pub open spec fn plain_end(s: Seq<char>, i: int) -> int
    decreases s.len() - i,
{
    if 0 <= i < s.len() && is_plain(s[i]) {
        plain_end(s, i + 1)
    } else {
        i
    }
}

/// Where the text of the token ends that starts at `i`. The rules are tried in this
/// order, and each takes as much as it can: `~@`; one special character; a string
/// literal, with its closing quote if it has one; a comment, to the end of its line; a
/// run of plain characters.
pub open spec fn capture_end(s: Seq<char>, i: int) -> int {
    if i < 0 || i >= s.len() {
        i
    } else if s[i] == '~' && i + 1 < s.len() && s[i + 1] == '@' {
        i + 2
    } else if is_special(s[i]) {
        i + 1
    } else if s[i] == '"' {
        let end = string_end(s, i + 1);
        if end < s.len() && s[end] == '"' {
            end + 1
        } else {
            end
        }
    } else if s[i] == ';' {
        line_end(s, i + 1)
    } else {
        plain_end(s, i)
    }
}

/// The inside of a string literal ends at or after its start, within the text.
pub proof fn string_end_advances(s: Seq<char>, i: int)
    ensures
        i <= string_end(s, i),
        0 <= i <= s.len() ==> string_end(s, i) <= s.len(),
    decreases s.len() - i,
{
    if 0 <= i < s.len() {
        if s[i] == '\\' {
            if i + 1 < s.len() && s[i + 1] != '\n' {
                string_end_advances(s, i + 2);
            }
        } else if s[i] != '"' {
            string_end_advances(s, i + 1);
        }
    }
}

/// A line ends at or after its start, within the text.
pub proof fn line_end_advances(s: Seq<char>, i: int)
    ensures
        i <= line_end(s, i),
        0 <= i <= s.len() ==> line_end(s, i) <= s.len(),
    decreases s.len() - i,
{
    if 0 <= i < s.len() && s[i] != '\n' {
        line_end_advances(s, i + 1);
    }
}

/// A run of plain characters ends at or after its start, within the text.
pub proof fn plain_end_advances(s: Seq<char>, i: int)
    ensures
        i <= plain_end(s, i),
        0 <= i <= s.len() ==> plain_end(s, i) <= s.len(),
    decreases s.len() - i,
{
    if 0 <= i < s.len() && is_plain(s[i]) {
        plain_end_advances(s, i + 1);
    }
}

/// A token ends at or after its start, within the text.
pub proof fn capture_end_advances(s: Seq<char>, i: int)
    ensures
        i <= capture_end(s, i),
        0 <= i <= s.len() ==> capture_end(s, i) <= s.len(),
{
    string_end_advances(s, i + 1);
    line_end_advances(s, i + 1);
    plain_end_advances(s, i);
}

/// How many backslashes stand in a row just before place `n`.
pub open spec fn backslashes_before(text: Seq<char>, n: int) -> nat
    decreases n,
{
    if n <= 0 || n > text.len() || text[n - 1] != '\\' {
        0
    } else {
        backslashes_before(text, n - 1) + 1
    }
}

/// The token that a text starting with a double quote is: a string literal, if it ends in
/// a double quote that no backslash escapes.
pub open spec fn string_literal_of(text: Seq<char>) -> Result<TokenView, TokenizerFailure> {
    if text.len() <= 1 || text[text.len() - 1] != '"' {
        Err(TokenizerFailure::UnbalancedString)
    } else if backslashes_before(text, text.len() - 1) % 2 == 1 {
        Err(TokenizerFailure::UnbalancedString)
    } else {
        Ok(TokenView::StringLiteral(text.subrange(1, text.len() - 1)))
    }
}

/// The token that a captured text is, by its first character.
pub open spec fn token_of(text: Seq<char>) -> Result<TokenView, TokenizerFailure> {
    if text.len() == 0 {
        Err(TokenizerFailure::NoFirstCharacter)
    } else if text[0] == '~' {
        if text.len() == 1 {
            Ok(TokenView::UnaryOp(UnaryOp::Unquote))
        } else if text[1] == '@' {
            Ok(TokenView::UnaryOp(UnaryOp::SpliceUnquote))
        } else {
            Err(TokenizerFailure::BadTildeMatch)
        }
    } else if text[0] == '[' {
        Ok(TokenView::Open(Open::Vector))
    } else if text[0] == '{' {
        Ok(TokenView::Open(Open::HashMap))
    } else if text[0] == '(' {
        Ok(TokenView::Open(Open::List))
    } else if text[0] == ']' {
        Ok(TokenView::Close(Close::Vector))
    } else if text[0] == '}' {
        Ok(TokenView::Close(Close::HashMap))
    } else if text[0] == ')' {
        Ok(TokenView::Close(Close::List))
    } else if text[0] == '\'' {
        Ok(TokenView::UnaryOp(UnaryOp::Quote))
    } else if text[0] == '`' {
        Ok(TokenView::UnaryOp(UnaryOp::Quasiquote))
    } else if text[0] == '^' {
        Ok(TokenView::UnaryOp(UnaryOp::WithMeta))
    } else if text[0] == '@' {
        Ok(TokenView::UnaryOp(UnaryOp::Deref))
    } else if text[0] == '"' {
        string_literal_of(text)
    } else if text[0] == ';' {
        Ok(TokenView::Comment(text.skip(1)))
    } else {
        Ok(TokenView::PlainChars(text))
    }
}

/// The tokens of the text from `i` on. Separators before and after a token are dropped.
/// Where no token can start the text is refused: with `NoFirstCharacter` at the end of
/// the text, with `NoCapture` and what is left of the text anywhere else.
pub open spec fn tokens_from(s: Seq<char>, i: int) -> Result<Seq<TokenView>, TokenizerFailure>
    decreases s.len() - i,
{
    if i < 0 || i >= s.len() {
        Ok(Seq::empty())
    } else {
        let start = skip_separators(s, i);
        let end = capture_end(s, start);
        if end <= start {
            if start >= s.len() {
                Err(TokenizerFailure::NoFirstCharacter)
            } else {
                Err(TokenizerFailure::NoCapture(s.skip(start)))
            }
        } else {
            proof {
                skip_separators_advances(s, i);
                capture_end_advances(s, start);
                skip_separators_advances(s, end);
            }
            match token_of(s.subrange(start, end)) {
                Err(e) => Err(e),
                Ok(token) => match tokens_from(s, skip_separators(s, end)) {
                    Err(e) => Err(e),
                    Ok(rest) => Ok(seq![token] + rest),
                },
            }
        }
    }
}

/// The tokens of a text.
pub open spec fn tokens_of(s: Seq<char>) -> Result<Seq<TokenView>, TokenizerFailure> {
    tokens_from(s, 0)
}

/// Whether a character is white space.
pub fn space(c: char) -> (r: bool)
    ensures
        r == is_space(c),
{
    ('\u{9}' <= c && c <= '\u{d}') || c == ' ' || c == '\u{85}' || c == '\u{a0}' || c
        == '\u{1680}' || ('\u{2000}' <= c && c <= '\u{200a}') || c == '\u{2028}' || c
        == '\u{2029}' || c == '\u{202f}' || c == '\u{205f}' || c == '\u{3000}'
}

/// Whether a character is a token by itself.
pub fn special(c: char) -> (r: bool)
    ensures
        r == is_special(c),
{
    c == '[' || c == ']' || c == '{' || c == '}' || c == '(' || c == ')' || c == '\'' || c == '`'
        || c == '~' || c == '^' || c == '@'
}

/// Whether a run of plain characters may hold a character.
pub fn plain(c: char) -> (r: bool)
    ensures
        r == is_plain(c),
{
    !(space(c) || c == '[' || c == ']' || c == '{' || c == '}' || c == '(' || c == '\'' || c
        == '\\' || c == '"' || c == '`' || c == ',' || c == ';' || c == ')')
}

/// The first place at or after `i` that holds no separator.
fn scan_separators(s: &Vec<char>, i: usize) -> (r: usize)
    requires
        i <= s.len(),
    ensures
        r == skip_separators(s@, i as int),
        i <= r <= s.len(),
{
    let mut j: usize = i;
    while j < s.len() && (space(s[j]) || s[j] == ',')
        invariant
            i <= j <= s.len(),
            skip_separators(s@, i as int) == skip_separators(s@, j as int),
        decreases s.len() - j,
    {
        j += 1;
    }
    j
}

/// Where the inside of a string literal ends that goes on at `i`.
fn scan_string(s: &Vec<char>, i: usize) -> (r: usize)
    requires
        i <= s.len(),
    ensures
        r == string_end(s@, i as int),
        i <= r <= s.len(),
{
    let mut j: usize = i;
    while j < s.len()
        invariant
            i <= j <= s.len(),
            string_end(s@, i as int) == string_end(s@, j as int),
        decreases s.len() - j,
    {
        if s[j] == '\\' {
            if j + 1 < s.len() && s[j + 1] != '\n' {
                j += 2;
            } else {
                return j;
            }
        } else if s[j] == '"' {
            return j;
        } else {
            j += 1;
        }
    }
    j
}

/// Where the line ends that goes on at `i`.
fn scan_line(s: &Vec<char>, i: usize) -> (r: usize)
    requires
        i <= s.len(),
    ensures
        r == line_end(s@, i as int),
        i <= r <= s.len(),
{
    let mut j: usize = i;
    while j < s.len() && s[j] != '\n'
        invariant
            i <= j <= s.len(),
            line_end(s@, i as int) == line_end(s@, j as int),
        decreases s.len() - j,
    {
        j += 1;
    }
    j
}

/// Where the run of plain characters ends that goes on at `i`.
fn scan_plain(s: &Vec<char>, i: usize) -> (r: usize)
    requires
        i <= s.len(),
    ensures
        r == plain_end(s@, i as int),
        i <= r <= s.len(),
{
    let mut j: usize = i;
    while j < s.len() && plain(s[j])
        invariant
            i <= j <= s.len(),
            plain_end(s@, i as int) == plain_end(s@, j as int),
        decreases s.len() - j,
    {
        j += 1;
    }
    j
}

/// Where the text of the token ends that starts at `i`.
fn scan_capture(s: &Vec<char>, i: usize) -> (r: usize)
    requires
        i <= s.len(),
    ensures
        r == capture_end(s@, i as int),
        i <= r <= s.len(),
{
    if i >= s.len() {
        i
    } else if s[i] == '~' && i + 1 < s.len() && s[i + 1] == '@' {
        i + 2
    } else if special(s[i]) {
        i + 1
    } else if s[i] == '"' {
        let end = scan_string(s, i + 1);
        if end < s.len() && s[end] == '"' {
            end + 1
        } else {
            end
        }
    } else if s[i] == ';' {
        scan_line(s, i + 1)
    } else {
        scan_plain(s, i)
    }
}

/// The token that a text starting with a double quote is.
pub fn tokenize_string_literal(text: &Vec<char>) -> (r: Result<Token, TokenizerError>)
    ensures
        match r {
            Ok(t) => string_literal_of(text@) == Ok::<TokenView, TokenizerFailure>(t@),
            Err(e) => string_literal_of(text@) == Err::<TokenView, TokenizerFailure>(e@),
        },
{
    if text.len() <= 1 || text[text.len() - 1] != '"' {
        return Err(TokenizerError::UnbalancedString);
    }
    let last: usize = text.len() - 1;
    let mut trailing_backslashes: usize = 0;
    while trailing_backslashes < last && text[last - trailing_backslashes - 1] == '\\'
        invariant
            last == text.len() - 1,
            trailing_backslashes <= last,
            backslashes_before(text@, last as int) == trailing_backslashes + backslashes_before(
                text@,
                last - trailing_backslashes,
            ),
        decreases last - trailing_backslashes,
    {
        trailing_backslashes += 1;
    }
    if trailing_backslashes % 2 == 1 {
        return Err(TokenizerError::UnbalancedString);
    }
    Ok(Token::StringLiteral(slice_string(text, 1, last)))
}

/// The token that a captured text is.
pub fn create_token(captured: &Vec<char>) -> (r: Result<Token, TokenizerError>)
    ensures
        match r {
            Ok(t) => token_of(captured@) == Ok::<TokenView, TokenizerFailure>(t@),
            Err(e) => token_of(captured@) == Err::<TokenView, TokenizerFailure>(e@),
        },
{
    if captured.len() == 0 {
        return Err(TokenizerError::NoFirstCharacter);
    }
    let first = captured[0];
    if first == '~' {
        if captured.len() == 1 {
            Ok(Token::UnaryOp(UnaryOp::Unquote))
        } else if captured[1] == '@' {
            Ok(Token::UnaryOp(UnaryOp::SpliceUnquote))
        } else {
            Err(TokenizerError::BadTildeMatch)
        }
    } else if first == '[' {
        Ok(Token::Open(Open::Vector))
    } else if first == '{' {
        Ok(Token::Open(Open::HashMap))
    } else if first == '(' {
        Ok(Token::Open(Open::List))
    } else if first == ']' {
        Ok(Token::Close(Close::Vector))
    } else if first == '}' {
        Ok(Token::Close(Close::HashMap))
    } else if first == ')' {
        Ok(Token::Close(Close::List))
    } else if first == '\'' {
        Ok(Token::UnaryOp(UnaryOp::Quote))
    } else if first == '`' {
        Ok(Token::UnaryOp(UnaryOp::Quasiquote))
    } else if first == '^' {
        Ok(Token::UnaryOp(UnaryOp::WithMeta))
    } else if first == '@' {
        Ok(Token::UnaryOp(UnaryOp::Deref))
    } else if first == '"' {
        tokenize_string_literal(captured)
    } else if first == ';' {
        let text = slice_string(captured, 1, captured.len());
        assert(captured@.subrange(1, captured.len() as int) == captured@.skip(1));
        Ok(Token::Comment(text))
    } else {
        let text = slice_string(captured, 0, captured.len());
        assert(captured@.subrange(0, captured.len() as int) == captured@);
        Ok(Token::PlainChars(text))
    }
}

/// `done` before what is left to tokenize.
pub open spec fn tokens_after(
    done: Seq<TokenView>,
    rest: Result<Seq<TokenView>, TokenizerFailure>,
) -> Result<Seq<TokenView>, TokenizerFailure> {
    match rest {
        Ok(tail) => Ok(done + tail),
        Err(e) => Err(e),
    }
}

/// The characters from `from` up to `to`.
fn sub_vec(s: &Vec<char>, from: usize, to: usize) -> (r: Vec<char>)
    requires
        from <= to <= s.len(),
    ensures
        r@ == s@.subrange(from as int, to as int),
{
    let mut out: Vec<char> = Vec::new();
    let mut i: usize = from;
    while i < to
        invariant
            from <= i <= to <= s.len(),
            out@ == s@.subrange(from as int, i as int),
        decreases to - i,
    {
        out.push(s[i]);
        i += 1;
        assert(s@.subrange(from as int, i as int) == s@.subrange(from as int, i - 1).push(
            s@[i - 1],
        ));
    }
    out
}

/// The tokens of a sequence of characters.
pub fn tokenize_chars(s: &Vec<char>) -> (r: Result<Vec<Token>, TokenizerError>)
    ensures
        match r {
            Ok(tokens) => tokens_of(s@) == Ok::<Seq<TokenView>, TokenizerFailure>(
                view_tokens(tokens@),
            ),
            Err(e) => tokens_of(s@) == Err::<Seq<TokenView>, TokenizerFailure>(e@),
        },
{
    let mut tokens: Vec<Token> = Vec::new();
    let mut i: usize = 0;
    assert(tokens_after(view_tokens(tokens@), tokens_from(s@, 0)) == tokens_from(s@, 0)) by {
        match tokens_from(s@, 0) {
            Ok(tail) => assert(view_tokens(tokens@) + tail =~= tail),
            Err(_) => {},
        }
    }
    while i < s.len()
        invariant
            i <= s.len(),
            tokens_of(s@) == tokens_after(view_tokens(tokens@), tokens_from(s@, i as int)),
        decreases s.len() - i,
    {
        let start = scan_separators(s, i);
        let end = scan_capture(s, start);
        if end <= start {
            if start >= s.len() {
                return Err(TokenizerError::NoFirstCharacter);
            } else {
                let rest = slice_string(s, start, s.len());
                assert(s@.subrange(start as int, s.len() as int) == s@.skip(start as int));
                return Err(TokenizerError::NoCapture(rest));
            }
        }
        let captured = sub_vec(s, start, end);
        let token = match create_token(&captured) {
            Ok(token) => token,
            Err(e) => {
                return Err(e);
            },
        };
        let ghost before = view_tokens(tokens@);
        let next = scan_separators(s, end);
        proof {
            match tokens_from(s@, next as int) {
                Ok(tail) => assert(before + (seq![token@] + tail) =~= before.push(token@) + tail),
                Err(_) => {},
            }
        }
        tokens.push(token);
        assert(view_tokens(tokens@) =~= before.push(token@));
        i = next;
    }
    assert(view_tokens(tokens@) + Seq::<TokenView>::empty() =~= view_tokens(tokens@));
    Ok(tokens)
}

/// The tokens of a text.
pub fn tokenize(input: &str) -> (r: Result<Vec<Token>, TokenizerError>)
    ensures
        match r {
            Ok(tokens) => tokens_of(input@) == Ok::<Seq<TokenView>, TokenizerFailure>(
                view_tokens(tokens@),
            ),
            Err(e) => tokens_of(input@) == Err::<Seq<TokenView>, TokenizerFailure>(e@),
        },
{
    let chars = chars_of(input);
    tokenize_chars(&chars)
}

} // verus!
