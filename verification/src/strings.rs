//! Escapes in string literals: a backslash before a backslash, a double quote or the
//! letter `n` stands for a backslash, a double quote or a line feed.

use bimap::BiHashMap;
use vstd::prelude::*;

verus! {

/// The table type of the `bimap` crate: pairs of a left and a right value, each value
/// standing in at most one pair.
#[verifier::external_type_specification]
#[verifier::external_body]
#[verifier::reject_recursive_types(L)]
#[verifier::reject_recursive_types(R)]
#[verifier::reject_recursive_types(LS)]
#[verifier::reject_recursive_types(RS)]
pub struct ExBiHashMap<L, R, LS, RS>(BiHashMap<L, R, LS, RS>);

/// The pairs that a table of characters holds.
pub uninterp spec fn table_pairs(table: BiHashMap<char, char>) -> Set<(char, char)>;

/// `BiHashMap::new`: a table without pairs.
#[verifier::external_body]
fn table_new() -> (table: BiHashMap<char, char>)
    ensures
        table_pairs(table) == Set::<(char, char)>::empty(),
{
    BiHashMap::new()
}

/// `BiHashMap::insert`: the pair is added, after every pair with the same left or the
/// same right value has left the table.
#[verifier::external_body]
fn table_insert(table: &mut BiHashMap<char, char>, left: char, right: char)
    ensures
        table_pairs(*final(table)) == table_pairs(*old(table)).filter(
            |p: (char, char)| p.0 != left && p.1 != right,
        ).insert((left, right)),
{
    table.insert(left, right);
}

/// `BiHashMap::get_by_left`: the right value of the pair with this left value, if the
/// table holds one.
#[verifier::external_body]
fn table_get_by_left(table: &BiHashMap<char, char>, left: char) -> (r: Option<char>)
    ensures
        match r {
            Some(right) => table_pairs(*table).contains((left, right)),
            None => forall|right: char| !table_pairs(*table).contains((left, right)),
        },
{
    table.get_by_left(&left).copied()
}

/// `BiHashMap::get_by_right`: the left value of the pair with this right value, if the
/// table holds one.
#[verifier::external_body]
fn table_get_by_right(table: &BiHashMap<char, char>, right: char) -> (r: Option<char>)
    ensures
        match r {
            Some(left) => table_pairs(*table).contains((left, right)),
            None => forall|left: char| !table_pairs(*table).contains((left, right)),
        },
{
    table.get_by_right(&right).copied()
}

/// The escapes: the character after the backslash, and the character that the two stand for.
pub open spec fn escape_pairs() -> Set<(char, char)> {
    set![('\\', '\\'), ('"', '"'), ('n', '\n')]
}

/// What a backslash and `c` stand for.
pub open spec fn unescaped(c: char) -> Option<char> {
    if c == '\\' {
        Some('\\')
    } else if c == '"' {
        Some('"')
    } else if c == 'n' {
        Some('\n')
    } else {
        None
    }
}

/// The character that, after a backslash, stands for `c`.
pub open spec fn escaped(c: char) -> Option<char> {
    if c == '\\' {
        Some('\\')
    } else if c == '"' {
        Some('"')
    } else if c == '\n' {
        Some('n')
    } else {
        None
    }
}

/// The table of the escapes.
fn escapes() -> (table: BiHashMap<char, char>)
    ensures
        table_pairs(table) == escape_pairs(),
{
    let mut table = table_new();
    table_insert(&mut table, '\\', '\\');
    table_insert(&mut table, '"', '"');
    table_insert(&mut table, 'n', '\n');
    assert(table_pairs(table) =~= escape_pairs());
    table
}

/// What a backslash and `c` stand for.
fn unescape_char(table: &BiHashMap<char, char>, c: char) -> (r: Option<char>)
    requires
        table_pairs(*table) == escape_pairs(),
    ensures
        r == unescaped(c),
{
    let r = table_get_by_left(table, c);
    proof {
        if unescaped(c) is Some {
            assert(escape_pairs().contains((c, unescaped(c)->0)));
        }
    }
    r
}

/// The character that, after a backslash, stands for `c`.
fn escape_char(table: &BiHashMap<char, char>, c: char) -> (r: Option<char>)
    requires
        table_pairs(*table) == escape_pairs(),
    ensures
        r == escaped(c),
{
    let r = table_get_by_right(table, c);
    proof {
        if escaped(c) is Some {
            assert(escape_pairs().contains((escaped(c)->0, c)));
        }
    }
    r
}

/// Why the text between the quotes of a literal is no string.
#[derive(Clone, Copy, Debug, PartialEq, Eq, Structural)]
pub enum BuildError {
    UnknownEscape(char),
    UnexpectedSingleBackslash,
}

/// The string that the text of a literal from `i` on stands for: each escape replaced by
/// its character, every other character kept. The first backslash that starts no escape
/// makes it an error.
pub open spec fn unescape_from(src: Seq<char>, i: int) -> Result<Seq<char>, BuildError>
    decreases src.len() - i,
{
    if i < 0 || i >= src.len() {
        Ok(Seq::empty())
    } else if src[i] == '\\' {
        if i + 1 >= src.len() {
            Err(BuildError::UnexpectedSingleBackslash)
        } else {
            match unescaped(src[i + 1]) {
                None => Err(BuildError::UnknownEscape(src[i + 1])),
                Some(c) => match unescape_from(src, i + 2) {
                    Ok(rest) => Ok(seq![c] + rest),
                    Err(e) => Err(e),
                },
            }
        }
    } else {
        match unescape_from(src, i + 1) {
            Ok(rest) => Ok(seq![src[i]] + rest),
            Err(e) => Err(e),
        }
    }
}

/// The string that the text of a literal stands for.
pub open spec fn unescape(src: Seq<char>) -> Result<Seq<char>, BuildError> {
    unescape_from(src, 0)
}

/// `out` before what is left to unescape.
pub open spec fn unescape_after(out: Seq<char>, rest: Result<Seq<char>, BuildError>) -> Result<
    Seq<char>,
    BuildError,
> {
    match rest {
        Ok(tail) => Ok(out + tail),
        Err(e) => Err(e),
    }
}

/// The string that the characters between the quotes of a literal stand for.
pub fn build_chars(src: &Vec<char>) -> (r: Result<Vec<char>, BuildError>)
    ensures
        match r {
            Ok(out) => unescape(src@) == Ok::<Seq<char>, BuildError>(out@),
            Err(e) => unescape(src@) == Err::<Seq<char>, BuildError>(e),
        },
{
    let table = escapes();
    let mut out: Vec<char> = Vec::new();
    let mut i: usize = 0;
    assert(unescape_after(out@, unescape_from(src@, 0)) == unescape_from(src@, 0)) by {
        match unescape_from(src@, 0) {
            Ok(tail) => assert(out@ + tail =~= tail),
            Err(_) => {},
        }
    }
    while i < src.len()
        invariant
            i <= src.len(),
            table_pairs(table) == escape_pairs(),
            unescape(src@) == unescape_after(out@, unescape_from(src@, i as int)),
        decreases src.len() - i,
    {
        let ghost before = out@;
        if src[i] == '\\' {
            if i + 1 >= src.len() {
                return Err(BuildError::UnexpectedSingleBackslash);
            }
            match unescape_char(&table, src[i + 1]) {
                None => {
                    return Err(BuildError::UnknownEscape(src[i + 1]));
                },
                Some(c) => {
                    out.push(c);
                    proof {
                        match unescape_from(src@, i + 2) {
                            Ok(tail) => assert(before + (seq![c] + tail) =~= before.push(c)
                                + tail),
                            Err(_) => {},
                        }
                    }
                    i += 2;
                },
            }
        } else {
            out.push(src[i]);
            proof {
                match unescape_from(src@, i + 1) {
                    Ok(tail) => assert(before + (seq![src@[i as int]] + tail) =~= before.push(
                        src@[i as int],
                    ) + tail),
                    Err(_) => {},
                }
            }
            i += 1;
        }
    }
    assert(out@ + Seq::<char>::empty() =~= out@);
    Ok(out)
}

/// The string that the text between the quotes of a literal stands for.
pub fn build_string(src: &str) -> (r: Result<String, BuildError>)
    ensures
        match r {
            Ok(out) => unescape(src@) == Ok::<Seq<char>, BuildError>(out@),
            Err(e) => unescape(src@) == Err::<Seq<char>, BuildError>(e),
        },
{
    let chars = crate::text::chars_of(src);
    match build_chars(&chars) {
        Ok(out) => Ok(crate::text::string_of(&out)),
        Err(e) => Err(e),
    }
}

/// The first `n` characters of a string, each one that an escape stands for replaced by
/// that escape.
pub open spec fn escape_prefix(src: Seq<char>, n: int) -> Seq<char>
    decreases n,
{
    if n <= 0 {
        Seq::empty()
    } else {
        match escaped(src[n - 1]) {
            Some(c) => escape_prefix(src, n - 1).push('\\').push(c),
            None => escape_prefix(src, n - 1).push(src[n - 1]),
        }
    }
}

/// The literal that stands for a string: its characters between double quotes, with
/// backslashes, double quotes and line feeds written as escapes.
pub open spec fn literal_of(src: Seq<char>) -> Seq<char> {
    seq!['"'] + escape_prefix(src, src.len() as int) + seq!['"']
}

/// The literal that stands for a string.
pub fn string_repr(src: &str) -> (r: String)
    ensures
        r@ == literal_of(src@),
{
    let table = escapes();
    let chars = crate::text::chars_of(src);
    let mut output = String::new();
    output.push('"');
    let mut i: usize = 0;
    assert(output@ =~= seq!['"'] + escape_prefix(chars@, 0));
    while i < chars.len()
        invariant
            i <= chars.len(),
            table_pairs(table) == escape_pairs(),
            output@ == seq!['"'] + escape_prefix(chars@, i as int),
        decreases chars.len() - i,
    {
        let ghost before = escape_prefix(chars@, i as int);
        match escape_char(&table, chars[i]) {
            Some(c) => {
                output.push('\\');
                output.push(c);
                assert(output@ =~= seq!['"'] + before.push('\\').push(c));
            },
            None => {
                output.push(chars[i]);
                assert(output@ =~= seq!['"'] + before.push(chars@[i as int]));
            },
        }
        i += 1;
    }
    output.push('"');
    assert(output@ =~= literal_of(src@));
    output
}

} // verus!
