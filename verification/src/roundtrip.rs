//! Reading what was printed: the reader gives back every value that it can give, from
//! the text that the printer writes for it.

use crate::printer::{print_entries, print_items, print_string_key, print_value, PrintMode};
use crate::reader::{
    all_digits, atom_of, closer_of, digits_value, op_name, parse_int, read_form_at, read_items,
    read_text, ReadFailure,
};
use crate::tokens::UnaryOp;
use crate::strings::{escape_prefix, escaped, literal_of, unescape_from, unescaped, BuildError};
use crate::text::{decimal, digit_char, digit_value, int_text};
use crate::tokens::{
    backslashes_before, capture_end, is_plain, is_separator, is_special, plain_end, skip_separators,
    string_end, string_literal_of, token_of, tokens_after, tokens_from, tokens_of, Close, Open,
    TokenView, TokenizerFailure,
};
use crate::types::{bind_pairs, find_key, insert_entry, key_of, key_value, Key, MapError, Value};
use crate::laws::keys_are_distinct;
use vstd::prelude::*;

verus! {

// ---------------------------------------------------------------------------------------
// Numbers
// ---------------------------------------------------------------------------------------
/// A number in decimal is digits only, at least one, and they stand for the number.
pub proof fn decimal_reads_back(n: nat)
    ensures
        decimal(n).len() > 0,
        all_digits(decimal(n), 0),
        digits_value(decimal(n), decimal(n).len() as int) == n,
    decreases n,
{
    digit_char_reads_back((n % 10) as int);
    if n >= 10 {
        decimal_reads_back(n / 10);
        let shorter = decimal(n / 10);
        let whole = decimal(n);
        assert(whole == shorter.push(digit_char((n % 10) as int)));
        assert(whole[whole.len() - 1] == digit_char((n % 10) as int));
        assert forall|i: int| 0 <= i < whole.len() implies (#[trigger] digit_value(whole[i]))
            is Some by {
            if i < shorter.len() {
                assert(whole[i] == shorter[i]);
                assert(digit_value(shorter[i]) is Some);
            }
        }
        digits_value_of_prefix(whole, shorter, shorter.len() as int);
        assert(digits_value(whole, whole.len() as int) == digits_value(whole, whole.len() - 1)
            * 10 + (n % 10));
    } else {
        let whole = decimal(n);
        assert(whole[0] == digit_char(n as int));
        assert(digits_value(whole, 0) == 0);
        assert(digits_value(whole, 1) == digits_value(whole, 0) * 10 + n);
    }
}

/// A digit stands for the number that it was written for.
pub proof fn digit_char_reads_back(d: int)
    requires
        0 <= d < 10,
    ensures
        digit_value(digit_char(d)) == Some(d),
{
}

/// The number that the first digits stand for depends on those digits only.
pub proof fn digits_value_of_prefix(a: Seq<char>, b: Seq<char>, n: int)
    requires
        0 <= n <= a.len(),
        n <= b.len(),
        forall|i: int| 0 <= i < n ==> a[i] == b[i],
    ensures
        digits_value(a, n) == digits_value(b, n),
    decreases n,
{
    if n > 0 {
        digits_value_of_prefix(a, b, n - 1);
    }
}

/// The text of an integer is read back as that integer.
pub proof fn int_text_reads_back(i: isize)
    ensures
        parse_int(int_text(i as int)) == Some(i),
        int_text(i as int).len() > 0,
        i < 0 ==> int_text(i as int)[0] == '-' && int_text(i as int).len() > 1 && digit_value(
            int_text(i as int)[1],
        ) is Some,
        i >= 0 ==> digit_value(int_text(i as int)[0]) is Some,
{
    let text = int_text(i as int);
    if i < 0 {
        let magnitude = (-(i as int)) as nat;
        decimal_reads_back(magnitude);
        let digits = decimal(magnitude);
        assert(text == seq!['-'] + digits);
        assert(text.skip(1) =~= digits);
        assert(text[1] == digits[0]);
        assert(digit_value(digits[0]) is Some);
    } else {
        decimal_reads_back(i as nat);
        let digits = decimal(i as nat);
        assert(digit_value(digits[0]) is Some);
        assert(digits[0] != '-' && digits[0] != '+');
    }
}

// ---------------------------------------------------------------------------------------
// Strings
// ---------------------------------------------------------------------------------------
/// A string from place `k` on, each character that an escape stands for replaced by that
/// escape.
pub open spec fn escape_from(src: Seq<char>, k: int) -> Seq<char>
    decreases src.len() - k,
{
    if k < 0 || k >= src.len() {
        Seq::empty()
    } else {
        match escaped(src[k]) {
            Some(c) => seq!['\\', c] + escape_from(src, k + 1),
            None => seq![src[k]] + escape_from(src, k + 1),
        }
    }
}

/// Escaping from the front and from the back give the same text.
pub proof fn escape_both_ways(src: Seq<char>, k: int)
    requires
        0 <= k <= src.len(),
    ensures
        escape_prefix(src, k) + escape_from(src, k) == escape_from(src, 0),
    decreases k,
{
    if k == 0 {
        assert(escape_prefix(src, 0) + escape_from(src, 0) =~= escape_from(src, 0));
    } else {
        escape_both_ways(src, k - 1);
        let before = escape_prefix(src, k - 1);
        let rest = escape_from(src, k);
        match escaped(src[k - 1]) {
            Some(c) => {
                assert(before.push('\\').push(c) + rest =~= before + (seq!['\\', c] + rest));
            },
            None => {
                assert(before.push(src[k - 1]) + rest =~= before + (seq![src[k - 1]] + rest));
            },
        }
    }
}

/// The escaped text of a whole string.
pub proof fn escape_prefix_is_escape_from(src: Seq<char>)
    ensures
        escape_prefix(src, src.len() as int) == escape_from(src, 0),
{
    escape_both_ways(src, src.len() as int);
    assert(escape_prefix(src, src.len() as int) + escape_from(src, src.len() as int)
        =~= escape_prefix(src, src.len() as int));
}

/// Where a text holds, from place `j` on, nothing but the escaped text of a string from
/// place `k` on, it stands for the string from there on.
pub proof fn unescape_of_escaped(t: Seq<char>, j: int, src: Seq<char>, k: int)
    requires
        0 <= k <= src.len(),
        0 <= j <= t.len(),
        t.skip(j) == escape_from(src, k),
    ensures
        unescape_from(t, j) == Ok::<Seq<char>, BuildError>(src.skip(k)),
    decreases src.len() - k,
{
    if k == src.len() {
        assert(t.skip(j).len() == 0);
        assert(src.skip(k) =~= Seq::empty());
    } else {
        let rest = escape_from(src, k + 1);
        match escaped(src[k]) {
            Some(c) => {
                assert(t.skip(j) == seq!['\\', c] + rest);
                assert(t.skip(j)[0] == '\\' && t.skip(j)[1] == c);
                assert(t.skip(j).len() == 2 + rest.len());
                assert(t[j] == '\\' && t[j + 1] == c);
                assert forall|i: int| 0 <= i < rest.len() implies t.skip(j + 2)[i] == rest[i] by {
                    assert(t.skip(j)[i + 2] == rest[i]);
                }
                assert(t.skip(j + 2) =~= rest);
                unescape_of_escaped(t, j + 2, src, k + 1);
                assert(unescaped(c) == Some(src[k]));
                assert(seq![src[k]] + src.skip(k + 1) =~= src.skip(k));
            },
            None => {
                assert(t.skip(j) == seq![src[k]] + rest);
                assert(t.skip(j)[0] == src[k]);
                assert(t.skip(j).len() == 1 + rest.len());
                assert(t[j] == src[k]);
                assert forall|i: int| 0 <= i < rest.len() implies t.skip(j + 1)[i] == rest[i] by {
                    assert(t.skip(j)[i + 1] == rest[i]);
                }
                assert(t.skip(j + 1) =~= rest);
                unescape_of_escaped(t, j + 1, src, k + 1);
                assert(seq![src[k]] + src.skip(k + 1) =~= src.skip(k));
            },
        }
    }
}

/// The escaped text of a string stands for the string.
pub proof fn escaped_text_reads_back(src: Seq<char>)
    ensures
        unescape_from(escape_prefix(src, src.len() as int), 0) == Ok::<Seq<char>, BuildError>(src),
{
    escape_prefix_is_escape_from(src);
    let t = escape_from(src, 0);
    assert(t.skip(0) =~= t);
    unescape_of_escaped(t, 0, src, 0);
    assert(src.skip(0) =~= src);
}

/// Where a text holds at place `j` the escaped text of a string from place `k` on and
/// then a double quote, the inside of a string literal that goes on at `j` ends at that
/// quote.
pub proof fn string_end_of_escaped(s: Seq<char>, j: int, src: Seq<char>, k: int)
    requires
        0 <= k <= src.len(),
        0 <= j,
        j + escape_from(src, k).len() < s.len(),
        s.subrange(j, j + escape_from(src, k).len()) == escape_from(src, k),
        s[j + escape_from(src, k).len()] == '"',
    ensures
        string_end(s, j) == j + escape_from(src, k).len(),
    decreases src.len() - k,
{
    let here = escape_from(src, k);
    if k < src.len() {
        let rest = escape_from(src, k + 1);
        match escaped(src[k]) {
            Some(c) => {
                assert(here == seq!['\\', c] + rest);
                assert(s.subrange(j, j + here.len())[0] == '\\');
                assert(s.subrange(j, j + here.len())[1] == c);
                assert(s.subrange(j + 2, j + 2 + rest.len()) =~= rest) by {
                    assert forall|i: int| 0 <= i < rest.len() implies s[j + 2 + i] == rest[i] by {
                        assert(s.subrange(j, j + here.len())[i + 2] == here[i + 2]);
                    }
                }
                string_end_of_escaped(s, j + 2, src, k + 1);
            },
            None => {
                assert(here == seq![src[k]] + rest);
                assert(s.subrange(j, j + here.len())[0] == src[k]);
                assert(s.subrange(j + 1, j + 1 + rest.len()) =~= rest) by {
                    assert forall|i: int| 0 <= i < rest.len() implies s[j + 1 + i] == rest[i] by {
                        assert(s.subrange(j, j + here.len())[i + 1] == here[i + 1]);
                    }
                }
                string_end_of_escaped(s, j + 1, src, k + 1);
            },
        }
    }
}

/// How many backslashes stand before a place depends on the characters before it only.
pub proof fn backslashes_of_prefix(a: Seq<char>, b: Seq<char>, n: int)
    requires
        0 <= n <= a.len(),
        n <= b.len(),
        forall|i: int| 0 <= i < n ==> a[i] == b[i],
    ensures
        backslashes_before(a, n) == backslashes_before(b, n),
    decreases n,
{
    if n > 0 && a[n - 1] == '\\' {
        backslashes_of_prefix(a, b, n - 1);
    }
}

/// An escaped text ends in an even number of backslashes.
pub proof fn escaped_ends_in_even_backslashes(src: Seq<char>, m: int)
    requires
        0 <= m <= src.len(),
    ensures
        backslashes_before(escape_prefix(src, m), escape_prefix(src, m).len() as int) % 2 == 0,
    decreases m,
{
    if m > 0 {
        escaped_ends_in_even_backslashes(src, m - 1);
        let before = escape_prefix(src, m - 1);
        let whole = escape_prefix(src, m);
        match escaped(src[m - 1]) {
            Some(c) => {
                assert(whole == before.push('\\').push(c));
                if c == '\\' {
                    backslashes_of_prefix(whole, before, before.len() as int);
                    assert(backslashes_before(whole, whole.len() as int) == backslashes_before(
                        whole,
                        whole.len() - 1,
                    ) + 1);
                    assert(backslashes_before(whole, whole.len() - 1) == backslashes_before(
                        whole,
                        whole.len() - 2,
                    ) + 1);
                }
            },
            None => {
                assert(whole == before.push(src[m - 1]));
            },
        }
    }
}

/// A run of plain characters ends where the first character stands that is not plain.
pub proof fn plain_end_of_run(s: Seq<char>, i: int, n: int)
    requires
        0 <= i,
        0 <= n,
        i + n <= s.len(),
        forall|j: int| i <= j < i + n ==> is_plain(#[trigger] s[j]),
        i + n == s.len() || !is_plain(s[i + n]),
    ensures
        plain_end(s, i) == i + n,
    decreases n,
{
    if n > 0 {
        assert(is_plain(s[i]));
        plain_end_of_run(s, i + 1, n - 1);
    }
}


// ---------------------------------------------------------------------------------------
// The values that can be read
// ---------------------------------------------------------------------------------------
/// Whether every character is one that a run of plain characters is made of.
pub open spec fn all_plain(s: Seq<char>) -> bool {
    forall|i: int| 0 <= i < s.len() ==> is_plain(#[trigger] s[i])
}

/// Whether a key is one that the reader gives.
pub open spec fn readable_key(key: Key) -> bool {
    match key {
        Key::String(_) => true,
        Key::Keyword(s) => all_plain(s),
    }
}

/// The values that the reader gives: nil, the booleans, integers and strings; keywords
/// and symbols of plain characters, a symbol not empty, not starting like another token
/// and not what the reader takes for something else; lists, vectors and maps of such
/// values without metadata, a map with no key twice. No function and no atom is among
/// them.
pub open spec fn readable(v: Value) -> bool
    decreases v,
{
    match v {
        Value::Nil => true,
        Value::Bool(_) => true,
        Value::Integer(_) => true,
        Value::String(_) => true,
        Value::Keyword(s) => all_plain(s),
        Value::Symbol(s) => s.len() > 0 && all_plain(s) && !is_special(s[0]) && atom_of(s)
            == Ok::<Value, ReadFailure>(v),
        Value::List(items, meta) => *meta == Value::Nil && forall|i: int|
            0 <= i < items.len() ==> readable(#[trigger] items[i]),
        Value::Vector(items, meta) => *meta == Value::Nil && forall|i: int|
            0 <= i < items.len() ==> readable(#[trigger] items[i]),
        Value::HashMap(entries, meta) => *meta == Value::Nil && keys_are_distinct(entries)
            && forall|i: int|
            0 <= i < entries.len() ==> readable_key((#[trigger] entries[i]).0) && readable(
                entries[i].1,
            ),
        _ => false,
    }
}

/// The keys and values of the entries, one after the other.
pub open spec fn flat(entries: Seq<(Key, Value)>) -> Seq<Value> {
    Seq::new(
        2 * entries.len(),
        |i: int|
            if i % 2 == 0 {
                key_value(entries[i / 2].0)
            } else {
                entries[i / 2].1
            },
    )
}

/// How deep sequences are nested in a value.
pub open spec fn height(v: Value) -> nat
    decreases v, 0int,
{
    match v {
        Value::List(items, _) => 1 + heights(items, items.len() as int),
        Value::Vector(items, _) => 1 + heights(items, items.len() as int),
        Value::HashMap(entries, _) => 1 + entry_heights(entries, entries.len() as int),
        _ => 0,
    }
}

/// The greatest height among the first `n` items.
pub open spec fn heights(items: Seq<Value>, n: int) -> nat
    decreases items, n,
{
    if n <= 0 || n > items.len() {
        0
    } else {
        let before = heights(items, n - 1);
        let last = height(items[n - 1]);
        if before >= last {
            before
        } else {
            last
        }
    }
}

/// The greatest height among the values of the first `n` entries.
pub open spec fn entry_heights(entries: Seq<(Key, Value)>, n: int) -> nat
    decreases entries, n,
{
    if n <= 0 || n > entries.len() {
        0
    } else {
        let before = entry_heights(entries, n - 1);
        let last = height(entries[n - 1].1);
        if before >= last {
            before
        } else {
            last
        }
    }
}

/// No item is higher than the greatest height.
pub proof fn heights_bound(items: Seq<Value>, k: int, n: int)
    requires
        0 <= k < n <= items.len(),
    ensures
        height(items[k]) <= heights(items, n),
    decreases n,
{
    if k < n - 1 {
        heights_bound(items, k, n - 1);
    }
}

/// The keys and values of a map are as high as its values.
pub proof fn flat_heights(entries: Seq<(Key, Value)>, n: int)
    requires
        0 <= n <= entries.len(),
    ensures
        heights(flat(entries), 2 * n) == entry_heights(entries, n),
    decreases n,
{
    if n > 0 {
        flat_heights(entries, n - 1);
        let items = flat(entries);
        assert(items[2 * n - 2] == key_value(entries[n - 1].0));
        assert(items[2 * n - 1] == entries[n - 1].1);
        assert(height(key_value(entries[n - 1].0)) == 0);
        assert(heights(items, 2 * n - 1) == heights(items, 2 * n - 2));
    }
}

/// The keys and values of a map that can be read can be read.
pub proof fn flat_is_readable(entries: Seq<(Key, Value)>, i: int)
    requires
        forall|j: int|
            0 <= j < entries.len() ==> readable_key((#[trigger] entries[j]).0) && readable(
                entries[j].1,
            ),
        0 <= i < 2 * entries.len(),
    ensures
        readable(flat(entries)[i]),
{
    let j = i / 2;
    assert(readable_key(entries[j].0) && readable(entries[j].1));
}

// ---------------------------------------------------------------------------------------
// Tokens
// ---------------------------------------------------------------------------------------
/// The text of a value with its strings written as literals.
pub open spec fn written(cells: Seq<Value>, v: Value, depth: nat) -> Seq<char> {
    print_value(cells, v, PrintMode::ReadableRepresentation, depth)
}

/// The tokens of the items from place `k` on.
pub open spec fn items_tokens(cells: Seq<Value>, depth: nat, items: Seq<Value>, k: int) -> Seq<
    TokenView,
>
    decreases heights(items, items.len() as int), 1int, items.len() - k,
{
    if k < 0 || k >= items.len() {
        Seq::empty()
    } else {
        proof {
            heights_bound(items, k, items.len() as int);
        }
        value_tokens(cells, depth, items[k]) + items_tokens(cells, depth, items, k + 1)
    }
}

/// The tokens that the text of a value is made of.
pub open spec fn value_tokens(cells: Seq<Value>, depth: nat, v: Value) -> Seq<TokenView>
    decreases height(v), 0int, 0int,
{
    match v {
        Value::String(s) => seq![TokenView::StringLiteral(escape_prefix(s, s.len() as int))],
        Value::List(items, _) => seq![TokenView::Open(Open::List)] + items_tokens(
            cells,
            depth,
            items,
            0,
        ) + seq![TokenView::Close(Close::List)],
        Value::Vector(items, _) => seq![TokenView::Open(Open::Vector)] + items_tokens(
            cells,
            depth,
            items,
            0,
        ) + seq![TokenView::Close(Close::Vector)],
        Value::HashMap(entries, _) => {
            proof {
                flat_heights(entries, entries.len() as int);
            }
            seq![TokenView::Open(Open::HashMap)] + items_tokens(cells, depth, flat(entries), 0)
                + seq![TokenView::Close(Close::HashMap)]
        },
        _ => seq![TokenView::PlainChars(written(cells, v, depth))],
    }
}


/// A part of a sequence that is two sequences, one after the other, holds both in
/// their places.
pub proof fn parts_of_range<T>(ts: Seq<T>, p: int, a: Seq<T>, b: Seq<T>)
    requires
        0 <= p,
        p + a.len() + b.len() <= ts.len(),
        ts.subrange(p, p + a.len() + b.len()) == a + b,
    ensures
        ts.subrange(p, p + a.len()) == a,
        ts.subrange(p + a.len(), p + a.len() + b.len()) == b,
{
    let whole = ts.subrange(p, p + a.len() + b.len());
    let both = a + b;
    assert(whole.len() == a.len() + b.len());
    assert(both.len() == a.len() + b.len());
    assert forall|i: int| 0 <= i < a.len() implies ts[p + i] == a[i] by {
        assert(whole[i] == ts[p + i]);
        assert(both[i] == a[i]);
    }
    assert forall|i: int| 0 <= i < b.len() implies ts[p + a.len() + i] == b[i] by {
        assert(whole[a.len() + i] == ts[p + a.len() + i]);
        assert(both[a.len() + i] == b[i]);
    }
    assert(ts.subrange(p, p + a.len()) =~= a);
    assert(ts.subrange(p + a.len(), p + a.len() + b.len()) =~= b);
}

/// The text of a value that is no string and no sequence is a run of plain characters
/// that the reader takes for the value.
pub proof fn atom_reads_back(cells: Seq<Value>, depth: nat, v: Value)
    requires
        readable(v),
        v is Nil || v is Bool || v is Integer || v is Symbol || v is Keyword,
    ensures
        atom_of(written(cells, v, depth)) == Ok::<Value, ReadFailure>(v),
        written(cells, v, depth).len() > 0,
        all_plain(written(cells, v, depth)),
        !is_special(written(cells, v, depth)[0]),
{
    reveal_strlit("nil");
    reveal_strlit("true");
    reveal_strlit("false");
    let text = written(cells, v, depth);
    match v {
        Value::Nil => {
            assert(text[0] == 'n' && text[1] == 'i' && text[2] == 'l');
            assert(text != "true"@);
            assert(text != "false"@);
        },
        Value::Bool(b) => {
            if b {
                assert(text[0] == 't' && text[1] == 'r' && text[2] == 'u' && text[3] == 'e');
            } else {
                assert(text[0] == 'f' && text[1] == 'a' && text[2] == 'l' && text[3] == 's'
                    && text[4] == 'e');
                assert(text != "true"@);
            }
        },
        Value::Integer(i) => {
            int_text_reads_back(i);
            if i < 0 {
                let digits = decimal((-(i as int)) as nat);
                decimal_reads_back((-(i as int)) as nat);
                assert(text == seq!['-'] + digits);
                assert forall|j: int| 0 <= j < text.len() implies is_plain(#[trigger] text[j]) by {
                    if j > 0 {
                        assert(text[j] == digits[j - 1]);
                        assert(digit_value(digits[j - 1]) is Some);
                    }
                }
            } else {
                let digits = decimal(i as nat);
                decimal_reads_back(i as nat);
                assert forall|j: int| 0 <= j < text.len() implies is_plain(#[trigger] text[j]) by {
                    assert(digit_value(digits[j]) is Some);
                }
            }
        },
        Value::Symbol(s) => {},
        Value::Keyword(s) => {
            assert(text == seq![':'] + s);
            assert(text.skip(1) =~= s);
            assert forall|j: int| 0 <= j < text.len() implies is_plain(#[trigger] text[j]) by {
                if j > 0 {
                    assert(text[j] == s[j - 1]);
                }
            }
        },
        _ => {},
    }
}

/// The tokens of a value are at least one, and the first closes nothing.
pub proof fn value_tokens_start(cells: Seq<Value>, depth: nat, v: Value)
    ensures
        value_tokens(cells, depth, v).len() >= 1,
        !(value_tokens(cells, depth, v)[0] is Close),
{
}

/// Binding the keys and values of entries with no key twice gives the entries.
pub proof fn flat_binds(entries: Seq<(Key, Value)>, n: int)
    requires
        keys_are_distinct(entries),
        0 <= n <= entries.len(),
    ensures
        bind_pairs(Seq::empty(), flat(entries), n) == Ok::<Seq<(Key, Value)>, MapError>(
            entries.subrange(0, n),
        ),
    decreases n,
{
    if n == 0 {
        assert(entries.subrange(0, 0) =~= Seq::empty());
    } else {
        flat_binds(entries, n - 1);
        let before = entries.subrange(0, n - 1);
        let key = entries[n - 1].0;
        assert(flat(entries)[2 * (n - 1)] == key_value(key));
        assert(flat(entries)[2 * (n - 1) + 1] == entries[n - 1].1);
        assert forall|j: int| 0 <= j < before.len() implies (#[trigger] before[j]).0 != key by {
            assert(entries[j].0 != entries[n - 1].0);
        }
        crate::laws::find_key_absent(before, key, 0);
        assert(before.push(entries[n - 1]) =~= entries.subrange(0, n));
    }
}

/// The reader reads the tokens of a value as the value.
pub proof fn tokens_read_back(cells: Seq<Value>, depth: nat, v: Value, ts: Seq<TokenView>, p: int)
    requires
        readable(v),
        0 <= p,
        p + value_tokens(cells, depth, v).len() <= ts.len(),
        ts.subrange(p, p + value_tokens(cells, depth, v).len()) == value_tokens(cells, depth, v),
    ensures
        read_form_at(ts, p) == (
            Ok::<Value, ReadFailure>(v),
            (value_tokens(cells, depth, v).len() - 1) as nat,
        ),
    decreases height(v), 0int, 0int,
{
    let vt = value_tokens(cells, depth, v);
    assert(ts[p] == ts.subrange(p, p + vt.len())[0]);
    match v {
        Value::String(s) => {
            escaped_text_reads_back(s);
        },
        Value::List(items, _) => {
            sequence_reads_back(cells, depth, items, Open::List, ts, p);
        },
        Value::Vector(items, _) => {
            sequence_reads_back(cells, depth, items, Open::Vector, ts, p);
        },
        Value::HashMap(entries, _) => {
            flat_heights(entries, entries.len() as int);
            assert forall|i: int| 0 <= i < flat(entries).len() implies readable(
                #[trigger] flat(entries)[i],
            ) by {
                flat_is_readable(entries, i);
            }
            sequence_reads_back(cells, depth, flat(entries), Open::HashMap, ts, p);
            flat_binds(entries, entries.len() as int);
            assert(entries.subrange(0, entries.len() as int) =~= entries);
        },
        _ => {
            atom_reads_back(cells, depth, v);
        },
    }
}

/// The reader reads an opening bracket, the tokens of items and the closing bracket as
/// the items.
pub proof fn sequence_reads_back(
    cells: Seq<Value>,
    depth: nat,
    items: Seq<Value>,
    open: Open,
    ts: Seq<TokenView>,
    p: int,
)
    requires
        forall|i: int| 0 <= i < items.len() ==> readable(#[trigger] items[i]),
        0 <= p,
        p + items_tokens(cells, depth, items, 0).len() + 2 <= ts.len(),
        ts.subrange(p, p + items_tokens(cells, depth, items, 0).len() + 2) == seq![
            TokenView::Open(open),
        ] + items_tokens(cells, depth, items, 0) + seq![TokenView::Close(closer_of(open))],
    ensures
        read_items(ts, p + 1, closer_of(open)) == (
            Ok::<Seq<Value>, ReadFailure>(items),
            (items_tokens(cells, depth, items, 0).len() + 1) as nat,
        ),
        ts[p] == TokenView::Open(open),
    decreases heights(items, items.len() as int), 2int, 0int,
{
    let inner = items_tokens(cells, depth, items, 0);
    let whole = seq![TokenView::Open(open)] + inner + seq![TokenView::Close(closer_of(open))];
    assert(ts[p] == ts.subrange(p, p + inner.len() + 2)[0]);
    assert(whole[0] == TokenView::Open(open));
    assert(ts[p + 1 + inner.len()] == ts.subrange(p, p + inner.len() + 2)[1 + inner.len() as int]);
    assert(whole[1 + inner.len() as int] == TokenView::Close(closer_of(open)));
    assert(ts.subrange(p + 1, p + 1 + inner.len()) =~= inner) by {
        assert forall|i: int| 0 <= i < inner.len() implies ts[p + 1 + i] == inner[i] by {
            assert(ts.subrange(p, p + inner.len() + 2)[1 + i] == whole[1 + i]);
        }
    }
    items_read_back(cells, depth, items, 0, ts, p + 1, closer_of(open));
    assert(items.skip(0) =~= items);
}

/// The reader reads the tokens of the items from place `k` on and a closing bracket as
/// those items.
pub proof fn items_read_back(
    cells: Seq<Value>,
    depth: nat,
    items: Seq<Value>,
    k: int,
    ts: Seq<TokenView>,
    p: int,
    closer: Close,
)
    requires
        forall|i: int| 0 <= i < items.len() ==> readable(#[trigger] items[i]),
        0 <= k <= items.len(),
        0 <= p,
        p + items_tokens(cells, depth, items, k).len() < ts.len(),
        ts.subrange(p, p + items_tokens(cells, depth, items, k).len()) == items_tokens(
            cells,
            depth,
            items,
            k,
        ),
        ts[p + items_tokens(cells, depth, items, k).len()] == TokenView::Close(closer),
    ensures
        read_items(ts, p, closer) == (
            Ok::<Seq<Value>, ReadFailure>(items.skip(k)),
            (items_tokens(cells, depth, items, k).len() + 1) as nat,
        ),
    decreases heights(items, items.len() as int), 1int, items.len() - k,
{
    let here = items_tokens(cells, depth, items, k);
    if k == items.len() {
        assert(items.skip(k) =~= Seq::empty());
    } else {
        let first = value_tokens(cells, depth, items[k]);
        let rest = items_tokens(cells, depth, items, k + 1);
        assert(here == first + rest);
        value_tokens_start(cells, depth, items[k]);
        parts_of_range(ts, p, first, rest);
        assert(ts[p] == ts.subrange(p, p + first.len())[0]);
        heights_bound(items, k, items.len() as int);
        tokens_read_back(cells, depth, items[k], ts, p);
        items_read_back(cells, depth, items, k + 1, ts, p + first.len(), closer);
        assert(seq![items[k]] + items.skip(k + 1) =~= items.skip(k));
    }
}


// ---------------------------------------------------------------------------------------
// From text to tokens
// ---------------------------------------------------------------------------------------
/// A character held at a place of a part of a text.
pub proof fn char_of_range(s: Seq<char>, i: int, text: Seq<char>, k: int)
    requires
        0 <= i,
        i + text.len() <= s.len(),
        s.subrange(i, i + text.len()) == text,
        0 <= k < text.len(),
    ensures
        s[i + k] == text[k],
{
    assert(s.subrange(i, i + text.len())[k] == s[i + k]);
}

/// Tokens before tokens before what is left.
pub proof fn tokens_after_twice(
    a: Seq<TokenView>,
    b: Seq<TokenView>,
    rest: Result<Seq<TokenView>, TokenizerFailure>,
)
    ensures
        tokens_after(a, tokens_after(b, rest)) == tokens_after(a + b, rest),
{
    match rest {
        Ok(tail) => {
            assert(a + (b + tail) =~= (a + b) + tail);
        },
        Err(_) => {},
    }
}

/// Where a token starts at a place, the tokens from there on are that token and the
/// tokens after the separators that follow it.
pub proof fn one_token(s: Seq<char>, i: int, end: int, token: TokenView)
    requires
        0 <= i < s.len(),
        !is_separator(s[i]),
        capture_end(s, i) == end,
        i < end <= s.len(),
        token_of(s.subrange(i, end)) == Ok::<TokenView, TokenizerFailure>(token),
    ensures
        tokens_from(s, i) == tokens_after(seq![token], tokens_from(s, skip_separators(s, end))),
{
    assert(skip_separators(s, i) == i);
}

/// A bracket is a token by itself.
pub proof fn bracket_token(s: Seq<char>, i: int, token: TokenView)
    requires
        0 <= i < s.len(),
        (s[i] == '(' && token == TokenView::Open(Open::List)) || (s[i] == '[' && token
            == TokenView::Open(Open::Vector)) || (s[i] == '{' && token == TokenView::Open(
            Open::HashMap,
        )) || (s[i] == ')' && token == TokenView::Close(Close::List)) || (s[i] == ']' && token
            == TokenView::Close(Close::Vector)) || (s[i] == '}' && token == TokenView::Close(
            Close::HashMap,
        )),
    ensures
        tokens_from(s, i) == tokens_after(seq![token], tokens_from(s, skip_separators(s, i + 1))),
{
    assert(s.subrange(i, i + 1)[0] == s[i]);
    one_token(s, i, i + 1, token);
}

/// How many backslashes stand at the end of a text does not change when a text that
/// ends in no backslash is put before it.
pub proof fn backslashes_after_other(pre: Seq<char>, e: Seq<char>, n: int)
    requires
        pre.len() > 0,
        pre[pre.len() - 1] != '\\',
        0 <= n <= e.len(),
    ensures
        backslashes_before(pre + e, pre.len() + n) == backslashes_before(e, n),
    decreases n,
{
    let t = pre + e;
    if n > 0 {
        assert(t[pre.len() + n - 1] == e[n - 1]);
        if e[n - 1] == '\\' {
            backslashes_after_other(pre, e, n - 1);
        }
    } else {
        assert(t[pre.len() - 1] == pre[pre.len() - 1]);
    }
}

/// The literal of a string is one token, which holds the escaped text of the string.
pub proof fn literal_is_a_token(src: Seq<char>)
    ensures
        string_literal_of(literal_of(src)) == Ok::<TokenView, TokenizerFailure>(
            TokenView::StringLiteral(escape_prefix(src, src.len() as int)),
        ),
        token_of(literal_of(src)) == string_literal_of(literal_of(src)),
{
    let e = escape_prefix(src, src.len() as int);
    let text = literal_of(src);
    let pre = seq!['"'];
    assert(text == pre + e + seq!['"']);
    assert(text.len() == e.len() + 2);
    assert(text[0] == '"');
    assert(text[text.len() - 1] == '"');
    escaped_ends_in_even_backslashes(src, src.len() as int);
    backslashes_after_other(pre, e, e.len() as int);
    backslashes_of_prefix(text, pre + e, 1 + e.len() as int);
    assert(text.subrange(1, text.len() - 1) =~= e);
}

/// The text of a string is one token.
pub proof fn string_text_tokenizes(s: Seq<char>, i: int, src: Seq<char>)
    requires
        0 <= i,
        i + literal_of(src).len() <= s.len(),
        s.subrange(i, i + literal_of(src).len()) == literal_of(src),
    ensures
        tokens_from(s, i) == tokens_after(
            seq![TokenView::StringLiteral(escape_prefix(src, src.len() as int))],
            tokens_from(s, skip_separators(s, i + literal_of(src).len())),
        ),
{
    let e = escape_prefix(src, src.len() as int);
    let text = literal_of(src);
    assert(text == seq!['"'] + e + seq!['"']);
    assert(text.len() == e.len() + 2);
    char_of_range(s, i, text, 0);
    char_of_range(s, i, text, text.len() - 1);
    assert(text[0] == '"');
    assert(text[text.len() - 1] == '"');
    escape_prefix_is_escape_from(src);
    assert(s.subrange(i + 1, i + 1 + e.len()) =~= e) by {
        assert forall|k: int| 0 <= k < e.len() implies s[i + 1 + k] == e[k] by {
            char_of_range(s, i, text, k + 1);
        }
    }
    string_end_of_escaped(s, i + 1, src, 0);
    literal_is_a_token(src);
    one_token(s, i, i + text.len(), TokenView::StringLiteral(e));
}

/// The text of a value that is no string and no sequence is one token.
pub proof fn atom_text_tokenizes(cells: Seq<Value>, depth: nat, v: Value, s: Seq<char>, i: int)
    requires
        readable(v),
        v is Nil || v is Bool || v is Integer || v is Symbol || v is Keyword,
        0 <= i,
        i + written(cells, v, depth).len() <= s.len(),
        s.subrange(i, i + written(cells, v, depth).len()) == written(cells, v, depth),
        i + written(cells, v, depth).len() == s.len() || !is_plain(
            s[i + written(cells, v, depth).len()],
        ),
    ensures
        tokens_from(s, i) == tokens_after(
            seq![TokenView::PlainChars(written(cells, v, depth))],
            tokens_from(s, skip_separators(s, i + written(cells, v, depth).len())),
        ),
{
    let text = written(cells, v, depth);
    atom_reads_back(cells, depth, v);
    char_of_range(s, i, text, 0);
    assert(is_plain(text[0]));
    assert forall|j: int| i <= j < i + text.len() implies is_plain(#[trigger] s[j]) by {
        char_of_range(s, i, text, j - i);
        assert(is_plain(text[j - i]));
    }
    plain_end_of_run(s, i, text.len() as int);
    one_token(s, i, i + text.len(), TokenView::PlainChars(text));
}

/// The texts of the items from place `k` on, with one space between each two.
pub open spec fn items_text(cells: Seq<Value>, depth: nat, items: Seq<Value>, k: int) -> Seq<char>
    decreases items.len() - k,
{
    if k < 0 || k >= items.len() {
        Seq::empty()
    } else if k + 1 == items.len() {
        written(cells, items[k], depth)
    } else {
        written(cells, items[k], depth) + seq![' '] + items_text(cells, depth, items, k + 1)
    }
}

/// The text of items is the text of the first `m` of them and then that of the others.
pub proof fn items_text_splits(cells: Seq<Value>, depth: nat, items: Seq<Value>, m: int)
    requires
        1 <= m <= items.len(),
    ensures
        print_items(cells, items, PrintMode::ReadableRepresentation, depth, items.len() as int)
            == print_items(cells, items, PrintMode::ReadableRepresentation, depth, m) + if m
            < items.len() {
            seq![' '] + items_text(cells, depth, items, m)
        } else {
            Seq::empty()
        },
    decreases items.len() - m,
{
    let mode = PrintMode::ReadableRepresentation;
    let whole = print_items(cells, items, mode, depth, items.len() as int);
    let before = print_items(cells, items, mode, depth, m);
    if m == items.len() {
        assert(whole =~= before + Seq::<char>::empty());
    } else {
        items_text_splits(cells, depth, items, m + 1);
        let item = written(cells, items[m], depth);
        assert(print_items(cells, items, mode, depth, m + 1) == before + seq![' '] + item);
        if m + 1 < items.len() {
            let rest = items_text(cells, depth, items, m + 1);
            assert(before + seq![' '] + item + (seq![' '] + rest) =~= before + (seq![' '] + (item
                + seq![' '] + rest)));
        } else {
            assert(before + seq![' '] + item + Seq::<char>::empty() =~= before + (seq![' ']
                + item));
        }
    }
}

/// The text of items, written from the back, is their text written from the front.
pub proof fn items_text_is_printed(cells: Seq<Value>, depth: nat, items: Seq<Value>)
    ensures
        print_items(cells, items, PrintMode::ReadableRepresentation, depth, items.len() as int)
            == items_text(cells, depth, items, 0),
{
    if items.len() > 0 {
        items_text_splits(cells, depth, items, 1);
        let first = written(cells, items[0], depth);
        if items.len() > 1 {
            let rest = items_text(cells, depth, items, 1);
            assert(first + (seq![' '] + rest) =~= first + seq![' '] + rest);
        } else {
            assert(first + Seq::<char>::empty() =~= first);
        }
    }
}

/// The text of the entries of a map is the text of its keys and values as items.
pub proof fn entries_text_is_items_text(
    cells: Seq<Value>,
    depth: nat,
    entries: Seq<(Key, Value)>,
    n: int,
)
    requires
        0 <= n <= entries.len(),
    ensures
        print_entries(cells, entries, PrintMode::ReadableRepresentation, depth, n) == print_items(
            cells,
            flat(entries),
            PrintMode::ReadableRepresentation,
            depth,
            2 * n,
        ),
    decreases n,
{
    let mode = PrintMode::ReadableRepresentation;
    let items = flat(entries);
    if n > 0 {
        entries_text_is_items_text(cells, depth, entries, n - 1);
        assert(items[2 * n - 2] == key_value(entries[n - 1].0));
        assert(items[2 * n - 1] == entries[n - 1].1);
        let key_text = print_string_key(entries[n - 1].0, mode);
        assert(print_value(cells, key_value(entries[n - 1].0), mode, depth) == key_text);
        let value_text = print_value(cells, entries[n - 1].1, mode, depth);
        if n == 1 {
            assert(print_items(cells, items, mode, depth, 1) == key_text);
        } else {
            let before = print_items(cells, items, mode, depth, 2 * n - 2);
            assert(print_items(cells, items, mode, depth, 2 * n - 1) == before + seq![' ']
                + key_text);
        }
    }
}

/// The text of a value that can be read is not empty and starts with no separator.
pub proof fn text_starts(cells: Seq<Value>, depth: nat, v: Value)
    requires
        readable(v),
    ensures
        written(cells, v, depth).len() > 0,
        !is_separator(written(cells, v, depth)[0]),
{
    match v {
        Value::String(s) => {
            assert(written(cells, v, depth)[0] == '"');
        },
        Value::List(items, _) => {
            assert(written(cells, v, depth)[0] == '(');
        },
        Value::Vector(items, _) => {
            assert(written(cells, v, depth)[0] == '[');
        },
        Value::HashMap(entries, _) => {
            assert(written(cells, v, depth)[0] == '{');
        },
        _ => {
            atom_reads_back(cells, depth, v);
            assert(is_plain(written(cells, v, depth)[0]));
        },
    }
}

/// The closing bracket of a kind, as a character.
pub open spec fn closing_char(close: Close) -> char {
    match close {
        Close::List => ')',
        Close::Vector => ']',
        Close::HashMap => '}',
    }
}

/// The opening bracket of a kind, as a character.
pub open spec fn opening_char(open: Open) -> char {
    match open {
        Open::List => '(',
        Open::Vector => '[',
        Open::HashMap => '{',
    }
}

/// The text of a value, where it stands in a text and a run of plain characters would
/// end after it, is the tokens of the value.
pub proof fn text_tokenizes(cells: Seq<Value>, depth: nat, v: Value, s: Seq<char>, i: int)
    requires
        readable(v),
        0 <= i,
        i + written(cells, v, depth).len() <= s.len(),
        s.subrange(i, i + written(cells, v, depth).len()) == written(cells, v, depth),
        i + written(cells, v, depth).len() == s.len() || !is_plain(
            s[i + written(cells, v, depth).len()],
        ),
    ensures
        tokens_from(s, i) == tokens_after(
            value_tokens(cells, depth, v),
            tokens_from(s, skip_separators(s, i + written(cells, v, depth).len())),
        ),
    decreases height(v), 0int, 0int,
{
    let mode = PrintMode::ReadableRepresentation;
    match v {
        Value::String(src) => {
            string_text_tokenizes(s, i, src);
        },
        Value::List(items, _) => {
            assert(written(cells, v, depth) == seq!['('] + print_items(
                cells,
                items,
                mode,
                depth,
                items.len() as int,
            ) + seq![')']);
            sequence_text_tokenizes(cells, depth, items, Open::List, s, i);
        },
        Value::Vector(items, _) => {
            assert(written(cells, v, depth) == seq!['['] + print_items(
                cells,
                items,
                mode,
                depth,
                items.len() as int,
            ) + seq![']']);
            sequence_text_tokenizes(cells, depth, items, Open::Vector, s, i);
        },
        Value::HashMap(entries, _) => {
            flat_heights(entries, entries.len() as int);
            entries_text_is_items_text(cells, depth, entries, entries.len() as int);
            assert forall|j: int| 0 <= j < flat(entries).len() implies readable(
                #[trigger] flat(entries)[j],
            ) by {
                flat_is_readable(entries, j);
            }
            assert(written(cells, v, depth) == seq!['{'] + print_items(
                cells,
                flat(entries),
                mode,
                depth,
                flat(entries).len() as int,
            ) + seq!['}']);
            sequence_text_tokenizes(cells, depth, flat(entries), Open::HashMap, s, i);
        },
        _ => {
            atom_text_tokenizes(cells, depth, v, s, i);
        },
    }
}

/// The text of a sequence, where it stands in a text, is an opening bracket, the tokens
/// of the items and the closing bracket.
pub proof fn sequence_text_tokenizes(
    cells: Seq<Value>,
    depth: nat,
    items: Seq<Value>,
    open: Open,
    s: Seq<char>,
    i: int,
)
    requires
        forall|j: int| 0 <= j < items.len() ==> readable(#[trigger] items[j]),
        0 <= i,
        i + print_items(
            cells,
            items,
            PrintMode::ReadableRepresentation,
            depth,
            items.len() as int,
        ).len() + 2 <= s.len(),
        s.subrange(
            i,
            i + print_items(
                cells,
                items,
                PrintMode::ReadableRepresentation,
                depth,
                items.len() as int,
            ).len() + 2,
        ) == seq![opening_char(open)] + print_items(
            cells,
            items,
            PrintMode::ReadableRepresentation,
            depth,
            items.len() as int,
        ) + seq![closing_char(closer_of(open))],
    ensures
        tokens_from(s, i) == tokens_after(
            seq![TokenView::Open(open)] + items_tokens(cells, depth, items, 0) + seq![
                TokenView::Close(closer_of(open)),
            ],
            tokens_from(
                s,
                skip_separators(
                    s,
                    i + print_items(
                        cells,
                        items,
                        PrintMode::ReadableRepresentation,
                        depth,
                        items.len() as int,
                    ).len() + 2,
                ),
            ),
        ),
    decreases heights(items, items.len() as int), 2int, 0int,
{
    let inner = print_items(
        cells,
        items,
        PrintMode::ReadableRepresentation,
        depth,
        items.len() as int,
    );
    let whole = seq![opening_char(open)] + inner + seq![closing_char(closer_of(open))];
    let close = closer_of(open);
    let after = tokens_from(s, skip_separators(s, i + inner.len() + 2));
    assert(whole.len() == inner.len() + 2);
    char_of_range(s, i, whole, 0);
    char_of_range(s, i, whole, inner.len() as int + 1);
    assert(whole[0] == opening_char(open));
    assert(whole[inner.len() as int + 1] == closing_char(close));
    bracket_token(s, i, TokenView::Open(open));
    items_text_is_printed(cells, depth, items);
    assert(s.subrange(i + 1, i + 1 + inner.len()) =~= inner) by {
        assert forall|k: int| 0 <= k < inner.len() implies s[i + 1 + k] == inner[k] by {
            char_of_range(s, i, whole, k + 1);
            assert(whole[k + 1] == inner[k]);
        }
    }
    let tokens = items_tokens(cells, depth, items, 0);
    if items.len() == 0 {
        assert(inner.len() == 0);
        assert(skip_separators(s, i + 1) == i + 1);
        bracket_token(s, i + 1, TokenView::Close(close));
        tokens_after_twice(seq![TokenView::Open(open)], seq![TokenView::Close(close)], after);
        assert(seq![TokenView::Open(open)] + tokens + seq![TokenView::Close(close)] =~= seq![
            TokenView::Open(open),
        ] + seq![TokenView::Close(close)]);
    } else {
        text_starts(cells, depth, items[0]);
        let first = written(cells, items[0], depth);
        assert(inner[0] == first[0]) by {
            if items.len() > 1 {
                assert(inner == first + seq![' '] + items_text(cells, depth, items, 1));
            }
        }
        char_of_range(s, i, whole, 1);
        assert(skip_separators(s, i + 1) == i + 1);
        items_text_tokenizes(cells, depth, items, 0, s, i + 1, close);
        tokens_after_twice(
            seq![TokenView::Open(open)],
            tokens + seq![TokenView::Close(close)],
            after,
        );
        assert(seq![TokenView::Open(open)] + (tokens + seq![TokenView::Close(close)]) =~= seq![
            TokenView::Open(open),
        ] + tokens + seq![TokenView::Close(close)]);
    }
}

/// The texts of the items from place `k` on and the closing bracket after them, where
/// they stand in a text, are the tokens of those items and the closing bracket.
pub proof fn items_text_tokenizes(
    cells: Seq<Value>,
    depth: nat,
    items: Seq<Value>,
    k: int,
    s: Seq<char>,
    j: int,
    close: Close,
)
    requires
        forall|m: int| 0 <= m < items.len() ==> readable(#[trigger] items[m]),
        0 <= k < items.len(),
        0 <= j,
        j + items_text(cells, depth, items, k).len() < s.len(),
        s.subrange(j, j + items_text(cells, depth, items, k).len()) == items_text(
            cells,
            depth,
            items,
            k,
        ),
        s[j + items_text(cells, depth, items, k).len()] == closing_char(close),
    ensures
        tokens_from(s, j) == tokens_after(
            items_tokens(cells, depth, items, k) + seq![TokenView::Close(close)],
            tokens_from(
                s,
                skip_separators(s, j + items_text(cells, depth, items, k).len() + 1),
            ),
        ),
    decreases heights(items, items.len() as int), 1int, items.len() - k,
{
    let here = items_text(cells, depth, items, k);
    let item = written(cells, items[k], depth);
    let end = j + here.len();
    let after = tokens_from(s, skip_separators(s, end + 1));
    let first = value_tokens(cells, depth, items[k]);
    let others = items_tokens(cells, depth, items, k + 1);
    heights_bound(items, k, items.len() as int);
    text_starts(cells, depth, items[k]);
    if k + 1 == items.len() {
        assert(here == item);
        text_tokenizes(cells, depth, items[k], s, j);
        assert(skip_separators(s, end) == end);
        bracket_token(s, end, TokenView::Close(close));
        tokens_after_twice(first, seq![TokenView::Close(close)], after);
        assert(others =~= Seq::<TokenView>::empty());
        assert(first + others + seq![TokenView::Close(close)] =~= first + seq![
            TokenView::Close(close),
        ]);
    } else {
        let rest = items_text(cells, depth, items, k + 1);
        assert(here == item + seq![' '] + rest);
        assert(here.len() == item.len() + 1 + rest.len());
        assert(s.subrange(j, j + item.len()) =~= item) by {
            assert forall|m: int| 0 <= m < item.len() implies s[j + m] == item[m] by {
                char_of_range(s, j, here, m);
                assert(here[m] == item[m]);
            }
        }
        char_of_range(s, j, here, item.len() as int);
        assert(here[item.len() as int] == ' ');
        text_tokenizes(cells, depth, items[k], s, j);
        text_starts(cells, depth, items[k + 1]);
        let next = written(cells, items[k + 1], depth);
        assert(rest[0] == next[0]) by {
            if k + 2 < items.len() {
                assert(rest == next + seq![' '] + items_text(cells, depth, items, k + 2));
            }
        }
        char_of_range(s, j, here, item.len() as int + 1);
        assert(here[item.len() as int + 1] == rest[0]);
        assert(skip_separators(s, j + item.len() + 1) == j + item.len() + 1);
        assert(skip_separators(s, j + item.len()) == j + item.len() + 1);
        assert(s.subrange(j + item.len() + 1, j + item.len() + 1 + rest.len()) =~= rest) by {
            assert forall|m: int| 0 <= m < rest.len() implies s[j + item.len() + 1 + m]
                == rest[m] by {
                char_of_range(s, j, here, item.len() + 1 + m);
                assert(here[item.len() + 1 + m] == rest[m]);
            }
        }
        items_text_tokenizes(cells, depth, items, k + 1, s, j + item.len() + 1, close);
        tokens_after_twice(first, others + seq![TokenView::Close(close)], after);
        assert(first + (others + seq![TokenView::Close(close)]) =~= first + others + seq![
            TokenView::Close(close),
        ]);
    }
}

// ---------------------------------------------------------------------------------------
// The law
// ---------------------------------------------------------------------------------------
/// The tokens of the text of a value that can be read are the tokens of the value.
pub proof fn printed_text_tokenizes(cells: Seq<Value>, depth: nat, v: Value)
    requires
        readable(v),
    ensures
        tokens_of(written(cells, v, depth)) == Ok::<Seq<TokenView>, TokenizerFailure>(
            value_tokens(cells, depth, v),
        ),
{
    let s = written(cells, v, depth);
    text_starts(cells, depth, v);
    assert(s.subrange(0, s.len() as int) =~= s);
    text_tokenizes(cells, depth, v, s, 0);
    crate::tokens::skip_separators_advances(s, s.len() as int);
    assert(value_tokens(cells, depth, v) + Seq::<TokenView>::empty() =~= value_tokens(
        cells,
        depth,
        v,
    ));
}

/// Round trip: reading the text that the printer writes for a value that the reader can
/// give, with strings as literals, gives that value. `cells` is what the cells of the
/// environment hold, which plays no part for a value without atoms.
pub proof fn reading_what_was_printed_gives_the_value(cells: Seq<Value>, v: Value)
    requires
        readable(v),
    ensures
        crate::reader::read_text(
            crate::printer::printed(cells, v, PrintMode::ReadableRepresentation),
        ) == Ok::<Value, ReadFailure>(v),
{
    let depth = crate::printer::cell_depth();
    printed_text_tokenizes(cells, depth, v);
    let ts = value_tokens(cells, depth, v);
    assert(ts.subrange(0, ts.len() as int) =~= ts);
    tokens_read_back(cells, depth, v, ts, 0);
}


// ---------------------------------------------------------------------------------------
// What the reader gives can be read
// ---------------------------------------------------------------------------------------
/// Whether a token is as the tokenizer makes it: plain characters are at least one, all
/// plain, and the first starts no other token.
pub open spec fn well_made(token: TokenView) -> bool {
    match token {
        TokenView::PlainChars(text) => text.len() > 0 && all_plain(text) && !is_special(text[0]),
        _ => true,
    }
}

/// Every character up to the end of a run of plain characters is plain.
pub proof fn plain_end_is_a_run(s: Seq<char>, i: int)
    requires
        0 <= i,
    ensures
        forall|j: int| i <= j < plain_end(s, i) ==> is_plain(#[trigger] s[j]),
    decreases s.len() - i,
{
    if i < s.len() && is_plain(s[i]) {
        plain_end_is_a_run(s, i + 1);
    }
}

/// The tokens of a text are as the tokenizer makes them.
pub proof fn tokens_are_well_made(s: Seq<char>, i: int)
    requires
        0 <= i,
    ensures
        tokens_from(s, i) matches Ok(tokens) ==> forall|k: int|
            0 <= k < tokens.len() ==> well_made(#[trigger] tokens[k]),
    decreases s.len() - i,
{
    if i < s.len() {
        let start = skip_separators(s, i);
        let end = capture_end(s, start);
        crate::tokens::skip_separators_advances(s, i);
        crate::tokens::capture_end_advances(s, start);
        if end > start {
            let text = s.subrange(start, end);
            crate::tokens::skip_separators_advances(s, end);
            match token_of(text) {
                Ok(token) => {
                    tokens_are_well_made(s, skip_separators(s, end));
                    match tokens_from(s, skip_separators(s, end)) {
                        Ok(rest) => {
                            assert(text[0] == s[start]);
                            if token is PlainChars {
                                assert(token == TokenView::PlainChars(text));
                                plain_end_is_a_run(s, start);
                                assert forall|j: int| 0 <= j < text.len() implies is_plain(
                                    #[trigger] text[j],
                                ) by {
                                    assert(text[j] == s[start + j]);
                                }
                            }
                            let all = seq![token] + rest;
                            assert forall|k: int| 0 <= k < all.len() implies well_made(
                                #[trigger] all[k],
                            ) by {
                                if k > 0 {
                                    assert(all[k] == rest[k - 1]);
                                }
                            }
                        },
                        Err(_) => {},
                    }
                },
                Err(_) => {},
            }
        }
    }
}

/// What the reader takes a well-made run of plain characters for can be read.
pub proof fn atom_of_is_readable(text: Seq<char>)
    requires
        text.len() > 0,
        all_plain(text),
        !is_special(text[0]),
    ensures
        atom_of(text) matches Ok(v) ==> readable(v),
{
    match atom_of(text) {
        Ok(Value::Keyword(name)) => {
            if text[0] == ':' {
                assert forall|i: int| 0 <= i < text.skip(1).len() implies is_plain(
                    #[trigger] text.skip(1)[i],
                ) by {
                    assert(is_plain(text[i + 1]));
                }
            }
        },
        _ => {},
    }
}

/// The symbol that a mark before a form becomes can be read.
pub proof fn op_name_is_readable(op: UnaryOp)
    ensures
        readable(Value::Symbol(op_name(op))),
{
    reveal_strlit("quote");
    reveal_strlit("quasiquote");
    reveal_strlit("unquote");
    reveal_strlit("deref");
    reveal_strlit("splice-unquote");
    reveal_strlit("with-meta");
    reveal_strlit("true");
    reveal_strlit("false");
    reveal_strlit("nil");
    let name = op_name(op);
    assert(name.len() <= 14);
    assert forall|i: int| 0 <= i < name.len() implies is_plain(#[trigger] name[i]) by {
        if i == 0 {
        } else if i == 1 {
        } else if i == 2 {
        } else if i == 3 {
        } else if i == 4 {
        } else if i == 5 {
        } else if i == 6 {
        } else if i == 7 {
        } else if i == 8 {
        } else if i == 9 {
        } else if i == 10 {
        } else if i == 11 {
        } else if i == 12 {
        } else {
        }
    }
    assert(name[0] == 'q' || name[0] == 'u' || name[0] == 'd' || name[0] == 's' || name[0] == 'w');
    assert(name != "true"@);
    assert(name != "false"@);
    assert(name != "nil"@);
}

/// After binding a key to a value, each entry is the new one or one that was there.
pub proof fn insert_entry_holds(entries: Seq<(Key, Value)>, key: Key, value: Value)
    ensures
        forall|i: int|
            0 <= i < insert_entry(entries, key, value).len() ==> (#[trigger] insert_entry(
                entries,
                key,
                value,
            )[i]) == (key, value) || (i < entries.len() && insert_entry(entries, key, value)[i]
                == entries[i]),
{
    match find_key(entries, key, 0) {
        Some(at) => {
            crate::laws::find_key_is_first(entries, key, 0, at);
        },
        None => {},
    }
}

/// Whether the entries have no key twice and hold what can be read.
pub open spec fn readable_entries(entries: Seq<(Key, Value)>) -> bool {
    keys_are_distinct(entries) && forall|i: int|
        0 <= i < entries.len() ==> readable_key((#[trigger] entries[i]).0) && readable(
            entries[i].1,
        )
}

/// Binding keys and values that can be read among entries that can be read gives
/// entries that can be read.
pub proof fn bind_pairs_is_readable(init: Seq<(Key, Value)>, items: Seq<Value>, n: int)
    requires
        readable_entries(init),
        0 <= 2 * n <= items.len(),
        forall|i: int| 0 <= i < items.len() ==> readable(#[trigger] items[i]),
    ensures
        bind_pairs(init, items, n) matches Ok(entries) ==> readable_entries(entries),
    decreases n,
{
    if n > 0 {
        bind_pairs_is_readable(init, items, n - 1);
        match bind_pairs(init, items, n - 1) {
            Ok(entries) => {
                let item = items[2 * (n - 1)];
                let value = items[2 * (n - 1) + 1];
                assert(readable(item));
                assert(readable(value));
                match key_of(item) {
                    Some(key) => {
                        crate::laws::binding_keeps_keys_distinct(entries, key, value);
                        insert_entry_holds(entries, key, value);
                        let after = insert_entry(entries, key, value);
                        assert forall|i: int| 0 <= i < after.len() implies readable_key(
                            (#[trigger] after[i]).0,
                        ) && readable(after[i].1) by {
                            if after[i] != (key, value) {
                                assert(after[i] == entries[i]);
                            }
                        }
                    },
                    None => {},
                }
            },
            Err(_) => {},
        }
    }
}

/// The form that the reader gives for well-made tokens can be read.
pub proof fn read_form_is_readable(ts: Seq<TokenView>, pos: int)
    requires
        forall|k: int| 0 <= k < ts.len() ==> well_made(#[trigger] ts[k]),
    ensures
        read_form_at(ts, pos).0 matches Ok(v) ==> readable(v),
    decreases ts.len() - pos, 0int,
{
    if 0 <= pos < ts.len() {
        assert(well_made(ts[pos]));
        match ts[pos] {
            TokenView::Open(open) => {
                read_items_are_readable(ts, pos + 1, closer_of(open));
                let (r, used) = read_items(ts, pos + 1, closer_of(open));
                match r {
                    Ok(items) => {
                        match open {
                            Open::HashMap => {
                                if items.len() % 2 == 0 {
                                    bind_pairs_is_readable(
                                        Seq::empty(),
                                        items,
                                        items.len() as int / 2,
                                    );
                                }
                            },
                            _ => {},
                        }
                    },
                    Err(_) => {},
                }
            },
            TokenView::PlainChars(text) => {
                atom_of_is_readable(text);
            },
            TokenView::Comment(_) => {
                if pos + 1 < ts.len() {
                    read_form_is_readable(ts, pos + 1);
                }
            },
            TokenView::UnaryOp(op) => {
                op_name_is_readable(op);
                op_name_is_readable(UnaryOp::WithMeta);
                read_form_is_readable(ts, pos + 1);
                let (first, extra) = read_form_at(ts, pos + 1);
                match first {
                    Ok(form) => {
                        if op == UnaryOp::WithMeta {
                            if pos + 2 + extra < ts.len() {
                                read_form_is_readable(ts, pos + 2 + extra);
                                let (second, more) = read_form_at(ts, pos + 2 + extra);
                                match second {
                                    Ok(other) => {
                                        let items = seq![
                                            Value::Symbol("with-meta"@),
                                            other,
                                            form,
                                        ];
                                        assert forall|i: int|
                                            0 <= i < items.len() implies readable(
                                            #[trigger] items[i],
                                        ) by {}
                                    },
                                    Err(_) => {},
                                }
                            }
                        } else {
                            let items = seq![Value::Symbol(op_name(op)), form];
                            assert forall|i: int| 0 <= i < items.len() implies readable(
                                #[trigger] items[i],
                            ) by {}
                        }
                    },
                    Err(_) => {},
                }
            },
            _ => {},
        }
    }
}

/// The forms that the reader gives for well-made tokens up to a closing bracket can be
/// read.
pub proof fn read_items_are_readable(ts: Seq<TokenView>, pos: int, closer: Close)
    requires
        forall|k: int| 0 <= k < ts.len() ==> well_made(#[trigger] ts[k]),
    ensures
        read_items(ts, pos, closer).0 matches Ok(items) ==> forall|i: int|
            0 <= i < items.len() ==> readable(#[trigger] items[i]),
    decreases ts.len() - pos, 1int,
{
    if 0 <= pos < ts.len() && ts[pos] != TokenView::Close(closer) {
        read_form_is_readable(ts, pos);
        let (r, extra) = read_form_at(ts, pos);
        match r {
            Ok(form) => {
                if pos + 1 + extra < ts.len() {
                    read_items_are_readable(ts, pos + 1 + extra, closer);
                    let (rest, used) = read_items(ts, pos + 1 + extra, closer);
                    match rest {
                        Ok(items) => {
                            let all = seq![form] + items;
                            assert forall|i: int| 0 <= i < all.len() implies readable(
                                #[trigger] all[i],
                            ) by {
                                if i > 0 {
                                    assert(all[i] == items[i - 1]);
                                }
                            }
                        },
                        Err(_) => {},
                    }
                }
            },
            Err(_) => {},
        }
    }
}

/// Every value that the reader gives can be read.
pub proof fn reader_gives_what_can_be_read(source: Seq<char>)
    ensures
        read_text(source) matches Ok(v) ==> readable(v),
{
    tokens_are_well_made(source, 0);
    match tokens_of(source) {
        Ok(tokens) => {
            read_form_is_readable(tokens, 0);
        },
        Err(_) => {},
    }
}

/// Round trip: for every value that the reader gives for some text, reading the text
/// that the printer writes for it, with strings as literals, gives the value again.
pub proof fn round_trip(source: Seq<char>, cells: Seq<Value>)
    ensures
        read_text(source) matches Ok(v) ==> read_text(
            crate::printer::printed(cells, v, PrintMode::ReadableRepresentation),
        ) == Ok::<Value, ReadFailure>(v),
{
    reader_gives_what_can_be_read(source);
    match read_text(source) {
        Ok(v) => {
            reading_what_was_printed_gives_the_value(cells, v);
        },
        Err(_) => {},
    }
}

} // verus!
