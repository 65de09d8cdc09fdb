//! The printer: a value to text, either so that the reader reads it back or directly.

use crate::environment::Environment;
use crate::interpreter;
use crate::interpreter::Trouble;
use crate::messages::{failure_text, read_failure_text};
use crate::reader::ReadFailure;
use crate::strings::{literal_of, string_repr};
use crate::text::{int_text, push_chars, push_int};
use crate::types::{view_entries, view_items, view_unfolds, HashKey, Key, MalObject, Value};
use vstd::prelude::*;

verus! {

/// What the interpreter has to show for a line.
#[derive(Debug)]
pub enum Outcome {
    String(String),
    Empty,
}

/// How strings are printed: between quotes and with escapes, so that the reader reads
/// them back, or as they are.
#[derive(Clone, Copy, Debug, PartialEq, Eq, Structural)]
pub enum PrintMode {
    ReadableRepresentation,
    Directly,
}

/// Through how many cells, one inside the other, the printer follows atoms.
pub open spec fn cell_depth() -> nat {
    16
}

/// The text of a string in a mode.
pub open spec fn print_string(payload: Seq<char>, mode: PrintMode) -> Seq<char> {
    match mode {
        PrintMode::ReadableRepresentation => literal_of(payload),
        PrintMode::Directly => payload,
    }
}

/// The texts of the first `n` elements, with one space between each two.
pub open spec fn print_items(
    cells: Seq<Value>,
    items: Seq<Value>,
    mode: PrintMode,
    depth: nat,
    n: int,
) -> Seq<char>
    decreases depth, items, n,
{
    if n <= 0 || n > items.len() {
        Seq::empty()
    } else if n == 1 {
        print_value(cells, items[0], mode, depth)
    } else {
        print_items(cells, items, mode, depth, n - 1) + seq![' '] + print_value(
            cells,
            items[n - 1],
            mode,
            depth,
        )
    }
}

/// The texts of the first `n` entries, each a key, a space and a value, with one space
/// between each two.
pub open spec fn print_entries(
    cells: Seq<Value>,
    entries: Seq<(Key, Value)>,
    mode: PrintMode,
    depth: nat,
    n: int,
) -> Seq<char>
    decreases depth, entries, n,
{
    if n <= 0 || n > entries.len() {
        Seq::empty()
    } else if n == 1 {
        print_string_key(entries[0].0, mode) + seq![' '] + print_value(
            cells,
            entries[0].1,
            mode,
            depth,
        )
    } else {
        print_entries(cells, entries, mode, depth, n - 1) + seq![' '] + print_string_key(
            entries[n - 1].0,
            mode,
        ) + seq![' '] + print_value(cells, entries[n - 1].1, mode, depth)
    }
}

/// The text of a key: that of the string or keyword it came from.
pub open spec fn print_string_key(key: Key, mode: PrintMode) -> Seq<char> {
    match key {
        Key::String(s) => print_string(s, mode),
        Key::Keyword(s) => seq![':'] + s,
    }
}

/// The text of a value. `cells` is what the cells of the environment hold; an atom
/// prints as `(atom x)` with the text `x` of what its cell holds, and as `(atom)` when
/// it names no cell or stands more than `depth` cells deep.
pub open spec fn print_value(cells: Seq<Value>, v: Value, mode: PrintMode, depth: nat) -> Seq<
    char,
>
    decreases depth, v, 0int,
{
    match v {
        Value::Nil => "nil"@,
        Value::Integer(i) => int_text(i as int),
        Value::Bool(b) => if b {
            "true"@
        } else {
            "false"@
        },
        Value::String(s) => print_string(s, mode),
        Value::Symbol(s) => s,
        Value::Keyword(s) => seq![':'] + s,
        Value::List(items, _) => seq!['('] + print_items(
            cells,
            items,
            mode,
            depth,
            items.len() as int,
        ) + seq![')'],
        Value::Vector(items, _) => seq!['['] + print_items(
            cells,
            items,
            mode,
            depth,
            items.len() as int,
        ) + seq![']'],
        Value::HashMap(entries, _) => seq!['{'] + print_entries(
            cells,
            entries,
            mode,
            depth,
            entries.len() as int,
        ) + seq!['}'],
        Value::Primitive(op, _) => op.spec_name()@,
        Value::Closure(_) => "#<closure>"@,
        Value::Eval(_) => "eval"@,
        Value::Atom(cell) => if depth > 0 && cell < cells.len() {
            "(atom "@ + print_value(cells, cells[cell as int], mode, (depth - 1) as nat) + seq![')']
        } else {
            "(atom)"@
        },
    }
}

/// The text of a value in a state of the environment.
pub open spec fn printed(cells: Seq<Value>, v: Value, mode: PrintMode) -> Seq<char> {
    print_value(cells, v, mode, cell_depth())
}

/// Appends the text of a string in a mode.
fn print_as_string(out: &mut String, payload: &str, mode: PrintMode)
    ensures
        final(out)@ == old(out)@ + print_string(payload@, mode),
{
    match mode {
        PrintMode::ReadableRepresentation => {
            let text = string_repr(payload);
            push_chars(out, text.as_str());
        },
        PrintMode::Directly => {
            push_chars(out, payload);
        },
    }
}

/// Appends the text of a key.
fn write_key(out: &mut String, key: &HashKey, mode: PrintMode)
    ensures
        final(out)@ == old(out)@ + print_string_key(key@, mode),
{
    match key {
        HashKey::String(s) => print_as_string(out, s.as_str(), mode),
        HashKey::Keyword(s) => {
            out.push(':');
            push_chars(out, s.as_str());
            assert(out@ =~= old(out)@ + (seq![':'] + s@));
        },
    }
}

/// Appends the texts of the elements, with one space between each two.
fn write_sequence(
    out: &mut String,
    seq: &Vec<MalObject>,
    mode: PrintMode,
    cells: &Vec<MalObject>,
    depth: usize,
)
    ensures
        final(out)@ == old(out)@ + print_items(
            view_items(cells@),
            view_items(seq@),
            mode,
            depth as nat,
            seq.len() as int,
        ),
    decreases depth, seq, 1int,
{
    let ghost start = out@;
    let ghost spec_cells = view_items(cells@);
    let ghost items = view_items(seq@);
    let mut i: usize = 0;
    assert(out@ =~= start + print_items(spec_cells, items, mode, depth as nat, 0));
    while i < seq.len()
        invariant
            i <= seq.len(),
            items == view_items(seq@),
            spec_cells == view_items(cells@),
            out@ == start + print_items(spec_cells, items, mode, depth as nat, i as int),
        decreases seq.len() - i,
    {
        let ghost before = print_items(spec_cells, items, mode, depth as nat, i as int);
        let ghost text = print_value(spec_cells, items[i as int], mode, depth as nat);
        if i > 0 {
            out.push(' ');
        }
        write_value(out, &seq[i], mode, cells, depth);
        proof {
            if i > 0 {
                assert(out@ =~= start + (before + seq![' '] + text));
            } else {
                assert(out@ =~= start + text);
            }
        }
        i += 1;
    }
}

/// Appends the texts of the entries, with one space between each two.
fn write_entries(
    out: &mut String,
    entries: &Vec<(HashKey, MalObject)>,
    mode: PrintMode,
    cells: &Vec<MalObject>,
    depth: usize,
)
    ensures
        final(out)@ == old(out)@ + print_entries(
            view_items(cells@),
            view_entries(entries@),
            mode,
            depth as nat,
            entries.len() as int,
        ),
    decreases depth, entries, 1int,
{
    let ghost start = out@;
    let ghost spec_cells = view_items(cells@);
    let ghost pairs = view_entries(entries@);
    let mut i: usize = 0;
    assert(out@ =~= start + print_entries(spec_cells, pairs, mode, depth as nat, 0));
    while i < entries.len()
        invariant
            i <= entries.len(),
            pairs == view_entries(entries@),
            spec_cells == view_items(cells@),
            out@ == start + print_entries(spec_cells, pairs, mode, depth as nat, i as int),
        decreases entries.len() - i,
    {
        let ghost before = print_entries(spec_cells, pairs, mode, depth as nat, i as int);
        let ghost key_text = print_string_key(pairs[i as int].0, mode);
        let ghost text = print_value(spec_cells, pairs[i as int].1, mode, depth as nat);
        if i > 0 {
            out.push(' ');
        }
        write_key(out, &entries[i].0, mode);
        out.push(' ');
        write_value(out, &entries[i].1, mode, cells, depth);
        proof {
            if i > 0 {
                assert(out@ =~= start + (before + seq![' '] + key_text + seq![' '] + text));
            } else {
                assert(out@ =~= start + (key_text + seq![' '] + text));
            }
        }
        i += 1;
    }
}

/// Appends the text of an object.
pub fn write_value(
    out: &mut String,
    object: &MalObject,
    mode: PrintMode,
    cells: &Vec<MalObject>,
    depth: usize,
)
    ensures
        final(out)@ == old(out)@ + print_value(view_items(cells@), object@, mode, depth as nat),
    decreases depth, object, 0int,
{
    let ghost start = out@;
    let ghost spec_cells = view_items(cells@);
    proof {
        view_unfolds(*object);
    }
    match object {
        MalObject::Nil => push_chars(out, "nil"),
        MalObject::Integer(x) => push_int(out, *x),
        MalObject::Bool(x) => {
            if *x {
                push_chars(out, "true")
            } else {
                push_chars(out, "false")
            }
        },
        MalObject::String(x) => print_as_string(out, x.as_str(), mode),
        MalObject::Symbol(x) => push_chars(out, x.0.as_str()),
        MalObject::Keyword(x) => {
            out.push(':');
            push_chars(out, x.as_str());
            assert(out@ =~= start + (seq![':'] + x@));
        },
        MalObject::List(x) => {
            out.push('(');
            write_sequence(out, &x.payload, mode, cells, depth);
            out.push(')');
            assert(out@ =~= start + print_value(spec_cells, object@, mode, depth as nat));
        },
        MalObject::Vector(x) => {
            out.push('[');
            write_sequence(out, &x.payload, mode, cells, depth);
            out.push(']');
            assert(out@ =~= start + print_value(spec_cells, object@, mode, depth as nat));
        },
        MalObject::HashMap(x) => {
            out.push('{');
            write_entries(out, &x.payload, mode, cells, depth);
            out.push('}');
            assert(out@ =~= start + print_value(spec_cells, object@, mode, depth as nat));
        },
        MalObject::Primitive(x) => push_chars(out, x.payload.op.name()),
        MalObject::Closure(_) => push_chars(out, "#<closure>"),
        MalObject::Eval(_) => push_chars(out, "eval"),
        MalObject::Atom(x) => {
            if depth > 0 && x.payload < cells.len() {
                push_chars(out, "(atom ");
                write_value(out, &cells[x.payload], mode, cells, depth - 1);
                out.push(')');
                assert(out@ =~= start + print_value(spec_cells, object@, mode, depth as nat));
            } else {
                push_chars(out, "(atom)");
            }
        },
    }
}

/// The text of an object in a mode; `env` holds the cells that its atoms name.
pub fn pr_str(object: &MalObject, mode: PrintMode, env: &Environment) -> (r: String)
    ensures
        r@ == printed(env@.cells, object@, mode),
{
    let mut out = String::new();
    write_value(&mut out, object, mode, &env.cells, 16);
    assert(out@ =~= printed(env@.cells, object@, mode));
    out
}


impl View for Outcome {
    type V = Option<Seq<char>>;

    open spec fn view(&self) -> Option<Seq<char>> {
        match self {
            Outcome::String(s) => Some(s@),
            Outcome::Empty => None,
        }
    }
}

/// What is shown for a result: the text of a value, so that the reader reads it back;
/// nothing for a line that held only a comment; the text of any other error, as an error.
pub open spec fn shown(cells: Seq<Value>, result: Result<Value, Trouble>) -> Result<
    Option<Seq<char>>,
    Seq<char>,
> {
    match result {
        Ok(v) => Ok(Some(printed(cells, v, PrintMode::ReadableRepresentation))),
        Err(Trouble::Read(ReadFailure::ReadComment)) => Ok(None),
        Err(Trouble::Read(e)) => Err(read_failure_text(e)),
        Err(Trouble::Eval(e)) => Err(failure_text(cells, e)),
    }
}

/// Whether code returned what is to be shown.
pub open spec fn printed_as(
    r: Result<Outcome, String>,
    meant: Result<Option<Seq<char>>, Seq<char>>,
) -> bool {
    match r {
        Ok(outcome) => meant == Ok::<Option<Seq<char>>, Seq<char>>(outcome@),
        Err(text) => meant == Err::<Option<Seq<char>>, Seq<char>>(text@),
    }
}

/// What is shown for a result; `env` holds the cells that the atoms in it name.
pub fn print(result: &Result<MalObject, interpreter::Error>, env: &Environment) -> (r: Result<
    Outcome,
    String,
>)
    ensures
        printed_as(
            r,
            shown(
                env@.cells,
                match result {
                    Ok(v) => Ok(v@),
                    Err(e) => Err(e@),
                },
            ),
        ),
{
    match result {
        Ok(obj) => Ok(Outcome::String(pr_str(obj, PrintMode::ReadableRepresentation, env))),
        Err(interpreter::Error::Read(crate::reader::Error::ReadComment)) => Ok(Outcome::Empty),
        Err(interpreter::Error::Read(e)) => Err(e.message()),
        Err(interpreter::Error::Eval(e)) => Err(e.message(env)),
    }
}

} // verus!
