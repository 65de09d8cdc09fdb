//! The built-in operations: what each gives for its arguments, and the code that
//! computes it.

use crate::environment::{Environment, FileView, HostFile, State};
use crate::evaluator::{Error, Failure, HostRequest, Request};
use crate::printer::{printed, write_value, PrintMode};
use crate::reader::{read_str, read_text};
use crate::semantics::{done, fail, Step};
use crate::text::same_text;
use crate::types::{
    bind_pairs, build_map, callable, equal, equal_values, is_callable, is_macro_value, key_of,
    key_value, list_of, lookup, map_from, map_of, position_of, put_pairs, remove_key, seq_items,
    vector_of, view_entries, view_items, view_unfolds, Atom, Builtin, HashKey, Key, MalInt,
    MalObject, TypeMismatch, Value,
};
use vstd::prelude::*;

verus! {

/// Whether an operation calls nothing back: every operation but `swap!`, `apply` and `map`.
pub open spec fn is_pure(op: Builtin) -> bool {
    !(op == Builtin::Swap || op == Builtin::Apply || op == Builtin::MapOver)
}

/// The failure of a value of the wrong kind.
pub open spec fn mismatch(kind: TypeMismatch) -> Failure {
    Failure::TypeMismatch(kind)
}

/// A result in a state that the operation leaves as it was.
pub open spec fn pure(st: State, result: Result<Value, Failure>) -> Step<Value> {
    Step { state: st, result }
}

/// Whether code returned what the meaning asks for.
pub open spec fn returned(r: Result<MalObject, Error>, meant: Result<Value, Failure>) -> bool {
    match r {
        Ok(v) => meant == Ok::<Value, Failure>(v@),
        Err(e) => meant == Err::<Value, Failure>(e@),
    }
}

/// The quotient of two integers, rounded towards zero; the least integer divided by -1
/// is the least integer.
pub open spec fn quotient(x: MalInt, y: MalInt) -> MalInt {
    match x.checked_div(y) {
        Some(q) => q,
        None => x,
    }
}

/// The first `n` arguments added up, or multiplied, from `start` on, with wrapping.
pub open spec fn fold_ints(args: Seq<Value>, n: int, start: MalInt, product: bool) -> Result<
    MalInt,
    Failure,
>
    decreases n,
{
    if n <= 0 {
        Ok(start)
    } else {
        match fold_ints(args, n - 1, start, product) {
            Err(e) => Err(e),
            Ok(acc) => match args[n - 1] {
                Value::Integer(x) => Ok(
                    if product {
                        acc.wrapping_mul(x)
                    } else {
                        acc.wrapping_add(x)
                    },
                ),
                _ => Err(mismatch(TypeMismatch::NotAnInt)),
            },
        }
    }
}

/// The two integers that the arguments are.
pub open spec fn two_ints(args: Seq<Value>) -> Result<(MalInt, MalInt), Failure> {
    match (args[0], args[1]) {
        (Value::Integer(x), Value::Integer(y)) => Ok((x, y)),
        _ => Err(mismatch(TypeMismatch::NotAnInt)),
    }
}

/// An integer as a value, or the failure that stood in its place.
pub open spec fn int_result(r: Result<MalInt, Failure>) -> Result<Value, Failure> {
    match r {
        Ok(i) => Ok(Value::Integer(i)),
        Err(e) => Err(e),
    }
}

/// The arithmetic and the comparisons of two integers.
pub open spec fn binary_value(op: Builtin, args: Seq<Value>) -> Result<Value, Failure> {
    match two_ints(args) {
        Err(e) => Err(e),
        Ok((x, y)) => match op {
            Builtin::Sub => Ok(Value::Integer(x.wrapping_sub(y))),
            Builtin::Div => if y == 0 {
                Err(Failure::DivideByZero)
            } else {
                Ok(Value::Integer(quotient(x, y)))
            },
            Builtin::Lt => Ok(Value::Bool(x < y)),
            Builtin::Le => Ok(Value::Bool(x <= y)),
            Builtin::Gt => Ok(Value::Bool(x > y)),
            _ => Ok(Value::Bool(x >= y)),
        },
    }
}

/// The texts of the first `n` arguments with `sep` between each two.
pub open spec fn joined(cells: Seq<Value>, args: Seq<Value>, mode: PrintMode, sep: Seq<char>, n: int)
    -> Seq<char>
    decreases n,
{
    if n <= 0 {
        Seq::empty()
    } else if n == 1 {
        printed(cells, args[0], mode)
    } else {
        joined(cells, args, mode, sep, n - 1) + sep + printed(cells, args[n - 1], mode)
    }
}

/// The elements of the first `n` arguments, which are sequences, one after the other.
pub open spec fn concat_all(args: Seq<Value>, n: int) -> Result<Seq<Value>, Failure>
    decreases n,
{
    if n <= 0 {
        Ok(Seq::empty())
    } else {
        match concat_all(args, n - 1) {
            Err(e) => Err(e),
            Ok(items) => match seq_items(args[n - 1]) {
                Some(more) => Ok(items + more),
                None => Err(mismatch(TypeMismatch::NotASequence)),
            },
        }
    }
}

/// The entries without those under the keys that the arguments from the second to place
/// `n` are.
pub open spec fn drop_keys(entries: Seq<(Key, Value)>, args: Seq<Value>, n: int) -> Result<
    Seq<(Key, Value)>,
    Failure,
>
    decreases n,
{
    if n <= 1 {
        Ok(entries)
    } else {
        match drop_keys(entries, args, n - 1) {
            Err(e) => Err(e),
            Ok(left) => match key_of(args[n - 1]) {
                None => Err(mismatch(TypeMismatch::NotAValidKey)),
                Some(key) => Ok(remove_key(left, key, left.len() as int)),
            },
        }
    }
}

/// The characters of a string, each as a string of its own.
pub open spec fn letters(s: Seq<char>) -> Seq<Value> {
    Seq::new(s.len(), |i: int| Value::String(seq![s[i]]))
}

/// The keys of the entries, as values.
pub open spec fn keys_of(entries: Seq<(Key, Value)>) -> Seq<Value> {
    Seq::new(entries.len(), |i: int| key_value(entries[i].0))
}

/// The values of the entries.
pub open spec fn vals_of(entries: Seq<(Key, Value)>) -> Seq<Value> {
    Seq::new(entries.len(), |i: int| entries[i].1)
}

/// The first place at or after `from` where a file with the path stands.
pub open spec fn find_file(files: Seq<FileView>, path: Seq<char>, from: int) -> Option<int>
    decreases files.len() - from,
{
    if from < 0 || from >= files.len() {
        None
    } else if files[from].path == path {
        Some(from)
    } else {
        find_file(files, path, from + 1)
    }
}

/// `seq`: nil for nil and for what is empty; the list of the characters of a string,
/// each as a string; a list as it is; the list of the elements of a vector.
pub open spec fn seq_value(arg: Value) -> Result<Value, Failure> {
    match arg {
        Value::Nil => Ok(Value::Nil),
        Value::String(s) => if s.len() == 0 {
            Ok(Value::Nil)
        } else {
            Ok(list_of(letters(s)))
        },
        Value::List(items, _) => if items.len() == 0 {
            Ok(Value::Nil)
        } else {
            Ok(arg)
        },
        Value::Vector(items, _) => if items.len() == 0 {
            Ok(Value::Nil)
        } else {
            Ok(list_of(items))
        },
        _ => Err(mismatch(TypeMismatch::NotASequence)),
    }
}

/// `nth`: the element at an index that counts from zero.
pub open spec fn nth_value(items: Seq<Value>, index: MalInt) -> Result<Value, Failure> {
    if 0 <= index < items.len() {
        Ok(items[index as int])
    } else {
        Err(Failure::BadIndex(index, 0, items.len() as usize))
    }
}

/// The value of an operation that neither reads nor changes the state.
pub open spec fn plain_value(op: Builtin, args: Seq<Value>) -> Result<Value, Failure> {
    match op {
        Builtin::Sum => int_result(fold_ints(args, args.len() as int, 0, false)),
        Builtin::Mul => int_result(fold_ints(args, args.len() as int, 1, true)),
        Builtin::Sub | Builtin::Div | Builtin::Lt | Builtin::Le | Builtin::Gt | Builtin::Ge => {
            binary_value(op, args)
        },
        Builtin::MakeList => Ok(list_of(args)),
        Builtin::ListTest => Ok(Value::Bool(args[0] is List)),
        Builtin::MakeVector => Ok(vector_of(args)),
        Builtin::VectorTest => Ok(Value::Bool(args[0] is Vector)),
        Builtin::SequentialTest => Ok(Value::Bool(args[0] is List || args[0] is Vector)),
        Builtin::EmptyTest => match seq_items(args[0]) {
            Some(items) => Ok(Value::Bool(items.len() == 0)),
            None => Err(mismatch(TypeMismatch::NotASequence)),
        },
        Builtin::Count => match args[0] {
            Value::List(items, _) => Ok(Value::Integer(items.len() as usize as isize)),
            Value::Vector(items, _) => Ok(Value::Integer(items.len() as usize as isize)),
            Value::Nil => Ok(Value::Integer(0)),
            _ => Err(mismatch(TypeMismatch::NotASequence)),
        },
        Builtin::Equal => Ok(Value::Bool(equal_values(args[0], args[1]))),
        Builtin::ReadString => match args[0] {
            Value::String(s) => match read_text(s) {
                Ok(v) => Ok(v),
                Err(e) => Err(Failure::ReadError(e)),
            },
            _ => Err(mismatch(TypeMismatch::NotAString)),
        },
        Builtin::AtomTest => Ok(Value::Bool(args[0] is Atom)),
        Builtin::Cons => match seq_items(args[1]) {
            Some(tail) => Ok(list_of(seq![args[0]] + tail)),
            None => Err(mismatch(TypeMismatch::NotASequence)),
        },
        Builtin::Concat => match concat_all(args, args.len() as int) {
            Ok(items) => Ok(list_of(items)),
            Err(e) => Err(e),
        },
        Builtin::Nth => match seq_items(args[0]) {
            None => Err(mismatch(TypeMismatch::NotASequence)),
            Some(items) => match args[1] {
                Value::Integer(index) => nth_value(items, index),
                _ => Err(mismatch(TypeMismatch::NotAnInt)),
            },
        },
        Builtin::First => if args[0] is Nil {
            Ok(Value::Nil)
        } else {
            match seq_items(args[0]) {
                None => Err(mismatch(TypeMismatch::NotASequence)),
                Some(items) => if items.len() == 0 {
                    Ok(Value::Nil)
                } else {
                    Ok(items[0])
                },
            }
        },
        Builtin::Rest => if args[0] is Nil {
            Ok(list_of(Seq::empty()))
        } else {
            match seq_items(args[0]) {
                None => Err(mismatch(TypeMismatch::NotASequence)),
                Some(items) => if items.len() == 0 {
                    Ok(list_of(Seq::empty()))
                } else {
                    Ok(list_of(items.skip(1)))
                },
            }
        },
        Builtin::MakeSymbol => match args[0] {
            Value::String(s) => Ok(Value::Symbol(s)),
            _ => Err(mismatch(TypeMismatch::NotAString)),
        },
        Builtin::SymbolTest => Ok(Value::Bool(args[0] is Symbol)),
        Builtin::MakeKeyword => match args[0] {
            Value::String(s) => Ok(Value::Keyword(s)),
            Value::Keyword(_) => Ok(args[0]),
            _ => Err(mismatch(TypeMismatch::NotIntoKeyword)),
        },
        Builtin::KeywordTest => Ok(Value::Bool(args[0] is Keyword)),
        Builtin::MapTest => Ok(Value::Bool(args[0] is HashMap)),
        Builtin::NilTest => Ok(Value::Bool(args[0] is Nil)),
        Builtin::TrueTest => Ok(Value::Bool(args[0] == Value::Bool(true))),
        Builtin::FalseTest => Ok(Value::Bool(args[0] == Value::Bool(false))),
        Builtin::ToSeq => seq_value(args[0]),
        Builtin::Conj => match args[0] {
            Value::List(items, _) => Ok(list_of(args.skip(1).reverse() + items)),
            Value::Vector(items, _) => Ok(vector_of(items + args.skip(1))),
            _ => Err(mismatch(TypeMismatch::NotASequence)),
        },
        Builtin::MakeMap => match map_from(args) {
            Ok(map) => Ok(map),
            Err(_) => Err(mismatch(TypeMismatch::NotAValidKey)),
        },
        Builtin::Assoc => match args[0] {
            Value::HashMap(entries, _) => match bind_pairs(
                entries,
                args.skip(1),
                (args.len() - 1) / 2,
            ) {
                Ok(bound) => Ok(map_of(bound)),
                Err(_) => Err(mismatch(TypeMismatch::NotAValidKey)),
            },
            _ => Err(mismatch(TypeMismatch::NotAMap)),
        },
        Builtin::Dissoc => match args[0] {
            Value::HashMap(entries, _) => match drop_keys(entries, args, args.len() as int) {
                Ok(left) => Ok(map_of(left)),
                Err(e) => Err(e),
            },
            _ => Err(mismatch(TypeMismatch::NotAMap)),
        },
        Builtin::Get => match args[0] {
            Value::Nil => Ok(Value::Nil),
            Value::HashMap(entries, _) => match key_of(args[1]) {
                None => Err(mismatch(TypeMismatch::NotAValidKey)),
                Some(key) => match lookup(entries, key) {
                    Some(value) => Ok(value),
                    None => Ok(Value::Nil),
                },
            },
            _ => Err(mismatch(TypeMismatch::NotAMap)),
        },
        Builtin::Contains => match args[0] {
            Value::HashMap(entries, _) => match key_of(args[1]) {
                None => Err(mismatch(TypeMismatch::NotAValidKey)),
                Some(key) => Ok(Value::Bool(lookup(entries, key) is Some)),
            },
            _ => Err(mismatch(TypeMismatch::NotAMap)),
        },
        Builtin::Keys => match args[0] {
            Value::HashMap(entries, _) => Ok(list_of(keys_of(entries))),
            _ => Err(mismatch(TypeMismatch::NotAMap)),
        },
        Builtin::Vals => match args[0] {
            Value::HashMap(entries, _) => Ok(list_of(vals_of(entries))),
            _ => Err(mismatch(TypeMismatch::NotAMap)),
        },
        Builtin::Throw => Err(Failure::UserException(args[0])),
        Builtin::StringTest => Ok(Value::Bool(args[0] is String)),
        Builtin::NumberTest => Ok(Value::Bool(args[0] is Integer)),
        Builtin::FunctionTest => Ok(Value::Bool(is_callable(args[0]) && !is_macro_value(args[0]))),
        Builtin::MacroTest => Ok(Value::Bool(is_macro_value(args[0]))),
        _ => Ok(Value::Nil),
    }
}

/// Whether an operation reads or changes the cells or the host.
pub open spec fn is_stateful(op: Builtin) -> bool {
    ||| op == Builtin::PrStr
    ||| op == Builtin::Str
    ||| op == Builtin::Prn
    ||| op == Builtin::Println
    ||| op == Builtin::Slurp
    ||| op == Builtin::MakeAtom
    ||| op == Builtin::Deref
    ||| op == Builtin::Reset
    ||| op == Builtin::Readline
    ||| op == Builtin::TimeMs
}

/// The value of an operation on the cells or the host, and the state that it leaves.
///
/// `pr-str` and `str` give the texts of their arguments as a string, `pr-str` so that
/// the reader reads them back and with a space between each two, `str` directly and
/// with nothing between them.
/// `prn` and `println` add a line to the output. `slurp` gives the text of a file that
/// the host has read, and asks for one that it has not. `readline` takes the next line
/// that the host has read, `nil` at the end of the input, and asks for one where none
/// is left. `time-ms` is the host's clock. `atom` adds a cell; `deref` gives what a cell
/// holds; `reset!` stores its second argument in a cell and returns it.
pub open spec fn stateful_value(st: State, op: Builtin, args: Seq<Value>) -> Step<Value> {
    match op {
        Builtin::PrStr => done(
            st,
            Value::String(
                joined(
                    st.cells,
                    args,
                    PrintMode::ReadableRepresentation,
                    " "@,
                    args.len() as int,
                ),
            ),
        ),
        Builtin::Str => done(
            st,
            Value::String(
                joined(st.cells, args, PrintMode::Directly, ""@, args.len() as int),
            ),
        ),
        Builtin::Prn => done(
            st.print(
                joined(
                    st.cells,
                    args,
                    PrintMode::ReadableRepresentation,
                    " "@,
                    args.len() as int,
                ),
            ),
            Value::Nil,
        ),
        Builtin::Println => done(
            st.print(joined(st.cells, args, PrintMode::Directly, " "@, args.len() as int)),
            Value::Nil,
        ),
        Builtin::Slurp => match args[0] {
            Value::String(path) => match find_file(st.host.files, path, 0) {
                None => fail(st, Failure::HostRequest(Request::File(path))),
                Some(i) => match st.host.files[i].contents {
                    Ok(text) => done(st, Value::String(text)),
                    Err(why) => fail(st, Failure::IOError(why)),
                },
            },
            _ => fail(st, mismatch(TypeMismatch::NotAString)),
        },
        Builtin::MakeAtom => done(st.add_cell(args[0]), Value::Atom(st.cells.len() as usize)),
        Builtin::Deref => match args[0] {
            Value::Atom(cell) => match st.cell(cell) {
                Some(held) => done(st, held),
                None => fail(st, mismatch(TypeMismatch::NotAnAtom)),
            },
            _ => fail(st, mismatch(TypeMismatch::NotAnAtom)),
        },
        Builtin::Reset => match args[0] {
            Value::Atom(cell) => if cell < st.cells.len() {
                done(st.store(cell, args[1]), args[1])
            } else {
                fail(st, mismatch(TypeMismatch::NotAnAtom))
            },
            _ => fail(st, mismatch(TypeMismatch::NotAnAtom)),
        },
        Builtin::Readline => match args[0] {
            Value::String(prompt) => if st.host.input.len() == 0 {
                fail(st, Failure::HostRequest(Request::Line(prompt)))
            } else {
                done(
                    st.take_line(),
                    match st.host.input[0] {
                        Some(line) => Value::String(line),
                        None => Value::Nil,
                    },
                )
            },
            _ => fail(st, mismatch(TypeMismatch::NotAString)),
        },
        _ => done(st, Value::Integer(st.host.clock_ms)),
    }
}

/// The value of an operation that calls nothing back.
pub open spec fn call_pure(st: State, op: Builtin, args: Seq<Value>) -> Step<Value> {
    if is_stateful(op) {
        stateful_value(st, op, args)
    } else {
        pure(st, plain_value(op, args))
    }
}


// ---------------------------------------------------------------------------------------
// The code
// ---------------------------------------------------------------------------------------
/// The values of a sequence with one more object are those of the sequence with the
/// object's value.
pub proof fn view_items_push(items: Seq<MalObject>, x: MalObject)
    ensures
        view_items(items.push(x)) == view_items(items).push(x@),
{
    assert(view_items(items.push(x)) =~= view_items(items).push(x@));
}

/// Copies of the objects from `from` up to `to`.
pub fn copy_items(items: &[MalObject], from: usize, to: usize) -> (r: Vec<MalObject>)
    requires
        from <= to <= items.len(),
    ensures
        view_items(r@) == view_items(items@).subrange(from as int, to as int),
{
    let mut out: Vec<MalObject> = Vec::new();
    let mut i: usize = from;
    assert(view_items(out@) =~= view_items(items@).subrange(from as int, i as int));
    while i < to
        invariant
            from <= i <= to <= items.len(),
            view_items(out@) == view_items(items@).subrange(from as int, i as int),
        decreases to - i,
    {
        proof {
            view_items_push(out@, items@[i as int]);
            assert(view_items(items@).subrange(from as int, i + 1) =~= view_items(
                items@,
            ).subrange(from as int, i as int).push(items@[i as int]@));
        }
        out.push(items[i].clone());
        i += 1;
    }
    out
}

/// Appends copies of the objects from `from` on.
pub fn extend_items(out: &mut Vec<MalObject>, items: &[MalObject], from: usize)
    requires
        from <= items.len(),
    ensures
        view_items(final(out)@) == view_items(old(out)@) + view_items(items@).skip(from as int),
{
    let mut i: usize = from;
    assert(view_items(out@) =~= view_items(old(out)@) + view_items(items@).subrange(
        from as int,
        i as int,
    ));
    while i < items.len()
        invariant
            from <= i <= items.len(),
            view_items(out@) == view_items(old(out)@) + view_items(items@).subrange(
                from as int,
                i as int,
            ),
        decreases items.len() - i,
    {
        proof {
            view_items_push(out@, items@[i as int]);
            assert(view_items(old(out)@) + view_items(items@).subrange(from as int, i + 1)
                =~= (view_items(old(out)@) + view_items(items@).subrange(
                from as int,
                i as int,
            )).push(items@[i as int]@));
        }
        out.push(items[i].clone());
        i += 1;
    }
    assert(view_items(items@).subrange(from as int, items.len() as int) =~= view_items(
        items@,
    ).skip(from as int));
}

/// What folding goes to, by whether every argument is an integer.
pub proof fn fold_ints_cases(args: Seq<Value>, n: int, start: MalInt, product: bool)
    requires
        0 <= n <= args.len(),
    ensures
        (forall|i: int| 0 <= i < n ==> (#[trigger] args[i]) is Integer) ==> fold_ints(
            args,
            n,
            start,
            product,
        ) is Ok,
        (exists|i: int| 0 <= i < n && !((#[trigger] args[i]) is Integer)) ==> fold_ints(
            args,
            n,
            start,
            product,
        ) == Err::<MalInt, Failure>(mismatch(TypeMismatch::NotAnInt)),
    decreases n,
{
    if n > 0 {
        fold_ints_cases(args, n - 1, start, product);
        if exists|i: int| 0 <= i < n && !((#[trigger] args[i]) is Integer) {
            let i = choose|i: int| 0 <= i < n && !((#[trigger] args[i]) is Integer);
            if i < n - 1 {
                assert(!(args[i] is Integer));
            } else {
                if fold_ints(args, n - 1, start, product) is Err {
                    assert(!(forall|j: int| 0 <= j < n - 1 ==> (#[trigger] args[j]) is Integer));
                }
            }
        }
    }
}

/// The integers that the arguments are.
fn grab_ints(args: &[MalObject]) -> (r: Result<Vec<MalInt>, Error>)
    ensures
        match r {
            Ok(ints) => ints.len() == args.len() && forall|i: int|
                0 <= i < args.len() ==> (#[trigger] view_items(args@)[i]) == Value::Integer(
                    ints[i],
                ),
            Err(e) => e@ == mismatch(TypeMismatch::NotAnInt) && exists|i: int|
                0 <= i < args.len() && !((#[trigger] view_items(args@)[i]) is Integer),
        },
{
    let mut ints: Vec<MalInt> = Vec::new();
    let mut i: usize = 0;
    while i < args.len()
        invariant
            i <= args.len(),
            ints.len() == i,
            forall|j: int|
                0 <= j < i ==> (#[trigger] view_items(args@)[j]) == Value::Integer(ints[j]),
        decreases args.len() - i,
    {
        match args[i].as_int() {
            Ok(x) => ints.push(x),
            Err(e) => {
                assert(!(view_items(args@)[i as int] is Integer));
                return Err(Error::TypeMismatch(e));
            },
        }
        i += 1;
    }
    Ok(ints)
}

/// The arguments added up, or multiplied, from `start` on.
fn fold_(args: &[MalObject], start: MalInt, product: bool) -> (r: Result<MalObject, Error>)
    ensures
        returned(r, int_result(fold_ints(view_items(args@), args.len() as int, start, product))),
{
    let ghost values = view_items(args@);
    proof {
        fold_ints_cases(values, args.len() as int, start, product);
    }
    let ints = match grab_ints(args) {
        Ok(ints) => ints,
        Err(e) => {
            return Err(e);
        },
    };
    let mut acc: MalInt = start;
    let mut i: usize = 0;
    while i < ints.len()
        invariant
            i <= ints.len(),
            ints.len() == args.len(),
            values == view_items(args@),
            forall|j: int| 0 <= j < args.len() ==> (#[trigger] values[j]) == Value::Integer(ints[j]),
            fold_ints(values, i as int, start, product) == Ok::<MalInt, Failure>(acc),
        decreases ints.len() - i,
    {
        assert(values[i as int] == Value::Integer(ints[i as int]));
        acc = if product {
            acc.wrapping_mul(ints[i])
        } else {
            acc.wrapping_add(ints[i])
        };
        i += 1;
    }
    Ok(MalObject::Integer(acc))
}

/// `+`.
fn sum_(args: &[MalObject]) -> (r: Result<MalObject, Error>)
    ensures
        returned(r, plain_value(Builtin::Sum, view_items(args@))),
{
    fold_(args, 0, false)
}

/// `*`.
fn mul_(args: &[MalObject]) -> (r: Result<MalObject, Error>)
    ensures
        returned(r, plain_value(Builtin::Mul, view_items(args@))),
{
    fold_(args, 1, true)
}

/// The two integers that the arguments are.
fn pair_(args: &[MalObject]) -> (r: Result<(MalInt, MalInt), Error>)
    requires
        args.len() == 2,
    ensures
        match r {
            Ok(p) => two_ints(view_items(args@)) == Ok::<(MalInt, MalInt), Failure>(p),
            Err(e) => two_ints(view_items(args@)) == Err::<(MalInt, MalInt), Failure>(e@),
        },
{
    let ghost values = view_items(args@);
    match grab_ints(args) {
        Ok(ints) => {
            assert(values[0] == Value::Integer(ints[0]));
            assert(values[1] == Value::Integer(ints[1]));
            Ok((ints[0], ints[1]))
        },
        Err(e) => {
            assert(!(values[0] is Integer) || !(values[1] is Integer));
            Err(e)
        },
    }
}

/// `-`.
fn sub_(args: &[MalObject]) -> (r: Result<MalObject, Error>)
    requires
        args.len() == 2,
    ensures
        returned(r, plain_value(Builtin::Sub, view_items(args@))),
{
    match pair_(args) {
        Ok((x, y)) => Ok(MalObject::Integer(x.wrapping_sub(y))),
        Err(e) => Err(e),
    }
}

/// `/`.
fn div_(args: &[MalObject]) -> (r: Result<MalObject, Error>)
    requires
        args.len() == 2,
    ensures
        returned(r, plain_value(Builtin::Div, view_items(args@))),
{
    match pair_(args) {
        Ok((x, y)) => {
            if y == 0 {
                Err(Error::DivideByZero)
            } else {
                let q = match x.checked_div(y) {
                    Some(q) => q,
                    None => x,
                };
                Ok(MalObject::Integer(q))
            }
        },
        Err(e) => Err(e),
    }
}

/// `<`, `<=`, `>` and `>=`.
fn comparison_(args: &[MalObject], op: Builtin) -> (r: Result<MalObject, Error>)
    requires
        args.len() == 2,
        op == Builtin::Lt || op == Builtin::Le || op == Builtin::Gt || op == Builtin::Ge,
    ensures
        returned(r, plain_value(op, view_items(args@))),
{
    match pair_(args) {
        Ok((x, y)) => {
            let b = match op {
                Builtin::Lt => x < y,
                Builtin::Le => x <= y,
                Builtin::Gt => x > y,
                _ => x >= y,
            };
            Ok(MalObject::Bool(b))
        },
        Err(e) => Err(e),
    }
}

/// `list`.
fn list_(args: &[MalObject]) -> (r: Result<MalObject, Error>)
    ensures
        returned(r, plain_value(Builtin::MakeList, view_items(args@))),
{
    let items = copy_items(args, 0, args.len());
    assert(view_items(args@).subrange(0, args.len() as int) =~= view_items(args@));
    Ok(MalObject::wrap_list(items))
}

/// `list?`.
fn list_test_(args: &[MalObject]) -> (r: Result<MalObject, Error>)
    requires
        args.len() == 1,
    ensures
        returned(r, plain_value(Builtin::ListTest, view_items(args@))),
{
    Ok(MalObject::Bool(args[0].is_list()))
}

/// `vector`.
fn vector_(args: &[MalObject]) -> (r: Result<MalObject, Error>)
    ensures
        returned(r, plain_value(Builtin::MakeVector, view_items(args@))),
{
    let items = copy_items(args, 0, args.len());
    assert(view_items(args@).subrange(0, args.len() as int) =~= view_items(args@));
    Ok(MalObject::wrap_vector(items))
}

/// `vector?`.
fn vector_test_(args: &[MalObject]) -> (r: Result<MalObject, Error>)
    requires
        args.len() == 1,
    ensures
        returned(r, plain_value(Builtin::VectorTest, view_items(args@))),
{
    Ok(MalObject::Bool(args[0].is_vector()))
}

/// `sequential?`.
fn sequential_test_(args: &[MalObject]) -> (r: Result<MalObject, Error>)
    requires
        args.len() == 1,
    ensures
        returned(r, plain_value(Builtin::SequentialTest, view_items(args@))),
{
    Ok(MalObject::Bool(args[0].is_seq()))
}

/// `empty?`.
fn empty_test_(args: &[MalObject]) -> (r: Result<MalObject, Error>)
    requires
        args.len() == 1,
    ensures
        returned(r, plain_value(Builtin::EmptyTest, view_items(args@))),
{
    match args[0].as_seq() {
        Ok(items) => Ok(MalObject::Bool(items.len() == 0)),
        Err(e) => Err(Error::TypeMismatch(e)),
    }
}

/// `count`.
fn count_(args: &[MalObject]) -> (r: Result<MalObject, Error>)
    requires
        args.len() == 1,
    ensures
        returned(r, plain_value(Builtin::Count, view_items(args@))),
{
    proof {
        view_unfolds(args@[0]);
    }
    match &args[0] {
        MalObject::List(list) => Ok(MalObject::Integer(list.payload.len() as MalInt)),
        MalObject::Vector(vec) => Ok(MalObject::Integer(vec.payload.len() as MalInt)),
        MalObject::Nil => Ok(MalObject::Integer(0)),
        _ => Err(Error::TypeMismatch(TypeMismatch::NotASequence)),
    }
}

/// `=`.
fn equal_(args: &[MalObject]) -> (r: Result<MalObject, Error>)
    requires
        args.len() == 2,
    ensures
        returned(r, plain_value(Builtin::Equal, view_items(args@))),
{
    Ok(MalObject::Bool(equal(&args[0], &args[1])))
}


/// The texts of the arguments with `sep` between each two.
fn join_(args: &[MalObject], mode: PrintMode, sep: &str, env: &Environment) -> (r: String)
    ensures
        r@ == joined(env@.cells, view_items(args@), mode, sep@, args.len() as int),
{
    let ghost values = view_items(args@);
    let ghost cells = env@.cells;
    let mut text = String::new();
    let mut i: usize = 0;
    assert(text@ =~= joined(cells, values, mode, sep@, 0));
    while i < args.len()
        invariant
            i <= args.len(),
            values == view_items(args@),
            cells == env@.cells,
            text@ == joined(cells, values, mode, sep@, i as int),
        decreases args.len() - i,
    {
        let ghost before = text@;
        if i > 0 {
            crate::text::push_chars(&mut text, sep);
        }
        write_value(&mut text, &args[i], mode, &env.cells, 16);
        proof {
            let shown = printed(cells, values[i as int], mode);
            if i > 0 {
                assert(text@ =~= before + sep@ + shown);
            } else {
                assert(text@ =~= shown);
            }
        }
        i += 1;
    }
    text
}

/// `pr-str`, `str`, `prn` and `println`: the texts of the arguments, as a string or as a line of output.
fn print_string_internal(
    args: &[MalObject],
    mode: PrintMode,
    sep: &str,
    to_screen: bool,
    env: &mut Environment,
) -> (r: Result<MalObject, Error>)
    ensures
        r is Ok,
        to_screen ==> r->Ok_0@ == Value::Nil && final(env)@ == old(env)@.print(
            joined(old(env)@.cells, view_items(args@), mode, sep@, args.len() as int),
        ),
        !to_screen ==> final(env)@ == old(env)@ && r->Ok_0@ == Value::String(
            joined(old(env)@.cells, view_items(args@), mode, sep@, args.len() as int),
        ),
{
    let text = join_(args, mode, sep, env);
    if to_screen {
        env.print_line(text);
        Ok(MalObject::Nil)
    } else {
        Ok(MalObject::String(text))
    }
}

/// `read-string`.
fn read_string_(args: &[MalObject]) -> (r: Result<MalObject, Error>)
    requires
        args.len() == 1,
    ensures
        returned(r, plain_value(Builtin::ReadString, view_items(args@))),
{
    let string = match args[0].as_string() {
        Ok(string) => string,
        Err(e) => {
            return Err(Error::TypeMismatch(e));
        },
    };
    match read_str(string) {
        Ok(v) => Ok(v),
        Err(e) => Err(Error::ReadError(e)),
    }
}

/// Where the file with the path stands among those that the host has read.
fn file_of(files: &Vec<HostFile>, path: &str) -> (r: Option<usize>)
    ensures
        match r {
            Some(i) => find_file(Seq::new(files@.len(), |i: int| files@[i]@), path@, 0) == Some(
                i as int,
            ) && i < files.len(),
            None => find_file(Seq::new(files@.len(), |i: int| files@[i]@), path@, 0) is None,
        },
{
    let ghost views = Seq::new(files@.len(), |i: int| files@[i]@);
    let mut i: usize = 0;
    while i < files.len()
        invariant
            i <= files.len(),
            views == Seq::new(files@.len(), |i: int| files@[i]@),
            find_file(views, path@, 0) == find_file(views, path@, i as int),
        decreases files.len() - i,
    {
        if same_text(files[i].path.as_str(), path) {
            return Some(i);
        }
        i += 1;
    }
    None
}

/// `slurp`.
fn slurp_(args: &[MalObject], env: &Environment) -> (r: Result<MalObject, Error>)
    requires
        args.len() == 1,
    ensures
        returned(r, stateful_value(env@, Builtin::Slurp, view_items(args@)).result),
        stateful_value(env@, Builtin::Slurp, view_items(args@)).state == env@,
{
    let path = match args[0].as_string() {
        Ok(path) => path,
        Err(e) => {
            return Err(Error::TypeMismatch(e));
        },
    };
    match file_of(&env.host.files, path) {
        None => Err(Error::HostRequest(HostRequest::File(String::from_str(path)))),
        Some(i) => match &env.host.files[i].contents {
            Ok(text) => Ok(MalObject::String(text.clone())),
            Err(why) => Err(Error::IOError(why.clone())),
        },
    }
}

/// `atom`.
fn atom_(args: &[MalObject], env: &mut Environment) -> (r: Result<MalObject, Error>)
    requires
        args.len() == 1,
    ensures
        returned(r, stateful_value(old(env)@, Builtin::MakeAtom, view_items(args@)).result),
        final(env)@ == stateful_value(old(env)@, Builtin::MakeAtom, view_items(args@)).state,
{
    Ok(MalObject::Atom(Atom::new(&args[0], env)))
}

/// `atom?`.
fn atom_test_(args: &[MalObject]) -> (r: Result<MalObject, Error>)
    requires
        args.len() == 1,
    ensures
        returned(r, plain_value(Builtin::AtomTest, view_items(args@))),
{
    Ok(MalObject::Bool(args[0].is_atom()))
}

/// `deref`.
fn deref_(args: &[MalObject], env: &Environment) -> (r: Result<MalObject, Error>)
    requires
        args.len() == 1,
    ensures
        returned(r, stateful_value(env@, Builtin::Deref, view_items(args@)).result),
        stateful_value(env@, Builtin::Deref, view_items(args@)).state == env@,
{
    let atom = match args[0].as_atom() {
        Ok(atom) => atom,
        Err(e) => {
            return Err(Error::TypeMismatch(e));
        },
    };
    match atom.clone_payload(env) {
        Some(held) => Ok(held),
        None => Err(Error::TypeMismatch(TypeMismatch::NotAnAtom)),
    }
}

/// `reset!`.
fn reset_(args: &[MalObject], env: &mut Environment) -> (r: Result<MalObject, Error>)
    requires
        args.len() == 2,
    ensures
        returned(r, stateful_value(old(env)@, Builtin::Reset, view_items(args@)).result),
        final(env)@ == stateful_value(old(env)@, Builtin::Reset, view_items(args@)).state,
{
    let atom = match args[0].as_atom() {
        Ok(atom) => atom,
        Err(e) => {
            return Err(Error::TypeMismatch(e));
        },
    };
    if atom.payload >= env.cells.len() {
        return Err(Error::TypeMismatch(TypeMismatch::NotAnAtom));
    }
    atom.replace(&args[1], env);
    Ok(args[1].clone())
}

/// `cons`.
fn cons_(args: &[MalObject]) -> (r: Result<MalObject, Error>)
    requires
        args.len() == 2,
    ensures
        returned(r, plain_value(Builtin::Cons, view_items(args@))),
{
    let head = &args[0];
    let tail = match args[1].as_seq() {
        Ok(tail) => tail,
        Err(e) => {
            return Err(Error::TypeMismatch(e));
        },
    };
    let mut elements: Vec<MalObject> = Vec::new();
    elements.push(head.clone());
    assert(view_items(elements@) =~= seq![head@]);
    extend_items(&mut elements, tail.as_slice(), 0);
    assert(view_items(tail@).skip(0) =~= view_items(tail@));
    Ok(MalObject::wrap_list(elements))
}

/// Once joining has failed it stays failed, with the same failure.
pub proof fn concat_all_stops(args: Seq<Value>, n: int, m: int)
    requires
        n <= m,
        concat_all(args, n) is Err,
    ensures
        concat_all(args, m) == concat_all(args, n),
    decreases m - n,
{
    if n < m {
        concat_all_stops(args, n, m - 1);
    }
}

/// `concat`.
fn concat_(args: &[MalObject]) -> (r: Result<MalObject, Error>)
    ensures
        returned(r, plain_value(Builtin::Concat, view_items(args@))),
{
    let ghost values = view_items(args@);
    let mut output: Vec<MalObject> = Vec::new();
    let mut i: usize = 0;
    assert(view_items(output@) =~= Seq::empty());
    while i < args.len()
        invariant
            i <= args.len(),
            values == view_items(args@),
            concat_all(values, i as int) == Ok::<Seq<Value>, Failure>(view_items(output@)),
        decreases args.len() - i,
    {
        match args[i].as_seq() {
            Ok(elements) => {
                extend_items(&mut output, elements.as_slice(), 0);
                assert(view_items(elements@).skip(0) =~= view_items(elements@));
            },
            Err(e) => {
                proof {
                    assert(seq_items(values[i as int]) is None);
                    concat_all_stops(values, i + 1, args.len() as int);
                }
                return Err(Error::TypeMismatch(e));
            },
        }
        i += 1;
    }
    Ok(MalObject::wrap_list(output))
}

/// The element at an index that counts from zero.
fn nth_internal(seq: &[MalObject], orig_index: MalInt) -> (r: Result<MalObject, Error>)
    ensures
        returned(r, nth_value(view_items(seq@), orig_index)),
{
    if orig_index >= 0 && (orig_index as usize) < seq.len() {
        Ok(seq[orig_index as usize].clone())
    } else {
        Err(Error::BadIndex(orig_index, 0, seq.len()))
    }
}

/// `nth`.
fn nth_(args: &[MalObject]) -> (r: Result<MalObject, Error>)
    requires
        args.len() == 2,
    ensures
        returned(r, plain_value(Builtin::Nth, view_items(args@))),
{
    let seq = match args[0].as_seq() {
        Ok(seq) => seq,
        Err(e) => {
            return Err(Error::TypeMismatch(e));
        },
    };
    let orig_index = match args[1].as_int() {
        Ok(i) => i,
        Err(e) => {
            return Err(Error::TypeMismatch(e));
        },
    };
    nth_internal(seq.as_slice(), orig_index)
}

/// `first`.
fn first_(args: &[MalObject]) -> (r: Result<MalObject, Error>)
    requires
        args.len() == 1,
    ensures
        returned(r, plain_value(Builtin::First, view_items(args@))),
{
    if args[0].is_nil() {
        return Ok(MalObject::Nil);
    }
    let seq = match args[0].as_seq() {
        Ok(seq) => seq,
        Err(e) => {
            return Err(Error::TypeMismatch(e));
        },
    };
    if seq.len() == 0 {
        Ok(MalObject::Nil)
    } else {
        nth_internal(seq.as_slice(), 0)
    }
}

/// `rest`.
fn rest_(args: &[MalObject]) -> (r: Result<MalObject, Error>)
    requires
        args.len() == 1,
    ensures
        returned(r, plain_value(Builtin::Rest, view_items(args@))),
{
    if args[0].is_nil() {
        return Ok(MalObject::new_list());
    }
    let seq = match args[0].as_seq() {
        Ok(seq) => seq,
        Err(e) => {
            return Err(Error::TypeMismatch(e));
        },
    };
    if seq.len() == 0 {
        return Ok(MalObject::new_list());
    }
    let copied = copy_items(seq.as_slice(), 1, seq.len());
    assert(view_items(seq@).subrange(1, seq.len() as int) =~= view_items(seq@).skip(1));
    Ok(MalObject::wrap_list(copied))
}

/// `symbol`.
fn symbol_(args: &[MalObject]) -> (r: Result<MalObject, Error>)
    requires
        args.len() == 1,
    ensures
        returned(r, plain_value(Builtin::MakeSymbol, view_items(args@))),
{
    match args[0].as_string() {
        Ok(name) => Ok(MalObject::new_symbol(name)),
        Err(e) => Err(Error::TypeMismatch(e)),
    }
}

/// `symbol?`.
fn symbol_test_(args: &[MalObject]) -> (r: Result<MalObject, Error>)
    requires
        args.len() == 1,
    ensures
        returned(r, plain_value(Builtin::SymbolTest, view_items(args@))),
{
    Ok(MalObject::Bool(args[0].is_symbol()))
}

/// `keyword`.
fn keyword_(args: &[MalObject]) -> (r: Result<MalObject, Error>)
    requires
        args.len() == 1,
    ensures
        returned(r, plain_value(Builtin::MakeKeyword, view_items(args@))),
{
    proof {
        view_unfolds(args@[0]);
    }
    match &args[0] {
        MalObject::String(s) => Ok(MalObject::new_keyword(s.as_str())),
        MalObject::Keyword(_) => Ok(args[0].clone()),
        _ => Err(Error::TypeMismatch(TypeMismatch::NotIntoKeyword)),
    }
}

/// `keyword?`.
fn keyword_test_(args: &[MalObject]) -> (r: Result<MalObject, Error>)
    requires
        args.len() == 1,
    ensures
        returned(r, plain_value(Builtin::KeywordTest, view_items(args@))),
{
    Ok(MalObject::Bool(args[0].is_keyword()))
}

/// `map?`.
fn map_test_(args: &[MalObject]) -> (r: Result<MalObject, Error>)
    requires
        args.len() == 1,
    ensures
        returned(r, plain_value(Builtin::MapTest, view_items(args@))),
{
    Ok(MalObject::Bool(args[0].is_map()))
}

/// `nil?`.
fn nil_test_(args: &[MalObject]) -> (r: Result<MalObject, Error>)
    requires
        args.len() == 1,
    ensures
        returned(r, plain_value(Builtin::NilTest, view_items(args@))),
{
    Ok(MalObject::Bool(args[0].is_nil()))
}

/// `true?`.
fn true_test_(args: &[MalObject]) -> (r: Result<MalObject, Error>)
    requires
        args.len() == 1,
    ensures
        returned(r, plain_value(Builtin::TrueTest, view_items(args@))),
{
    let b = match args[0].as_bool() {
        Ok(b) => b,
        Err(_) => false,
    };
    Ok(MalObject::Bool(b))
}

/// `false?`.
fn false_test_(args: &[MalObject]) -> (r: Result<MalObject, Error>)
    requires
        args.len() == 1,
    ensures
        returned(r, plain_value(Builtin::FalseTest, view_items(args@))),
{
    let b = match args[0].as_bool() {
        Ok(b) => !b,
        Err(_) => false,
    };
    Ok(MalObject::Bool(b))
}

/// `throw`.
fn throw_(args: &[MalObject]) -> (r: Result<MalObject, Error>)
    requires
        args.len() == 1,
    ensures
        returned(r, plain_value(Builtin::Throw, view_items(args@))),
{
    Err(Error::UserException(args[0].clone()))
}

/// `string?`.
fn string_test(args: &[MalObject]) -> (r: Result<MalObject, Error>)
    requires
        args.len() == 1,
    ensures
        returned(r, plain_value(Builtin::StringTest, view_items(args@))),
{
    Ok(MalObject::Bool(args[0].is_string()))
}

/// `number?`.
fn number_test(args: &[MalObject]) -> (r: Result<MalObject, Error>)
    requires
        args.len() == 1,
    ensures
        returned(r, plain_value(Builtin::NumberTest, view_items(args@))),
{
    Ok(MalObject::Bool(args[0].is_number()))
}

/// `fn?`.
fn function_test(args: &[MalObject]) -> (r: Result<MalObject, Error>)
    requires
        args.len() == 1,
    ensures
        returned(r, plain_value(Builtin::FunctionTest, view_items(args@))),
{
    Ok(MalObject::Bool(callable(&args[0]) && !args[0].is_macro()))
}

/// `macro?`.
fn macro_test(args: &[MalObject]) -> (r: Result<MalObject, Error>)
    requires
        args.len() == 1,
    ensures
        returned(r, plain_value(Builtin::MacroTest, view_items(args@))),
{
    Ok(MalObject::Bool(args[0].is_macro()))
}

/// `time-ms`.
fn time_ms_(args: &[MalObject], env: &Environment) -> (r: Result<MalObject, Error>)
    ensures
        returned(r, stateful_value(env@, Builtin::TimeMs, view_items(args@)).result),
        stateful_value(env@, Builtin::TimeMs, view_items(args@)).state == env@,
{
    Ok(MalObject::Integer(env.host.clock_ms))
}

/// `readline`.
fn readline_(args: &[MalObject], env: &mut Environment) -> (r: Result<MalObject, Error>)
    requires
        args.len() == 1,
    ensures
        returned(r, stateful_value(old(env)@, Builtin::Readline, view_items(args@)).result),
        final(env)@ == stateful_value(old(env)@, Builtin::Readline, view_items(args@)).state,
{
    let prompt = match args[0].as_string() {
        Ok(prompt) => prompt,
        Err(e) => {
            return Err(Error::TypeMismatch(e));
        },
    };
    if env.host.input.len() == 0 {
        return Err(Error::HostRequest(HostRequest::Line(String::from_str(prompt))));
    }
    let ghost before = env@;
    let line = env.host.input.remove(0);
    proof {
        assert(env@.host.input =~= before.take_line().host.input);
        assert(env@.host.output =~= before.host.output);
        assert(env@.host.files =~= before.host.files);
        assert(env@.frames =~= before.frames);
    }
    match line {
        Some(line) => Ok(MalObject::String(line)),
        None => Ok(MalObject::Nil),
    }
}


/// `seq`.
fn seq_(args: &[MalObject]) -> (r: Result<MalObject, Error>)
    requires
        args.len() == 1,
    ensures
        returned(r, plain_value(Builtin::ToSeq, view_items(args@))),
{
    proof {
        view_unfolds(args@[0]);
    }
    match &args[0] {
        MalObject::Nil => Ok(MalObject::Nil),
        MalObject::String(s) => {
            let chars = crate::text::chars_of(s.as_str());
            if chars.len() == 0 {
                return Ok(MalObject::Nil);
            }
            let mut items: Vec<MalObject> = Vec::new();
            let mut i: usize = 0;
            assert(view_items(items@) =~= letters(s@).subrange(0, 0));
            while i < chars.len()
                invariant
                    i <= chars.len(),
                    chars@ == s@,
                    view_items(items@) == letters(s@).subrange(0, i as int),
                decreases chars.len() - i,
            {
                let mut one = String::new();
                one.push(chars[i]);
                assert(one@ =~= seq![s@[i as int]]);
                proof {
                    view_items_push(items@, MalObject::String(one));
                    assert(letters(s@).subrange(0, i + 1) =~= letters(s@).subrange(
                        0,
                        i as int,
                    ).push(Value::String(one@)));
                }
                items.push(MalObject::String(one));
                i += 1;
            }
            assert(letters(s@).subrange(0, chars.len() as int) =~= letters(s@));
            Ok(MalObject::wrap_list(items))
        },
        MalObject::List(x) => {
            if x.payload.len() == 0 {
                Ok(MalObject::Nil)
            } else {
                Ok(args[0].clone())
            }
        },
        MalObject::Vector(x) => {
            if x.payload.len() == 0 {
                Ok(MalObject::Nil)
            } else {
                let items = copy_items(x.payload.as_slice(), 0, x.payload.len());
                assert(view_items(x.payload@).subrange(0, x.payload.len() as int) =~= view_items(
                    x.payload@,
                ));
                Ok(MalObject::wrap_list(items))
            }
        },
        _ => Err(Error::TypeMismatch(TypeMismatch::NotASequence)),
    }
}

/// `conj`.
fn conj_(args: &[MalObject]) -> (r: Result<MalObject, Error>)
    requires
        args.len() >= 2,
    ensures
        returned(r, plain_value(Builtin::Conj, view_items(args@))),
{
    let ghost values = view_items(args@);
    proof {
        view_unfolds(args@[0]);
    }
    let old = match args[0].as_seq() {
        Ok(old) => old,
        Err(e) => {
            return Err(Error::TypeMismatch(e));
        },
    };
    match &args[0] {
        MalObject::List(_) => {
            let mut result: Vec<MalObject> = Vec::new();
            let mut i: usize = args.len();
            assert(view_items(result@) =~= values.skip(1).reverse().subrange(0, 0));
            while i > 1
                invariant
                    1 <= i <= args.len(),
                    values == view_items(args@),
                    view_items(result@) == values.skip(1).reverse().subrange(0, args.len() - i),
                decreases i,
            {
                i -= 1;
                proof {
                    view_items_push(result@, args@[i as int]);
                    assert(values.skip(1).reverse().subrange(0, args.len() - i) =~= values.skip(
                        1,
                    ).reverse().subrange(0, args.len() - i - 1).push(values[i as int]));
                }
                result.push(args[i].clone());
            }
            assert(values.skip(1).reverse().subrange(0, args.len() - 1) =~= values.skip(
                1,
            ).reverse());
            extend_items(&mut result, old.as_slice(), 0);
            assert(view_items(old@).skip(0) =~= view_items(old@));
            Ok(MalObject::wrap_list(result))
        },
        MalObject::Vector(_) => {
            let mut result = copy_items(old.as_slice(), 0, old.len());
            assert(view_items(old@).subrange(0, old.len() as int) =~= view_items(old@));
            extend_items(&mut result, args, 1);
            Ok(MalObject::wrap_vector(result))
        },
        _ => Err(Error::TypeMismatch(TypeMismatch::NotASequence)),
    }
}

/// `hash-map`.
fn hash_map(args: &[MalObject]) -> (r: Result<MalObject, Error>)
    ensures
        returned(r, plain_value(Builtin::MakeMap, view_items(args@))),
{
    let entries = copy_items(args, 0, args.len());
    assert(view_items(args@).subrange(0, args.len() as int) =~= view_items(args@));
    match build_map(entries) {
        Ok(map) => Ok(map),
        Err(_) => Err(Error::TypeMismatch(TypeMismatch::NotAValidKey)),
    }
}

/// Copies of the entries.
fn copy_entries(entries: &Vec<(HashKey, MalObject)>) -> (r: Vec<(HashKey, MalObject)>)
    ensures
        view_entries(r@) == view_entries(entries@),
{
    let mut out: Vec<(HashKey, MalObject)> = Vec::new();
    let mut i: usize = 0;
    assert(view_entries(out@) =~= view_entries(entries@).subrange(0, 0));
    while i < entries.len()
        invariant
            i <= entries.len(),
            view_entries(out@) == view_entries(entries@).subrange(0, i as int),
        decreases entries.len() - i,
    {
        let key = entries[i].0.clone();
        let value = entries[i].1.clone();
        proof {
            assert(view_entries(out@.push((key, value))) =~= view_entries(out@).push(
                (key@, value@),
            ));
            assert(view_entries(entries@).subrange(0, i + 1) =~= view_entries(
                entries@,
            ).subrange(0, i as int).push((key@, value@)));
        }
        out.push((key, value));
        i += 1;
    }
    assert(view_entries(entries@).subrange(0, entries.len() as int) =~= view_entries(entries@));
    out
}

/// `assoc`.
fn assoc_(args: &[MalObject]) -> (r: Result<MalObject, Error>)
    requires
        args.len() % 2 == 1,
    ensures
        returned(r, plain_value(Builtin::Assoc, view_items(args@))),
{
    proof {
        view_unfolds(args@[0]);
    }
    let entries = match args[0].as_map() {
        Ok(entries) => entries,
        Err(e) => {
            return Err(Error::TypeMismatch(e));
        },
    };
    let map = copy_entries(entries);
    let items = copy_items(args, 0, args.len());
    assert(view_items(args@).subrange(0, args.len() as int) =~= view_items(args@));
    match put_pairs(map, &items, 1) {
        Ok(map) => Ok(MalObject::wrap_map(map)),
        Err(_) => Err(Error::TypeMismatch(TypeMismatch::NotAValidKey)),
    }
}

/// The entries without those under `key`.
fn without_key(entries: &Vec<(HashKey, MalObject)>, key: &HashKey) -> (r: Vec<(HashKey, MalObject)>)
    ensures
        view_entries(r@) == remove_key(view_entries(entries@), key@, entries.len() as int),
{
    let mut out: Vec<(HashKey, MalObject)> = Vec::new();
    let mut i: usize = 0;
    assert(view_entries(out@) =~= Seq::empty());
    while i < entries.len()
        invariant
            i <= entries.len(),
            view_entries(out@) == remove_key(view_entries(entries@), key@, i as int),
        decreases entries.len() - i,
    {
        if !entries[i].0.same(key) {
            let k = entries[i].0.clone();
            let v = entries[i].1.clone();
            proof {
                assert(view_entries(out@.push((k, v))) =~= view_entries(out@).push((k@, v@)));
            }
            out.push((k, v));
        }
        i += 1;
    }
    out
}

/// Once dropping keys has failed it stays failed, with the same failure.
pub proof fn drop_keys_stops(entries: Seq<(Key, Value)>, args: Seq<Value>, n: int, m: int)
    requires
        n <= m,
        drop_keys(entries, args, n) is Err,
    ensures
        drop_keys(entries, args, m) == drop_keys(entries, args, n),
    decreases m - n,
{
    if n < m {
        drop_keys_stops(entries, args, n, m - 1);
    }
}

/// `dissoc`.
fn dissoc_(args: &[MalObject]) -> (r: Result<MalObject, Error>)
    requires
        args.len() >= 1,
    ensures
        returned(r, plain_value(Builtin::Dissoc, view_items(args@))),
{
    let ghost values = view_items(args@);
    proof {
        view_unfolds(args@[0]);
    }
    let entries = match args[0].as_map() {
        Ok(entries) => entries,
        Err(e) => {
            return Err(Error::TypeMismatch(e));
        },
    };
    let ghost start = view_entries(entries@);
    let mut map = copy_entries(entries);
    let mut i: usize = 1;
    while i < args.len()
        invariant
            1 <= i <= args.len(),
            values == view_items(args@),
            values[0] is HashMap,
            values[0]->HashMap_0 == start,
            drop_keys(start, values, i as int) == Ok::<Seq<(Key, Value)>, Failure>(
                view_entries(map@),
            ),
        decreases args.len() - i,
    {
        match args[i].as_hashkey() {
            Ok(key) => {
                map = without_key(&map, &key);
            },
            Err(e) => {
                proof {
                    assert(key_of(values[i as int]) is None);
                    drop_keys_stops(start, values, i + 1, args.len() as int);
                }
                return Err(Error::TypeMismatch(e));
            },
        }
        i += 1;
    }
    Ok(MalObject::wrap_map(map))
}

/// `get`.
fn get_(args: &[MalObject]) -> (r: Result<MalObject, Error>)
    requires
        args.len() == 2,
    ensures
        returned(r, plain_value(Builtin::Get, view_items(args@))),
{
    proof {
        view_unfolds(args@[0]);
    }
    if args[0].is_nil() {
        return Ok(MalObject::Nil);
    }
    let map = match args[0].as_map() {
        Ok(map) => map,
        Err(e) => {
            return Err(Error::TypeMismatch(e));
        },
    };
    let key = match args[1].as_hashkey() {
        Ok(key) => key,
        Err(e) => {
            return Err(Error::TypeMismatch(e));
        },
    };
    match position_of(map, &key) {
        Some(i) => Ok(map[i].1.clone()),
        None => Ok(MalObject::Nil),
    }
}

/// `contains?`.
fn contains_(args: &[MalObject]) -> (r: Result<MalObject, Error>)
    requires
        args.len() == 2,
    ensures
        returned(r, plain_value(Builtin::Contains, view_items(args@))),
{
    proof {
        view_unfolds(args@[0]);
    }
    let map = match args[0].as_map() {
        Ok(map) => map,
        Err(e) => {
            return Err(Error::TypeMismatch(e));
        },
    };
    let key = match args[1].as_hashkey() {
        Ok(key) => key,
        Err(e) => {
            return Err(Error::TypeMismatch(e));
        },
    };
    Ok(MalObject::Bool(position_of(map, &key).is_some()))
}

/// `keys`.
fn keys_(args: &[MalObject]) -> (r: Result<MalObject, Error>)
    requires
        args.len() == 1,
    ensures
        returned(r, plain_value(Builtin::Keys, view_items(args@))),
{
    proof {
        view_unfolds(args@[0]);
    }
    let map = match args[0].as_map() {
        Ok(map) => map,
        Err(e) => {
            return Err(Error::TypeMismatch(e));
        },
    };
    let ghost entries = view_entries(map@);
    let mut keys: Vec<MalObject> = Vec::new();
    let mut i: usize = 0;
    assert(view_items(keys@) =~= keys_of(entries).subrange(0, 0));
    while i < map.len()
        invariant
            i <= map.len(),
            entries == view_entries(map@),
            view_items(keys@) == keys_of(entries).subrange(0, i as int),
        decreases map.len() - i,
    {
        let key = map[i].0.into_mal_object();
        proof {
            view_items_push(keys@, key);
            assert(keys_of(entries).subrange(0, i + 1) =~= keys_of(entries).subrange(
                0,
                i as int,
            ).push(key@));
        }
        keys.push(key);
        i += 1;
    }
    assert(keys_of(entries).subrange(0, map.len() as int) =~= keys_of(entries));
    Ok(MalObject::wrap_list(keys))
}

/// `vals`.
fn vals_(args: &[MalObject]) -> (r: Result<MalObject, Error>)
    requires
        args.len() == 1,
    ensures
        returned(r, plain_value(Builtin::Vals, view_items(args@))),
{
    proof {
        view_unfolds(args@[0]);
    }
    let map = match args[0].as_map() {
        Ok(map) => map,
        Err(e) => {
            return Err(Error::TypeMismatch(e));
        },
    };
    let ghost entries = view_entries(map@);
    let mut vals: Vec<MalObject> = Vec::new();
    let mut i: usize = 0;
    assert(view_items(vals@) =~= vals_of(entries).subrange(0, 0));
    while i < map.len()
        invariant
            i <= map.len(),
            entries == view_entries(map@),
            view_items(vals@) == vals_of(entries).subrange(0, i as int),
        decreases map.len() - i,
    {
        let value = map[i].1.clone();
        proof {
            view_items_push(vals@, value);
            assert(vals_of(entries).subrange(0, i + 1) =~= vals_of(entries).subrange(
                0,
                i as int,
            ).push(value@));
        }
        vals.push(value);
        i += 1;
    }
    assert(vals_of(entries).subrange(0, map.len() as int) =~= vals_of(entries));
    Ok(MalObject::wrap_list(vals))
}


/// Whether an operation reads or changes the cells or the host.
fn stateful(op: Builtin) -> (r: bool)
    ensures
        r == is_stateful(op),
{
    match op {
        Builtin::PrStr | Builtin::Str | Builtin::Prn | Builtin::Println | Builtin::Slurp
        | Builtin::MakeAtom | Builtin::Deref | Builtin::Reset | Builtin::Readline
        | Builtin::TimeMs => true,
        _ => false,
    }
}

/// The value of an operation on the cells or the host, and the state that it leaves.
fn call_stateful(op: Builtin, args: &[MalObject], env: &mut Environment) -> (r: Result<
    MalObject,
    Error,
>)
    requires
        is_stateful(op),
        op.spec_arity().admits(args.len()),
    ensures
        returned(r, stateful_value(old(env)@, op, view_items(args@)).result),
        final(env)@ == stateful_value(old(env)@, op, view_items(args@)).state,
{
    match op {
        Builtin::PrStr => print_string_internal(
            args,
            PrintMode::ReadableRepresentation,
            " ",
            false,
            env,
        ),
        Builtin::Str => print_string_internal(args, PrintMode::Directly, "", false, env),
        Builtin::Prn => print_string_internal(
            args,
            PrintMode::ReadableRepresentation,
            " ",
            true,
            env,
        ),
        Builtin::Println => print_string_internal(args, PrintMode::Directly, " ", true, env),
        Builtin::Slurp => slurp_(args, env),
        Builtin::MakeAtom => atom_(args, env),
        Builtin::Deref => deref_(args, env),
        Builtin::Reset => reset_(args, env),
        Builtin::Readline => readline_(args, env),
        _ => time_ms_(args, env),
    }
}

/// The value of an operation on sequences, maps, symbols and keywords.
fn call_collection(op: Builtin, args: &[MalObject]) -> (r: Result<MalObject, Error>)
    requires
        is_collection(op),
        op.spec_arity().admits(args.len()),
    ensures
        returned(r, plain_value(op, view_items(args@))),
{
    match op {
        Builtin::Cons => cons_(args),
        Builtin::Concat => concat_(args),
        Builtin::Nth => nth_(args),
        Builtin::First => first_(args),
        Builtin::Rest => rest_(args),
        Builtin::ToSeq => seq_(args),
        Builtin::Conj => conj_(args),
        Builtin::MakeMap => hash_map(args),
        Builtin::Assoc => assoc_(args),
        Builtin::Dissoc => dissoc_(args),
        Builtin::Get => get_(args),
        Builtin::Contains => contains_(args),
        Builtin::Keys => keys_(args),
        Builtin::Vals => vals_(args),
        Builtin::MakeList => list_(args),
        Builtin::MakeVector => vector_(args),
        Builtin::EmptyTest => empty_test_(args),
        Builtin::Count => count_(args),
        Builtin::MakeSymbol => symbol_(args),
        _ => keyword_(args),
    }
}

/// The operations on sequences, maps, symbols and keywords.
pub open spec fn is_collection(op: Builtin) -> bool {
    ||| op == Builtin::Cons
    ||| op == Builtin::Concat
    ||| op == Builtin::Nth
    ||| op == Builtin::First
    ||| op == Builtin::Rest
    ||| op == Builtin::ToSeq
    ||| op == Builtin::Conj
    ||| op == Builtin::MakeMap
    ||| op == Builtin::Assoc
    ||| op == Builtin::Dissoc
    ||| op == Builtin::Get
    ||| op == Builtin::Contains
    ||| op == Builtin::Keys
    ||| op == Builtin::Vals
    ||| op == Builtin::MakeList
    ||| op == Builtin::MakeVector
    ||| op == Builtin::EmptyTest
    ||| op == Builtin::Count
    ||| op == Builtin::MakeSymbol
    ||| op == Builtin::MakeKeyword
}

/// Whether an operation is one on sequences, maps, symbols and keywords.
fn collection(op: Builtin) -> (r: bool)
    ensures
        r == is_collection(op),
{
    match op {
        Builtin::Cons | Builtin::Concat | Builtin::Nth | Builtin::First | Builtin::Rest
        | Builtin::ToSeq | Builtin::Conj | Builtin::MakeMap | Builtin::Assoc | Builtin::Dissoc
        | Builtin::Get | Builtin::Contains | Builtin::Keys | Builtin::Vals | Builtin::MakeList
        | Builtin::MakeVector | Builtin::EmptyTest | Builtin::Count | Builtin::MakeSymbol
        | Builtin::MakeKeyword => true,
        _ => false,
    }
}

/// The value of an operation on integers, of a test, of `=`, `read-string` and `throw`.
fn call_scalar(op: Builtin, args: &[MalObject]) -> (r: Result<MalObject, Error>)
    requires
        is_pure(op),
        !is_stateful(op),
        !is_collection(op),
        op.spec_arity().admits(args.len()),
    ensures
        returned(r, plain_value(op, view_items(args@))),
{
    match op {
        Builtin::Sum => sum_(args),
        Builtin::Sub => sub_(args),
        Builtin::Mul => mul_(args),
        Builtin::Div => div_(args),
        Builtin::Gt | Builtin::Ge | Builtin::Lt | Builtin::Le => comparison_(args, op),
        Builtin::ReadString => read_string_(args),
        Builtin::NilTest => nil_test_(args),
        Builtin::TrueTest => true_test_(args),
        Builtin::FalseTest => false_test_(args),
        Builtin::ListTest => list_test_(args),
        Builtin::VectorTest => vector_test_(args),
        Builtin::SequentialTest => sequential_test_(args),
        Builtin::Equal => equal_(args),
        Builtin::AtomTest => atom_test_(args),
        Builtin::SymbolTest => symbol_test_(args),
        Builtin::KeywordTest => keyword_test_(args),
        Builtin::MapTest => map_test_(args),
        Builtin::FunctionTest => function_test(args),
        Builtin::MacroTest => macro_test(args),
        Builtin::StringTest => string_test(args),
        Builtin::NumberTest => number_test(args),
        _ => throw_(args),
    }
}

/// The value of an operation that calls nothing back, and the state that it leaves.
pub(crate) fn call(op: Builtin, args: &[MalObject], env: &mut Environment) -> (r: Result<MalObject, Error>)
    requires
        is_pure(op),
        op.spec_arity().admits(args.len()),
    ensures
        returned(r, call_pure(old(env)@, op, view_items(args@)).result),
        final(env)@ == call_pure(old(env)@, op, view_items(args@)).state,
{
    if stateful(op) {
        call_stateful(op, args, env)
    } else if collection(op) {
        call_collection(op, args)
    } else {
        call_scalar(op, args)
    }
}

} // verus!
