//! The value model: every runtime value of the language and its mathematical view.

use std::rc::Rc;
use vstd::prelude::*;

verus! {

/// Integers of the language: signed, of machine width, with wrapping arithmetic.
pub type MalInt = isize;

/// Names a frame of an environment or one of its cells.
pub type Handle = usize;

/// The built-in operations of the language.
#[derive(Clone, Copy, Debug, PartialEq, Eq, Structural)]
pub enum Builtin {
    Sum,
    Sub,
    Mul,
    Div,
    Gt,
    Ge,
    Lt,
    Le,
    PrStr,
    Str,
    Prn,
    Println,
    ReadString,
    Slurp,
    Cons,
    Concat,
    Nth,
    First,
    Rest,
    Apply,
    MapOver,
    ToSeq,
    Conj,
    MakeMap,
    Assoc,
    Dissoc,
    Get,
    Contains,
    Keys,
    Vals,
    Deref,
    Reset,
    Swap,
    NilTest,
    TrueTest,
    FalseTest,
    MakeList,
    ListTest,
    MakeVector,
    VectorTest,
    SequentialTest,
    EmptyTest,
    Count,
    Equal,
    MakeAtom,
    AtomTest,
    MakeSymbol,
    SymbolTest,
    MakeKeyword,
    KeywordTest,
    MapTest,
    FunctionTest,
    MacroTest,
    StringTest,
    NumberTest,
    Throw,
    Readline,
    TimeMs,
}

/// A symbol: a name, compared by its characters.
#[derive(Debug, PartialEq, Eq, Hash)]
pub struct MalSymbol(pub String);

impl View for MalSymbol {
    type V = Seq<char>;

    open spec fn view(&self) -> Seq<char> {
        self.0@
    }
}

impl Clone for MalSymbol {
    fn clone(&self) -> (r: Self)
        ensures
            r == *self,
    {
        MalSymbol(self.0.clone())
    }
}

/// The two kinds of value that may key a map.
#[derive(Debug, PartialEq, Eq, Hash)]
pub enum HashKey {
    String(String),
    Keyword(String),
}

/// The mathematical view of a [`HashKey`].
pub enum Key {
    String(Seq<char>),
    Keyword(Seq<char>),
}

impl View for HashKey {
    type V = Key;

    open spec fn view(&self) -> Key {
        match self {
            HashKey::String(s) => Key::String(s@),
            HashKey::Keyword(s) => Key::Keyword(s@),
        }
    }
}

impl Clone for HashKey {
    fn clone(&self) -> (r: Self)
        ensures
            r == *self,
    {
        match self {
            HashKey::String(s) => HashKey::String(s.clone()),
            HashKey::Keyword(s) => HashKey::Keyword(s.clone()),
        }
    }
}

/// A list: its elements in order, and its metadata.
#[derive(Debug)]
pub struct MalList {
    pub payload: Vec<MalObject>,
    pub meta: MalObject,
}

/// A vector: its elements in order, and its metadata.
#[derive(Debug)]
pub struct MalVector {
    pub payload: Vec<MalObject>,
    pub meta: MalObject,
}

/// A map: its entries in the order in which their keys first arrived, and its metadata.
#[derive(Debug)]
pub struct MalMap {
    pub payload: Vec<(HashKey, MalObject)>,
    pub meta: MalObject,
}

/// A built-in function.
#[derive(Clone, Copy, Debug)]
pub struct PrimitiveFn {
    pub op: Builtin,
}

/// A built-in function as a value, with its metadata.
#[derive(Debug)]
pub struct PrimitiveFnRef {
    pub payload: PrimitiveFn,
    pub meta: Box<MalObject>,
}

/// The bridge through which a program evaluates a form in a frame of the environment.
#[derive(Clone, Copy, Debug)]
pub struct PrimitiveEval {
    pub env: Handle,
}

/// The parameters of a closure: those bound by position and, if there is one, the
/// parameter that collects every further argument.
#[derive(Debug)]
pub struct ClosureParameters {
    pub positional: Vec<MalSymbol>,
    pub others: Option<MalSymbol>,
}

/// The mathematical view of [`ClosureParameters`].
pub struct Parameters {
    pub positional: Seq<Seq<char>>,
    pub others: Option<Seq<char>>,
}

/// The names of a sequence of symbols.
pub open spec fn names_of(symbols: Seq<MalSymbol>) -> Seq<Seq<char>> {
    Seq::new(symbols.len(), |i: int| symbols[i]@)
}

impl View for ClosureParameters {
    type V = Parameters;

    open spec fn view(&self) -> Parameters {
        Parameters {
            positional: names_of(self.positional@),
            others: match self.others {
                Some(s) => Some(s@),
                None => None,
            },
        }
    }
}

/// A user-defined function or macro with the frame it was created in.
#[derive(Debug)]
pub struct Closure {
    pub parameters: ClosureParameters,
    pub body: MalObject,
    pub parent: Handle,
    pub is_macro: bool,
    pub meta: MalObject,
}

/// A mutable cell, named by its place in the environment that holds it.
#[derive(Clone, Copy, Debug)]
pub struct Atom {
    pub payload: Handle,
}

/// A runtime value.
#[derive(Debug)]
pub enum MalObject {
    Nil,
    Integer(MalInt),
    Bool(bool),
    String(String),
    Symbol(MalSymbol),
    Keyword(String),
    List(Rc<MalList>),
    Vector(Rc<MalVector>),
    HashMap(Rc<MalMap>),
    Primitive(PrimitiveFnRef),
    Closure(Rc<Closure>),
    Eval(PrimitiveEval),
    Atom(Atom),
}

/// The mathematical view of a [`Closure`].
pub struct ClosureValue {
    pub parameters: Parameters,
    pub body: Value,
    pub parent: Handle,
    pub is_macro: bool,
    pub meta: Value,
}

/// The mathematical view of a [`MalObject`]. Sequences carry their metadata second.
pub enum Value {
    Nil,
    Integer(MalInt),
    Bool(bool),
    String(Seq<char>),
    Symbol(Seq<char>),
    Keyword(Seq<char>),
    List(Seq<Value>, Box<Value>),
    Vector(Seq<Value>, Box<Value>),
    HashMap(Seq<(Key, Value)>, Box<Value>),
    Primitive(Builtin, Box<Value>),
    Closure(Box<ClosureValue>),
    Eval(Handle),
    Atom(Handle),
}

/// The values of a sequence of objects, in order.
pub open spec fn view_items(items: Seq<MalObject>) -> Seq<Value>
    decreases items,
{
    Seq::new(
        items.len(),
        |i: int|
            if 0 <= i < items.len() {
                value_of(items[i])
            } else {
                Value::Nil
            },
    )
}

/// The keys and values of a sequence of map entries, in order.
pub open spec fn view_entries(entries: Seq<(HashKey, MalObject)>) -> Seq<(Key, Value)>
    decreases entries,
{
    Seq::new(
        entries.len(),
        |i: int|
            if 0 <= i < entries.len() {
                (entries[i].0@, value_of(entries[i].1))
            } else {
                (Key::String(Seq::empty()), Value::Nil)
            },
    )
}

/// The mathematical value that an object stands for.
pub open spec fn value_of(obj: MalObject) -> Value
    decreases obj,
{
    match obj {
        MalObject::Nil => Value::Nil,
        MalObject::Integer(i) => Value::Integer(i),
        MalObject::Bool(b) => Value::Bool(b),
        MalObject::String(s) => Value::String(s@),
        MalObject::Symbol(s) => Value::Symbol(s@),
        MalObject::Keyword(s) => Value::Keyword(s@),
        MalObject::List(l) => Value::List(view_items(l.payload@), Box::new(value_of(l.meta))),
        MalObject::Vector(l) => Value::Vector(view_items(l.payload@), Box::new(value_of(l.meta))),
        MalObject::HashMap(m) => Value::HashMap(
            view_entries(m.payload@),
            Box::new(value_of(m.meta)),
        ),
        MalObject::Primitive(f) => Value::Primitive(f.payload.op, Box::new(value_of(*f.meta))),
        MalObject::Closure(c) => Value::Closure(
            Box::new(
                ClosureValue {
                    parameters: c.parameters@,
                    body: value_of(c.body),
                    parent: c.parent,
                    is_macro: c.is_macro,
                    meta: value_of(c.meta),
                },
            ),
        ),
        MalObject::Eval(e) => Value::Eval(e.env),
        MalObject::Atom(a) => Value::Atom(a.payload),
    }
}

impl View for MalObject {
    type V = Value;

    open spec fn view(&self) -> Value {
        value_of(*self)
    }
}

impl View for Closure {
    type V = ClosureValue;

    open spec fn view(&self) -> ClosureValue {
        ClosureValue {
            parameters: self.parameters@,
            body: self.body@,
            parent: self.parent,
            is_macro: self.is_macro,
            meta: self.meta@,
        }
    }
}

/// A list without metadata.
pub open spec fn list_of(items: Seq<Value>) -> Value {
    Value::List(items, Box::new(Value::Nil))
}

/// A vector without metadata.
pub open spec fn vector_of(items: Seq<Value>) -> Value {
    Value::Vector(items, Box::new(Value::Nil))
}

/// A map without metadata.
pub open spec fn map_of(entries: Seq<(Key, Value)>) -> Value {
    Value::HashMap(entries, Box::new(Value::Nil))
}

/// Only nil and false count as false.
pub open spec fn is_truthy(v: Value) -> bool {
    !(v is Nil || v == Value::Bool(false))
}

/// Whether a value can stand at the head of an application.
pub open spec fn is_callable(v: Value) -> bool {
    v is Primitive || v is Closure || v is Eval
}

/// The elements of a list or vector.
pub open spec fn seq_items(v: Value) -> Option<Seq<Value>> {
    match v {
        Value::List(items, _) => Some(items),
        Value::Vector(items, _) => Some(items),
        _ => None,
    }
}

/// `Rc::clone`: the new pointer shares the allocation of the old one, so it holds the
/// same value.
#[verifier::external_body]
pub(crate) fn share<T>(rc: &Rc<T>) -> (res: Rc<T>)
    ensures
        res == *rc,
{
    Rc::clone(rc)
}

impl Clone for MalObject {
    fn clone(&self) -> (r: Self)
        ensures
            r == *self,
        decreases self,
    {
        match self {
            MalObject::Nil => MalObject::Nil,
            MalObject::Integer(i) => MalObject::Integer(*i),
            MalObject::Bool(b) => MalObject::Bool(*b),
            MalObject::String(s) => MalObject::String(s.clone()),
            MalObject::Symbol(s) => MalObject::Symbol(s.clone()),
            MalObject::Keyword(s) => MalObject::Keyword(s.clone()),
            MalObject::List(l) => MalObject::List(share(l)),
            MalObject::Vector(l) => MalObject::Vector(share(l)),
            MalObject::HashMap(m) => MalObject::HashMap(share(m)),
            MalObject::Primitive(f) => MalObject::Primitive(
                PrimitiveFnRef { payload: f.payload, meta: Box::new((*f.meta).clone()) },
            ),
            MalObject::Closure(c) => MalObject::Closure(share(c)),
            MalObject::Eval(e) => MalObject::Eval(*e),
            MalObject::Atom(a) => MalObject::Atom(*a),
        }
    }
}

/// Whether a value counts as true: every value does but nil and false.
pub fn truthy(obj: &MalObject) -> (r: bool)
    ensures
        r == is_truthy(obj@),
{
    match obj {
        MalObject::Nil => false,
        MalObject::Bool(t) => *t,
        _ => true,
    }
}

/// Whether a value can stand at the head of an application.
pub fn callable(obj: &MalObject) -> (r: bool)
    ensures
        r == is_callable(obj@),
{
    match obj {
        MalObject::Primitive(_) | MalObject::Closure(_) | MalObject::Eval(_) => true,
        _ => false,
    }
}


/// Why a value was not of the kind that an operation asked for.
#[derive(Clone, Copy, Debug, PartialEq, Eq, Structural)]
pub enum TypeMismatch {
    NotAnInt,
    NotAList,
    NotASequence,
    NotASymbol,
    NotAString,
    NotAnAtom,
    NotCallable,
    NotAClosure,
    NotIntoKeyword,
    NotABool,
    NotAMap,
    NotAValidKey,
    CantHoldMetadata,
}

/// The numbers of arguments that a function accepts.
#[derive(Clone, Copy, Debug, PartialEq, Eq, Structural)]
pub enum Arity {
    /// From the first number to the second, both included.
    Between(usize, usize),
    /// The number or more.
    AtLeast(usize),
    Odd,
    Even,
}

/// A call with a number of arguments that the callee does not accept.
#[derive(Clone, Copy, Debug)]
pub struct BadArgCount {
    pub name: &'static str,
    pub expected: Arity,
    pub got: usize,
}

impl Arity {
    /// Whether a call with `n` arguments is accepted.
    pub open spec fn admits(self, n: usize) -> bool {
        match self {
            Arity::Between(low, high) => low <= n <= high,
            Arity::AtLeast(low) => low <= n,
            Arity::Odd => n % 2 == 1,
            Arity::Even => n % 2 == 0,
        }
    }

    /// What checking a call of `name` with `n` arguments gives.
    pub open spec fn check(self, n: usize, name: &'static str) -> Result<(), BadArgCount> {
        if self.admits(n) {
            Ok(())
        } else {
            Err(BadArgCount { name, expected: self, got: n })
        }
    }

    /// The arity of a function that takes `n` arguments.
    pub fn exactly(n: usize) -> (r: Self)
        ensures
            r == Arity::Between(n, n),
    {
        Arity::Between(n, n)
    }

    /// The arity of a function that takes `n` arguments or more.
    pub fn at_least(n: usize) -> (r: Self)
        ensures
            r == Arity::AtLeast(n),
    {
        Arity::AtLeast(n)
    }

    /// Whether a call with `n` arguments is accepted.
    pub fn contains(&self, n: usize) -> (r: bool)
        ensures
            r == self.admits(n),
    {
        match self {
            Arity::Between(low, high) => *low <= n && n <= *high,
            Arity::AtLeast(low) => *low <= n,
            Arity::Odd => n % 2 == 1,
            Arity::Even => n % 2 == 0,
        }
    }

    /// Nothing for a call of `name` with `n` arguments that is accepted, the error for one that is not.
    pub fn validate_for(&self, n: usize, name: &'static str) -> (r: Result<(), BadArgCount>)
        ensures
            r == self.check(n, name),
    {
        if self.contains(n) {
            Ok(())
        } else {
            Err(BadArgCount { name, expected: *self, got: n })
        }
    }
}

/// Why a list of symbols is no parameter list.
#[derive(Clone, Copy, Debug, PartialEq, Eq, Structural)]
pub enum BadClosureParameters {
    TooManyAmpersands(usize),
    TooShortForAmpersand,
    AmpersandPositionNotPenultimate,
}

/// How many of the first `n` names are the ampersand.
pub open spec fn ampersands(names: Seq<Seq<char>>, n: int) -> nat
    decreases n,
{
    if n <= 0 {
        0
    } else {
        ampersands(names, n - 1) + if names[n - 1] == "&"@ {
            1nat
        } else {
            0nat
        }
    }
}

/// The parameter list that a sequence of names describes: with no ampersand every name is
/// positional; one ampersand must stand last but one, and the name after it then collects
/// the arguments that are left.
pub open spec fn parameters_of(names: Seq<Seq<char>>) -> Result<Parameters, BadClosureParameters> {
    let count = ampersands(names, names.len() as int);
    if count == 0 {
        Ok(Parameters { positional: names, others: None })
    } else if count == 1 {
        if names.len() < 2 {
            Err(BadClosureParameters::TooShortForAmpersand)
        } else if names[names.len() - 2] != "&"@ {
            Err(BadClosureParameters::AmpersandPositionNotPenultimate)
        } else {
            Ok(
                Parameters {
                    positional: names.subrange(0, names.len() - 2),
                    others: Some(names[names.len() - 1]),
                },
            )
        }
    } else {
        Err(BadClosureParameters::TooManyAmpersands(count as usize))
    }
}

impl Parameters {
    /// The numbers of arguments that a closure with these parameters accepts.
    pub open spec fn arity(self) -> Arity {
        match self.others {
            None => Arity::Between(self.positional.len() as usize, self.positional.len() as usize),
            Some(_) => Arity::AtLeast(self.positional.len() as usize),
        }
    }
}

impl ClosureParameters {
    /// The parameter list that a sequence of symbols describes.
    pub fn new(symbols: Vec<MalSymbol>) -> (r: Result<Self, BadClosureParameters>)
        ensures
            match r {
                Ok(p) => parameters_of(names_of(symbols@)) == Ok::<Parameters, BadClosureParameters>(p@),
                Err(e) => parameters_of(names_of(symbols@)) == Err::<Parameters, BadClosureParameters>(e),
            },
    {
        let mut symbols = symbols;
        let ghost names = names_of(symbols@);
        let mut count: usize = 0;
        let mut i: usize = 0;
        while i < symbols.len()
            invariant
                i <= symbols.len(),
                names == names_of(symbols@),
                count == ampersands(names, i as int),
                count <= i,
            decreases symbols.len() - i,
        {
            if crate::text::same_text(symbols[i].0.as_str(), "&") {
                count += 1;
            }
            i += 1;
        }
        if count == 0 {
            Ok(ClosureParameters { positional: symbols, others: None })
        } else if count == 1 {
            if symbols.len() < 2 {
                Err(BadClosureParameters::TooShortForAmpersand)
            } else if !crate::text::same_text(symbols[symbols.len() - 2].0.as_str(), "&") {
                Err(BadClosureParameters::AmpersandPositionNotPenultimate)
            } else {
                let variadic_name = symbols.pop().unwrap();
                let _ampersand = symbols.pop();
                assert(names_of(symbols@) == names.subrange(0, names.len() - 2));
                Ok(ClosureParameters { positional: symbols, others: Some(variadic_name) })
            }
        } else {
            Err(BadClosureParameters::TooManyAmpersands(count))
        }
    }

    /// The numbers of arguments that a closure with these parameters accepts.
    pub fn arity(&self) -> (r: Arity)
        ensures
            r == self@.arity(),
    {
        match self.others {
            None => Arity::exactly(self.positional.len()),
            Some(_) => Arity::at_least(self.positional.len()),
        }
    }
}


impl MalObject {
    /// The integer that the object is.
    pub fn as_int(&self) -> (r: Result<MalInt, TypeMismatch>)
        ensures
            r == (match self@ {
                Value::Integer(i) => Ok::<MalInt, TypeMismatch>(i),
                _ => Err(TypeMismatch::NotAnInt),
            }),
    {
        match self {
            MalObject::Integer(x) => Ok(*x),
            _ => Err(TypeMismatch::NotAnInt),
        }
    }

    /// The list that the object is.
    pub fn as_list(&self) -> (r: Result<&MalList, TypeMismatch>)
        ensures
            match r {
                Ok(l) => self@ == Value::List(view_items(l.payload@), Box::new(l.meta@)),
                Err(e) => e == TypeMismatch::NotAList && !(self@ is List),
            },
    {
        match self {
            MalObject::List(x) => Ok(&**x),
            _ => Err(TypeMismatch::NotAList),
        }
    }

    /// The elements of the list or vector that the object is.
    pub fn as_seq(&self) -> (r: Result<&Vec<MalObject>, TypeMismatch>)
        ensures
            match r {
                Ok(items) => seq_items(self@) == Some(view_items(items@)),
                Err(e) => e == TypeMismatch::NotASequence && seq_items(self@) is None,
            },
    {
        match self {
            MalObject::List(x) => Ok(&x.payload),
            MalObject::Vector(x) => Ok(&x.payload),
            _ => Err(TypeMismatch::NotASequence),
        }
    }

    /// The entries of the map that the object is.
    pub fn as_map(&self) -> (r: Result<&Vec<(HashKey, MalObject)>, TypeMismatch>)
        ensures
            match r {
                Ok(entries) => self@ is HashMap && self@->HashMap_0 == view_entries(entries@),
                Err(e) => e == TypeMismatch::NotAMap && !(self@ is HashMap),
            },
    {
        match self {
            MalObject::HashMap(x) => Ok(&x.payload),
            _ => Err(TypeMismatch::NotAMap),
        }
    }

    /// The symbol that the object is.
    pub fn as_symbol(&self) -> (r: Result<&MalSymbol, TypeMismatch>)
        ensures
            match r {
                Ok(s) => self@ == Value::Symbol(s@),
                Err(e) => e == TypeMismatch::NotASymbol && !(self@ is Symbol),
            },
    {
        match self {
            MalObject::Symbol(s) => Ok(s),
            _ => Err(TypeMismatch::NotASymbol),
        }
    }

    /// The closure that the object is.
    pub fn as_closure(&self) -> (r: Result<&Closure, TypeMismatch>)
        ensures
            match r {
                Ok(c) => self@ == Value::Closure(Box::new(c@)),
                Err(e) => e == TypeMismatch::NotAClosure && !(self@ is Closure),
            },
    {
        match self {
            MalObject::Closure(c) => Ok(&**c),
            _ => Err(TypeMismatch::NotAClosure),
        }
    }

    /// The characters of the string that the object is.
    pub fn as_string(&self) -> (r: Result<&str, TypeMismatch>)
        ensures
            match r {
                Ok(s) => self@ == Value::String(s@),
                Err(e) => e == TypeMismatch::NotAString && !(self@ is String),
            },
    {
        match self {
            MalObject::String(s) => Ok(s.as_str()),
            _ => Err(TypeMismatch::NotAString),
        }
    }

    /// The atom that the object is.
    pub fn as_atom(&self) -> (r: Result<&Atom, TypeMismatch>)
        ensures
            match r {
                Ok(a) => self@ == Value::Atom(a.payload),
                Err(e) => e == TypeMismatch::NotAnAtom && !(self@ is Atom),
            },
    {
        match self {
            MalObject::Atom(a) => Ok(a),
            _ => Err(TypeMismatch::NotAnAtom),
        }
    }

    /// The boolean that the object is.
    pub fn as_bool(&self) -> (r: Result<bool, TypeMismatch>)
        ensures
            r == (match self@ {
                Value::Bool(b) => Ok::<bool, TypeMismatch>(b),
                _ => Err(TypeMismatch::NotABool),
            }),
    {
        match self {
            MalObject::Bool(b) => Ok(*b),
            _ => Err(TypeMismatch::NotABool),
        }
    }

    /// The key that the object makes: strings and keywords do.
    pub fn as_hashkey(&self) -> (r: Result<HashKey, TypeMismatch>)
        ensures
            match r {
                Ok(k) => key_of(self@) == Some(k@),
                Err(e) => e == TypeMismatch::NotAValidKey && key_of(self@) is None,
            },
    {
        match self {
            MalObject::String(s) => Ok(HashKey::String(s.clone())),
            MalObject::Keyword(s) => Ok(HashKey::Keyword(s.clone())),
            _ => Err(TypeMismatch::NotAValidKey),
        }
    }

    /// Whether the object is nil.
    pub fn is_nil(&self) -> (r: bool)
        ensures
            r == (self@ is Nil),
    {
        match self {
            MalObject::Nil => true,
            _ => false,
        }
    }

    /// Whether the object is a list.
    pub fn is_list(&self) -> (r: bool)
        ensures
            r == (self@ is List),
    {
        match self {
            MalObject::List(_) => true,
            _ => false,
        }
    }

    /// Whether the object is a vector.
    pub fn is_vector(&self) -> (r: bool)
        ensures
            r == (self@ is Vector),
    {
        match self {
            MalObject::Vector(_) => true,
            _ => false,
        }
    }

    /// Whether the object is a list or a vector.
    pub fn is_seq(&self) -> (r: bool)
        ensures
            r == (self@ is List || self@ is Vector),
    {
        match self {
            MalObject::Vector(_) | MalObject::List(_) => true,
            _ => false,
        }
    }

    /// Whether the object is an atom.
    pub fn is_atom(&self) -> (r: bool)
        ensures
            r == (self@ is Atom),
    {
        match self {
            MalObject::Atom(_) => true,
            _ => false,
        }
    }

    /// Whether the object is a symbol.
    pub fn is_symbol(&self) -> (r: bool)
        ensures
            r == (self@ is Symbol),
    {
        match self {
            MalObject::Symbol(_) => true,
            _ => false,
        }
    }

    /// Whether the object is a keyword.
    pub fn is_keyword(&self) -> (r: bool)
        ensures
            r == (self@ is Keyword),
    {
        match self {
            MalObject::Keyword(_) => true,
            _ => false,
        }
    }

    /// Whether the object is a map.
    pub fn is_map(&self) -> (r: bool)
        ensures
            r == (self@ is HashMap),
    {
        match self {
            MalObject::HashMap(_) => true,
            _ => false,
        }
    }

    /// Whether the object is a string.
    pub fn is_string(&self) -> (r: bool)
        ensures
            r == (self@ is String),
    {
        match self {
            MalObject::String(_) => true,
            _ => false,
        }
    }

    /// Whether the object is an integer.
    pub fn is_number(&self) -> (r: bool)
        ensures
            r == (self@ is Integer),
    {
        match self {
            MalObject::Integer(_) => true,
            _ => false,
        }
    }

    /// Whether the object is a closure that is marked as a macro.
    pub fn is_macro(&self) -> (r: bool)
        ensures
            r == is_macro_value(self@),
    {
        match self {
            MalObject::Closure(f) => f.is_macro,
            _ => false,
        }
    }

    /// The empty list.
    pub fn new_list() -> (r: Self)
        ensures
            r@ == list_of(Seq::empty()),
    {
        let elements: Vec<MalObject> = Vec::new();
        assert(view_items(elements@) =~= Seq::empty());
        Self::wrap_list(elements)
    }

    /// The list of the elements, without metadata.
    pub fn wrap_list(elements: Vec<MalObject>) -> (r: Self)
        ensures
            r@ == list_of(view_items(elements@)),
    {
        let r = MalObject::List(Rc::new(MalList { payload: elements, meta: MalObject::Nil }));
        assert(r@ is List && value_of(MalObject::Nil) == Value::Nil) by {
            reveal_with_fuel(value_of, 2);
        }
        r
    }

    /// The map of the entries, without metadata.
    pub fn wrap_map(map: Vec<(HashKey, MalObject)>) -> (r: Self)
        ensures
            r@ == map_of(view_entries(map@)),
    {
        let r = MalObject::HashMap(Rc::new(MalMap { payload: map, meta: MalObject::Nil }));
        assert(r@ is HashMap && value_of(MalObject::Nil) == Value::Nil) by {
            reveal_with_fuel(value_of, 2);
        }
        r
    }

    /// The vector of the elements, without metadata.
    pub fn wrap_vector(elements: Vec<MalObject>) -> (r: Self)
        ensures
            r@ == vector_of(view_items(elements@)),
    {
        let r = MalObject::Vector(Rc::new(MalVector { payload: elements, meta: MalObject::Nil }));
        assert(r@ is Vector && value_of(MalObject::Nil) == Value::Nil) by {
            reveal_with_fuel(value_of, 2);
        }
        r
    }

    /// The symbol of a name.
    pub fn new_symbol(name: &str) -> (r: Self)
        ensures
            r@ == Value::Symbol(name@),
    {
        MalObject::Symbol(MalSymbol(String::from_str(name)))
    }

    /// The keyword of a name.
    pub fn new_keyword(name: &str) -> (r: Self)
        ensures
            r@ == Value::Keyword(name@),
    {
        MalObject::Keyword(String::from_str(name))
    }
}

/// The key that a value makes: strings and keywords do, nothing else does.
pub open spec fn key_of(v: Value) -> Option<Key> {
    match v {
        Value::String(s) => Some(Key::String(s)),
        Value::Keyword(s) => Some(Key::Keyword(s)),
        _ => None,
    }
}

/// The value that a key came from.
pub open spec fn key_value(k: Key) -> Value {
    match k {
        Key::String(s) => Value::String(s),
        Key::Keyword(s) => Value::Keyword(s),
    }
}

/// Whether a value is a closure that is marked as a macro.
pub open spec fn is_macro_value(v: Value) -> bool {
    match v {
        Value::Closure(c) => c.is_macro,
        _ => false,
    }
}

impl HashKey {
    /// The string or keyword that the key came from.
    pub fn into_mal_object(&self) -> (r: MalObject)
        ensures
            r@ == key_value(self@),
    {
        match self {
            HashKey::String(x) => MalObject::String(x.clone()),
            HashKey::Keyword(x) => MalObject::Keyword(x.clone()),
        }
    }

    /// Whether two keys are of the same kind and hold the same characters.
    pub fn same(&self, other: &HashKey) -> (r: bool)
        ensures
            r == (self@ == other@),
    {
        match (self, other) {
            (HashKey::String(a), HashKey::String(b)) => crate::text::same_text(
                a.as_str(),
                b.as_str(),
            ),
            (HashKey::Keyword(a), HashKey::Keyword(b)) => crate::text::same_text(
                a.as_str(),
                b.as_str(),
            ),
            _ => false,
        }
    }
}

/// The keyword of a name.
pub fn build_keyword(chars: &str) -> (r: MalObject)
    ensures
        r@ == Value::Keyword(chars@),
{
    MalObject::Keyword(String::from_str(chars))
}


/// Why a sequence of values is not the entries of a map.
#[derive(Clone, Copy, Debug, PartialEq, Eq, Structural)]
pub enum MapError {
    MissingValue,
    UnhashableKey,
}

/// The first place at or after `from` where `key` stands among the entries.
pub open spec fn find_key<K>(entries: Seq<(K, Value)>, key: K, from: int) -> Option<int>
    decreases entries.len() - from,
{
    if from < 0 || from >= entries.len() {
        None
    } else if entries[from].0 == key {
        Some(from)
    } else {
        find_key(entries, key, from + 1)
    }
}

/// The value that the entries hold for `key`.
pub open spec fn lookup<K>(entries: Seq<(K, Value)>, key: K) -> Option<Value> {
    match find_key(entries, key, 0) {
        Some(i) => Some(entries[i].1),
        None => None,
    }
}

/// The entries with `key` bound to `value`: in place where the key was bound before, at
/// the end where it was not.
pub open spec fn insert_entry<K>(entries: Seq<(K, Value)>, key: K, value: Value) -> Seq<
    (K, Value),
> {
    match find_key(entries, key, 0) {
        Some(i) => entries.update(i, (key, value)),
        None => entries.push((key, value)),
    }
}

/// The first `n` entries without those under `key`.
pub open spec fn remove_key(entries: Seq<(Key, Value)>, key: Key, n: int) -> Seq<(Key, Value)>
    decreases n,
{
    if n <= 0 {
        Seq::empty()
    } else if entries[n - 1].0 == key {
        remove_key(entries, key, n - 1)
    } else {
        remove_key(entries, key, n - 1).push(entries[n - 1])
    }
}

/// The entries `init` after binding, in order, the first `n` key and value pairs of
/// `items`; the first value that is no key stops it.
pub open spec fn bind_pairs(init: Seq<(Key, Value)>, items: Seq<Value>, n: int) -> Result<
    Seq<(Key, Value)>,
    MapError,
>
    decreases n,
{
    if n <= 0 {
        Ok(init)
    } else {
        match bind_pairs(init, items, n - 1) {
            Err(e) => Err(e),
            Ok(entries) => match key_of(items[2 * (n - 1)]) {
                None => Err(MapError::UnhashableKey),
                Some(key) => Ok(insert_entry(entries, key, items[2 * (n - 1) + 1])),
            },
        }
    }
}

/// The map that a sequence of alternating keys and values describes.
pub open spec fn map_from(items: Seq<Value>) -> Result<Value, MapError> {
    if items.len() % 2 == 1 {
        Err(MapError::MissingValue)
    } else {
        match bind_pairs(Seq::empty(), items, items.len() as int / 2) {
            Err(e) => Err(e),
            Ok(entries) => Ok(map_of(entries)),
        }
    }
}

/// Where `key` stands among the entries, if it does.
pub fn position_of(entries: &Vec<(HashKey, MalObject)>, key: &HashKey) -> (r: Option<usize>)
    ensures
        match r {
            Some(i) => find_key(view_entries(entries@), key@, 0) == Some(i as int) && i
                < entries.len(),
            None => find_key(view_entries(entries@), key@, 0) is None,
        },
{
    let mut i: usize = 0;
    while i < entries.len()
        invariant
            i <= entries.len(),
            find_key(view_entries(entries@), key@, 0) == find_key(
                view_entries(entries@),
                key@,
                i as int,
            ),
        decreases entries.len() - i,
    {
        if entries[i].0.same(key) {
            return Some(i);
        }
        i += 1;
    }
    None
}

/// Binds `key` to `value` among the entries.
pub fn put_entry(entries: &mut Vec<(HashKey, MalObject)>, key: HashKey, value: MalObject)
    ensures
        view_entries(final(entries)@) == insert_entry(view_entries(old(entries)@), key@, value@),
{
    match position_of(entries, &key) {
        Some(i) => {
            entries[i] = (key, value);
            assert(view_entries(entries@) =~= view_entries(old(entries)@).update(
                i as int,
                (key@, value@),
            ));
        },
        None => {
            entries.push((key, value));
            assert(view_entries(entries@) =~= view_entries(old(entries)@).push((key@, value@)));
        },
    }
}

/// Binds the alternating keys and values of `items` among the entries.
pub(crate) fn put_pairs(entries: Vec<(HashKey, MalObject)>, items: &Vec<MalObject>, start: usize) -> (r:
    Result<Vec<(HashKey, MalObject)>, MapError>)
    requires
        start <= items.len(),
        (items.len() - start) % 2 == 0,
    ensures
        match r {
            Ok(out) => bind_pairs(
                view_entries(entries@),
                view_items(items@).skip(start as int),
                (items.len() - start) / 2,
            ) == Ok::<Seq<(Key, Value)>, MapError>(view_entries(out@)),
            Err(e) => bind_pairs(
                view_entries(entries@),
                view_items(items@).skip(start as int),
                (items.len() - start) / 2,
            ) == Err::<Seq<(Key, Value)>, MapError>(e),
        },
{
    let mut out = entries;
    let ghost init = view_entries(entries@);
    let ghost rest = view_items(items@).skip(start as int);
    let mut i: usize = start;
    let mut done: usize = 0;
    while i < items.len()
        invariant
            start <= i <= items.len(),
            (items.len() - i) % 2 == 0,
            i == start + 2 * done,
            rest == view_items(items@).skip(start as int),
            init == view_entries(entries@),
            bind_pairs(init, rest, done as int) == Ok::<Seq<(Key, Value)>, MapError>(
                view_entries(out@),
            ),
        decreases items.len() - i,
    {
        assert(rest[2 * done] == items[i as int]@);
        assert(rest[2 * done + 1] == items[i + 1]@);
        let key = match items[i].as_hashkey() {
            Ok(key) => key,
            Err(_) => {
                proof {
                    assert(key_of(rest[2 * done]) is None);
                    assert(bind_pairs(init, rest, done as int + 1) == Err::<
                        Seq<(Key, Value)>,
                        MapError,
                    >(MapError::UnhashableKey));
                    bind_pairs_stops(init, rest, done as int + 1, (items.len() - start) / 2);
                }
                return Err(MapError::UnhashableKey);
            },
        };
        put_entry(&mut out, key, items[i + 1].clone());
        i += 2;
        done += 1;
    }
    Ok(out)
}

/// Once binding has failed it stays failed, with the same error.
pub proof fn bind_pairs_stops(init: Seq<(Key, Value)>, items: Seq<Value>, n: int, m: int)
    requires
        n <= m,
        bind_pairs(init, items, n) is Err,
    ensures
        bind_pairs(init, items, m) == bind_pairs(init, items, n),
    decreases m - n,
{
    if n < m {
        bind_pairs_stops(init, items, n, m - 1);
    }
}

/// The map that a sequence of alternating keys and values describes.
pub fn build_map(entries: Vec<MalObject>) -> (r: Result<MalObject, MapError>)
    ensures
        match r {
            Ok(m) => map_from(view_items(entries@)) == Ok::<Value, MapError>(m@),
            Err(e) => map_from(view_items(entries@)) == Err::<Value, MapError>(e),
        },
{
    if entries.len() % 2 == 1 {
        return Err(MapError::MissingValue);
    }
    assert(view_items(entries@).skip(0) =~= view_items(entries@));
    let empty: Vec<(HashKey, MalObject)> = Vec::new();
    assert(view_entries(empty@) =~= Seq::empty());
    match put_pairs(empty, &entries, 0) {
        Ok(map) => Ok(MalObject::wrap_map(map)),
        Err(e) => Err(e),
    }
}


/// Whether the first `n` elements of two sequences are equal, each to the one in its place.
pub open spec fn equal_items(xs: Seq<Value>, ys: Seq<Value>, n: int) -> bool
    decreases xs, n,
{
    if n <= 0 || n > xs.len() {
        true
    } else {
        equal_items(xs, ys, n - 1) && equal_values(xs[n - 1], ys[n - 1])
    }
}

/// Whether each of the first `n` entries of `xs` has an equal value under its key in `ys`.
pub open spec fn equal_entries(xs: Seq<(Key, Value)>, ys: Seq<(Key, Value)>, n: int) -> bool
    decreases xs, n,
{
    if n <= 0 || n > xs.len() {
        true
    } else {
        equal_entries(xs, ys, n - 1) && match lookup(ys, xs[n - 1].0) {
            Some(other) => equal_values(xs[n - 1].1, other),
            None => false,
        }
    }
}

/// Equality of the language: by structure, with a list equal to a vector of equal
/// elements, maps equal when they bind the same keys to equal values, atoms equal when
/// they are the same cell, and functions equal to nothing. Metadata plays no part.
pub open spec fn equal_values(a: Value, b: Value) -> bool
    decreases a, 0int,
{
    match (a, b) {
        (Value::List(xs, _), Value::List(ys, _)) => xs.len() == ys.len() && equal_items(
            xs,
            ys,
            xs.len() as int,
        ),
        (Value::List(xs, _), Value::Vector(ys, _)) => xs.len() == ys.len() && equal_items(
            xs,
            ys,
            xs.len() as int,
        ),
        (Value::Vector(xs, _), Value::List(ys, _)) => xs.len() == ys.len() && equal_items(
            xs,
            ys,
            xs.len() as int,
        ),
        (Value::Vector(xs, _), Value::Vector(ys, _)) => xs.len() == ys.len() && equal_items(
            xs,
            ys,
            xs.len() as int,
        ),
        (Value::Integer(x), Value::Integer(y)) => x == y,
        (Value::Bool(x), Value::Bool(y)) => x == y,
        (Value::String(x), Value::String(y)) => x == y,
        (Value::Keyword(x), Value::Keyword(y)) => x == y,
        (Value::Symbol(x), Value::Symbol(y)) => x == y,
        (Value::HashMap(xs, _), Value::HashMap(ys, _)) => xs.len() == ys.len() && equal_entries(
            xs,
            ys,
            xs.len() as int,
        ),
        (Value::Atom(x), Value::Atom(y)) => x == y,
        (Value::Nil, Value::Nil) => true,
        _ => false,
    }
}

/// Whether two sequences are equal, element by element.
pub fn equal_sequences(xs: &Vec<MalObject>, ys: &Vec<MalObject>) -> (r: bool)
    ensures
        r == (xs.len() == ys.len() && equal_items(
            view_items(xs@),
            view_items(ys@),
            xs.len() as int,
        )),
    decreases xs, 1int,
{
    if xs.len() != ys.len() {
        return false;
    }
    let mut i: usize = 0;
    while i < xs.len()
        invariant
            i <= xs.len(),
            xs.len() == ys.len(),
            equal_items(view_items(xs@), view_items(ys@), i as int),
        decreases xs.len() - i,
    {
        if !equal(&xs[i], &ys[i]) {
            proof {
                equal_items_fails(view_items(xs@), view_items(ys@), i as int + 1, xs.len() as int);
            }
            return false;
        }
        i += 1;
    }
    true
}

/// A difference among the first `n` elements is a difference among the first `m`.
pub proof fn equal_items_fails(xs: Seq<Value>, ys: Seq<Value>, n: int, m: int)
    requires
        0 <= n <= m <= xs.len(),
        !equal_items(xs, ys, n),
    ensures
        !equal_items(xs, ys, m),
    decreases m - n,
{
    if n < m {
        equal_items_fails(xs, ys, n, m - 1);
    }
}

/// A difference among the first `n` entries is a difference among the first `m`.
pub proof fn equal_entries_fails(xs: Seq<(Key, Value)>, ys: Seq<(Key, Value)>, n: int, m: int)
    requires
        0 <= n <= m <= xs.len(),
        !equal_entries(xs, ys, n),
    ensures
        !equal_entries(xs, ys, m),
    decreases m - n,
{
    if n < m {
        equal_entries_fails(xs, ys, n, m - 1);
    }
}

/// Whether each entry of `xs` has an equal value under its key in `ys`, the two being of
/// the same size.
pub fn equal_maps(xs: &MalMap, ys: &MalMap) -> (r: bool)
    ensures
        r == (xs.payload.len() == ys.payload.len() && equal_entries(
            view_entries(xs.payload@),
            view_entries(ys.payload@),
            xs.payload.len() as int,
        )),
    decreases xs, 1int,
{
    if xs.payload.len() != ys.payload.len() {
        return false;
    }
    let mut i: usize = 0;
    while i < xs.payload.len()
        invariant
            i <= xs.payload.len(),
            equal_entries(view_entries(xs.payload@), view_entries(ys.payload@), i as int),
        decreases xs.payload.len() - i,
    {
        let same = match position_of(&ys.payload, &xs.payload[i].0) {
            Some(j) => equal(&xs.payload[i].1, &ys.payload[j].1),
            None => false,
        };
        if !same {
            proof {
                equal_entries_fails(
                    view_entries(xs.payload@),
                    view_entries(ys.payload@),
                    i as int + 1,
                    xs.payload.len() as int,
                );
            }
            return false;
        }
        i += 1;
    }
    true
}

/// The view of an object, case by case.
pub proof fn view_unfolds(obj: MalObject)
    ensures
        match obj {
            MalObject::Nil => obj@ == Value::Nil,
            MalObject::Integer(i) => obj@ == Value::Integer(i),
            MalObject::Bool(b) => obj@ == Value::Bool(b),
            MalObject::String(s) => obj@ == Value::String(s@),
            MalObject::Symbol(s) => obj@ == Value::Symbol(s@),
            MalObject::Keyword(s) => obj@ == Value::Keyword(s@),
            MalObject::List(l) => obj@ == Value::List(view_items(l.payload@), Box::new(l.meta@)),
            MalObject::Vector(l) => obj@ == Value::Vector(
                view_items(l.payload@),
                Box::new(l.meta@),
            ),
            MalObject::HashMap(m) => obj@ == Value::HashMap(
                view_entries(m.payload@),
                Box::new(m.meta@),
            ),
            MalObject::Primitive(f) => obj@ == Value::Primitive(f.payload.op, Box::new(f.meta@)),
            MalObject::Closure(c) => obj@ == Value::Closure(Box::new(c@)),
            MalObject::Eval(e) => obj@ == Value::Eval(e.env),
            MalObject::Atom(a) => obj@ == Value::Atom(a.payload),
        },
{
}

/// Whether two objects are equal as values of the language.
pub fn equal(a: &MalObject, b: &MalObject) -> (r: bool)
    ensures
        r == equal_values(a@, b@),
    decreases a, 0int,
{
    proof {
        view_unfolds(*a);
        view_unfolds(*b);
    }
    match a {
        MalObject::List(x) => match b {
            MalObject::List(y) => equal_sequences(&x.payload, &y.payload),
            MalObject::Vector(y) => equal_sequences(&x.payload, &y.payload),
            _ => false,
        },
        MalObject::Vector(x) => match b {
            MalObject::List(y) => equal_sequences(&x.payload, &y.payload),
            MalObject::Vector(y) => equal_sequences(&x.payload, &y.payload),
            _ => false,
        },
        MalObject::Integer(x) => match b {
            MalObject::Integer(y) => *x == *y,
            _ => false,
        },
        MalObject::Bool(x) => match b {
            MalObject::Bool(y) => *x == *y,
            _ => false,
        },
        MalObject::String(x) => match b {
            MalObject::String(y) => crate::text::same_text(x.as_str(), y.as_str()),
            _ => false,
        },
        MalObject::Keyword(x) => match b {
            MalObject::Keyword(y) => crate::text::same_text(x.as_str(), y.as_str()),
            _ => false,
        },
        MalObject::Symbol(x) => match b {
            MalObject::Symbol(y) => crate::text::same_text(x.0.as_str(), y.0.as_str()),
            _ => false,
        },
        MalObject::HashMap(x) => match b {
            MalObject::HashMap(y) => equal_maps(x, y),
            _ => false,
        },
        MalObject::Atom(x) => match b {
            MalObject::Atom(y) => x.payload == y.payload,
            _ => false,
        },
        MalObject::Nil => match b {
            MalObject::Nil => true,
            _ => false,
        },
        _ => false,
    }
}


/// The string value that the text between the quotes of a literal stands for.
pub fn build_string(src: &str) -> (r: Result<MalObject, crate::strings::BuildError>)
    ensures
        match r {
            Ok(v) => crate::strings::unescape(src@) == Ok::<Seq<char>, crate::strings::BuildError>(
                v@->String_0,
            ) && v@ is String,
            Err(e) => crate::strings::unescape(src@) == Err::<
                Seq<char>,
                crate::strings::BuildError,
            >(e),
        },
{
    match crate::strings::build_string(src) {
        Ok(text) => Ok(MalObject::String(text)),
        Err(e) => Err(e),
    }
}

} // verus!
