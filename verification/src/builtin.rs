//! The names of the built-in operations and the numbers of arguments that they take.

use crate::types::{Arity, Builtin};
use vstd::prelude::*;

verus! {

impl Builtin {
    /// The name under which the operation is bound.
    pub open spec fn spec_name(self) -> &'static str {
        match self {
            Builtin::Sum => "+",
            Builtin::Sub => "-",
            Builtin::Mul => "*",
            Builtin::Div => "/",
            Builtin::Gt => ">",
            Builtin::Ge => ">=",
            Builtin::Lt => "<",
            Builtin::Le => "<=",
            Builtin::PrStr => "pr-str",
            Builtin::Str => "str",
            Builtin::Prn => "prn",
            Builtin::Println => "println",
            Builtin::ReadString => "read-string",
            Builtin::Slurp => "slurp",
            Builtin::Cons => "cons",
            Builtin::Concat => "concat",
            Builtin::Nth => "nth",
            Builtin::First => "first",
            Builtin::Rest => "rest",
            Builtin::Apply => "apply",
            Builtin::MapOver => "map",
            Builtin::ToSeq => "seq",
            Builtin::Conj => "conj",
            Builtin::MakeMap => "hash-map",
            Builtin::Assoc => "assoc",
            Builtin::Dissoc => "dissoc",
            Builtin::Get => "get",
            Builtin::Contains => "contains?",
            Builtin::Keys => "keys",
            Builtin::Vals => "vals",
            Builtin::Deref => "deref",
            Builtin::Reset => "reset!",
            Builtin::Swap => "swap!",
            Builtin::NilTest => "nil?",
            Builtin::TrueTest => "true?",
            Builtin::FalseTest => "false?",
            Builtin::MakeList => "list",
            Builtin::ListTest => "list?",
            Builtin::MakeVector => "vector",
            Builtin::VectorTest => "vector?",
            Builtin::SequentialTest => "sequential?",
            Builtin::EmptyTest => "empty?",
            Builtin::Count => "count",
            Builtin::Equal => "=",
            Builtin::MakeAtom => "atom",
            Builtin::AtomTest => "atom?",
            Builtin::MakeSymbol => "symbol",
            Builtin::SymbolTest => "symbol?",
            Builtin::MakeKeyword => "keyword",
            Builtin::KeywordTest => "keyword?",
            Builtin::MapTest => "map?",
            Builtin::FunctionTest => "fn?",
            Builtin::MacroTest => "macro?",
            Builtin::StringTest => "string?",
            Builtin::NumberTest => "number?",
            Builtin::Throw => "throw",
            Builtin::Readline => "readline",
            Builtin::TimeMs => "time-ms",
        }
    }

    /// The numbers of arguments that the operation takes.
    pub open spec fn spec_arity(self) -> Arity {
        match self {
            Builtin::Sum | Builtin::Mul | Builtin::PrStr | Builtin::Str | Builtin::Prn
            | Builtin::Println | Builtin::Concat | Builtin::MakeList | Builtin::MakeVector => {
                Arity::AtLeast(0)
            },
            Builtin::Dissoc => Arity::AtLeast(1),
            Builtin::Swap | Builtin::Apply | Builtin::Conj => Arity::AtLeast(2),
            Builtin::MakeMap => Arity::Even,
            Builtin::Assoc => Arity::Odd,
            Builtin::TimeMs => Arity::Between(0, 0),
            Builtin::Sub | Builtin::Div | Builtin::Gt | Builtin::Ge | Builtin::Lt | Builtin::Le
            | Builtin::Cons | Builtin::Nth | Builtin::MapOver | Builtin::Get | Builtin::Contains
            | Builtin::Reset | Builtin::Equal => Arity::Between(2, 2),
            _ => Arity::Between(1, 1),
        }
    }

    /// The name under which the operation is bound.
    #[verifier::when_used_as_spec(spec_name)]
    pub fn name(self) -> (r: &'static str)
        ensures
            r == self.spec_name(),
    {
        match self {
            Builtin::Sum => "+",
            Builtin::Sub => "-",
            Builtin::Mul => "*",
            Builtin::Div => "/",
            Builtin::Gt => ">",
            Builtin::Ge => ">=",
            Builtin::Lt => "<",
            Builtin::Le => "<=",
            Builtin::PrStr => "pr-str",
            Builtin::Str => "str",
            Builtin::Prn => "prn",
            Builtin::Println => "println",
            Builtin::ReadString => "read-string",
            Builtin::Slurp => "slurp",
            Builtin::Cons => "cons",
            Builtin::Concat => "concat",
            Builtin::Nth => "nth",
            Builtin::First => "first",
            Builtin::Rest => "rest",
            Builtin::Apply => "apply",
            Builtin::MapOver => "map",
            Builtin::ToSeq => "seq",
            Builtin::Conj => "conj",
            Builtin::MakeMap => "hash-map",
            Builtin::Assoc => "assoc",
            Builtin::Dissoc => "dissoc",
            Builtin::Get => "get",
            Builtin::Contains => "contains?",
            Builtin::Keys => "keys",
            Builtin::Vals => "vals",
            Builtin::Deref => "deref",
            Builtin::Reset => "reset!",
            Builtin::Swap => "swap!",
            Builtin::NilTest => "nil?",
            Builtin::TrueTest => "true?",
            Builtin::FalseTest => "false?",
            Builtin::MakeList => "list",
            Builtin::ListTest => "list?",
            Builtin::MakeVector => "vector",
            Builtin::VectorTest => "vector?",
            Builtin::SequentialTest => "sequential?",
            Builtin::EmptyTest => "empty?",
            Builtin::Count => "count",
            Builtin::Equal => "=",
            Builtin::MakeAtom => "atom",
            Builtin::AtomTest => "atom?",
            Builtin::MakeSymbol => "symbol",
            Builtin::SymbolTest => "symbol?",
            Builtin::MakeKeyword => "keyword",
            Builtin::KeywordTest => "keyword?",
            Builtin::MapTest => "map?",
            Builtin::FunctionTest => "fn?",
            Builtin::MacroTest => "macro?",
            Builtin::StringTest => "string?",
            Builtin::NumberTest => "number?",
            Builtin::Throw => "throw",
            Builtin::Readline => "readline",
            Builtin::TimeMs => "time-ms",
        }
    }

    /// The numbers of arguments that the operation takes.
    #[verifier::when_used_as_spec(spec_arity)]
    pub fn arity(self) -> (r: Arity)
        ensures
            r == self.spec_arity(),
    {
        match self {
            Builtin::Sum | Builtin::Mul | Builtin::PrStr | Builtin::Str | Builtin::Prn
            | Builtin::Println | Builtin::Concat | Builtin::MakeList | Builtin::MakeVector => {
                Arity::AtLeast(0)
            },
            Builtin::Dissoc => Arity::AtLeast(1),
            Builtin::Swap | Builtin::Apply | Builtin::Conj => Arity::AtLeast(2),
            Builtin::MakeMap => Arity::Even,
            Builtin::Assoc => Arity::Odd,
            Builtin::TimeMs => Arity::Between(0, 0),
            Builtin::Sub | Builtin::Div | Builtin::Gt | Builtin::Ge | Builtin::Lt | Builtin::Le
            | Builtin::Cons | Builtin::Nth | Builtin::MapOver | Builtin::Get | Builtin::Contains
            | Builtin::Reset | Builtin::Equal => Arity::Between(2, 2),
            _ => Arity::Between(1, 1),
        }
    }

    /// Every built-in operation, in the order in which a fresh environment binds them.
    pub open spec fn every() -> Seq<Builtin> {
        seq![
            Builtin::Sum,
            Builtin::Sub,
            Builtin::Mul,
            Builtin::Div,
            Builtin::Gt,
            Builtin::Ge,
            Builtin::Lt,
            Builtin::Le,
            Builtin::PrStr,
            Builtin::Str,
            Builtin::Prn,
            Builtin::Println,
            Builtin::ReadString,
            Builtin::Slurp,
            Builtin::Cons,
            Builtin::Concat,
            Builtin::Nth,
            Builtin::First,
            Builtin::Rest,
            Builtin::Apply,
            Builtin::MapOver,
            Builtin::ToSeq,
            Builtin::Conj,
            Builtin::MakeMap,
            Builtin::Assoc,
            Builtin::Dissoc,
            Builtin::Get,
            Builtin::Contains,
            Builtin::Keys,
            Builtin::Vals,
            Builtin::Deref,
            Builtin::Reset,
            Builtin::Swap,
            Builtin::NilTest,
            Builtin::TrueTest,
            Builtin::FalseTest,
            Builtin::MakeList,
            Builtin::ListTest,
            Builtin::MakeVector,
            Builtin::VectorTest,
            Builtin::SequentialTest,
            Builtin::EmptyTest,
            Builtin::Count,
            Builtin::Equal,
            Builtin::MakeAtom,
            Builtin::AtomTest,
            Builtin::MakeSymbol,
            Builtin::SymbolTest,
            Builtin::MakeKeyword,
            Builtin::KeywordTest,
            Builtin::MapTest,
            Builtin::FunctionTest,
            Builtin::MacroTest,
            Builtin::StringTest,
            Builtin::NumberTest,
            Builtin::Throw,
            Builtin::Readline,
            Builtin::TimeMs,
        ]
    }

    /// Every built-in operation.
    pub fn all() -> (r: Vec<Builtin>)
        ensures
            r@ == Builtin::every(),
    {
        let r = vec![
            Builtin::Sum,
            Builtin::Sub,
            Builtin::Mul,
            Builtin::Div,
            Builtin::Gt,
            Builtin::Ge,
            Builtin::Lt,
            Builtin::Le,
            Builtin::PrStr,
            Builtin::Str,
            Builtin::Prn,
            Builtin::Println,
            Builtin::ReadString,
            Builtin::Slurp,
            Builtin::Cons,
            Builtin::Concat,
            Builtin::Nth,
            Builtin::First,
            Builtin::Rest,
            Builtin::Apply,
            Builtin::MapOver,
            Builtin::ToSeq,
            Builtin::Conj,
            Builtin::MakeMap,
            Builtin::Assoc,
            Builtin::Dissoc,
            Builtin::Get,
            Builtin::Contains,
            Builtin::Keys,
            Builtin::Vals,
            Builtin::Deref,
            Builtin::Reset,
            Builtin::Swap,
            Builtin::NilTest,
            Builtin::TrueTest,
            Builtin::FalseTest,
            Builtin::MakeList,
            Builtin::ListTest,
            Builtin::MakeVector,
            Builtin::VectorTest,
            Builtin::SequentialTest,
            Builtin::EmptyTest,
            Builtin::Count,
            Builtin::Equal,
            Builtin::MakeAtom,
            Builtin::AtomTest,
            Builtin::MakeSymbol,
            Builtin::SymbolTest,
            Builtin::MakeKeyword,
            Builtin::KeywordTest,
            Builtin::MapTest,
            Builtin::FunctionTest,
            Builtin::MacroTest,
            Builtin::StringTest,
            Builtin::NumberTest,
            Builtin::Throw,
            Builtin::Readline,
            Builtin::TimeMs,
        ];
        assert(r@ =~= Builtin::every());
        r
    }
}

} // verus!
