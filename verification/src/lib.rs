//! An interpreter for a small Lisp, verified against a mathematical model of the
//! language.
//!
//! # The pipeline
//!
//! Source text goes through the tokenizer ([`tokens`]) and the reader ([`reader`]) to
//! a value ([`types`]); the evaluator ([`evaluator`], [`special_forms`],
//! [`primitives`]) takes a value and a frame of the environment ([`environment`]) to
//! a value; the printer ([`printer`]) takes a value back to text. [`interpreter`]
//! puts the three together, [`cmdline`] launches them, [`prelude`] holds the forms
//! that every interpreter evaluates first.
//!
//! # The model
//!
//! Every type has a view: an object is a [`types::Value`], an environment an
//! [`environment::State`], an error an [`evaluator::Failure`]. What reading, printing
//! and evaluating mean is said over these views, by the functions of
//! [`tokens`], [`reader`], [`printer`], [`primitives`] and [`semantics`] that carry the
//! word `spec`; the contract of each function of the code says that it computes what
//! the model asks for.
//!
//! # Frames, cells and the host
//!
//! An environment holds its frames and the cells of its atoms in two sequences, and
//! values name them by their places. Nothing is ever taken out of either. What a
//! program prints, and what it asks of the machine it runs on (a file, a line of
//! input, the time), passes through the environment as plain values: the host takes
//! the lines that were printed, and hands in what was asked for.
//!
//! # Steps
//!
//! Every evaluation has a limit on its steps, because a program may run forever. An
//! evaluation that needs more fails, and no `try*` of the program catches that.
//!
//! # Laws
//!
//! [`laws`], [`roundtrip`] and [`steps`] hold what is proved of the model: that reading
//! what was printed gives the value again, that evaluating a form is evaluating its
//! macro-expansion, how bindings are seen from frames, what atoms hold, that evaluation
//! takes nothing away from an environment, and that the step limit decides whether an
//! evaluation has a result, never which.

pub mod atoms;
pub mod builtin;
pub mod cmdline;
pub mod environment;
pub mod equality;
pub mod evaluator;
pub mod interpreter;
pub mod laws;
pub mod messages;
pub mod prelude;
pub mod primitives;
pub mod printer;
pub mod reader;
pub mod roundtrip;
pub mod semantics;
pub mod special_forms;
pub mod steps;
pub mod strings;
pub mod text;
pub mod tokens;
pub mod types;
