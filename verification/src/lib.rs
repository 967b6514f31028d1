//! Bytecode compiler and stack-based virtual machine for Pijama's lowered
//! intermediate representation.
//!
//! [`compile`] turns a term into a heap of functions, each a chunk of
//! opcodes, and loads it into an [`Interpreter`]; [`Interpreter::run`]
//! executes it. [`run`] and [`Machine::evaluate`] do both.
//!
//! Every function is verified against a contract. The compiler is held to
//! the spec functions of the module [`compiler`], the machine to those of the
//! module [`semantics`]. The module [`evaluation`] says what a term means
//! without reference to bytecode, and the modules [`correctness`] and
//! [`simulation`] prove that a compiled program writes what its meaning says.
//! The module [`laws`] holds what else is proved of all programs.

pub mod bytecode;
pub mod compiler;
pub mod correctness;
pub mod evaluation;
pub mod interpreter;
pub mod ir;
pub mod laws;
pub mod machine;
pub mod names;
pub mod semantics;
pub mod simulation;
pub mod stack;
pub mod syntax;
pub mod text;
pub mod ty;

pub use interpreter::Interpreter;
pub use machine::{compile, run, Machine};
pub use names::Local;
pub use syntax::{BinOp, Literal, Primitive, UnOp};
pub use ty::{Binding, Ty};
