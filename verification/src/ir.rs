//! The lowered intermediate representation that the compiler consumes: every
//! name is a [`LocalId`], every binding a `let`, every function a lambda on
//! the right-hand side of a `let`.

use vstd::prelude::*;

use crate::syntax::{BinOp, Literal, UnOp};

verus! {

/// The identity of a binding site: a function parameter or a `let`.
#[derive(Debug, Clone, Copy, PartialEq, Eq, Structural)]
pub struct LocalId(pub usize);

impl LocalId {
    /// The identity under which the top-level function knows itself.
    pub open spec fn spec_main() -> LocalId {
        LocalId(0)
    }

    /// The identity under which the top-level function knows itself.
    #[verifier::when_used_as_spec(spec_main)]
    pub fn main() -> (id: LocalId)
        ensures
            id == LocalId::spec_main(),
    {
        LocalId(0)
    }
}

/// The identity of a term, under which the context holds its type.
#[derive(Debug, Clone, Copy, PartialEq, Eq, Structural)]
pub struct TermId(pub u64);

/// A primitive function.
#[derive(Debug, Clone, Copy, PartialEq, Eq, Structural)]
pub enum PrimFn {
    /// Writes its argument as a line of text.
    Print,
    /// A unary operator.
    UnOp(UnOp),
    /// A binary operator.
    BinOp(BinOp),
}

impl PrimFn {
    /// The number of arguments that the primitive takes.
    pub open spec fn spec_arity(&self) -> usize {
        match self {
            PrimFn::Print => 1,
            PrimFn::UnOp(_) => 1,
            PrimFn::BinOp(_) => 2,
        }
    }

    /// The number of arguments that the primitive takes.
    #[verifier::when_used_as_spec(spec_arity)]
    pub fn arity(&self) -> (n: usize)
        ensures
            n == self.spec_arity(),
    {
        match self {
            PrimFn::Print => 1,
            PrimFn::UnOp(_) => 1,
            PrimFn::BinOp(_) => 2,
        }
    }
}

/// Whether a `let` binds a name that its own right-hand side may mention.
#[derive(Debug, Clone, Copy, PartialEq, Eq, Structural)]
pub enum BindKind {
    NonRec,
    Rec,
}

/// A term together with its identity.
#[derive(Debug, PartialEq, Eq)]
pub struct Term {
    pub id: TermId,
    pub kind: TermKind,
}

/// The shapes of a term.
#[derive(Debug, PartialEq, Eq)]
pub enum TermKind {
    /// A literal.
    Lit(Literal),
    /// A reference to a binding in scope.
    Var(LocalId),
    /// A primitive applied to its arguments.
    PrimApp(PrimFn, Vec<Term>),
    /// A binding, in scope over the last term.
    Let(BindKind, LocalId, Box<RValue>, Box<Term>),
    /// A call with its arguments.
    App(Box<Term>, Vec<Term>),
    /// A conditional with both of its branches.
    Cond(Box<Term>, Box<Term>, Box<Term>),
}

/// The right-hand side of a `let`, together with its identity.
#[derive(Debug, PartialEq, Eq)]
pub struct RValue {
    pub id: TermId,
    pub kind: RValueKind,
}

/// The shapes of the right-hand side of a `let`.
#[derive(Debug, PartialEq, Eq)]
pub enum RValueKind {
    /// An ordinary term.
    Term(TermKind),
    /// A lambda: its parameters and its body.
    Abs(Vec<LocalId>, Term),
}

} // verus!
