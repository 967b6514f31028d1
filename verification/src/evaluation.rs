//! What a term means, without reference to bytecode: an evaluator with an
//! environment, written as a spec function.
//!
//! The evaluator is the yardstick for the compiler and the machine: the
//! module `correctness` proves that a compiled program writes what the
//! evaluator says the program writes.

use vstd::prelude::*;

use crate::compiler::{binop_opcode, short_circuits, unop_opcode};
use crate::ir::{LocalId, PrimFn, RValue, RValueKind, Term, TermId, TermKind};
use crate::semantics::{binary, unary};
use crate::syntax::BinOp;
use crate::text;
use crate::ty::Ty;

verus! {

/// A function value: the `let` that binds it gives it its name, its
/// parameters and its body. A function sees nothing of the scope around it
/// but itself. `ptr` counts the lambdas that the program holds before this
/// one, plus one: it is what `print` shows of a function.
pub struct Closure {
    pub name: LocalId,
    pub params: Seq<LocalId>,
    pub body: Term,
    pub ptr: nat,
}

/// What a term evaluates to.
pub enum Datum {
    /// An integer; also a boolean (`0` is false) or unit (`0`).
    Int(i64),
    /// A function.
    Closure(Closure),
    /// The program itself, as the scope of the program knows it. It cannot be
    /// called.
    Entry,
}

/// An environment: the bindings in scope with their values, outermost first.
pub type Env = Seq<(LocalId, Datum)>;

/// The names that an environment binds, outermost first.
pub open spec fn names(env: Env) -> Seq<LocalId> {
    Seq::new(env.len(), |i: int| env[i].0)
}

/// The environment in which a program starts: it knows itself.
pub open spec fn entry_env() -> Env {
    seq![(LocalId::main(), Datum::Entry)]
}

/// The environment of the body of a function that is called with the given
/// arguments: the function itself, then its parameters.
pub open spec fn call_env(closure: Closure, args: Seq<Datum>) -> Env {
    seq![(closure.name, Datum::Closure(closure))] + Seq::new(
        closure.params.len(),
        |i: int| (closure.params[i], args[i]),
    )
}

/// The value of the innermost binding of `id`.
pub open spec fn lookup(env: Env, id: LocalId) -> Option<Datum>
    decreases env.len(),
{
    if env.len() == 0 {
        None
    } else if env.last().0 == id {
        Some(env.last().1)
    } else {
        lookup(env.drop_last(), id)
    }
}

/// The number of lambdas in a term.
pub open spec fn lambdas(kind: TermKind) -> nat
    decreases kind,
{
    match kind {
        TermKind::Lit(_) => 0,
        TermKind::Var(_) => 0,
        TermKind::PrimApp(_, args) => lambdas_prefix(args@, args@.len()),
        TermKind::Let(_, _, rhs, tail) => lambdas_rvalue(*rhs) + lambdas(tail.kind),
        TermKind::App(func, args) => lambdas(func.kind) + lambdas_prefix(args@, args@.len()),
        TermKind::Cond(if_term, do_term, else_term) => lambdas(if_term.kind) + lambdas(
            do_term.kind,
        ) + lambdas(else_term.kind),
    }
}

/// The number of lambdas in the first `n` of `terms`.
pub open spec fn lambdas_prefix(terms: Seq<Term>, n: nat) -> nat
    decreases terms, n,
{
    if n == 0 || n > terms.len() {
        0
    } else {
        lambdas_prefix(terms, (n - 1) as nat) + lambdas(terms[n - 1].kind)
    }
}

/// The number of lambdas in the right-hand side of a `let`.
pub open spec fn lambdas_rvalue(rvalue: RValue) -> nat
    decreases rvalue,
{
    match rvalue.kind {
        RValueKind::Term(kind) => lambdas(kind),
        RValueKind::Abs(_, body) => 1 + lambdas(body.kind),
    }
}

/// Whether the term holds no `let`.
pub open spec fn simple(kind: TermKind) -> bool
    decreases kind,
{
    match kind {
        TermKind::Lit(_) => true,
        TermKind::Var(_) => true,
        TermKind::PrimApp(_, args) => simple_prefix(args@, args@.len()),
        TermKind::Let(_, _, _, _) => false,
        TermKind::App(func, args) => simple(func.kind) && simple_prefix(args@, args@.len()),
        TermKind::Cond(if_term, do_term, else_term) => simple(if_term.kind) && simple(
            do_term.kind,
        ) && simple(else_term.kind),
    }
}

/// Whether none of the first `n` of `terms` holds a `let`.
pub open spec fn simple_prefix(terms: Seq<Term>, n: nat) -> bool
    decreases terms, n,
{
    if n == 0 || n > terms.len() {
        true
    } else {
        simple_prefix(terms, (n - 1) as nat) && simple(terms[n - 1].kind)
    }
}

/// Whether the term refers to the variable `id`.
pub open spec fn mentions(kind: TermKind, id: LocalId) -> bool
    decreases kind,
{
    match kind {
        TermKind::Lit(_) => false,
        TermKind::Var(var) => var == id,
        TermKind::PrimApp(_, args) => mentions_prefix(args@, args@.len(), id),
        TermKind::Let(_, _, rhs, tail) => mentions_rvalue(*rhs, id) || mentions(tail.kind, id),
        TermKind::App(func, args) => mentions(func.kind, id) || mentions_prefix(
            args@,
            args@.len(),
            id,
        ),
        TermKind::Cond(if_term, do_term, else_term) => mentions(if_term.kind, id) || mentions(
            do_term.kind,
            id,
        ) || mentions(else_term.kind, id),
    }
}

/// Whether one of the first `n` of `terms` refers to the variable `id`.
pub open spec fn mentions_prefix(terms: Seq<Term>, n: nat, id: LocalId) -> bool
    decreases terms, n,
{
    if n == 0 || n > terms.len() {
        false
    } else {
        mentions_prefix(terms, (n - 1) as nat, id) || mentions(terms[n - 1].kind, id)
    }
}

/// Whether the right-hand side of a `let` refers to the variable `id`.
pub open spec fn mentions_rvalue(rvalue: RValue, id: LocalId) -> bool
    decreases rvalue,
{
    match rvalue.kind {
        RValueKind::Term(kind) => mentions(kind, id),
        RValueKind::Abs(_, body) => mentions(body.kind, id),
    }
}

/// Whether every `let` of the term stands where the frame holds the
/// bindings in scope and nothing above them. Such a place is the top of the
/// program or of the body of a function, the rest of a `let`, and a branch
/// of a conditional that stands in such a place and whose test holds no
/// `let`. It is also what a term in such a place evaluates first: the first
/// operand of a primitive, the callee of a call, and the test of a
/// conditional whose branches hold no `let`. The right-hand side of such a
/// `let` is a lambda whose body is of this form too, or a term without `let`
/// that does not refer to the name being bound.
///
/// This is the form of the terms whose compiled code finds each binding in
/// the stack slot that the compiler counts on.
pub open spec fn straight(kind: TermKind) -> bool
    decreases kind,
{
    match kind {
        TermKind::Lit(_) => true,
        TermKind::Var(_) => true,
        TermKind::PrimApp(_, args) => if args@.len() == 1 {
            straight(args@[0].kind)
        } else if args@.len() == 2 {
            straight(args@[0].kind) && simple(args@[1].kind)
        } else {
            simple(kind)
        },
        TermKind::Let(_, lhs, rhs, tail) => straight_rvalue(lhs, *rhs) && straight(tail.kind),
        TermKind::App(func, args) => straight(func.kind) && simple_prefix(args@, args@.len()),
        TermKind::Cond(if_term, do_term, else_term) => {
            ||| simple(if_term.kind) && straight(do_term.kind) && straight(else_term.kind)
            ||| straight(if_term.kind) && simple(do_term.kind) && simple(else_term.kind)
        },
    }
}

/// Whether the right-hand side of a `let` that binds `lhs` is of the form
/// that [`straight`] asks for.
pub open spec fn straight_rvalue(lhs: LocalId, rvalue: RValue) -> bool
    decreases rvalue,
{
    match rvalue.kind {
        RValueKind::Term(kind) => simple(kind) && !mentions(kind, lhs),
        RValueKind::Abs(_, body) => straight(body.kind),
    }
}

/// What `print` writes for a value whose static type is `ty`, if the value
/// is of that type.
pub open spec fn printed(ty: Ty, datum: Datum) -> Option<Seq<u8>> {
    match (ty, datum) {
        (Ty::Int, Datum::Int(n)) => Some(text::line(text::decimal(n as int))),
        (Ty::Bool, Datum::Int(n)) => Some(text::line(text::boolean(n != 0))),
        (Ty::Unit, Datum::Int(n)) => if n == 0 {
            Some(text::line(text::unit()))
        } else {
            None
        },
        (Ty::Arrow(_, _), Datum::Closure(closure)) => Some(
            text::line(text::function(closure.ptr)),
        ),
        (Ty::Arrow(_, _), Datum::Entry) => Some(text::line(text::function(0))),
        _ => None,
    }
}

/// What a primitive that evaluates all of its arguments makes of them, and
/// what it writes. `arg` is the identity of the first argument.
pub open spec fn apply(ctx: Map<TermId, Ty>, prim: PrimFn, arg: TermId, args: Seq<Datum>) -> Option<
    (Datum, Seq<u8>),
> {
    match prim {
        PrimFn::Print => if ctx.contains_key(arg) {
            match printed(ctx[arg], args[0]) {
                Some(written) => Some((Datum::Int(0), written)),
                None => None,
            }
        } else {
            None
        },
        PrimFn::UnOp(op) => match args[0] {
            Datum::Int(a) => match unary(unop_opcode(op), a) {
                Ok(n) => Some((Datum::Int(n), Seq::empty())),
                Err(_) => None,
            },
            _ => None,
        },
        PrimFn::BinOp(op) => match (args[0], args[1]) {
            (Datum::Int(a), Datum::Int(b)) => match binary(binop_opcode(op), a, b) {
                Ok(n) => Some((Datum::Int(n), Seq::empty())),
                Err(_) => None,
            },
            _ => None,
        },
    }
}

/// The value of a term and what its evaluation writes, or `None` where the
/// term has no value: it goes wrong (a variable without binding, an operand
/// of the wrong kind, an overflow, a division by zero), or it needs more than
/// `fuel` nested calls.
///
/// `base` counts the lambdas that the program holds before this term, plus
/// one. An environment binds no more names than the machine has slots in a
/// frame.
pub open spec fn eval(ctx: Map<TermId, Ty>, env: Env, base: nat, kind: TermKind, fuel: nat) -> Option<
    (Datum, Seq<u8>),
>
    decreases fuel, kind,
{
    match kind {
        TermKind::Lit(lit) => Some((Datum::Int(lit.encoding()), Seq::empty())),
        TermKind::Var(id) => match lookup(env, id) {
            Some(datum) => Some((datum, Seq::empty())),
            None => None,
        },
        TermKind::PrimApp(prim, args) => if args@.len() != prim.arity() {
            None
        } else if short_circuits(prim) {
            match eval(ctx, env, base, args@[0].kind, fuel) {
                Some((Datum::Int(a), first)) => if (a == 0) == (prim == PrimFn::BinOp(BinOp::And)) {
                    Some((Datum::Int(a), first))
                } else {
                    match eval(ctx, env, base + lambdas(args@[0].kind), args@[1].kind, fuel) {
                        Some((b, second)) => Some((b, first + second)),
                        None => None,
                    }
                },
                _ => None,
            }
        } else {
            match eval_prefix(ctx, env, base, args@, args@.len(), fuel) {
                Some((values, written)) => match apply(ctx, prim, args@[0].id, values) {
                    Some((result, more)) => Some((result, written + more)),
                    None => None,
                },
                None => None,
            }
        },
        TermKind::Let(_, lhs, rhs, tail) => if env.len() > usize::MAX {
            None
        } else {
            match eval_rvalue(ctx, env, base, lhs, *rhs, fuel) {
                Some((bound, first)) => match eval(
                    ctx,
                    env.push((lhs, bound)),
                    base + lambdas_rvalue(*rhs),
                    tail.kind,
                    fuel,
                ) {
                    Some((result, second)) => Some((result, first + second)),
                    None => None,
                },
                None => None,
            }
        },
        TermKind::App(func, args) => match eval(ctx, env, base, func.kind, fuel) {
            Some((Datum::Closure(closure), first)) => match eval_prefix(
                ctx,
                env,
                base + lambdas(func.kind),
                args@,
                args@.len(),
                fuel,
            ) {
                Some((values, second)) => if fuel == 0 || values.len() != closure.params.len() {
                    None
                } else {
                    match eval(
                        ctx,
                        call_env(closure, values),
                        closure.ptr + 1,
                        closure.body.kind,
                        (fuel - 1) as nat,
                    ) {
                        Some((result, third)) => Some((result, first + second + third)),
                        None => None,
                    }
                },
                None => None,
            },
            _ => None,
        },
        TermKind::Cond(if_term, do_term, else_term) => match eval(
            ctx,
            env,
            base,
            if_term.kind,
            fuel,
        ) {
            Some((Datum::Int(test), first)) => {
                let chosen = if test != 0 {
                    eval(ctx, env, base + lambdas(if_term.kind), do_term.kind, fuel)
                } else {
                    eval(
                        ctx,
                        env,
                        base + lambdas(if_term.kind) + lambdas(do_term.kind),
                        else_term.kind,
                        fuel,
                    )
                };
                match chosen {
                    Some((result, second)) => Some((result, first + second)),
                    None => None,
                }
            },
            _ => None,
        },
    }
}

/// The values of the first `n` of `terms`, evaluated from left to right, and
/// what their evaluation writes.
pub open spec fn eval_prefix(
    ctx: Map<TermId, Ty>,
    env: Env,
    base: nat,
    terms: Seq<Term>,
    n: nat,
    fuel: nat,
) -> Option<(Seq<Datum>, Seq<u8>)>
    decreases fuel, terms, n,
{
    if n == 0 || n > terms.len() {
        Some((Seq::empty(), Seq::empty()))
    } else {
        match eval_prefix(ctx, env, base, terms, (n - 1) as nat, fuel) {
            Some((values, first)) => match eval(
                ctx,
                env,
                base + lambdas_prefix(terms, (n - 1) as nat),
                terms[n - 1].kind,
                fuel,
            ) {
                Some((value, second)) => Some((values.push(value), first + second)),
                None => None,
            },
            None => None,
        }
    }
}

/// The value of the right-hand side of a `let` that binds `lhs`. A lambda is
/// a value as it stands.
pub open spec fn eval_rvalue(
    ctx: Map<TermId, Ty>,
    env: Env,
    base: nat,
    lhs: LocalId,
    rvalue: RValue,
    fuel: nat,
) -> Option<(Datum, Seq<u8>)>
    decreases fuel, rvalue,
{
    match rvalue.kind {
        RValueKind::Term(kind) => eval(ctx, env, base, kind, fuel),
        RValueKind::Abs(params, body) => Some(
            (Datum::Closure(Closure { name: lhs, params: params@, body, ptr: base }), Seq::empty()),
        ),
    }
}

} // verus!
