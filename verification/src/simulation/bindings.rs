//! `let`: the right-hand side fills the slot of the binding, and the rest
//! runs with the binding in scope.

use vstd::prelude::*;

use crate::bytecode::Value;
use crate::compiler::{emit, emit_rvalue};
use crate::correctness::{
    installed, lemma_code_split, lemma_funcs_counted_rvalue, lemma_holds_split,
    lemma_reaches_chain, lemma_simple_is_straight, lemma_unmentioned_local, represents,
};
use crate::evaluation::{eval, eval_rvalue, lambdas_rvalue, names, straight_rvalue, Closure, Env};
use crate::ir::{RValueKind, TermId, TermKind};
use crate::semantics::State;
use crate::simulation::steps::{lemma_push, lemma_stands_on};
use crate::simulation::{arrived, evaluable, lemma_term};
use crate::ty::Ty;

verus! {

/// A `let`.
pub proof fn lemma_let(
    ctx: Map<TermId, Ty>,
    env: Env,
    base: nat,
    kind: TermKind,
    fuel: nat,
    s: State,
    start: int,
) -> (r: (nat, State))
    requires
        kind is Let,
        evaluable(ctx, env, base, kind, fuel, s, start),
    ensures
        arrived(ctx, env, base, kind, fuel, s, start, r),
    decreases fuel, kind, 0nat,
{
    let lhs = kind->Let_1;
    let rhs = *kind->Let_2;
    let tail = *kind->Let_3;
    let locals = names(env);
    let scope = locals.push(lhs);
    let bound = emit_rvalue(ctx, scope, base, lhs, rhs);
    let rest = emit(ctx, scope, base + bound.funcs.len(), tail.kind);
    lemma_code_split(s.head.function.code, start, bound.code, rest.code);
    lemma_holds_split(s.heap, base, bound.funcs, rest.funcs);
    lemma_funcs_counted_rvalue(ctx, scope, base, lhs, rhs);
    assert(straight_rvalue(lhs, rhs));
    let (d1, o1) = eval_rvalue(ctx, env, base, lhs, rhs, fuel).unwrap();
    let inner = env.push((lhs, d1));
    assert(names(inner) =~= scope);
    let (n1, t1) = match rhs.kind {
        RValueKind::Term(rhs_kind) => {
            lemma_unmentioned_local(ctx, locals, base, rhs_kind, lhs);
            lemma_simple_is_straight(rhs_kind);
            lemma_term(ctx, env, base, rhs_kind, fuel, s, start)
        },
        RValueKind::Abs(params, body) => {
            let value = Value::FuncPtr(base as usize);
            let closure = Closure { name: lhs, params: params@, body, ptr: base };
            let body_code = emit(ctx, seq![lhs] + params@, base + 1, body.kind);
            lemma_holds_split(s.heap, base, seq![bound.funcs[0]], body_code.funcs);
            assert(params@.len() == params.len());
            assert(installed(ctx, s.heap, closure)) by {
                reveal(installed);
            }
            lemma_stands_on(s, start, bound.code, 0);
            lemma_push(s, start, value);
            (1nat, s.at(start + 1).pushed(value))
        },
    };
    assert forall|i: int| 0 <= i < inner.len() implies represents(
        ctx,
        t1.heap,
        t1.stack[t1.base_ptr + i],
        (#[trigger] inner[i]).1,
    ) by {}
    let (n2, t2) = lemma_term(
        ctx,
        inner,
        base + lambdas_rvalue(rhs),
        tail.kind,
        fuel,
        t1,
        start + bound.code.len(),
    );
    let (_, o2) = eval(ctx, inner, base + lambdas_rvalue(rhs), tail.kind, fuel).unwrap();
    lemma_reaches_chain(s, n1, t1, o1, n2, t2, o2);
    assert forall|i: int| 0 <= i < s.stack.len() implies t2.stack[i] == #[trigger] s.stack[i] by {
        assert(t2.stack[i] == t1.stack[i]);
    }
    (n1 + n2, t2)
}

} // verus!
