//! The machine follows the evaluator: by induction on the evaluation of a
//! term, the code of the term takes the machine from the state in which the
//! term starts to the state in which its value lies on top of the stack.

use vstd::prelude::*;

use crate::bytecode::{FunctionView, OpCode, Value};
use crate::compiler::{emit, emit_prefix, resolve, short_circuits, Emitted};
use crate::correctness::{
    env_on_stack, holds, landed, lemma_code_split, lemma_funcs_counted_prefix,
    lemma_holds_split, lemma_lookup_resolves, lemma_reaches_chain, lemma_reaches_itself,
    lemma_simple_each, lemma_simple_has_no_lambda_prefix, lemma_simple_is_straight, reaches,
    represents, sized,
};
use crate::evaluation::{
    eval, eval_prefix, lambdas_prefix, names, simple, simple_prefix, straight, Env,
};
use crate::ir::{PrimFn, Term, TermId, TermKind};
use crate::laws::code_at;
use crate::semantics::State;
use crate::ty::Ty;

pub mod bindings;
pub mod branches;
pub mod calls;
pub mod operators;
pub mod steps;

verus! {

/// Whether the machine is about to run the code `emitted.code`, which lies
/// at `start` in the running function, with the functions `emitted.funcs` in
/// the heap from `base` on and the environment in the slots of the frame.
pub open spec fn poised(
    ctx: Map<TermId, Ty>,
    env: Env,
    base: nat,
    s: State,
    start: int,
    emitted: Emitted,
) -> bool {
    &&& sized(s.heap)
    &&& s.head.function.code.len() <= usize::MAX
    &&& code_at(s.head.function.code, start, emitted.code)
    &&& s.head.ins_ptr == start
    &&& holds(s.heap, base, emitted.funcs)
    &&& env_on_stack(ctx, s.heap, env, s.stack, s.base_ptr)
}

/// What [`lemma_term`] asks for: the term is of the form that [`straight`]
/// describes and has a value, the machine is about to run its code, and
/// unless the term is without `let`, the frame holds nothing but the
/// environment.
pub open spec fn evaluable(
    ctx: Map<TermId, Ty>,
    env: Env,
    base: nat,
    kind: TermKind,
    fuel: nat,
    s: State,
    start: int,
) -> bool {
    &&& straight(kind)
    &&& simple(kind) || s.visible() == env.len()
    &&& eval(ctx, env, base, kind, fuel) is Some
    &&& poised(ctx, env, base, s, start, emit(ctx, names(env), base, kind))
}

/// Whether the run `r` (a number of steps and the state they lead to) is the
/// evaluation of the term: it writes what the evaluation writes and leaves
/// the value of the term on top of the stack, just past the code of the
/// term. A term without `let` leaves nothing else.
pub open spec fn arrived(
    ctx: Map<TermId, Ty>,
    env: Env,
    base: nat,
    kind: TermKind,
    fuel: nat,
    s: State,
    start: int,
    r: (nat, State),
) -> bool {
    let (datum, output) = eval(ctx, env, base, kind, fuel).unwrap();
    let end = start + emit(ctx, names(env), base, kind).code.len();
    &&& reaches(s, r.0, r.1, output)
    &&& landed(ctx, s, r.1, end, datum)
    &&& simple(kind) ==> r.1.stack.len() == s.stack.len() + 1
}

/// Whether the run `r` is the evaluation of the first `n` of `terms`: their
/// values lie on top of the stack, the first lowest.
pub open spec fn arrived_prefix(
    ctx: Map<TermId, Ty>,
    env: Env,
    base: nat,
    terms: Seq<Term>,
    n: nat,
    fuel: nat,
    s: State,
    start: int,
    r: (nat, State),
) -> bool {
    let (values, output) = eval_prefix(ctx, env, base, terms, n, fuel).unwrap();
    let end = start + emit_prefix(ctx, names(env), base, terms, n).code.len();
    let t = r.1;
    &&& reaches(s, r.0, t, output)
    &&& t.heap == s.heap
    &&& t.frames == s.frames
    &&& t.head == s.at(end).head
    &&& t.base_ptr == s.base_ptr
    &&& values.len() == n
    &&& t.stack.len() == s.stack.len() + n
    &&& forall|i: int| 0 <= i < s.stack.len() ==> t.stack[i] == #[trigger] s.stack[i]
    &&& forall|i: int|
        0 <= i < n ==> represents(ctx, s.heap, t.stack[s.stack.len() + i], #[trigger] values[i])
}

/// The values of an environment stay in their slots when the stack grows.
pub proof fn lemma_env_stays(
    ctx: Map<TermId, Ty>,
    heap: Seq<FunctionView>,
    env: Env,
    before: Seq<Value>,
    after: Seq<Value>,
    base_ptr: nat,
)
    requires
        env_on_stack(ctx, heap, env, before, base_ptr),
        before.len() <= after.len(),
        forall|i: int| 0 <= i < before.len() ==> after[i] == #[trigger] before[i],
    ensures
        env_on_stack(ctx, heap, env, after, base_ptr),
{
    assert forall|i: int| 0 <= i < env.len() implies represents(
        ctx,
        heap,
        after[base_ptr + i],
        (#[trigger] env[i]).1,
    ) by {
        assert(after[base_ptr + i] == before[base_ptr + i]);
    }
}

/// A literal: one `Push`.
proof fn lemma_lit(
    ctx: Map<TermId, Ty>,
    env: Env,
    base: nat,
    kind: TermKind,
    fuel: nat,
    s: State,
    start: int,
) -> (r: (nat, State))
    requires
        kind is Lit,
        evaluable(ctx, env, base, kind, fuel, s, start),
    ensures
        arrived(ctx, env, base, kind, fuel, s, start, r),
{
    let code = emit(ctx, names(env), base, kind).code;
    let value = Value::Int(kind->Lit_0.encoding());
    assert(code =~= seq![OpCode::Push(value)]);
    steps::lemma_stands_on(s, start, code, 0);
    steps::lemma_push(s, start, value);
    (1, s.at(start + 1).pushed(value))
}

/// A variable: one `Local`.
proof fn lemma_var(
    ctx: Map<TermId, Ty>,
    env: Env,
    base: nat,
    kind: TermKind,
    fuel: nat,
    s: State,
    start: int,
) -> (r: (nat, State))
    requires
        kind is Var,
        evaluable(ctx, env, base, kind, fuel, s, start),
    ensures
        arrived(ctx, env, base, kind, fuel, s, start, r),
{
    let id = kind->Var_0;
    let code = emit(ctx, names(env), base, kind).code;
    lemma_lookup_resolves(env, id);
    let index = resolve(names(env), id).unwrap();
    assert(code =~= seq![OpCode::Local(index as usize)]);
    steps::lemma_stands_on(s, start, code, 0);
    let value = s.stack[s.base_ptr + index];
    assert(represents(ctx, s.heap, value, env[index].1));
    steps::lemma_local(s, start, index as usize);
    (1, s.at(start + 1).pushed(value))
}

/// The arguments of a primitive or of a call: each leaves its value on top
/// of the values of those before it.
pub proof fn lemma_terms(
    ctx: Map<TermId, Ty>,
    env: Env,
    base: nat,
    terms: Seq<Term>,
    n: nat,
    fuel: nat,
    s: State,
    start: int,
) -> (r: (nat, State))
    requires
        n <= terms.len(),
        simple_prefix(terms, n),
        eval_prefix(ctx, env, base, terms, n, fuel) is Some,
        poised(ctx, env, base, s, start, emit_prefix(ctx, names(env), base, terms, n)),
    ensures
        arrived_prefix(ctx, env, base, terms, n, fuel, s, start, r),
    decreases fuel, terms, n,
{
    let locals = names(env);
    if n == 0 {
        lemma_reaches_itself(s);
        (0, s)
    } else {
        let init = emit_prefix(ctx, locals, base, terms, (n - 1) as nat);
        let last = emit(ctx, locals, base + init.funcs.len(), terms[n - 1].kind);
        lemma_simple_each(terms, n, n - 1);
        lemma_simple_is_straight(terms[n - 1].kind);
        lemma_funcs_counted_prefix(ctx, locals, base, terms, (n - 1) as nat);
        lemma_simple_has_no_lambda_prefix(terms, (n - 1) as nat);
        let whole = emit_prefix(ctx, locals, base, terms, n);
        assert(whole.code =~= init.code + last.code);
        assert(whole.funcs =~= init.funcs + last.funcs);
        lemma_code_split(s.head.function.code, start, init.code, last.code);
        lemma_holds_split(s.heap, base, init.funcs, last.funcs);
        let (n1, t1) = lemma_terms(ctx, env, base, terms, (n - 1) as nat, fuel, s, start);
        let (values, o1) = eval_prefix(ctx, env, base, terms, (n - 1) as nat, fuel).unwrap();
        lemma_env_stays(ctx, s.heap, env, s.stack, t1.stack, s.base_ptr);
        let (n2, t2) = lemma_term(
            ctx,
            env,
            base + lambdas_prefix(terms, (n - 1) as nat),
            terms[n - 1].kind,
            fuel,
            t1,
            start + init.code.len(),
        );
        let (value, o2) = eval(
            ctx,
            env,
            base + lambdas_prefix(terms, (n - 1) as nat),
            terms[n - 1].kind,
            fuel,
        ).unwrap();
        lemma_reaches_chain(s, n1, t1, o1, n2, t2, o2);
        let all = values.push(value);
        assert forall|i: int| 0 <= i < n implies represents(
            ctx,
            s.heap,
            t2.stack[s.stack.len() + i],
            #[trigger] all[i],
        ) by {
            if i < n - 1 {
                assert(t2.stack[s.stack.len() + i] == t1.stack[s.stack.len() + i]);
                assert(all[i] == values[i]);
            }
        }
        assert forall|i: int| 0 <= i < s.stack.len() implies t2.stack[i]
            == #[trigger] s.stack[i] by {
            assert(t2.stack[i] == t1.stack[i]);
        }
        (n1 + n2, t2)
    }
}

/// The machine follows the evaluator. Where the evaluator gives a term a
/// value, the code of the term takes the machine, in a number of steps, to
/// the opcode just past it; the value lies on top of the stack, what was on
/// the stack still is, and the machine has written what the evaluator says.
pub proof fn lemma_term(
    ctx: Map<TermId, Ty>,
    env: Env,
    base: nat,
    kind: TermKind,
    fuel: nat,
    s: State,
    start: int,
) -> (r: (nat, State))
    requires
        evaluable(ctx, env, base, kind, fuel, s, start),
    ensures
        arrived(ctx, env, base, kind, fuel, s, start, r),
    decreases fuel, kind, 1nat,
{
    match kind {
        TermKind::Lit(_) => lemma_lit(ctx, env, base, kind, fuel, s, start),
        TermKind::Var(_) => lemma_var(ctx, env, base, kind, fuel, s, start),
        TermKind::PrimApp(prim, _) => {
            if short_circuits(prim) {
                operators::lemma_short(ctx, env, base, kind, fuel, s, start)
            } else {
                match prim {
                    PrimFn::Print => operators::lemma_print(ctx, env, base, kind, fuel, s, start),
                    PrimFn::UnOp(_) => operators::lemma_unop(ctx, env, base, kind, fuel, s, start),
                    PrimFn::BinOp(_) => operators::lemma_binop(
                        ctx,
                        env,
                        base,
                        kind,
                        fuel,
                        s,
                        start,
                    ),
                }
            }
        },
        TermKind::Let(_, _, _, _) => bindings::lemma_let(ctx, env, base, kind, fuel, s, start),
        TermKind::App(_, _) => calls::lemma_app(ctx, env, base, kind, fuel, s, start),
        TermKind::Cond(_, _, _) => branches::lemma_cond(ctx, env, base, kind, fuel, s, start),
    }
}

} // verus!
