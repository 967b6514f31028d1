//! Calls: the callee and the arguments, the call, the body of the callee in
//! its own frame, and the return.

use vstd::prelude::*;

use crate::bytecode::OpCode;
use crate::compiler::{emit, emit_prefix};
use crate::correctness::{
    installed, lemma_code_split, lemma_funcs_counted, lemma_holds_split, lemma_reaches_chain,
    represents,
};
use crate::evaluation::{call_env, eval, eval_prefix, lambdas, names, Env};
use crate::ir::{TermId, TermKind};
use crate::semantics::State;
use crate::simulation::steps::{called, lemma_call, lemma_return, lemma_stands_on, returned};
use crate::simulation::{arrived, evaluable, lemma_env_stays, lemma_term, lemma_terms};
use crate::ty::Ty;

verus! {

/// A call.
pub proof fn lemma_app(
    ctx: Map<TermId, Ty>,
    env: Env,
    base: nat,
    kind: TermKind,
    fuel: nat,
    s: State,
    start: int,
) -> (r: (nat, State))
    requires
        kind is App,
        evaluable(ctx, env, base, kind, fuel, s, start),
    ensures
        arrived(ctx, env, base, kind, fuel, s, start, r),
    decreases fuel, kind, 0nat,
{
    let func = *kind->App_0;
    let args = kind->App_1;
    let locals = names(env);
    let emitted = emit(ctx, locals, base, kind);
    let callee = emit(ctx, locals, base, func.kind);
    let passed = emit_prefix(ctx, locals, base + callee.funcs.len(), args@, args@.len());
    let arity = args@.len() as usize;
    let call = seq![OpCode::Call(arity)];
    let nothing = Seq::<u8>::empty();
    assert(emitted.code =~= callee.code + (passed.code + call));
    lemma_code_split(s.head.function.code, start, callee.code, passed.code + call);
    lemma_code_split(s.head.function.code, start + callee.code.len(), passed.code, call);
    lemma_holds_split(s.heap, base, callee.funcs, passed.funcs);
    lemma_funcs_counted(ctx, locals, base, func.kind);

    let (n1, t1) = lemma_term(ctx, env, base, func.kind, fuel, s, start);
    let (d1, o1) = eval(ctx, env, base, func.kind, fuel).unwrap();
    let closure = d1->Closure_0;
    let ptr = closure.ptr as usize;
    lemma_env_stays(ctx, s.heap, env, s.stack, t1.stack, s.base_ptr);
    let (n2, t2) = lemma_terms(
        ctx,
        env,
        base + lambdas(func.kind),
        args@,
        args@.len(),
        fuel,
        t1,
        start + callee.code.len(),
    );
    let (values, o2) = eval_prefix(
        ctx,
        env,
        base + lambdas(func.kind),
        args@,
        args@.len(),
        fuel,
    ).unwrap();
    lemma_reaches_chain(s, n1, t1, o1, n2, t2, o2);

    let at_call = start + callee.code.len() + passed.code.len();
    reveal(installed);
    lemma_stands_on(t2, at_call, call, 0);
    lemma_call(t2, at_call, arity, ptr);
    let t3 = called(t2, at_call, arity, ptr);
    lemma_reaches_chain(s, n1 + n2, t2, o1 + o2, 1, t3, nothing);

    let frame = call_env(closure, values);
    let body = emit(ctx, seq![closure.name] + closure.params, closure.ptr + 1, closure.body.kind);
    let target = s.heap[closure.ptr as int];
    assert(names(frame) =~= seq![closure.name] + closure.params);
    assert(target.code.subrange(0, body.code.len() as int) =~= body.code);
    assert forall|i: int| 0 <= i < frame.len() implies represents(
        ctx,
        t3.heap,
        t3.stack[t3.base_ptr + i],
        (#[trigger] frame[i]).1,
    ) by {}
    let (n3, t4) = lemma_term(
        ctx,
        frame,
        closure.ptr + 1,
        closure.body.kind,
        (fuel - 1) as nat,
        t3,
        0,
    );
    let (_, o3) = eval(
        ctx,
        frame,
        closure.ptr + 1,
        closure.body.kind,
        (fuel - 1) as nat,
    ).unwrap();
    lemma_reaches_chain(s, n1 + n2 + 1, t3, o1 + o2 + nothing, n3, t4, o3);

    let at_return = body.code.len() as int;
    lemma_return(t4, at_return);
    let t5 = returned(t4);
    assert(t4.frames.drop_last() =~= s.frames);
    assert forall|i: int| 0 <= i < s.stack.len() implies t5.stack[i] == #[trigger] s.stack[i] by {}
    lemma_reaches_chain(s, n1 + n2 + 1 + n3, t4, o1 + o2 + nothing + o3, 1, t5, nothing);
    (n1 + n2 + 1 + n3 + 1, t5)
}

} // verus!
