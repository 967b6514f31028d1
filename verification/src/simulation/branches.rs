//! Conditionals: the test, the jump that it decides, the branch that is
//! chosen, and from the first branch the jump over the second.

use vstd::prelude::*;

use crate::bytecode::OpCode;
use crate::compiler::emit;
use crate::correctness::{
    holds, lemma_code_split, lemma_funcs_counted, lemma_grown_twice, lemma_holds_split,
    lemma_reaches_chain, lemma_simple_is_straight,
};
use crate::evaluation::{eval, lambdas, names, simple, straight, Env};
use crate::ir::{TermId, TermKind};
use crate::laws::code_at;
use crate::semantics::State;
use crate::simulation::steps::{lemma_jump_if, lemma_pop, lemma_skip};
use crate::simulation::{arrived, evaluable, lemma_env_stays, lemma_term, poised};
use crate::ty::Ty;

verus! {

/// Where the parts of the code of a conditional lie, counted from the start
/// of the conditional: the jump into the second branch, the first branch,
/// the jump over the second branch, the second branch, and the end.
pub struct Layout {
    pub enter: int,
    pub taken: int,
    pub leave: int,
    pub other: int,
    pub end: int,
}

/// The layout of the code of a conditional.
pub open spec fn layout(ctx: Map<TermId, Ty>, env: Env, base: nat, kind: TermKind) -> Layout {
    let locals = names(env);
    let cond = emit(ctx, locals, base, kind->Cond_0.kind);
    let taken = emit(ctx, locals, base + lambdas(kind->Cond_0.kind), kind->Cond_1.kind);
    let other = emit(
        ctx,
        locals,
        base + lambdas(kind->Cond_0.kind) + lambdas(kind->Cond_1.kind),
        kind->Cond_2.kind,
    );
    let enter = cond.code.len() as int;
    let leave = enter + 2 + taken.code.len();
    Layout { enter, taken: enter + 2, leave, other: leave + 2, end: leave + 2 + other.code.len() }
}

/// The code of a conditional holds the code of its parts, one after the
/// other with the two jumps and the two `Pop`s between them, and the heap
/// holds the functions of each part.
proof fn lemma_cond_layout(
    ctx: Map<TermId, Ty>,
    env: Env,
    base: nat,
    kind: TermKind,
    s: State,
    start: int,
)
    requires
        kind is Cond,
        poised(ctx, env, base, s, start, emit(ctx, names(env), base, kind)),
    ensures
        ({
            let at = layout(ctx, env, base, kind);
            let code = s.head.function.code;
            let locals = names(env);
            let first = base + lambdas(kind->Cond_0.kind);
            let second = first + lambdas(kind->Cond_1.kind);
            let cond = emit(ctx, locals, base, kind->Cond_0.kind);
            let taken = emit(ctx, locals, first, kind->Cond_1.kind);
            let other = emit(ctx, locals, second, kind->Cond_2.kind);
            &&& emit(ctx, locals, base, kind).code.len() == at.end
            &&& at.end + start <= usize::MAX
            &&& code_at(code, start, cond.code)
            &&& code_at(code, start + at.taken, taken.code)
            &&& code_at(code, start + at.other, other.code)
            &&& holds(s.heap, base, cond.funcs)
            &&& holds(s.heap, first, taken.funcs)
            &&& holds(s.heap, second, other.funcs)
            &&& code[start + at.enter] == OpCode::JumpIfFalse((at.leave + 2 - at.taken) as usize)
            &&& code[start + at.enter + 1] == OpCode::Pop
            &&& code[start + at.leave] == OpCode::Skip((at.end - at.other + 1) as usize)
            &&& code[start + at.leave + 1] == OpCode::Pop
            &&& at.leave + 2 - at.taken <= usize::MAX
            &&& at.end - at.other + 1 <= usize::MAX
        }),
{
    let if_term = *kind->Cond_0;
    let do_term = *kind->Cond_1;
    let else_term = *kind->Cond_2;
    let locals = names(env);
    let emitted = emit(ctx, locals, base, kind);
    let cond = emit(ctx, locals, base, if_term.kind);
    let taken = emit(ctx, locals, base + cond.funcs.len(), do_term.kind);
    let other = emit(ctx, locals, base + cond.funcs.len() + taken.funcs.len(), else_term.kind);
    let over_taken = (taken.code.len() + 2) as usize;
    let over_other = (other.code.len() + 1) as usize;
    let enter = seq![OpCode::JumpIfFalse(over_taken), OpCode::Pop];
    let leave = seq![OpCode::Skip(over_other), OpCode::Pop];
    let code = s.head.function.code;
    lemma_funcs_counted(ctx, locals, base, if_term.kind);
    lemma_funcs_counted(ctx, locals, base + cond.funcs.len(), do_term.kind);
    assert(emitted.code =~= cond.code + (enter + (taken.code + (leave + other.code))));
    assert(emitted.funcs =~= cond.funcs + (taken.funcs + other.funcs));
    lemma_code_split(code, start, cond.code, enter + (taken.code + (leave + other.code)));
    let at_enter = start + cond.code.len();
    lemma_code_split(code, at_enter, enter, taken.code + (leave + other.code));
    let at_taken = at_enter + 2;
    lemma_code_split(code, at_taken, taken.code, leave + other.code);
    let at_leave = at_taken + taken.code.len();
    lemma_code_split(code, at_leave, leave, other.code);
    lemma_holds_split(s.heap, base, cond.funcs, taken.funcs + other.funcs);
    lemma_holds_split(s.heap, base + cond.funcs.len(), taken.funcs, other.funcs);
}

/// The parts of a conditional of the form that [`straight`] describes are of
/// that form; and the test holds no `let`, or neither branch does.
proof fn lemma_cond_parts(kind: TermKind)
    requires
        kind is Cond,
        straight(kind),
    ensures
        straight(kind->Cond_0.kind),
        straight(kind->Cond_1.kind),
        straight(kind->Cond_2.kind),
        simple(kind->Cond_0.kind) || (simple(kind->Cond_1.kind) && simple(kind->Cond_2.kind)),
        simple(kind) ==> simple(kind->Cond_0.kind) && simple(kind->Cond_1.kind) && simple(
            kind->Cond_2.kind,
        ),
{
    if simple(kind->Cond_0.kind) {
        lemma_simple_is_straight(kind->Cond_0.kind);
    }
    if simple(kind->Cond_1.kind) {
        lemma_simple_is_straight(kind->Cond_1.kind);
    }
    if simple(kind->Cond_2.kind) {
        lemma_simple_is_straight(kind->Cond_2.kind);
    }
}

/// A conditional.
pub proof fn lemma_cond(
    ctx: Map<TermId, Ty>,
    env: Env,
    base: nat,
    kind: TermKind,
    fuel: nat,
    s: State,
    start: int,
) -> (r: (nat, State))
    requires
        kind is Cond,
        evaluable(ctx, env, base, kind, fuel, s, start),
    ensures
        arrived(ctx, env, base, kind, fuel, s, start, r),
    decreases fuel, kind, 0nat,
{
    let if_term = *kind->Cond_0;
    let do_term = *kind->Cond_1;
    let else_term = *kind->Cond_2;
    let at = layout(ctx, env, base, kind);
    let nothing = Seq::<u8>::empty();
    lemma_cond_layout(ctx, env, base, kind, s, start);
    lemma_cond_parts(kind);

    let (n1, t1) = lemma_term(ctx, env, base, if_term.kind, fuel, s, start);
    let (d1, o1) = eval(ctx, env, base, if_term.kind, fuel).unwrap();
    let test = d1->Int_0;
    let over_taken = (at.leave + 2 - at.taken) as usize;
    lemma_jump_if(t1, start + at.enter, false, over_taken, test);

    let landing = if test != 0 {
        start + at.enter + 1
    } else {
        start + at.leave + 1
    };
    let first = base + lambdas(if_term.kind);
    let branch = if test != 0 {
        do_term.kind
    } else {
        else_term.kind
    };
    let branch_base = if test != 0 {
        first
    } else {
        first + lambdas(do_term.kind)
    };
    let t2 = t1.at(landing);
    lemma_pop(t2, landing);
    let t3 = t2.at(landing + 1).with_stack(t2.stack.drop_last());
    lemma_env_stays(ctx, s.heap, env, s.stack, t3.stack, s.base_ptr);
    let (n2, t4) = lemma_term(ctx, env, branch_base, branch, fuel, t3, landing + 1);
    let (_, o2) = eval(ctx, env, branch_base, branch, fuel).unwrap();
    lemma_grown_twice(s.stack, t3.stack, t4.stack);
    lemma_reaches_chain(s, n1, t1, o1, 1, t2, nothing);
    lemma_reaches_chain(s, n1 + 1, t2, o1 + nothing, 1, t3, nothing);
    lemma_reaches_chain(s, n1 + 2, t3, o1 + nothing + nothing, n2, t4, o2);
    if test != 0 {
        let over_other = (at.end - at.other + 1) as usize;
        lemma_skip(t4, start + at.leave, over_other);
        let t5 = t4.at(start + at.end);
        lemma_reaches_chain(s, n1 + 2 + n2, t4, o1 + o2, 1, t5, nothing);
        (n1 + 2 + n2 + 1, t5)
    } else {
        (n1 + 2 + n2, t4)
    }
}

} // verus!
