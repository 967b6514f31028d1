//! The primitives: the two logical operators that jump over their second
//! operand, the operators that evaluate all of their operands, and `print`.

use vstd::prelude::*;

use crate::bytecode::{OpCode, Value};
use crate::compiler::{emit, emit_prefix, prim_opcode, short_circuits, Emitted};
use crate::correctness::{
    installed, lemma_code_split, lemma_funcs_counted, lemma_grown_twice, lemma_holds_split,
    lemma_reaches_chain, lemma_simple_each, lemma_simple_is_straight,
};
use crate::evaluation::{apply, eval, eval_prefix, lambdas, names, printed, simple, Datum, Env};
use crate::ir::{PrimFn, TermId, TermKind};
use crate::semantics::State;
use crate::simulation::steps::{
    lemma_binary, lemma_jump_if, lemma_pop, lemma_print_op, lemma_stands_on, lemma_unary,
    print_text,
};
use crate::simulation::{arrived, evaluable, lemma_env_stays, lemma_term};
use crate::syntax::BinOp;
use crate::ty::Ty;

verus! {

/// A logical operator: the first operand, the jump that it decides, and the
/// second operand where the jump is not taken.
pub proof fn lemma_short(
    ctx: Map<TermId, Ty>,
    env: Env,
    base: nat,
    kind: TermKind,
    fuel: nat,
    s: State,
    start: int,
) -> (r: (nat, State))
    requires
        kind matches TermKind::PrimApp(prim, args) && short_circuits(prim),
        evaluable(ctx, env, base, kind, fuel, s, start),
    ensures
        arrived(ctx, env, base, kind, fuel, s, start, r),
    decreases fuel, kind, 0nat,
{
    let prim = kind->PrimApp_0;
    let args = kind->PrimApp_1;
    let and = prim == PrimFn::BinOp(BinOp::And);
    let locals = names(env);
    let emitted = emit(ctx, locals, base, kind);
    let first = emit(ctx, locals, base, args@[0].kind);
    let second = emit(ctx, locals, base + first.funcs.len(), args@[1].kind);
    let skip = (second.code.len() + 1) as usize;
    let jump = if and {
        OpCode::JumpIfFalse(skip)
    } else {
        OpCode::JumpIfTrue(skip)
    };
    let middle = seq![jump, OpCode::Pop];
    let code = s.head.function.code;
    let nothing = Seq::<u8>::empty();
    if simple(kind) {
        lemma_simple_each(args@, 2, 0);
    }
    lemma_simple_is_straight(args@[1].kind);
    lemma_funcs_counted(ctx, locals, base, args@[0].kind);
    assert(emitted.code =~= first.code + (middle + second.code));
    lemma_code_split(code, start, first.code, middle + second.code);
    let at_jump = start + first.code.len();
    lemma_code_split(code, at_jump, middle, second.code);
    lemma_holds_split(s.heap, base, first.funcs, second.funcs);

    let (n1, t1) = lemma_term(ctx, env, base, args@[0].kind, fuel, s, start);
    let (d1, o1) = eval(ctx, env, base, args@[0].kind, fuel).unwrap();
    let a = d1->Int_0;
    lemma_stands_on(t1, at_jump, middle, 0);
    lemma_jump_if(t1, at_jump, !and, skip, a);
    if (a == 0) == and {
        let t2 = t1.at(at_jump + 1 + skip);
        lemma_reaches_chain(s, n1, t1, o1, 1, t2, nothing);
        (n1 + 1, t2)
    } else {
        let t2 = t1.at(at_jump + 1);
        lemma_stands_on(t2, at_jump, middle, 1);
        lemma_pop(t2, at_jump + 1);
        let t3 = t2.at(at_jump + 2).with_stack(t2.stack.drop_last());
        lemma_env_stays(ctx, s.heap, env, s.stack, t3.stack, s.base_ptr);
        let (n2, t4) = lemma_term(
            ctx,
            env,
            base + lambdas(args@[0].kind),
            args@[1].kind,
            fuel,
            t3,
            at_jump + 2,
        );
        let (_, o2) = eval(ctx, env, base + lambdas(args@[0].kind), args@[1].kind, fuel).unwrap();
        lemma_grown_twice(s.stack, t3.stack, t4.stack);
        lemma_reaches_chain(s, n1, t1, o1, 1, t2, nothing);
        lemma_reaches_chain(s, n1 + 1, t2, o1 + nothing, 1, t3, nothing);
        lemma_reaches_chain(s, n1 + 2, t3, o1 + nothing + nothing, n2, t4, o2);
        (n1 + 2 + n2, t4)
    }
}

/// A unary operator: its operand, and its opcode.
pub proof fn lemma_unop(
    ctx: Map<TermId, Ty>,
    env: Env,
    base: nat,
    kind: TermKind,
    fuel: nat,
    s: State,
    start: int,
) -> (r: (nat, State))
    requires
        kind matches TermKind::PrimApp(prim, args) && prim is UnOp,
        evaluable(ctx, env, base, kind, fuel, s, start),
    ensures
        arrived(ctx, env, base, kind, fuel, s, start, r),
    decreases fuel, kind, 0nat,
{
    let prim = kind->PrimApp_0;
    let args = kind->PrimApp_1;
    let locals = names(env);
    let arg = emit(ctx, locals, base, args@[0].kind);
    let op = prim_opcode(ctx, prim, args@);
    let nothing = Seq::<u8>::empty();
    assert(emit_prefix(ctx, locals, base, args@, 0) == Emitted::empty());
    assert(emit_prefix(ctx, locals, base, args@, 1).funcs =~= arg.funcs);
    lemma_code_split(s.head.function.code, start, arg.code, seq![op]);
    assert(eval_prefix(ctx, env, base, args@, 0, fuel) == Some((Seq::<Datum>::empty(), nothing)));
    if simple(kind) {
        lemma_simple_each(args@, 1, 0);
    }
    let (n1, t1) = lemma_term(ctx, env, base, args@[0].kind, fuel, s, start);
    let (datum, o1) = eval(ctx, env, base, args@[0].kind, fuel).unwrap();
    let values = Seq::<Datum>::empty().push(datum);
    assert(eval_prefix(ctx, env, base, args@, 1, fuel) == Some((values, nothing + o1)));
    let (result, _) = apply(ctx, prim, args@[0].id, values).unwrap();
    let a = datum->Int_0;
    let at_op = start + arg.code.len();
    lemma_stands_on(t1, at_op, seq![op], 0);
    lemma_unary(t1, at_op, op, a);
    let t2 = t1.at(at_op + 1).with_stack(t1.stack.drop_last().push(Value::Int(result->Int_0)));
    lemma_reaches_chain(s, n1, t1, o1, 1, t2, nothing);
    (n1 + 1, t2)
}

/// A binary operator that evaluates both of its operands: the operands, the
/// first below the second, and its opcode.
pub proof fn lemma_binop(
    ctx: Map<TermId, Ty>,
    env: Env,
    base: nat,
    kind: TermKind,
    fuel: nat,
    s: State,
    start: int,
) -> (r: (nat, State))
    requires
        kind matches TermKind::PrimApp(prim, args) && prim is BinOp && !short_circuits(prim),
        evaluable(ctx, env, base, kind, fuel, s, start),
    ensures
        arrived(ctx, env, base, kind, fuel, s, start, r),
    decreases fuel, kind, 0nat,
{
    let prim = kind->PrimApp_0;
    let args = kind->PrimApp_1;
    let locals = names(env);
    let emitted = emit(ctx, locals, base, kind);
    let first = emit(ctx, locals, base, args@[0].kind);
    let second = emit(ctx, locals, base + first.funcs.len(), args@[1].kind);
    let op = prim_opcode(ctx, prim, args@);
    let nothing = Seq::<u8>::empty();
    let code = s.head.function.code;
    assert(emit_prefix(ctx, locals, base, args@, 0) == Emitted::empty());
    assert(emit_prefix(ctx, locals, base, args@, 1).funcs =~= first.funcs);
    assert(emit_prefix(ctx, locals, base, args@, 2).funcs =~= first.funcs + second.funcs);
    assert(emitted.code =~= first.code + (second.code + seq![op]));
    lemma_code_split(code, start, first.code, second.code + seq![op]);
    let at_second = start + first.code.len();
    lemma_code_split(code, at_second, second.code, seq![op]);
    lemma_holds_split(s.heap, base, first.funcs, second.funcs);
    lemma_funcs_counted(ctx, locals, base, args@[0].kind);
    assert(eval_prefix(ctx, env, base, args@, 0, fuel) == Some((Seq::<Datum>::empty(), nothing)));
    if simple(kind) {
        lemma_simple_each(args@, 2, 0);
    }
    lemma_simple_is_straight(args@[1].kind);

    let (n1, t1) = lemma_term(ctx, env, base, args@[0].kind, fuel, s, start);
    let (d1, o1) = eval(ctx, env, base, args@[0].kind, fuel).unwrap();
    let one = Seq::<Datum>::empty().push(d1);
    assert(eval_prefix(ctx, env, base, args@, 1, fuel) == Some((one, nothing + o1)));
    lemma_env_stays(ctx, s.heap, env, s.stack, t1.stack, s.base_ptr);
    let (n2, t2) = lemma_term(
        ctx,
        env,
        base + lambdas(args@[0].kind),
        args@[1].kind,
        fuel,
        t1,
        at_second,
    );
    let (d2, o2) = eval(ctx, env, base + lambdas(args@[0].kind), args@[1].kind, fuel).unwrap();
    let values = one.push(d2);
    assert(eval_prefix(ctx, env, base, args@, 2, fuel) == Some((values, nothing + o1 + o2)));
    let (result, _) = apply(ctx, prim, args@[0].id, values).unwrap();
    let a = d1->Int_0;
    let b = d2->Int_0;
    let at_op = at_second + second.code.len();
    lemma_stands_on(t2, at_op, seq![op], 0);
    lemma_binary(t2, at_op, op, a, b);
    let t3 = t2.at(at_op + 1).with_stack(
        t2.stack.take(t2.stack.len() - 2).push(Value::Int(result->Int_0)),
    );
    lemma_reaches_chain(s, n1, t1, o1, n2, t2, o2);
    lemma_reaches_chain(s, n1 + n2, t2, o1 + o2, 1, t3, nothing);
    (n1 + n2 + 1, t3)
}

/// A `print`: its argument, and the opcode that goes with the type of the
/// argument.
pub proof fn lemma_print(
    ctx: Map<TermId, Ty>,
    env: Env,
    base: nat,
    kind: TermKind,
    fuel: nat,
    s: State,
    start: int,
) -> (r: (nat, State))
    requires
        kind matches TermKind::PrimApp(prim, args) && prim == PrimFn::Print,
        evaluable(ctx, env, base, kind, fuel, s, start),
    ensures
        arrived(ctx, env, base, kind, fuel, s, start, r),
    decreases fuel, kind, 0nat,
{
    let args = kind->PrimApp_1;
    let locals = names(env);
    let arg = emit(ctx, locals, base, args@[0].kind);
    let op = prim_opcode(ctx, PrimFn::Print, args@);
    let nothing = Seq::<u8>::empty();
    assert(emit_prefix(ctx, locals, base, args@, 0) == Emitted::empty());
    assert(emit_prefix(ctx, locals, base, args@, 1).funcs =~= arg.funcs);
    lemma_code_split(s.head.function.code, start, arg.code, seq![op]);
    assert(eval_prefix(ctx, env, base, args@, 0, fuel) == Some((Seq::<Datum>::empty(), nothing)));
    if simple(kind) {
        lemma_simple_each(args@, 1, 0);
    }
    let (n1, t1) = lemma_term(ctx, env, base, args@[0].kind, fuel, s, start);
    let (datum, o1) = eval(ctx, env, base, args@[0].kind, fuel).unwrap();
    let values = Seq::<Datum>::empty().push(datum);
    assert(eval_prefix(ctx, env, base, args@, 1, fuel) == Some((values, nothing + o1)));
    let ty = ctx[args@[0].id];
    let written = printed(ty, datum).unwrap();
    let at_op = start + arg.code.len();
    lemma_stands_on(t1, at_op, seq![op], 0);
    assert(print_text(op, t1.stack.last()) == Some(written)) by {
        reveal(installed);
    }
    lemma_print_op(t1, at_op, op);
    let t2 = t1.at(at_op + 1).with_stack(t1.stack.drop_last().push(Value::Int(0)));
    lemma_reaches_chain(s, n1, t1, o1, 1, t2, written);
    (n1 + 1, t2)
}

} // verus!
