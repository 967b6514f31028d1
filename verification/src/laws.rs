//! What holds of the compiler and of the machine whatever the program.

use vstd::prelude::*;

use crate::bytecode::{FunctionView, OpCode, Value};
use crate::compiler::{
    emit, emit_prefix, emit_rvalue, prim_opcode, resolve, short_circuits, CompileError,
    Emitted,
};
use crate::correctness::{
    lemma_code_split, lemma_funcs_counted, lemma_reaches_chain, lemma_reaches_halt,
    lemma_reaches_next, lemma_simple_has_no_lambda, lemma_simple_is_straight, reaches,
    represents, sized,
};
use crate::evaluation::{entry_env, eval, names, simple, Datum, Env};
use crate::interpreter::Interpreter;
use crate::ir::{LocalId, PrimFn, RValue, RValueKind, Term, TermId, TermKind};
use crate::machine::{compiles_to, execution, program};
use crate::semantics::{run, Run, State, Status, Step};
use crate::simulation::steps::{lemma_print_op, lemma_stands_on};
use crate::simulation::{lemma_term, poised};
use crate::syntax::BinOp;
use crate::text;
use crate::ty::Ty;

verus! {

/// A variable resolves to the slot `index` exactly when `index` is the
/// greatest index at which the scope holds it, and to nothing exactly when
/// the scope does not hold it.
pub proof fn lemma_resolve_innermost(locals: Seq<LocalId>, id: LocalId)
    ensures
        match resolve(locals, id) {
            Some(index) => {
                &&& 0 <= index < locals.len()
                &&& locals[index] == id
                &&& forall|j: int| index < j < locals.len() ==> locals[j] != id
            },
            None => forall|j: int| 0 <= j < locals.len() ==> locals[j] != id,
        },
    decreases locals.len(),
{
    if locals.len() > 0 && locals.last() != id {
        let init = locals.drop_last();
        lemma_resolve_innermost(init, id);
        assert forall|j: int| 0 <= j < init.len() implies init[j] == locals[j] by {}
        match resolve(init, id) {
            Some(index) => {
                assert forall|j: int| index < j < locals.len() implies locals[j] != id by {}
            },
            None => {
                assert forall|j: int| 0 <= j < locals.len() implies locals[j] != id by {}
            },
        }
    }
}

/// Shadowing: in `let x = e1 in let x = e2 in e3`, a reference to `x` in `e3`
/// never resolves to the slot of the outer binding, whatever `e3` binds
/// around the reference (`inner`); where `e3` does not bind `x` again, it
/// resolves to the slot of the inner binding.
pub proof fn lemma_inner_binding_shadows(outer: Seq<LocalId>, inner: Seq<LocalId>, x: LocalId)
    ensures
        resolve(outer.push(x).push(x) + inner, x) matches Some(index) && index > outer.len(),
        !inner.contains(x) ==> resolve(outer.push(x).push(x) + inner, x) == Some(
            outer.len() as int + 1,
        ),
{
    let scope = outer.push(x).push(x) + inner;
    lemma_resolve_innermost(scope, x);
    assert(scope[outer.len() as int + 1] == x);
}

/// Compiling is a function of the context and of the term: two compilations
/// of one program fail with the same error, or give machines in the same
/// state, whose heaps hold the same opcodes.
pub proof fn lemma_compile_is_deterministic(
    ctx: Map<TermId, Ty>,
    term: Term,
    first: Result<Interpreter, CompileError>,
    second: Result<Interpreter, CompileError>,
)
    requires
        compiles_to(ctx, term, first),
        compiles_to(ctx, term, second),
    ensures
        match (first, second) {
            (Ok(a), Ok(b)) => a@ == b@ && a@.heap == b@.heap,
            (Err(a), Err(b)) => a == b,
            _ => false,
        },
{
}

/// Whether `code` holds `piece` from the index `start` on.
pub open spec fn code_at(code: Seq<OpCode>, start: int, piece: Seq<OpCode>) -> bool {
    &&& 0 <= start
    &&& start + piece.len() <= code.len()
    &&& code.subrange(start, start + piece.len()) == piece
}

/// Short-circuiting. The machine stands in the code of `a && b` or `a || b`,
/// just after the code of `a`, and `a` has left on the stack the value that
/// decides the result: zero for `&&`, anything else for `||`. Then one step
/// takes the machine past the whole term. The stack is as it was, with the
/// value of `a` on top as the result, and nothing is written: whatever `b`
/// is, none of it runs.
pub proof fn lemma_short_circuit(
    ctx: Map<TermId, Ty>,
    locals: Seq<LocalId>,
    base: nat,
    kind: TermKind,
    s: State,
    start: int,
    decided: i64,
)
    requires
        kind matches TermKind::PrimApp(prim, args) && short_circuits(prim) && args@.len() == 2,
        s.head.function.code.len() <= usize::MAX,
        code_at(s.head.function.code, start, emit(ctx, locals, base, kind).code),
        kind matches TermKind::PrimApp(_, args) && s.head.ins_ptr == start + emit(
            ctx,
            locals,
            base,
            args@[0].kind,
        ).code.len(),
        s.visible() > 0,
        s.peek(0) == Value::Int(decided),
        kind matches TermKind::PrimApp(prim, _) && (decided == 0 <==> prim == PrimFn::BinOp(
            BinOp::And,
        )),
    ensures
        s.step() == Step::Next(
            s.at(start + emit(ctx, locals, base, kind).code.len()),
            Seq::empty(),
        ),
{
    let code = emit(ctx, locals, base, kind).code;
    if let TermKind::PrimApp(prim, args) = kind {
        let first = emit(ctx, locals, base, args@[0].kind);
        let second = emit(ctx, locals, base + first.funcs.len(), args@[1].kind);
        let here = s.head.ins_ptr as int;
        assert(code[here - start] == if prim == PrimFn::BinOp(BinOp::And) {
            OpCode::JumpIfFalse((second.code.len() + 1) as usize)
        } else {
            OpCode::JumpIfTrue((second.code.len() + 1) as usize)
        });
    }
}

/// Short-circuiting, from the first operand on. The machine is about to run
/// the code of `a && b` or `a || b`, `a` holds no `let`, and `a` has the
/// value that decides the result: zero for `&&`, anything else for `||`.
/// Then the machine comes to the end of the whole term having written what
/// the evaluation of `a` writes, with the value of `a` pushed on the stack
/// and nothing else changed. Nothing is asked of `b`, and nothing of this
/// depends on it: it may print, bind, loop or go wrong.
pub proof fn lemma_decided_operand_is_the_result(
    ctx: Map<TermId, Ty>,
    env: Env,
    base: nat,
    kind: TermKind,
    fuel: nat,
    s: State,
    start: int,
    decided: i64,
    written: Seq<u8>,
) -> (r: (nat, State))
    requires
        kind matches TermKind::PrimApp(prim, args) && short_circuits(prim) && args@.len() == 2
            && simple(args@[0].kind) && eval(ctx, env, base, args@[0].kind, fuel) == Some(
            (Datum::Int(decided), written),
        ) && (decided == 0 <==> prim == PrimFn::BinOp(BinOp::And)),
        poised(ctx, env, base, s, start, emit(ctx, names(env), base, kind)),
    ensures
        reaches(s, r.0, r.1, written),
        r.1 == s.at(start + emit(ctx, names(env), base, kind).code.len()).pushed(
            Value::Int(decided),
        ),
{
    let args = kind->PrimApp_1;
    let locals = names(env);
    let emitted = emit(ctx, locals, base, kind);
    let first = emit(ctx, locals, base, args@[0].kind);
    let rest = emitted.code.subrange(first.code.len() as int, emitted.code.len() as int);
    assert(emitted.code =~= first.code + rest);
    lemma_code_split(s.head.function.code, start, first.code, rest);
    lemma_funcs_counted(ctx, locals, base, args@[0].kind);
    lemma_simple_has_no_lambda(args@[0].kind);
    lemma_simple_is_straight(args@[0].kind);
    let (n, t) = lemma_term(ctx, env, base, args@[0].kind, fuel, s, start);
    assert(t.stack =~= s.stack.push(Value::Int(decided)));
    lemma_short_circuit(ctx, locals, base, kind, t, start, decided);
    let end = t.at(start + emitted.code.len());
    lemma_reaches_next(t, end, Seq::empty());
    lemma_reaches_chain(s, n, t, written, 1, end, Seq::empty());
    assert(written + Seq::<u8>::empty() =~= written);
    (n + 1, end)
}

/// Short-circuiting, over two terms. Two terms `a && b1` and `a && b2` (or
/// both with `||`) share their first operand, which holds no `let` and has
/// the value that decides the result. Two machines are about to run them on
/// the same stack. Then both come to the end of their term having written the
/// same text, and their stacks are the same again: the stack that was, with
/// the value of `a` on top.
pub proof fn lemma_second_operand_does_not_matter(
    ctx: Map<TermId, Ty>,
    env: Env,
    base: nat,
    one: TermKind,
    other: TermKind,
    fuel: nat,
    s1: State,
    start1: int,
    s2: State,
    start2: int,
    decided: i64,
    written: Seq<u8>,
) -> (r: ((nat, State), (nat, State)))
    requires
        one matches TermKind::PrimApp(prim, args) && short_circuits(prim) && args@.len() == 2
            && simple(args@[0].kind) && eval(ctx, env, base, args@[0].kind, fuel) == Some(
            (Datum::Int(decided), written),
        ) && (decided == 0 <==> prim == PrimFn::BinOp(BinOp::And)),
        other matches TermKind::PrimApp(prim, args) && args@.len() == 2 && prim
            == one->PrimApp_0 && args@[0].kind == one->PrimApp_1@[0].kind,
        poised(ctx, env, base, s1, start1, emit(ctx, names(env), base, one)),
        poised(ctx, env, base, s2, start2, emit(ctx, names(env), base, other)),
        s1.stack == s2.stack,
    ensures
        reaches(s1, r.0.0, r.0.1, written),
        reaches(s2, r.1.0, r.1.1, written),
        r.0.1.stack == s1.stack.push(Value::Int(decided)),
        r.1.1.stack == r.0.1.stack,
{
    let first = lemma_decided_operand_is_the_result(
        ctx,
        env,
        base,
        one,
        fuel,
        s1,
        start1,
        decided,
        written,
    );
    let second = lemma_decided_operand_is_the_result(
        ctx,
        env,
        base,
        other,
        fuel,
        s2,
        start2,
        decided,
        written,
    );
    (first, second)
}

/// Short-circuiting, for whole programs. The program is `print(a && b)` or
/// `print(a || b)`, the operator is of type `Bool`, `a` holds no `let` and
/// has the value that decides the result. Then the program, compiled and run
/// with enough fuel, halts having written what the evaluation of `a` writes
/// and then the word for the value of `a`; the stack holds the program's own
/// pointer and the unit that `print` leaves. Nothing is asked of `b`, so two
/// programs that differ in `b` alone write the same and leave the same stack.
pub proof fn lemma_short_circuit_prints(
    ctx: Map<TermId, Ty>,
    term: Term,
    fuel: nat,
    decided: i64,
    written: Seq<u8>,
) -> (steps: nat)
    requires
        term.kind matches TermKind::PrimApp(print, printed) && print == PrimFn::Print
            && printed@.len() == 1 && ctx.contains_key(printed@[0].id) && ctx[printed@[0].id]
            == Ty::Bool && (printed@[0].kind matches TermKind::PrimApp(prim, args)
            && short_circuits(prim) && args@.len() == 2 && simple(args@[0].kind) && eval(
            ctx,
            entry_env(),
            1,
            args@[0].kind,
            fuel,
        ) == Some((Datum::Int(decided), written)) && (decided == 0 <==> prim == PrimFn::BinOp(
            BinOp::And,
        ))),
        sized(program(ctx, term)),
    ensures
        forall|more: nat|
            more >= steps ==> {
                let run = #[trigger] execution(ctx, term, more);
                &&& run.status == Status::Halted
                &&& run.output == written + text::line(text::boolean(decided != 0))
                &&& run.state.stack == seq![Value::FuncPtr(0), Value::Int(0)]
            },
{
    let printed = term.kind->PrimApp_1;
    let kind = printed@[0].kind;
    let heap = program(ctx, term);
    let env = entry_env();
    let locals = seq![LocalId::main()];
    let whole = emit(ctx, locals, 1, term.kind);
    let inner = emit(ctx, locals, 1, kind);
    let s = State::initial(heap, 0);
    assert(names(env) =~= locals);
    assert(emit_prefix(ctx, locals, 1, printed@, 0) == Emitted::empty());
    assert(emit_prefix(ctx, locals, 1, printed@, 1).code =~= inner.code);
    assert(emit_prefix(ctx, locals, 1, printed@, 1).funcs =~= inner.funcs);
    assert(whole.code =~= inner.code + seq![OpCode::PrintBool]);
    assert(whole.funcs =~= inner.funcs);
    assert(heap[0].code == whole.code);
    assert(whole.code.subrange(0, whole.code.len() as int) =~= whole.code);
    lemma_code_split(s.head.function.code, 0, inner.code, seq![OpCode::PrintBool]);
    assert forall|i: int| 0 <= i < inner.funcs.len() implies heap[1 + i]
        == #[trigger] inner.funcs[i] by {}
    assert(represents(ctx, heap, s.stack[0], env[0].1));
    let (n, t) = lemma_decided_operand_is_the_result(
        ctx,
        env,
        1,
        kind,
        fuel,
        s,
        0,
        decided,
        written,
    );
    let at_print = inner.code.len() as int;
    lemma_stands_on(t, at_print, seq![OpCode::PrintBool], 0);
    lemma_print_op(t, at_print, OpCode::PrintBool);
    let last = t.at(at_print + 1).with_stack(t.stack.drop_last().push(Value::Int(0)));
    let shown = text::line(text::boolean(decided != 0));
    lemma_reaches_chain(s, n, t, written, 1, last, shown);
    assert(last.stack =~= seq![Value::FuncPtr(0), Value::Int(0)]);
    assert(last.next_op() is None);
    assert forall|more: nat| more >= n + 2 implies {
        let run = #[trigger] execution(ctx, term, more);
        &&& run.status == Status::Halted
        &&& run.output == written + shown
        &&& run.state.stack == seq![Value::FuncPtr(0), Value::Int(0)]
    } by {
        lemma_reaches_halt(s, n + 1, last, written + shown, more);
    }
    n + 2
}

/// A function sees itself in slot 0 and its parameters in the slots after
/// it. In the body of the lambda that a `let` binds to `name`, under the
/// bindings `inner` of the body itself, `name` resolves to slot 0 unless a
/// parameter or a binding of the body has the same name; and the parameter
/// at index `j` resolves to slot `j + 1` unless a later parameter or a
/// binding of the body has the same name.
pub proof fn lemma_function_scope(
    name: LocalId,
    params: Seq<LocalId>,
    inner: Seq<LocalId>,
    j: int,
)
    requires
        0 <= j < params.len(),
    ensures
        !params.contains(name) && !inner.contains(name) ==> resolve(
            seq![name] + params + inner,
            name,
        ) == Some(0int),
        (forall|k: int| j < k < params.len() ==> params[k] != params[j]) && !inner.contains(
            params[j],
        ) ==> resolve(seq![name] + params + inner, params[j]) == Some(j + 1),
{
    let scope = seq![name] + params + inner;
    lemma_resolve_innermost(scope, name);
    lemma_resolve_innermost(scope, params[j]);
    assert(scope[0] == name);
    assert(scope[j + 1] == params[j]);
    assert forall|i: int| 0 < i < scope.len() implies scope[i] == (if i <= params.len() {
        params[i - 1]
    } else {
        inner[i - 1 - params.len()]
    }) by {}
}

/// Running in slices. A run of `first + second` steps is a run of `first`
/// steps and, if that one has used up its fuel, a run of `second` steps from
/// where it stopped; the output is what the two have written, in order. A
/// run that has halted or faulted stays as it is, whatever fuel is added.
pub proof fn lemma_run_in_slices(s: State, first: nat, second: nat)
    ensures
        run(s, first + second) == (if run(s, first).status == Status::OutOfFuel {
            let rest = run(run(s, first).state, second);
            Run { output: run(s, first).output + rest.output, ..rest }
        } else {
            run(s, first)
        }),
    decreases first,
{
    if first == 0 {
        let rest = run(s, second);
    } else {
        match s.step() {
            Step::Next(next, written) => {
                lemma_run_in_slices(next, (first - 1) as nat, second);
                let head = run(next, (first - 1) as nat);
                if head.status == Status::OutOfFuel {
                    let rest = run(head.state, second);
                    assert(written + (head.output + rest.output) =~= (written + head.output)
                        + rest.output);
                }
            },
            _ => {},
        }
    }
}

/// Whether every jump in `code` is forward to an index of `code` or to its
/// end.
pub open spec fn jumps_inside(code: Seq<OpCode>) -> bool {
    forall|i: int|
        0 <= i < code.len() ==> match #[trigger] code[i] {
            OpCode::JumpIfTrue(offset) | OpCode::JumpIfFalse(offset) | OpCode::Skip(offset) => i
                + 1 + offset <= code.len(),
            _ => true,
        }
}

/// Whether the code of every function is short enough for a machine integer
/// to count it.
pub open spec fn countable(funcs: Seq<FunctionView>) -> bool {
    forall|i: int| 0 <= i < funcs.len() ==> (#[trigger] funcs[i]).code.len() <= usize::MAX
}

/// Jumps stay inside when jump-free opcodes are appended or two pieces that
/// keep their jumps inside are joined.
proof fn lemma_jumps_join(first: Seq<OpCode>, second: Seq<OpCode>)
    requires
        jumps_inside(first),
        jumps_inside(second),
    ensures
        jumps_inside(first + second),
{
    let code = first + second;
    assert forall|i: int| 0 <= i < code.len() implies match #[trigger] code[i] {
        OpCode::JumpIfTrue(offset) | OpCode::JumpIfFalse(offset) | OpCode::Skip(offset) => i + 1
            + offset <= code.len(),
        _ => true,
    } by {
        if i < first.len() {
        } else {
        }
    }
}

/// The jumps that the compiler emits are forward and stay inside the code of
/// the term that they belong to, in the current function and in every
/// function that the term adds to the heap.
pub proof fn lemma_jumps_stay_inside(
    ctx: Map<TermId, Ty>,
    locals: Seq<LocalId>,
    base: nat,
    kind: TermKind,
)
    requires
        emit(ctx, locals, base, kind).code.len() <= usize::MAX,
        countable(emit(ctx, locals, base, kind).funcs),
    ensures
        jumps_inside(emit(ctx, locals, base, kind).code),
        forall|i: int|
            0 <= i < emit(ctx, locals, base, kind).funcs.len() ==> jumps_inside(
                (#[trigger] emit(ctx, locals, base, kind).funcs[i]).code,
            ),
    decreases kind,
{
    match kind {
        TermKind::Lit(_) => {},
        TermKind::Var(_) => {},
        TermKind::PrimApp(prim, args) => {
            if short_circuits(prim) && args@.len() == 2 {
                let first = emit(ctx, locals, base, args@[0].kind);
                let second = emit(ctx, locals, base + first.funcs.len(), args@[1].kind);
                lemma_countable_parts(first.funcs, second.funcs);
                lemma_jumps_stay_inside(ctx, locals, base, args@[0].kind);
                lemma_jumps_stay_inside(ctx, locals, base + first.funcs.len(), args@[1].kind);
                let skip = (second.code.len() + 1) as usize;
                let jump = if prim == PrimFn::BinOp(BinOp::And) {
                    OpCode::JumpIfFalse(skip)
                } else {
                    OpCode::JumpIfTrue(skip)
                };
                let tail = seq![jump, OpCode::Pop] + second.code;
                assert forall|i: int| 0 <= i < tail.len() implies match #[trigger] tail[i] {
                    OpCode::JumpIfTrue(offset)
                    | OpCode::JumpIfFalse(offset)
                    | OpCode::Skip(offset) => i + 1 + offset <= tail.len(),
                    _ => true,
                } by {}
                lemma_jumps_join(first.code, tail);
                lemma_funcs_join(first.funcs, second.funcs);
            } else {
                lemma_jumps_stay_inside_prefix(ctx, locals, base, args@, args@.len());
                let init = emit_prefix(ctx, locals, base, args@, args@.len());
                lemma_jumps_join(init.code, seq![prim_opcode(ctx, prim, args@)]);
            }
        },
        TermKind::Let(_, lhs, rhs, tail) => {
            let bound = emit_rvalue(ctx, locals.push(lhs), base, lhs, *rhs);
            let rest = emit(ctx, locals.push(lhs), base + bound.funcs.len(), tail.kind);
            lemma_countable_parts(bound.funcs, rest.funcs);
            lemma_jumps_stay_inside_rvalue(ctx, locals.push(lhs), base, lhs, *rhs);
            lemma_jumps_stay_inside(ctx, locals.push(lhs), base + bound.funcs.len(), tail.kind);
            lemma_jumps_join(bound.code, rest.code);
            lemma_funcs_join(bound.funcs, rest.funcs);
        },
        TermKind::App(func, args) => {
            let callee = emit(ctx, locals, base, func.kind);
            let passed = emit_prefix(ctx, locals, base + callee.funcs.len(), args@, args@.len());
            lemma_countable_parts(callee.funcs, passed.funcs);
            lemma_jumps_stay_inside(ctx, locals, base, func.kind);
            lemma_jumps_stay_inside_prefix(
                ctx,
                locals,
                base + callee.funcs.len(),
                args@,
                args@.len(),
            );
            lemma_jumps_join(callee.code, passed.code);
            lemma_jumps_join(callee.code + passed.code, seq![OpCode::Call(args@.len() as usize)]);
            lemma_funcs_join(callee.funcs, passed.funcs);
        },
        TermKind::Cond(if_term, do_term, else_term) => {
            let cond = emit(ctx, locals, base, if_term.kind);
            let taken = emit(ctx, locals, base + cond.funcs.len(), do_term.kind);
            let other = emit(
                ctx,
                locals,
                base + cond.funcs.len() + taken.funcs.len(),
                else_term.kind,
            );
            lemma_countable_parts(cond.funcs + taken.funcs, other.funcs);
            lemma_countable_parts(cond.funcs, taken.funcs);
            lemma_jumps_stay_inside(ctx, locals, base, if_term.kind);
            lemma_jumps_stay_inside(ctx, locals, base + cond.funcs.len(), do_term.kind);
            lemma_jumps_stay_inside(
                ctx,
                locals,
                base + cond.funcs.len() + taken.funcs.len(),
                else_term.kind,
            );
            let end = seq![OpCode::Skip((other.code.len() + 1) as usize), OpCode::Pop]
                + other.code;
            assert forall|i: int| 0 <= i < end.len() implies match #[trigger] end[i] {
                OpCode::JumpIfTrue(offset)
                | OpCode::JumpIfFalse(offset)
                | OpCode::Skip(offset) => i + 1 + offset <= end.len(),
                _ => true,
            } by {}
            lemma_jumps_join(taken.code, end);
            let middle = seq![OpCode::JumpIfFalse((taken.code.len() + 2) as usize), OpCode::Pop]
                + (taken.code + end);
            assert forall|i: int| 0 <= i < middle.len() implies match #[trigger] middle[i] {
                OpCode::JumpIfTrue(offset)
                | OpCode::JumpIfFalse(offset)
                | OpCode::Skip(offset) => i + 1 + offset <= middle.len(),
                _ => true,
            } by {}
            lemma_jumps_join(cond.code, middle);
            lemma_funcs_join(cond.funcs, taken.funcs);
            lemma_funcs_join(cond.funcs + taken.funcs, other.funcs);
        },
    }
}

/// [`lemma_jumps_stay_inside`] for the first `n` of `terms`.
proof fn lemma_jumps_stay_inside_prefix(
    ctx: Map<TermId, Ty>,
    locals: Seq<LocalId>,
    base: nat,
    terms: Seq<Term>,
    n: nat,
)
    requires
        emit_prefix(ctx, locals, base, terms, n).code.len() <= usize::MAX,
        countable(emit_prefix(ctx, locals, base, terms, n).funcs),
    ensures
        jumps_inside(emit_prefix(ctx, locals, base, terms, n).code),
        forall|i: int|
            0 <= i < emit_prefix(ctx, locals, base, terms, n).funcs.len() ==> jumps_inside(
                (#[trigger] emit_prefix(ctx, locals, base, terms, n).funcs[i]).code,
            ),
    decreases terms, n,
{
    if n == 0 || n > terms.len() {
    } else {
        let init = emit_prefix(ctx, locals, base, terms, (n - 1) as nat);
        let last = emit(ctx, locals, base + init.funcs.len(), terms[n - 1].kind);
        lemma_countable_parts(init.funcs, last.funcs);
        lemma_jumps_stay_inside_prefix(ctx, locals, base, terms, (n - 1) as nat);
        lemma_jumps_stay_inside(ctx, locals, base + init.funcs.len(), terms[n - 1].kind);
        lemma_jumps_join(init.code, last.code);
        lemma_funcs_join(init.funcs, last.funcs);
    }
}

/// [`lemma_jumps_stay_inside`] for the right-hand side of a `let`.
proof fn lemma_jumps_stay_inside_rvalue(
    ctx: Map<TermId, Ty>,
    locals: Seq<LocalId>,
    base: nat,
    lhs: LocalId,
    rvalue: RValue,
)
    requires
        emit_rvalue(ctx, locals, base, lhs, rvalue).code.len() <= usize::MAX,
        countable(emit_rvalue(ctx, locals, base, lhs, rvalue).funcs),
    ensures
        jumps_inside(emit_rvalue(ctx, locals, base, lhs, rvalue).code),
        forall|i: int|
            0 <= i < emit_rvalue(ctx, locals, base, lhs, rvalue).funcs.len() ==> jumps_inside(
                (#[trigger] emit_rvalue(ctx, locals, base, lhs, rvalue).funcs[i]).code,
            ),
    decreases rvalue,
{
    match rvalue.kind {
        RValueKind::Term(kind) => {
            lemma_jumps_stay_inside(ctx, locals, base, kind);
        },
        RValueKind::Abs(args, body) => {
            let emitted = emit_rvalue(ctx, locals, base, lhs, rvalue);
            let inner = emit(ctx, seq![lhs] + args@, base + 1, body.kind);
            assert(emitted.funcs[0].code == inner.code.push(OpCode::Return));
            assert forall|i: int| 0 <= i < inner.funcs.len() implies (#[trigger] inner.funcs[i]).code.len()
                <= usize::MAX by {
                assert(inner.funcs[i] == emitted.funcs[i + 1]);
            }
            lemma_jumps_stay_inside(ctx, seq![lhs] + args@, base + 1, body.kind);
            lemma_jumps_join(inner.code, seq![OpCode::Return]);
            assert forall|i: int| 0 <= i < emitted.funcs.len() implies jumps_inside(
                (#[trigger] emitted.funcs[i]).code,
            ) by {}
        },
    }
}

/// The parts of a countable sequence of functions are countable.
proof fn lemma_countable_parts(first: Seq<FunctionView>, second: Seq<FunctionView>)
    requires
        countable(first + second),
    ensures
        countable(first),
        countable(second),
{
    let whole = first + second;
    assert forall|i: int| 0 <= i < first.len() implies (#[trigger] first[i]).code.len()
        <= usize::MAX by {
        assert(whole[i] == first[i]);
    }
    assert forall|i: int| 0 <= i < second.len() implies (#[trigger] second[i]).code.len()
        <= usize::MAX by {
        assert(whole[i + first.len()] == second[i]);
    }
}

/// Functions that keep their jumps inside, joined.
proof fn lemma_funcs_join(first: Seq<FunctionView>, second: Seq<FunctionView>)
    requires
        forall|i: int| 0 <= i < first.len() ==> jumps_inside((#[trigger] first[i]).code),
        forall|i: int| 0 <= i < second.len() ==> jumps_inside((#[trigger] second[i]).code),
    ensures
        forall|i: int|
            0 <= i < (first + second).len() ==> jumps_inside((#[trigger] (first + second)[i]).code),
{
    let whole = first + second;
    assert forall|i: int| 0 <= i < whole.len() implies jumps_inside((#[trigger] whole[i]).code) by {
        if i < first.len() {
        } else {
        }
    }
}

} // verus!
