//! The compiler is correct: the code of a term, run by the machine, leaves
//! the value and writes the text that the evaluator gives for the term.
//!
//! The theorems are at the end. They hold of terms in the form that
//! [`straight`] describes, whose compiled code keeps every binding in the
//! stack slot that the compiler counts on.

use vstd::prelude::*;

use crate::bytecode::{FunctionView, OpCode, Value};
use crate::compiler::{emit, emit_prefix, emit_rvalue, resolve, short_circuits};
use crate::evaluation::{
    entry_env, eval, eval_prefix, lambdas, lambdas_prefix, lambdas_rvalue, lookup, mentions,
    mentions_prefix, names, printed, simple, simple_prefix, straight, Closure, Datum, Env,
};
use crate::ir::{LocalId, PrimFn, RValue, RValueKind, Term, TermId, TermKind};
use crate::laws::{code_at, countable};
use crate::machine::{execution, program};
use crate::semantics::{run, Run, State, Status, Step};
use crate::simulation::lemma_term;
use crate::text;
use crate::ty::Ty;

verus! {

/// Whether the heap holds the given functions from the index `base` on.
pub open spec fn holds(heap: Seq<FunctionView>, base: nat, funcs: Seq<FunctionView>) -> bool {
    &&& base + funcs.len() <= heap.len()
    &&& forall|i: int| 0 <= i < funcs.len() ==> heap[base + i] == #[trigger] funcs[i]
}

/// Whether machine integers can count the functions of the heap and the
/// opcodes of each of them.
pub open spec fn sized(heap: Seq<FunctionView>) -> bool {
    heap.len() <= usize::MAX && countable(heap)
}

/// Whether the heap holds the compiled form of the function at the index
/// that the function knows as its own, followed by the functions of the
/// lambdas in its body.
#[verifier::opaque]
pub open spec fn installed(ctx: Map<TermId, Ty>, heap: Seq<FunctionView>, closure: Closure) -> bool {
    let inner = emit(
        ctx,
        seq![closure.name] + closure.params,
        closure.ptr + 1,
        closure.body.kind,
    );
    &&& straight(closure.body.kind)
    &&& closure.params.len() <= usize::MAX
    &&& closure.ptr < heap.len()
    &&& heap[closure.ptr as int] == FunctionView {
        arity: closure.params.len() as usize,
        code: inner.code.push(OpCode::Return),
    }
    &&& holds(heap, closure.ptr + 1, inner.funcs)
}

/// Whether the machine's `value` stands for the evaluator's `datum`.
pub open spec fn represents(
    ctx: Map<TermId, Ty>,
    heap: Seq<FunctionView>,
    value: Value,
    datum: Datum,
) -> bool {
    match datum {
        Datum::Int(n) => value == Value::Int(n),
        Datum::Closure(closure) => value == Value::FuncPtr(closure.ptr as usize) && installed(
            ctx,
            heap,
            closure,
        ),
        Datum::Entry => value == Value::FuncPtr(0),
    }
}

/// Whether the slots of the running frame hold the values of the
/// environment, binding by binding.
pub open spec fn env_on_stack(
    ctx: Map<TermId, Ty>,
    heap: Seq<FunctionView>,
    env: Env,
    stack: Seq<Value>,
    base_ptr: nat,
) -> bool {
    &&& env.len() <= usize::MAX + 1
    &&& base_ptr + env.len() <= stack.len()
    &&& forall|i: int|
        0 <= i < env.len() ==> represents(ctx, heap, stack[base_ptr + i], (#[trigger] env[i]).1)
}

/// Whether the stack `after` is the stack `before` with more on top.
pub open spec fn grown(before: Seq<Value>, after: Seq<Value>) -> bool {
    &&& before.len() < after.len()
    &&& forall|i: int| 0 <= i < before.len() ==> after[i] == #[trigger] before[i]
}

/// Whether the machine, having started a term in the state `s`, has come in
/// the state `t` to the opcode at `end` with the value of the term on top of
/// what the stack held, and with nothing else changed.
pub open spec fn landed(
    ctx: Map<TermId, Ty>,
    s: State,
    t: State,
    end: int,
    datum: Datum,
) -> bool {
    &&& t.heap == s.heap
    &&& t.frames == s.frames
    &&& t.head == s.at(end).head
    &&& t.base_ptr == s.base_ptr
    &&& grown(s.stack, t.stack)
    &&& represents(ctx, s.heap, t.stack.last(), datum)
}

/// Whether the machine takes exactly `n` steps from `s`, comes to `t`, and
/// writes `output` on the way.
#[verifier::opaque]
pub open spec fn reaches(s: State, n: nat, t: State, output: Seq<u8>) -> bool {
    run(s, n) == (Run { state: t, status: Status::OutOfFuel, output })
}

/// No step leads nowhere.
pub proof fn lemma_reaches_itself(s: State)
    ensures
        reaches(s, 0, s, Seq::empty()),
{
    reveal(reaches);
}

/// One step is a run of one step.
pub proof fn lemma_reaches_next(s: State, t: State, output: Seq<u8>)
    requires
        s.step() == Step::Next(t, output),
    ensures
        reaches(s, 1, t, output),
{
    reveal(reaches);
    assert(run(t, 0).output =~= Seq::<u8>::empty());
}

/// A run after a run is a run.
pub proof fn lemma_reaches_chain(
    s: State,
    n: nat,
    t: State,
    first: Seq<u8>,
    m: nat,
    u: State,
    second: Seq<u8>,
)
    requires
        reaches(s, n, t, first),
        reaches(t, m, u, second),
    ensures
        reaches(s, n + m, u, first + second),
    decreases n,
{
    reveal(reaches);
    if n == 0 {
    } else {
        match s.step() {
            Step::Next(next, written) => {
                let rest = run(next, (n - 1) as nat);
                lemma_reaches_chain(next, (n - 1) as nat, t, rest.output, m, u, second);
                assert(written + (rest.output + second) =~= first + second);
            },
            _ => {},
        }
    }
}

/// A run that ends where the running frame has no opcode left is a run that
/// halts, however much fuel is left.
pub proof fn lemma_reaches_halt(s: State, n: nat, t: State, output: Seq<u8>, fuel: nat)
    requires
        reaches(s, n, t, output),
        t.step() == Step::Halt,
        fuel > n,
    ensures
        run(s, fuel) == (Run { state: t, status: Status::Halted, output }),
    decreases n,
{
    reveal(reaches);
    if n == 0 {
    } else {
        match s.step() {
            Step::Next(next, written) => {
                let rest = run(next, (n - 1) as nat);
                lemma_reaches_halt(next, (n - 1) as nat, t, rest.output, (fuel - 1) as nat);
            },
            _ => {},
        }
    }
}

/// A piece of code that the function holds is held in its parts.
pub proof fn lemma_code_split(code: Seq<OpCode>, start: int, first: Seq<OpCode>, second: Seq<OpCode>)
    requires
        code_at(code, start, first + second),
    ensures
        code_at(code, start, first),
        code_at(code, start + first.len(), second),
{
    let whole = first + second;
    assert(code.subrange(start, start + first.len()) =~= first);
    assert forall|i: int| 0 <= i < second.len() implies code.subrange(
        start + first.len(),
        start + first.len() + second.len(),
    )[i] == second[i] by {
        assert(code.subrange(start, start + whole.len())[first.len() + i] == whole[first.len()
            + i]);
    }
    assert(code.subrange(start + first.len(), start + first.len() + second.len()) =~= second);
}

/// Functions that the heap holds are held in their parts.
pub proof fn lemma_holds_split(
    heap: Seq<FunctionView>,
    base: nat,
    first: Seq<FunctionView>,
    second: Seq<FunctionView>,
)
    requires
        holds(heap, base, first + second),
    ensures
        holds(heap, base, first),
        holds(heap, base + first.len(), second),
{
    let whole = first + second;
    assert forall|i: int| 0 <= i < first.len() implies heap[base + i] == #[trigger] first[i] by {
        assert(whole[i] == first[i]);
    }
    assert forall|i: int| 0 <= i < second.len() implies heap[base + first.len() + i]
        == #[trigger] second[i] by {
        assert(whole[first.len() + i] == second[i]);
    }
}

/// The innermost binding of a name in an environment has the slot that the
/// compiler resolves the name to.
pub proof fn lemma_lookup_resolves(env: Env, id: LocalId)
    ensures
        match lookup(env, id) {
            Some(datum) => resolve(names(env), id) matches Some(index) && 0 <= index < env.len()
                && env[index].1 == datum,
            None => resolve(names(env), id) is None,
        },
    decreases env.len(),
{
    if env.len() > 0 {
        assert(names(env).drop_last() =~= names(env.drop_last()));
        if env.last().0 != id {
            lemma_lookup_resolves(env.drop_last(), id);
        }
    }
}

/// A term adds one function to the heap for each of its lambdas.
pub proof fn lemma_funcs_counted(ctx: Map<TermId, Ty>, locals: Seq<LocalId>, base: nat, kind: TermKind)
    ensures
        emit(ctx, locals, base, kind).funcs.len() == lambdas(kind),
    decreases kind,
{
    match kind {
        TermKind::Lit(_) => {},
        TermKind::Var(_) => {},
        TermKind::PrimApp(prim, args) => {
            if short_circuits(prim) && args@.len() == 2 {
                let first = emit(ctx, locals, base, args@[0].kind);
                lemma_funcs_counted(ctx, locals, base, args@[0].kind);
                lemma_funcs_counted(ctx, locals, base + first.funcs.len(), args@[1].kind);
                assert(lambdas_prefix(args@, 0) == 0);
                assert(lambdas_prefix(args@, 1) == lambdas(args@[0].kind));
                assert(lambdas_prefix(args@, 2) == lambdas(args@[0].kind) + lambdas(
                    args@[1].kind,
                ));
            } else {
                lemma_funcs_counted_prefix(ctx, locals, base, args@, args@.len());
            }
        },
        TermKind::Let(_, lhs, rhs, tail) => {
            let bound = emit_rvalue(ctx, locals.push(lhs), base, lhs, *rhs);
            lemma_funcs_counted_rvalue(ctx, locals.push(lhs), base, lhs, *rhs);
            lemma_funcs_counted(ctx, locals.push(lhs), base + bound.funcs.len(), tail.kind);
        },
        TermKind::App(func, args) => {
            let callee = emit(ctx, locals, base, func.kind);
            lemma_funcs_counted(ctx, locals, base, func.kind);
            lemma_funcs_counted_prefix(
                ctx,
                locals,
                base + callee.funcs.len(),
                args@,
                args@.len(),
            );
        },
        TermKind::Cond(if_term, do_term, else_term) => {
            let cond = emit(ctx, locals, base, if_term.kind);
            let taken = emit(ctx, locals, base + cond.funcs.len(), do_term.kind);
            lemma_funcs_counted(ctx, locals, base, if_term.kind);
            lemma_funcs_counted(ctx, locals, base + cond.funcs.len(), do_term.kind);
            lemma_funcs_counted(
                ctx,
                locals,
                base + cond.funcs.len() + taken.funcs.len(),
                else_term.kind,
            );
        },
    }
}

/// [`lemma_funcs_counted`] for the first `n` of `terms`.
pub proof fn lemma_funcs_counted_prefix(
    ctx: Map<TermId, Ty>,
    locals: Seq<LocalId>,
    base: nat,
    terms: Seq<Term>,
    n: nat,
)
    ensures
        emit_prefix(ctx, locals, base, terms, n).funcs.len() == lambdas_prefix(terms, n),
    decreases terms, n,
{
    if n == 0 || n > terms.len() {
    } else {
        let init = emit_prefix(ctx, locals, base, terms, (n - 1) as nat);
        lemma_funcs_counted_prefix(ctx, locals, base, terms, (n - 1) as nat);
        lemma_funcs_counted(ctx, locals, base + init.funcs.len(), terms[n - 1].kind);
    }
}

/// [`lemma_funcs_counted`] for the right-hand side of a `let`.
pub proof fn lemma_funcs_counted_rvalue(
    ctx: Map<TermId, Ty>,
    locals: Seq<LocalId>,
    base: nat,
    lhs: LocalId,
    rvalue: RValue,
)
    ensures
        emit_rvalue(ctx, locals, base, lhs, rvalue).funcs.len() == lambdas_rvalue(rvalue),
    decreases rvalue,
{
    match rvalue.kind {
        RValueKind::Term(kind) => {
            lemma_funcs_counted(ctx, locals, base, kind);
        },
        RValueKind::Abs(args, body) => {
            lemma_funcs_counted(ctx, seq![lhs] + args@, base + 1, body.kind);
        },
    }
}

/// A term without `let` holds no lambda.
pub proof fn lemma_simple_has_no_lambda(kind: TermKind)
    requires
        simple(kind),
    ensures
        lambdas(kind) == 0,
    decreases kind,
{
    match kind {
        TermKind::PrimApp(_, args) => {
            lemma_simple_has_no_lambda_prefix(args@, args@.len());
        },
        TermKind::App(func, args) => {
            lemma_simple_has_no_lambda(func.kind);
            lemma_simple_has_no_lambda_prefix(args@, args@.len());
        },
        TermKind::Cond(if_term, do_term, else_term) => {
            lemma_simple_has_no_lambda(if_term.kind);
            lemma_simple_has_no_lambda(do_term.kind);
            lemma_simple_has_no_lambda(else_term.kind);
        },
        _ => {},
    }
}

/// [`lemma_simple_has_no_lambda`] for the first `n` of `terms`.
pub proof fn lemma_simple_has_no_lambda_prefix(terms: Seq<Term>, n: nat)
    requires
        simple_prefix(terms, n),
    ensures
        lambdas_prefix(terms, n) == 0,
    decreases terms, n,
{
    if n == 0 || n > terms.len() {
    } else {
        lemma_simple_has_no_lambda_prefix(terms, (n - 1) as nat);
        lemma_simple_has_no_lambda(terms[n - 1].kind);
    }
}

/// A term without `let` is of the form that [`straight`] describes.
pub proof fn lemma_simple_is_straight(kind: TermKind)
    requires
        simple(kind),
    ensures
        straight(kind),
    decreases kind,
{
    match kind {
        TermKind::PrimApp(_, args) => {
            if args@.len() == 1 {
                lemma_simple_each(args@, 1, 0);
                lemma_simple_is_straight(args@[0].kind);
            } else if args@.len() == 2 {
                lemma_simple_each(args@, 2, 0);
                lemma_simple_each(args@, 2, 1);
                lemma_simple_is_straight(args@[0].kind);
            }
        },
        TermKind::App(func, _) => {
            lemma_simple_is_straight(func.kind);
        },
        TermKind::Cond(_, do_term, else_term) => {
            lemma_simple_is_straight(do_term.kind);
            lemma_simple_is_straight(else_term.kind);
        },
        _ => {},
    }
}

/// What has grown from a stack that has grown has grown.
pub proof fn lemma_grown_twice(first: Seq<Value>, second: Seq<Value>, third: Seq<Value>)
    requires
        first.len() <= second.len(),
        forall|i: int| 0 <= i < first.len() ==> second[i] == #[trigger] first[i],
        grown(second, third),
    ensures
        grown(first, third),
{
}

/// If the first `n` of `terms` hold no `let`, none of them does.
pub proof fn lemma_simple_each(terms: Seq<Term>, n: nat, i: int)
    requires
        simple_prefix(terms, n),
        0 <= i < n <= terms.len(),
    ensures
        simple(terms[i].kind),
        simple_prefix(terms, i as nat),
    decreases n,
{
    if i < n - 1 {
        lemma_simple_each(terms, (n - 1) as nat, i);
    }
}

/// If the first `n` of `terms` do not refer to a name, none of them does.
pub proof fn lemma_mentions_each(terms: Seq<Term>, n: nat, i: int, id: LocalId)
    requires
        !mentions_prefix(terms, n, id),
        0 <= i < n <= terms.len(),
    ensures
        !mentions(terms[i].kind, id),
        !mentions_prefix(terms, i as nat, id),
    decreases n,
{
    if i < n - 1 {
        lemma_mentions_each(terms, (n - 1) as nat, i, id);
    }
}

/// A name that a term without `let` does not refer to can join the scope
/// without changing the code of the term.
pub proof fn lemma_unmentioned_local(
    ctx: Map<TermId, Ty>,
    locals: Seq<LocalId>,
    base: nat,
    kind: TermKind,
    id: LocalId,
)
    requires
        simple(kind),
        !mentions(kind, id),
    ensures
        emit(ctx, locals.push(id), base, kind) == emit(ctx, locals, base, kind),
    decreases kind,
{
    match kind {
        TermKind::Var(var) => {
            assert(locals.push(id).drop_last() == locals);
        },
        TermKind::PrimApp(prim, args) => {
            if short_circuits(prim) && args@.len() == 2 {
                lemma_simple_each(args@, 2, 0);
                lemma_simple_each(args@, 2, 1);
                lemma_mentions_each(args@, 2, 0, id);
                lemma_mentions_each(args@, 2, 1, id);
                let first = emit(ctx, locals, base, args@[0].kind);
                lemma_unmentioned_local(ctx, locals, base, args@[0].kind, id);
                lemma_unmentioned_local(ctx, locals, base + first.funcs.len(), args@[1].kind, id);
            } else {
                lemma_unmentioned_local_prefix(ctx, locals, base, args@, args@.len(), id);
            }
        },
        TermKind::App(func, args) => {
            let callee = emit(ctx, locals, base, func.kind);
            lemma_unmentioned_local(ctx, locals, base, func.kind, id);
            lemma_unmentioned_local_prefix(
                ctx,
                locals,
                base + callee.funcs.len(),
                args@,
                args@.len(),
                id,
            );
        },
        TermKind::Cond(if_term, do_term, else_term) => {
            let cond = emit(ctx, locals, base, if_term.kind);
            let taken = emit(ctx, locals, base + cond.funcs.len(), do_term.kind);
            lemma_unmentioned_local(ctx, locals, base, if_term.kind, id);
            lemma_unmentioned_local(ctx, locals, base + cond.funcs.len(), do_term.kind, id);
            lemma_unmentioned_local(
                ctx,
                locals,
                base + cond.funcs.len() + taken.funcs.len(),
                else_term.kind,
                id,
            );
        },
        _ => {},
    }
}

/// [`lemma_unmentioned_local`] for the first `n` of `terms`.
pub proof fn lemma_unmentioned_local_prefix(
    ctx: Map<TermId, Ty>,
    locals: Seq<LocalId>,
    base: nat,
    terms: Seq<Term>,
    n: nat,
    id: LocalId,
)
    requires
        simple_prefix(terms, n),
        !mentions_prefix(terms, n, id),
    ensures
        emit_prefix(ctx, locals.push(id), base, terms, n) == emit_prefix(
            ctx,
            locals,
            base,
            terms,
            n,
        ),
    decreases terms, n,
{
    if n == 0 || n > terms.len() {
    } else {
        let init = emit_prefix(ctx, locals, base, terms, (n - 1) as nat);
        lemma_unmentioned_local_prefix(ctx, locals, base, terms, (n - 1) as nat, id);
        lemma_unmentioned_local(ctx, locals, base + init.funcs.len(), terms[n - 1].kind, id);
    }
}

/// The compiler and the machine are correct. Where the evaluator gives a
/// program a value, the compiled program halts within a number of steps,
/// having written exactly what the evaluator says the program writes, with
/// the value of the program on top of the stack; and so it does with any
/// fuel from that number on.
///
/// The program is of the form that [`straight`] describes, and it is not so
/// large that machine integers cannot count its functions or their opcodes.
pub proof fn theorem_compiled_program_runs(ctx: Map<TermId, Ty>, term: Term, fuel: nat) -> (steps:
    nat)
    requires
        straight(term.kind),
        sized(program(ctx, term)),
        eval(ctx, entry_env(), 1, term.kind, fuel) is Some,
    ensures
        ({
            let (datum, output) = eval(ctx, entry_env(), 1, term.kind, fuel).unwrap();
            let run = execution(ctx, term, steps);
            &&& run.status == Status::Halted
            &&& run.output == output
            &&& run.state.stack.len() > 0
            &&& represents(ctx, program(ctx, term), run.state.stack.last(), datum)
            &&& forall|more: nat| more >= steps ==> #[trigger] execution(ctx, term, more) == run
        }),
{
    let heap = program(ctx, term);
    let env = entry_env();
    let emitted = emit(ctx, seq![LocalId::main()], 1, term.kind);
    let s = State::initial(heap, 0);
    assert(names(env) =~= seq![LocalId::main()]);
    assert(emitted.code.subrange(0, emitted.code.len() as int) =~= emitted.code);
    let (n, t) = lemma_term(ctx, env, 1, term.kind, fuel, s, 0);
    let (datum, output) = eval(ctx, env, 1, term.kind, fuel).unwrap();
    lemma_reaches_halt(s, n, t, output, n + 1);
    assert forall|more: nat| more >= n + 1 implies #[trigger] execution(ctx, term, more)
        == execution(ctx, term, n + 1) by {
        lemma_reaches_halt(s, n, t, output, more);
    }
    n + 1
}

/// For a term `t` of type `Int` whose value is the integer `value`,
/// `print(t)` compiled and run writes what the evaluation of `t` writes,
/// then the decimal form of `value` and a line feed, and halts: within
/// `steps` steps, and with any fuel from that number on.
pub proof fn theorem_print_int(
    ctx: Map<TermId, Ty>,
    term: Term,
    fuel: nat,
    value: i64,
    before: Seq<u8>,
) -> (steps: nat)
    requires
        term.kind matches TermKind::PrimApp(prim, args) && prim == PrimFn::Print && args@.len()
            == 1 && straight(args@[0].kind) && ctx.contains_key(args@[0].id) && ctx[args@[0].id]
            == Ty::Int && eval(ctx, entry_env(), 1, args@[0].kind, fuel) == Some(
            (Datum::Int(value), before),
        ),
        sized(program(ctx, term)),
    ensures
        forall|more: nat|
            more >= steps ==> {
                let run = #[trigger] execution(ctx, term, more);
                &&& run.status == Status::Halted
                &&& run.output == before + text::line(text::decimal(value as int))
            },
{
    lemma_eval_print(ctx, term, fuel, Datum::Int(value), before);
    theorem_compiled_program_runs(ctx, term, fuel)
}

/// For a term `t` of type `Bool` whose value is the integer `value`,
/// `print(t)` compiled and run writes what the evaluation of `t` writes,
/// then `true` if `value` is not zero and `false` if it is, and a line feed,
/// and halts: within `steps` steps, and with any fuel from that number on.
pub proof fn theorem_print_bool(
    ctx: Map<TermId, Ty>,
    term: Term,
    fuel: nat,
    value: i64,
    before: Seq<u8>,
) -> (steps: nat)
    requires
        term.kind matches TermKind::PrimApp(prim, args) && prim == PrimFn::Print && args@.len()
            == 1 && straight(args@[0].kind) && ctx.contains_key(args@[0].id) && ctx[args@[0].id]
            == Ty::Bool && eval(ctx, entry_env(), 1, args@[0].kind, fuel) == Some(
            (Datum::Int(value), before),
        ),
        sized(program(ctx, term)),
    ensures
        forall|more: nat|
            more >= steps ==> {
                let run = #[trigger] execution(ctx, term, more);
                &&& run.status == Status::Halted
                &&& run.output == before + text::line(text::boolean(value != 0))
            },
{
    lemma_eval_print(ctx, term, fuel, Datum::Int(value), before);
    theorem_compiled_program_runs(ctx, term, fuel)
}

/// The value of `print(t)` is unit, and its evaluation writes what the
/// evaluation of `t` writes and then the text of the value of `t`.
proof fn lemma_eval_print(
    ctx: Map<TermId, Ty>,
    term: Term,
    fuel: nat,
    datum: Datum,
    before: Seq<u8>,
)
    requires
        term.kind matches TermKind::PrimApp(prim, args) && prim == PrimFn::Print && args@.len()
            == 1 && straight(args@[0].kind) && ctx.contains_key(args@[0].id) && eval(
            ctx,
            entry_env(),
            1,
            args@[0].kind,
            fuel,
        ) == Some((datum, before)) && printed(ctx[args@[0].id], datum) is Some,
    ensures
        straight(term.kind),
        term.kind matches TermKind::PrimApp(_, args) && eval(
            ctx,
            entry_env(),
            1,
            term.kind,
            fuel,
        ) == Some((Datum::Int(0), before + printed(ctx[args@[0].id], datum).unwrap())),
{
    let args = term.kind->PrimApp_1;
    let env = entry_env();
    let nothing = Seq::<u8>::empty();
    assert(eval_prefix(ctx, env, 1, args@, 0, fuel) == Some((Seq::<Datum>::empty(), nothing)));
    let values = Seq::<Datum>::empty().push(datum);
    assert(eval_prefix(ctx, env, 1, args@, 1, fuel) == Some((values, before)));
}

} // verus!
