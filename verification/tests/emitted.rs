//! The opcodes that the compiler emits, and the errors that it reports.

use pijama_codegen::bytecode::{Chunk, Function, Heap, OpCode, Value};
use pijama_codegen::compiler::{CompileError, Compiler};
use pijama_codegen::ir::{BindKind, LocalId, PrimFn, RValue, RValueKind, Term, TermId, TermKind};
use pijama_codegen::ty::{Context, Ty};
use pijama_codegen::{compile, BinOp, Literal, UnOp};

fn term(id: u64, kind: TermKind) -> Term {
    Term { id: TermId(id), kind }
}

fn num(id: u64, n: i64) -> Term {
    term(id, TermKind::Lit(Literal::Number(n)))
}

fn boolean(id: u64, b: bool) -> Term {
    term(id, TermKind::Lit(Literal::Bool(b)))
}

fn var(id: u64, local: usize) -> Term {
    term(id, TermKind::Var(LocalId(local)))
}

fn prim(id: u64, prim: PrimFn, args: Vec<Term>) -> Term {
    term(id, TermKind::PrimApp(prim, args))
}

fn bind(id: u64, lhs: usize, rhs: Term, tail: Term) -> Term {
    let rvalue = RValue { id: rhs.id, kind: RValueKind::Term(rhs.kind) };
    term(id, TermKind::Let(BindKind::NonRec, LocalId(lhs), Box::new(rvalue), Box::new(tail)))
}

fn lambda(id: u64, lhs: usize, params: Vec<usize>, body: Term, tail: Term) -> Term {
    let rvalue = RValue {
        id: TermId(id + 1000),
        kind: RValueKind::Abs(params.into_iter().map(LocalId).collect(), body),
    };
    term(id, TermKind::Let(BindKind::Rec, LocalId(lhs), Box::new(rvalue), Box::new(tail)))
}

fn heap_of(ctx: &Context, program: &Term) -> Vec<(usize, Vec<OpCode>)> {
    let interpreter = compile(ctx, program).expect("the program compiles");
    interpreter.heap().iter().map(|f| (f.arity, f.chunk.code.clone())).collect()
}

fn main_of(ctx: &Context, program: &Term) -> Vec<OpCode> {
    let heap = heap_of(ctx, program);
    assert_eq!(heap.len(), 1);
    assert_eq!(heap[0].0, 0);
    heap[0].1.clone()
}

fn push_int(n: i64) -> OpCode {
    OpCode::Push(Value::Int(n))
}

#[test]
fn literals_push_their_encoding() {
    let ctx = Context::new();
    assert_eq!(main_of(&ctx, &num(1, 7)), vec![push_int(7)]);
    assert_eq!(main_of(&ctx, &num(1, -7)), vec![push_int(-7)]);
    assert_eq!(main_of(&ctx, &boolean(1, true)), vec![push_int(1)]);
    assert_eq!(main_of(&ctx, &boolean(1, false)), vec![push_int(0)]);
    assert_eq!(main_of(&ctx, &term(1, TermKind::Lit(Literal::Unit))), vec![push_int(0)]);
    assert_eq!(Literal::Number(5).encode(), 5);
    assert_eq!(Literal::Bool(true).encode(), 1);
    assert_eq!(Literal::Bool(false).encode(), 0);
    assert_eq!(Literal::Unit.encode(), 0);
}

#[test]
fn the_top_level_function_knows_itself_in_slot_zero() {
    let ctx = Context::new();
    let program = term(1, TermKind::Var(LocalId::main()));
    assert_eq!(main_of(&ctx, &program), vec![OpCode::Local(0)]);
}

#[test]
fn variables_resolve_to_their_slot() {
    let ctx = Context::new();
    let program = bind(1, 7, num(2, 10), bind(3, 8, num(4, 20), var(5, 7)));
    assert_eq!(main_of(&ctx, &program), vec![push_int(10), push_int(20), OpCode::Local(1)]);
}

#[test]
fn the_innermost_binding_wins() {
    let ctx = Context::new();
    let program = bind(1, 7, num(2, 10), bind(3, 7, num(4, 20), var(5, 7)));
    assert_eq!(main_of(&ctx, &program), vec![push_int(10), push_int(20), OpCode::Local(2)]);
}

#[test]
fn lookup_scans_from_the_top() {
    let ctx = Context::new();
    let heap: Heap = vec![Function::new(0)];
    let mut compiler = Compiler::new(&ctx, &heap, 0, LocalId(4));
    compiler.locals.push(LocalId(5));
    compiler.locals.push(LocalId(4));
    compiler.locals.push(LocalId(6));
    assert_eq!(compiler.lookup(LocalId(4)), Some(2));
    assert_eq!(compiler.lookup(LocalId(5)), Some(1));
    assert_eq!(compiler.lookup(LocalId(6)), Some(3));
    assert_eq!(compiler.lookup(LocalId(7)), None);
}

#[test]
fn a_new_compiler_copies_the_function_in_its_slot() {
    let ctx = Context::new();
    let mut first = Function::new(2);
    first.write(OpCode::Pop);
    let heap: Heap = vec![Function::new(0), first];
    let compiler = Compiler::new(&ctx, &heap, 1, LocalId(9));
    assert_eq!(compiler.func.arity, 2);
    assert_eq!(compiler.func.chunk.code, vec![OpCode::Pop]);
    assert_eq!(compiler.locals, vec![LocalId(9)]);
}

#[test]
fn and_jumps_over_its_second_operand() {
    let ctx = Context::new();
    let rhs = prim(4, PrimFn::BinOp(BinOp::Add), vec![num(5, 1), num(6, 2)]);
    let program = prim(1, PrimFn::BinOp(BinOp::And), vec![boolean(2, true), rhs]);
    assert_eq!(
        main_of(&ctx, &program),
        vec![push_int(1), OpCode::JumpIfFalse(4), OpCode::Pop, push_int(1), push_int(2), OpCode::Add]
    );
}

#[test]
fn or_jumps_over_its_second_operand() {
    let ctx = Context::new();
    let program = prim(1, PrimFn::BinOp(BinOp::Or), vec![boolean(2, false), boolean(3, true)]);
    assert_eq!(
        main_of(&ctx, &program),
        vec![push_int(0), OpCode::JumpIfTrue(2), OpCode::Pop, push_int(1)]
    );
}

#[test]
fn conditional_layout() {
    let ctx = Context::new();
    let taken = prim(4, PrimFn::UnOp(UnOp::Neg), vec![num(5, 1)]);
    let program = term(
        1,
        TermKind::Cond(Box::new(boolean(2, true)), Box::new(taken), Box::new(num(6, 2))),
    );
    assert_eq!(
        main_of(&ctx, &program),
        vec![
            push_int(1),
            OpCode::JumpIfFalse(4),
            OpCode::Pop,
            push_int(1),
            OpCode::Neg,
            OpCode::Skip(2),
            OpCode::Pop,
            push_int(2),
        ]
    );
}

#[test]
fn nested_conditionals_patch_their_own_jumps() {
    let ctx = Context::new();
    let inner = term(
        3,
        TermKind::Cond(Box::new(boolean(4, false)), Box::new(num(5, 1)), Box::new(num(6, 2))),
    );
    let program =
        term(1, TermKind::Cond(Box::new(boolean(2, true)), Box::new(inner), Box::new(num(7, 3))));
    assert_eq!(
        main_of(&ctx, &program),
        vec![
            push_int(1),
            OpCode::JumpIfFalse(9),
            OpCode::Pop,
            push_int(0),
            OpCode::JumpIfFalse(3),
            OpCode::Pop,
            push_int(1),
            OpCode::Skip(2),
            OpCode::Pop,
            push_int(2),
            OpCode::Skip(2),
            OpCode::Pop,
            push_int(3),
        ]
    );
}

#[test]
fn every_strict_operator_has_its_opcode() {
    let ctx = Context::new();
    let table = [
        (BinOp::Add, OpCode::Add),
        (BinOp::Sub, OpCode::Sub),
        (BinOp::Mul, OpCode::Mul),
        (BinOp::Div, OpCode::Div),
        (BinOp::Rem, OpCode::Rem),
        (BinOp::BitAnd, OpCode::BitAnd),
        (BinOp::BitOr, OpCode::BitOr),
        (BinOp::BitXor, OpCode::BitXor),
        (BinOp::Shr, OpCode::Shr),
        (BinOp::Shl, OpCode::Shl),
        (BinOp::Eq, OpCode::Eq),
        (BinOp::Neq, OpCode::Neq),
        (BinOp::Lt, OpCode::Lt),
        (BinOp::Gt, OpCode::Gt),
        (BinOp::Lte, OpCode::Lte),
        (BinOp::Gte, OpCode::Gte),
    ];
    for (op, opcode) in table {
        let program = prim(1, PrimFn::BinOp(op), vec![num(2, 6), num(3, 3)]);
        assert_eq!(main_of(&ctx, &program), vec![push_int(6), push_int(3), opcode]);
    }
    let neg = prim(1, PrimFn::UnOp(UnOp::Neg), vec![num(2, 6)]);
    assert_eq!(main_of(&ctx, &neg), vec![push_int(6), OpCode::Neg]);
    let not = prim(1, PrimFn::UnOp(UnOp::Not), vec![boolean(2, true)]);
    assert_eq!(main_of(&ctx, &not), vec![push_int(1), OpCode::Not]);
}

#[test]
fn primitives_have_their_arity() {
    assert_eq!(PrimFn::Print.arity(), 1);
    assert_eq!(PrimFn::UnOp(UnOp::Neg).arity(), 1);
    assert_eq!(PrimFn::UnOp(UnOp::Not).arity(), 1);
    assert_eq!(PrimFn::BinOp(BinOp::Add).arity(), 2);
    assert_eq!(PrimFn::BinOp(BinOp::And).arity(), 2);
}

#[test]
fn print_goes_by_the_type_of_its_argument() {
    let arrow = Ty::Arrow(Box::new(Ty::Int), Box::new(Ty::Bool));
    for (ty, opcode) in [
        (Ty::Int, OpCode::PrintInt),
        (Ty::Bool, OpCode::PrintBool),
        (Ty::Unit, OpCode::PrintUnit),
        (arrow, OpCode::PrintFunc),
    ] {
        let mut ctx = Context::new();
        ctx.insert_type_info(TermId(2), ty);
        let program = prim(1, PrimFn::Print, vec![num(2, 0)]);
        assert_eq!(main_of(&ctx, &program), vec![push_int(0), opcode]);
    }
}

#[test]
fn the_context_keeps_the_last_type_given() {
    let mut ctx = Context::new();
    assert_eq!(ctx.get_type_info(TermId(1)), None);
    ctx.insert_type_info(TermId(1), Ty::Int);
    ctx.insert_type_info(TermId(2), Ty::Unit);
    ctx.insert_type_info(TermId(1), Ty::Bool);
    assert_eq!(ctx.get_type_info(TermId(1)), Some(&Ty::Bool));
    assert_eq!(ctx.get_type_info(TermId(2)), Some(&Ty::Unit));
    assert_eq!(ctx.get_type_info(TermId(3)), None);
}

#[test]
fn calls_push_the_callee_then_the_arguments() {
    let ctx = Context::new();
    let call = term(
        5,
        TermKind::App(Box::new(var(6, 1)), vec![num(7, 10), num(8, 20)]),
    );
    let body = prim(2, PrimFn::BinOp(BinOp::Sub), vec![var(3, 2), var(4, 3)]);
    let program = lambda(1, 1, vec![2, 3], body, call);
    assert_eq!(
        heap_of(&ctx, &program),
        vec![
            (
                0,
                vec![
                    OpCode::Push(Value::FuncPtr(1)),
                    OpCode::Local(1),
                    push_int(10),
                    push_int(20),
                    OpCode::Call(2),
                ]
            ),
            (2, vec![OpCode::Local(1), OpCode::Local(2), OpCode::Sub, OpCode::Return]),
        ]
    );
}

#[test]
fn a_lambda_sees_itself_in_slot_zero_and_nothing_outside() {
    let ctx = Context::new();
    let program = bind(1, 5, num(2, 1), lambda(3, 1, vec![], var(4, 1), num(5, 0)));
    assert_eq!(
        heap_of(&ctx, &program),
        vec![
            (0, vec![push_int(1), OpCode::Push(Value::FuncPtr(1)), push_int(0)]),
            (0, vec![OpCode::Local(0), OpCode::Return]),
        ]
    );
    let ctx = Context::new();
    let program = bind(1, 5, num(2, 1), lambda(3, 1, vec![], var(4, 5), num(5, 0)));
    assert_eq!(compile(&ctx, &program).err(), Some(CompileError::UnboundLocal(LocalId(5))));
}

#[test]
fn lambdas_take_heap_slots_in_the_order_they_are_met() {
    let ctx = Context::new();
    let innermost = lambda(10, 3, vec![], num(11, 3), var(12, 3));
    let first = lambda(1, 1, vec![], innermost, lambda(20, 2, vec![9], num(21, 2), num(22, 0)));
    assert_eq!(
        heap_of(&ctx, &first),
        vec![
            (0, vec![OpCode::Push(Value::FuncPtr(1)), OpCode::Push(Value::FuncPtr(3)), push_int(0)]),
            (0, vec![OpCode::Push(Value::FuncPtr(2)), OpCode::Local(1), OpCode::Return]),
            (0, vec![push_int(3), OpCode::Return]),
            (1, vec![push_int(2), OpCode::Return]),
        ]
    );
}

#[test]
fn unbound_variable() {
    let ctx = Context::new();
    assert_eq!(compile(&ctx, &var(1, 9)).err(), Some(CompileError::UnboundLocal(LocalId(9))));
}

#[test]
fn a_binding_is_out_of_scope_after_its_let() {
    let ctx = Context::new();
    let inner = bind(2, 7, num(3, 1), var(4, 7));
    let program = prim(1, PrimFn::BinOp(BinOp::Add), vec![inner, var(5, 7)]);
    assert_eq!(compile(&ctx, &program).err(), Some(CompileError::UnboundLocal(LocalId(7))));
}

#[test]
fn arity_mismatch() {
    let ctx = Context::new();
    for (p, args) in [
        (PrimFn::BinOp(BinOp::Add), vec![num(2, 1)]),
        (PrimFn::BinOp(BinOp::And), vec![num(2, 1)]),
        (PrimFn::BinOp(BinOp::Or), vec![num(2, 1), num(3, 1), num(4, 1)]),
        (PrimFn::UnOp(UnOp::Neg), vec![]),
        (PrimFn::UnOp(UnOp::Not), vec![num(2, 1), num(3, 1)]),
        (PrimFn::Print, vec![]),
    ] {
        let program = prim(1, p, args);
        assert_eq!(compile(&ctx, &program).err(), Some(CompileError::ArityMismatch(p)));
    }
}

#[test]
fn print_without_a_type() {
    let ctx = Context::new();
    let program = prim(1, PrimFn::Print, vec![num(2, 1)]);
    assert_eq!(compile(&ctx, &program).err(), Some(CompileError::MissingType(TermId(2))));
}

#[test]
fn print_with_an_unsolved_type() {
    let mut ctx = Context::new();
    ctx.insert_type_info(TermId(2), Ty::Var(0));
    let program = prim(1, PrimFn::Print, vec![num(2, 1)]);
    assert_eq!(compile(&ctx, &program).err(), Some(CompileError::UnsolvedType(TermId(2))));
}

#[test]
fn the_first_error_is_reported() {
    let ctx = Context::new();
    let bad_print = prim(4, PrimFn::Print, vec![num(5, 1)]);
    let program = prim(1, PrimFn::BinOp(BinOp::Add), vec![var(2, 8), bad_print]);
    assert_eq!(compile(&ctx, &program).err(), Some(CompileError::UnboundLocal(LocalId(8))));
    let bad_print = prim(4, PrimFn::Print, vec![var(5, 9)]);
    let program = prim(1, PrimFn::BinOp(BinOp::Add), vec![bad_print, var(2, 8)]);
    assert_eq!(compile(&ctx, &program).err(), Some(CompileError::UnboundLocal(LocalId(9))));
    let program = term(
        1,
        TermKind::Cond(
            Box::new(boolean(2, true)),
            Box::new(prim(3, PrimFn::UnOp(UnOp::Neg), vec![])),
            Box::new(var(4, 8)),
        ),
    );
    assert_eq!(
        compile(&ctx, &program).err(),
        Some(CompileError::ArityMismatch(PrimFn::UnOp(UnOp::Neg)))
    );
}

#[test]
fn compiling_twice_gives_the_same_heap() {
    let mut ctx = Context::new();
    ctx.insert_type_info(TermId(5), Ty::Int);
    let call = term(5, TermKind::App(Box::new(var(6, 1)), vec![num(7, 41)]));
    let body = prim(2, PrimFn::BinOp(BinOp::Add), vec![var(3, 2), num(4, 1)]);
    let program = lambda(1, 1, vec![2], body, prim(8, PrimFn::Print, vec![call]));
    let first = compile(&ctx, &program).expect("the program compiles");
    let second = compile(&ctx, &program).expect("the program compiles");
    assert_eq!(first.heap(), second.heap());
    assert_eq!(first.heap().len(), 2);
}

#[test]
fn chunks_append_read_and_patch() {
    let mut chunk = Chunk::new();
    assert_eq!(chunk.len(), 0);
    assert_eq!(chunk.read(0), None);
    chunk.write(OpCode::Skip(usize::MAX));
    chunk.write(OpCode::Pop);
    assert_eq!(chunk.len(), 2);
    assert_eq!(chunk.read(0), Some(&OpCode::Skip(usize::MAX)));
    chunk.patch(0, OpCode::Skip(1));
    assert_eq!(chunk.read(0), Some(&OpCode::Skip(1)));
    assert_eq!(chunk.read(1), Some(&OpCode::Pop));
    assert_eq!(chunk.read(2), None);
    let copy = chunk.duplicate();
    assert_eq!(copy, chunk);
}

#[test]
fn functions_append_and_read() {
    let mut function = Function::new(3);
    assert_eq!(function.arity, 3);
    assert_eq!(function.read(0), None);
    function.write(OpCode::Return);
    assert_eq!(function.read(0), Some(&OpCode::Return));
    assert_eq!(function.read(1), None);
    assert_eq!(function.duplicate(), function);
}

#[test]
fn values_unwrap() {
    assert_eq!(Value::Int(-4).assert_int(), -4);
    assert_eq!(Value::FuncPtr(7).assert_ptr(), 7);
}

#[test]
fn types_clone() {
    let ty = Ty::Arrow(
        Box::new(Ty::Arrow(Box::new(Ty::Int), Box::new(Ty::Var(3)))),
        Box::new(Ty::Unit),
    );
    assert_eq!(ty.clone(), ty);
    assert_eq!(Ty::Bool.clone(), Ty::Bool);
}

#[test]
fn a_term_that_does_not_compile_leaves_nothing_behind() {
    let ctx = Context::new();
    let mut heap: Heap = vec![Function::new(0)];
    let mut compiler = Compiler::new(&ctx, &heap, 0, LocalId::main());
    compiler.compile(&mut heap, &num(1, 7)).expect("a literal compiles");
    let code = compiler.func.chunk.code.clone();
    let scope = compiler.locals.clone();
    let functions = heap.clone();

    // The error lies behind a binding, a lambda that compiles, and the first
    // branch of a conditional.
    let bad = term(
        20,
        TermKind::Cond(Box::new(boolean(21, true)), Box::new(num(22, 1)), Box::new(var(23, 99))),
    );
    let program = bind(10, 7, num(11, 1), lambda(12, 8, vec![9], var(13, 9), bad));
    assert_eq!(
        compiler.compile(&mut heap, &program),
        Err(CompileError::UnboundLocal(LocalId(99)))
    );
    assert_eq!(compiler.func.chunk.code, code);
    assert_eq!(compiler.locals, scope);
    assert_eq!(heap, functions);

    // The error lies in the body of a lambda.
    let program = lambda(30, 8, vec![9], var(31, 98), num(32, 0));
    assert_eq!(
        compiler.compile(&mut heap, &program),
        Err(CompileError::UnboundLocal(LocalId(98)))
    );
    assert_eq!(compiler.func.chunk.code, code);
    assert_eq!(compiler.locals, scope);
    assert_eq!(heap, functions);

    // What compiles next is as if nothing had failed.
    compiler.compile(&mut heap, &num(40, 8)).expect("a literal compiles");
    assert_eq!(compiler.func.chunk.code, vec![push_int(7), push_int(8)]);
}

#[test]
fn chunks_truncate() {
    let mut chunk = Chunk::new();
    chunk.write(OpCode::Pop);
    chunk.write(OpCode::Return);
    chunk.write(OpCode::Add);
    chunk.truncate(3);
    assert_eq!(chunk.len(), 3);
    chunk.truncate(1);
    assert_eq!(chunk.code, vec![OpCode::Pop]);
    chunk.truncate(0);
    assert_eq!(chunk.len(), 0);
}
