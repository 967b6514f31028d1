//! The compiler from terms to bytecode.
//!
//! What the compiler emits is stated twice. The spec functions [`emit`] and
//! [`check`] say, by recursion on the term, which opcodes and which functions
//! a term stands for and which error it holds, if any. [`Compiler`] is the
//! emitter itself: it appends to a function under construction, patches
//! forward jumps once their targets are known, and is proved to produce
//! exactly what the spec functions say.

use vstd::prelude::*;

use crate::bytecode::{heap_view, Function, FunctionView, Heap, OpCode, Value};
use crate::ir::{LocalId, PrimFn, RValue, RValueKind, Term, TermId, TermKind};
use crate::syntax::{BinOp, UnOp};
use crate::ty::{Context, Ty};

verus! {

/// Why a term cannot be compiled. Each of these is a fault of an earlier
/// stage: a well-scoped, well-typed term has none.
#[derive(Debug, Clone, Copy, PartialEq, Eq, Structural)]
pub enum CompileError {
    /// A variable refers to no binding in scope.
    UnboundLocal(LocalId),
    /// A primitive is applied to a number of arguments other than its arity.
    ArityMismatch(PrimFn),
    /// The context holds no type for the argument of a `print`.
    MissingType(TermId),
    /// The type of the argument of a `print` is an unsolved variable.
    UnsolvedType(TermId),
}

/// What a term compiles to: the opcodes appended to the current function and
/// the functions appended to the heap, one for each lambda in the term.
pub struct Emitted {
    pub code: Seq<OpCode>,
    pub funcs: Seq<FunctionView>,
}

impl Emitted {
    /// Nothing at all.
    pub open spec fn empty() -> Emitted {
        Emitted { code: Seq::empty(), funcs: Seq::empty() }
    }

    /// What `self` emits, followed by what `next` emits.
    pub open spec fn with(self, next: Emitted) -> Emitted {
        Emitted { code: self.code + next.code, funcs: self.funcs + next.funcs }
    }

    /// What `self` emits, followed by the given opcodes.
    pub open spec fn with_code(self, code: Seq<OpCode>) -> Emitted {
        Emitted { code: self.code + code, funcs: self.funcs }
    }
}

/// The stack slot of the innermost binding of `id`: the greatest index at
/// which `locals` holds it.
pub open spec fn resolve(locals: Seq<LocalId>, id: LocalId) -> Option<int>
    decreases locals.len(),
{
    if locals.len() == 0 {
        None
    } else if locals.last() == id {
        Some(locals.len() - 1)
    } else {
        resolve(locals.drop_last(), id)
    }
}

/// The opcode that prints a value of the given type.
pub open spec fn print_opcode(ty: Ty) -> Option<OpCode> {
    match ty {
        Ty::Int => Some(OpCode::PrintInt),
        Ty::Bool => Some(OpCode::PrintBool),
        Ty::Unit => Some(OpCode::PrintUnit),
        Ty::Arrow(_, _) => Some(OpCode::PrintFunc),
        Ty::Var(_) => None,
    }
}

/// The opcode of a unary operator.
pub open spec fn unop_opcode(op: UnOp) -> OpCode {
    match op {
        UnOp::Neg => OpCode::Neg,
        UnOp::Not => OpCode::Not,
    }
}

/// The opcode of a binary operator whose operands are both evaluated.
pub open spec fn binop_opcode(op: BinOp) -> OpCode {
    match op {
        BinOp::Add => OpCode::Add,
        BinOp::Sub => OpCode::Sub,
        BinOp::Mul => OpCode::Mul,
        BinOp::Div => OpCode::Div,
        BinOp::Rem => OpCode::Rem,
        BinOp::And => OpCode::And,
        BinOp::Or => OpCode::Or,
        BinOp::BitAnd => OpCode::BitAnd,
        BinOp::BitOr => OpCode::BitOr,
        BinOp::BitXor => OpCode::BitXor,
        BinOp::Shr => OpCode::Shr,
        BinOp::Shl => OpCode::Shl,
        BinOp::Eq => OpCode::Eq,
        BinOp::Neq => OpCode::Neq,
        BinOp::Lt => OpCode::Lt,
        BinOp::Gt => OpCode::Gt,
        BinOp::Lte => OpCode::Lte,
        BinOp::Gte => OpCode::Gte,
    }
}

/// Whether the primitive is one of the two logical operators, which evaluate
/// their second operand only when the first does not decide the result.
pub open spec fn short_circuits(prim: PrimFn) -> bool {
    prim == PrimFn::BinOp(BinOp::And) || prim == PrimFn::BinOp(BinOp::Or)
}

/// The error in the choice of the opcode for `print` on the term `arg`.
pub open spec fn check_print(ctx: Map<TermId, Ty>, arg: TermId) -> Option<CompileError> {
    if !ctx.contains_key(arg) {
        Some(CompileError::MissingType(arg))
    } else if print_opcode(ctx[arg]) is None {
        Some(CompileError::UnsolvedType(arg))
    } else {
        None
    }
}

/// The opcode that ends the application of a primitive whose arguments are
/// all evaluated first. (Where the type of the argument of a `print` is
/// unsolved, which is an error, it is `PrintUnit`.)
pub open spec fn prim_opcode(ctx: Map<TermId, Ty>, prim: PrimFn, args: Seq<Term>) -> OpCode {
    match prim {
        PrimFn::Print => match print_opcode(ctx[args[0].id]) {
            Some(opcode) => opcode,
            None => OpCode::PrintUnit,
        },
        PrimFn::UnOp(op) => unop_opcode(op),
        PrimFn::BinOp(op) => binop_opcode(op),
    }
}

/// The first error that compiling a term meets, in the order in which the
/// compiler walks it; `None` if the term compiles.
///
/// `locals` is the scope: the bindings around the term, outermost first.
pub open spec fn check(ctx: Map<TermId, Ty>, locals: Seq<LocalId>, kind: TermKind) -> Option<
    CompileError,
>
    decreases kind,
{
    match kind {
        TermKind::Lit(_) => None,
        TermKind::Var(id) => if resolve(locals, id) is Some {
            None
        } else {
            Some(CompileError::UnboundLocal(id))
        },
        TermKind::PrimApp(prim, args) => if args@.len() != prim.arity() {
            Some(CompileError::ArityMismatch(prim))
        } else {
            match check_prefix(ctx, locals, args@, args@.len()) {
                Some(e) => Some(e),
                None => if prim == PrimFn::Print {
                    check_print(ctx, args@[0].id)
                } else {
                    None
                },
            }
        },
        TermKind::Let(_, lhs, rhs, tail) => match check_rvalue(ctx, locals.push(lhs), lhs, *rhs) {
            Some(e) => Some(e),
            None => check(ctx, locals.push(lhs), tail.kind),
        },
        TermKind::App(func, args) => match check(ctx, locals, func.kind) {
            Some(e) => Some(e),
            None => check_prefix(ctx, locals, args@, args@.len()),
        },
        TermKind::Cond(if_term, do_term, else_term) => match check(ctx, locals, if_term.kind) {
            Some(e) => Some(e),
            None => match check(ctx, locals, do_term.kind) {
                Some(e) => Some(e),
                None => check(ctx, locals, else_term.kind),
            },
        },
    }
}

/// The first error among the first `n` of `terms`.
pub open spec fn check_prefix(
    ctx: Map<TermId, Ty>,
    locals: Seq<LocalId>,
    terms: Seq<Term>,
    n: nat,
) -> Option<CompileError>
    decreases terms, n,
{
    if n == 0 || n > terms.len() {
        None
    } else {
        match check_prefix(ctx, locals, terms, (n - 1) as nat) {
            Some(e) => Some(e),
            None => check(ctx, locals, terms[n - 1].kind),
        }
    }
}

/// The first error in the right-hand side of a `let` that binds `lhs`.
///
/// A lambda sees only itself, in slot 0, and its parameters.
pub open spec fn check_rvalue(
    ctx: Map<TermId, Ty>,
    locals: Seq<LocalId>,
    lhs: LocalId,
    rvalue: RValue,
) -> Option<CompileError>
    decreases rvalue,
{
    match rvalue.kind {
        RValueKind::Term(kind) => check(ctx, locals, kind),
        RValueKind::Abs(args, body) => check(ctx, seq![lhs] + args@, body.kind),
    }
}

/// What a term compiles to in the scope `locals`, when the next free index of
/// the heap is `base`.
///
/// Jumps are relative and forward, so the opcodes do not depend on where in
/// its function the term stands.
pub open spec fn emit(ctx: Map<TermId, Ty>, locals: Seq<LocalId>, base: nat, kind: TermKind) -> Emitted
    decreases kind,
{
    match kind {
        TermKind::Lit(lit) => Emitted::empty().with_code(
            seq![OpCode::Push(Value::Int(lit.encoding()))],
        ),
        TermKind::Var(id) => Emitted::empty().with_code(
            seq![OpCode::Local(resolve(locals, id).unwrap() as usize)],
        ),
        TermKind::PrimApp(prim, args) => if short_circuits(prim) && args@.len() == 2 {
            let first = emit(ctx, locals, base, args@[0].kind);
            let second = emit(ctx, locals, base + first.funcs.len(), args@[1].kind);
            let skip = (second.code.len() + 1) as usize;
            let jump = if prim == PrimFn::BinOp(BinOp::And) {
                OpCode::JumpIfFalse(skip)
            } else {
                OpCode::JumpIfTrue(skip)
            };
            first.with_code(seq![jump, OpCode::Pop]).with(second)
        } else {
            emit_prefix(ctx, locals, base, args@, args@.len()).with_code(
                seq![prim_opcode(ctx, prim, args@)],
            )
        },
        TermKind::Let(_, lhs, rhs, tail) => {
            let bound = emit_rvalue(ctx, locals.push(lhs), base, lhs, *rhs);
            bound.with(emit(ctx, locals.push(lhs), base + bound.funcs.len(), tail.kind))
        },
        TermKind::App(func, args) => {
            let callee = emit(ctx, locals, base, func.kind);
            callee.with(emit_prefix(ctx, locals, base + callee.funcs.len(), args@, args@.len()))
                .with_code(seq![OpCode::Call(args@.len() as usize)])
        },
        TermKind::Cond(if_term, do_term, else_term) => {
            let cond = emit(ctx, locals, base, if_term.kind);
            let taken = emit(ctx, locals, base + cond.funcs.len(), do_term.kind);
            let other = emit(
                ctx,
                locals,
                base + cond.funcs.len() + taken.funcs.len(),
                else_term.kind,
            );
            cond.with_code(
                seq![OpCode::JumpIfFalse((taken.code.len() + 2) as usize), OpCode::Pop],
            ).with(taken).with_code(
                seq![OpCode::Skip((other.code.len() + 1) as usize), OpCode::Pop],
            ).with(other)
        },
    }
}

/// What the first `n` of `terms` compile to, one after the other.
pub open spec fn emit_prefix(
    ctx: Map<TermId, Ty>,
    locals: Seq<LocalId>,
    base: nat,
    terms: Seq<Term>,
    n: nat,
) -> Emitted
    decreases terms, n,
{
    if n == 0 || n > terms.len() {
        Emitted::empty()
    } else {
        let init = emit_prefix(ctx, locals, base, terms, (n - 1) as nat);
        init.with(emit(ctx, locals, base + init.funcs.len(), terms[n - 1].kind))
    }
}

/// What the right-hand side of a `let` that binds `lhs` compiles to.
///
/// A lambda becomes the function at index `base`, followed by the functions
/// of the lambdas in its body; in the current function it is the constant
/// that points to it.
pub open spec fn emit_rvalue(
    ctx: Map<TermId, Ty>,
    locals: Seq<LocalId>,
    base: nat,
    lhs: LocalId,
    rvalue: RValue,
) -> Emitted
    decreases rvalue,
{
    match rvalue.kind {
        RValueKind::Term(kind) => emit(ctx, locals, base, kind),
        RValueKind::Abs(args, body) => {
            let inner = emit(ctx, seq![lhs] + args@, base + 1, body.kind);
            Emitted {
                code: seq![OpCode::Push(Value::FuncPtr(base as usize))],
                funcs: seq![
                    FunctionView { arity: args@.len() as usize, code: inner.code.push(OpCode::Return) },
                ] + inner.funcs,
            }
        },
    }
}

/// Whether the heap `after` still holds every function of the heap `before`,
/// each at its index.
pub open spec fn keeps(after: Seq<Function>, before: Seq<Function>) -> bool {
    &&& before.len() <= after.len()
    &&& forall|i: int| 0 <= i < before.len() ==> (#[trigger] after[i])@ == before[i]@
}

/// How the compiler and the heap stand after a step that emits `emitted` on
/// success and meets `error` on failure.
///
/// On success the scope is what it was, the current function has grown by the
/// emitted opcodes and the heap by the emitted functions. On failure nothing
/// has changed: no opcode, no binding and no function of the failing term is
/// handed on. Whatever the outcome, the functions that were in the heap are
/// untouched.
pub open spec fn advanced(
    before: Compiler,
    after: Compiler,
    heap_before: Seq<Function>,
    heap_after: Seq<Function>,
    emitted: Emitted,
    error: Option<CompileError>,
    outcome: Result<(), CompileError>,
) -> bool {
    &&& after.ctx == before.ctx
    &&& after.func@.arity == before.func@.arity
    &&& keeps(heap_after, heap_before)
    &&& match outcome {
        Ok(()) => {
            &&& error is None
            &&& after.locals@ == before.locals@
            &&& after.func@.code == before.func@.code + emitted.code
            &&& heap_after.len() == heap_before.len() + emitted.funcs.len()
            &&& heap_view(heap_after) == heap_view(heap_before) + emitted.funcs
        },
        Err(e) => {
            &&& error == Some(e)
            &&& after.locals@ == before.locals@
            &&& after.func@.code == before.func@.code
            &&& heap_after.len() == heap_before.len()
            &&& heap_view(heap_after) == heap_view(heap_before)
        },
    }
}

/// How the compiler and the heap stand after a step that has not yet been
/// undone where it failed: as [`advanced`] says, but that on failure the
/// current function, the scope and the heap may have grown by what the step
/// emitted before it met the error.
pub open spec fn attempted(
    before: Compiler,
    after: Compiler,
    heap_before: Seq<Function>,
    heap_after: Seq<Function>,
    emitted: Emitted,
    error: Option<CompileError>,
    outcome: Result<(), CompileError>,
) -> bool {
    match outcome {
        Ok(()) => advanced(before, after, heap_before, heap_after, emitted, error, outcome),
        Err(e) => {
            &&& error == Some(e)
            &&& after.ctx == before.ctx
            &&& after.func@.arity == before.func@.arity
            &&& keeps(heap_after, heap_before)
            &&& before.locals@.is_prefix_of(after.locals@)
            &&& before.func@.code.is_prefix_of(after.func@.code)
        },
    }
}

/// How the compiler and the heap stand after compiling a term, given how they
/// stood before: the term's opcodes and functions have been emitted, or the
/// outcome is the first error that the term holds and nothing has changed.
pub open spec fn compiled(
    before: Compiler,
    after: Compiler,
    heap_before: Seq<Function>,
    heap_after: Seq<Function>,
    kind: TermKind,
    outcome: Result<(), CompileError>,
) -> bool {
    advanced(
        before,
        after,
        heap_before,
        heap_after,
        emit(before.ctx@, before.locals@, heap_before.len(), kind),
        check(before.ctx@, before.locals@, kind),
        outcome,
    )
}

/// [`compiled`], but that a failure has not yet been undone.
pub open spec fn tried(
    before: Compiler,
    after: Compiler,
    heap_before: Seq<Function>,
    heap_after: Seq<Function>,
    kind: TermKind,
    outcome: Result<(), CompileError>,
) -> bool {
    attempted(
        before,
        after,
        heap_before,
        heap_after,
        emit(before.ctx@, before.locals@, heap_before.len(), kind),
        check(before.ctx@, before.locals@, kind),
        outcome,
    )
}

/// The emitter for one function.
pub struct Compiler<'ctx> {
    /// The types of the terms.
    pub ctx: &'ctx Context,
    /// The function under construction.
    pub func: Function,
    /// The scope: the bindings around the current term, outermost first. The
    /// binding at index `i` lives in slot `i` of the function's frame.
    pub locals: Vec<LocalId>,
}

impl<'ctx> Compiler<'ctx> {
    /// A compiler for the function in slot `ptr` of the heap, which knows
    /// itself as `local_id`.
    pub fn new(ctx: &'ctx Context, heap: &Heap, ptr: usize, local_id: LocalId) -> (compiler: Self)
        requires
            ptr < heap.len(),
        ensures
            compiler.ctx == ctx,
            compiler.func@ == heap[ptr as int]@,
            compiler.locals@ == seq![local_id],
    {
        let func = heap[ptr].duplicate();
        let mut locals: Vec<LocalId> = Vec::new();
        locals.push(local_id);
        Compiler { ctx, func, locals }
    }

    /// The slot of the innermost binding of `id` in scope.
    pub fn lookup(&self, id: LocalId) -> (slot: Option<usize>)
        ensures
            match slot {
                Some(index) => resolve(self.locals@, id) == Some(index as int),
                None => resolve(self.locals@, id) is None,
            },
    {
        let mut index: usize = self.locals.len();
        assert(self.locals@.take(index as int) == self.locals@);
        while index > 0
            invariant
                index <= self.locals.len(),
                resolve(self.locals@, id) == resolve(self.locals@.take(index as int), id),
            decreases index,
        {
            index -= 1;
            assert(self.locals@.take(index + 1).drop_last() == self.locals@.take(index as int));
            if self.locals[index] == id {
                return Some(index);
            }
        }
        None
    }

    /// Compiles a term into the current function.
    pub fn compile(&mut self, heap: &mut Heap, term: &Term) -> (outcome: Result<(), CompileError>)
        ensures
            compiled(*old(self), *final(self), old(heap)@, final(heap)@, term.kind, outcome),
        decreases term,
    {
        self.compile_kind(heap, &term.kind)
    }

    /// Compiles the right-hand side of the `let` that binds `local_id`.
    pub fn compile_rvalue(&mut self, heap: &mut Heap, local_id: LocalId, rvalue: &RValue) -> (outcome:
        Result<(), CompileError>)
        ensures
            advanced(
                *old(self),
                *final(self),
                old(heap)@,
                final(heap)@,
                emit_rvalue(old(self).ctx@, old(self).locals@, old(heap)@.len(), local_id, *rvalue),
                check_rvalue(old(self).ctx@, old(self).locals@, local_id, *rvalue),
                outcome,
            ),
        decreases rvalue,
    {
        match &rvalue.kind {
            RValueKind::Term(kind) => self.compile_kind(heap, kind),
            RValueKind::Abs(args, body) => {
                let function = Function::new(args.len());
                let ptr = heap.len();
                heap.push(function);

                let mut compiler = Compiler::new(self.ctx, heap, ptr, local_id);
                let mut i: usize = 0;
                while i < args.len()
                    invariant
                        i <= args.len(),
                        compiler.ctx == self.ctx,
                        compiler.func@ == (FunctionView { arity: args.len(), code: Seq::empty() }),
                        compiler.locals@ == seq![local_id] + args@.take(i as int),
                    decreases args.len() - i,
                {
                    compiler.locals.push(args[i]);
                    i += 1;
                }
                assert(args@.take(args.len() as int) == args@);
                match compiler.compile(heap, body) {
                    Err(e) => {
                        heap.truncate(ptr);
                        assert(heap_view(heap@) =~= heap_view(old(heap)@));
                        return Err(e);
                    },
                    Ok(()) => {},
                }
                compiler.func.write(OpCode::Return);
                let ghost built = compiler.func@;
                for _unused in 0..args.len()
                    invariant
                        compiler.func@ == built,
                {
                    compiler.locals.pop();
                }

                let func = compiler.func;
                let ghost grown = heap@;
                heap[ptr] = func;
                self.func.write(OpCode::Push(Value::FuncPtr(ptr)));
                proof {
                    let inner = emit(self.ctx@, seq![local_id] + args@, (ptr + 1) as nat, body.kind);
                    let emitted = emit_rvalue(
                        self.ctx@,
                        old(self).locals@,
                        old(heap)@.len(),
                        local_id,
                        *rvalue,
                    );
                    let target = heap_view(old(heap)@) + emitted.funcs;
                    assert forall|i: int| 0 <= i < heap@.len() implies heap_view(heap@)[i]
                        == target[i] by {
                        if i < ptr {
                        } else if i > ptr {
                            assert(heap_view(grown)[i] == inner.funcs[i - ptr - 1]);
                        } else {
                        }
                    }
                    assert(heap_view(heap@) =~= heap_view(old(heap)@) + emitted.funcs);
                    assert(self.func@.code =~= old(self).func@.code + emitted.code);
                }
                Ok(())
            },
        }
    }

    /// Compiles every term of `terms`, in order.
    fn compile_all(&mut self, heap: &mut Heap, terms: &Vec<Term>) -> (outcome: Result<
        (),
        CompileError,
    >)
        ensures
            attempted(
                *old(self),
                *final(self),
                old(heap)@,
                final(heap)@,
                emit_prefix(old(self).ctx@, old(self).locals@, old(heap)@.len(), terms@, terms@.len()),
                check_prefix(old(self).ctx@, old(self).locals@, terms@, terms@.len()),
                outcome,
            ),
        decreases terms,
    {
        let ghost ctx = self.ctx@;
        let ghost locals = self.locals@;
        let ghost base = heap@.len();
        let mut i: usize = 0;
        while i < terms.len()
            invariant
                i <= terms.len(),
                ctx == old(self).ctx@,
                locals == old(self).locals@,
                base == old(heap)@.len(),
                advanced(
                    *old(self),
                    *self,
                    old(heap)@,
                    heap@,
                    emit_prefix(ctx, locals, base, terms@, i as nat),
                    check_prefix(ctx, locals, terms@, i as nat),
                    Ok(()),
                ),
            decreases terms.len() - i,
        {
            let ghost init = emit_prefix(ctx, locals, base, terms@, i as nat);
            match self.compile(heap, &terms[i]) {
                Err(e) => {
                    proof {
                        lemma_check_prefix_stops(ctx, locals, terms@, (i + 1) as nat, terms@.len());
                    }
                    return Err(e);
                },
                Ok(()) => {},
            }
            proof {
                let next = emit(ctx, locals, base + init.funcs.len(), terms@[i as int].kind);
                assert(self.func@.code =~= old(self).func@.code + init.with(next).code);
                assert(heap_view(heap@) =~= heap_view(old(heap)@) + init.with(next).funcs);
            }
            i += 1;
        }
        Ok(())
    }

    /// Compiles a term of the given shape into the current function. Where
    /// the term holds an error, what was emitted of it is taken back.
    fn compile_kind(&mut self, heap: &mut Heap, kind: &TermKind) -> (outcome: Result<
        (),
        CompileError,
    >)
        ensures
            compiled(*old(self), *final(self), old(heap)@, final(heap)@, *kind, outcome),
        decreases kind, 2nat,
    {
        let code_len = self.func.chunk.len();
        let scope_len = self.locals.len();
        let heap_len = heap.len();
        match self.compile_shape(heap, kind) {
            Ok(()) => Ok(()),
            Err(e) => {
                self.func.chunk.truncate(code_len);
                self.locals.truncate(scope_len);
                heap.truncate(heap_len);
                proof {
                    assert(self.locals@ =~= old(self).locals@);
                    assert(self.func@.code =~= old(self).func@.code);
                    assert(heap_view(heap@) =~= heap_view(old(heap)@));
                }
                Err(e)
            },
        }
    }

    /// Compiles a term of the given shape into the current function, and
    /// stops where it meets an error.
    fn compile_shape(&mut self, heap: &mut Heap, kind: &TermKind) -> (outcome: Result<
        (),
        CompileError,
    >)
        ensures
            tried(*old(self), *final(self), old(heap)@, final(heap)@, *kind, outcome),
        decreases kind, 1nat,
    {
        match kind {
            TermKind::Lit(lit) => {
                self.func.write(OpCode::Push(Value::Int(lit.encode())));
                proof {
                    let emitted = emit(self.ctx@, self.locals@, heap@.len(), *kind);
                    assert(self.func@.code =~= old(self).func@.code + emitted.code);
                }
                Ok(())
            },
            TermKind::Var(id) => {
                match self.lookup(*id) {
                    Some(index) => {
                        self.func.write(OpCode::Local(index));
                        proof {
                            let emitted = emit(self.ctx@, self.locals@, heap@.len(), *kind);
                            assert(self.func@.code =~= old(self).func@.code + emitted.code);
                        }
                        Ok(())
                    },
                    None => Err(CompileError::UnboundLocal(*id)),
                }
            },
            TermKind::PrimApp(prim, args) => {
                if args.len() != prim.arity() {
                    return Err(CompileError::ArityMismatch(*prim));
                }
                match prim {
                    PrimFn::BinOp(BinOp::And) => self.compile_short_circuit(heap, kind, true),
                    PrimFn::BinOp(BinOp::Or) => self.compile_short_circuit(heap, kind, false),
                    _ => self.compile_strict(heap, kind),
                }
            },
            TermKind::Let(_, _, _, _) => self.compile_let(heap, kind),
            TermKind::App(_, _) => self.compile_app(heap, kind),
            TermKind::Cond(_, _, _) => self.compile_cond(heap, kind),
        }
    }

    /// Compiles `a && b` (`and` is true) or `a || b`: the second operand
    /// runs only when the first has not decided the result.
    fn compile_short_circuit(&mut self, heap: &mut Heap, kind: &TermKind, and: bool) -> (outcome:
        Result<(), CompileError>)
        requires
            *kind matches TermKind::PrimApp(prim, args) && args@.len() == 2 && prim == (if and {
                PrimFn::BinOp(BinOp::And)
            } else {
                PrimFn::BinOp(BinOp::Or)
            }),
        ensures
            tried(*old(self), *final(self), old(heap)@, final(heap)@, *kind, outcome),
        decreases kind, 0nat,
    {
        let ghost ctx = self.ctx@;
        let ghost locals = self.locals@;
        let ghost base = heap@.len();
        match kind {
            TermKind::PrimApp(_, args) => {
                assert(check_prefix(ctx, locals, args@, 0) is None);
                match self.compile(heap, &args[0]) {
                    Err(e) => {
                        return Err(e);
                    },
                    Ok(()) => {},
                }
                assert(check_prefix(ctx, locals, args@, 1) is None);
                if and {
                    self.func.write(OpCode::JumpIfFalse(usize::MAX));
                } else {
                    self.func.write(OpCode::JumpIfTrue(usize::MAX));
                }

                let start_arg_1 = self.func.chunk.len();
                self.func.write(OpCode::Pop);
                match self.compile(heap, &args[1]) {
                    Err(e) => {
                        return Err(e);
                    },
                    Ok(()) => {},
                }
                assert(check_prefix(ctx, locals, args@, 2) is None);
                let end_arg_1 = self.func.chunk.len();

                let jump = if and {
                    OpCode::JumpIfFalse(end_arg_1 - start_arg_1)
                } else {
                    OpCode::JumpIfTrue(end_arg_1 - start_arg_1)
                };
                self.func.chunk.patch(start_arg_1 - 1, jump);
                proof {
                    let emitted = emit(ctx, locals, base, *kind);
                    assert(self.func@.code =~= old(self).func@.code + emitted.code);
                    assert(heap_view(heap@) =~= heap_view(old(heap)@) + emitted.funcs);
                }
                Ok(())
            },
            _ => Ok(()),
        }
    }

    /// Compiles the application of a primitive that evaluates all of its
    /// arguments: they come first, left to right, and its opcode last.
    fn compile_strict(&mut self, heap: &mut Heap, kind: &TermKind) -> (outcome: Result<
        (),
        CompileError,
    >)
        requires
            *kind matches TermKind::PrimApp(prim, args) && args@.len() == prim.arity()
                && !short_circuits(prim),
        ensures
            tried(*old(self), *final(self), old(heap)@, final(heap)@, *kind, outcome),
        decreases kind, 0nat,
    {
        match kind {
            TermKind::PrimApp(prim, args) => {
                match self.compile_all(heap, args) {
                    Err(e) => {
                        return Err(e);
                    },
                    Ok(()) => {},
                }
                let opcode = match prim {
                    PrimFn::Print => {
                        let arg = args[0].id;
                        match self.ctx.get_type_info(arg) {
                            None => {
                                return Err(CompileError::MissingType(arg));
                            },
                            Some(ty) => match ty {
                                Ty::Int => OpCode::PrintInt,
                                Ty::Bool => OpCode::PrintBool,
                                Ty::Unit => OpCode::PrintUnit,
                                Ty::Arrow(_, _) => OpCode::PrintFunc,
                                Ty::Var(_) => {
                                    return Err(CompileError::UnsolvedType(arg));
                                },
                            },
                        }
                    },
                    PrimFn::UnOp(op) => Self::unop(*op),
                    PrimFn::BinOp(op) => Self::binop(*op),
                };
                self.func.write(opcode);
                proof {
                    let emitted = emit(self.ctx@, old(self).locals@, old(heap)@.len(), *kind);
                    assert(self.func@.code =~= old(self).func@.code + emitted.code);
                }
                Ok(())
            },
            _ => Ok(()),
        }
    }

    /// Compiles a `let`: the binding enters the scope, its right-hand side
    /// fills its slot, and the rest follows.
    fn compile_let(&mut self, heap: &mut Heap, kind: &TermKind) -> (outcome: Result<
        (),
        CompileError,
    >)
        requires
            kind is Let,
        ensures
            tried(*old(self), *final(self), old(heap)@, final(heap)@, *kind, outcome),
        decreases kind, 0nat,
    {
        match kind {
            TermKind::Let(_, lhs_id, rhs, tail) => {
                self.locals.push(*lhs_id);
                match self.compile_rvalue(heap, *lhs_id, rhs) {
                    Err(e) => {
                        return Err(e);
                    },
                    Ok(()) => {},
                }
                match self.compile(heap, tail) {
                    Err(e) => {
                        return Err(e);
                    },
                    Ok(()) => {},
                }
                self.locals.pop();
                proof {
                    let emitted = emit(self.ctx@, old(self).locals@, old(heap)@.len(), *kind);
                    assert(self.locals@ =~= old(self).locals@);
                    assert(self.func@.code =~= old(self).func@.code + emitted.code);
                    assert(heap_view(heap@) =~= heap_view(old(heap)@) + emitted.funcs);
                }
                Ok(())
            },
            _ => Ok(()),
        }
    }

    /// Compiles a call: the callee, its arguments in order, and the call.
    fn compile_app(&mut self, heap: &mut Heap, kind: &TermKind) -> (outcome: Result<
        (),
        CompileError,
    >)
        requires
            kind is App,
        ensures
            tried(*old(self), *final(self), old(heap)@, final(heap)@, *kind, outcome),
        decreases kind, 0nat,
    {
        match kind {
            TermKind::App(func, args) => {
                match self.compile(heap, func) {
                    Err(e) => {
                        return Err(e);
                    },
                    Ok(()) => {},
                }
                match self.compile_all(heap, args) {
                    Err(e) => {
                        return Err(e);
                    },
                    Ok(()) => {},
                }
                self.func.write(OpCode::Call(args.len()));
                proof {
                    let emitted = emit(self.ctx@, old(self).locals@, old(heap)@.len(), *kind);
                    assert(self.func@.code =~= old(self).func@.code + emitted.code);
                    assert(heap_view(heap@) =~= heap_view(old(heap)@) + emitted.funcs);
                }
                Ok(())
            },
            _ => Ok(()),
        }
    }

    /// Compiles a conditional. The jump over the first branch and the jump at
    /// its end over the second are written with a placeholder and patched once
    /// the code they span is known.
    fn compile_cond(&mut self, heap: &mut Heap, kind: &TermKind) -> (outcome: Result<
        (),
        CompileError,
    >)
        requires
            kind is Cond,
        ensures
            tried(*old(self), *final(self), old(heap)@, final(heap)@, *kind, outcome),
        decreases kind, 0nat,
    {
        match kind {
            TermKind::Cond(if_term, do_term, else_term) => {
                match self.compile(heap, if_term) {
                    Err(e) => {
                        return Err(e);
                    },
                    Ok(()) => {},
                }
                self.func.write(OpCode::JumpIfFalse(usize::MAX));

                let start_do = self.func.chunk.len();
                self.func.write(OpCode::Pop);
                match self.compile(heap, do_term) {
                    Err(e) => {
                        return Err(e);
                    },
                    Ok(()) => {},
                }
                self.func.write(OpCode::Skip(usize::MAX));
                let end_do = self.func.chunk.len();
                self.func.write(OpCode::Pop);

                self.func.chunk.patch(start_do - 1, OpCode::JumpIfFalse(end_do - start_do));

                let start_else = end_do;
                match self.compile(heap, else_term) {
                    Err(e) => {
                        return Err(e);
                    },
                    Ok(()) => {},
                }
                let end_else = self.func.chunk.len();

                self.func.chunk.patch(start_else - 1, OpCode::Skip(end_else - start_else));
                proof {
                    let emitted = emit(self.ctx@, old(self).locals@, old(heap)@.len(), *kind);
                    assert(self.func@.code =~= old(self).func@.code + emitted.code);
                    assert(heap_view(heap@) =~= heap_view(old(heap)@) + emitted.funcs);
                }
                Ok(())
            },
            _ => Ok(()),
        }
    }

    /// The opcode of a unary operator.
    fn unop(op: UnOp) -> (opcode: OpCode)
        ensures
            opcode == unop_opcode(op),
    {
        match op {
            UnOp::Neg => OpCode::Neg,
            UnOp::Not => OpCode::Not,
        }
    }

    /// The opcode of a binary operator whose operands are both evaluated.
    fn binop(op: BinOp) -> (opcode: OpCode)
        ensures
            opcode == binop_opcode(op),
    {
        match op {
            BinOp::Add => OpCode::Add,
            BinOp::Sub => OpCode::Sub,
            BinOp::Mul => OpCode::Mul,
            BinOp::Div => OpCode::Div,
            BinOp::Rem => OpCode::Rem,
            BinOp::And => OpCode::And,
            BinOp::Or => OpCode::Or,
            BinOp::BitAnd => OpCode::BitAnd,
            BinOp::BitOr => OpCode::BitOr,
            BinOp::BitXor => OpCode::BitXor,
            BinOp::Shr => OpCode::Shr,
            BinOp::Shl => OpCode::Shl,
            BinOp::Eq => OpCode::Eq,
            BinOp::Neq => OpCode::Neq,
            BinOp::Lt => OpCode::Lt,
            BinOp::Gt => OpCode::Gt,
            BinOp::Lte => OpCode::Lte,
            BinOp::Gte => OpCode::Gte,
        }
    }
}

/// An error among the first `n` terms is the error among the first `m`, for
/// every `m` from `n` on.
proof fn lemma_check_prefix_stops(
    ctx: Map<TermId, Ty>,
    locals: Seq<LocalId>,
    terms: Seq<Term>,
    n: nat,
    m: nat,
)
    requires
        n <= m <= terms.len(),
        check_prefix(ctx, locals, terms, n) is Some,
    ensures
        check_prefix(ctx, locals, terms, m) == check_prefix(ctx, locals, terms, n),
    decreases m,
{
    if n < m {
        lemma_check_prefix_stops(ctx, locals, terms, n, (m - 1) as nat);
    }
}

} // verus!
