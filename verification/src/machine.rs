//! From a term to what running it writes: the compiler and the virtual
//! machine, one after the other.

use vstd::prelude::*;

use crate::bytecode::{heap_view, Function, FunctionView, Heap};
use crate::compiler::{check, emit, CompileError, Compiler};
use crate::correctness::sized;
use crate::interpreter::Interpreter;
use crate::ir::{LocalId, Term, TermId};
use crate::semantics::{Run, State, Status};
use crate::ty::{Context, Ty};

verus! {

/// The heap that a program compiles to: the top-level function, which takes
/// no argument and whose body is the program, at index 0, and after it one
/// function for each lambda of the program.
pub open spec fn program(ctx: Map<TermId, Ty>, term: Term) -> Seq<FunctionView> {
    let emitted = emit(ctx, seq![LocalId::main()], 1, term.kind);
    seq![FunctionView { arity: 0, code: emitted.code }] + emitted.funcs
}

/// The first error that compiling a program meets, if it meets one.
pub open spec fn program_error(ctx: Map<TermId, Ty>, term: Term) -> Option<CompileError> {
    check(ctx, seq![LocalId::main()], term.kind)
}

/// The run of at most `fuel` steps of a program that compiles.
pub open spec fn execution(ctx: Map<TermId, Ty>, term: Term, fuel: nat) -> Run {
    crate::semantics::run(State::initial(program(ctx, term), 0), fuel)
}

/// Compiles a program to a fresh heap, with the top-level function at index 0.
fn compile_heap(ctx: &Context, term: &Term) -> (outcome: Result<Heap, CompileError>)
    ensures
        match outcome {
            Ok(heap) => {
                &&& program_error(ctx@, *term) is None
                &&& heap_view(heap@) == program(ctx@, *term)
                &&& sized(program(ctx@, *term))
            },
            Err(e) => program_error(ctx@, *term) == Some(e),
        },
{
    let main = Function::new(0);
    let mut heap: Heap = Vec::new();
    heap.push(main);
    let mut compiler = Compiler::new(ctx, &heap, 0, LocalId::main());
    match compiler.compile(&mut heap, term) {
        Err(e) => {
            return Err(e);
        },
        Ok(()) => {},
    }
    let ghost grown = heap@;
    heap[0] = compiler.func;
    proof {
        let emitted = emit(ctx@, seq![LocalId::main()], 1, term.kind);
        assert forall|i: int| 0 <= i < heap@.len() implies heap_view(heap@)[i] == program(
            ctx@,
            *term,
        )[i] by {
            if i > 0 {
                assert(heap_view(grown)[i] == emitted.funcs[i - 1]);
            }
        }
        assert(heap_view(heap@) =~= program(ctx@, *term));
        assert forall|i: int| 0 <= i < heap@.len() implies (#[trigger] heap_view(heap@)[i]).code.len()
            <= usize::MAX by {
            assert(heap@[i].chunk.code.len() == heap@[i].chunk.code@.len());
        }
        assert(heap.len() == heap@.len());
    }
    Ok(heap)
}

/// Whether `outcome` is what compiling the program gives: a machine that
/// holds the program's heap and is about to run its top-level function, or
/// the first error of the program. Machine integers can count the functions
/// of a heap that exists, and the opcodes of each.
pub open spec fn compiles_to(
    ctx: Map<TermId, Ty>,
    term: Term,
    outcome: Result<Interpreter, CompileError>,
) -> bool {
    match outcome {
        Ok(interpreter) => {
            &&& program_error(ctx, term) is None
            &&& sized(program(ctx, term))
            &&& interpreter@ == State::initial(program(ctx, term), 0)
            &&& interpreter.wf()
        },
        Err(e) => program_error(ctx, term) == Some(e),
    }
}

/// Compiles a program and loads it into a virtual machine that is about to
/// run it.
pub fn compile(ctx: &Context, term: &Term) -> (outcome: Result<Interpreter, CompileError>)
    ensures
        compiles_to(ctx@, *term, outcome),
{
    match compile_heap(ctx, term) {
        Ok(heap) => {
            Ok(Interpreter::new(0, heap))
        },
        Err(e) => Err(e),
    }
}

/// Compiles a program, runs it for at most `fuel` steps, and appends to `out`
/// what it writes. A program that does not compile writes nothing.
pub fn run(ctx: &Context, term: &Term, fuel: u64, out: &mut Vec<u8>) -> (outcome: Result<
    Status,
    CompileError,
>)
    ensures
        match outcome {
            Ok(status) => {
                &&& program_error(ctx@, *term) is None
                &&& status == execution(ctx@, *term, fuel as nat).status
                &&& final(out)@ == old(out)@ + execution(ctx@, *term, fuel as nat).output
            },
            Err(e) => program_error(ctx@, *term) == Some(e) && final(out)@ == old(out)@,
        },
{
    match compile(ctx, term) {
        Ok(mut interpreter) => Ok(interpreter.run(fuel, out)),
        Err(e) => Err(e),
    }
}

/// A machine that evaluates programs against one context, allows each of
/// them the same number of steps, and keeps all that they write.
pub struct Machine {
    ctx: Context,
    fuel: u64,
    output: Vec<u8>,
}

impl Machine {
    /// The types that the machine compiles against.
    pub closed spec fn context(&self) -> Map<TermId, Ty> {
        self.ctx@
    }

    /// The number of steps that each program is allowed.
    pub closed spec fn fuel(&self) -> nat {
        self.fuel as nat
    }

    /// All that the programs evaluated so far have written.
    pub closed spec fn written(&self) -> Seq<u8> {
        self.output@
    }

    /// A machine that has evaluated nothing yet.
    pub fn new(ctx: Context, fuel: u64) -> (machine: Machine)
        ensures
            machine.context() == ctx@,
            machine.fuel() == fuel,
            machine.written() == Seq::<u8>::empty(),
    {
        Machine { ctx, fuel, output: Vec::new() }
    }

    /// All that the programs evaluated so far have written.
    pub fn output(&self) -> (output: &Vec<u8>)
        ensures
            output@ == self.written(),
    {
        &self.output
    }

    /// Compiles a program, runs it, and keeps what it writes. Tells how the
    /// run ended, or why the program does not compile.
    pub fn evaluate(&mut self, term: &Term) -> (outcome: Result<Status, CompileError>)
        ensures
            final(self).context() == old(self).context(),
            final(self).fuel() == old(self).fuel(),
            match outcome {
                Ok(status) => {
                    let run = execution(old(self).context(), *term, old(self).fuel());
                    &&& program_error(old(self).context(), *term) is None
                    &&& status == run.status
                    &&& final(self).written() == old(self).written() + run.output
                },
                Err(e) => {
                    &&& program_error(old(self).context(), *term) == Some(e)
                    &&& final(self).written() == old(self).written()
                },
            },
    {
        run(&self.ctx, term, self.fuel, &mut self.output)
    }
}

} // verus!
