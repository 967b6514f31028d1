//! What the virtual machine does, as mathematics: the state of the machine,
//! and the function [`step`] from a state to the next one.
//!
//! The interpreter is proved to compute this function. A state that the
//! machine cannot leave in good order (an operand of the wrong tag, an empty
//! stack, an arithmetic overflow) steps to a [`Fault`]. The module
//! `correctness` proves that a compiled program never comes to such a state
//! where the evaluator gives the program a value.

use vstd::prelude::*;

use crate::bytecode::{FunctionView, OpCode, Value};
use crate::text;

verus! {

/// Why the machine cannot go on.
#[derive(Debug, Clone, Copy, PartialEq, Eq, Structural)]
pub enum Fault {
    /// An opcode needs more operands than the current frame holds.
    StackUnderflow,
    /// A `Local` names a slot beyond the top of the stack.
    MissingLocal,
    /// An integer was expected and a function pointer found.
    ExpectedInt,
    /// A function pointer was expected and an integer found.
    ExpectedPtr,
    /// The result of an arithmetic opcode does not fit in 64 bits, or a shift
    /// is by a negative amount or by 64 bits or more.
    Overflow,
    /// A division or a remainder by zero.
    DivisionByZero,
    /// `PrintUnit` found an integer other than zero.
    NotUnit,
    /// A function pointer points beyond the end of the heap.
    UnknownFunction,
    /// A `Return` in a frame that nothing called.
    NoCaller,
    /// A jump whose target is not an index at all.
    JumpOutOfRange,
}

/// An activation record, as a mathematical value.
pub struct FrameView {
    /// The function that runs in this frame.
    pub function: FunctionView,
    /// The index of the next opcode to run.
    pub ins_ptr: nat,
    /// By how much the call that made this frame raised the base pointer.
    pub base_ptr: nat,
}

/// The state of the machine.
pub struct State {
    /// The compiled functions. Running never changes them.
    pub heap: Seq<FunctionView>,
    /// The frames of the suspended callers, outermost first.
    pub frames: Seq<FrameView>,
    /// The frame that runs.
    pub head: FrameView,
    /// The operand stack, bottom first.
    pub stack: Seq<Value>,
    /// The index in `stack` at which the running frame begins. The values
    /// below it belong to the callers.
    pub base_ptr: nat,
}

/// What one step of the machine leads to.
pub enum Step {
    /// The running frame has no opcode left: the machine is done.
    Halt,
    /// The machine cannot run the next opcode.
    Fault(Fault),
    /// The machine ran the next opcode, came to the given state and wrote the
    /// given text.
    Next(State, Seq<u8>),
}

/// The sum of the base-pointer increments of the given frames.
pub open spec fn total_base(frames: Seq<FrameView>) -> nat
    decreases frames.len(),
{
    if frames.len() == 0 {
        0
    } else {
        total_base(frames.drop_last()) + frames.last().base_ptr
    }
}

/// The integer `1` for true and `0` for false.
pub open spec fn truth(b: bool) -> i64 {
    if b {
        1
    } else {
        0
    }
}

/// Whether a mathematical integer is a 64-bit signed integer.
pub open spec fn fits(i: int) -> bool {
    i64::MIN <= i <= i64::MAX
}

/// The integer as a result if it fits in 64 bits, an overflow if not.
pub open spec fn checked(i: int) -> Result<i64, Fault> {
    if fits(i) {
        Ok(i as i64)
    } else {
        Err(Fault::Overflow)
    }
}

/// The quotient of `a` by a non-zero `b`, rounded toward zero.
pub open spec fn quotient(a: int, b: int) -> int {
    if a >= 0 {
        if b > 0 {
            a / b
        } else {
            -(a / (-b))
        }
    } else {
        if b > 0 {
            -((-a) / b)
        } else {
            (-a) / (-b)
        }
    }
}

/// The remainder of `a` by a non-zero `b` that goes with [`quotient`]: it has
/// the sign of `a`.
pub open spec fn remainder(a: int, b: int) -> int {
    let magnitude = if b > 0 {
        b
    } else {
        -b
    };
    if a >= 0 {
        a % magnitude
    } else {
        -((-a) % magnitude)
    }
}

/// Whether the opcode takes two integers and leaves one.
pub open spec fn is_binary(op: OpCode) -> bool {
    match op {
        OpCode::Add
        | OpCode::Sub
        | OpCode::Mul
        | OpCode::Div
        | OpCode::Rem
        | OpCode::And
        | OpCode::Or
        | OpCode::BitAnd
        | OpCode::BitOr
        | OpCode::BitXor
        | OpCode::Shr
        | OpCode::Shl
        | OpCode::Eq
        | OpCode::Neq
        | OpCode::Lt
        | OpCode::Gt
        | OpCode::Lte
        | OpCode::Gte => true,
        _ => false,
    }
}

/// What a binary opcode makes of its operands `a` (pushed first) and `b`.
pub open spec fn binary(op: OpCode, a: i64, b: i64) -> Result<i64, Fault> {
    match op {
        OpCode::Add => checked(a + b),
        OpCode::Sub => checked(a - b),
        OpCode::Mul => checked(a * b),
        OpCode::Div => if b == 0 {
            Err(Fault::DivisionByZero)
        } else {
            checked(quotient(a as int, b as int))
        },
        OpCode::Rem => if b == 0 {
            Err(Fault::DivisionByZero)
        } else if a == i64::MIN && b == -1 {
            Err(Fault::Overflow)
        } else {
            checked(remainder(a as int, b as int))
        },
        OpCode::And => Ok(truth(a != 0 && b != 0)),
        OpCode::Or => Ok(truth(a != 0 || b != 0)),
        OpCode::BitAnd => Ok(a & b),
        OpCode::BitOr => Ok(a | b),
        OpCode::BitXor => Ok(a ^ b),
        OpCode::Shr => if 0 <= b < 64 {
            Ok(a >> b)
        } else {
            Err(Fault::Overflow)
        },
        OpCode::Shl => if 0 <= b < 64 {
            Ok(a << b)
        } else {
            Err(Fault::Overflow)
        },
        OpCode::Eq => Ok(truth(a == b)),
        OpCode::Neq => Ok(truth(a != b)),
        OpCode::Lt => Ok(truth(a < b)),
        OpCode::Gt => Ok(truth(a > b)),
        OpCode::Lte => Ok(truth(a <= b)),
        _ => Ok(truth(a >= b)),
    }
}

/// What a unary opcode makes of its operand. `Not` leaves it as it is.
pub open spec fn unary(op: OpCode, a: i64) -> Result<i64, Fault> {
    match op {
        OpCode::Neg => checked(-a),
        _ => Ok(a),
    }
}

impl State {
    /// The state in which the function at index `main` of the heap is about
    /// to run, called by nothing, on a stack that holds a pointer to the
    /// function at index 0.
    pub open spec fn initial(heap: Seq<FunctionView>, main: int) -> State {
        State {
            heap,
            frames: Seq::empty(),
            head: FrameView { function: heap[main], ins_ptr: 0, base_ptr: 0 },
            stack: seq![Value::FuncPtr(0)],
            base_ptr: 0,
        }
    }

    /// Whether the base pointer is within the stack and is the sum of what
    /// the calls in progress added to it.
    pub open spec fn wf(self) -> bool {
        &&& self.base_ptr <= self.stack.len()
        &&& self.base_ptr == total_base(self.frames) + self.head.base_ptr
    }

    /// The number of values that the running frame sees.
    pub open spec fn visible(self) -> int {
        self.stack.len() - self.base_ptr
    }

    /// The value `depth` places below the top of the stack.
    pub open spec fn peek(self, depth: int) -> Value {
        self.stack[self.stack.len() - 1 - depth]
    }

    /// The integer `depth` places below the top, as the running frame sees it.
    pub open spec fn int_at(self, depth: int) -> Result<i64, Fault> {
        if depth >= self.visible() {
            Err(Fault::StackUnderflow)
        } else {
            match self.peek(depth) {
                Value::Int(n) => Ok(n),
                Value::FuncPtr(_) => Err(Fault::ExpectedInt),
            }
        }
    }

    /// The state with another stack.
    pub open spec fn with_stack(self, stack: Seq<Value>) -> State {
        State { stack, ..self }
    }

    /// The state after `value` has been pushed.
    pub open spec fn pushed(self, value: Value) -> State {
        self.with_stack(self.stack.push(value))
    }

    /// The state after the top `n` values have given way to `value`.
    pub open spec fn replaced(self, n: int, value: Value) -> State {
        self.with_stack(self.stack.take(self.stack.len() - n).push(value))
    }

    /// The state in which the running frame is at the given opcode.
    pub open spec fn at(self, ins_ptr: int) -> State {
        State { head: FrameView { ins_ptr: ins_ptr as nat, ..self.head }, ..self }
    }

    /// The opcode that runs next, if the running frame has one left.
    pub open spec fn next_op(self) -> Option<OpCode> {
        if self.head.ins_ptr < self.head.function.code.len() {
            Some(self.head.function.code[self.head.ins_ptr as int])
        } else {
            None
        }
    }

    /// A jump forward by `offset` opcodes.
    pub open spec fn jump(self, offset: usize) -> Step {
        if self.head.ins_ptr + offset > usize::MAX {
            Step::Fault(Fault::JumpOutOfRange)
        } else {
            Step::Next(self.at(self.head.ins_ptr + offset), Seq::empty())
        }
    }

    /// A jump forward by `offset` opcodes if the top of the stack is zero
    /// (`when` is false) or is not (`when` is true). The top of the stack
    /// stays. It is a value of the running frame: what lies below the base
    /// pointer does not count.
    pub open spec fn jump_if(self, when: bool, offset: usize) -> Step {
        if self.visible() <= 0 {
            Step::Fault(Fault::StackUnderflow)
        } else {
            match self.peek(0) {
                Value::Int(n) => if (n != 0) == when {
                    self.jump(offset)
                } else {
                    Step::Next(self, Seq::empty())
                },
                Value::FuncPtr(_) => Step::Fault(Fault::ExpectedInt),
            }
        }
    }

    /// A unary opcode: the integer on top gives way to the result.
    pub open spec fn unary_step(self, op: OpCode) -> Step {
        match self.int_at(0) {
            Err(fault) => Step::Fault(fault),
            Ok(a) => match unary(op, a) {
                Err(fault) => Step::Fault(fault),
                Ok(n) => Step::Next(self.replaced(1, Value::Int(n)), Seq::empty()),
            },
        }
    }

    /// A binary opcode: the two integers on top give way to the result.
    pub open spec fn binary_step(self, op: OpCode) -> Step {
        match self.int_at(0) {
            Err(fault) => Step::Fault(fault),
            Ok(b) => match self.int_at(1) {
                Err(fault) => Step::Fault(fault),
                Ok(a) => match binary(op, a, b) {
                    Err(fault) => Step::Fault(fault),
                    Ok(n) => Step::Next(self.replaced(2, Value::Int(n)), Seq::empty()),
                },
            },
        }
    }

    /// A `print` of an integer, a boolean or unit: the integer on top gives
    /// way to unit, and its text is written as a line.
    pub open spec fn print_step(self, op: OpCode) -> Step {
        match self.int_at(0) {
            Err(fault) => Step::Fault(fault),
            Ok(n) => {
                let next = self.replaced(1, Value::Int(0));
                match op {
                    OpCode::PrintInt => Step::Next(next, text::line(text::decimal(n as int))),
                    OpCode::PrintBool => Step::Next(next, text::line(text::boolean(n != 0))),
                    _ => if n == 0 {
                        Step::Next(next, text::line(text::unit()))
                    } else {
                        Step::Fault(Fault::NotUnit)
                    },
                }
            },
        }
    }

    /// A `print` of a function: the pointer on top gives way to unit, and its
    /// text is written as a line.
    pub open spec fn print_func_step(self) -> Step {
        if self.visible() <= 0 {
            Step::Fault(Fault::StackUnderflow)
        } else {
            match self.peek(0) {
                Value::Int(_) => Step::Fault(Fault::ExpectedPtr),
                Value::FuncPtr(ptr) => Step::Next(
                    self.replaced(1, Value::Int(0)),
                    text::line(text::function(ptr as nat)),
                ),
            }
        }
    }

    /// A call with `arity` arguments. The callee is the value below them. The
    /// base pointer rises to it, so that the new frame sees the callee in slot
    /// 0 and the arguments from slot 1 on; the frame remembers by how much.
    pub open spec fn call_step(self, arity: usize) -> Step {
        if self.visible() <= arity {
            Step::Fault(Fault::StackUnderflow)
        } else {
            match self.peek(arity as int) {
                Value::Int(_) => Step::Fault(Fault::ExpectedPtr),
                Value::FuncPtr(ptr) => if ptr >= self.heap.len() {
                    Step::Fault(Fault::UnknownFunction)
                } else {
                    let rise = (self.visible() - arity - 1) as nat;
                    Step::Next(
                        State {
                            frames: self.frames.push(self.head),
                            head: FrameView {
                                function: self.heap[ptr as int],
                                ins_ptr: 0,
                                base_ptr: rise,
                            },
                            base_ptr: self.base_ptr + rise,
                            ..self
                        },
                        Seq::empty(),
                    )
                },
            }
        }
    }

    /// A return. The value on top is the result. The running frame ends, the
    /// stack is cut down to where the frame began, the base pointer falls by
    /// what the call had added, and the result is pushed for the caller.
    pub open spec fn return_step(self) -> Step {
        if self.visible() <= 0 {
            Step::Fault(Fault::StackUnderflow)
        } else if self.frames.len() == 0 {
            Step::Fault(Fault::NoCaller)
        } else {
            Step::Next(
                State {
                    frames: self.frames.drop_last(),
                    head: self.frames.last(),
                    stack: self.stack.take(self.base_ptr as int).push(self.peek(0)),
                    base_ptr: (self.base_ptr - self.head.base_ptr) as nat,
                    ..self
                },
                Seq::empty(),
            )
        }
    }

    /// What the opcode `op` does in this state, in which the instruction
    /// pointer has already moved past it.
    pub open spec fn execute(self, op: OpCode) -> Step {
        match op {
            OpCode::Push(value) => Step::Next(self.pushed(value), Seq::empty()),
            OpCode::Pop => if self.visible() <= 0 {
                Step::Fault(Fault::StackUnderflow)
            } else {
                Step::Next(self.with_stack(self.stack.drop_last()), Seq::empty())
            },
            OpCode::Local(index) => if self.base_ptr + index < self.stack.len() {
                Step::Next(self.pushed(self.stack[self.base_ptr + index]), Seq::empty())
            } else {
                Step::Fault(Fault::MissingLocal)
            },
            OpCode::Not | OpCode::Neg => self.unary_step(op),
            OpCode::PrintInt | OpCode::PrintBool | OpCode::PrintUnit => self.print_step(op),
            OpCode::PrintFunc => self.print_func_step(),
            OpCode::Call(arity) => self.call_step(arity),
            OpCode::Return => self.return_step(),
            OpCode::JumpIfTrue(offset) => self.jump_if(true, offset),
            OpCode::JumpIfFalse(offset) => self.jump_if(false, offset),
            OpCode::Skip(offset) => self.jump(offset),
            _ => self.binary_step(op),
        }
    }

    /// What one step of the machine leads to.
    pub open spec fn step(self) -> Step {
        match self.next_op() {
            None => Step::Halt,
            Some(op) => self.at(self.head.ins_ptr as int + 1).execute(op),
        }
    }
}

/// How a run of the machine ended.
#[derive(Debug, Clone, Copy, PartialEq, Eq, Structural)]
pub enum Status {
    /// The running frame had no opcode left.
    Halted,
    /// The steps that the run was allowed were used up.
    OutOfFuel,
    /// The machine could not go on.
    Faulted(Fault),
}

/// A run of the machine: where it stopped, why, and what it wrote.
pub struct Run {
    pub state: State,
    pub status: Status,
    pub output: Seq<u8>,
}

/// The run of at most `fuel` steps from the state `s`.
pub open spec fn run(s: State, fuel: nat) -> Run
    decreases fuel,
{
    if fuel == 0 {
        Run { state: s, status: Status::OutOfFuel, output: Seq::empty() }
    } else {
        match s.step() {
            Step::Halt => Run { state: s, status: Status::Halted, output: Seq::empty() },
            Step::Fault(fault) => Run {
                state: s,
                status: Status::Faulted(fault),
                output: Seq::empty(),
            },
            Step::Next(next, written) => {
                let rest = run(next, (fuel - 1) as nat);
                Run { output: written + rest.output, ..rest }
            },
        }
    }
}

/// The frames' increments add up over `push`.
pub proof fn lemma_total_base_push(frames: Seq<FrameView>, frame: FrameView)
    ensures
        total_base(frames.push(frame)) == total_base(frames) + frame.base_ptr,
{
    assert(frames.push(frame).drop_last() == frames);
}

/// A step takes a well-formed state to a well-formed state, and leaves the
/// heap as it is.
pub proof fn lemma_step_keeps_wf(s: State)
    requires
        s.wf(),
    ensures
        s.step() matches Step::Next(next, _) ==> next.wf() && next.heap == s.heap,
{
    if let Step::Next(next, _) = s.step() {
        let op = s.next_op().unwrap();
        let fetched = s.at(s.head.ins_ptr as int + 1);
        match op {
            OpCode::Call(arity) => {
                lemma_total_base_push(s.frames, fetched.head);
            },
            OpCode::Return => {},
            _ => {},
        }
    }
}

} // verus!
