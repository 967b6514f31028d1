//! The virtual machine: a stack-based interpreter for compiled functions.
//!
//! [`Interpreter::step`] runs one opcode and is proved to compute
//! [`State::step`]; [`Interpreter::run`] takes a bounded number of steps and
//! is proved to compute [`run`]. What the `print` opcodes write is appended
//! to a buffer that the caller hands in.

use vstd::prelude::*;

use crate::bytecode::{heap_view, Heap, OpCode, Value};
use crate::semantics::{
    binary, is_binary, lemma_step_keeps_wf, run, unary, Fault, State, Status, Step,
};
use crate::stack::{ArgStack, CallFrame, CallStack};
use crate::text;

verus! {

/// Whether the machine did what `step` says: took the state `before` to the
/// state `after` writing `written`, or reported the fault and changed
/// nothing.
pub open spec fn follows(
    step: Step,
    before: State,
    after: State,
    written: Seq<u8>,
    outcome: Result<(), Fault>,
) -> bool {
    match step {
        Step::Halt => false,
        Step::Fault(fault) => outcome == Err::<(), Fault>(fault) && after == before && written
            == Seq::<u8>::empty(),
        Step::Next(next, text) => outcome is Ok && after == next && written == text,
    }
}

/// The virtual machine.
#[derive(Debug, Clone)]
pub struct Interpreter {
    arg_stack: ArgStack,
    call_stack: CallStack,
    heap: Heap,
}

impl View for Interpreter {
    type V = State;

    closed spec fn view(&self) -> State {
        State {
            heap: heap_view(self.heap@),
            frames: self.call_stack.suspended(),
            head: self.call_stack.top()@,
            stack: self.arg_stack.values(),
            base_ptr: self.arg_stack.base(),
        }
    }
}

impl Interpreter {
    /// Whether the state of the machine is well-formed.
    pub open spec fn wf(&self) -> bool {
        self@.wf()
    }

    /// A machine that is about to run the function at index `main` of `heap`.
    pub fn new(main: usize, heap: Heap) -> (interpreter: Self)
        requires
            main < heap.len(),
        ensures
            interpreter@ == State::initial(heap_view(heap@), main as int),
            interpreter.wf(),
    {
        let main = heap[main].duplicate();
        Self {
            call_stack: CallStack::new(CallFrame { function: main, ins_ptr: 0, base_ptr: 0 }),
            arg_stack: ArgStack::default(),
            heap,
        }
    }

    /// The compiled functions.
    pub fn heap(&self) -> (heap: &Heap)
        ensures
            heap_view(heap@) == self@.heap,
    {
        &self.heap
    }

    /// The operand stack.
    pub fn arg_stack(&self) -> (stack: &ArgStack)
        ensures
            stack.values() == self@.stack,
            stack.base() == self@.base_ptr,
    {
        &self.arg_stack
    }

    /// Fetches the next opcode of the running frame and moves the instruction
    /// pointer past it. At the end of the frame there is none.
    fn read_op(&mut self) -> (op: Option<OpCode>)
        ensures
            op == old(self)@.next_op(),
            final(self)@ == (match op {
                Some(_) => old(self)@.at(old(self)@.head.ins_ptr as int + 1),
                None => old(self)@,
            }),
    {
        let frame = self.call_stack.head_mut();
        match frame.function.read(frame.ins_ptr) {
            Some(op) => {
                let op = *op;
                assert(frame.function.chunk.code.len() == frame.function.chunk.code@.len());
                frame.ins_ptr += 1;
                Some(op)
            },
            None => None,
        }
    }

    /// Moves the instruction pointer back over the opcode that was fetched
    /// last.
    fn unread_op(&mut self)
        requires
            old(self)@.head.ins_ptr > 0,
        ensures
            final(self)@ == old(self)@.at(old(self)@.head.ins_ptr - 1),
    {
        let frame = self.call_stack.head_mut();
        frame.ins_ptr -= 1;
    }

    /// The integer `depth` places below the top of the stack.
    fn operand(&self, depth: usize) -> (n: Result<i64, Fault>)
        requires
            self.wf(),
        ensures
            n == self@.int_at(depth as int),
    {
        let len = self.arg_stack.len();
        if depth >= len {
            return Err(Fault::StackUnderflow);
        }
        match self.arg_stack.get(len - 1 - depth) {
            Some(Value::Int(n)) => Ok(*n),
            _ => Err(Fault::ExpectedInt),
        }
    }

    /// Puts `value` in the place of the top `count` values.
    fn replace(&mut self, count: usize, value: Value)
        requires
            old(self).wf(),
            count <= old(self)@.visible(),
        ensures
            final(self)@ == old(self)@.replaced(count as int, value),
    {
        let mut left = count;
        while left > 0
            invariant
                left <= count,
                self.heap == old(self).heap,
                self.call_stack == old(self).call_stack,
                self.arg_stack.base() == old(self).arg_stack.base(),
                self.arg_stack.values() == old(self).arg_stack.values().take(
                    old(self).arg_stack.values().len() - (count - left),
                ),
                count <= old(self).arg_stack.values().len() - old(self).arg_stack.base(),
            decreases left,
        {
            self.arg_stack.pop();
            left -= 1;
        }
        self.arg_stack.push(value);
    }

    /// Runs a unary opcode.
    fn unary_op(&mut self, op: OpCode) -> (outcome: Result<(), Fault>)
        requires
            old(self).wf(),
            op == OpCode::Not || op == OpCode::Neg,
        ensures
            follows(old(self)@.unary_step(op), old(self)@, final(self)@, Seq::empty(), outcome),
    {
        let n = match self.operand(0) {
            Ok(n) => n,
            Err(fault) => {
                return Err(fault);
            },
        };
        let result = match op {
            OpCode::Neg => {
                if n == i64::MIN {
                    return Err(Fault::Overflow);
                }
                -n
            },
            _ => {
                assert(n ^ 0 == n) by (bit_vector);
                n ^ 0
            },
        };
        self.replace(1, Value::Int(result));
        Ok(())
    }

    /// What a binary opcode makes of its operands.
    fn arithmetic(op: OpCode, int1: i64, int2: i64) -> (result: Result<i64, Fault>)
        requires
            is_binary(op),
        ensures
            result == binary(op, int1, int2),
    {
        match op {
            OpCode::Add => match int1.checked_add(int2) {
                Some(n) => Ok(n),
                None => Err(Fault::Overflow),
            },
            OpCode::Sub => match int1.checked_sub(int2) {
                Some(n) => Ok(n),
                None => Err(Fault::Overflow),
            },
            OpCode::Mul => match int1.checked_mul(int2) {
                Some(n) => Ok(n),
                None => Err(Fault::Overflow),
            },
            OpCode::Div => {
                if int2 == 0 {
                    return Err(Fault::DivisionByZero);
                }
                match int1.checked_div(int2) {
                    Some(n) => Ok(n),
                    None => Err(Fault::Overflow),
                }
            },
            OpCode::Rem => {
                if int2 == 0 {
                    return Err(Fault::DivisionByZero);
                }
                match int1.checked_rem(int2) {
                    Some(n) => Ok(n),
                    None => Err(Fault::Overflow),
                }
            },
            OpCode::And => Ok(Self::truth(int1 != 0 && int2 != 0)),
            OpCode::Or => Ok(Self::truth(int1 != 0 || int2 != 0)),
            OpCode::BitAnd => Ok(int1 & int2),
            OpCode::BitOr => Ok(int1 | int2),
            OpCode::BitXor => Ok(int1 ^ int2),
            OpCode::Shr => {
                if 0 <= int2 && int2 < 64 {
                    Ok(int1 >> int2)
                } else {
                    Err(Fault::Overflow)
                }
            },
            OpCode::Shl => {
                if 0 <= int2 && int2 < 64 {
                    Ok(int1 << int2)
                } else {
                    Err(Fault::Overflow)
                }
            },
            OpCode::Eq => Ok(Self::truth(int1 == int2)),
            OpCode::Neq => Ok(Self::truth(int1 != int2)),
            OpCode::Lt => Ok(Self::truth(int1 < int2)),
            OpCode::Gt => Ok(Self::truth(int1 > int2)),
            OpCode::Lte => Ok(Self::truth(int1 <= int2)),
            _ => Ok(Self::truth(int1 >= int2)),
        }
    }

    /// The integer `1` for true and `0` for false.
    fn truth(b: bool) -> (n: i64)
        ensures
            n == crate::semantics::truth(b),
    {
        if b {
            1
        } else {
            0
        }
    }

    /// Runs a binary opcode.
    fn binary_op(&mut self, op: OpCode) -> (outcome: Result<(), Fault>)
        requires
            old(self).wf(),
            is_binary(op),
        ensures
            follows(old(self)@.binary_step(op), old(self)@, final(self)@, Seq::empty(), outcome),
    {
        let int2 = match self.operand(0) {
            Ok(n) => n,
            Err(fault) => {
                return Err(fault);
            },
        };
        let int1 = match self.operand(1) {
            Ok(n) => n,
            Err(fault) => {
                return Err(fault);
            },
        };
        let result = match Self::arithmetic(op, int1, int2) {
            Ok(n) => n,
            Err(fault) => {
                return Err(fault);
            },
        };
        self.replace(2, Value::Int(result));
        Ok(())
    }

    /// Runs `PrintInt`, `PrintBool` or `PrintUnit`.
    fn print_op(&mut self, op: OpCode, out: &mut Vec<u8>) -> (outcome: Result<(), Fault>)
        requires
            old(self).wf(),
            op == OpCode::PrintInt || op == OpCode::PrintBool || op == OpCode::PrintUnit,
        ensures
            final(out)@.len() >= old(out)@.len(),
            final(out)@.take(old(out)@.len() as int) == old(out)@,
            follows(
                old(self)@.print_step(op),
                old(self)@,
                final(self)@,
                final(out)@.skip(old(out)@.len() as int),
                outcome,
            ),
    {
        let n = match self.operand(0) {
            Ok(n) => n,
            Err(fault) => {
                assert(out@.skip(out@.len() as int) =~= Seq::<u8>::empty());
                return Err(fault);
            },
        };
        match op {
            OpCode::PrintInt => {
                text::write_decimal(out, n);
            },
            OpCode::PrintBool => {
                text::write_boolean(out, n != 0);
            },
            _ => {
                if n != 0 {
                    assert(out@.skip(out@.len() as int) =~= Seq::<u8>::empty());
                    return Err(Fault::NotUnit);
                }
                text::write_unit(out);
            },
        }
        out.push(10);
        self.replace(1, Value::Int(0));
        proof {
            let written = old(self)@.print_step(op)->Next_1;
            assert(out@.skip(old(out)@.len() as int) =~= written);
        }
        Ok(())
    }

    /// Runs `PrintFunc`.
    fn print_func_op(&mut self, out: &mut Vec<u8>) -> (outcome: Result<(), Fault>)
        requires
            old(self).wf(),
        ensures
            final(out)@.len() >= old(out)@.len(),
            final(out)@.take(old(out)@.len() as int) == old(out)@,
            follows(
                old(self)@.print_func_step(),
                old(self)@,
                final(self)@,
                final(out)@.skip(old(out)@.len() as int),
                outcome,
            ),
    {
        proof {
            assert(out@.skip(out@.len() as int) =~= Seq::<u8>::empty());
        }
        let len = self.arg_stack.len();
        if len == 0 {
            return Err(Fault::StackUnderflow);
        }
        let ptr = match self.arg_stack.get(len - 1) {
            Some(Value::FuncPtr(ptr)) => *ptr,
            _ => {
                return Err(Fault::ExpectedPtr);
            },
        };
        text::write_function(out, ptr);
        out.push(10);
        self.replace(1, Value::Int(0));
        proof {
            let written = old(self)@.print_func_step()->Next_1;
            assert(out@.skip(old(out)@.len() as int) =~= written);
        }
        Ok(())
    }

    /// Runs `Call`.
    fn call_op(&mut self, arity: usize) -> (outcome: Result<(), Fault>)
        requires
            old(self).wf(),
        ensures
            follows(old(self)@.call_step(arity), old(self)@, final(self)@, Seq::empty(), outcome),
    {
        let len = self.arg_stack.len();
        if len <= arity {
            return Err(Fault::StackUnderflow);
        }
        let base_ptr = len - arity - 1;
        let ptr = match self.arg_stack.get(base_ptr) {
            Some(Value::FuncPtr(ptr)) => *ptr,
            _ => {
                return Err(Fault::ExpectedPtr);
            },
        };
        if ptr >= self.heap.len() {
            return Err(Fault::UnknownFunction);
        }
        let function = self.heap[ptr].duplicate();
        self.arg_stack.inc_base(base_ptr);
        self.call_stack.push(CallFrame { function, base_ptr, ins_ptr: 0 });
        Ok(())
    }

    /// Runs `Return`.
    fn return_op(&mut self) -> (outcome: Result<(), Fault>)
        requires
            old(self).wf(),
        ensures
            follows(old(self)@.return_step(), old(self)@, final(self)@, Seq::empty(), outcome),
    {
        if self.arg_stack.len() == 0 {
            return Err(Fault::StackUnderflow);
        }
        let base_ptr = match self.call_stack.pop() {
            Some(frame) => frame.base_ptr,
            None => {
                return Err(Fault::NoCaller);
            },
        };
        let ret_value = match self.arg_stack.pop() {
            Some(value) => value,
            None => Value::Int(0),
        };
        self.arg_stack.clean();
        self.arg_stack.dec_base(base_ptr);
        self.arg_stack.push(ret_value);
        proof {
            assert(old(self)@.stack.drop_last().take(old(self)@.base_ptr as int) =~= old(
                self,
            )@.stack.take(old(self)@.base_ptr as int));
        }
        Ok(())
    }

    /// Runs `Skip`, or a conditional jump whose condition holds.
    fn jump_op(&mut self, offset: usize) -> (outcome: Result<(), Fault>)
        ensures
            follows(old(self)@.jump(offset), old(self)@, final(self)@, Seq::empty(), outcome),
    {
        let frame = self.call_stack.head_mut();
        match frame.ins_ptr.checked_add(offset) {
            Some(target) => {
                frame.ins_ptr = target;
                Ok(())
            },
            None => Err(Fault::JumpOutOfRange),
        }
    }

    /// Runs `JumpIfTrue` (`when` is true) or `JumpIfFalse`.
    fn jump_if_op(&mut self, when: bool, offset: usize) -> (outcome: Result<(), Fault>)
        ensures
            follows(
                old(self)@.jump_if(when, offset),
                old(self)@,
                final(self)@,
                Seq::empty(),
                outcome,
            ),
    {
        let cond = match self.arg_stack.last() {
            Some(Value::Int(cond)) => *cond,
            Some(Value::FuncPtr(_)) => {
                return Err(Fault::ExpectedInt);
            },
            None => {
                return Err(Fault::StackUnderflow);
            },
        };
        if (cond != 0) == when {
            self.jump_op(offset)
        } else {
            Ok(())
        }
    }

    /// Runs the opcode `op`, which has been fetched.
    fn execute(&mut self, op: OpCode, out: &mut Vec<u8>) -> (outcome: Result<(), Fault>)
        requires
            old(self).wf(),
        ensures
            final(out)@.len() >= old(out)@.len(),
            final(out)@.take(old(out)@.len() as int) == old(out)@,
            follows(
                old(self)@.execute(op),
                old(self)@,
                final(self)@,
                final(out)@.skip(old(out)@.len() as int),
                outcome,
            ),
    {
        proof {
            assert(out@.skip(out@.len() as int) =~= Seq::<u8>::empty());
        }
        match op {
            OpCode::Push(value) => {
                self.arg_stack.push(value);
                Ok(())
            },
            OpCode::Pop => {
                match self.arg_stack.pop() {
                    Some(_) => Ok(()),
                    None => Err(Fault::StackUnderflow),
                }
            },
            OpCode::Local(index) => {
                let value = match self.arg_stack.get(index) {
                    Some(value) => *value,
                    None => {
                        return Err(Fault::MissingLocal);
                    },
                };
                self.arg_stack.push(value);
                Ok(())
            },
            OpCode::Not | OpCode::Neg => self.unary_op(op),
            OpCode::PrintInt | OpCode::PrintBool | OpCode::PrintUnit => self.print_op(op, out),
            OpCode::PrintFunc => self.print_func_op(out),
            OpCode::Call(arity) => self.call_op(arity),
            OpCode::Return => self.return_op(),
            OpCode::JumpIfTrue(offset) => self.jump_if_op(true, offset),
            OpCode::JumpIfFalse(offset) => self.jump_if_op(false, offset),
            OpCode::Skip(offset) => self.jump_op(offset),
            _ => self.binary_op(op),
        }
    }

    /// Runs one opcode, and appends to `out` what it writes.
    ///
    /// Returns `Ok(true)` when the machine has run an opcode and `Ok(false)`
    /// when the running frame has none left: the machine has halted, and
    /// nothing has changed. A fault changes nothing either.
    pub fn step(&mut self, out: &mut Vec<u8>) -> (outcome: Result<bool, Fault>)
        requires
            old(self).wf(),
        ensures
            final(self).wf(),
            match old(self)@.step() {
                Step::Halt => outcome == Ok::<bool, Fault>(false) && final(self)@ == old(self)@
                    && final(out)@ == old(out)@,
                Step::Fault(fault) => outcome == Err::<bool, Fault>(fault) && final(self)@ == old(
                    self,
                )@ && final(out)@ == old(out)@,
                Step::Next(next, written) => outcome == Ok::<bool, Fault>(true) && final(self)@
                    == next && final(out)@ == old(out)@ + written,
            },
    {
        proof {
            lemma_step_keeps_wf(old(self)@);
        }
        let op = match self.read_op() {
            Some(op) => op,
            None => {
                return Ok(false);
            },
        };
        match self.execute(op, out) {
            Ok(()) => {
                proof {
                    let written = old(self)@.step()->Next_1;
                }
                Ok(true)
            },
            Err(fault) => {
                self.unread_op();
                proof {
                    assert(out@.skip(old(out)@.len() as int).len() == 0);
                }
                Err(fault)
            },
        }
    }

    /// Runs at most `fuel` opcodes, and appends to `out` what they write.
    ///
    /// The run ends when the machine halts, when it faults, or when the fuel
    /// is used up; the machine stays where the run ended.
    pub fn run(&mut self, fuel: u64, out: &mut Vec<u8>) -> (status: Status)
        requires
            old(self).wf(),
        ensures
            final(self).wf(),
            final(self)@ == run(old(self)@, fuel as nat).state,
            status == run(old(self)@, fuel as nat).status,
            final(out)@ == old(out)@ + run(old(self)@, fuel as nat).output,
    {
        let mut left = fuel;
        while left > 0
            invariant
                self.wf(),
                run(old(self)@, fuel as nat).state == run(self@, left as nat).state,
                run(old(self)@, fuel as nat).status == run(self@, left as nat).status,
                old(out)@ + run(old(self)@, fuel as nat).output == out@ + run(
                    self@,
                    left as nat,
                ).output,
            decreases left,
        {
            match self.step(out) {
                Err(fault) => {
                    return Status::Faulted(fault);
                },
                Ok(false) => {
                    return Status::Halted;
                },
                Ok(true) => {
                    left -= 1;
                },
            }
        }
        Status::OutOfFuel
    }
}

} // verus!
