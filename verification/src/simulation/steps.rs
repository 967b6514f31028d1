//! One step of the machine at a time: what each opcode that the compiler
//! emits does where the machine stands on it.

use vstd::prelude::*;

use crate::bytecode::{OpCode, Value};
use crate::correctness::{lemma_reaches_next, reaches};
use crate::laws::code_at;
use crate::semantics::{binary, is_binary, unary, FrameView, State};
use crate::text;

verus! {

/// Whether the machine stands on the opcode `op` at the index `at` of the
/// running function.
pub open spec fn stands_on(s: State, at: int, op: OpCode) -> bool {
    &&& 0 <= at < s.head.function.code.len()
    &&& s.head.ins_ptr == at
    &&& s.head.function.code[at] == op
}

/// The machine stands on the opcode at the index `i` of a piece of code when
/// its instruction pointer is there.
pub proof fn lemma_stands_on(s: State, start: int, piece: Seq<OpCode>, i: int)
    requires
        code_at(s.head.function.code, start, piece),
        0 <= i < piece.len(),
        s.head.ins_ptr == start + i,
    ensures
        stands_on(s, start + i, piece[i]),
{
    let code = s.head.function.code;
}

/// `Push` pushes.
pub proof fn lemma_push(s: State, at: int, value: Value)
    requires
        stands_on(s, at, OpCode::Push(value)),
    ensures
        reaches(s, 1, s.at(at + 1).pushed(value), Seq::empty()),
{
    lemma_reaches_next(s, s.at(at + 1).pushed(value), Seq::empty());
}

/// `Pop` drops the top of the stack.
pub proof fn lemma_pop(s: State, at: int)
    requires
        stands_on(s, at, OpCode::Pop),
        s.visible() > 0,
    ensures
        reaches(s, 1, s.at(at + 1).with_stack(s.stack.drop_last()), Seq::empty()),
{
    lemma_reaches_next(s, s.at(at + 1).with_stack(s.stack.drop_last()), Seq::empty());
}

/// `Local` pushes a copy of a slot of the frame.
pub proof fn lemma_local(s: State, at: int, index: usize)
    requires
        stands_on(s, at, OpCode::Local(index)),
        s.base_ptr + index < s.stack.len(),
    ensures
        reaches(s, 1, s.at(at + 1).pushed(s.stack[s.base_ptr + index]), Seq::empty()),
{
    lemma_reaches_next(s, s.at(at + 1).pushed(s.stack[s.base_ptr + index]), Seq::empty());
}

/// `Skip` moves on by its offset.
pub proof fn lemma_skip(s: State, at: int, offset: usize)
    requires
        stands_on(s, at, OpCode::Skip(offset)),
        at + 1 + offset <= usize::MAX,
    ensures
        reaches(s, 1, s.at(at + 1 + offset), Seq::empty()),
{
    lemma_reaches_next(s, s.at(at + 1 + offset), Seq::empty());
}

/// A conditional jump moves on by its offset if the integer on top of the
/// stack is as the jump asks, and by nothing if it is not. The integer stays.
pub proof fn lemma_jump_if(s: State, at: int, when: bool, offset: usize, top: i64)
    requires
        stands_on(
            s,
            at,
            if when {
                OpCode::JumpIfTrue(offset)
            } else {
                OpCode::JumpIfFalse(offset)
            },
        ),
        s.visible() > 0,
        s.stack.last() == Value::Int(top),
        at + 1 + offset <= usize::MAX,
    ensures
        reaches(
            s,
            1,
            s.at(
                if (top != 0) == when {
                    at + 1 + offset
                } else {
                    at + 1
                },
            ),
            Seq::empty(),
        ),
{
    let t = s.at(
        if (top != 0) == when {
            at + 1 + offset
        } else {
            at + 1
        },
    );
    lemma_reaches_next(s, t, Seq::empty());
}

/// A unary opcode puts its result in the place of the integer on top.
pub proof fn lemma_unary(s: State, at: int, op: OpCode, a: i64)
    requires
        op == OpCode::Not || op == OpCode::Neg,
        stands_on(s, at, op),
        s.visible() > 0,
        s.stack.last() == Value::Int(a),
        unary(op, a) is Ok,
    ensures
        reaches(
            s,
            1,
            s.at(at + 1).with_stack(s.stack.drop_last().push(Value::Int(unary(op, a).unwrap()))),
            Seq::empty(),
        ),
{
    let t = s.at(at + 1).with_stack(
        s.stack.drop_last().push(Value::Int(unary(op, a).unwrap())),
    );
    lemma_reaches_next(s, t, Seq::empty());
}

/// A binary opcode puts its result in the place of the two integers on top.
pub proof fn lemma_binary(s: State, at: int, op: OpCode, a: i64, b: i64)
    requires
        is_binary(op),
        stands_on(s, at, op),
        s.visible() > 1,
        s.stack[s.stack.len() - 2] == Value::Int(a),
        s.stack.last() == Value::Int(b),
        binary(op, a, b) is Ok,
    ensures
        reaches(
            s,
            1,
            s.at(at + 1).with_stack(
                s.stack.take(s.stack.len() - 2).push(Value::Int(binary(op, a, b).unwrap())),
            ),
            Seq::empty(),
        ),
{
    let t = s.at(at + 1).with_stack(
        s.stack.take(s.stack.len() - 2).push(Value::Int(binary(op, a, b).unwrap())),
    );
    lemma_reaches_next(s, t, Seq::empty());
}

/// What a `print` opcode writes for the value on top of the stack, if the
/// value is of the kind that the opcode prints.
pub open spec fn print_text(op: OpCode, top: Value) -> Option<Seq<u8>> {
    match (op, top) {
        (OpCode::PrintInt, Value::Int(n)) => Some(text::line(text::decimal(n as int))),
        (OpCode::PrintBool, Value::Int(n)) => Some(text::line(text::boolean(n != 0))),
        (OpCode::PrintUnit, Value::Int(n)) => if n == 0 {
            Some(text::line(text::unit()))
        } else {
            None
        },
        (OpCode::PrintFunc, Value::FuncPtr(ptr)) => Some(text::line(text::function(ptr as nat))),
        _ => None,
    }
}

/// A `print` opcode writes the text of the value on top of the stack and
/// puts unit in its place.
pub proof fn lemma_print_op(s: State, at: int, op: OpCode)
    requires
        stands_on(s, at, op),
        s.visible() > 0,
        print_text(op, s.stack.last()) is Some,
    ensures
        reaches(
            s,
            1,
            s.at(at + 1).with_stack(s.stack.drop_last().push(Value::Int(0))),
            print_text(op, s.stack.last()).unwrap(),
        ),
{
    let t = s.at(at + 1).with_stack(s.stack.drop_last().push(Value::Int(0)));
    lemma_reaches_next(s, t, print_text(op, s.stack.last()).unwrap());
}

/// The state in which a call has just been made: the caller is suspended
/// past the call, and the callee starts in a frame that begins at its own
/// pointer on the stack.
pub open spec fn called(s: State, at: int, arity: usize, ptr: usize) -> State {
    let rise = (s.visible() - arity - 1) as nat;
    State {
        frames: s.frames.push(s.at(at + 1).head),
        head: FrameView { function: s.heap[ptr as int], ins_ptr: 0, base_ptr: rise },
        base_ptr: s.base_ptr + rise,
        ..s
    }
}

/// `Call` starts the function whose pointer lies below the arguments.
pub proof fn lemma_call(s: State, at: int, arity: usize, ptr: usize)
    requires
        stands_on(s, at, OpCode::Call(arity)),
        s.visible() > arity,
        s.stack[s.stack.len() - 1 - arity] == Value::FuncPtr(ptr),
        ptr < s.heap.len(),
    ensures
        reaches(s, 1, called(s, at, arity, ptr), Seq::empty()),
{
    lemma_reaches_next(s, called(s, at, arity, ptr), Seq::empty());
}

/// The state to which a return leads: the caller runs again, and the result
/// lies where the callee and its arguments lay.
pub open spec fn returned(s: State) -> State {
    State {
        frames: s.frames.drop_last(),
        head: s.frames.last(),
        stack: s.stack.take(s.base_ptr as int).push(s.stack.last()),
        base_ptr: (s.base_ptr - s.head.base_ptr) as nat,
        ..s
    }
}

/// `Return` ends the running frame and hands the top of the stack to the
/// caller.
pub proof fn lemma_return(s: State, at: int)
    requires
        stands_on(s, at, OpCode::Return),
        s.visible() > 0,
        s.frames.len() > 0,
    ensures
        reaches(s, 1, returned(s), Seq::empty()),
{
    lemma_reaches_next(s, returned(s), Seq::empty());
}

} // verus!
