//! The virtual machine, opcode by opcode, on heaps written by hand.

use pijama_codegen::bytecode::{Chunk, Function, OpCode, Value};
use pijama_codegen::ir::{LocalId, TermId, TermKind};
use pijama_codegen::semantics::{Fault, Status};
use pijama_codegen::stack::{ArgStack, CallFrame, CallStack};
use pijama_codegen::ty::Context;
use pijama_codegen::{compile, Interpreter, Literal};

fn function(arity: usize, code: Vec<OpCode>) -> Function {
    Function { arity, chunk: Chunk { code } }
}

fn machine(code: Vec<OpCode>) -> Interpreter {
    Interpreter::new(0, vec![function(0, code)])
}

fn push(n: i64) -> OpCode {
    OpCode::Push(Value::Int(n))
}

/// The values that the running frame sees, bottom first.
fn visible(interpreter: &Interpreter) -> Vec<Value> {
    let stack = interpreter.arg_stack();
    (0..stack.len()).map(|i| *stack.get(i).expect("the slot is on the stack")).collect()
}

/// Runs the code to its end and gives the stack above the pointer to main.
fn result(code: Vec<OpCode>) -> Vec<Value> {
    let mut interpreter = machine(code);
    let mut out = Vec::new();
    assert_eq!(interpreter.run(1000, &mut out), Status::Halted);
    assert!(out.is_empty());
    let stack = visible(&interpreter);
    assert_eq!(stack[0], Value::FuncPtr(0));
    stack[1..].to_vec()
}

fn binary(a: i64, op: OpCode, b: i64) -> i64 {
    match result(vec![push(a), push(b), op])[..] {
        [Value::Int(n)] => n,
        _ => panic!("a binary opcode leaves one integer"),
    }
}

fn fault(code: Vec<OpCode>) -> Fault {
    let mut interpreter = machine(code);
    let mut out = Vec::new();
    match interpreter.run(1000, &mut out) {
        Status::Faulted(fault) => fault,
        status => panic!("the machine did not fault: {:?}", status),
    }
}

#[test]
fn a_new_machine_holds_a_pointer_to_the_first_function() {
    let interpreter = machine(vec![]);
    assert_eq!(visible(&interpreter), vec![Value::FuncPtr(0)]);
    let second = Interpreter::new(1, vec![function(0, vec![]), function(0, vec![push(1)])]);
    assert_eq!(visible(&second), vec![Value::FuncPtr(0)]);
    assert_eq!(second.heap().len(), 2);
}

#[test]
fn the_machine_runs_the_function_it_was_given() {
    let mut interpreter =
        Interpreter::new(1, vec![function(0, vec![push(1)]), function(0, vec![push(2)])]);
    let mut out = Vec::new();
    assert_eq!(interpreter.run(10, &mut out), Status::Halted);
    assert_eq!(visible(&interpreter), vec![Value::FuncPtr(0), Value::Int(2)]);
}

#[test]
fn an_empty_function_halts_at_once() {
    let mut interpreter = machine(vec![]);
    let mut out = Vec::new();
    assert_eq!(interpreter.step(&mut out), Ok(false));
    assert_eq!(interpreter.step(&mut out), Ok(false));
    assert_eq!(visible(&interpreter), vec![Value::FuncPtr(0)]);
    assert_eq!(interpreter.run(0, &mut out), Status::OutOfFuel);
    assert_eq!(interpreter.run(5, &mut out), Status::Halted);
}

#[test]
fn fuel_bounds_the_number_of_steps() {
    let mut interpreter = machine(vec![push(1), push(2), push(3)]);
    let mut out = Vec::new();
    assert_eq!(interpreter.run(2, &mut out), Status::OutOfFuel);
    assert_eq!(visible(&interpreter), vec![Value::FuncPtr(0), Value::Int(1), Value::Int(2)]);
    assert_eq!(interpreter.run(1, &mut out), Status::OutOfFuel);
    assert_eq!(interpreter.run(1, &mut out), Status::Halted);
    assert_eq!(visible(&interpreter).len(), 4);
}

#[test]
fn push_pop_and_local() {
    assert_eq!(result(vec![push(5), OpCode::Pop]), vec![]);
    assert_eq!(
        result(vec![OpCode::Push(Value::FuncPtr(3)), push(5), OpCode::Local(1), OpCode::Local(0)]),
        vec![Value::FuncPtr(3), Value::Int(5), Value::FuncPtr(3), Value::FuncPtr(0)]
    );
}

#[test]
fn arithmetic() {
    assert_eq!(binary(2, OpCode::Add, 3), 5);
    assert_eq!(binary(2, OpCode::Sub, 3), -1);
    assert_eq!(binary(-4, OpCode::Mul, 3), -12);
    assert_eq!(binary(7, OpCode::Div, 2), 3);
    assert_eq!(binary(-7, OpCode::Div, 2), -3);
    assert_eq!(binary(7, OpCode::Div, -2), -3);
    assert_eq!(binary(-7, OpCode::Div, -2), 3);
    assert_eq!(binary(7, OpCode::Rem, 2), 1);
    assert_eq!(binary(-7, OpCode::Rem, 2), -1);
    assert_eq!(binary(7, OpCode::Rem, -2), 1);
    assert_eq!(binary(-7, OpCode::Rem, -2), -1);
    assert_eq!(binary(i64::MAX, OpCode::Add, 0), i64::MAX);
    assert_eq!(binary(i64::MIN, OpCode::Div, 1), i64::MIN);
    assert_eq!(binary(i64::MIN, OpCode::Rem, 1), 0);
}

#[test]
fn bitwise_operators() {
    assert_eq!(binary(0b1100, OpCode::BitAnd, 0b1010), 0b1000);
    assert_eq!(binary(0b1100, OpCode::BitOr, 0b1010), 0b1110);
    assert_eq!(binary(0b1100, OpCode::BitXor, 0b1010), 0b0110);
    assert_eq!(binary(-1, OpCode::BitAnd, 5), 5);
    assert_eq!(binary(-8, OpCode::Shr, 1), -4);
    assert_eq!(binary(8, OpCode::Shr, 3), 1);
    assert_eq!(binary(3, OpCode::Shl, 4), 48);
    assert_eq!(binary(1, OpCode::Shl, 63), i64::MIN);
    assert_eq!(binary(-1, OpCode::Shl, 0), -1);
}

#[test]
fn comparisons() {
    assert_eq!(binary(2, OpCode::Eq, 2), 1);
    assert_eq!(binary(2, OpCode::Eq, 3), 0);
    assert_eq!(binary(2, OpCode::Neq, 2), 0);
    assert_eq!(binary(2, OpCode::Neq, 3), 1);
    assert_eq!(binary(2, OpCode::Lt, 3), 1);
    assert_eq!(binary(3, OpCode::Lt, 3), 0);
    assert_eq!(binary(3, OpCode::Gt, 2), 1);
    assert_eq!(binary(3, OpCode::Gt, 3), 0);
    assert_eq!(binary(3, OpCode::Lte, 3), 1);
    assert_eq!(binary(4, OpCode::Lte, 3), 0);
    assert_eq!(binary(3, OpCode::Gte, 3), 1);
    assert_eq!(binary(2, OpCode::Gte, 3), 0);
}

#[test]
fn eager_logical_operators() {
    assert_eq!(binary(1, OpCode::And, 1), 1);
    assert_eq!(binary(1, OpCode::And, 0), 0);
    assert_eq!(binary(0, OpCode::And, 1), 0);
    assert_eq!(binary(5, OpCode::And, -2), 1);
    assert_eq!(binary(0, OpCode::Or, 0), 0);
    assert_eq!(binary(0, OpCode::Or, 7), 1);
    assert_eq!(binary(1, OpCode::Or, 0), 1);
}

#[test]
fn unary_operators() {
    assert_eq!(result(vec![push(5), OpCode::Neg]), vec![Value::Int(-5)]);
    assert_eq!(result(vec![push(-5), OpCode::Neg]), vec![Value::Int(5)]);
    assert_eq!(result(vec![push(1), OpCode::Not]), vec![Value::Int(1)]);
    assert_eq!(result(vec![push(0), OpCode::Not]), vec![Value::Int(0)]);
    assert_eq!(result(vec![push(-9), OpCode::Not]), vec![Value::Int(-9)]);
}

#[test]
fn conditional_jumps_look_at_the_top_and_leave_it() {
    assert_eq!(
        result(vec![push(1), OpCode::JumpIfTrue(1), push(7), push(8)]),
        vec![Value::Int(1), Value::Int(8)]
    );
    assert_eq!(
        result(vec![push(0), OpCode::JumpIfTrue(1), push(7), push(8)]),
        vec![Value::Int(0), Value::Int(7), Value::Int(8)]
    );
    assert_eq!(
        result(vec![push(0), OpCode::JumpIfFalse(1), push(7), push(8)]),
        vec![Value::Int(0), Value::Int(8)]
    );
    assert_eq!(
        result(vec![push(3), OpCode::JumpIfFalse(1), push(7), push(8)]),
        vec![Value::Int(3), Value::Int(7), Value::Int(8)]
    );
    assert_eq!(result(vec![OpCode::Skip(2), push(7), push(8), push(9)]), vec![Value::Int(9)]);
    assert_eq!(result(vec![OpCode::Skip(0), push(7)]), vec![Value::Int(7)]);
    assert_eq!(result(vec![OpCode::Skip(40), push(7)]), vec![]);
}

#[test]
fn call_and_return() {
    let callee = function(2, vec![OpCode::Local(1), OpCode::Local(2), OpCode::Sub, OpCode::Return]);
    let main = function(
        0,
        vec![
            push(100),
            OpCode::Push(Value::FuncPtr(1)),
            push(9),
            push(4),
            OpCode::Call(2),
            push(1),
            OpCode::Add,
        ],
    );
    let mut interpreter = Interpreter::new(0, vec![main, callee]);
    let mut out = Vec::new();
    assert_eq!(interpreter.run(5, &mut out), Status::OutOfFuel);
    assert_eq!(
        visible(&interpreter),
        vec![Value::FuncPtr(1), Value::Int(9), Value::Int(4)]
    );
    assert_eq!(interpreter.run(3, &mut out), Status::OutOfFuel);
    assert_eq!(visible(&interpreter).len(), 4);
    assert_eq!(interpreter.run(1, &mut out), Status::OutOfFuel);
    assert_eq!(
        visible(&interpreter),
        vec![Value::FuncPtr(0), Value::Int(100), Value::Int(5)]
    );
    assert_eq!(interpreter.run(10, &mut out), Status::Halted);
    assert_eq!(
        visible(&interpreter),
        vec![Value::FuncPtr(0), Value::Int(100), Value::Int(6)]
    );
}

#[test]
fn return_discards_what_the_callee_left() {
    let callee = function(0, vec![push(1), push(2), push(3), OpCode::Return]);
    let main = function(0, vec![OpCode::Push(Value::FuncPtr(1)), OpCode::Call(0)]);
    let mut interpreter = Interpreter::new(0, vec![main, callee]);
    let mut out = Vec::new();
    assert_eq!(interpreter.run(100, &mut out), Status::Halted);
    assert_eq!(visible(&interpreter), vec![Value::FuncPtr(0), Value::Int(3)]);
}

#[test]
fn a_callee_that_runs_off_its_end_halts_the_machine() {
    let callee = function(0, vec![push(1)]);
    let main = function(0, vec![OpCode::Push(Value::FuncPtr(1)), OpCode::Call(0), push(9)]);
    let mut interpreter = Interpreter::new(0, vec![main, callee]);
    let mut out = Vec::new();
    assert_eq!(interpreter.run(100, &mut out), Status::Halted);
    assert_eq!(visible(&interpreter), vec![Value::FuncPtr(1), Value::Int(1)]);
}

#[test]
fn printing() {
    let mut interpreter = machine(vec![
        push(-12),
        OpCode::PrintInt,
        OpCode::Pop,
        push(2),
        OpCode::PrintBool,
        OpCode::Pop,
        push(0),
        OpCode::PrintBool,
        OpCode::PrintUnit,
        OpCode::Pop,
        OpCode::Push(Value::FuncPtr(255)),
        OpCode::PrintFunc,
    ]);
    let mut out = b"> ".to_vec();
    assert_eq!(interpreter.run(100, &mut out), Status::Halted);
    assert_eq!(out, b"> -12\ntrue\nfalse\nunit\n<function at 0xff>\n");
    assert_eq!(visible(&interpreter), vec![Value::FuncPtr(0), Value::Int(0)]);
}

#[test]
fn stack_underflow() {
    assert_eq!(fault(vec![OpCode::Pop, OpCode::Pop]), Fault::StackUnderflow);
    assert_eq!(fault(vec![OpCode::Pop, OpCode::Neg]), Fault::StackUnderflow);
    assert_eq!(fault(vec![OpCode::Pop, push(1), OpCode::Add]), Fault::StackUnderflow);
    assert_eq!(fault(vec![OpCode::Pop, OpCode::PrintInt]), Fault::StackUnderflow);
    assert_eq!(fault(vec![OpCode::Pop, OpCode::PrintFunc]), Fault::StackUnderflow);
    assert_eq!(fault(vec![OpCode::Pop, OpCode::JumpIfTrue(0)]), Fault::StackUnderflow);
    assert_eq!(fault(vec![OpCode::Pop, OpCode::JumpIfFalse(0)]), Fault::StackUnderflow);
    assert_eq!(fault(vec![OpCode::Pop, OpCode::Return]), Fault::StackUnderflow);
    assert_eq!(fault(vec![OpCode::Call(1)]), Fault::StackUnderflow);
    assert_eq!(fault(vec![OpCode::Call(usize::MAX)]), Fault::StackUnderflow);
}

#[test]
fn a_frame_cannot_pop_what_belongs_to_its_caller() {
    let callee = function(0, vec![OpCode::Pop, OpCode::Pop]);
    let main = function(0, vec![push(5), OpCode::Push(Value::FuncPtr(1)), OpCode::Call(0)]);
    let mut interpreter = Interpreter::new(0, vec![main, callee]);
    let mut out = Vec::new();
    assert_eq!(interpreter.run(100, &mut out), Status::Faulted(Fault::StackUnderflow));
    assert!(visible(&interpreter).is_empty());
}

#[test]
fn missing_local() {
    assert_eq!(fault(vec![OpCode::Local(1)]), Fault::MissingLocal);
    assert_eq!(fault(vec![OpCode::Local(usize::MAX)]), Fault::MissingLocal);
}

#[test]
fn expected_int() {
    assert_eq!(fault(vec![OpCode::Neg]), Fault::ExpectedInt);
    assert_eq!(fault(vec![OpCode::Not]), Fault::ExpectedInt);
    assert_eq!(fault(vec![push(1), OpCode::Push(Value::FuncPtr(0)), OpCode::Add]), Fault::ExpectedInt);
    assert_eq!(fault(vec![push(1), OpCode::Add]), Fault::ExpectedInt);
    assert_eq!(fault(vec![OpCode::PrintInt]), Fault::ExpectedInt);
    assert_eq!(fault(vec![OpCode::PrintBool]), Fault::ExpectedInt);
    assert_eq!(fault(vec![OpCode::PrintUnit]), Fault::ExpectedInt);
    assert_eq!(fault(vec![OpCode::JumpIfTrue(0)]), Fault::ExpectedInt);
    assert_eq!(fault(vec![OpCode::JumpIfFalse(0)]), Fault::ExpectedInt);
}

#[test]
fn expected_ptr() {
    assert_eq!(fault(vec![push(1), OpCode::Call(0)]), Fault::ExpectedPtr);
    assert_eq!(fault(vec![push(1), OpCode::PrintFunc]), Fault::ExpectedPtr);
}

#[test]
fn overflow() {
    assert_eq!(fault(vec![push(i64::MAX), push(1), OpCode::Add]), Fault::Overflow);
    assert_eq!(fault(vec![push(i64::MIN), push(1), OpCode::Sub]), Fault::Overflow);
    assert_eq!(fault(vec![push(i64::MAX), push(2), OpCode::Mul]), Fault::Overflow);
    assert_eq!(fault(vec![push(i64::MIN), push(-1), OpCode::Div]), Fault::Overflow);
    assert_eq!(fault(vec![push(i64::MIN), push(-1), OpCode::Rem]), Fault::Overflow);
    assert_eq!(fault(vec![push(i64::MIN), OpCode::Neg]), Fault::Overflow);
    assert_eq!(fault(vec![push(1), push(64), OpCode::Shl]), Fault::Overflow);
    assert_eq!(fault(vec![push(1), push(-1), OpCode::Shl]), Fault::Overflow);
    assert_eq!(fault(vec![push(1), push(64), OpCode::Shr]), Fault::Overflow);
    assert_eq!(fault(vec![push(1), push(-1), OpCode::Shr]), Fault::Overflow);
}

#[test]
fn division_by_zero() {
    assert_eq!(fault(vec![push(1), push(0), OpCode::Div]), Fault::DivisionByZero);
    assert_eq!(fault(vec![push(1), push(0), OpCode::Rem]), Fault::DivisionByZero);
    assert_eq!(fault(vec![push(i64::MIN), push(0), OpCode::Rem]), Fault::DivisionByZero);
}

#[test]
fn not_unit() {
    assert_eq!(fault(vec![push(1), OpCode::PrintUnit]), Fault::NotUnit);
}

#[test]
fn unknown_function() {
    assert_eq!(fault(vec![OpCode::Push(Value::FuncPtr(1)), OpCode::Call(0)]), Fault::UnknownFunction);
}

#[test]
fn no_caller() {
    assert_eq!(fault(vec![OpCode::Return]), Fault::NoCaller);
}

#[test]
fn jump_out_of_range() {
    assert_eq!(fault(vec![OpCode::Skip(usize::MAX)]), Fault::JumpOutOfRange);
    assert_eq!(fault(vec![push(1), OpCode::JumpIfTrue(usize::MAX)]), Fault::JumpOutOfRange);
    assert_eq!(fault(vec![push(0), OpCode::JumpIfFalse(usize::MAX - 1)]), Fault::JumpOutOfRange);
    assert_eq!(result(vec![push(0), OpCode::JumpIfTrue(usize::MAX)]), vec![Value::Int(0)]);
}

#[test]
fn a_fault_changes_nothing() {
    let mut interpreter = machine(vec![push(1), push(0), OpCode::Div, push(9)]);
    let mut out = Vec::new();
    assert_eq!(interpreter.step(&mut out), Ok(true));
    assert_eq!(interpreter.step(&mut out), Ok(true));
    let before = visible(&interpreter);
    assert_eq!(interpreter.step(&mut out), Err(Fault::DivisionByZero));
    assert_eq!(visible(&interpreter), before);
    assert_eq!(interpreter.step(&mut out), Err(Fault::DivisionByZero));
    assert_eq!(interpreter.run(10, &mut out), Status::Faulted(Fault::DivisionByZero));
    assert_eq!(visible(&interpreter), before);
    assert!(out.is_empty());
}

#[test]
fn a_conditional_leaves_exactly_one_value() {
    for (test, expected) in [(true, 10), (false, 20)] {
        let ctx = Context::new();
        let literal = |id: u64, literal: Literal| pijama_codegen::ir::Term {
            id: TermId(id),
            kind: TermKind::Lit(literal),
        };
        let program = pijama_codegen::ir::Term {
            id: TermId(1),
            kind: TermKind::Cond(
                Box::new(literal(2, Literal::Bool(test))),
                Box::new(literal(3, Literal::Number(10))),
                Box::new(literal(4, Literal::Number(20))),
            ),
        };
        let mut interpreter = compile(&ctx, &program).expect("the program compiles");
        let mut out = Vec::new();
        assert_eq!(interpreter.run(100, &mut out), Status::Halted);
        assert_eq!(visible(&interpreter), vec![Value::FuncPtr(0), Value::Int(expected)]);
    }
}

#[test]
fn the_operand_stack_hides_what_lies_below_its_base() {
    let mut stack = ArgStack::default();
    assert_eq!(stack.len(), 1);
    assert_eq!(stack.get(0), Some(&Value::FuncPtr(0)));
    assert_eq!(stack.last(), Some(&Value::FuncPtr(0)));
    stack.push(Value::Int(1));
    stack.push(Value::Int(2));
    stack.push(Value::Int(3));
    assert_eq!(stack.len(), 4);
    stack.inc_base(2);
    assert_eq!(stack.len(), 2);
    assert_eq!(stack.get(0), Some(&Value::Int(2)));
    assert_eq!(stack.get(1), Some(&Value::Int(3)));
    assert_eq!(stack.get(2), None);
    assert_eq!(stack.get(usize::MAX), None);
    assert_eq!(stack.pop(), Some(Value::Int(3)));
    assert_eq!(stack.pop(), Some(Value::Int(2)));
    assert_eq!(stack.pop(), None);
    assert_eq!(stack.len(), 0);
    assert_eq!(stack.last(), None);
    stack.push(Value::Int(7));
    stack.push(Value::Int(8));
    stack.clean();
    assert_eq!(stack.len(), 0);
    stack.dec_base(1);
    assert_eq!(stack.len(), 1);
    assert_eq!(stack.get(0), Some(&Value::Int(1)));
    stack.dec_base(1);
    assert_eq!(stack.len(), 2);
    assert_eq!(stack.pop(), Some(Value::Int(1)));
    assert_eq!(stack.pop(), Some(Value::FuncPtr(0)));
    assert_eq!(stack.pop(), None);
    assert_eq!(stack.last(), None);
}

#[test]
fn the_call_stack_suspends_and_resumes() {
    let frame = |ins_ptr: usize| CallFrame { function: Function::new(0), ins_ptr, base_ptr: 0 };
    let mut stack = CallStack::new(frame(1));
    assert_eq!(stack.head().ins_ptr, 1);
    assert!(stack.pop().is_none());
    assert_eq!(stack.head().ins_ptr, 1);
    stack.push(frame(2));
    stack.push(frame(3));
    assert_eq!(stack.head().ins_ptr, 3);
    stack.head_mut().ins_ptr = 30;
    assert_eq!(stack.pop().map(|f| f.ins_ptr), Some(30));
    assert_eq!(stack.head().ins_ptr, 2);
    assert_eq!(stack.pop().map(|f| f.ins_ptr), Some(2));
    assert_eq!(stack.head().ins_ptr, 1);
    assert!(stack.pop().is_none());
}

#[test]
fn the_name_of_main() {
    assert_eq!(LocalId::main(), LocalId(0));
}

#[test]
fn a_frame_cannot_branch_on_what_belongs_to_its_caller() {
    for jump in [OpCode::JumpIfTrue(0), OpCode::JumpIfFalse(0)] {
        let callee = function(0, vec![OpCode::Pop, jump, push(9)]);
        let main = function(0, vec![push(1), OpCode::Push(Value::FuncPtr(1)), OpCode::Call(0)]);
        let mut interpreter = Interpreter::new(0, vec![main, callee]);
        let mut out = Vec::new();
        assert_eq!(interpreter.run(100, &mut out), Status::Faulted(Fault::StackUnderflow));
        assert!(visible(&interpreter).is_empty());
    }
}
