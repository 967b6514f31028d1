//! The data the compiler produces and the virtual machine consumes: values,
//! opcodes, chunks of opcodes, functions and the function heap.

use vstd::prelude::*;

verus! {

/// A run-time value: a tagged 64-bit integer or a handle into the function heap.
///
/// Booleans are the integers `0` and `1`; unit is the integer `0`.
#[derive(Debug, Clone, Copy, PartialEq, Eq, Structural)]
pub enum Value {
    /// A signed 64-bit integer.
    Int(i64),
    /// The index of a function in the heap.
    FuncPtr(usize),
}

impl Value {
    /// Unwraps the integer of a value that is known to be one.
    pub fn assert_int(self) -> (n: i64)
        requires
            self is Int,
        ensures
            self == Value::Int(n),
    {
        match self {
            Value::Int(n) => n,
            Value::FuncPtr(_) => unreached(),
        }
    }

    /// Unwraps the function pointer of a value that is known to be one.
    pub fn assert_ptr(self) -> (ptr: usize)
        requires
            self is FuncPtr,
        ensures
            self == Value::FuncPtr(ptr),
    {
        match self {
            Value::FuncPtr(ptr) => ptr,
            Value::Int(_) => unreached(),
        }
    }
}

/// One instruction of the virtual machine.
#[derive(Debug, Clone, Copy, PartialEq, Eq, Structural)]
pub enum OpCode {
    /// Writes the integer on top as a decimal numeral and a line feed, and
    /// puts unit in its place.
    PrintInt,
    /// Writes `true` if the integer on top is not zero and `false` if it is,
    /// and a line feed, and puts unit in its place.
    PrintBool,
    /// Writes `unit` and a line feed for the zero on top, and puts unit in its
    /// place.
    PrintUnit,
    /// Writes the function pointer on top as `<function at 0x..>` and a line
    /// feed, and puts unit in its place.
    PrintFunc,
    /// Leaves the integer on top as it is.
    Not,
    /// Negates the integer on top.
    Neg,
    /// Adds the two integers on top.
    Add,
    /// Subtracts the integer on top from the one below it.
    Sub,
    /// Multiplies the two integers on top.
    Mul,
    /// Divides the integer below the top by the one on top, toward zero.
    Div,
    /// The remainder of that division, with the sign of the dividend.
    Rem,
    /// `1` if both integers on top are not zero, else `0`.
    And,
    /// `1` if one of the two integers on top is not zero, else `0`.
    Or,
    /// The bitwise conjunction of the two integers on top.
    BitAnd,
    /// The bitwise disjunction of the two integers on top.
    BitOr,
    /// The bitwise exclusive disjunction of the two integers on top.
    BitXor,
    /// Shifts the integer below the top to the right by the one on top.
    Shr,
    /// Shifts the integer below the top to the left by the one on top.
    Shl,
    /// `1` if the two integers on top are equal, else `0`.
    Eq,
    /// `1` if the two integers on top differ, else `0`.
    Neq,
    /// `1` if the integer below the top is less than the one on top.
    Lt,
    /// `1` if the integer below the top is greater than the one on top.
    Gt,
    /// `1` if the integer below the top is at most the one on top.
    Lte,
    /// `1` if the integer below the top is at least the one on top.
    Gte,
    /// Pushes a copy of the slot at the given offset from the base pointer.
    Local(usize),
    /// Calls the function found below the given number of arguments.
    Call(usize),
    /// Pushes a constant.
    Push(Value),
    /// Discards the top of the operand stack.
    Pop,
    /// Returns the top of the operand stack to the caller.
    Return,
    /// Jumps forward by the given offset if the top of the stack is not zero.
    JumpIfTrue(usize),
    /// Jumps forward by the given offset if the top of the stack is zero.
    JumpIfFalse(usize),
    /// Jumps forward by the given offset.
    Skip(usize),
}

/// An ordered sequence of opcodes: the body of one function.
#[derive(Debug, Default, Clone, PartialEq, Eq)]
pub struct Chunk {
    pub code: Vec<OpCode>,
}

impl View for Chunk {
    type V = Seq<OpCode>;

    open spec fn view(&self) -> Seq<OpCode> {
        self.code@
    }
}

impl Chunk {
    /// An empty chunk.
    pub fn new() -> (chunk: Chunk)
        ensures
            chunk@ == Seq::<OpCode>::empty(),
    {
        Chunk { code: Vec::new() }
    }

    /// The number of opcodes written so far.
    pub fn len(&self) -> (n: usize)
        ensures
            n == self@.len(),
    {
        self.code.len()
    }

    /// Appends an opcode.
    pub fn write(&mut self, opcode: OpCode)
        ensures
            final(self)@ == old(self)@.push(opcode),
    {
        self.code.push(opcode);
    }

    /// The opcode at `index`, if there is one.
    pub fn read(&self, index: usize) -> (opcode: Option<&OpCode>)
        ensures
            opcode == (if index < self@.len() {
                Some(&self@[index as int])
            } else {
                None
            }),
    {
        if index < self.code.len() {
            Some(&self.code[index])
        } else {
            None
        }
    }

    /// Replaces the opcode at a previously written index.
    pub fn patch(&mut self, index: usize, opcode: OpCode)
        requires
            index < old(self)@.len(),
        ensures
            final(self)@ == old(self)@.update(index as int, opcode),
    {
        self.code[index] = opcode;
    }

    /// Drops the opcodes from the index `len` on.
    pub fn truncate(&mut self, len: usize)
        requires
            len <= old(self)@.len(),
        ensures
            final(self)@ == old(self)@.take(len as int),
    {
        self.code.truncate(len);
    }

    /// An independent copy of this chunk.
    pub fn duplicate(&self) -> (copy: Chunk)
        ensures
            copy@ == self@,
    {
        let mut code: Vec<OpCode> = Vec::new();
        let mut i: usize = 0;
        while i < self.code.len()
            invariant
                i <= self.code.len(),
                code@ == self.code@.take(i as int),
            decreases self.code.len() - i,
        {
            code.push(self.code[i]);
            i += 1;
        }
        Chunk { code }
    }
}

/// What a [`Function`] is, as a mathematical value.
pub struct FunctionView {
    pub arity: usize,
    pub code: Seq<OpCode>,
}

/// A compiled function: the number of its parameters and its body.
#[derive(Debug, Clone, PartialEq, Eq)]
pub struct Function {
    pub arity: usize,
    pub chunk: Chunk,
}

impl View for Function {
    type V = FunctionView;

    open spec fn view(&self) -> FunctionView {
        FunctionView { arity: self.arity, code: self.chunk@ }
    }
}

impl Function {
    /// A function of the given arity with an empty body.
    pub fn new(arity: usize) -> (function: Function)
        ensures
            function@ == (FunctionView { arity, code: Seq::empty() }),
    {
        Function { arity, chunk: Chunk::new() }
    }

    /// Appends an opcode to the body.
    pub fn write(&mut self, opcode: OpCode)
        ensures
            final(self)@ == (FunctionView { code: old(self)@.code.push(opcode), ..old(self)@ }),
    {
        self.chunk.write(opcode)
    }

    /// The opcode at `index` of the body, if there is one.
    pub fn read(&self, index: usize) -> (opcode: Option<&OpCode>)
        ensures
            opcode == (if index < self@.code.len() {
                Some(&self@.code[index as int])
            } else {
                None
            }),
    {
        self.chunk.read(index)
    }

    /// An independent copy of this function.
    pub fn duplicate(&self) -> (copy: Function)
        ensures
            copy@ == self@,
    {
        Function { arity: self.arity, chunk: self.chunk.duplicate() }
    }
}

/// The function heap: every compiled function, found by its index.
pub type Heap = Vec<Function>;

/// What a heap holds, as a sequence of mathematical functions.
pub open spec fn heap_view(heap: Seq<Function>) -> Seq<FunctionView> {
    Seq::new(heap.len(), |i: int| heap[i]@)
}

} // verus!
