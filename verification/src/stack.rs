//! The two stacks of the virtual machine: the operand stack with its base
//! pointer, and the call stack of activation frames.

use vstd::prelude::*;

use crate::bytecode::{Function, Value};
use crate::semantics::FrameView;

verus! {

/// The operand stack.
///
/// The values below the base pointer belong to the callers of the running
/// frame, which sees only the values from the base pointer up.
#[derive(Debug, Clone)]
pub struct ArgStack {
    base_ptr: usize,
    stack: Vec<Value>,
}

impl Default for ArgStack {
    /// The stack on which a program starts: a pointer to the function at
    /// index 0, and a base pointer of 0.
    fn default() -> (stack: Self)
        ensures
            stack.base() == 0,
            stack.values() == seq![Value::FuncPtr(0)],
    {
        let mut stack: Vec<Value> = Vec::new();
        stack.push(Value::FuncPtr(0));
        Self { base_ptr: 0, stack }
    }
}

impl ArgStack {
    /// The base pointer.
    pub closed spec fn base(&self) -> nat {
        self.base_ptr as nat
    }

    /// Every value on the stack, bottom first.
    pub closed spec fn values(&self) -> Seq<Value> {
        self.stack@
    }

    /// Whether the base pointer is within the stack.
    pub open spec fn wf(&self) -> bool {
        self.base() <= self.values().len()
    }

    /// Machine integers hold the length of the stack and the base pointer.
    pub proof fn lemma_bounded(&self)
        ensures
            self.base() <= usize::MAX,
            self.values().len() <= usize::MAX,
    {
        assert(self.stack.len() == self.stack@.len());
    }

    /// Pushes a value.
    pub fn push(&mut self, value: Value)
        ensures
            final(self).base() == old(self).base(),
            final(self).values() == old(self).values().push(value),
    {
        self.stack.push(value);
    }

    /// Pops the top value, unless it belongs to a caller.
    pub fn pop(&mut self) -> (value: Option<Value>)
        ensures
            final(self).base() == old(self).base(),
            old(self).values().len() > old(self).base() ==> value == Some(old(self).values().last())
                && final(self).values() == old(self).values().drop_last(),
            old(self).values().len() <= old(self).base() ==> value is None && final(self).values()
                == old(self).values(),
    {
        if self.stack.len() > self.base_ptr {
            self.stack.pop()
        } else {
            None
        }
    }

    /// The value in the slot `index` of the running frame, if the stack
    /// reaches that far.
    pub fn get(&self, index: usize) -> (value: Option<&Value>)
        ensures
            value == (if self.base() + index < self.values().len() {
                Some(&self.values()[self.base() + index])
            } else {
                None
            }),
    {
        if index < self.stack.len() && self.base_ptr < self.stack.len() - index {
            Some(&self.stack[index + self.base_ptr])
        } else {
            None
        }
    }

    /// The value on top of the stack, unless it belongs to a caller.
    pub fn last(&self) -> (value: Option<&Value>)
        ensures
            value == (if self.values().len() > self.base() {
                Some(&self.values().last())
            } else {
                None
            }),
    {
        if self.stack.len() > self.base_ptr {
            Some(&self.stack[self.stack.len() - 1])
        } else {
            None
        }
    }

    /// The number of values that the running frame sees.
    pub fn len(&self) -> (n: usize)
        requires
            self.wf(),
        ensures
            n == self.values().len() - self.base(),
    {
        self.stack.len() - self.base_ptr
    }

    /// Raises the base pointer, hiding the lowest `offset` values of the
    /// running frame.
    pub fn inc_base(&mut self, offset: usize)
        requires
            old(self).base() + offset <= old(self).values().len(),
        ensures
            final(self).base() == old(self).base() + offset,
            final(self).values() == old(self).values(),
    {
        proof {
            self.lemma_bounded();
        }
        self.base_ptr += offset;
    }

    /// Lowers the base pointer.
    pub fn dec_base(&mut self, offset: usize)
        requires
            offset <= old(self).base(),
        ensures
            final(self).base() == old(self).base() - offset,
            final(self).values() == old(self).values(),
    {
        self.base_ptr -= offset;
    }

    /// Discards every value of the running frame.
    pub fn clean(&mut self)
        requires
            old(self).wf(),
        ensures
            final(self).base() == old(self).base(),
            final(self).values() == old(self).values().take(old(self).base() as int),
    {
        self.stack.truncate(self.base_ptr);
    }
}

/// An activation record: the function of a call in progress, where it stands
/// in it, and by how much the call raised the base pointer.
#[derive(Debug, Clone)]
pub struct CallFrame {
    pub function: Function,
    pub ins_ptr: usize,
    pub base_ptr: usize,
}

impl View for CallFrame {
    type V = FrameView;

    open spec fn view(&self) -> FrameView {
        FrameView {
            function: self.function@,
            ins_ptr: self.ins_ptr as nat,
            base_ptr: self.base_ptr as nat,
        }
    }
}

/// What the given frames are, as mathematical values.
pub open spec fn frames_view(frames: Seq<CallFrame>) -> Seq<FrameView> {
    Seq::new(frames.len(), |i: int| frames[i]@)
}

/// The call stack: the running frame, and the frames of its callers.
#[derive(Debug, Clone)]
pub struct CallStack {
    head: CallFrame,
    stack: Vec<CallFrame>,
}

impl CallStack {
    /// The running frame.
    pub closed spec fn top(&self) -> CallFrame {
        self.head
    }

    /// The frames of the suspended callers, outermost first.
    pub closed spec fn suspended(&self) -> Seq<FrameView> {
        frames_view(self.stack@)
    }

    /// A call stack with one frame, which nothing called.
    pub fn new(head: CallFrame) -> (stack: Self)
        ensures
            stack.top() == head,
            stack.suspended() == Seq::<FrameView>::empty(),
    {
        let stack = Self { head, stack: Vec::new() };
        stack
    }

    /// The running frame, to be changed.
    pub fn head_mut(&mut self) -> (frame: &mut CallFrame)
        ensures
            *frame == old(self).top(),
            final(self).top() == *final(frame),
            final(self).suspended() == old(self).suspended(),
    {
        &mut self.head
    }

    /// The running frame.
    pub fn head(&self) -> (frame: &CallFrame)
        ensures
            *frame == self.top(),
    {
        &self.head
    }

    /// Suspends the running frame and runs `head` in its place.
    pub fn push(&mut self, head: CallFrame)
        ensures
            final(self).top() == head,
            final(self).suspended() == old(self).suspended().push(old(self).top()@),
    {
        let mut old_head = head;
        std::mem::swap(&mut self.head, &mut old_head);
        self.stack.push(old_head);
    }

    /// Ends the running frame and gives it back, unless nothing called it.
    /// The frame of its caller runs again.
    pub fn pop(&mut self) -> (frame: Option<CallFrame>)
        ensures
            old(self).suspended().len() > 0 ==> frame == Some(old(self).top()) && final(self).top()@
                == old(self).suspended().last() && final(self).suspended() == old(
                self,
            ).suspended().drop_last(),
            old(self).suspended().len() == 0 ==> frame is None && final(self).top() == old(
                self,
            ).top() && final(self).suspended() == old(self).suspended(),
    {
        match self.stack.pop() {
            Some(new_head) => {
                let mut old_head = new_head;
                std::mem::swap(&mut self.head, &mut old_head);
                Some(old_head)
            },
            None => None,
        }
    }
}

} // verus!
