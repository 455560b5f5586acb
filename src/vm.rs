use vstd::prelude::*;
use crate::interpret::InterpreterError;

verus! {

/// A value on the operand stack. Floating-point values are held as their
/// IEEE 754 bit patterns.
#[derive(Clone, Copy, Debug, PartialEq, Eq, Structural)]
pub enum VMValue {
    Int(i32),
    Long(i64),
    Byte(u8),
    Float(u32),
    Double(u64),
    Null,
}

impl VMValue {
    /// The integer that an `Int` holds.
    pub fn as_int(self) -> (r: i32)
        requires
            self is Int,
        ensures
            r == self->Int_0,
    {
        match self {
            VMValue::Int(v) => v,
            _ => 0,
        }
    }
}

/// The operand stack: storage that only grows, and a top index below which
/// the values live. A push below the end of the storage overwrites in place.
#[derive(Debug)]
pub struct VM {
    interop_stack: Vec<VMValue>,
    interop_stack_ptr: usize,
}

impl View for VM {
    type V = Seq<VMValue>;

    /// The values on the stack, bottom first.
    closed spec fn view(&self) -> Seq<VMValue> {
        self.interop_stack@.subrange(0, self.interop_stack_ptr as int)
    }
}

impl VM {
    /// The top index lies within the storage.
    pub closed spec fn wf(&self) -> bool {
        self.interop_stack_ptr <= self.interop_stack@.len()
    }

    /// A well-formed stack holds no more values than a `usize` counts.
    pub proof fn lemma_len_fits(&self)
        requires
            self.wf(),
        ensures
            self@.len() <= usize::MAX,
    {
    }

    /// An empty stack with room for `initial_capacity` values.
    pub fn new(initial_capacity: usize) -> (r: Self)
        ensures
            r.wf(),
            r@ == Seq::<VMValue>::empty(),
    {
        let v = VM { interop_stack: Vec::with_capacity(initial_capacity), interop_stack_ptr: 0 };
        proof {
            assert(v@ =~= Seq::<VMValue>::empty());
        }
        v
    }

    /// How many values are on the stack.
    pub fn len(&self) -> (r: usize)
        requires
            self.wf(),
        ensures
            r == self@.len(),
    {
        self.interop_stack_ptr
    }

    /// The value `depth` places below the top (0 is the top), where there is one.
    pub fn peek(&self, depth: usize) -> (r: Option<VMValue>)
        requires
            self.wf(),
        ensures
            depth < self@.len() ==> r == Some(self@[self@.len() - 1 - depth]),
            depth >= self@.len() ==> r is None,
    {
        if depth < self.interop_stack_ptr {
            Some(self.interop_stack[self.interop_stack_ptr - 1 - depth])
        } else {
            None
        }
    }

    pub fn push(&mut self, val: VMValue)
        requires
            old(self).wf(),
            old(self)@.len() < usize::MAX,
        ensures
            final(self).wf(),
            final(self)@ == old(self)@.push(val),
    {
        let ptr = self.interop_stack_ptr;
        if ptr == self.interop_stack.len() {
            self.interop_stack.push(val);
        } else {
            self.interop_stack.set(ptr, val);
        }
        self.interop_stack_ptr = ptr + 1;
        proof {
            assert(final(self)@ =~= old(self)@.push(val));
        }
    }

    /// Takes the top value off the stack; an empty stack underflows.
    pub fn pop(&mut self) -> (r: Result<VMValue, InterpreterError>)
        requires
            old(self).wf(),
        ensures
            final(self).wf(),
            old(self)@.len() == 0 ==> r == Err::<VMValue, _>(InterpreterError::StackUnderflow)
                && final(self)@ == old(self)@,
            old(self)@.len() > 0 ==> r == Ok::<_, InterpreterError>(old(self)@.last())
                && final(self)@ == old(self)@.drop_last(),
    {
        if self.interop_stack_ptr == 0 {
            return Err(InterpreterError::StackUnderflow);
        }
        self.interop_stack_ptr = self.interop_stack_ptr - 1;
        proof {
            assert(final(self)@ =~= old(self)@.drop_last());
        }
        Ok(self.interop_stack[self.interop_stack_ptr])
    }
}

} // verus!
