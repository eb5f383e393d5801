use vstd::prelude::*;

use crate::error::EmuError;

verus! {

/// The number of return addresses the call stack can hold.
pub const STACK_SIZE: usize = 16;

/// A fixed-capacity LIFO of 16-bit return addresses with an explicit stack pointer.
pub struct Stack {
    data: [u16; STACK_SIZE],
    sp: u16,
}

impl View for Stack {
    type V = Seq<u16>;

    /// The addresses on the stack, oldest first.
    closed spec fn view(&self) -> Seq<u16> {
        self.data@.subrange(0, self.sp as int)
    }
}

impl Stack {
    /// The stack pointer never exceeds the capacity.
    pub closed spec fn wf(&self) -> bool {
        self.sp as int <= STACK_SIZE
    }

    /// An empty stack.
    pub fn new() -> (s: Stack)
        ensures
            s.wf(),
            s@ == Seq::<u16>::empty(),
    {
        let s = Stack { data: [0u16; STACK_SIZE], sp: 0 };
        assert(s@ =~= Seq::<u16>::empty());
        s
    }

    /// How many addresses are on the stack.
    pub fn len(&self) -> (n: usize)
        requires
            self.wf(),
        ensures
            n == self@.len(),
            n <= STACK_SIZE,
    {
        self.sp as usize
    }

    /// Writes `val` at the stack pointer and advances it; a full stack is left
    /// as it was and reported as an overflow.
    pub fn push(&mut self, val: u16) -> (r: Result<(), EmuError>)
        requires
            old(self).wf(),
        ensures
            final(self).wf(),
            match r {
                Ok(()) => old(self)@.len() < STACK_SIZE && final(self)@ == old(self)@.push(val),
                Err(e) => old(self)@.len() >= STACK_SIZE && e == EmuError::StackOverflow
                    && final(self)@ == old(self)@,
            },
    {
        if self.sp as usize >= STACK_SIZE {
            return Err(EmuError::StackOverflow);
        }
        let ghost before = self@;
        self.data[self.sp as usize] = val;
        self.sp = self.sp + 1;
        assert(self@ =~= before.push(val));
        Ok(())
    }

    /// Steps the stack pointer back and returns the address found there; an
    /// empty stack is left as it was and reported as an underflow.
    pub fn pop(&mut self) -> (r: Result<u16, EmuError>)
        requires
            old(self).wf(),
        ensures
            final(self).wf(),
            match r {
                Ok(v) => old(self)@.len() > 0 && v == old(self)@.last()
                    && final(self)@ == old(self)@.drop_last(),
                Err(e) => old(self)@.len() == 0 && e == EmuError::StackUnderflow
                    && final(self)@ == old(self)@,
            },
    {
        if self.sp == 0 {
            return Err(EmuError::StackUnderflow);
        }
        let ghost before = self@;
        self.sp = self.sp - 1;
        assert(self@ =~= before.drop_last());
        Ok(self.data[self.sp as usize])
    }
}

} // verus!
