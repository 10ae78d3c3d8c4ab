//! The call stack: a last-in-first-out sequence of 16-bit return addresses
//! with a fixed capacity of 16, used only by the call and return opcodes.

use vstd::prelude::*;

use crate::model::EmuError;

verus! {

/// A fixed-capacity stack of pending return addresses. Pushing onto a full
/// stack and popping from an empty one are reported, never silently dropped.
pub struct Stack {
    entries: Vec<u16>,
}

impl View for Stack {
    type V = Seq<u16>;

    closed spec fn view(&self) -> Seq<u16> {
        self.entries@
    }
}

impl Stack {
    /// The capacity bound: at most 16 return addresses are ever pending.
    pub open spec fn wf(self) -> bool {
        self@.len() <= crate::STACK_SIZE
    }

    pub fn new() -> (r: Stack)
        ensures
            r.wf(),
            r@ == Seq::<u16>::empty(),
    {
        Stack { entries: Vec::new() }
    }

    pub fn push(&mut self, value: u16) -> (r: Result<(), EmuError>)
        requires
            old(self).wf(),
        ensures
            final(self).wf(),
            match r {
                Ok(()) => old(self)@.len() < crate::STACK_SIZE
                    && final(self)@ == old(self)@.push(value),
                Err(e) => e == EmuError::StackOverflow
                    && old(self)@.len() == crate::STACK_SIZE
                    && final(self)@ == old(self)@,
            },
    {
        if self.entries.len() >= crate::STACK_SIZE {
            Err(EmuError::StackOverflow)
        } else {
            self.entries.push(value);
            Ok(())
        }
    }

    pub fn pop(&mut self) -> (r: Result<u16, EmuError>)
        requires
            old(self).wf(),
        ensures
            final(self).wf(),
            match r {
                Ok(a) => old(self)@.len() > 0
                    && a == old(self)@.last()
                    && final(self)@ == old(self)@.drop_last(),
                Err(e) => e == EmuError::StackUnderflow
                    && old(self)@.len() == 0
                    && final(self)@ == old(self)@,
            },
    {
        match self.entries.pop() {
            Some(a) => Ok(a),
            None => Err(EmuError::StackUnderflow),
        }
    }
}

} // verus!
