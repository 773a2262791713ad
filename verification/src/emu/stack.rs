//! The call-return stack: push on `Call`, pop on `Return`. Pushing with the
//! stack pointer already at its limit overflows; popping an empty stack
//! underflows. Both are fatal.

use super::error::Chip8Error;
use super::{wf, Emu, EmuView};
use crate::constants::STACK_SIZE;
use vstd::prelude::*;

verus! {

impl Emu {
    /// Push a return address. Fails with `StackOverflow`, changing nothing,
    /// once the stack is full.
    pub(crate) fn push(&mut self, val: u16) -> (r: Result<(), Chip8Error>)
        requires
            wf(old(self).view()),
        ensures
            wf(final(self).view()),
            old(self).view().sp < STACK_SIZE ==> r == Ok::<(), Chip8Error>(())
                && final(self).view() == (EmuView {
                stack: old(self).view().stack.update(old(self).view().sp as int, val),
                sp: (old(self).view().sp + 1) as u16,
                ..old(self).view()
            }),
            old(self).view().sp >= STACK_SIZE ==> r == Err::<(), Chip8Error>(
                Chip8Error::StackOverflow,
            ) && final(self).view() == old(self).view(),
    {
        if self.sp as usize >= STACK_SIZE {
            return Err(Chip8Error::StackOverflow);
        }
        self.stack[self.sp as usize] = val;
        self.sp = self.sp + 1;
        Ok(())
    }

    /// Pop the most recent return address. Fails with `StackUnderflow`,
    /// changing nothing, when the stack is empty.
    pub(crate) fn pop(&mut self) -> (r: Result<u16, Chip8Error>)
        requires
            wf(old(self).view()),
        ensures
            wf(final(self).view()),
            old(self).view().sp > 0 ==> r == Ok::<u16, Chip8Error>(
                old(self).view().stack[old(self).view().sp - 1],
            ) && final(self).view() == (EmuView {
                sp: (old(self).view().sp - 1) as u16,
                ..old(self).view()
            }),
            old(self).view().sp == 0 ==> r == Err::<u16, Chip8Error>(Chip8Error::StackUnderflow)
                && final(self).view() == old(self).view(),
    {
        if self.sp == 0 {
            return Err(Chip8Error::StackUnderflow);
        }
        self.sp = self.sp - 1;
        return Ok(self.stack[self.sp as usize]);
    }
}

} // verus!
