//! The timer subsystem: the host invokes it at a fixed cadence, distinct
//! from the instruction rate, to age the delay and sound timers.

use super::{Emu, EmuView};
use vstd::prelude::*;

verus! {

impl Emu {
    /// Decrement each timer that is still running. Reports `true` exactly
    /// when the sound timer runs out on this step, that is, it was 1 before
    /// the decrement: the host should then emit one tone pulse.
    pub fn tick_timers(&mut self) -> (play_tone: bool)
        ensures
            final(self).view() == (EmuView {
                dt: if old(self).view().dt > 0 {
                    (old(self).view().dt - 1) as u8
                } else {
                    0
                },
                st: if old(self).view().st > 0 {
                    (old(self).view().st - 1) as u8
                } else {
                    0
                },
                ..old(self).view()
            }),
            play_tone == (old(self).view().st == 1),
    {
        let mut play_tone = false;
        if self.dt > 0 {
            self.dt = self.dt - 1;
        }
        if self.st > 0 {
            if self.st == 1 {
                play_tone = true;
            }
            self.st = self.st - 1;
        }
        play_tone
    }
}

} // verus!
