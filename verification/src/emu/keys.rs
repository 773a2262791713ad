//! Key state updates from the host's input collaborator.

use super::{Emu, EmuView};
use crate::constants::NUM_KEYS;
use vstd::prelude::*;

verus! {

impl Emu {
    /// Record that a logical key went down or up. An index outside the
    /// keypad is ignored.
    pub fn keypress(&mut self, idx: usize, pressed: bool)
        ensures
            idx < NUM_KEYS ==> final(self).view() == (EmuView {
                keys: old(self).view().keys.update(idx as int, pressed),
                ..old(self).view()
            }),
            idx >= NUM_KEYS ==> final(self).view() == old(self).view(),
    {
        if idx >= NUM_KEYS {
            return ;
        }
        self.keys[idx] = pressed;
    }
}

} // verus!
