//! Keypad input state: a 10-bit pressed/released word (0 = pressed) and an
//! interrupt-enable/condition word.

use vstd::prelude::*;

verus! {

pub const BUTTON_A: u16 = 0x001;
pub const BUTTON_B: u16 = 0x002;
pub const BUTTON_SELECT: u16 = 0x004;
pub const BUTTON_START: u16 = 0x008;
pub const BUTTON_RIGHT: u16 = 0x010;
pub const BUTTON_LEFT: u16 = 0x020;
pub const BUTTON_UP: u16 = 0x040;
pub const BUTTON_DOWN: u16 = 0x080;
pub const BUTTON_R: u16 = 0x100;
pub const BUTTON_L: u16 = 0x200;

pub struct Keypad {
    /// Button state word, one bit per button, 0 = pressed.
    pub keyinput: u16,
    /// Interrupt control word; bit 14 enables the keypad interrupt.
    pub keycnt: u16,
}

impl Keypad {
    /// All buttons released, interrupt disabled.
    pub fn new() -> (r: Keypad)
        ensures
            r.keyinput == 0xFFFFu16,
            r.keycnt == 0u16,
    {
        Keypad { keyinput: 0xFFFF, keycnt: 0 }
    }

    /// Clears the bits of `buttons` in the state word (0 = pressed).
    pub fn press(&mut self, buttons: u16)
        ensures
            final(self).keyinput == (old(self).keyinput & !buttons),
            final(self).keycnt == old(self).keycnt,
    {
        self.keyinput = self.keyinput & !buttons;
    }

    /// Sets the bits of `buttons` in the state word (1 = released).
    pub fn release(&mut self, buttons: u16)
        ensures
            final(self).keyinput == (old(self).keyinput | buttons),
            final(self).keycnt == old(self).keycnt,
    {
        self.keyinput = self.keyinput | buttons;
    }

    /// The keypad interrupt gate: bit 14 of the control word.
    pub fn is_irq_enabled(&self) -> (r: bool)
        ensures
            r == ((self.keycnt & 0x4000u16) != 0u16),
    {
        (self.keycnt & 0x4000) != 0
    }
}

} // verus!
