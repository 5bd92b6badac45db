//! Interrupt controller: the master-enable, enable and pending words, the
//! per-source gating, and the trigger sequence that spills mode state and
//! redirects execution to the firmware's IRQ vector.

use vstd::prelude::*;

use crate::cpu::{
    cpsr_mode, cpsr_thumb, mem_eq, CPU, IRQ_DEBUG1, IRQ_DEBUG2, IRQ_GAMEPAK, IRQ_HBLANK,
    IRQ_KEYPAD, IRQ_VBLANK, IRQ_VCOUNT, MODE_IRQ, pc_masked, slot_id, slot_val,
};

verus! {

/// Whether the given source may deliver an interrupt right now: its bit must
/// be enabled, the master enable on, the CPU's mask bit clear, a halt
/// narrowed by the firmware wait word must include the source, and the
/// source's own device gate must be open.
pub open spec fn spec_can_irq_trigger(c: CPU, irq: u16) -> bool {
    let ime_enable = (c.io_ime & 0x1u8) == 0x1u8;
    let ie_enable = (c.io_ie & irq) == irq;
    let irq_enable = (c.reg_cpsr & 0x80u32) != 0x80u32;
    let bios_if_enable = (c.io_bios_if & irq) == irq;
    if !ie_enable || !irq_enable || !ime_enable {
        false
    } else if c.halt && (c.io_bios_if != 0u16 && !bios_if_enable) {
        false
    } else if irq == IRQ_VBLANK {
        (c.lcd.spec_dispstat() & 0x8u16) != 0u16
    } else if irq == IRQ_HBLANK {
        (c.lcd.spec_dispstat() & 0x10u16) != 0u16
    } else if irq == IRQ_VCOUNT {
        (c.lcd.spec_dispstat() & 0x20u16) != 0u16
    } else if irq == IRQ_KEYPAD {
        (c.keypad.keycnt & 0x4000u16) != 0u16
    } else if irq == IRQ_GAMEPAK || irq == IRQ_DEBUG1 || irq == IRQ_DEBUG2 {
        true
    } else {
        false
    }
}

/// Relation between the states before and after exception entry for `irq`:
/// the source's pending bit is raised, the halt flag drops, the status word
/// is spilled into the IRQ-mode saved status, the mode becomes IRQ with
/// interrupts masked and the wide encoding selected, the IRQ-banked link
/// register takes the return address, and the program counter moves to the
/// firmware's IRQ vector.
pub open spec fn irq_entry_rel(pre: CPU, post: CPU, irq: u16) -> bool {
    &&& post.io_if == (pre.io_if | irq)
    &&& post.halt == false
    &&& post.regs_spsr@ == pre.regs_spsr@.update(MODE_IRQ as int, pre.reg_cpsr)
    &&& post.reg_cpsr == 0x92u32
    &&& post.regs_irq@ == pre.regs_irq@.update(1, crate::alu::wrap32(pre.spec_pc() + 4))
    &&& post.registers@ == pre.registers@.update(15, 0x18u32)
    &&& post.regs_fiq == pre.regs_fiq
    &&& post.regs_svc == pre.regs_svc
    &&& post.regs_abt == pre.regs_abt
    &&& post.regs_und == pre.regs_und
    &&& mem_eq(pre, post)
    &&& post.dma == pre.dma
    &&& post.timers == pre.timers
    &&& post.io_waitcnt == pre.io_waitcnt
    &&& post.io_ime == pre.io_ime
    &&& post.io_ie == pre.io_ie
    &&& post.keypad == pre.keypad
    &&& post.lcd == pre.lcd
    &&& post.serial == pre.serial
    &&& post.io_bios_if == pre.io_bios_if
    &&& post.panicked == pre.panicked
    &&& post.mem_ptr == pre.mem_ptr
    &&& post.cycle_count == pre.cycle_count
}

/// The status word an S-bit data-processing write to the program counter
/// restores: the saved status of the current mode.
pub open spec fn spec_exception_return_cpsr(c: CPU) -> u32 {
    c.regs_spsr@[cpsr_mode(c.reg_cpsr) as int]
}

impl CPU {
    /// Performs exception entry for `irq`: raises its pending bit, wakes the
    /// core, saves the status word into the IRQ-mode saved status, enters IRQ
    /// mode with interrupts masked and the wide encoding, stores the return
    /// address in the IRQ-banked link register and jumps to the IRQ vector.
    pub fn trigger_irq(&mut self, irq: u16)
        requires
            old(self).wf(),
        ensures
            final(self).wf(),
            irq_entry_rel(*old(self), *final(self), irq),
    {
        self.io_if = self.io_if | irq;
        self.halt = false;

        // Store current CPSR into SPSR[IRQ].
        self.regs_spsr[MODE_IRQ as usize] = self.reg_cpsr;

        // Set IRQ mode (0x2) with interrupts masked (0x80) and the wide
        // encoding selected; 0x10 is the fixed high bit of the mode field.
        self.reg_cpsr = 0x92;
        proof {
            assert(cpsr_mode(0x92u32) == 0x2u8 && !cpsr_thumb(0x92u32) && (0x18u32
                & 0xFFFFFFFCu32) == 0x18u32) by (bit_vector);
        }

        let pc = self.get_program_counter();
        let ghost s1 = *self;
        self.write_register(14, pc.wrapping_add(4));
        let ghost s2 = *self;
        self.set_program_counter(0x18);

        proof {
            assert(slot_id(cpsr_mode(s1.reg_cpsr), 14) == 28);
            assert(slot_id(cpsr_mode(s2.reg_cpsr), 15) == 15);
            assert(self.registers@ == old(self).registers@.update(
                15,
                pc_masked(0x18u32, cpsr_thumb(s2.reg_cpsr)),
            ));
        }
    }

    /// Whether `irq` may deliver right now; see `spec_can_irq_trigger`.
    pub fn can_irq_trigger(&self, irq: u16) -> (r: bool)
        requires
            self.wf(),
        ensures
            r == spec_can_irq_trigger(*self, irq),
    {
        let ime_enable = (self.io_ime & 0x1) == 0x1;
        let ie_enable = (self.io_ie & irq) == irq;
        let irq_enable = (self.reg_cpsr & 0x80) != 0x80;

        let bios_if_enable = (self.io_bios_if & irq) == irq;

        if !ie_enable || !irq_enable || !ime_enable {
            return false;
        }
        if self.halt && (self.io_bios_if != 0 && !bios_if_enable) {
            return false;
        }
        if irq == IRQ_VBLANK {
            self.lcd.is_vblank_irq_enabled()
        } else if irq == IRQ_HBLANK {
            self.lcd.is_hblank_irq_enabled()
        } else if irq == IRQ_VCOUNT {
            self.lcd.is_vcount_irq_enabled()
        } else if irq == IRQ_KEYPAD {
            self.keypad.is_irq_enabled()
        } else if irq == IRQ_GAMEPAK || irq == IRQ_DEBUG1 || irq == IRQ_DEBUG2 {
            // The cartridge-present and debug sources gate unconditionally.
            true
        } else {
            false
        }
    }

    /// Delivers `irq` if its gate is open and reports whether it did.  The
    /// halt flag ends cleared exactly when an allowed source triggered (or it
    /// was already clear).
    pub fn try_trigger_irq(&mut self, irq: u16) -> (r: bool)
        requires
            old(self).wf(),
        ensures
            final(self).wf(),
            r == spec_can_irq_trigger(*old(self), irq),
            r ==> irq_entry_rel(*old(self), *final(self), irq),
            !r ==> *final(self) == *old(self),
            final(self).halt == (old(self).halt && !spec_can_irq_trigger(*old(self), irq)),
    {
        if self.can_irq_trigger(irq) {
            self.trigger_irq(irq);
            true
        } else {
            false
        }
    }
}

/// Entering IRQ mode and then returning through an S-bit data-processing
/// write to the program counter restores the status word exactly.
pub proof fn lemma_irq_entry_return_restores_cpsr(pre: CPU, post: CPU, irq: u16)
    requires
        pre.wf(),
        irq_entry_rel(pre, post, irq),
    ensures
        spec_exception_return_cpsr(post) == pre.reg_cpsr,
{
    assert(cpsr_mode(0x92u32) == 0x2u8) by (bit_vector);
}

} // verus!
