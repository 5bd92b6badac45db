//! The scheduler shell: the per-step loop that fetches an opcode, runs the
//! immediate DMA scan, executes or idles the core, advances the scanline
//! timebase, raises the blanking interrupts and publishes completed frames.

use vstd::prelude::*;

use crate::cpu::{
    cpsr_mode, cpsr_thumb, valid_mode, CPU, IRQ_HBLANK, IRQ_VBLANK, IRQ_VCOUNT, MODE_IRQ,
};
use crate::dma::{dma_run_ok, dma_run_rel, spec_dma_check};
use crate::irq::spec_can_irq_trigger;
use crate::lcd::DISPSTAT_HBLANK;
use crate::mem::{mask_addr, read_u32_ok, spec_read_u32};

verus! {

/// What the core publishes to a renderer at each frame boundary.
pub struct RenderMessage {
    pub dispcnt: u16,
    pub frame: bool,
    pub backgrounds: Vec<BackgroundMessage>,
}

/// One background's control word and offsets, as the renderer consumes them.
pub struct BackgroundMessage {
    pub control: u16,
    pub offset: (u16, u16),
    pub width: u32,
    pub height: u32,
}

/// The emulator thread's state: the core plus the scanline timebase.
pub struct Emulator {
    pub cpu: CPU,
    /// Cycles into the current scanline; below 1232.
    pub timer_scanline: usize,
}

/// The opcode the next step fetches: the word at the counter, or for the
/// compact encoding the half selected by the counter's low bit.
pub open spec fn spec_fetch(c: CPU) -> u32 {
    let pc = c.registers@[15];
    if cpsr_thumb(c.reg_cpsr) {
        let word = spec_read_u32(c, mask_addr((pc & 0xFFFFFFFEu32) as u32));
        if (pc & 1u32) == 1u32 {
            ((word >> 16u32) & 0xFFFFu32) as u32
        } else {
            (word & 0xFFFFu32) as u32
        }
    } else {
        spec_read_u32(c, mask_addr(pc))
    }
}

/// The inputs on which one scheduler step completes without a fault: a
/// mapped program counter whose word is readable, a well-formed immediate
/// DMA descriptor when one is pending, and an executable opcode otherwise.
pub open spec fn step_ok(e: Emulator) -> bool {
    let c = e.cpu;
    &&& c.wf()
    &&& valid_mode(cpsr_mode(c.reg_cpsr))
    &&& c.spec_pc() + 8 <= u32::MAX
    &&& c.cycle_count + 32 <= usize::MAX
    &&& e.timer_scanline < 1232
    &&& (!c.panicked && c.spec_addr_valid(c.registers@[15]) ==> {
        &&& (cpsr_thumb(c.reg_cpsr) ==> read_u32_ok(
            c,
            false,
            (c.registers@[15] & 0xFFFFFFFEu32) as u32,
        ))
        &&& (!cpsr_thumb(c.reg_cpsr) ==> read_u32_ok(c, false, c.registers@[15]))
        &&& (spec_dma_check(c) is Some ==> dma_run_ok(c, spec_dma_check(c)->0))
        &&& (spec_dma_check(c) is None && (!c.halt || cpsr_mode(c.reg_cpsr) == MODE_IRQ) ==> (
        if cpsr_thumb(c.reg_cpsr) {
            crate::thumb::thumb_exec_ok(c, (spec_fetch(c) & 0xFFFFu32) as u16)
        } else {
            crate::arm::arm_exec_ok(c, spec_fetch(c))
        }))
    })
}

/// The instruction stage of one step: a pending immediate transfer runs, or
/// one instruction executes, or a halted core outside IRQ mode idles for one
/// cycle.
pub open spec fn exec_stage_rel(pre: CPU, mid: CPU, opcode: u32) -> bool {
    if spec_dma_check(pre) is Some {
        dma_run_rel(pre, mid, spec_dma_check(pre)->0)
    } else if !pre.halt || cpsr_mode(pre.reg_cpsr) == MODE_IRQ {
        crate::arm::exec_step_rel(pre, mid, opcode)
    } else {
        mid == (CPU { cycle_count: (pre.cycle_count + 1) as usize, ..pre })
    }
}

/// The scanline counter after one advance.
pub open spec fn next_vcount(v: u16) -> u16 {
    if v == 227 {
        0u16
    } else if v == 0xFFFF {
        0u16
    } else {
        (v + 1) as u16
    }
}

/// The timebase stage of one step: the timer accumulates the stage's cycles
/// and wraps at the scanline length, advancing the counter, trying the
/// V-blank delivery exactly when the counter becomes 160, and setting the
/// H-blank flag exactly over the blank suffix of the scanline.
pub open spec fn timebase_stage_rel(
    mid: CPU,
    cycles0: int,
    timer0: int,
    post: Emulator,
    framed: bool,
) -> bool {
    let t1 = timer0 + (mid.cycle_count - cycles0);
    let crossed = t1 >= 1232;
    let newv = next_vcount(mid.lcd.spec_vcount());
    &&& post.timer_scanline == (if crossed {
        t1 - 1232
    } else {
        t1
    })
    &&& framed == (crossed && newv == 0)
    &&& post.cpu.lcd.spec_vcount() == (if crossed {
        newv
    } else {
        mid.lcd.spec_vcount()
    })
    &&& ((post.cpu.lcd.spec_dispstat() & DISPSTAT_HBLANK) != 0u16) == (post.timer_scanline >= 1006)
    &&& (crossed && newv == 160 ==> post.cpu.io_if & IRQ_VBLANK == (if spec_can_irq_trigger(
        mid,
        IRQ_VBLANK,
    ) {
        IRQ_VBLANK
    } else {
        (mid.io_if & IRQ_VBLANK) as u16
    }))
    &&& post.cpu.cycle_count == mid.cycle_count
}

/// Raising one pending bit never disturbs the V-blank bit, and raising the
/// V-blank bit leaves it set.
proof fn pending_bit_or(x: u16)
    by (bit_vector)
    ensures
        (x | 0x1u16) & 0x1u16 == 0x1u16,
        (x | 0x2u16) & 0x1u16 == x & 0x1u16,
        (x | 0x4u16) & 0x1u16 == x & 0x1u16,
{
}

impl Emulator {
    /// A fresh emulator around a fresh core.
    pub fn new() -> (r: Emulator)
        ensures
            r.cpu.wf(),
            r.timer_scanline == 0,
    {
        Emulator { cpu: CPU::new(), timer_scanline: 0 }
    }

    /// Runs one scheduler step.  A step on a faulted core does nothing; a
    /// step whose counter is unmapped marks the core faulted.  Otherwise the
    /// step services a pending immediate DMA transfer, or executes the
    /// fetched instruction (one idle cycle while halted outside IRQ mode),
    /// then advances the scanline timebase: the counter moves exactly when
    /// the accumulated cycles cross a scanline, the V-blank delivery is
    /// tried exactly when the counter becomes 160, the V-count match and
    /// H-blank interrupts are tried at their boundaries, and the frame
    /// message comes back exactly when the counter wraps to scanline zero.
    #[verifier::rlimit(100)]
    #[verifier::spinoff_prover]
    pub fn step(&mut self) -> (frame: Option<RenderMessage>)
        requires
            step_ok(*old(self)),
        ensures
            final(self).cpu.wf(),
            final(self).timer_scanline < 1232,
            old(self).cpu.panicked ==> *final(self) == *old(self) && frame is None,
            (!old(self).cpu.panicked && !old(self).cpu.spec_addr_valid(
                old(self).cpu.registers@[15],
            )) ==> final(self).cpu == (CPU { panicked: true, ..old(self).cpu })
                && final(self).timer_scanline == old(self).timer_scanline && frame is None,
            (!old(self).cpu.panicked && old(self).cpu.spec_addr_valid(old(self).cpu.registers@[15]))
                ==> exists|mid: CPU|
                {
                    &&& #[trigger] exec_stage_rel(old(self).cpu, mid, spec_fetch(old(self).cpu))
                    &&& timebase_stage_rel(
                        mid,
                        old(self).cpu.cycle_count as int,
                        old(self).timer_scanline as int,
                        *final(self),
                        frame is Some,
                    )
                },
    {
        if self.cpu.panicked {
            return None;
        }

        let pc = self.cpu.get_program_counter();
        if !self.cpu.addr_valid(pc) {
            self.cpu.panicked = true;
            return None;
        }

        let is_thumb = self.cpu.is_thumb();
        let opcode: u32 = if is_thumb {
            let word = self.cpu.read_u32(false, pc & 0xFFFFFFFE);
            if (pc & 0x1) == 0x1 {
                (word >> 16) & 0xFFFF
            } else {
                word & 0xFFFF
            }
        } else {
            self.cpu.read_u32(false, pc)
        };

        proof {
            assert(opcode == spec_fetch(old(self).cpu));
        }

        let cycles_before = self.cpu.cycle_count;

        let pending = self.cpu.dma_check();
        if let Some(num) = pending {
            self.cpu.dma_run(num);
        } else if !self.cpu.halt || self.cpu.get_mode() == MODE_IRQ {
            self.cpu.execute(opcode);
        } else {
            self.cpu.cycle_count = self.cpu.cycle_count + 1;
        }

        let ghost mid = self.cpu;
        proof {
            assert(exec_stage_rel(old(self).cpu, mid, spec_fetch(old(self).cpu)));
        }

        let dt = self.cpu.cycle_count - cycles_before;
        self.timer_scanline = self.timer_scanline + dt;

        let mut frame: Option<RenderMessage> = None;

        let ghost crossed = self.timer_scanline >= 1232;
        if self.timer_scanline >= 1232 {
            self.timer_scanline = self.timer_scanline - 1232;
            let vcount = self.cpu.lcd.increment_vcount();
            let ghost m2 = self.cpu;
            proof {
                assert(vcount == next_vcount(mid.lcd.spec_vcount()));
                assert(m2.lcd.spec_dispstat() & 0x8u16 == mid.lcd.spec_dispstat() & 0x8u16);
                assert(spec_can_irq_trigger(m2, IRQ_VBLANK) == spec_can_irq_trigger(
                    mid,
                    IRQ_VBLANK,
                ));
            }

            if vcount == 0 {
                frame = Some(self.render_message());
            } else if vcount == 160 {
                self.cpu.try_trigger_irq(IRQ_VBLANK);
                proof {
                    pending_bit_or(m2.io_if);
                    if spec_can_irq_trigger(m2, IRQ_VBLANK) {
                        assert(self.cpu.io_if == (m2.io_if | IRQ_VBLANK));
                        assert((m2.io_if | 0x1u16) & 0x1u16 == 0x1u16);
                    }
                }
            }

            let ghost m3 = self.cpu;
            if self.cpu.lcd.get_dispstat_vcount_flag() {
                self.cpu.try_trigger_irq(IRQ_VCOUNT);
                proof {
                    pending_bit_or(m3.io_if);
                }
            }
        }

        let ghost m4 = self.cpu;
        if self.timer_scanline < 1006 {
            self.cpu.lcd.set_dispstat_hblank(false);
        } else {
            self.cpu.lcd.set_dispstat_hblank(true);
            let ghost m5 = self.cpu;
            self.cpu.try_trigger_irq(IRQ_HBLANK);
            proof {
                pending_bit_or(m5.io_if);
            }
        }

        proof {
            pending_bit_or(mid.io_if);
            assert(timebase_stage_rel(
                mid,
                old(self).cpu.cycle_count as int,
                old(self).timer_scanline as int,
                *self,
                frame is Some,
            ));
        }

        frame
    }

    /// The frame-boundary message: display mode and frame selector with the
    /// four background control words and offset pairs.
    fn render_message(&self) -> (r: RenderMessage)
        requires
            self.cpu.wf(),
    {
        let mut backgrounds: Vec<BackgroundMessage> = Vec::new();
        let mut n: u8 = 0;
        while n < 4
            invariant
                self.cpu.wf(),
                n <= 4,
            decreases 4 - n,
        {
            let bg = BackgroundMessage {
                control: self.cpu.lcd.get_background_control(n),
                offset: self.cpu.lcd.get_background_offset(n),
                width: 0,
                height: 0,
            };
            backgrounds.push(bg);
            n = n + 1;
        }
        RenderMessage {
            dispcnt: self.cpu.lcd.get_dispcnt(),
            frame: self.cpu.lcd.get_dispcnt_frame(),
            backgrounds,
        }
    }
}

} // verus!
