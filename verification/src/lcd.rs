//! Display controller state: the block of 88 bytes of display I/O registers
//! (control, status, scanline counter, background controls and offsets,
//! window, mosaic and blend registers), with typed accessors and the
//! per-scanline counter update.

use vstd::prelude::*;

verus! {

pub const DISPSTAT_VBLANK: u16 = 0x1;
pub const DISPSTAT_HBLANK: u16 = 0x2;
pub const DISPSTAT_VCOUNTER: u16 = 0x4;

/// Number of bytes in the display register block.
pub const LCD_REG_BYTES: usize = 88;

pub struct LCD {
    /// The raw register block, little endian, one 16-bit register per pair.
    pub registers: Vec<u8>,
}

/// The 16-bit register at byte offset `a` of a register block.
pub open spec fn reg16(regs: Seq<u8>, a: int) -> u16 {
    (((regs[a + 1] as u16) << 8u16) | (regs[a] as u16)) as u16
}

/// A register block with the 16-bit register at byte offset `a` replaced by `v`.
pub open spec fn reg16_set(regs: Seq<u8>, a: int, v: u16) -> Seq<u8> {
    regs.update(a + 1, ((v >> 8u16) & 0xFFu16) as u8).update(a, (v & 0xFFu16) as u8)
}

impl LCD {
    pub open spec fn wf(&self) -> bool {
        self.registers@.len() == LCD_REG_BYTES
    }

    /// The display status register (byte offset 4).
    pub open spec fn spec_dispstat(&self) -> u16 {
        reg16(self.registers@, 4)
    }

    /// The scanline counter register (byte offset 6).
    pub open spec fn spec_vcount(&self) -> u16 {
        reg16(self.registers@, 6)
    }

    pub fn new() -> (r: LCD)
        ensures
            r.wf(),
            forall|i: int| 0 <= i < LCD_REG_BYTES ==> r.registers@[i] == 0u8,
    {
        LCD { registers: vec![0u8; LCD_REG_BYTES] }
    }

    pub fn reset(&mut self)
        ensures
            final(self).wf(),
            forall|i: int| 0 <= i < LCD_REG_BYTES ==> final(self).registers@[i] == 0u8,
    {
        self.registers = vec![0u8; LCD_REG_BYTES];
    }

    fn get_u16(&self, addr: u32) -> (r: u16)
        requires
            self.wf(),
            addr + 1 < LCD_REG_BYTES,
        ensures
            r == reg16(self.registers@, addr as int),
    {
        let a = addr as usize;
        ((self.registers[a + 1] as u16) << 8) | (self.registers[a] as u16)
    }

    fn set_u16(&mut self, addr: u32, val: u16)
        requires
            old(self).wf(),
            addr + 1 < LCD_REG_BYTES,
        ensures
            final(self).wf(),
            final(self).registers@ == reg16_set(old(self).registers@, addr as int, val),
    {
        let a = addr as usize;
        let hi: u8 = ((val >> 8) & 0xFF) as u8;
        let lo: u8 = (val & 0xFF) as u8;
        self.registers[a + 1] = hi;
        self.registers[a] = lo;
    }

    /// The display control register.
    pub fn get_dispcnt(&self) -> (r: u16)
        requires
            self.wf(),
        ensures
            r == reg16(self.registers@, 0),
    {
        self.get_u16(0)
    }

    pub fn set_dispcnt(&mut self, val: u16)
        requires
            old(self).wf(),
        ensures
            final(self).wf(),
            final(self).registers@ == reg16_set(old(self).registers@, 0, val),
    {
        self.set_u16(0, val);
    }

    /// The display status register.
    pub fn get_dispstat(&self) -> (r: u16)
        requires
            self.wf(),
        ensures
            r == self.spec_dispstat(),
    {
        self.get_u16(4)
    }

    /// The V-count-match flag, bit 2 of the status register.
    pub fn get_dispstat_vcount_flag(&self) -> (r: bool)
        requires
            self.wf(),
        ensures
            r == ((self.spec_dispstat() & DISPSTAT_VCOUNTER) != 0u16),
    {
        (self.get_u16(4) & DISPSTAT_VCOUNTER) != 0
    }

    pub fn set_dispstat(&mut self, val: u16)
        requires
            old(self).wf(),
        ensures
            final(self).wf(),
            final(self).registers@ == reg16_set(old(self).registers@, 4, val),
            final(self).spec_dispstat() == val,
            final(self).spec_vcount() == old(self).spec_vcount(),
    {
        self.set_u16(4, val);
        proof {
            lcd_reg16_set_effect(old(self).registers@, 4, val);
        }
    }

    /// Sets or clears the V-blank flag, bit 0 of the status register.
    pub fn set_dispstat_vblank(&mut self, set: bool)
        requires
            old(self).wf(),
        ensures
            final(self).wf(),
            final(self).spec_dispstat() == (if set {
                old(self).spec_dispstat() | DISPSTAT_VBLANK
            } else {
                old(self).spec_dispstat() & !DISPSTAT_VBLANK
            }),
            final(self).spec_vcount() == old(self).spec_vcount(),
            forall|i: int|
                0 <= i < LCD_REG_BYTES && i != 4 && i != 5 ==> final(self).registers@[i] == old(
                    self,
                ).registers@[i],
            ((final(self).spec_dispstat() & DISPSTAT_VBLANK) != 0u16) == set,
            final(self).spec_dispstat() & !DISPSTAT_VBLANK == old(self).spec_dispstat()
                & !DISPSTAT_VBLANK,
    {
        let v = if set {
            self.get_dispstat() | DISPSTAT_VBLANK
        } else {
            self.get_dispstat() & !DISPSTAT_VBLANK
        };
        self.set_dispstat(v);
        proof {
            lcd_bit_update(old(self).spec_dispstat(), DISPSTAT_VBLANK, set);
        }
    }

    /// Sets or clears the H-blank flag, bit 1 of the status register.
    pub fn set_dispstat_hblank(&mut self, set: bool)
        requires
            old(self).wf(),
        ensures
            final(self).wf(),
            final(self).spec_dispstat() == (if set {
                old(self).spec_dispstat() | DISPSTAT_HBLANK
            } else {
                old(self).spec_dispstat() & !DISPSTAT_HBLANK
            }),
            final(self).spec_vcount() == old(self).spec_vcount(),
            forall|i: int|
                0 <= i < LCD_REG_BYTES && i != 4 && i != 5 ==> final(self).registers@[i] == old(
                    self,
                ).registers@[i],
            ((final(self).spec_dispstat() & DISPSTAT_HBLANK) != 0u16) == set,
            final(self).spec_dispstat() & !DISPSTAT_HBLANK == old(self).spec_dispstat()
                & !DISPSTAT_HBLANK,
    {
        let v = if set {
            self.get_dispstat() | DISPSTAT_HBLANK
        } else {
            self.get_dispstat() & !DISPSTAT_HBLANK
        };
        self.set_dispstat(v);
        proof {
            lcd_bit_update(old(self).spec_dispstat(), DISPSTAT_HBLANK, set);
        }
    }

    /// Sets or clears the V-count-match flag, bit 2 of the status register.
    pub fn set_dispstat_vcount(&mut self, set: bool)
        requires
            old(self).wf(),
        ensures
            final(self).wf(),
            final(self).spec_dispstat() == (if set {
                old(self).spec_dispstat() | DISPSTAT_VCOUNTER
            } else {
                old(self).spec_dispstat() & !DISPSTAT_VCOUNTER
            }),
            final(self).spec_vcount() == old(self).spec_vcount(),
            forall|i: int|
                0 <= i < LCD_REG_BYTES && i != 4 && i != 5 ==> final(self).registers@[i] == old(
                    self,
                ).registers@[i],
            ((final(self).spec_dispstat() & DISPSTAT_VCOUNTER) != 0u16) == set,
            final(self).spec_dispstat() & !DISPSTAT_VCOUNTER == old(self).spec_dispstat()
                & !DISPSTAT_VCOUNTER,
    {
        let v = if set {
            self.get_dispstat() | DISPSTAT_VCOUNTER
        } else {
            self.get_dispstat() & !DISPSTAT_VCOUNTER
        };
        self.set_dispstat(v);
        proof {
            lcd_bit_update(old(self).spec_dispstat(), DISPSTAT_VCOUNTER, set);
        }
    }

    /// The V-blank interrupt gate: bit 3 of the status register.
    pub fn is_vblank_irq_enabled(&self) -> (r: bool)
        requires
            self.wf(),
        ensures
            r == ((self.spec_dispstat() & 0x8u16) != 0u16),
    {
        (self.get_dispstat() & 0x8) != 0
    }

    /// The H-blank interrupt gate: bit 4 of the status register.
    pub fn is_hblank_irq_enabled(&self) -> (r: bool)
        requires
            self.wf(),
        ensures
            r == ((self.spec_dispstat() & 0x10u16) != 0u16),
    {
        (self.get_dispstat() & 0x10) != 0
    }

    /// The V-count-match interrupt gate: bit 5 of the status register.
    pub fn is_vcount_irq_enabled(&self) -> (r: bool)
        requires
            self.wf(),
        ensures
            r == ((self.spec_dispstat() & 0x20u16) != 0u16),
    {
        (self.get_dispstat() & 0x20) != 0
    }

    /// The display mode, low three bits of the control register.
    pub fn get_dispcnt_mode(&self) -> (r: u8)
        requires
            self.wf(),
        ensures
            r == (reg16(self.registers@, 0) & 0x7u16) as u8,
    {
        (self.get_dispcnt() & 0x7) as u8
    }

    /// The frame selector, bit 4 of the control register.
    pub fn get_dispcnt_frame(&self) -> (r: bool)
        requires
            self.wf(),
        ensures
            r == ((reg16(self.registers@, 0) & 0x10u16) != 0u16),
    {
        (self.get_dispcnt() & 0x10) != 0
    }

    /// The scanline counter.
    pub fn get_vcount(&self) -> (r: u16)
        requires
            self.wf(),
        ensures
            r == self.spec_vcount(),
    {
        self.get_u16(6)
    }

    pub fn set_vcount(&mut self, val: u16)
        requires
            old(self).wf(),
        ensures
            final(self).wf(),
            final(self).registers@ == reg16_set(old(self).registers@, 6, val),
            final(self).spec_vcount() == val,
            final(self).spec_dispstat() == old(self).spec_dispstat(),
    {
        self.set_u16(6, val);
        proof {
            lcd_reg16_set_effect(old(self).registers@, 6, val);
        }
    }

    /// Advances the scanline counter to the next scanline, wrapping 227 to 0,
    /// and updates the V-blank and V-count-match status flags.  The V-blank
    /// flag is set exactly over counter values 160 through 226, and the
    /// V-count-match flag exactly when the new counter equals the compare
    /// value in the high byte of the status register.
    pub fn increment_vcount(&mut self) -> (r: u16)
        requires
            old(self).wf(),
        ensures
            final(self).wf(),
            r == (if old(self).spec_vcount() == 227 {
                0u16
            } else if old(self).spec_vcount() == 0xFFFF {
                0u16
            } else {
                (old(self).spec_vcount() + 1) as u16
            }),
            final(self).spec_vcount() == r,
            forall|i: int|
                0 <= i < LCD_REG_BYTES && i != 4 && i != 5 && i != 6 && i != 7 ==> final(self).registers@[i]
                    == old(self).registers@[i],
            ((final(self).spec_dispstat() & DISPSTAT_VBLANK) != 0u16) == (160 <= r <= 226),
            ((final(self).spec_dispstat() & DISPSTAT_VCOUNTER) != 0u16) == (r == (old(
                self,
            ).spec_dispstat() >> 8u16) & 0xFFu16),
            final(self).spec_dispstat() & !(DISPSTAT_VBLANK | DISPSTAT_VCOUNTER) == old(
                self,
            ).spec_dispstat() & !(DISPSTAT_VBLANK | DISPSTAT_VCOUNTER),
            final(self).spec_dispstat() & DISPSTAT_HBLANK == old(self).spec_dispstat()
                & DISPSTAT_HBLANK,
            final(self).spec_dispstat() & 0x8u16 == old(self).spec_dispstat() & 0x8u16,
            final(self).spec_dispstat() & 0x10u16 == old(self).spec_dispstat() & 0x10u16,
            final(self).spec_dispstat() & 0x20u16 == old(self).spec_dispstat() & 0x20u16,
    {
        let val = self.get_vcount();
        let inc: u16 = if val == 227 {
            0
        } else {
            val.wrapping_add(1)
        };

        self.set_dispstat_vblank(inc >= 160 && inc <= 226);

        let lyc = (self.get_dispstat() >> 8) & 0xFF;
        self.set_dispstat_vcount(lyc == inc);

        self.set_vcount(inc);
        proof {
            lcd_incr_bits(
                old(self).spec_dispstat(),
                inc >= 160 && inc <= 226,
                lyc == inc,
            );
        }
        inc
    }

    /// The control word of background `n` (byte offset 8 + 2n).
    pub fn get_background_control(&self, n: u8) -> (r: u16)
        requires
            self.wf(),
            n < 4,
        ensures
            r == reg16(self.registers@, 0x8 + 2 * n as int),
    {
        self.get_u16(0x8 + (n as u32) * 2)
    }

    pub fn set_background_control(&mut self, n: u8, val: u16)
        requires
            old(self).wf(),
            n < 4,
        ensures
            final(self).wf(),
            final(self).registers@ == reg16_set(old(self).registers@, 0x8 + 2 * n as int, val),
    {
        self.set_u16(0x8 + (n as u32) * 2, val);
    }

    /// The (x, y) offset pair of background `n`, 9 bits each.
    pub fn get_background_offset(&self, n: u8) -> (r: (u16, u16))
        requires
            self.wf(),
            n < 4,
        ensures
            r.0 == reg16(self.registers@, 0x10 + 4 * n as int) & 0x1FFu16,
            r.1 == reg16(self.registers@, 0x12 + 4 * n as int) & 0x1FFu16,
    {
        let offset = 0x10 + (n as u32) * 4;
        (self.get_u16(offset) & 0x1FF, self.get_u16(offset + 2) & 0x1FF)
    }

    /// The horizontal and vertical range words of window `n`.
    pub fn get_window_dimensions(&self, n: u8) -> (r: (u16, u16))
        requires
            self.wf(),
            n < 2,
        ensures
            r.0 == reg16(self.registers@, 0x40 + 2 * n as int),
            r.1 == reg16(self.registers@, 0x44 + 2 * n as int),
    {
        let offset = 0x40 + (n as u32) * 2;
        (self.get_u16(offset), self.get_u16(offset + 4))
    }

    pub fn get_winin(&self) -> (r: u16)
        requires
            self.wf(),
        ensures
            r == reg16(self.registers@, 0x48),
    {
        self.get_u16(0x48)
    }

    pub fn get_winout(&self) -> (r: u16)
        requires
            self.wf(),
        ensures
            r == reg16(self.registers@, 0x4A),
    {
        self.get_u16(0x4A)
    }

    pub fn get_mosaic(&self) -> (r: u16)
        requires
            self.wf(),
        ensures
            r == reg16(self.registers@, 0x4C),
    {
        self.get_u16(0x4C)
    }

    pub fn get_bldcnt(&self) -> (r: u16)
        requires
            self.wf(),
        ensures
            r == reg16(self.registers@, 0x50),
    {
        self.get_u16(0x50)
    }

    pub fn get_bldalpha(&self) -> (r: u16)
        requires
            self.wf(),
        ensures
            r == reg16(self.registers@, 0x52),
    {
        self.get_u16(0x52)
    }

    pub fn get_bldy(&self) -> (r: u16)
        requires
            self.wf(),
        ensures
            r == reg16(self.registers@, 0x54),
    {
        self.get_u16(0x54)
    }
}

/// Writing a 16-bit register leaves every other register of the block intact.
proof fn lcd_reg16_set_effect(regs: Seq<u8>, a: int, v: u16)
    requires
        0 <= a,
        a + 1 < regs.len(),
    ensures
        reg16(reg16_set(regs, a, v), a) == v,
        forall|b: int|
            0 <= b && b + 1 < regs.len() && (b + 1 < a || b > a + 1) ==> reg16(
                reg16_set(regs, a, v),
                b,
            ) == reg16(regs, b),
{
    assert((((((v >> 8u16) & 0xFFu16) as u8) as u16) << 8u16) | ((((v & 0xFFu16) as u8) as u16))
        == v) by (bit_vector);
}

/// Setting or clearing one bit of a word changes exactly that bit.
proof fn lcd_bit_update(w: u16, bit: u16, set: bool)
    ensures
        ((if set {
            w | bit
        } else {
            w & !bit
        }) & !bit) == w & !bit,
        set ==> ((w | bit) & bit) == bit,
        !set ==> ((w & !bit) & bit) == 0u16,
{
    if set {
        assert(((w | bit) & !bit) == (w & !bit) && ((w | bit) & bit) == bit) by (bit_vector);
    } else {
        assert(((w & !bit) & !bit) == (w & !bit) && ((w & !bit) & bit) == 0u16) by (bit_vector);
    }
}

/// Setting the V-blank bit and then the V-count-match bit of the status word
/// changes exactly those two bits.
proof fn lcd_incr_bits(s: u16, vb: bool, vc: bool)
    by (bit_vector)
    ensures
        ({
            let t = if vb {
                s | 1u16
            } else {
                s & !1u16
            };
            let u = if vc {
                t | 4u16
            } else {
                t & !4u16
            };
            &&& ((u & 1u16) != 0u16) == vb
            &&& ((u & 4u16) != 0u16) == vc
            &&& (t >> 8u16) & 0xFFu16 == (s >> 8u16) & 0xFFu16
            &&& u & 8u16 == s & 8u16
            &&& u & 0x10u16 == s & 0x10u16
            &&& u & 0x20u16 == s & 0x20u16
            &&& u & 2u16 == s & 2u16
            &&& (u >> 8u16) & 0xFFu16 == (s >> 8u16) & 0xFFu16
            &&& u & !(1u16 | 4u16) == s & !(1u16 | 4u16)
        }),
{
}

} // verus!
