//! The DMA engine: four channels whose descriptors live in the I/O window;
//! an immediate-timing scan and the per-channel transfer in halfword or word
//! units with increment, decrement or fixed stepping, the
//! zero-count-means-maximum rule, the completion interrupt and the
//! enable-bit clear on completion.

use vstd::prelude::*;

use crate::cpu::{psr_eq, regs_eq, CPU};
use crate::mem::{
    in_rom, le32, lemma_ram32_access, lemma_ram32_round_trip, lemma_ram8_access,
    lemma_ram8_round_trip, lemma_read_u32_frame, lemma_read_u8_frame, lemma_rom_access, mask_addr,
    ram32_ok, ram8_ok, rom32_src_ok, rom8_src_ok, spec_read_u32, spec_read_u8,
};

verus! {

broadcast use
    crate::bits::lemma_u32_and_bound,
    crate::bits::lemma_mask_small,
    crate::bits::lemma_mask_adjacent,
;

/// A channel's source address register.
pub open spec fn dma_src(c: CPU, num: u8) -> u32 {
    le32(c.dma@, num * 12)
}

/// A channel's destination address register.
pub open spec fn dma_dest(c: CPU, num: u8) -> u32 {
    le32(c.dma@, num * 12 + 4)
}

/// A channel's control halfword.
pub open spec fn dma_control(c: CPU, num: u8) -> u32 {
    ((le32(c.dma@, num * 12 + 8) >> 16u32) & 0xFFFFu32) as u32
}

/// A channel's transfer count, with zero meaning the channel's maximum.
pub open spec fn dma_count(c: CPU, num: u8) -> u32 {
    let cnt = (le32(c.dma@, num * 12 + 8) & 0xFFFFu32) as u32;
    if cnt == 0 {
        if num == 3 {
            0x10000u32
        } else {
            0x4000u32
        }
    } else {
        cnt
    }
}

/// Which channel the immediate scan selects: the lowest-numbered enabled
/// channel with immediate timing; enabled channels with blank or special
/// timing are skipped, polled at their own points.
pub open spec fn spec_dma_check(c: CPU) -> Option<u8> {
    if dma_scan_hit(c, 0) {
        Some(0u8)
    } else if dma_scan_hit(c, 1) {
        Some(1u8)
    } else if dma_scan_hit(c, 2) {
        Some(2u8)
    } else if dma_scan_hit(c, 3) {
        Some(3u8)
    } else {
        None
    }
}

/// Whether the scan stops at channel `num`.
pub open spec fn dma_scan_hit(c: CPU, num: u8) -> bool {
    let control = dma_control(c, num);
    let timing = ((control >> 12u32) & 0x3u32) as u8;
    let enable = (control & 0x8000u32) != 0u32;
    enable && timing == 0
}

/// Whether a channel transfers words; clear means halfwords.
pub open spec fn dma_is_word(c: CPU, num: u8) -> bool {
    (dma_control(c, num) & 0x400u32) != 0u32
}

/// A channel's unit length in bytes.
pub open spec fn dma_step_len(c: CPU, num: u8) -> int {
    if dma_is_word(c, num) {
        4
    } else {
        2
    }
}

/// A channel's destination step policy.
pub open spec fn dma_dctrl(c: CPU, num: u8) -> u32 {
    (dma_control(c, num) >> 5u32) & 0x3u32
}

/// A channel's source step policy.
pub open spec fn dma_sctrl(c: CPU, num: u8) -> u32 {
    (dma_control(c, num) >> 7u32) & 0x3u32
}

/// The pending-flag bit a channel's completion interrupt raises.
pub open spec fn dma_irq_bit(num: u8) -> u16 {
    (0x100u16 << (num as u16)) as u16
}

/// The address of transfer unit `j` under a step policy: increasing,
/// decreasing, or fixed at the base.
pub open spec fn dma_unit_addr(base: u32, ctrl: u32, step: int, j: int) -> int {
    if ctrl == 0 {
        base + j * step
    } else if ctrl == 1 {
        base - j * step
    } else {
        base as int
    }
}

/// One transferred unit: the destination unit reads back what the source
/// unit held before the transfer.
pub open spec fn dma_unit_moved(pre: CPU, post: CPU, word: bool, d: int, sa: int) -> bool {
    if word {
        spec_read_u32(post, mask_addr(d as u32)) == spec_read_u32(pre, mask_addr(sa as u32))
    } else {
        &&& spec_read_u8(post, mask_addr(d as u32)) == spec_read_u8(pre, mask_addr(sa as u32))
        &&& spec_read_u8(post, mask_addr((d + 1) as u32)) == spec_read_u8(
            pre,
            mask_addr((sa + 1) as u32),
        )
    }
}

/// A readable source unit: plain RAM or the cartridge image.
pub open spec fn dma_src_unit_ok(c: CPU, word: bool, sa: int) -> bool {
    if word {
        ram32_ok(mask_addr(sa as u32)) || rom32_src_ok(c, mask_addr(sa as u32))
    } else {
        &&& (ram8_ok(mask_addr(sa as u32)) || rom8_src_ok(c, mask_addr(sa as u32)))
        &&& (ram8_ok(mask_addr((sa + 1) as u32)) || rom8_src_ok(c, mask_addr((sa + 1) as u32)))
    }
}

/// A writable destination unit: plain RAM.
pub open spec fn dma_dest_unit_ok(word: bool, d: int) -> bool {
    if word {
        ram32_ok(mask_addr(d as u32))
    } else {
        ram8_ok(mask_addr(d as u32)) && ram8_ok(mask_addr((d + 1) as u32))
    }
}

/// Two masked units of `step` bytes are disjoint.
pub open spec fn dma_units_disjoint(a: int, b: int, step: int) -> bool {
    mask_addr(a as u32) + step <= mask_addr(b as u32) || mask_addr(b as u32) + step <= mask_addr(
        a as u32,
    )
}

/// The preconditions of `dma_run`: an increment, decrement or fixed step on
/// each pointer, every source unit readable (RAM or cartridge), every
/// destination unit in plain RAM, destination units disjoint from the source
/// and (unless fixed) from each other.
pub open spec fn dma_run_ok(c: CPU, num: u8) -> bool {
    &&& c.wf()
    &&& num < 4
    &&& dma_dctrl(c, num) <= 2
    &&& dma_sctrl(c, num) <= 2
    &&& (dma_sctrl(c, num) == 0 ==> dma_src(c, num) + dma_step_len(c, num) * dma_count(c, num)
        <= u32::MAX)
    &&& (dma_sctrl(c, num) == 1 ==> dma_src(c, num) >= dma_step_len(c, num) * dma_count(c, num)
        && dma_src(c, num) + dma_step_len(c, num) <= u32::MAX)
    &&& (dma_sctrl(c, num) == 2 ==> dma_src(c, num) + dma_step_len(c, num) <= u32::MAX)
    &&& (dma_dctrl(c, num) == 0 ==> dma_dest(c, num) + dma_step_len(c, num) * dma_count(c, num)
        <= u32::MAX)
    &&& (dma_dctrl(c, num) == 1 ==> dma_dest(c, num) >= dma_step_len(c, num) * dma_count(c, num)
        && dma_dest(c, num) + dma_step_len(c, num) <= u32::MAX)
    &&& (dma_dctrl(c, num) == 2 ==> dma_dest(c, num) + dma_step_len(c, num) <= u32::MAX)
    &&& forall|j: int|
        #![trigger dma_unit_addr(dma_src(c, num), dma_sctrl(c, num), dma_step_len(c, num), j)]
        #![trigger dma_unit_addr(dma_dest(c, num), dma_dctrl(c, num), dma_step_len(c, num), j)]
        0 <= j < dma_count(c, num) ==> dma_src_unit_ok(
            c,
            dma_is_word(c, num),
            dma_unit_addr(dma_src(c, num), dma_sctrl(c, num), dma_step_len(c, num), j),
        ) && dma_dest_unit_ok(
            dma_is_word(c, num),
            dma_unit_addr(dma_dest(c, num), dma_dctrl(c, num), dma_step_len(c, num), j),
        )
    &&& forall|i: int, j: int|
        0 <= i < dma_count(c, num) && 0 <= j < dma_count(c, num) ==> dma_units_disjoint(
            #[trigger] dma_unit_addr(dma_dest(c, num), dma_dctrl(c, num), dma_step_len(c, num), i),
            #[trigger] dma_unit_addr(dma_src(c, num), dma_sctrl(c, num), dma_step_len(c, num), j),
            dma_step_len(c, num),
        )
    &&& (dma_dctrl(c, num) != 2 ==> forall|i: int, j: int|
        0 <= i < j < dma_count(c, num) ==> dma_units_disjoint(
            #[trigger] dma_unit_addr(dma_dest(c, num), dma_dctrl(c, num), dma_step_len(c, num), i),
            #[trigger] dma_unit_addr(dma_dest(c, num), dma_dctrl(c, num), dma_step_len(c, num), j),
            dma_step_len(c, num),
        ))
}

/// The full effect of one channel transfer as a relation over machine
/// states.
pub open spec fn dma_run_rel(pre: CPU, post: CPU, num: u8) -> bool {
    &&& (post.wf())
    &&& (regs_eq(pre, post))
    &&& (psr_eq(pre, post))
    &&& (post.halt == pre.halt)
    &&& (post.cycle_count == pre.cycle_count)
    &&& (post.panicked == pre.panicked)
    &&& (({
                let control = dma_control(pre, num);
                let src = dma_src(pre, num);
                let dest = dma_dest(pre, num);
                let count = dma_count(pre, num);
                let word = dma_is_word(pre, num);
                let step: int = dma_step_len(pre, num);
                let dctrl = dma_dctrl(pre, num);
                let sctrl = dma_sctrl(pre, num);
                let repeat = (control & 0x200u32) != 0u32;
                let irqf = (control & 0x4000u32) != 0u32;
                &&& (dctrl != 2 ==> forall|j: int|
                    0 <= j < count ==> dma_unit_moved(
                        pre,
                        post,
                        word,
                        #[trigger] dma_unit_addr(dest, dctrl, step, j),
                        dma_unit_addr(src, sctrl, step, j),
                    ))
                &&& (dctrl == 2 && count > 0 ==> dma_unit_moved(
                    pre,
                    post,
                    word,
                    dest as int,
                    dma_unit_addr(src, sctrl, step, count - 1),
                ))
                &&& post.io_if == (if irqf {
                    (pre.io_if | dma_irq_bit(num)) as u16
                } else {
                    pre.io_if
                })
                &&& (repeat ==> post.dma@ == pre.dma@)
                &&& (!repeat ==> post.dma@ == pre.dma@.update(
                    num * 12 + 11,
                    (pre.dma@[num * 12 + 11] & !0x80u8) as u8,
                ))
            }))
}

impl CPU {
    /// Scans the channels in order and returns the lowest-numbered enabled
    /// channel with immediate timing, if any; enabled channels with other
    /// timings are passed over for their own polling points.
    pub fn dma_check(&mut self) -> (r: Option<u8>)
        requires
            old(self).wf(),
        ensures
            final(self).wf(),
            r == spec_dma_check(*old(self)),
            *final(self) == *old(self),
    {
        let mut i: u8 = 0;
        while i < 4
            invariant
                self.wf(),
                *self == *old(self),
                i <= 4,
                forall|k: u8| k < i ==> !#[trigger] dma_scan_hit(*self, k),
            decreases 4 - i,
        {
            proof {
                dma_reg_decode(i, *self);
            }
            let reg = self.read_u32(false, 0x040000B0 + ((i as u32) * 12) + 8);
            let control = (reg >> 16) & 0xFFFF;

            let timing = ((control >> 12) & 0x3) as u8;
            let enable = (control & 0x8000) != 0;

            proof {
                assert(control == dma_control(*self, i));
            }

            if enable && timing == 0x00 {
                proof {
                    assert(dma_scan_hit(*self, i));
                }
                return Some(i);
            }
            proof {
                assert(!dma_scan_hit(*self, i));
            }
            i = i + 1;
        }
        None
    }

    /// Performs one transfer on channel `num`: `dma_count` units of a
    /// halfword or word each, stepping each pointer by its policy.  With a
    /// moving destination every unit arrives; with a fixed destination the
    /// last unit remains.  The completion-interrupt flag raises the
    /// channel's pending bit, and without the repeat flag the enable bit is
    /// cleared in place.
    #[verifier::rlimit(100)]
    #[verifier::spinoff_prover]
    pub fn dma_run(&mut self, num: u8)
        requires
            dma_run_ok(*old(self), num),
        ensures
            dma_run_rel(*old(self), *final(self), num),
    {
        let addr_base: u32 = 0x040000B0;
        let reg_offset = (num as u32) * 12;
        proof {
            dma_reg_decode(num, *old(self));
        }
        let src = self.read_u32(true, addr_base + reg_offset + 0);
        proof {
            dma_reg_decode(num, *self);
        }
        let dest = self.read_u32(true, addr_base + reg_offset + 4);
        proof {
            dma_reg_decode(num, *self);
        }
        let reg = self.read_u32(true, addr_base + reg_offset + 8);
        let cnt_raw = reg & 0xFFFF;
        let count: u32 = if cnt_raw == 0 {
            if num == 3 {
                0x10000
            } else {
                0x4000
            }
        } else {
            cnt_raw
        };
        let control = (reg >> 16) & 0xFFFF;

        let dest_ctrl = ((control >> 5) & 0x3) as u8;
        let src_ctrl = ((control >> 7) & 0x3) as u8;
        let repeat = (control & 0x200) != 0;
        let word = (control & 0x400) != 0;
        let irq = (control & 0x4000) != 0;

        let step: u32 = if word {
            4
        } else {
            2
        };

        let ghost s0 = *old(self);
        let ghost gstep: int = dma_step_len(s0, num);
        let ghost gd: u32 = dma_dctrl(s0, num);
        let ghost gs: u32 = dma_sctrl(s0, num);
        proof {
            assert(src == dma_src(s0, num) && dest == dma_dest(s0, num) && control == dma_control(
                s0,
                num,
            ) && count == dma_count(s0, num) && word == dma_is_word(s0, num));
            assert(forall|b: u32|
                ram32_ok(b) || in_rom(b) ==> #[trigger] spec_read_u32(*self, b) == spec_read_u32(
                    s0,
                    b,
                ));
            assert(forall|b: u32|
                ram8_ok(b) || in_rom(b) ==> #[trigger] spec_read_u8(*self, b) == spec_read_u8(
                    s0,
                    b,
                ));
        }

        let mut src_ptr = src;
        let mut dest_ptr = dest;
        let mut i: u32 = 0;

        while i < count
            invariant
                dma_run_ok(s0, num),
                self.wf(),
                i <= count,
                src == dma_src(s0, num),
                dest == dma_dest(s0, num),
                count == dma_count(s0, num),
                word == dma_is_word(s0, num),
                gstep == dma_step_len(s0, num),
                step == gstep,
                gd == dma_dctrl(s0, num),
                gs == dma_sctrl(s0, num),
                control == dma_control(s0, num),
                dest_ctrl as u32 == gd,
                src_ctrl as u32 == gs,
                repeat == ((dma_control(s0, num) & 0x200u32) != 0u32),
                irq == ((dma_control(s0, num) & 0x4000u32) != 0u32),
                i < count ==> src_ptr == dma_unit_addr(src, gs, gstep, i as int),
                i < count ==> dest_ptr == dma_unit_addr(dest, gd, gstep, i as int),
                regs_eq(s0, *self),
                psr_eq(s0, *self),
                self.halt == s0.halt,
                self.cycle_count == s0.cycle_count,
                self.panicked == s0.panicked,
                self.dma@ == s0.dma@,
                self.lcd.registers@ == s0.lcd.registers@,
                self.timers@ == s0.timers@,
                self.serial == s0.serial,
                self.keypad == s0.keypad,
                self.io_waitcnt == s0.io_waitcnt,
                self.io_ime == s0.io_ime,
                self.io_ie == s0.io_ie,
                self.io_if == s0.io_if,
                self.io_bios_if == s0.io_bios_if,
                self.rom == s0.rom,
                self.bios == s0.bios,
                self.ram_work1@.len() == s0.ram_work1@.len(),
                self.ram_work2@.len() == s0.ram_work2@.len(),
                self.ram_palette@.len() == s0.ram_palette@.len(),
                self.ram_video@.len() == s0.ram_video@.len(),
                self.ram_obj_attr@.len() == s0.ram_obj_attr@.len(),
                gd != 2 ==> forall|j: int|
                    0 <= j < i ==> dma_unit_moved(
                        s0,
                        *self,
                        word,
                        #[trigger] dma_unit_addr(dest, gd, gstep, j),
                        dma_unit_addr(src, gs, gstep, j),
                    ),
                gd == 2 && i > 0 ==> dma_unit_moved(
                    s0,
                    *self,
                    word,
                    dest as int,
                    dma_unit_addr(src, gs, gstep, i - 1),
                ),
                forall|j: int|
                    0 <= j < count ==> dma_src_value_kept(
                        s0,
                        *self,
                        word,
                        #[trigger] dma_unit_addr(src, gs, gstep, j),
                    ),
            decreases count - i,
        {
            let ghost da = dma_unit_addr(dest, gd, gstep, i as int);
            let ghost sa = dma_unit_addr(src, gs, gstep, i as int);
            let ghost sb = *self;
            proof {
                dma_unit_ok_inst(s0, num, i as int);
                assert(dma_src_unit_ok(s0, word, sa));
                assert(dma_dest_unit_ok(word, da));
                assert(src_ptr == sa && dest_ptr == da);
            }
            if word {
                proof {
                    lemma_ram32_access(sb, true, src_ptr);
                    lemma_rom_access(sb, true, src_ptr);
                }
                let val = self.read_u32(true, src_ptr);
                let ghost sc = *self;
                proof {
                    lemma_ram32_access(sc, true, dest_ptr);
                }
                self.write_u32(true, dest_ptr, val);
                proof {
                    lemma_ram32_round_trip(sc, *self, true, dest_ptr, val);
                    if gd != 2 {
                        assert forall|j: int| 0 <= j < i implies dma_unit_moved(
                            s0,
                            *self,
                            word,
                            #[trigger] dma_unit_addr(dest, gd, gstep, j),
                            dma_unit_addr(src, gs, gstep, j),
                        ) by {
                            let dj = dma_unit_addr(dest, gd, gstep, j);
                            dma_unit_ok_inst(s0, num, j);
                            dma_disjoint_inst(s0, num, j, i as int);
                            lemma_read_u32_frame(sc, *self, true, dest_ptr, val, dj as u32);
                        }
                    }
                    assert forall|j: int| 0 <= j < count implies dma_src_value_kept(
                        s0,
                        *self,
                        word,
                        #[trigger] dma_unit_addr(src, gs, gstep, j),
                    ) by {
                        let sj = dma_unit_addr(src, gs, gstep, j);
                        dma_unit_ok_inst(s0, num, j);
                        dma_disjoint_inst(s0, num, i as int, j);
                        lemma_read_u32_frame(sc, *self, true, dest_ptr, val, sj as u32);
                        assert(spec_read_u32(sc, mask_addr(sj as u32)) == spec_read_u32(
                            sb,
                            mask_addr(sj as u32),
                        ));
                    }
                    assert(dma_unit_moved(s0, *self, word, da, sa));
                }
            } else {
                proof {
                    lemma_ram8_access(sb, true, src_ptr);
                    lemma_rom_access(sb, true, src_ptr);
                    lemma_ram8_access(sb, true, src_ptr.wrapping_add(1));
                    lemma_rom_access(sb, true, src_ptr.wrapping_add(1));
                }
                let low = self.read_u8(true, src_ptr);
                let high = self.read_u8(true, src_ptr.wrapping_add(1));
                let ghost sc = *self;
                proof {
                    lemma_ram8_access(sc, true, dest_ptr);
                }
                self.write_u8(true, dest_ptr, low);
                let ghost sd = *self;
                proof {
                    lemma_ram8_access(sd, true, dest_ptr.wrapping_add(1));
                }
                self.write_u8(true, dest_ptr.wrapping_add(1), high);
                proof {
                    lemma_ram8_round_trip(sd, *self, true, dest_ptr.wrapping_add(1), high);
                    lemma_ram8_round_trip(sc, sd, true, dest_ptr, low);
                    lemma_read_u8_frame(sd, *self, true, dest_ptr.wrapping_add(1), high, dest_ptr);
                    if gd != 2 {
                        assert forall|j: int| 0 <= j < i implies dma_unit_moved(
                            s0,
                            *self,
                            word,
                            #[trigger] dma_unit_addr(dest, gd, gstep, j),
                            dma_unit_addr(src, gs, gstep, j),
                        ) by {
                            let dj = dma_unit_addr(dest, gd, gstep, j);
                            dma_unit_ok_inst(s0, num, j);
                            dma_disjoint_inst(s0, num, j, i as int);
                            lemma_read_u8_frame(sc, sd, true, dest_ptr, low, dj as u32);
                            lemma_read_u8_frame(
                                sd,
                                *self,
                                true,
                                dest_ptr.wrapping_add(1),
                                high,
                                dj as u32,
                            );
                            lemma_read_u8_frame(sc, sd, true, dest_ptr, low, (dj + 1) as u32);
                            lemma_read_u8_frame(
                                sd,
                                *self,
                                true,
                                dest_ptr.wrapping_add(1),
                                high,
                                (dj + 1) as u32,
                            );
                        }
                    }
                    assert forall|j: int| 0 <= j < count implies dma_src_value_kept(
                        s0,
                        *self,
                        word,
                        #[trigger] dma_unit_addr(src, gs, gstep, j),
                    ) by {
                        let sj = dma_unit_addr(src, gs, gstep, j);
                        dma_unit_ok_inst(s0, num, j);
                        dma_disjoint_inst(s0, num, i as int, j);
                        lemma_read_u8_frame(sc, sd, true, dest_ptr, low, sj as u32);
                        lemma_read_u8_frame(
                            sd,
                            *self,
                            true,
                            dest_ptr.wrapping_add(1),
                            high,
                            sj as u32,
                        );
                        lemma_read_u8_frame(sc, sd, true, dest_ptr, low, (sj + 1) as u32);
                        lemma_read_u8_frame(
                            sd,
                            *self,
                            true,
                            dest_ptr.wrapping_add(1),
                            high,
                            (sj + 1) as u32,
                        );
                        assert(spec_read_u8(sc, mask_addr(sj as u32)) == spec_read_u8(
                            sb,
                            mask_addr(sj as u32),
                        ));
                        assert(spec_read_u8(sc, mask_addr((sj + 1) as u32)) == spec_read_u8(
                            sb,
                            mask_addr((sj + 1) as u32),
                        ));
                    }
                    assert(dma_unit_moved(s0, *self, word, da, sa));
                }
            }

            dest_ptr = if dest_ctrl == 0 {
                dest_ptr.wrapping_add(step)
            } else if dest_ctrl == 1 {
                dest_ptr.wrapping_sub(step)
            } else {
                dest_ptr
            };

            src_ptr = if src_ctrl == 0 {
                src_ptr.wrapping_add(step)
            } else if src_ctrl == 1 {
                src_ptr.wrapping_sub(step)
            } else {
                src_ptr
            };

            proof {
                assert((i + 1) * gstep == i * gstep + gstep) by (nonlinear_arith);
                assert((i + 1) * gstep <= (count as int) * gstep) by (nonlinear_arith)
                    requires
                        i + 1 <= count as int,
                        gstep >= 0,
                ;
                if i + 1 < count {
                    dma_unit_ok_inst(s0, num, i + 1);
                    assert(dest_ptr == dma_unit_addr(dest, gd, gstep, i + 1));
                    assert(src_ptr == dma_unit_addr(src, gs, gstep, i + 1));
                }
            }
            i = i + 1;
        }

        if irq {
            // Raise the channel's completion interrupt in the pending word.
            self.io_if = self.io_if | (0x100u16 << num);
        }

        if !repeat {
            // Clear the enable bit of the control halfword in place.
            let idx = (reg_offset as usize) + 11;
            let b = self.dma[idx];
            self.dma[idx] = b & !(0x80);
        }
    }
}

/// Instantiates the per-unit validity facts of `dma_run_ok` at index `j`.
proof fn dma_unit_ok_inst(c: CPU, num: u8, j: int)
    requires
        dma_run_ok(c, num),
        0 <= j < dma_count(c, num),
    ensures
        dma_src_unit_ok(
            c,
            dma_is_word(c, num),
            dma_unit_addr(dma_src(c, num), dma_sctrl(c, num), dma_step_len(c, num), j),
        ),
        dma_dest_unit_ok(
            dma_is_word(c, num),
            dma_unit_addr(dma_dest(c, num), dma_dctrl(c, num), dma_step_len(c, num), j),
        ),
{
}

/// Instantiates the disjointness facts of `dma_run_ok` at indices `i`, `j`.
proof fn dma_disjoint_inst(c: CPU, num: u8, i: int, j: int)
    requires
        dma_run_ok(c, num),
        0 <= i < dma_count(c, num),
        0 <= j < dma_count(c, num),
    ensures
        dma_units_disjoint(
            dma_unit_addr(dma_dest(c, num), dma_dctrl(c, num), dma_step_len(c, num), i),
            dma_unit_addr(dma_src(c, num), dma_sctrl(c, num), dma_step_len(c, num), j),
            dma_step_len(c, num),
        ),
        dma_dctrl(c, num) != 2 && i != j ==> dma_units_disjoint(
            dma_unit_addr(dma_dest(c, num), dma_dctrl(c, num), dma_step_len(c, num), i),
            dma_unit_addr(dma_dest(c, num), dma_dctrl(c, num), dma_step_len(c, num), j),
            dma_step_len(c, num),
        ),
{
    if dma_dctrl(c, num) != 2 && i != j {
        if i < j {
            assert(dma_units_disjoint(
                dma_unit_addr(dma_dest(c, num), dma_dctrl(c, num), dma_step_len(c, num), i),
                dma_unit_addr(dma_dest(c, num), dma_dctrl(c, num), dma_step_len(c, num), j),
                dma_step_len(c, num),
            ));
        } else {
            assert(dma_units_disjoint(
                dma_unit_addr(dma_dest(c, num), dma_dctrl(c, num), dma_step_len(c, num), j),
                dma_unit_addr(dma_dest(c, num), dma_dctrl(c, num), dma_step_len(c, num), i),
                dma_step_len(c, num),
            ));
        }
    }
}

/// The source units still read in `cur` what they read in `pre`.
pub open spec fn dma_src_value_kept(pre: CPU, cur: CPU, word: bool, sa: int) -> bool {
    if word {
        spec_read_u32(cur, mask_addr(sa as u32)) == spec_read_u32(pre, mask_addr(sa as u32))
    } else {
        &&& spec_read_u8(cur, mask_addr(sa as u32)) == spec_read_u8(pre, mask_addr(sa as u32))
        &&& spec_read_u8(cur, mask_addr((sa + 1) as u32)) == spec_read_u8(
            pre,
            mask_addr((sa + 1) as u32),
        )
    }
}

/// The descriptor registers decode from the channel's bytes.
proof fn dma_reg_decode(num: u8, c: CPU)
    requires
        num < 4,
        c.wf(),
    ensures
        spec_read_u32(c, mask_addr((0x040000B0u32 + (num as u32) * 12 + 0) as u32)) == dma_src(
            c,
            num,
        ),
        spec_read_u32(c, mask_addr((0x040000B0u32 + (num as u32) * 12 + 4) as u32)) == dma_dest(
            c,
            num,
        ),
        (spec_read_u32(c, mask_addr((0x040000B0u32 + (num as u32) * 12 + 8) as u32)) >> 16u32)
            & 0xFFFFu32 == dma_control(c, num),
        (spec_read_u32(c, mask_addr((0x040000B0u32 + (num as u32) * 12 + 8) as u32)) & 0xFFFFu32)
            == (le32(c.dma@, num * 12 + 8) & 0xFFFFu32),
        mask_addr((0x040000B0u32 + (num as u32) * 12 + 0) as u32) == 0x040000B0u32 + (num as u32)
            * 12,
        crate::mem::read_u32_ok(c, true, (0x040000B0u32 + (num as u32) * 12 + 0) as u32),
        crate::mem::read_u32_ok(c, true, (0x040000B0u32 + (num as u32) * 12 + 4) as u32),
        crate::mem::read_u32_ok(c, true, (0x040000B0u32 + (num as u32) * 12 + 8) as u32),
{
    let a0 = (0x040000B0u32 + (num as u32) * 12 + 0) as u32;
    let a4 = (0x040000B0u32 + (num as u32) * 12 + 4) as u32;
    let a8 = (0x040000B0u32 + (num as u32) * 12 + 8) as u32;
    assert(num < 4u8 ==> (a0 & 0x0FFFFFFFu32) == a0 && (a0 & 0x3FFu32) == a0 - 0x04000000u32 && (
    a4 & 0x0FFFFFFFu32) == a4 && (a4 & 0x3FFu32) == a4 - 0x04000000u32 && (a8 & 0x0FFFFFFFu32)
        == a8 && (a8 & 0x3FFu32) == a8 - 0x04000000u32) by (bit_vector)
        requires
            a0 == (0x040000B0u32 + (num as u32) * 12 + 0) as u32,
            a4 == (0x040000B0u32 + (num as u32) * 12 + 4) as u32,
            a8 == (0x040000B0u32 + (num as u32) * 12 + 8) as u32,
            num < 4u8,
    ;
}

} // verus!
