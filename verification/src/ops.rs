//! The shared load/store machinery of both encodings: single data transfers
//! with pre/post indexing and writeback, and block data transfers over a
//! register list.

use vstd::prelude::*;

use crate::alu::wrap32;
use crate::cpu::{
    cpsr_mode, cpsr_thumb, io_eq, lemma_reg_write1, lemma_reg_write2, lemma_register_round_trip,
    mem_eq, pc_masked, psr_eq, reg_read, reg_write2_rel, regs_unchanged_rel, slot_id, slot_val,
    valid_mode, write_reg_rel, CPU,
};
use crate::mem::{
    lemma_ram32_access, lemma_ram32_round_trip, lemma_read_u32_frame, mask_addr, ram32_ok,
    read_u32_ok, read_u8_ok, spec_read_u32, spec_read_u8, write32_mem_rel, write8_mem_rel,
    write_u32_ok, write_u8_ok,
};

verus! {

broadcast use
    crate::bits::lemma_u16_and_bound,
    crate::bits::lemma_u32_and_bound,
    crate::bits::lemma_mask_small,
;

/// Bit `i` of a register list.
pub open spec fn bit16(x: u16, i: int) -> bool {
    0 <= i < 16 && ((x >> (i as u16)) & 1u16) == 1u16
}

/// The number of set bits of a register list below position `n`.
pub open spec fn rlist_count(x: u16, n: int) -> int
    decreases n,
{
    if n <= 0 {
        0
    } else {
        rlist_count(x, n - 1) + if bit16(x, n - 1) {
            1int
        } else {
            0int
        }
    }
}

/// The set-bit count is monotone and grows by at most one per position.
pub proof fn lemma_rlist_count_monotone(x: u16, i: int, j: int)
    requires
        0 <= i <= j,
    ensures
        rlist_count(x, i) <= rlist_count(x, j),
        rlist_count(x, j) <= rlist_count(x, i) + (j - i),
    decreases j - i,
{
    if i < j {
        lemma_rlist_count_monotone(x, i, j - 1);
    }
}

/// The base value a single data transfer starts from: the program counter is
/// read with the pipeline offset of the current encoding.
pub open spec fn ldrstr_base(c: CPU, r_base: u8) -> u32 {
    if r_base == 15 {
        if cpsr_thumb(c.reg_cpsr) {
            (reg_read(c, 15) + 4) as u32
        } else {
            (reg_read(c, 15) + 8) as u32
        }
    } else {
        reg_read(c, r_base)
    }
}

/// The base combined with the offset in the transfer's direction.
pub open spec fn ldrstr_offsetted(c: CPU, r_base: u8, offset: u32, up: bool) -> u32 {
    if up {
        wrap32(ldrstr_base(c, r_base) + offset)
    } else {
        wrap32(ldrstr_base(c, r_base) - offset)
    }
}

/// The address a single data transfer accesses: the offsetted address when
/// pre-indexed, the plain base when post-indexed.
pub open spec fn ldrstr_target(c: CPU, r_base: u8, offset: u32, up: bool, pre: bool) -> u32 {
    if pre {
        ldrstr_offsetted(c, r_base, offset, up)
    } else {
        ldrstr_base(c, r_base)
    }
}

/// The value a single data transfer loads.
pub open spec fn ldrstr_loaded(c: CPU, target: u32, byte: bool) -> u32 {
    if byte {
        spec_read_u8(c, mask_addr(target)) as u32
    } else {
        spec_read_u32(c, mask_addr(target))
    }
}

/// The preconditions of `operation_ldr_str`.
pub open spec fn ldrstr_ok(
    c: CPU,
    r_dest: u8,
    r_base: u8,
    offset: u32,
    load: bool,
    pre: bool,
    up: bool,
    byte: bool,
    reg: bool,
) -> bool {
    let t = ldrstr_target(c, r_base, offset, up, pre);
    &&& c.wf()
    &&& valid_mode(c.spec_mode())
    &&& r_dest <= 15
    &&& r_base <= 15
    &&& !reg
    &&& !(r_dest == 15 && !load)
    &&& (r_base == 15 ==> reg_read(c, 15) + 8 <= u32::MAX)
    &&& c.cycle_count + 5 <= usize::MAX
    &&& (load && byte ==> read_u8_ok(c, true, t))
    &&& (load && !byte ==> read_u32_ok(c, true, t))
    &&& (!load && byte ==> write_u8_ok(c, true, t))
    &&& (!load && !byte ==> write_u32_ok(c, true, t))
}

/// The addresses a block transfer walks: the `j`-th transferred word sits at
/// `ldm_start + 4 j`.
pub open spec fn ldm_start(base: u32, n: int, up: bool, pre: bool) -> int {
    if up {
        if pre {
            base + 4
        } else {
            base as int
        }
    } else {
        if pre {
            base - 4 * n
        } else {
            base - 4 * n + 4
        }
    }
}

/// The base register's value after a block transfer with writeback.
pub open spec fn ldm_final_rb(base: u32, n: int, up: bool) -> int {
    if up {
        base + 4 * n
    } else {
        base - 4 * n
    }
}

/// The preconditions of `operation_ldm_stm`: the whole transfer stays inside
/// plain RAM, with masked addresses advancing in step with the raw pointer.
pub open spec fn ldm_stm_ok(
    c: CPU,
    r_base: u8,
    r_list: u16,
    load: bool,
    up: bool,
    pre: bool,
    s_bit: bool,
) -> bool {
    let base = reg_read(c, r_base);
    let n = rlist_count(r_list, 16);
    let start = ldm_start(base, n, up, pre);
    &&& c.wf()
    &&& valid_mode(c.spec_mode())
    &&& r_base <= 15
    &&& !s_bit
    &&& c.cycle_count + 24 <= usize::MAX
    &&& (up ==> base + 4 * n + 4 <= u32::MAX)
    &&& (!up ==> base - 4 * n >= 0 && base + 4 <= u32::MAX)
    &&& forall|j: int|
        0 <= j < n ==> ram32_ok(#[trigger] mask_addr((start + 4 * j) as u32)) && mask_addr(
            (start + 4 * j) as u32,
        ) == mask_addr(start as u32) + 4 * j
}

/// Every memory-like part of the machine other than plain RAM words inside
/// `[lo, lo + 4 n)` is unchanged.
pub open spec fn ldm_mem_frame(pre: CPU, post: CPU, lo: int, n: int) -> bool {
    &&& forall|b: u32|
        ram32_ok(b) && (b + 3 < lo || b >= lo + 4 * n) ==> #[trigger] spec_read_u32(post, b)
            == spec_read_u32(pre, b)
    &&& post.lcd.registers@ == pre.lcd.registers@
    &&& post.dma@ == pre.dma@
    &&& post.timers@ == pre.timers@
    &&& post.serial == pre.serial
    &&& post.keypad == pre.keypad
    &&& post.io_waitcnt == pre.io_waitcnt
    &&& post.io_ime == pre.io_ime
    &&& post.io_ie == pre.io_ie
    &&& post.io_if == pre.io_if
    &&& post.io_bios_if == pre.io_bios_if
    &&& post.rom == pre.rom
    &&& post.bios == pre.bios
    &&& post.panicked == pre.panicked
    &&& post.mem_ptr == pre.mem_ptr
    &&& post.ram_work1@.len() == pre.ram_work1@.len()
    &&& post.ram_work2@.len() == pre.ram_work2@.len()
    &&& post.ram_palette@.len() == pre.ram_palette@.len()
    &&& post.ram_video@.len() == pre.ram_video@.len()
    &&& post.ram_obj_attr@.len() == pre.ram_obj_attr@.len()
}

/// A physical slot written by one of the loads of a block transfer whose
/// list position is below `i`, or by the writeback.
pub open spec fn ldm_slot_touched_below(m: u8, r_list: u16, i: int, wb: bool, rb: u8, j: int) -> bool {
    (exists|b: u8| b <= 15 && (b as int) < i && bit16(r_list, b as int) && slot_id(m, b) == j) || (
    wb && slot_id(m, rb) == j)
}

impl CPU {
    /// Performs a single load or store with optional pre-indexing and
    /// writeback.  A post-indexed transfer always writes the offsetted
    /// address back to the base register, writeback bit or not.
    #[verifier::rlimit(100)]
    #[verifier::spinoff_prover]
    pub fn operation_ldr_str(
        &mut self,
        r_dest: u8,
        r_base: u8,
        offset: u32,
        load: bool,
        wb: bool,
        pre: bool,
        up: bool,
        byte: bool,
        reg: bool,
    )
        requires
            ldrstr_ok(*old(self), r_dest, r_base, offset, load, pre, up, byte, reg),
        ensures
            final(self).wf(),
            psr_eq(*old(self), *final(self)),
            final(self).halt == old(self).halt,
            final(self).cycle_count == old(self).cycle_count + (if !load {
                2int
            } else if r_dest == 15 {
                5int
            } else {
                3int
            }),
            ({
                let t = ldrstr_target(*old(self), r_base, offset, up, pre);
                let wrote = ldrstr_offsetted(*old(self), r_base, offset, up);
                let loaded = ldrstr_loaded(*old(self), t, byte);
                &&& (load ==> {
                    &&& mem_eq(*old(self), *final(self))
                    &&& io_eq(*old(self), *final(self))
                    &&& final(self).panicked == old(self).panicked
                    &&& final(self).mem_ptr == mask_addr(t)
                    &&& reg_write2_rel(
                        *old(self),
                        *final(self),
                        r_dest,
                        loaded,
                        r_base,
                        wrote,
                        wb || !pre,
                    )
                })
                &&& (!load ==> {
                    &&& (byte ==> write8_mem_rel(
                        *old(self),
                        *final(self),
                        true,
                        t,
                        (reg_read(*old(self), r_dest) & 0xFFu32) as u8,
                    ))
                    &&& (!byte ==> write32_mem_rel(
                        *old(self),
                        *final(self),
                        true,
                        t,
                        reg_read(*old(self), r_dest),
                    ))
                    &&& ((wb || !pre) ==> reg_write2_rel(
                        *old(self),
                        *final(self),
                        r_base,
                        wrote,
                        r_base,
                        wrote,
                        false,
                    ))
                    &&& (!(wb || !pre) ==> regs_unchanged_rel(*old(self), *final(self)))
                })
            }),
    {
        let base = if r_base == 15 {
            if self.is_thumb() {
                self.read_register(15) + 4
            } else {
                self.read_register(15) + 8
            }
        } else {
            self.read_register(r_base)
        };

        let offsetted_addr = if up {
            base.wrapping_add(offset)
        } else {
            base.wrapping_sub(offset)
        };

        let target = if pre {
            offsetted_addr
        } else {
            base
        };

        let ghost s0 = *self;

        if load {
            let val = if byte {
                self.read_u8(true, target) as u32
            } else {
                self.read_u32(true, target)
            };
            let ghost s1 = *self;
            self.write_register(r_dest, val);
            let ghost s2 = *self;
            if wb || !pre {
                self.write_register(r_base, offsetted_addr);
                proof {
                    lemma_reg_write2(s1, s2, *self, r_dest, val, r_base, offsetted_addr);
                    crate::cpu::lemma_reg_write2_transfer(
                        s0,
                        s1,
                        *self,
                        r_dest,
                        val,
                        r_base,
                        offsetted_addr,
                        true,
                    );
                }
            } else {
                proof {
                    lemma_reg_write1(s1, s2, r_dest, val, r_base, offsetted_addr);
                    crate::cpu::lemma_reg_write2_transfer(
                        s0,
                        s1,
                        s2,
                        r_dest,
                        val,
                        r_base,
                        offsetted_addr,
                        false,
                    );
                }
            }
        } else {
            let val = self.read_register(r_dest);
            if byte {
                self.write_u8(true, target, (val & 0xFF) as u8);
            } else {
                self.write_u32(true, target, val);
            }
            let ghost s2 = *self;
            if wb || !pre {
                self.write_register(r_base, offsetted_addr);
                proof {
                    lemma_reg_write1(s2, *self, r_base, offsetted_addr, r_base, offsetted_addr);
                    crate::cpu::lemma_reg_write2_transfer(
                        s0,
                        s2,
                        *self,
                        r_base,
                        offsetted_addr,
                        r_base,
                        offsetted_addr,
                        false,
                    );
                }
            }
        }

        let add: usize = if !load {
            2
        } else if r_dest == 15 {
            5
        } else {
            3
        };
        self.cycle_count = self.cycle_count + add;
    }

    /// Performs a block load or store over the register list, lowest index at
    /// the lowest address.  With writeback the base register ends four bytes
    /// per transferred word away, up or down with the direction.
    #[verifier::rlimit(100)]
    pub fn operation_ldm_stm(
        &mut self,
        r_base: u8,
        r_list: u16,
        load: bool,
        wb: bool,
        pre: bool,
        up: bool,
        s_bit: bool,
    )
        requires
            ldm_stm_ok(*old(self), r_base, r_list, load, up, pre, s_bit),
        ensures
            final(self).wf(),
            psr_eq(*old(self), *final(self)),
            final(self).halt == old(self).halt,
            ({
                let base = reg_read(*old(self), r_base);
                let n = rlist_count(r_list, 16);
                let first = mask_addr(ldm_start(base, n, up, pre) as u32);
                let m = cpsr_mode(old(self).reg_cpsr);
                let rb_final = ldm_final_rb(base, n, up) as u32;
                &&& final(self).cycle_count == old(self).cycle_count + (if load {
                    2int
                } else {
                    1int
                }) + n + (if load && bit16(r_list, 15) {
                    2int
                } else {
                    0int
                })
                &&& (!load ==> {
                    &&& ldm_mem_frame(*old(self), *final(self), first as int, n)
                    &&& forall|i: int|
                        0 <= i < 16 && bit16(r_list, i) ==> spec_read_u32(
                            *final(self),
                            (first + 4 * rlist_count(r_list, i)) as u32,
                        ) == reg_read(*old(self), i as u8)
                    &&& (wb ==> reg_write2_rel(
                        *old(self),
                        *final(self),
                        r_base,
                        rb_final,
                        r_base,
                        rb_final,
                        false,
                    ))
                    &&& (!wb ==> regs_unchanged_rel(*old(self), *final(self)))
                })
                &&& (load ==> {
                    &&& mem_eq(*old(self), *final(self))
                    &&& io_eq(*old(self), *final(self))
                    &&& final(self).panicked == old(self).panicked
                    &&& final(self).mem_ptr == old(self).mem_ptr
                    &&& (wb ==> slot_val(*final(self), slot_id(m, r_base)) == (if r_base == 15 {
                        pc_masked(rb_final, cpsr_thumb(old(self).reg_cpsr))
                    } else {
                        rb_final
                    }))
                    &&& forall|i: int|
                        0 <= i < 16 && bit16(r_list, i) && !(wb && slot_id(m, i as u8) == slot_id(
                            m,
                            r_base,
                        )) ==> slot_val(*final(self), slot_id(m, i as u8)) == (if i == 15 {
                            pc_masked(
                                spec_read_u32(
                                    *old(self),
                                    (first + 4 * rlist_count(r_list, i)) as u32,
                                ),
                                cpsr_thumb(old(self).reg_cpsr),
                            )
                        } else {
                            spec_read_u32(*old(self), (first + 4 * rlist_count(r_list, i)) as u32)
                        })
                    &&& forall|j: int|
                        0 <= j < 31 && !ldm_slot_touched_below(m, r_list, 16, wb, r_base, j)
                            ==> #[trigger] slot_val(*final(self), j) == slot_val(*old(self), j)
                })
            }),
    {
        proof {
            lemma_rlist_count_monotone(r_list, 0, 16);
        }
        let num_reg = popcount16(r_list);

        let base = self.read_register(r_base);
        let final_rb = if up {
            base + num_reg * 4
        } else {
            base - num_reg * 4
        };

        let start: u32 = if up {
            if pre {
                base + 4
            } else {
                base
            }
        } else {
            if pre {
                base - num_reg * 4
            } else {
                base - num_reg * 4 + 4
            }
        };

        let ghost s0 = *self;
        let ghost n = rlist_count(r_list, 16) as int;
        let ghost m = cpsr_mode(s0.reg_cpsr);
        let ghost first = mask_addr(start);

        let mut ptr: u32 = start;
        let mut i: u16 = 0;

        while i < 16
            invariant
                s0.wf(),
                self.wf(),
                ldm_stm_ok(s0, r_base, r_list, load, up, pre, s_bit),
                i <= 16,
                base == reg_read(s0, r_base),
                n == rlist_count(r_list, 16),
                first == mask_addr(start),
                m == cpsr_mode(s0.reg_cpsr),
                start == ldm_start(base, n, up, pre),
                0 <= rlist_count(r_list, i as int) <= n,
                ptr == start + 4 * rlist_count(r_list, i as int),
                psr_eq(s0, *self),
                self.halt == s0.halt,
                self.cycle_count == s0.cycle_count,
                !load ==> {
                    &&& ldm_mem_frame(s0, *self, first as int, n)
                    &&& forall|b: int|
                        0 <= b < i && bit16(r_list, b) ==> spec_read_u32(
                            *self,
                            (first + 4 * rlist_count(r_list, b)) as u32,
                        ) == reg_read(s0, b as u8)
                    &&& crate::cpu::regs_eq(s0, *self)
                },
                load ==> {
                    &&& mem_eq(s0, *self)
                    &&& io_eq(s0, *self)
                    &&& self.panicked == s0.panicked
                    &&& self.mem_ptr == s0.mem_ptr
                    &&& forall|b: int|
                        0 <= b < i && bit16(r_list, b) ==> slot_val(*self, slot_id(m, b as u8))
                            == (if b == 15 {
                            pc_masked(
                                spec_read_u32(s0, (first + 4 * rlist_count(r_list, b)) as u32),
                                cpsr_thumb(s0.reg_cpsr),
                            )
                        } else {
                            spec_read_u32(s0, (first + 4 * rlist_count(r_list, b)) as u32)
                        })
                    &&& forall|j: int|
                        0 <= j < 31 && !ldm_slot_touched_below(m, r_list, i as int, false, r_base, j)
                            ==> #[trigger] slot_val(*self, j) == slot_val(s0, j)
                },
            decreases 16 - i,
        {
            let ghost rank = rlist_count(r_list, i as int);
            proof {
                lemma_rlist_count_monotone(r_list, i as int, i + 1 as int);
                lemma_rlist_count_monotone(r_list, i + 1 as int, 16);
            }
            if (r_list >> i) & 1 == 1 {
                proof {
                    assert(bit16(r_list, i as int));
                    assert(rank < n);
                    assert(ram32_ok(mask_addr((start + 4 * rank) as u32)));
                    assert(mask_addr(ptr) == first + 4 * rank);
                }
                if !load {
                    let val = self.read_register(i as u8);
                    let ghost sa = *self;
                    proof {
                        lemma_ram32_access(sa, false, ptr);
                        assert(val == reg_read(s0, i as u8));
                    }
                    self.write_u32(false, ptr, val);
                    proof {
                        lemma_ram32_round_trip(sa, *self, false, ptr, val);
                        assert forall|b: int| 0 <= b < i && bit16(r_list, b) implies spec_read_u32(
                            *self,
                            (first + 4 * rlist_count(r_list, b)) as u32,
                        ) == reg_read(s0, b as u8) by {
                            lemma_rlist_count_monotone(r_list, b + 1, i as int);
                            lemma_rlist_count_monotone(r_list, 0, b);
                            let rb32 = (start + 4 * rlist_count(r_list, b)) as u32;
                            assert(ram32_ok(mask_addr(rb32)) && mask_addr(rb32) == first + 4
                                * rlist_count(r_list, b));
                            lemma_read_u32_frame(sa, *self, false, ptr, val, rb32);
                        }
                        assert forall|b: u32|
                            ram32_ok(b) && (b + 3 < first || b >= first + 4 * n) implies #[trigger] spec_read_u32(
                            *self,
                            b,
                        ) == spec_read_u32(sa, b) by {
                            lemma_read_u32_frame(sa, *self, false, ptr, val, b);
                        }
                    }
                } else {
                    proof {
                        lemma_ram32_access(*self, false, ptr);
                    }
                    let val = self.read_u32(false, ptr);
                    let ghost sa = *self;
                    self.write_register(i as u8, val);
                    proof {
                        assert(cpsr_mode(sa.reg_cpsr) == m && cpsr_thumb(sa.reg_cpsr)
                            == cpsr_thumb(s0.reg_cpsr));
                        lemma_register_round_trip(sa, *self, i as u8, val);
                        if i == 15 {
                            assert(slot_val(*self, slot_id(m, 15)) == pc_masked(
                                val,
                                cpsr_thumb(s0.reg_cpsr),
                            ));
                        }
                        assert forall|j: int|
                            0 <= j < 31 && !ldm_slot_touched_below(
                                m,
                                r_list,
                                i + 1 as int,
                                false,
                                r_base,
                                j,
                            ) implies #[trigger] slot_val(*self, j) == slot_val(s0, j) by {
                            assert(j != slot_id(m, i as u8));
                            assert(slot_val(*self, j) == slot_val(sa, j));
                            assert(!ldm_slot_touched_below(m, r_list, i as int, false, r_base, j));
                        }
                    }
                }
                ptr = ptr + 4;
            }
            proof {
                if load {
                    assert forall|j: int|
                        0 <= j < 31 && !ldm_slot_touched_below(
                            m,
                            r_list,
                            i + 1 as int,
                            false,
                            r_base,
                            j,
                        ) implies #[trigger] slot_val(*self, j) == slot_val(s0, j) by {
                        assert(!ldm_slot_touched_below(m, r_list, i as int, false, r_base, j));
                    }
                }
            }
            i = i + 1;
        }

        proof {
            if !load && !wb {
                assert forall|j: int| 0 <= j < 31 implies #[trigger] slot_val(*self, j)
                    == slot_val(s0, j) by {}
            }
        }
        let ghost s_exit = *self;
        if wb {
            self.write_register(r_base, final_rb);
            proof {
                if load {
                    assert(write_reg_rel(s_exit, *self, r_base, final_rb));
                    lemma_register_round_trip(s_exit, *self, r_base, final_rb);
                } else {
                    lemma_reg_write1(s_exit, *self, r_base, final_rb, r_base, final_rb);
                    crate::cpu::lemma_reg_write2_transfer(
                        s0,
                        s_exit,
                        *self,
                        r_base,
                        final_rb,
                        r_base,
                        final_rb,
                        false,
                    );
                }
            }
        }
        let mut add: usize = if load {
            2
        } else {
            1
        };
        add = add + (num_reg as usize);
        proof {
            assert(((r_list & 0x8000u16) != 0u16) == (((r_list >> 15u16) & 1u16) == 1u16))
                by (bit_vector);
        }
        if load && ((r_list & 0x8000) != 0) {
            add = add + 2;
        }
        self.cycle_count = self.cycle_count + add;

        proof {
            if !load {
                assert forall|b: u32|
                    ram32_ok(b) && (b + 3 < first || b >= first + 4 * n) implies #[trigger] spec_read_u32(
                    *self,
                    b,
                ) == spec_read_u32(s0, b) by {
                    assert(spec_read_u32(*self, b) == spec_read_u32(s_exit, b));
                    assert(spec_read_u32(s_exit, b) == spec_read_u32(s0, b));
                }
            } else {
                assert forall|j: int|
                    0 <= j < 31 && !ldm_slot_touched_below(
                        m,
                        r_list,
                        16,
                        wb,
                        r_base,
                        j,
                    ) implies #[trigger] slot_val(*self, j) == slot_val(s0, j) by {
                    assert(!ldm_slot_touched_below(m, r_list, 16, false, r_base, j));
                    if wb {
                        assert(j != slot_id(m, r_base));
                        assert(slot_val(*self, j) == slot_val(s_exit, j));
                    }
                    assert(slot_val(s_exit, j) == slot_val(s0, j));
                }
                assert forall|i: int|
                    0 <= i < 16 && bit16(r_list, i) && !(wb && slot_id(m, i as u8) == slot_id(
                        m,
                        r_base,
                    )) implies slot_val(*self, slot_id(m, i as u8)) == (if i == 15 {
                        pc_masked(
                            spec_read_u32(s0, (first + 4 * rlist_count(r_list, i)) as u32),
                            cpsr_thumb(s0.reg_cpsr),
                        )
                    } else {
                        spec_read_u32(s0, (first + 4 * rlist_count(r_list, i)) as u32)
                    }) by {
                    if wb {
                        assert(slot_val(*self, slot_id(m, i as u8)) == slot_val(
                            s_exit,
                            slot_id(m, i as u8),
                        ));
                    }
                }
            }
        }
    }
}

/// The number of set bits in a register list.
fn popcount16(x: u16) -> (r: u32)
    ensures
        r == rlist_count(x, 16),
        r <= 16,
{
    let mut i: u16 = 0;
    let mut cnt: u32 = 0;
    while i < 16
        invariant
            i <= 16,
            cnt == rlist_count(x, i as int),
            cnt <= i,
        decreases 16 - i,
    {
        if (x >> i) & 1 == 1 {
            cnt = cnt + 1;
        }
        i = i + 1;
    }
    cnt
}

} // verus!
