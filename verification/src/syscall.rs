//! The high-level firmware service table: RAM clear, halt, interrupt wait,
//! signed divide, and the copy/fill services, dispatched by service number
//! without executing firmware code.

use vstd::prelude::*;

use crate::cpu::{
    cpsr_mode, io_eq, lemma_reg_write1, lemma_reg_write2, lemma_reg_write2_transfer,
    lemma_register_round_trip, mem_eq, psr_eq, reg_read, reg_write2_rel, regs_eq, slot_id,
    slot_val, spec_reg, valid_mode, write_reg_rel, CPU,
};
use crate::mem::{
    in_rom, lemma_ram32_access, lemma_ram32_round_trip, lemma_ram8_access, lemma_ram8_round_trip,
    lemma_read_u32_frame, lemma_read_u8_frame, lemma_rom_access, mask_addr, ram32_ok, ram8_ok,
    read_u32_ok, rom32_src_ok, spec_read_u32, spec_read_u8, write32_mem_rel,
};

verus! {

broadcast use crate::bits::lemma_u32_and_bound, crate::bits::lemma_mask_small;

/// The signed value of a machine word.
pub open spec fn s32(x: u32) -> int {
    if x >= 0x80000000 {
        x - 0x100000000
    } else {
        x as int
    }
}

/// The machine word of a signed value in range.
pub open spec fn u32_of_s32(x: int) -> u32 {
    if x < 0 {
        (x + 0x100000000) as u32
    } else {
        x as u32
    }
}

/// The quotient of a truncated signed division, rounded towards zero.
pub open spec fn sdiv_q(n: int, d: int) -> int {
    let mag = abs_int(n) / abs_int(d);
    if (n < 0) != (d < 0) {
        -mag
    } else {
        mag
    }
}

/// The remainder of a truncated signed division; it satisfies
/// `sdiv_q * d + sdiv_r == n` and carries the dividend's sign.
pub open spec fn sdiv_r(n: int, d: int) -> int {
    n - d * sdiv_q(n, d)
}

pub open spec fn abs_int(x: int) -> int {
    if x < 0 {
        -x
    } else {
        x
    }
}

/// A signed divide followed by a multiply-add reconstructs the dividend.
pub proof fn lemma_div_reconstructs(n: int, d: int)
    requires
        d != 0,
    ensures
        sdiv_q(n, d) * d + sdiv_r(n, d) == n,
{
    assert(d * sdiv_q(n, d) == sdiv_q(n, d) * d) by (nonlinear_arith);
}

/// The inputs `syscall_div` accepts: a nonzero divisor, no overflowing
/// quotient, and a quotient whose magnitude fits the result registers.
pub open spec fn div_ok(c: CPU, number: u32, div: u32) -> bool {
    &&& div != 0
    &&& !(number == 0x80000000 && (div == 1 || div == 0xFFFFFFFF))
}

/// The register effect of the divide services: quotient, remainder and the
/// quotient's absolute value land in the first three registers.
pub open spec fn div_rel(pre: CPU, post: CPU, number: u32, div: u32) -> bool {
    let m = cpsr_mode(pre.reg_cpsr);
    let q = sdiv_q(s32(number), s32(div));
    let r = sdiv_r(s32(number), s32(div));
    &&& slot_val(post, slot_id(m, 0)) == u32_of_s32(q)
    &&& slot_val(post, slot_id(m, 1)) == u32_of_s32(r)
    &&& slot_val(post, slot_id(m, 2)) == abs_int(q)
    &&& forall|j: int|
        0 <= j < 31 && j != slot_id(m, 0) && j != slot_id(m, 1) && j != slot_id(m, 2)
            ==> #[trigger] slot_val(post, j) == slot_val(pre, j)
    &&& psr_eq(pre, post)
    &&& mem_eq(pre, post)
    &&& io_eq(pre, post)
    &&& post.panicked == pre.panicked
    &&& post.halt == pre.halt
    &&& post.mem_ptr == pre.mem_ptr
    &&& post.cycle_count == pre.cycle_count
}


/// The memory effect of the RAM-clear service, keyed by the selection bits
/// in the first register's low byte.
pub open spec fn ram_reset_mem_rel(pre: CPU, post: CPU) -> bool {
    let flags = spec_reg(pre, 0) & 0xFFu32;
    &&& (flags & 0x1u32 != 0 ==> forall|i: int| 0 <= i < 0x40000 ==> post.ram_work1@[i] == 0u8)
    &&& (flags & 0x1u32 == 0 ==> post.ram_work1 == pre.ram_work1)
    &&& (flags & 0x2u32 != 0 ==> (forall|i: int| 0 <= i < 0x7E00 ==> post.ram_work2@[i] == 0u8)
        && (forall|i: int| 0x7E00 <= i < 0x8000 ==> post.ram_work2@[i] == pre.ram_work2@[i]))
    &&& (flags & 0x2u32 == 0 ==> post.ram_work2 == pre.ram_work2)
    &&& (flags & 0x4u32 != 0 ==> forall|i: int| 0 <= i < 0x400 ==> post.ram_palette@[i] == 0u8)
    &&& (flags & 0x4u32 == 0 ==> post.ram_palette == pre.ram_palette)
    &&& (flags & 0x8u32 != 0 ==> forall|i: int| 0 <= i < 0x18000 ==> post.ram_video@[i] == 0u8)
    &&& (flags & 0x8u32 == 0 ==> post.ram_video == pre.ram_video)
    &&& (flags & 0x10u32 != 0 ==> forall|i: int| 0 <= i < 0x400 ==> post.ram_obj_attr@[i] == 0u8)
    &&& (flags & 0x10u32 == 0 ==> post.ram_obj_attr == pre.ram_obj_attr)
    &&& (flags & 0x80u32 != 0 ==> forall|i: int| 0 <= i < 88 ==> post.lcd.registers@[i] == 0u8)
    &&& (flags & 0x80u32 == 0 ==> post.lcd == pre.lcd)
    &&& post.rom == pre.rom
    &&& post.bios == pre.bios
    &&& post.dma == pre.dma
    &&& post.timers == pre.timers
    &&& post.serial == pre.serial
    &&& post.keypad == pre.keypad
    &&& post.io_waitcnt == pre.io_waitcnt
    &&& post.io_ime == pre.io_ime
    &&& post.io_ie == pre.io_ie
    &&& post.io_if == pre.io_if
    &&& post.io_bios_if == pre.io_bios_if
    &&& post.panicked == pre.panicked
    &&& post.halt == pre.halt
    &&& post.mem_ptr == pre.mem_ptr
}

/// The memory effect of the fast fill service: the word at the source
/// address replicated over the destination words.
pub open spec fn fast_set_words_rel(pre: CPU, post: CPU) -> bool {
    let src = spec_reg(pre, 0);
    let dest = spec_reg(pre, 1);
    let count = spec_reg(pre, 2) & 0x1FFFFFu32;
    let val = spec_read_u32(pre, mask_addr(src));
    forall|k: int|
        0 <= k < count ==> spec_read_u32(post, #[trigger] mask_addr((dest + 4 * k) as u32)) == val
}

/// The preconditions of `memfill32`: every word lands in plain RAM and no
/// two words overlap.
pub open spec fn memfill_ok(c: CPU, dest: u32, words: u32) -> bool {
    &&& c.wf()
    &&& dest + 4 * words <= u32::MAX
    &&& forall|j: int| 0 <= j < words ==> ram32_ok(#[trigger] mask_addr((dest + 4 * j) as u32))
    &&& forall|i: int, j: int|
        0 <= i < j < words ==> #[trigger] mask_addr((dest + 4 * i) as u32) + 3
            < #[trigger] mask_addr((dest + 4 * j) as u32) || mask_addr((dest + 4 * j) as u32) + 3
            < mask_addr((dest + 4 * i) as u32)
}

/// The preconditions of the word copies: every destination word in plain
/// RAM, every source word readable (plain RAM or the cartridge image), the
/// destination disjoint from the source and its own words.
pub open spec fn copy_words_ok(c: CPU, dest: u32, src: u32, count: u32) -> bool {
    &&& c.wf()
    &&& dest + 4 * count <= u32::MAX
    &&& src + 4 * count <= u32::MAX
    &&& forall|j: int|
        #![trigger mask_addr((dest + 4 * j) as u32)]
        #![trigger mask_addr((src + 4 * j) as u32)]
        0 <= j < count ==> ram32_ok(mask_addr((dest + 4 * j) as u32)) && (ram32_ok(
            mask_addr((src + 4 * j) as u32),
        ) || rom32_src_ok(c, mask_addr((src + 4 * j) as u32)))
    &&& forall|i: int, j: int|
        0 <= i < count && 0 <= j < count ==> #[trigger] mask_addr((dest + 4 * i) as u32) + 3
            < #[trigger] mask_addr((src + 4 * j) as u32) || mask_addr((src + 4 * j) as u32) + 3
            < mask_addr((dest + 4 * i) as u32)
    &&& forall|i: int, j: int|
        0 <= i < j < count ==> #[trigger] mask_addr((dest + 4 * i) as u32) + 3
            < #[trigger] mask_addr((dest + 4 * j) as u32) || mask_addr((dest + 4 * j) as u32) + 3
            < mask_addr((dest + 4 * i) as u32)
}

/// The preconditions of the copy-or-fill service, over the registers.
pub open spec fn cpu_set_ok(c: CPU) -> bool {
    let len_mode = spec_reg(c, 2);
    let count = (len_mode & 0x1FFFFFu32) as u32;
    &&& (len_mode & 0x04000000u32) != 0
    &&& ((len_mode & 0x01000000u32) != 0 ==> read_u32_ok(c, true, spec_reg(c, 0)) && memfill_ok(
        c,
        spec_reg(c, 1),
        count,
    ))
    &&& ((len_mode & 0x01000000u32) == 0 ==> copy_words_ok(c, spec_reg(c, 1), spec_reg(c, 0), count))
}

/// The memory effect of the copy-or-fill service: with the fill bit every
/// destination word takes the word at the source address, without it the
/// words are copied in order.
pub open spec fn cpu_set_words_rel(pre: CPU, post: CPU) -> bool {
    let src = spec_reg(pre, 0);
    let dest = spec_reg(pre, 1);
    let count = spec_reg(pre, 2) & 0x1FFFFFu32;
    let fill = (spec_reg(pre, 2) & 0x01000000u32) != 0u32;
    forall|k: int|
        0 <= k < count ==> spec_read_u32(post, #[trigger] mask_addr((dest + 4 * k) as u32))
            == spec_read_u32(
            pre,
            if fill {
                mask_addr(src)
            } else {
                mask_addr((src + 4 * k) as u32)
            },
        )
}

/// The preconditions of `memcpy`: every byte of both ranges lies in plain
/// RAM, the destination bytes are distinct, and the ranges do not overlap.
pub open spec fn memcpy_ok(c: CPU, dest: u32, src: u32, count: u32) -> bool {
    &&& c.wf()
    &&& dest + count <= u32::MAX
    &&& src + count <= u32::MAX
    &&& forall|k: int|
        0 <= k < count ==> ram8_ok(#[trigger] mask_addr((src + k) as u32)) && ram8_ok(
            mask_addr((dest + k) as u32),
        )
    &&& forall|i: int, j: int|
        0 <= i < count && 0 <= j < count ==> #[trigger] mask_addr((dest + i) as u32)
            != #[trigger] mask_addr((src + j) as u32)
    &&& forall|i: int, j: int|
        0 <= i < j < count ==> #[trigger] mask_addr((dest + i) as u32) != #[trigger] mask_addr(
            (dest + j) as u32,
        )
}

/// Everything but plain RAM contents, and the inspection pointer, unchanged.
pub open spec fn fill_frame(pre: CPU, post: CPU) -> bool {
    &&& regs_eq(pre, post)
    &&& psr_eq(pre, post)
    &&& post.lcd.registers@ == pre.lcd.registers@
    &&& post.dma@ == pre.dma@
    &&& post.timers@ == pre.timers@
    &&& post.serial == pre.serial
    &&& post.keypad == pre.keypad
    &&& post.io_waitcnt == pre.io_waitcnt
    &&& post.io_ime == pre.io_ime
    &&& post.io_ie == pre.io_ie
    &&& post.io_if == pre.io_if
    &&& post.io_bios_if == pre.io_bios_if
    &&& post.rom == pre.rom
    &&& post.bios == pre.bios
    &&& post.panicked == pre.panicked
    &&& post.halt == pre.halt
    &&& post.cycle_count == pre.cycle_count
    &&& post.ram_work1@.len() == pre.ram_work1@.len()
    &&& post.ram_work2@.len() == pre.ram_work2@.len()
    &&& post.ram_palette@.len() == pre.ram_palette@.len()
    &&& post.ram_video@.len() == pre.ram_video@.len()
    &&& post.ram_obj_attr@.len() == pre.ram_obj_attr@.len()
}

impl CPU {
    /// Fills `words` words with `val`, starting at `dest`: afterwards the
    /// word read at `dest + 4 k` is `val` for every `k` below `words`.
    pub fn memfill32(&mut self, dest: u32, val: u32, words: u32)
        requires
            memfill_ok(*old(self), dest, words),
        ensures
            final(self).wf(),
            fill_frame(*old(self), *final(self)),
            forall|k: int|
                0 <= k < words ==> spec_read_u32(
                    *final(self),
                    #[trigger] mask_addr((dest + 4 * k) as u32),
                ) == val,
            forall|b: u32|
                ram32_ok(b) && (forall|j: int|
                    0 <= j < words ==> b + 3 < #[trigger] mask_addr((dest + 4 * j) as u32)
                        || mask_addr((dest + 4 * j) as u32) + 3 < b) ==> #[trigger] spec_read_u32(
                    *final(self),
                    b,
                ) == spec_read_u32(*old(self), b),
            final(self).mem_ptr == (if words == 0 {
                old(self).mem_ptr
            } else {
                mask_addr((dest + 4 * (words - 1)) as u32)
            }),
    {
        let ghost s0 = *self;
        let mut i: u32 = 0;
        while i < words
            invariant
                memfill_ok(s0, dest, words),
                self.wf(),
                i <= words,
                fill_frame(s0, *self),
                forall|k: int|
                    0 <= k < i ==> spec_read_u32(*self, #[trigger] mask_addr((dest + 4 * k) as u32))
                        == val,
                forall|b: u32|
                    ram32_ok(b) && (forall|j: int|
                        0 <= j < words ==> b + 3 < #[trigger] mask_addr((dest + 4 * j) as u32)
                            || mask_addr((dest + 4 * j) as u32) + 3 < b)
                        ==> #[trigger] spec_read_u32(*self, b) == spec_read_u32(s0, b),
                self.mem_ptr == (if i == 0 {
                    s0.mem_ptr
                } else {
                    mask_addr((dest + 4 * (i - 1)) as u32)
                }),
            decreases words - i,
        {
            let addr = dest + i * 4;
            let ghost sa = *self;
            proof {
                assert(ram32_ok(mask_addr((dest + 4 * (i as int)) as u32)));
                assert(addr == (dest + 4 * (i as int)) as u32);
                lemma_ram32_access(sa, true, addr);
            }
            self.write_u32(true, addr, val);
            proof {
                lemma_ram32_round_trip(sa, *self, true, addr, val);
                assert forall|k: int| 0 <= k < i implies spec_read_u32(
                    *self,
                    #[trigger] mask_addr((dest + 4 * k) as u32),
                ) == val by {
                    lemma_read_u32_frame(
                        sa,
                        *self,
                        true,
                        addr,
                        val,
                        mask_addr((dest + 4 * k) as u32),
                    );
                }
                assert forall|b: u32|
                    ram32_ok(b) && (forall|j: int|
                        0 <= j < words ==> b + 3 < #[trigger] mask_addr((dest + 4 * j) as u32)
                            || mask_addr((dest + 4 * j) as u32) + 3 < b) implies #[trigger] spec_read_u32(
                    *self,
                    b,
                ) == spec_read_u32(s0, b) by {
                    lemma_read_u32_frame(sa, *self, true, addr, val, b);
                }
            }
            i = i + 1;
        }
    }

    /// Copies `count` bytes from `src` to `dest`, one byte at a time,
    /// through disjoint plain RAM ranges.
    pub fn memcpy(&mut self, dest: u32, src: u32, count: u32)
        requires
            memcpy_ok(*old(self), dest, src, count),
        ensures
            final(self).wf(),
            fill_frame(*old(self), *final(self)),
            forall|k: int|
                0 <= k < count ==> spec_read_u8(
                    *final(self),
                    #[trigger] mask_addr((dest + k) as u32),
                ) == spec_read_u8(*old(self), mask_addr((src + k) as u32)),
            forall|b: u32|
                ram8_ok(b) && (forall|j: int|
                    0 <= j < count ==> b != #[trigger] mask_addr((dest + j) as u32))
                    ==> #[trigger] spec_read_u8(*final(self), b) == spec_read_u8(*old(self), b),
    {
        let ghost s0 = *self;
        let mut i: u32 = 0;
        while i < count
            invariant
                memcpy_ok(s0, dest, src, count),
                self.wf(),
                i <= count,
                fill_frame(s0, *self),
                forall|k: int|
                    0 <= k < i ==> spec_read_u8(*self, #[trigger] mask_addr((dest + k) as u32))
                        == spec_read_u8(s0, mask_addr((src + k) as u32)),
                forall|b: u32|
                    ram8_ok(b) && (forall|j: int|
                        0 <= j < count ==> b != #[trigger] mask_addr((dest + j) as u32))
                        ==> #[trigger] spec_read_u8(*self, b) == spec_read_u8(s0, b),
            decreases count - i,
        {
            let ghost sa = *self;
            proof {
                assert(ram8_ok(mask_addr((src + i as int) as u32)));
                assert(ram8_ok(mask_addr((dest + i as int) as u32)));
                lemma_ram8_access(sa, true, (src + i) as u32);
                assert(spec_read_u8(sa, mask_addr((src + i as int) as u32)) == spec_read_u8(
                    s0,
                    mask_addr((src + i as int) as u32),
                ));
            }
            let val = self.read_u8(true, src + i);
            let ghost sb = *self;
            proof {
                lemma_ram8_access(sb, true, (dest + i) as u32);
            }
            self.write_u8(true, dest + i, val);
            proof {
                lemma_ram8_round_trip(sb, *self, true, (dest + i) as u32, val);
                assert forall|k: int| 0 <= k < i implies spec_read_u8(
                    *self,
                    #[trigger] mask_addr((dest + k) as u32),
                ) == spec_read_u8(s0, mask_addr((src + k) as u32)) by {
                    lemma_read_u8_frame(sb, *self, true, (dest + i) as u32, val, mask_addr(
                        (dest + k) as u32,
                    ));
                }
                assert forall|b: u32|
                    ram8_ok(b) && (forall|j: int|
                        0 <= j < count ==> b != #[trigger] mask_addr((dest + j) as u32)) implies
                    #[trigger] spec_read_u8(*self, b) == spec_read_u8(s0, b) by {
                    assert(b != mask_addr((dest + (i as int)) as u32));
                    lemma_read_u8_frame(sb, *self, true, (dest + i) as u32, val, b);
                    assert(spec_read_u8(sb, b) == spec_read_u8(sa, b));
                    assert(spec_read_u8(sa, b) == spec_read_u8(s0, b));
                }
            }
            i = i + 1;
        }
    }

    /// Copies `count` words from `src` (plain RAM or the cartridge) to
    /// `dest` (plain RAM), in order through disjoint ranges.
    fn copy_words32(&mut self, dest: u32, src: u32, count: u32)
        requires
            copy_words_ok(*old(self), dest, src, count),
        ensures
            final(self).wf(),
            fill_frame(*old(self), *final(self)),
            forall|k: int|
                0 <= k < count ==> spec_read_u32(
                    *final(self),
                    #[trigger] mask_addr((dest + 4 * k) as u32),
                ) == spec_read_u32(*old(self), mask_addr((src + 4 * k) as u32)),
    {
        let ghost s0 = *self;
        let mut i: u32 = 0;
        while i < count
            invariant
                copy_words_ok(s0, dest, src, count),
                self.wf(),
                i <= count,
                fill_frame(s0, *self),
                forall|k: int|
                    0 <= k < i ==> spec_read_u32(*self, #[trigger] mask_addr((dest + 4 * k) as u32))
                        == spec_read_u32(s0, mask_addr((src + 4 * k) as u32)),
                forall|k: int|
                    0 <= k < count ==> spec_read_u32(
                        *self,
                        #[trigger] mask_addr((src + 4 * k) as u32),
                    ) == spec_read_u32(s0, mask_addr((src + 4 * k) as u32)),
            decreases count - i,
        {
            let ghost sb = *self;
            let saddr = src + i * 4;
            let daddr = dest + i * 4;
            proof {
                assert(ram32_ok(mask_addr((dest + 4 * (i as int)) as u32)));
                assert(saddr == (src + 4 * (i as int)) as u32);
                assert(daddr == (dest + 4 * (i as int)) as u32);
                lemma_ram32_access(sb, true, saddr);
                lemma_rom_access(sb, true, saddr);
            }
            let val = self.read_u32(true, saddr);
            let ghost sc = *self;
            proof {
                lemma_ram32_access(sc, true, daddr);
            }
            self.write_u32(true, daddr, val);
            proof {
                lemma_ram32_round_trip(sc, *self, true, daddr, val);
                assert forall|k: int| 0 <= k < i implies spec_read_u32(
                    *self,
                    #[trigger] mask_addr((dest + 4 * k) as u32),
                ) == spec_read_u32(s0, mask_addr((src + 4 * k) as u32)) by {
                    lemma_read_u32_frame(sc, *self, true, daddr, val, mask_addr(
                        (dest + 4 * k) as u32,
                    ));
                }
                assert forall|k: int| 0 <= k < count implies spec_read_u32(
                    *self,
                    #[trigger] mask_addr((src + 4 * k) as u32),
                ) == spec_read_u32(s0, mask_addr((src + 4 * k) as u32)) by {
                    assert(ram32_ok(mask_addr((src + 4 * k) as u32)) || rom32_src_ok(
                        s0,
                        mask_addr((src + 4 * k) as u32),
                    ));
                    lemma_read_u32_frame(sc, *self, true, daddr, val, mask_addr(
                        (src + 4 * k) as u32,
                    ));
                    assert(spec_read_u32(sc, mask_addr((src + 4 * k) as u32)) == spec_read_u32(
                        sb,
                        mask_addr((src + 4 * k) as u32),
                    ));
                }
            }
            i = i + 1;
        }
    }

    /// Service 0x0B: copy or fill words; the count, the fill bit and the
    /// word bit come from the third register.
    pub fn syscall_cpu_set(&mut self)
        requires
            old(self).wf(),
            valid_mode(old(self).spec_mode()),
            cpu_set_ok(*old(self)),
        ensures
            final(self).wf(),
            regs_eq(*old(self), *final(self)),
            psr_eq(*old(self), *final(self)),
            cpu_set_words_rel(*old(self), *final(self)),
            final(self).halt == old(self).halt,
            final(self).panicked == old(self).panicked,
            final(self).cycle_count == old(self).cycle_count,
    {
        let rs_val = self.read_register(0);
        let rd_val = self.read_register(1);
        let len_mode = self.read_register(2);

        let count = len_mode & 0x1FFFFF;
        let fill = (len_mode & 0x01000000) != 0;

        if fill {
            let val = self.read_u32(true, rs_val);
            self.memfill32(rd_val, val, count);
        } else {
            self.copy_words32(rd_val, rs_val, count);
        }
    }

    /// Service 0x01: zeroes the RAM sub-regions and display registers whose
    /// bits are set in the first register's low byte.
    pub fn syscall_register_ram_reset(&mut self)
        requires
            old(self).wf(),
            valid_mode(old(self).spec_mode()),
        ensures
            final(self).wf(),
            ram_reset_mem_rel(*old(self), *final(self)),
            regs_eq(*old(self), *final(self)),
            psr_eq(*old(self), *final(self)),
            final(self).cycle_count == old(self).cycle_count,
    {
        let flags = self.read_register(0) & 0xFF;

        if (flags & 0x1) != 0 {
            self.ram_work1 = vec![0u8; crate::cpu::RAM_WORK1_BYTES];
        }
        if (flags & 0x2) != 0 {
            let ghost sl = *self;
            let mut i: usize = 0;
            while i < 0x7E00
                invariant
                    self.ram_work2@.len() == 0x8000,
                    i <= 0x7E00,
                    forall|k: int| 0 <= k < i ==> self.ram_work2@[k] == 0u8,
                    forall|k: int| i <= k < 0x8000 ==> self.ram_work2@[k] == sl.ram_work2@[k],
                    sl.ram_work2@.len() == 0x8000,
                    *self == (CPU { ram_work2: self.ram_work2, ..sl }),
                decreases 0x7E00 - i,
            {
                self.ram_work2[i] = 0;
                i = i + 1;
            }
        }
        if (flags & 0x4) != 0 {
            self.ram_palette = vec![0u8; crate::cpu::RAM_PALETTE_BYTES];
        }
        if (flags & 0x8) != 0 {
            self.ram_video = vec![0u8; crate::cpu::RAM_VIDEO_BYTES];
        }
        if (flags & 0x10) != 0 {
            self.ram_obj_attr = vec![0u8; crate::cpu::RAM_OBJ_ATTR_BYTES];
        }
        if (flags & 0x80) != 0 {
            self.lcd.reset();
        }
    }

    /// Service 0x0C: fast word fill; the source register names a word that is
    /// replicated over a multiple-of-eight count of words at the destination.
    pub fn syscall_cpu_fast_set(&mut self)
        requires
            old(self).wf(),
            valid_mode(old(self).spec_mode()),
            ({
                let len_mode = spec_reg(*old(self), 2);
                let count = len_mode & 0x1FFFFFu32;
                &&& (len_mode & 0x01000000u32) != 0
                &&& count % 8 == 0
                &&& read_u32_ok(*old(self), true, spec_reg(*old(self), 0))
                &&& memfill_ok(*old(self), spec_reg(*old(self), 1), count)
            }),
        ensures
            final(self).wf(),
            ({
                let src = spec_reg(*old(self), 0);
                let dest = spec_reg(*old(self), 1);
                let count = spec_reg(*old(self), 2) & 0x1FFFFFu32;
                let val = spec_read_u32(*old(self), mask_addr(src));
                &&& regs_eq(*old(self), *final(self))
                &&& psr_eq(*old(self), *final(self))
                &&& forall|k: int|
                    0 <= k < count ==> spec_read_u32(
                        *final(self),
                        #[trigger] mask_addr((dest + 4 * k) as u32),
                    ) == val
                &&& final(self).halt == old(self).halt
                &&& final(self).panicked == old(self).panicked
                &&& final(self).cycle_count == old(self).cycle_count
            }),
    {
        let src_addr = self.read_register(0);
        let dest_addr = self.read_register(1);
        let len_mode = self.read_register(2);

        let count = len_mode & 0x1FFFFF;

        let val = self.read_u32(true, src_addr);
        self.memfill32(dest_addr, val, count);
    }

    /// Service 0x02: raises the halt flag so that the scheduler idles the
    /// core until an interrupt wakes it.
    pub fn syscall_halt(&mut self)
        ensures
            *final(self) == (CPU { halt: true, ..*old(self) }),
    {
        self.halt = true;
    }

    /// Service 0x04 with the discard form: enables the master interrupt
    /// switch, narrows wakeups to the awaited sources, and halts.
    pub fn syscall_intr_wait(&mut self)
        requires
            old(self).wf(),
            valid_mode(old(self).spec_mode()),
            (spec_reg(*old(self), 0) & 1u32) == 1u32,
        ensures
            final(self).wf(),
            *final(self) == (CPU {
                io_ime: (old(self).io_ime | 0x1u8) as u8,
                io_bios_if: (spec_reg(*old(self), 1) & 0xFFFFu32) as u16,
                halt: true,
                ..*old(self)
            }),
    {
        let discard = (self.read_register(0) & 0x1) == 0x1;
        let r1 = (self.read_register(1) & 0xFFFF) as u16;

        self.io_ime = self.io_ime | 0x1;
        self.io_bios_if = r1;
        self.halt = true;
    }

    /// Service 0x05: wait for the vertical blank, the interrupt-wait service
    /// with the V-blank source preselected.
    pub fn syscall_vblank_intr_wait(&mut self)
        requires
            old(self).wf(),
            valid_mode(old(self).spec_mode()),
        ensures
            final(self).wf(),
            reg_write2_rel(*old(self), *final(self), 0, 1, 1, 1, true),
            final(self).reg_cpsr == old(self).reg_cpsr,
            final(self).regs_spsr == old(self).regs_spsr,
            mem_eq(*old(self), *final(self)),
            final(self).io_ime == (old(self).io_ime | 0x1u8) as u8,
            final(self).io_bios_if == 1u16,
            final(self).halt,
            final(self).io_ie == old(self).io_ie,
            final(self).io_if == old(self).io_if,
            final(self).lcd == old(self).lcd,
            final(self).keypad == old(self).keypad,
            final(self).serial == old(self).serial,
            final(self).dma == old(self).dma,
            final(self).timers == old(self).timers,
            final(self).io_waitcnt == old(self).io_waitcnt,
            final(self).panicked == old(self).panicked,
            final(self).mem_ptr == old(self).mem_ptr,
            final(self).cycle_count == old(self).cycle_count,
    {
        let ghost s0 = *self;
        self.write_register(0, 1);
        let ghost s1 = *self;
        self.write_register(1, 1);
        let ghost s2 = *self;
        proof {
            lemma_reg_write2(s0, s1, s2, 0, 1, 1, 1);
            lemma_register_round_trip(s0, s1, 0, 1);
            lemma_register_round_trip(s1, s2, 1, 1);
            assert(spec_reg(s2, 0) == 1u32 && spec_reg(s2, 1) == 1u32);
            assert((1u32 & 1u32) == 1u32 && ((1u32 & 0xFFFFu32) as u16) == 1u16) by (bit_vector);
        }
        self.syscall_intr_wait();
    }

    /// Service 0x06: signed divide.  The first register takes the quotient
    /// of the first two, the second the remainder, the third the quotient's
    /// absolute value; quotient times divisor plus remainder gives back the
    /// dividend.
    pub fn syscall_div(&mut self)
        requires
            old(self).wf(),
            valid_mode(old(self).spec_mode()),
            div_ok(*old(self), spec_reg(*old(self), 0), spec_reg(*old(self), 1)),
        ensures
            final(self).wf(),
            div_rel(*old(self), *final(self), spec_reg(*old(self), 0), spec_reg(*old(self), 1)),
    {
        let number = self.read_register(0);
        let div = self.read_register(1);
        self.div_common(number, div);
    }

    /// Service 0x07: signed divide with the operands exchanged.
    pub fn syscall_div_arm(&mut self)
        requires
            old(self).wf(),
            valid_mode(old(self).spec_mode()),
            div_ok(*old(self), spec_reg(*old(self), 1), spec_reg(*old(self), 0)),
        ensures
            final(self).wf(),
            div_rel(*old(self), *final(self), spec_reg(*old(self), 1), spec_reg(*old(self), 0)),
    {
        let div = self.read_register(0);
        let number = self.read_register(1);
        self.div_common(number, div);
    }

    /// The shared divide core: truncated signed division on magnitudes.
    fn div_common(&mut self, number: u32, div: u32)
        requires
            old(self).wf(),
            valid_mode(old(self).spec_mode()),
            div_ok(*old(self), number, div),
        ensures
            final(self).wf(),
            div_rel(*old(self), *final(self), number, div),
    {
        let n_neg = number >= 0x80000000;
        let d_neg = div >= 0x80000000;

        let mag_n: u32 = if n_neg {
            0u32.wrapping_sub(number)
        } else {
            number
        };
        let mag_d: u32 = if d_neg {
            0u32.wrapping_sub(div)
        } else {
            div
        };
        proof {
            assert(mag_n == abs_int(s32(number)));
            assert(mag_d == abs_int(s32(div)));
            assert(mag_d != 0);
        }

        let q_mag = mag_n / mag_d;
        let r_mag = mag_n % mag_d;
        proof {
            assert(q_mag <= mag_n) by (nonlinear_arith)
                requires
                    mag_d >= 1,
                    q_mag == mag_n / mag_d,
            ;
            assert(r_mag < mag_d);
            if mag_n == 0x80000000 {
                assert(mag_d >= 2);
                assert(q_mag < 0x80000000) by (nonlinear_arith)
                    requires
                        mag_d >= 2,
                        q_mag == mag_n / mag_d,
                        mag_n == 0x80000000u32,
                ;
            }
        }

        let q_neg = n_neg != d_neg;
        let res_div: u32 = if q_neg {
            0u32.wrapping_sub(q_mag)
        } else {
            q_mag
        };
        let res_mod: u32 = if n_neg {
            0u32.wrapping_sub(r_mag)
        } else {
            r_mag
        };

        proof {
            let sn = s32(number);
            let sd = s32(div);
            assert(abs_int(sn) == mag_n && abs_int(sd) == mag_d);
            assert(sdiv_q(sn, sd) == (if (sn < 0) != (sd < 0) {
                -(mag_n as int / mag_d as int)
            } else {
                mag_n as int / mag_d as int
            }));
            assert(mag_n as int == (mag_n as int / mag_d as int) * mag_d + (mag_n as int
                % mag_d as int)) by (nonlinear_arith)
                requires
                    mag_d > 0,
            ;
            assert(sdiv_r(sn, sd) == sn - sd * sdiv_q(sn, sd));
            let qq = sdiv_q(sn, sd);
            assert(sn - sd * qq == (if sn < 0 {
                -(r_mag as int)
            } else {
                r_mag as int
            })) by (nonlinear_arith)
                requires
                    mag_d > 0,
                    qq == (if (sn < 0) != (sd < 0) {
                        -(mag_n as int / mag_d as int)
                    } else {
                        mag_n as int / mag_d as int
                    }),
                    sn == (if sn < 0 {
                        -(mag_n as int)
                    } else {
                        mag_n as int
                    }),
                    sd == (if sd < 0 {
                        -(mag_d as int)
                    } else {
                        mag_d as int
                    }),
                    mag_n as int == (mag_n as int / mag_d as int) * mag_d + r_mag,
            ;
            assert(res_div == u32_of_s32(sdiv_q(sn, sd)));
            assert(res_mod == u32_of_s32(sdiv_r(sn, sd)));
        }

        let ghost s0 = *self;
        self.write_register(0, res_div);
        let ghost s1 = *self;
        self.write_register(1, res_mod);
        let ghost s2 = *self;
        self.write_register(2, q_mag);
        proof {
            lemma_register_round_trip(s0, s1, 0, res_div);
            lemma_register_round_trip(s1, s2, 1, res_mod);
            lemma_register_round_trip(s2, *self, 2, q_mag);
        }
    }

    /// The firmware service dispatcher.
    pub fn bios_syscall(&mut self, syscall: u8)
        requires
            old(self).wf(),
            valid_mode(old(self).spec_mode()),
            syscall == 0x01 || syscall == 0x02 || syscall == 0x04 || syscall == 0x05 || syscall
                == 0x06 || syscall == 0x07 || syscall == 0x0B || syscall == 0x0C,
            syscall == 0x04 ==> (spec_reg(*old(self), 0) & 1u32) == 1u32,
            syscall == 0x06 ==> div_ok(*old(self), spec_reg(*old(self), 0), spec_reg(*old(self), 1)),
            syscall == 0x07 ==> div_ok(*old(self), spec_reg(*old(self), 1), spec_reg(*old(self), 0)),
            syscall == 0x0B ==> cpu_set_ok(*old(self)),
            syscall == 0x0C ==> {
                let len_mode = spec_reg(*old(self), 2);
                &&& (len_mode & 0x01000000u32) != 0
                &&& (len_mode & 0x1FFFFFu32) % 8 == 0
                &&& read_u32_ok(*old(self), true, spec_reg(*old(self), 0))
                &&& memfill_ok(*old(self), spec_reg(*old(self), 1), (len_mode & 0x1FFFFFu32) as u32)
            },
        ensures
            final(self).wf(),
            syscall == 0x01 ==> ram_reset_mem_rel(*old(self), *final(self)) && regs_eq(
                *old(self),
                *final(self),
            ) && psr_eq(*old(self), *final(self)) && final(self).cycle_count == old(
                self,
            ).cycle_count,
            syscall == 0x0B ==> cpu_set_words_rel(*old(self), *final(self)) && regs_eq(
                *old(self),
                *final(self),
            ) && psr_eq(*old(self), *final(self)) && final(self).cycle_count == old(
                self,
            ).cycle_count && final(self).halt == old(self).halt && final(self).panicked == old(
                self,
            ).panicked,
            syscall == 0x0C ==> fast_set_words_rel(*old(self), *final(self)) && regs_eq(
                *old(self),
                *final(self),
            ) && psr_eq(*old(self), *final(self)) && final(self).cycle_count == old(
                self,
            ).cycle_count && final(self).halt == old(self).halt && final(self).panicked == old(
                self,
            ).panicked,
            syscall == 0x02 ==> *final(self) == (CPU { halt: true, ..*old(self) }),
            syscall == 0x04 ==> *final(self) == (CPU {
                io_ime: (old(self).io_ime | 0x1u8) as u8,
                io_bios_if: (spec_reg(*old(self), 1) & 0xFFFFu32) as u16,
                halt: true,
                ..*old(self)
            }),
            syscall == 0x05 ==> {
                &&& reg_write2_rel(*old(self), *final(self), 0, 1, 1, 1, true)
                &&& final(self).halt
                &&& final(self).io_ime == (old(self).io_ime | 0x1u8) as u8
                &&& final(self).io_bios_if == 1u16
                &&& final(self).reg_cpsr == old(self).reg_cpsr
                &&& mem_eq(*old(self), *final(self))
                &&& final(self).cycle_count == old(self).cycle_count
                &&& final(self).panicked == old(self).panicked
            },
            syscall == 0x06 ==> div_rel(
                *old(self),
                *final(self),
                spec_reg(*old(self), 0),
                spec_reg(*old(self), 1),
            ),
            syscall == 0x07 ==> div_rel(
                *old(self),
                *final(self),
                spec_reg(*old(self), 1),
                spec_reg(*old(self), 0),
            ),
    {
        if syscall == 0x01 {
            self.syscall_register_ram_reset();
        } else if syscall == 0x0B {
            self.syscall_cpu_set();
        } else if syscall == 0x0C {
            self.syscall_cpu_fast_set();
        } else if syscall == 0x02 {
            self.syscall_halt();
        } else if syscall == 0x04 {
            self.syscall_intr_wait();
        } else if syscall == 0x05 {
            self.syscall_vblank_intr_wait();
        } else if syscall == 0x06 {
            self.syscall_div();
        } else {
            self.syscall_div_arm();
        }
    }

    /// Performs a software interrupt into the firmware service table.
    pub fn operation_swi(&mut self, syscall: u8)
        requires
            old(self).wf(),
            valid_mode(old(self).spec_mode()),
            old(self).cycle_count + 3 <= usize::MAX,
            syscall == 0x01 || syscall == 0x02 || syscall == 0x04 || syscall == 0x05 || syscall
                == 0x06 || syscall == 0x07 || syscall == 0x0B || syscall == 0x0C,
            syscall == 0x04 ==> (spec_reg(*old(self), 0) & 1u32) == 1u32,
            syscall == 0x06 ==> div_ok(*old(self), spec_reg(*old(self), 0), spec_reg(*old(self), 1)),
            syscall == 0x07 ==> div_ok(*old(self), spec_reg(*old(self), 1), spec_reg(*old(self), 0)),
            syscall == 0x0B ==> cpu_set_ok(*old(self)),
            syscall == 0x0C ==> {
                let len_mode = spec_reg(*old(self), 2);
                &&& (len_mode & 0x01000000u32) != 0
                &&& (len_mode & 0x1FFFFFu32) % 8 == 0
                &&& read_u32_ok(*old(self), true, spec_reg(*old(self), 0))
                &&& memfill_ok(*old(self), spec_reg(*old(self), 1), (len_mode & 0x1FFFFFu32) as u32)
            },
        ensures
            final(self).wf(),
            final(self).cycle_count == old(self).cycle_count + 3,
            syscall == 0x01 ==> ram_reset_mem_rel(*old(self), *final(self)) && regs_eq(
                *old(self),
                *final(self),
            ) && psr_eq(*old(self), *final(self)),
            syscall == 0x0B ==> cpu_set_words_rel(*old(self), *final(self)) && regs_eq(
                *old(self),
                *final(self),
            ) && psr_eq(*old(self), *final(self)) && final(self).halt == old(self).halt,
            syscall == 0x0C ==> fast_set_words_rel(*old(self), *final(self)) && regs_eq(
                *old(self),
                *final(self),
            ) && psr_eq(*old(self), *final(self)) && final(self).halt == old(self).halt,
            syscall == 0x02 ==> *final(self) == (CPU {
                halt: true,
                cycle_count: (old(self).cycle_count + 3) as usize,
                ..*old(self)
            }),
            syscall == 0x04 ==> *final(self) == (CPU {
                io_ime: (old(self).io_ime | 0x1u8) as u8,
                io_bios_if: (spec_reg(*old(self), 1) & 0xFFFFu32) as u16,
                halt: true,
                cycle_count: (old(self).cycle_count + 3) as usize,
                ..*old(self)
            }),
            syscall == 0x05 ==> {
                &&& reg_write2_rel(*old(self), *final(self), 0, 1, 1, 1, true)
                &&& final(self).halt
                &&& final(self).io_ime == (old(self).io_ime | 0x1u8) as u8
                &&& final(self).io_bios_if == 1u16
                &&& final(self).reg_cpsr == old(self).reg_cpsr
                &&& mem_eq(*old(self), *final(self))
                &&& final(self).panicked == old(self).panicked
            },
            syscall == 0x06 ==> div_rel_cycles(
                *old(self),
                *final(self),
                spec_reg(*old(self), 0),
                spec_reg(*old(self), 1),
                3,
            ),
            syscall == 0x07 ==> div_rel_cycles(
                *old(self),
                *final(self),
                spec_reg(*old(self), 1),
                spec_reg(*old(self), 0),
                3,
            ),
    {
        self.bios_syscall(syscall);
        let ghost mid = *self;
        self.cycle_count = self.cycle_count + 3;
        proof {
            assert forall|j: int| 0 <= j < 31 implies #[trigger] slot_val(*self, j) == slot_val(
                mid,
                j,
            ) by {}
            assert forall|j: int| 0 <= j < 31 implies #[trigger] slot_val(mid, j) == slot_val(
                *self,
                j,
            ) by {}
        }
    }
}

/// `div_rel` up to a cycle-count advance.
pub open spec fn div_rel_cycles(pre: CPU, post: CPU, number: u32, div: u32, cycles: int) -> bool {
    let m = cpsr_mode(pre.reg_cpsr);
    let q = sdiv_q(s32(number), s32(div));
    let r = sdiv_r(s32(number), s32(div));
    &&& slot_val(post, slot_id(m, 0)) == u32_of_s32(q)
    &&& slot_val(post, slot_id(m, 1)) == u32_of_s32(r)
    &&& slot_val(post, slot_id(m, 2)) == abs_int(q)
    &&& forall|j: int|
        0 <= j < 31 && j != slot_id(m, 0) && j != slot_id(m, 1) && j != slot_id(m, 2)
            ==> #[trigger] slot_val(post, j) == slot_val(pre, j)
    &&& psr_eq(pre, post)
    &&& mem_eq(pre, post)
    &&& io_eq(pre, post)
    &&& post.panicked == pre.panicked
    &&& post.halt == pre.halt
    &&& post.mem_ptr == pre.mem_ptr
    &&& post.cycle_count == pre.cycle_count + cycles
}

} // verus!
