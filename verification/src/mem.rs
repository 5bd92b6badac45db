//! The memory bus: address decoding across the mapped regions (firmware,
//! the two work RAMs with the scratch mirror, the I/O window, palette, video
//! and object-attribute RAM, cartridge ROM), 8/16/32-bit reads, 8/32-bit
//! writes, I/O register side effects and access-validity testing.

use vstd::prelude::*;

use crate::cpu::{psr_eq, regs_eq, CPU};
use crate::serial::{serial_w32_ok, serial_w8_ok, spec_serial_read_u32, Serial};

verus! {

broadcast use crate::bits::lemma_u32_and_bound;

/// Addresses are decoded after masking off the top nibble.
pub open spec fn mask_addr(addr: u32) -> u32 {
    addr & 0x0FFFFFFFu32
}

/// The byte offset into a region's backing buffer.
pub open spec fn off24(a: u32) -> u32 {
    a & 0x00FFFFFFu32
}

/// The scratch mirror re-maps onto the tail of work RAM 2.
pub open spec fn mirror_off(a: u32) -> u32 {
    (off24(a) & 0xFFu32) | 0x7F00u32
}

/// The byte offset into the cartridge image: the windows span 32 MiB.
pub open spec fn rom_off(a: u32) -> u32 {
    a & 0x01FFFFFFu32
}

/// The 11-bit register offset inside the I/O window.
pub open spec fn io_off(a: u32) -> u32 {
    a & 0x3FFu32
}

pub open spec fn in_bios(a: u32) -> bool {
    a <= 0x3FFF
}

pub open spec fn in_wram1(a: u32) -> bool {
    0x02000000 <= a <= 0x0203FFFF
}

pub open spec fn in_wram2(a: u32) -> bool {
    0x03000000 <= a <= 0x03007FFF
}

pub open spec fn in_mirror(a: u32) -> bool {
    0x03FFFF00 <= a <= 0x03FFFFFF
}

pub open spec fn in_io(a: u32) -> bool {
    0x04000000 <= a <= 0x040003FE
}

pub open spec fn in_palette(a: u32) -> bool {
    0x05000000 <= a <= 0x050003FF
}

pub open spec fn in_vram(a: u32) -> bool {
    0x06000000 <= a <= 0x06017FFF
}

pub open spec fn in_oam(a: u32) -> bool {
    0x07000000 <= a <= 0x070003FF
}

/// The cartridge windows for byte and word access.
pub open spec fn in_rom(a: u32) -> bool {
    (0x08000000 <= a <= 0x09FFFFFC) || (0x0A000000 <= a <= 0x0BFFFFFC) || (0x0C000000 <= a
        <= 0x0DFFFFFC)
}

/// The cartridge windows for halfword access.
pub open spec fn in_rom16(a: u32) -> bool {
    (0x08000000 <= a <= 0x09FFFFFF) || (0x0A000000 <= a <= 0x0BFFFFFF) || (0x0C000000 <= a
        <= 0x0DFFFFFF)
}

pub open spec fn byte0(v: u32) -> u8 {
    (v & 0xFFu32) as u8
}

pub open spec fn byte1(v: u32) -> u8 {
    ((v >> 8u32) & 0xFFu32) as u8
}

pub open spec fn byte2(v: u32) -> u8 {
    ((v >> 16u32) & 0xFFu32) as u8
}

pub open spec fn byte3(v: u32) -> u8 {
    ((v >> 24u32) & 0xFFu32) as u8
}

/// A 16-bit value from two little-endian bytes of a buffer.
pub open spec fn le16(s: Seq<u8>, o: int) -> u16 {
    (((s[o + 1] as u16) << 8u16) | (s[o] as u16)) as u16
}

/// A 32-bit value from four little-endian bytes of a buffer.
pub open spec fn le32(s: Seq<u8>, o: int) -> u32 {
    (((s[o + 3] as u32) << 24u32) | ((s[o + 2] as u32) << 16u32) | ((s[o + 1] as u32) << 8u32) | (
    s[o] as u32)) as u32
}

/// A buffer with a 32-bit value stored at four little-endian byte positions.
pub open spec fn store32(s: Seq<u8>, o: int, v: u32) -> Seq<u8> {
    s.update(o + 3, byte3(v)).update(o + 2, byte2(v)).update(o + 1, byte1(v)).update(o, byte0(v))
}

/// Whether an 8-bit read at I/O offset `io` is accepted: the display, sound,
/// DMA and serial-control bytes are implemented; an internal read of any
/// other offset faults.
pub open spec fn io8_read_ok(intern: bool, io: u32) -> bool {
    if io <= 0x56 || (0x60 <= io <= 0xA7) || (0xB0 <= io <= 0xDE) || io == 0x134 || io == 0x135 {
        true
    } else {
        !intern
    }
}

/// Whether a 16-bit read at I/O offset `io` is accepted.
pub open spec fn io16_read_ok(intern: bool, io: u32) -> bool {
    io == 0 || !intern
}

/// Whether a 32-bit read at I/O offset `io` is accepted.
pub open spec fn io32_read_ok(intern: bool, io: u32) -> bool {
    if io <= 0x54 || (0x60 <= io <= 0xA4) || (0xB0 <= io <= 0xDC) || io == 0xDE {
        true
    } else if 0x100 <= io <= 0x10E {
        io <= 0x10C
    } else if 0x120 <= io <= 0x12A {
        io <= 0x128 || io == 0x12A
    } else if io == 0x130 || io == 0x132 {
        true
    } else if 0x134 <= io <= 0x158 {
        io == 0x134 || io == 0x140 || io == 0x150 || io == 0x154 || io == 0x158
    } else if io == 0x200 || io == 0x202 || io == 0x204 || io == 0x208 {
        true
    } else {
        !intern
    }
}

/// Whether an 8-bit write at I/O offset `io` is accepted.
pub open spec fn io8_write_ok(intern: bool, io: u32) -> bool {
    if io <= 0x55 || (0x60 <= io <= 0xA7) || (0xB0 <= io <= 0xDE) {
        true
    } else if 0x120 <= io <= 0x12B || 0x134 <= io <= 0x159 {
        serial_w8_ok(io as usize)
    } else if io == 0x208 {
        true
    } else {
        !intern
    }
}

/// Whether a 32-bit write at I/O offset `io` is accepted.
pub open spec fn io32_write_ok(intern: bool, io: u32) -> bool {
    if io <= 0x54 || (0x60 <= io <= 0xA4) || (0xB0 <= io <= 0xDC) || io == 0xDE {
        true
    } else if 0x100 <= io <= 0x10E {
        io <= 0x10C
    } else if 0x120 <= io <= 0x12A || 0x134 <= io <= 0x158 {
        serial_w32_ok(io)
    } else if io == 0x200 || io == 0x202 || io == 0x204 || io == 0x208 {
        true
    } else {
        !intern
    }
}

/// The accesses `read_u8` accepts without faulting.
pub open spec fn read_u8_ok(c: CPU, intern: bool, addr: u32) -> bool {
    let a = mask_addr(addr);
    &&& !(intern && a < 0x3FFF)
    &&& (in_bios(a) ==> a < c.bios@.len())
    &&& (in_rom(a) ==> rom_off(a) < c.rom@.len())
    &&& (in_io(a) ==> io8_read_ok(intern, io_off(a)))
    &&& (in_bios(a) || in_wram1(a) || in_wram2(a) || in_mirror(a) || in_io(a) || in_palette(a)
        || in_vram(a) || in_oam(a) || in_rom(a))
}

/// What `read_u8` returns.
pub open spec fn spec_read_u8(c: CPU, a: u32) -> u8 {
    let off = off24(a) as int;
    let io = io_off(a);
    if in_bios(a) {
        c.bios@[a as int]
    } else if in_wram1(a) {
        c.ram_work1@[off]
    } else if in_wram2(a) {
        c.ram_work2@[off]
    } else if in_mirror(a) {
        c.ram_work2@[mirror_off(a) as int]
    } else if in_io(a) {
        if io <= 0x56 {
            c.lcd.registers@[io as int]
        } else if 0xB0 <= io <= 0xDE {
            c.dma@[io - 0xB0]
        } else if io == 0x134 {
            (c.serial.rcnt & 0xFFu16) as u8
        } else if io == 0x135 {
            ((c.serial.rcnt >> 8u16) & 0xFFu16) as u8
        } else {
            0u8
        }
    } else if in_palette(a) {
        c.ram_palette@[off]
    } else if in_vram(a) {
        c.ram_video@[off]
    } else if in_oam(a) {
        c.ram_obj_attr@[off]
    } else {
        c.rom@[rom_off(a) as int]
    }
}

/// The accesses `read_u16` accepts without faulting.
pub open spec fn read_u16_ok(c: CPU, intern: bool, addr: u32) -> bool {
    let a = mask_addr(addr);
    &&& !(intern && a < 0x3FFF)
    &&& (in_wram1(a) ==> off24(a) + 1 < 0x40000)
    &&& (in_wram2(a) ==> off24(a) + 1 < 0x8000)
    &&& (in_palette(a) ==> off24(a) + 1 < 0x400)
    &&& (in_vram(a) ==> off24(a) + 1 < 0x18000)
    &&& (in_oam(a) ==> off24(a) + 1 < 0x400)
    &&& (in_rom16(a) ==> rom_off(a) + 1 < c.rom@.len())
    &&& (in_io(a) ==> io16_read_ok(intern, io_off(a)))
    &&& (in_bios(a) || in_wram1(a) || in_wram2(a) || in_io(a) || in_palette(a) || in_vram(a)
        || in_oam(a) || in_rom16(a))
}

/// What `read_u16` returns; the firmware region reads as zero at this width.
pub open spec fn spec_read_u16(c: CPU, a: u32) -> u16 {
    let off = off24(a) as int;
    let io = io_off(a);
    if in_bios(a) {
        0u16
    } else if in_wram1(a) {
        le16(c.ram_work1@, off)
    } else if in_wram2(a) {
        le16(c.ram_work2@, off)
    } else if in_io(a) {
        if io == 0 {
            le16(c.lcd.registers@, 0)
        } else {
            0u16
        }
    } else if in_palette(a) {
        le16(c.ram_palette@, off)
    } else if in_vram(a) {
        le16(c.ram_video@, off)
    } else if in_oam(a) {
        le16(c.ram_obj_attr@, off)
    } else {
        le16(c.rom@, rom_off(a) as int)
    }
}

/// The accesses `read_u32` accepts without faulting.
pub open spec fn read_u32_ok(c: CPU, intern: bool, addr: u32) -> bool {
    let a = mask_addr(addr);
    &&& !(intern && a < 0x3FFF)
    &&& (in_bios(a) ==> off24(a) + 3 < c.bios@.len())
    &&& (in_wram1(a) ==> off24(a) + 3 < 0x40000)
    &&& (in_wram2(a) && a != 0x03007FF8 ==> off24(a) + 3 < 0x8000)
    &&& (in_mirror(a) ==> mirror_off(a) + 3 < 0x8000)
    &&& (in_palette(a) ==> off24(a) + 3 < 0x400)
    &&& (in_vram(a) ==> off24(a) + 3 < 0x18000)
    &&& (in_oam(a) ==> off24(a) + 3 < 0x400)
    &&& (in_rom(a) ==> rom_off(a) + 3 < c.rom@.len())
    &&& (in_io(a) ==> io32_read_ok(intern, io_off(a)))
    &&& (in_bios(a) || in_wram1(a) || in_wram2(a) || in_mirror(a) || in_io(a) || in_palette(a)
        || in_vram(a) || in_oam(a) || in_rom(a))
}

/// What `read_u32` returns at an I/O offset.
pub open spec fn spec_read_io32(c: CPU, io: u32) -> u32 {
    if io <= 0x54 {
        le32(c.lcd.registers@, io as int)
    } else if io <= 0xA4 && 0x60 <= io {
        0u32
    } else if 0xB0 <= io <= 0xDC {
        le32(c.dma@, (io - 0xB0) as int)
    } else if io == 0xDE {
        le16(c.dma@, (io - 0xB0) as int) as u32
    } else if 0x100 <= io <= 0x10C {
        le32(c.timers@, (io - 0x100) as int)
    } else if (0x120 <= io <= 0x128) || io == 0x12A {
        spec_serial_read_u32(c.serial, io)
    } else if io == 0x130 {
        c.keypad.keyinput as u32
    } else if io == 0x132 {
        c.keypad.keycnt as u32
    } else if io == 0x134 || io == 0x140 || io == 0x150 || io == 0x154 || io == 0x158 {
        spec_serial_read_u32(c.serial, io)
    } else if io == 0x200 {
        (((c.io_if as u32) << 16u32) | (c.io_ie as u32)) as u32
    } else if io == 0x202 {
        c.io_if as u32
    } else if io == 0x204 {
        c.io_waitcnt as u32
    } else if io == 0x208 {
        c.io_ime as u32
    } else {
        0u32
    }
}

/// What `read_u32` returns.  The firmware interrupt-pending word shadows its
/// address inside work RAM 2.
pub open spec fn spec_read_u32(c: CPU, a: u32) -> u32 {
    let off = off24(a) as int;
    if in_bios(a) {
        le32(c.bios@, off)
    } else if in_wram1(a) {
        le32(c.ram_work1@, off)
    } else if a == 0x03007FF8 {
        c.io_bios_if as u32
    } else if in_wram2(a) {
        le32(c.ram_work2@, off)
    } else if in_mirror(a) {
        le32(c.ram_work2@, mirror_off(a) as int)
    } else if in_io(a) {
        spec_read_io32(c, io_off(a))
    } else if in_palette(a) {
        le32(c.ram_palette@, off)
    } else if in_vram(a) {
        le32(c.ram_video@, off)
    } else if in_oam(a) {
        le32(c.ram_obj_attr@, off)
    } else {
        le32(c.rom@, rom_off(a) as int)
    }
}

/// The accesses `write_u8` accepts without faulting; writes to firmware and
/// cartridge are accepted and raise the recoverable-fault flag instead.
pub open spec fn write_u8_ok(c: CPU, intern: bool, addr: u32) -> bool {
    let a = mask_addr(addr);
    &&& (in_io(a) ==> io8_write_ok(intern, io_off(a)))
    &&& (in_bios(a) || in_wram1(a) || in_wram2(a) || in_io(a) || in_palette(a) || in_vram(a)
        || in_oam(a) || in_rom(a))
}

/// Relation between the states before and after `write_u8`.
pub open spec fn write8_rel(pre: CPU, post: CPU, intern: bool, addr: u32, val: u8) -> bool {
    &&& write8_mem_rel(pre, post, intern, addr, val)
    &&& regs_eq(pre, post)
    &&& psr_eq(pre, post)
    &&& post.halt == pre.halt
    &&& post.cycle_count == pre.cycle_count
}

/// The memory and I/O effect of `write_u8`, free of the register file, so
/// that instruction contracts can combine it with register updates.
pub open spec fn write8_mem_rel(pre: CPU, post: CPU, intern: bool, addr: u32, val: u8) -> bool {
    let a = mask_addr(addr);
    let off = off24(a) as int;
    let io = io_off(a);
    &&& post.mem_ptr == (if intern {
        a
    } else {
        pre.mem_ptr
    })
    &&& post.ram_work1@ == (if in_wram1(a) {
        pre.ram_work1@.update(off, val)
    } else {
        pre.ram_work1@
    })
    &&& post.ram_work2@ == (if in_wram2(a) {
        pre.ram_work2@.update(off, val)
    } else {
        pre.ram_work2@
    })
    &&& post.ram_palette@ == (if in_palette(a) {
        pre.ram_palette@.update(off, val)
    } else {
        pre.ram_palette@
    })
    &&& post.ram_video@ == (if in_vram(a) {
        pre.ram_video@.update(off, val)
    } else {
        pre.ram_video@
    })
    &&& post.ram_obj_attr@ == (if in_oam(a) {
        pre.ram_obj_attr@.update(off, val)
    } else {
        pre.ram_obj_attr@
    })
    &&& post.lcd.registers@ == (if in_io(a) && io <= 0x55 {
        pre.lcd.registers@.update(io as int, val)
    } else {
        pre.lcd.registers@
    })
    &&& post.dma@ == (if in_io(a) && 0xB0 <= io <= 0xDE {
        pre.dma@.update((io - 0xB0) as int, val)
    } else {
        pre.dma@
    })
    &&& if in_io(a) && !(io <= 0x55 || (0x60 <= io <= 0xA7) || (0xB0 <= io <= 0xDE)) && (0x120
        <= io <= 0x12B || 0x134 <= io <= 0x159) {
        serial_w8_rel(pre.serial, post.serial, io as usize, val)
    } else {
        post.serial == pre.serial
    }
    &&& post.io_ime == (if in_io(a) && io == 0x208 {
        val
    } else {
        pre.io_ime
    })
    &&& post.panicked == (pre.panicked || in_bios(a) || in_rom(a))
    &&& post.rom == pre.rom
    &&& post.bios == pre.bios
    &&& post.timers == pre.timers
    &&& post.io_waitcnt == pre.io_waitcnt
    &&& post.io_ie == pre.io_ie
    &&& post.io_if == pre.io_if
    &&& post.keypad == pre.keypad
    &&& post.io_bios_if == pre.io_bios_if
}

/// What `Serial::write_u8` does, as a relation over its fields.
pub open spec fn serial_w8_rel(pre: Serial, post: Serial, addr: usize, val: u8) -> bool {
    &&& (0x120 <= addr <= 0x12A) ==> post.registers_1@ == pre.registers_1@.update(
        addr - 0x120,
        val,
    )
    &&& !(0x120 <= addr <= 0x12A) ==> post.registers_1@ == pre.registers_1@
    &&& addr == 0x134 ==> post.rcnt == ((pre.rcnt & 0xFF00u16) | (val as u16))
    &&& addr == 0x135 ==> post.rcnt == ((pre.rcnt & 0x00FFu16) | ((val as u16) << 8u16))
    &&& (addr != 0x134 && addr != 0x135) ==> post.rcnt == pre.rcnt
    &&& addr == 0x140 ==> post.joy_cnt == ((pre.joy_cnt & 0xFF00u16) | (val as u16))
    &&& addr == 0x141 ==> post.joy_cnt == ((pre.joy_cnt & 0x00FFu16) | ((val as u16) << 8u16))
    &&& (addr != 0x140 && addr != 0x141) ==> post.joy_cnt == pre.joy_cnt
    &&& (0x150 <= addr <= 0x153) ==> post.joy_recv == ((pre.joy_recv & !(0xFFu32 << (8 * (addr
        - 0x150)) as u32)) | ((val as u32) << (8 * (addr - 0x150)) as u32))
    &&& !(0x150 <= addr <= 0x153) ==> post.joy_recv == pre.joy_recv
    &&& (0x154 <= addr <= 0x157) ==> post.joy_trans == ((pre.joy_trans & !(0xFFu32 << (8 * (addr
        - 0x154)) as u32)) | ((val as u32) << (8 * (addr - 0x154)) as u32))
    &&& !(0x154 <= addr <= 0x157) ==> post.joy_trans == pre.joy_trans
    &&& addr == 0x158 ==> post.joy_stat == ((pre.joy_stat & 0xFF00u16) | (val as u16))
    &&& addr == 0x159 ==> post.joy_stat == ((pre.joy_stat & 0x00FFu16) | ((val as u16) << 8u16))
    &&& (addr != 0x158 && addr != 0x159) ==> post.joy_stat == pre.joy_stat
}

/// What `Serial::write_u32` does, as a relation over its fields.
pub open spec fn serial_w32_rel(pre: Serial, post: Serial, addr: u32, val: u32) -> bool {
    &&& (0x120 <= addr <= 0x128) ==> post.registers_1@ == pre.registers_1@.update(
        (addr - 0x120) + 3,
        byte3(val),
    ).update((addr - 0x120) + 2, byte2(val)).update((addr - 0x120) + 1, byte1(val)).update(
        (addr - 0x120) as int,
        byte0(val),
    )
    &&& addr == 0x12A ==> post.registers_1@ == pre.registers_1@.update(
        (addr - 0x120) + 1,
        byte1(val),
    ).update((addr - 0x120) as int, byte0(val))
    &&& !(0x120 <= addr <= 0x12A) ==> post.registers_1@ == pre.registers_1@
    &&& addr == 0x134 ==> post.rcnt == (val & 0xFFFFu32) as u16
    &&& addr != 0x134 ==> post.rcnt == pre.rcnt
    &&& addr == 0x140 ==> post.joy_cnt == (val & 0xFFFFu32) as u16
    &&& addr != 0x140 ==> post.joy_cnt == pre.joy_cnt
    &&& addr == 0x150 ==> post.joy_recv == val
    &&& addr != 0x150 ==> post.joy_recv == pre.joy_recv
    &&& addr == 0x154 ==> post.joy_trans == val
    &&& addr != 0x154 ==> post.joy_trans == pre.joy_trans
    &&& addr == 0x158 ==> post.joy_stat == (val & 0xFFFFu32) as u16
    &&& addr != 0x158 ==> post.joy_stat == pre.joy_stat
}

/// The accesses `write_u32` accepts without faulting.
pub open spec fn write_u32_ok(c: CPU, intern: bool, addr: u32) -> bool {
    let a = mask_addr(addr);
    &&& (in_wram1(a) ==> off24(a) + 3 < 0x40000)
    &&& (in_wram2(a) && a != 0x03007FF8 ==> off24(a) + 3 < 0x8000)
    &&& (in_mirror(a) ==> mirror_off(a) + 3 < 0x8000)
    &&& (in_palette(a) ==> off24(a) + 3 < 0x400)
    &&& (in_vram(a) ==> off24(a) + 3 < 0x18000)
    &&& (in_oam(a) ==> off24(a) + 3 < 0x400)
    &&& (in_io(a) ==> io32_write_ok(intern, io_off(a)))
    &&& (in_bios(a) || in_wram1(a) || in_wram2(a) || in_mirror(a) || in_io(a) || in_palette(a)
        || in_vram(a) || in_oam(a) || in_rom(a))
}

/// Relation between the states before and after `write_u32`.
pub open spec fn write32_rel(pre: CPU, post: CPU, intern: bool, addr: u32, val: u32) -> bool {
    &&& write32_mem_rel(pre, post, intern, addr, val)
    &&& regs_eq(pre, post)
    &&& psr_eq(pre, post)
    &&& post.halt == pre.halt
    &&& post.cycle_count == pre.cycle_count
}

/// The memory and I/O effect of `write_u32`, free of the register file, so
/// that instruction contracts can combine it with register updates.
pub open spec fn write32_mem_rel(pre: CPU, post: CPU, intern: bool, addr: u32, val: u32) -> bool {
    let a = mask_addr(addr);
    let off = off24(a) as int;
    let io = io_off(a);
    &&& post.mem_ptr == (if intern {
        a
    } else {
        pre.mem_ptr
    })
    &&& post.ram_work1@ == (if in_wram1(a) {
        store32(pre.ram_work1@, off, val)
    } else {
        pre.ram_work1@
    })
    &&& post.ram_work2@ == (if in_wram2(a) && a != 0x03007FF8 {
        store32(pre.ram_work2@, off, val)
    } else if in_mirror(a) {
        store32(pre.ram_work2@, mirror_off(a) as int, val)
    } else {
        pre.ram_work2@
    })
    &&& post.io_bios_if == (if a == 0x03007FF8 {
        (pre.io_bios_if & !((val & 0xFFFFu32) as u16)) as u16
    } else {
        pre.io_bios_if
    })
    &&& post.ram_palette@ == (if in_palette(a) {
        store32(pre.ram_palette@, off, val)
    } else {
        pre.ram_palette@
    })
    &&& post.ram_video@ == (if in_vram(a) {
        store32(pre.ram_video@, off, val)
    } else {
        pre.ram_video@
    })
    &&& post.ram_obj_attr@ == (if in_oam(a) {
        store32(pre.ram_obj_attr@, off, val)
    } else {
        pre.ram_obj_attr@
    })
    &&& post.lcd.registers@ == (if in_io(a) && io <= 0x54 {
        store32(pre.lcd.registers@, io as int, val)
    } else {
        pre.lcd.registers@
    })
    &&& post.dma@ == (if in_io(a) && 0xB0 <= io <= 0xDC {
        store32(pre.dma@, (io - 0xB0) as int, val)
    } else if in_io(a) && io == 0xDE {
        pre.dma@.update((io - 0xB0) + 1, byte1(val)).update((io - 0xB0) as int, byte0(val))
    } else {
        pre.dma@
    })
    &&& post.timers@ == (if in_io(a) && 0x100 <= io <= 0x10C {
        store32(pre.timers@, (io - 0x100) as int, val)
    } else {
        pre.timers@
    })
    &&& if in_io(a) && ((0x120 <= io <= 0x128) || io == 0x12A || io == 0x134 || io == 0x140 || io
        == 0x150 || io == 0x154 || io == 0x158) {
        serial_w32_rel(pre.serial, post.serial, io, val)
    } else {
        post.serial == pre.serial
    }
    &&& post.io_ie == (if in_io(a) && io == 0x200 {
        (val & 0xFFFFu32) as u16
    } else {
        pre.io_ie
    })
    &&& post.io_if == (if in_io(a) && io == 0x202 {
        (pre.io_if & !((val & 0xFFFFu32) as u16)) as u16
    } else {
        pre.io_if
    })
    &&& post.io_waitcnt == (if in_io(a) && io == 0x204 {
        (val & 0xFFFFu32) as u16
    } else {
        pre.io_waitcnt
    })
    &&& post.io_ime == (if in_io(a) && io == 0x208 {
        (val & 0xFFu32) as u8
    } else {
        pre.io_ime
    })
    &&& post.panicked == (pre.panicked || in_rom(a) || in_bios(a))
    &&& post.rom == pre.rom
    &&& post.bios == pre.bios
    &&& post.keypad == pre.keypad
}

/// Offset bounds that follow from a masked address lying in a region.
proof fn region_bounds(a: u32)
    by (bit_vector)
    ensures
        0x02000000u32 <= a <= 0x0203FFFFu32 ==> (a & 0x00FFFFFFu32) < 0x40000u32,
        0x03000000u32 <= a <= 0x03007FFFu32 ==> (a & 0x00FFFFFFu32) < 0x8000u32,
        0x03FFFF00u32 <= a <= 0x03FFFFFFu32 ==> 0x7F00u32 <= (((a & 0x00FFFFFFu32) & 0xFFu32)
            | 0x7F00u32) < 0x8000u32,
        0x05000000u32 <= a <= 0x050003FFu32 ==> (a & 0x00FFFFFFu32) < 0x400u32,
        0x06000000u32 <= a <= 0x06017FFFu32 ==> (a & 0x00FFFFFFu32) < 0x18000u32,
        0x07000000u32 <= a <= 0x070003FFu32 ==> (a & 0x00FFFFFFu32) < 0x400u32,
        a <= 0x3FFFu32 ==> (a & 0x00FFFFFFu32) == a,
        0x04000000u32 <= a <= 0x040003FEu32 ==> (a & 0x3FFu32) == (a & 0x00FFFFFFu32) && (a
            & 0x3FFu32) <= 0x3FEu32,
        0x02000000u32 <= a <= 0x0203FFFFu32 ==> (a & 0x00FFFFFFu32) == a - 0x02000000u32,
        0x03000000u32 <= a <= 0x03007FFFu32 ==> (a & 0x00FFFFFFu32) == a - 0x03000000u32,
        0x05000000u32 <= a <= 0x050003FFu32 ==> (a & 0x00FFFFFFu32) == a - 0x05000000u32,
        0x06000000u32 <= a <= 0x06017FFFu32 ==> (a & 0x00FFFFFFu32) == a - 0x06000000u32,
        0x07000000u32 <= a <= 0x070003FFu32 ==> (a & 0x00FFFFFFu32) == a - 0x07000000u32,
{
}

impl CPU {
    /// Whether a masked address falls in any mapped region.
    pub open spec fn spec_addr_valid(&self, addr: u32) -> bool {
        let a = mask_addr(addr);
        in_bios(a) || in_wram1(a) || in_wram2(a) || in_mirror(a) || in_io(a) || in_palette(a)
            || in_vram(a) || in_oam(a) || in_rom(a)
    }

    /// Access-validity test used before fetching.
    pub fn addr_valid(&self, addr: u32) -> (r: bool)
        ensures
            r == self.spec_addr_valid(addr),
    {
        let a = addr & 0x0FFFFFFF;
        a <= 0x3FFF || (0x02000000 <= a && a <= 0x0203FFFF) || (0x03000000 <= a && a <= 0x03007FFF)
            || (0x03FFFF00 <= a && a <= 0x03FFFFFF) || (0x04000000 <= a && a <= 0x040003FE) || (
        0x05000000 <= a && a <= 0x050003FF) || (0x06000000 <= a && a <= 0x06017FFF) || (0x07000000
            <= a && a <= 0x070003FF) || (0x08000000 <= a && a <= 0x09FFFFFC) || (0x0A000000 <= a
            && a <= 0x0BFFFFFC) || (0x0C000000 <= a && a <= 0x0DFFFFFC)
    }

    /// Reads one byte from the bus.  An internal access records the address
    /// in the inspection pointer; nothing else changes.
    pub fn read_u8(&mut self, intern: bool, addr: u32) -> (r: u8)
        requires
            old(self).wf(),
            read_u8_ok(*old(self), intern, addr),
        ensures
            final(self).wf(),
            r == spec_read_u8(*old(self), mask_addr(addr)),
            *final(self) == (CPU {
                mem_ptr: if intern {
                    mask_addr(addr)
                } else {
                    old(self).mem_ptr
                },
                ..*old(self)
            }),
    {
        let a = addr & 0x0FFFFFFF;
        proof {
            region_bounds(a);
        }

        if intern {
            self.mem_ptr = a;
        }

        let offset = (a & 0x00FFFFFF) as usize;

        if a <= 0x3FFF {
            self.bios[a as usize]
        } else if 0x02000000 <= a && a <= 0x0203FFFF {
            self.ram_work1[offset]
        } else if 0x03000000 <= a && a <= 0x03007FFF {
            self.ram_work2[offset]
        } else if 0x03FFFF00 <= a && a <= 0x03FFFFFF {
            let moff = ((offset as u32 & 0xFF) | 0x7F00) as usize;
            self.ram_work2[moff]
        } else if 0x04000000 <= a && a <= 0x040003FE {
            let io = a & 0x3FF;
            if io <= 0x56 {
                self.lcd.registers[io as usize]
            } else if 0xB0 <= io && io <= 0xDE {
                self.dma[(io - 0xB0) as usize]
            } else if io == 0x134 {
                (self.serial.rcnt & 0xFF) as u8
            } else if io == 0x135 {
                proof {
                    let rc = self.serial.rcnt;
                    assert(((rc >> 8u16) & 0xFFu16) <= 0xFFu16) by (bit_vector);
                }
                ((self.serial.rcnt >> 8) & 0xFF) as u8
            } else {
                0
            }
        } else if 0x05000000 <= a && a <= 0x050003FF {
            self.ram_palette[offset]
        } else if 0x06000000 <= a && a <= 0x06017FFF {
            self.ram_video[offset]
        } else if 0x07000000 <= a && a <= 0x070003FF {
            self.ram_obj_attr[offset]
        } else {
            let roff = (a & 0x01FFFFFF) as usize;
            self.rom[roff]
        }
    }

    /// Reads one halfword from the bus; the firmware region reads as zero at
    /// this width.
    pub fn read_u16(&mut self, intern: bool, addr: u32) -> (r: u16)
        requires
            old(self).wf(),
            read_u16_ok(*old(self), intern, addr),
        ensures
            final(self).wf(),
            r == spec_read_u16(*old(self), mask_addr(addr)),
            *final(self) == (CPU {
                mem_ptr: if intern {
                    mask_addr(addr)
                } else {
                    old(self).mem_ptr
                },
                ..*old(self)
            }),
    {
        let a = addr & 0x0FFFFFFF;
        proof {
            region_bounds(a);
        }

        if intern {
            self.mem_ptr = a;
        }

        let offset = (a & 0x00FFFFFF) as usize;

        if a <= 0x3FFF {
            0
        } else if 0x02000000 <= a && a <= 0x0203FFFF {
            ((self.ram_work1[offset + 1] as u16) << 8) | (self.ram_work1[offset] as u16)
        } else if 0x03000000 <= a && a <= 0x03007FFF {
            ((self.ram_work2[offset + 1] as u16) << 8) | (self.ram_work2[offset] as u16)
        } else if 0x04000000 <= a && a <= 0x040003FE {
            let io = a & 0x3FF;
            if io == 0 {
                self.lcd.get_dispcnt()
            } else {
                0
            }
        } else if 0x05000000 <= a && a <= 0x050003FF {
            ((self.ram_palette[offset + 1] as u16) << 8) | (self.ram_palette[offset] as u16)
        } else if 0x06000000 <= a && a <= 0x06017FFF {
            ((self.ram_video[offset + 1] as u16) << 8) | (self.ram_video[offset] as u16)
        } else if 0x07000000 <= a && a <= 0x070003FF {
            ((self.ram_obj_attr[offset + 1] as u16) << 8) | (self.ram_obj_attr[offset] as u16)
        } else {
            let roff = (a & 0x01FFFFFF) as usize;
            ((self.rom[roff + 1] as u16) << 8) | (self.rom[roff] as u16)
        }
    }

    /// Reads one word from the bus.
    pub fn read_u32(&mut self, intern: bool, addr: u32) -> (r: u32)
        requires
            old(self).wf(),
            read_u32_ok(*old(self), intern, addr),
        ensures
            final(self).wf(),
            r == spec_read_u32(*old(self), mask_addr(addr)),
            *final(self) == (CPU {
                mem_ptr: if intern {
                    mask_addr(addr)
                } else {
                    old(self).mem_ptr
                },
                ..*old(self)
            }),
    {
        let a = addr & 0x0FFFFFFF;
        proof {
            region_bounds(a);
        }

        if intern {
            self.mem_ptr = a;
        }

        let offset = (a & 0x00FFFFFF) as usize;

        if a <= 0x3FFF {
            ((self.bios[offset + 3] as u32) << 24) | ((self.bios[offset + 2] as u32) << 16) | ((
            self.bios[offset + 1] as u32) << 8) | (self.bios[offset] as u32)
        } else if 0x02000000 <= a && a <= 0x0203FFFF {
            ((self.ram_work1[offset + 3] as u32) << 24) | ((self.ram_work1[offset + 2] as u32)
                << 16) | ((self.ram_work1[offset + 1] as u32) << 8) | (
            self.ram_work1[offset] as u32)
        } else if a == 0x03007FF8 {
            self.io_bios_if as u32
        } else if 0x03000000 <= a && a <= 0x03007FFF {
            ((self.ram_work2[offset + 3] as u32) << 24) | ((self.ram_work2[offset + 2] as u32)
                << 16) | ((self.ram_work2[offset + 1] as u32) << 8) | (
            self.ram_work2[offset] as u32)
        } else if 0x03FFFF00 <= a && a <= 0x03FFFFFF {
            let moff = ((offset as u32 & 0xFF) | 0x7F00) as usize;
            ((self.ram_work2[moff + 3] as u32) << 24) | ((self.ram_work2[moff + 2] as u32) << 16)
                | ((self.ram_work2[moff + 1] as u32) << 8) | (self.ram_work2[moff] as u32)
        } else if 0x04000000 <= a && a <= 0x040003FE {
            self.read_io32(a & 0x3FF)
        } else if 0x05000000 <= a && a <= 0x050003FF {
            ((self.ram_palette[offset + 3] as u32) << 24) | ((self.ram_palette[offset + 2] as u32)
                << 16) | ((self.ram_palette[offset + 1] as u32) << 8) | (
            self.ram_palette[offset] as u32)
        } else if 0x06000000 <= a && a <= 0x06017FFF {
            ((self.ram_video[offset + 3] as u32) << 24) | ((self.ram_video[offset + 2] as u32)
                << 16) | ((self.ram_video[offset + 1] as u32) << 8) | (
            self.ram_video[offset] as u32)
        } else if 0x07000000 <= a && a <= 0x070003FF {
            ((self.ram_obj_attr[offset + 3] as u32) << 24) | ((self.ram_obj_attr[offset
                + 2] as u32) << 16) | ((self.ram_obj_attr[offset + 1] as u32) << 8) | (
            self.ram_obj_attr[offset] as u32)
        } else {
            let roff = (a & 0x01FFFFFF) as usize;
            ((self.rom[roff + 3] as u32) << 24) | ((self.rom[roff + 2] as u32) << 16) | ((
            self.rom[roff + 1] as u32) << 8) | (self.rom[roff] as u32)
        }
    }

    /// Reads one word from the I/O window.
    fn read_io32(&self, io: u32) -> (r: u32)
        requires
            self.wf(),
            io <= 0x3FE,
            io32_read_ok(false, io),
        ensures
            r == spec_read_io32(*self, io),
    {
        if io <= 0x54 {
            let o = io as usize;
            ((self.lcd.registers[o + 3] as u32) << 24) | ((self.lcd.registers[o + 2] as u32) << 16)
                | ((self.lcd.registers[o + 1] as u32) << 8) | (self.lcd.registers[o] as u32)
        } else if 0x60 <= io && io <= 0xA4 {
            0
        } else if 0xB0 <= io && io <= 0xDC {
            let o = (io - 0xB0) as usize;
            ((self.dma[o + 3] as u32) << 24) | ((self.dma[o + 2] as u32) << 16) | ((self.dma[o
                + 1] as u32) << 8) | (self.dma[o] as u32)
        } else if io == 0xDE {
            let o = (io - 0xB0) as usize;
            (((self.dma[o + 1] as u16) << 8) | (self.dma[o] as u16)) as u32
        } else if 0x100 <= io && io <= 0x10C {
            let o = (io - 0x100) as usize;
            ((self.timers[o + 3] as u32) << 24) | ((self.timers[o + 2] as u32) << 16) | ((
            self.timers[o + 1] as u32) << 8) | (self.timers[o] as u32)
        } else if (0x120 <= io && io <= 0x128) || io == 0x12A {
            self.serial.read_u32(io)
        } else if io == 0x130 {
            self.keypad.keyinput as u32
        } else if io == 0x132 {
            self.keypad.keycnt as u32
        } else if io == 0x134 || io == 0x140 || io == 0x150 || io == 0x154 || io == 0x158 {
            self.serial.read_u32(io)
        } else if io == 0x200 {
            ((self.io_if as u32) << 16) | (self.io_ie as u32)
        } else if io == 0x202 {
            self.io_if as u32
        } else if io == 0x204 {
            self.io_waitcnt as u32
        } else if io == 0x208 {
            self.io_ime as u32
        } else {
            0
        }
    }

    /// Writes one byte to the bus; a write to a read-only region raises the
    /// recoverable-fault flag.
    pub fn write_u8(&mut self, intern: bool, addr: u32, val: u8)
        requires
            old(self).wf(),
            write_u8_ok(*old(self), intern, addr),
        ensures
            final(self).wf(),
            write8_rel(*old(self), *final(self), intern, addr, val),
    {
        let a = addr & 0x0FFFFFFF;
        proof {
            region_bounds(a);
        }

        if intern {
            self.mem_ptr = a;
        }

        let offset = (a & 0x00FFFFFF) as usize;

        if a <= 0x3FFF {
            // The firmware region is never writable.
            self.panicked = true;
        } else if 0x02000000 <= a && a <= 0x0203FFFF {
            self.ram_work1[offset] = val;
        } else if 0x03000000 <= a && a <= 0x03007FFF {
            self.ram_work2[offset] = val;
        } else if 0x04000000 <= a && a <= 0x040003FE {
            let io = a & 0x3FF;
            if io <= 0x55 {
                self.lcd.registers[io as usize] = val;
            } else if 0x60 <= io && io <= 0xA7 {
                // Sound registers are not modelled; the write is dropped.
            } else if 0xB0 <= io && io <= 0xDE {
                self.dma[(io - 0xB0) as usize] = val;
            } else if (0x120 <= io && io <= 0x12B) || (0x134 <= io && io <= 0x159) {
                self.serial.write_u8(io as usize, val);
            } else if io == 0x208 {
                self.io_ime = val;
            }
        } else if 0x05000000 <= a && a <= 0x050003FF {
            self.ram_palette[offset] = val;
        } else if 0x06000000 <= a && a <= 0x06017FFF {
            self.ram_video[offset] = val;
        } else if 0x07000000 <= a && a <= 0x070003FF {
            self.ram_obj_attr[offset] = val;
        } else {
            // Cartridge ROM is read-only.
            self.panicked = true;
        }
    }

    /// Writes one word to the bus; a write to cartridge ROM raises the
    /// recoverable-fault flag, and a write to the firmware interrupt-pending
    /// word clears the bits of its low halfword.
    pub fn write_u32(&mut self, intern: bool, addr: u32, val: u32)
        requires
            old(self).wf(),
            write_u32_ok(*old(self), intern, addr),
        ensures
            final(self).wf(),
            write32_rel(*old(self), *final(self), intern, addr, val),
    {
        let a = addr & 0x0FFFFFFF;
        proof {
            region_bounds(a);
        }

        if intern {
            self.mem_ptr = a;
        }

        let offset = (a & 0x00FFFFFF) as usize;
        let b3 = ((val >> 24) & 0xFF) as u8;
        let b2 = ((val >> 16) & 0xFF) as u8;
        let b1 = ((val >> 8) & 0xFF) as u8;
        let b0 = (val & 0xFF) as u8;

        if a <= 0x3FFF {
            // The firmware region is never writable.
            self.panicked = true;
        } else if 0x02000000 <= a && a <= 0x0203FFFF {
            self.ram_work1[offset + 3] = b3;
            self.ram_work1[offset + 2] = b2;
            self.ram_work1[offset + 1] = b1;
            self.ram_work1[offset] = b0;
        } else if a == 0x03007FF8 {
            let mask = (val & 0xFFFF) as u16;
            self.io_bios_if = self.io_bios_if & !mask;
        } else if 0x03000000 <= a && a <= 0x03007FFF {
            self.ram_work2[offset + 3] = b3;
            self.ram_work2[offset + 2] = b2;
            self.ram_work2[offset + 1] = b1;
            self.ram_work2[offset] = b0;
        } else if 0x03FFFF00 <= a && a <= 0x03FFFFFF {
            let moff = ((offset as u32 & 0xFF) | 0x7F00) as usize;
            self.ram_work2[moff + 3] = b3;
            self.ram_work2[moff + 2] = b2;
            self.ram_work2[moff + 1] = b1;
            self.ram_work2[moff] = b0;
        } else if 0x04000000 <= a && a <= 0x040003FE {
            let io = a & 0x3FF;
            if io <= 0x54 {
                let o = io as usize;
                self.lcd.registers[o + 3] = b3;
                self.lcd.registers[o + 2] = b2;
                self.lcd.registers[o + 1] = b1;
                self.lcd.registers[o] = b0;
            } else if 0x60 <= io && io <= 0xA4 {
                // Sound registers are not modelled; the write is dropped.
            } else if 0xB0 <= io && io <= 0xDC {
                let o = (io - 0xB0) as usize;
                self.dma[o + 3] = b3;
                self.dma[o + 2] = b2;
                self.dma[o + 1] = b1;
                self.dma[o] = b0;
            } else if io == 0xDE {
                let o = (io - 0xB0) as usize;
                self.dma[o + 1] = b1;
                self.dma[o] = b0;
            } else if 0x100 <= io && io <= 0x10E {
                let o = (io - 0x100) as usize;
                self.timers[o + 3] = b3;
                self.timers[o + 2] = b2;
                self.timers[o + 1] = b1;
                self.timers[o] = b0;
            } else if (0x120 <= io && io <= 0x12A) || (0x134 <= io && io <= 0x158) {
                self.serial.write_u32(io, val);
            } else if io == 0x200 {
                self.io_ie = (val & 0xFFFF) as u16;
            } else if io == 0x202 {
                let mask = (val & 0xFFFF) as u16;
                self.io_if = self.io_if & !mask;
            } else if io == 0x204 {
                self.io_waitcnt = (val & 0xFFFF) as u16;
            } else if io == 0x208 {
                self.io_ime = (val & 0xFF) as u8;
            }
        } else if 0x05000000 <= a && a <= 0x050003FF {
            self.ram_palette[offset + 3] = b3;
            self.ram_palette[offset + 2] = b2;
            self.ram_palette[offset + 1] = b1;
            self.ram_palette[offset] = b0;
        } else if 0x06000000 <= a && a <= 0x06017FFF {
            self.ram_video[offset + 3] = b3;
            self.ram_video[offset + 2] = b2;
            self.ram_video[offset + 1] = b1;
            self.ram_video[offset] = b0;
        } else if 0x07000000 <= a && a <= 0x070003FF {
            self.ram_obj_attr[offset + 3] = b3;
            self.ram_obj_attr[offset + 2] = b2;
            self.ram_obj_attr[offset + 1] = b1;
            self.ram_obj_attr[offset] = b0;
        } else {
            // Cartridge ROM is read-only.
            self.panicked = true;
        }
    }
}

/// A masked address whose byte lies in a plain RAM region: one backed by a
/// buffer with no mirror and no register side effect at width 8.
pub open spec fn ram8_ok(a: u32) -> bool {
    (0x02000000 <= a <= 0x0203FFFF) || (0x03000000 <= a <= 0x03007FFF) || (0x05000000 <= a
        <= 0x050003FF) || (0x06000000 <= a <= 0x06017FFF) || (0x07000000 <= a <= 0x070003FF)
}

/// A masked address where a whole word lies in a plain RAM region, away from
/// the firmware interrupt-pending word.
pub open spec fn ram32_ok(a: u32) -> bool {
    &&& ((0x02000000 <= a <= 0x0203FFFC) || (0x03000000 <= a <= 0x03007FFC) || (0x05000000 <= a
        <= 0x050003FC) || (0x06000000 <= a <= 0x06017FFC) || (0x07000000 <= a <= 0x070003FC))
    &&& a != 0x03007FF8
}

/// A masked address whose byte is readable from the cartridge image.
pub open spec fn rom8_src_ok(c: CPU, a: u32) -> bool {
    in_rom(a) && rom_off(a) < c.rom@.len()
}

/// A masked address whose word is readable from the cartridge image.
pub open spec fn rom32_src_ok(c: CPU, a: u32) -> bool {
    in_rom(a) && rom_off(a) + 3 < c.rom@.len()
}

/// A readable cartridge address satisfies the read accessors' preconditions.
pub proof fn lemma_rom_access(c: CPU, intern: bool, addr: u32)
    ensures
        rom8_src_ok(c, mask_addr(addr)) ==> read_u8_ok(c, intern, addr),
        rom32_src_ok(c, mask_addr(addr)) ==> read_u32_ok(c, intern, addr),
{
}

/// A plain RAM byte address satisfies the byte accessors' preconditions.
pub proof fn lemma_ram8_access(c: CPU, intern: bool, addr: u32)
    ensures
        ram8_ok(mask_addr(addr)) ==> read_u8_ok(c, intern, addr) && write_u8_ok(c, intern, addr),
{
    region_bounds(mask_addr(addr));
}

/// A plain RAM word address satisfies the word accessors' preconditions.
pub proof fn lemma_ram32_access(c: CPU, intern: bool, addr: u32)
    ensures
        ram32_ok(mask_addr(addr)) ==> read_u32_ok(c, intern, addr) && write_u32_ok(
            c,
            intern,
            addr,
        ),
{
    region_bounds(mask_addr(addr));
}

/// A byte write leaves every other plain RAM byte, and every cartridge
/// byte, as it was.
pub proof fn lemma_read_u8_frame(pre: CPU, post: CPU, intern: bool, waddr: u32, wval: u8, raddr: u32)
    requires
        pre.wf(),
        write8_mem_rel(pre, post, intern, waddr, wval),
        ram8_ok(mask_addr(waddr)),
        ram8_ok(mask_addr(raddr)) || in_rom(mask_addr(raddr)),
        mask_addr(raddr) != mask_addr(waddr),
    ensures
        spec_read_u8(post, mask_addr(raddr)) == spec_read_u8(pre, mask_addr(raddr)),
{
    region_bounds(mask_addr(waddr));
    region_bounds(mask_addr(raddr));
}

/// A word write leaves every plain RAM word outside its four bytes, and
/// every cartridge word, as it was.
pub proof fn lemma_read_u32_frame(
    pre: CPU,
    post: CPU,
    intern: bool,
    waddr: u32,
    wval: u32,
    raddr: u32,
)
    requires
        pre.wf(),
        write32_mem_rel(pre, post, intern, waddr, wval),
        ram32_ok(mask_addr(waddr)),
        ram32_ok(mask_addr(raddr)) || in_rom(mask_addr(raddr)),
        mask_addr(raddr) + 3 < mask_addr(waddr) || mask_addr(waddr) + 3 < mask_addr(raddr),
    ensures
        spec_read_u32(post, mask_addr(raddr)) == spec_read_u32(pre, mask_addr(raddr)),
{
    region_bounds(mask_addr(waddr));
    region_bounds(mask_addr(raddr));
}

/// A byte write to plain RAM reads back, and a word written to plain RAM
/// reads back; the byte form of the round trip at width 8.
pub proof fn lemma_ram8_round_trip(pre: CPU, post: CPU, intern: bool, addr: u32, v: u8)
    requires
        pre.wf(),
        write8_mem_rel(pre, post, intern, addr, v),
        ram8_ok(mask_addr(addr)),
    ensures
        spec_read_u8(post, mask_addr(addr)) == v,
{
    region_bounds(mask_addr(addr));
}

/// A word written to plain RAM reads back.
pub proof fn lemma_ram32_round_trip(pre: CPU, post: CPU, intern: bool, addr: u32, v: u32)
    requires
        pre.wf(),
        write32_mem_rel(pre, post, intern, addr, v),
        ram32_ok(mask_addr(addr)),
    ensures
        spec_read_u32(post, mask_addr(addr)) == v,
{
    region_bounds(mask_addr(addr));
    bytes_roundtrip(v);
}

/// Four stored bytes reassemble to the stored word.
proof fn bytes_roundtrip(v: u32)
    by (bit_vector)
    ensures
        (((byte3(v) as u32) << 24u32) | ((byte2(v) as u32) << 16u32) | ((byte1(v) as u32) << 8u32)
            | (byte0(v) as u32)) as u32 == v,
        (((byte1(v) as u16) << 8u16) | (byte0(v) as u16)) as u16 == (v & 0xFFFFu32) as u16,
{
}

/// Round trip at width 16, composed of two byte writes at `addr` and
/// `addr + 1` inside one plain RAM region.
pub proof fn lemma_ram16_round_trip(
    pre: CPU,
    mid: CPU,
    post: CPU,
    intern: bool,
    addr: u32,
    v: u16,
)
    requires
        pre.wf(),
        addr + 1 <= u32::MAX,
        mask_addr((addr + 1) as u32) == mask_addr(addr) + 1,
        write8_mem_rel(pre, mid, intern, addr, (v & 0xFFu16) as u8),
        write8_mem_rel(mid, post, intern, (addr + 1) as u32, ((v >> 8u16) & 0xFFu16) as u8),
        ram8_ok(mask_addr(addr)),
        ram8_ok((mask_addr(addr) + 1) as u32),
    ensures
        spec_read_u16(post, mask_addr(addr)) == v,
{
    region_bounds(mask_addr(addr));
    region_bounds((mask_addr(addr) + 1) as u32);
    assert(((((v >> 8u16) & 0xFFu16) as u8 as u16) << 8u16) | ((v & 0xFFu16) as u8 as u16) == v)
        by (bit_vector);
}

} // verus!
