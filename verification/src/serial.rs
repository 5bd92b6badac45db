//! Serial / link register block: a pure state holder with 8-, 16- and 32-bit
//! accessors addressed by the I/O register offset.

use vstd::prelude::*;

verus! {

pub struct Serial {
    /// The first serial register group, offsets 0x120 through 0x12B.
    pub registers_1: Vec<u8>,
    pub rcnt: u16,
    pub joy_cnt: u16,
    pub joy_recv: u32,
    pub joy_trans: u32,
    pub joy_stat: u16,
}

/// Offsets the 16-bit read accessor accepts.
pub open spec fn serial_r16_ok(addr: u32) -> bool {
    (0x120 <= addr <= 0x12A) || addr == 0x134 || addr == 0x140 || addr == 0x150 || addr == 0x152
        || addr == 0x154 || addr == 0x156 || addr == 0x158
}

/// Offsets the 32-bit read accessor accepts.
pub open spec fn serial_r32_ok(addr: u32) -> bool {
    (0x120 <= addr <= 0x128) || addr == 0x12A || addr == 0x134 || addr == 0x140 || addr == 0x150
        || addr == 0x154 || addr == 0x158
}

/// Offsets the 8-bit write accessor accepts.
pub open spec fn serial_w8_ok(addr: usize) -> bool {
    (0x120 <= addr <= 0x12A) || addr == 0x134 || addr == 0x135 || addr == 0x140 || addr == 0x141
        || (0x150 <= addr <= 0x159)
}

/// Offsets the 32-bit write accessor accepts.
pub open spec fn serial_w32_ok(addr: u32) -> bool {
    (0x120 <= addr <= 0x128) || addr == 0x12A || addr == 0x134 || addr == 0x140 || addr == 0x150
        || addr == 0x154 || addr == 0x158
}

/// What the 32-bit read accessor returns at each accepted offset.
pub open spec fn spec_serial_read_u32(s: Serial, addr: u32) -> u32 {
    let ptr = addr - 0x120;
    if 0x120 <= addr <= 0x128 {
        ((((s.registers_1@[ptr + 3] as u32) << 24u32) | ((s.registers_1@[ptr + 2] as u32)
            << 16u32) | ((s.registers_1@[ptr + 1] as u32) << 8u32) | (
        s.registers_1@[ptr] as u32)) as u32)
    } else if addr == 0x12A {
        ((((s.registers_1@[ptr + 1] as u32) << 8u32) | (s.registers_1@[ptr] as u32)) as u32)
    } else if addr == 0x134 {
        s.rcnt as u32
    } else if addr == 0x140 {
        s.joy_cnt as u32
    } else if addr == 0x150 {
        s.joy_recv
    } else if addr == 0x154 {
        s.joy_trans
    } else {
        s.joy_stat as u32
    }
}

impl Serial {
    pub open spec fn wf(&self) -> bool {
        self.registers_1@.len() == 12
    }

    pub fn new() -> (r: Serial)
        ensures
            r.wf(),
            forall|i: int| 0 <= i < 12 ==> r.registers_1@[i] == 0u8,
            r.rcnt == 0u16,
            r.joy_cnt == 0u16,
            r.joy_recv == 0u32,
            r.joy_trans == 0u32,
            r.joy_stat == 0u16,
    {
        Serial {
            registers_1: vec![0u8; 12],
            rcnt: 0,
            joy_cnt: 0,
            joy_recv: 0,
            joy_trans: 0,
            joy_stat: 0,
        }
    }

    pub fn read_u16(&self, addr: u32) -> (r: u16)
        requires
            self.wf(),
            serial_r16_ok(addr),
        ensures
            (0x120 <= addr <= 0x12A) ==> r == ((((self.registers_1@[addr - 0x120 + 1] as u16)
                << 8u16) | (self.registers_1@[addr - 0x120] as u16)) as u16),
            addr == 0x134 ==> r == self.rcnt,
            addr == 0x140 ==> r == self.joy_cnt,
            addr == 0x150 ==> r == (self.joy_recv & 0xFFFFu32) as u16,
            addr == 0x152 ==> r == (self.joy_recv >> 16u32) as u16,
            addr == 0x154 ==> r == (self.joy_trans & 0xFFFFu32) as u16,
            addr == 0x156 ==> r == (self.joy_trans >> 16u32) as u16,
            addr == 0x158 ==> r == self.joy_stat,
    {
        if 0x120 <= addr && addr <= 0x12A {
            let ptr = (addr - 0x120) as usize;
            ((self.registers_1[ptr + 1] as u16) << 8) | (self.registers_1[ptr] as u16)
        } else if addr == 0x134 {
            self.rcnt
        } else if addr == 0x140 {
            self.joy_cnt
        } else if addr == 0x150 {
            (self.joy_recv & 0xFFFF) as u16
        } else if addr == 0x152 {
            proof {
                let jr = self.joy_recv;
                assert(jr >> 16u32 <= 0xFFFFu32) by (bit_vector);
            }
            (self.joy_recv >> 16) as u16
        } else if addr == 0x154 {
            (self.joy_trans & 0xFFFF) as u16
        } else if addr == 0x156 {
            proof {
                let jt = self.joy_trans;
                assert(jt >> 16u32 <= 0xFFFFu32) by (bit_vector);
            }
            (self.joy_trans >> 16) as u16
        } else {
            self.joy_stat
        }
    }

    pub fn read_u32(&self, addr: u32) -> (r: u32)
        requires
            self.wf(),
            serial_r32_ok(addr),
        ensures
            r == spec_serial_read_u32(*self, addr),
    {
        if 0x120 <= addr && addr <= 0x128 {
            let ptr = (addr - 0x120) as usize;
            ((self.registers_1[ptr + 3] as u32) << 24) | ((self.registers_1[ptr + 2] as u32) << 16)
                | ((self.registers_1[ptr + 1] as u32) << 8) | (self.registers_1[ptr] as u32)
        } else if addr == 0x12A {
            let ptr = (addr - 0x120) as usize;
            ((self.registers_1[ptr + 1] as u32) << 8) | (self.registers_1[ptr] as u32)
        } else if addr == 0x134 {
            self.rcnt as u32
        } else if addr == 0x140 {
            self.joy_cnt as u32
        } else if addr == 0x150 {
            self.joy_recv
        } else if addr == 0x154 {
            self.joy_trans
        } else {
            self.joy_stat as u32
        }
    }

    pub fn write_u8(&mut self, addr: usize, val: u8)
        requires
            old(self).wf(),
            serial_w8_ok(addr),
        ensures
            final(self).wf(),
            (0x120 <= addr <= 0x12A) ==> final(self).registers_1@ == old(
                self,
            ).registers_1@.update(addr - 0x120, val),
            !(0x120 <= addr <= 0x12A) ==> final(self).registers_1@ == old(self).registers_1@,
            addr == 0x134 ==> final(self).rcnt == ((old(self).rcnt & 0xFF00u16) | (val as u16)),
            addr == 0x135 ==> final(self).rcnt == ((old(self).rcnt & 0x00FFu16) | ((val as u16)
                << 8u16)),
            addr != 0x134 && addr != 0x135 ==> final(self).rcnt == old(self).rcnt,
            addr == 0x140 ==> final(self).joy_cnt == ((old(self).joy_cnt & 0xFF00u16) | (
            val as u16)),
            addr == 0x141 ==> final(self).joy_cnt == ((old(self).joy_cnt & 0x00FFu16) | ((
            val as u16) << 8u16)),
            addr != 0x140 && addr != 0x141 ==> final(self).joy_cnt == old(self).joy_cnt,
            (0x150 <= addr <= 0x153) ==> final(self).joy_recv == ((old(self).joy_recv & !(0xFFu32
                << (8 * (addr - 0x150)) as u32)) | ((val as u32) << (8 * (addr - 0x150)) as u32)),
            !(0x150 <= addr <= 0x153) ==> final(self).joy_recv == old(self).joy_recv,
            (0x154 <= addr <= 0x157) ==> final(self).joy_trans == ((old(self).joy_trans & !(0xFFu32
                << (8 * (addr - 0x154)) as u32)) | ((val as u32) << (8 * (addr - 0x154)) as u32)),
            !(0x154 <= addr <= 0x157) ==> final(self).joy_trans == old(self).joy_trans,
            addr == 0x158 ==> final(self).joy_stat == ((old(self).joy_stat & 0xFF00u16) | (
            val as u16)),
            addr == 0x159 ==> final(self).joy_stat == ((old(self).joy_stat & 0x00FFu16) | ((
            val as u16) << 8u16)),
            addr != 0x158 && addr != 0x159 ==> final(self).joy_stat == old(self).joy_stat,
    {
        let val_high = (val as u16) << 8;

        if 0x120 <= addr && addr <= 0x12A {
            let ptr = addr - 0x120;
            self.registers_1[ptr] = val;
        } else if addr == 0x134 {
            self.rcnt = (self.rcnt & 0xFF00) | val as u16;
        } else if addr == 0x135 {
            self.rcnt = (self.rcnt & 0x00FF) | val_high;
        } else if addr == 0x140 {
            self.joy_cnt = (self.joy_cnt & 0xFF00) | val as u16;
        } else if addr == 0x141 {
            self.joy_cnt = (self.joy_cnt & 0x00FF) | val_high;
        } else if 0x150 <= addr && addr <= 0x153 {
            let shift = (8 * (addr - 0x150)) as u32;
            self.joy_recv = (self.joy_recv & !(0xFF << shift)) | ((val as u32) << shift);
        } else if 0x154 <= addr && addr <= 0x157 {
            let shift = (8 * (addr - 0x154)) as u32;
            self.joy_trans = (self.joy_trans & !(0xFF << shift)) | ((val as u32) << shift);
        } else if addr == 0x158 {
            self.joy_stat = (self.joy_stat & 0xFF00) | val as u16;
        } else {
            self.joy_stat = (self.joy_stat & 0x00FF) | val_high;
        }
    }

    pub fn write_u32(&mut self, addr: u32, val: u32)
        requires
            old(self).wf(),
            serial_w32_ok(addr),
        ensures
            final(self).wf(),
            (0x120 <= addr <= 0x128) ==> final(self).registers_1@ == old(
                self,
            ).registers_1@.update((addr - 0x120) + 3, ((val >> 24u32) & 0xFFu32) as u8).update(
                (addr - 0x120) + 2,
                ((val >> 16u32) & 0xFFu32) as u8,
            ).update((addr - 0x120) + 1, ((val >> 8u32) & 0xFFu32) as u8).update(
                (addr - 0x120) as int,
                (val & 0xFFu32) as u8,
            ),
            addr == 0x12A ==> final(self).registers_1@ == old(self).registers_1@.update(
                (addr - 0x120) + 1,
                ((val >> 8u32) & 0xFFu32) as u8,
            ).update((addr - 0x120) as int, (val & 0xFFu32) as u8),
            !(0x120 <= addr <= 0x12A) ==> final(self).registers_1@ == old(self).registers_1@,
            addr == 0x134 ==> final(self).rcnt == (val & 0xFFFFu32) as u16,
            addr != 0x134 ==> final(self).rcnt == old(self).rcnt,
            addr == 0x140 ==> final(self).joy_cnt == (val & 0xFFFFu32) as u16,
            addr != 0x140 ==> final(self).joy_cnt == old(self).joy_cnt,
            addr == 0x150 ==> final(self).joy_recv == val,
            addr != 0x150 ==> final(self).joy_recv == old(self).joy_recv,
            addr == 0x154 ==> final(self).joy_trans == val,
            addr != 0x154 ==> final(self).joy_trans == old(self).joy_trans,
            addr == 0x158 ==> final(self).joy_stat == (val & 0xFFFFu32) as u16,
            addr != 0x158 ==> final(self).joy_stat == old(self).joy_stat,
    {
        let byte0 = (val & 0xFF) as u8;
        let byte1 = ((val >> 8) & 0xFF) as u8;
        let byte2 = ((val >> 16) & 0xFF) as u8;
        let byte3 = ((val >> 24) & 0xFF) as u8;

        let low16 = (val & 0xFFFF) as u16;

        if 0x120 <= addr && addr <= 0x128 {
            let ptr = (addr - 0x120) as usize;
            self.registers_1[ptr + 3] = byte3;
            self.registers_1[ptr + 2] = byte2;
            self.registers_1[ptr + 1] = byte1;
            self.registers_1[ptr] = byte0;
        } else if addr == 0x12A {
            let ptr = (addr - 0x120) as usize;
            self.registers_1[ptr + 1] = byte1;
            self.registers_1[ptr] = byte0;
        } else if addr == 0x134 {
            self.rcnt = low16;
        } else if addr == 0x140 {
            self.joy_cnt = low16;
        } else if addr == 0x150 {
            self.joy_recv = val;
        } else if addr == 0x154 {
            self.joy_trans = val;
        } else {
            self.joy_stat = low16;
        }
    }
}

} // verus!
