//! The memory-mapped debug-string device: a 512-byte register window with an
//! enable handshake and a flag byte.  The core only keeps the bytes and
//! decides when a message is complete; printing the message is the caller's
//! affair.

use vstd::prelude::*;

verus! {

pub struct MgbaDebug {
    /// The raw register window; 0x100 holds the flags, 0x180 the handshake.
    pub regs: Vec<u8>,
}

/// The handshake value read back once the magic bytes are in place.
pub open spec fn spec_debug_enable(regs: Seq<u8>) -> u16 {
    if regs[0x180] == 0xDE && regs[0x181] == 0xC0 {
        0x1DEAu16
    } else {
        0u16
    }
}

/// The flag halfword assembled from its two bytes.
pub open spec fn spec_debug_flags(regs: Seq<u8>) -> u16 {
    (((regs[0x101] as u16) << 8u16) | (regs[0x100] as u16)) as u16
}

impl MgbaDebug {
    pub open spec fn wf(&self) -> bool {
        self.regs@.len() == 512
    }

    pub fn new() -> (r: MgbaDebug)
        ensures
            r.wf(),
            forall|i: int| 0 <= i < 512 ==> r.regs@[i] == 0u8,
    {
        MgbaDebug { regs: vec![0u8; 512] }
    }

    /// Reads one byte of the window; the two handshake bytes read back the
    /// enable value instead of their stored contents.
    pub fn read_u8(&self, addr: usize) -> (r: u8)
        requires
            self.wf(),
            addr < 512,
        ensures
            addr == 0x180 ==> r == (spec_debug_enable(self.regs@) & 0xFFu16) as u8,
            addr == 0x181 ==> r == (spec_debug_enable(self.regs@) >> 8u16) as u8,
            addr != 0x180 && addr != 0x181 ==> r == self.regs@[addr as int],
    {
        if addr == 0x180 {
            (self.read_enable() & 0xFF) as u8
        } else if addr == 0x181 {
            proof {
                let e = spec_debug_enable(self.regs@);
                assert(e == 0x1DEAu16 || e == 0u16);
                assert((0x1DEAu16 >> 8u16) <= 0xFFu16 && (0u16 >> 8u16) <= 0xFFu16) by (bit_vector);
            }
            (self.read_enable() >> 8) as u8
        } else {
            self.regs[addr]
        }
    }

    /// Writes one byte of the window and reports whether the write completed
    /// a message: a write to the flag bytes with the send bit set while the
    /// handshake is enabled.  When it did, the message level is the low three
    /// bits of the written value, the text sits in the window's first 0x101
    /// bytes, and the high flag byte acknowledges by clearing.
    pub fn write_u8(&mut self, addr: usize, val: u8) -> (sent: bool)
        requires
            old(self).wf(),
            addr < 512,
        ensures
            final(self).wf(),
            sent == ((addr == 0x100 || addr == 0x101) && (spec_debug_flags(
                old(self).regs@.update(addr as int, val),
            ) & 0x100u16) != 0u16 && spec_debug_enable(old(self).regs@.update(addr as int, val))
                == 0x1DEAu16),
            sent ==> final(self).regs@ == old(self).regs@.update(addr as int, val).update(
                0x101,
                0u8,
            ),
            !sent ==> final(self).regs@ == old(self).regs@.update(addr as int, val),
    {
        if addr == 0x100 || addr == 0x101 {
            self.regs[addr] = val;

            let flags = self.read_flags();
            if flags & 0x100 != 0 && self.read_enable() == 0x1DEA {
                self.regs[0x101] = 0x00;
                return true;
            }
            false
        } else {
            self.regs[addr] = val;
            false
        }
    }

    /// The flag halfword.
    pub fn read_flags(&self) -> (r: u16)
        requires
            self.wf(),
        ensures
            r == spec_debug_flags(self.regs@),
    {
        ((self.regs[0x101] as u16) << 8) | (self.regs[0x100] as u16)
    }

    /// The handshake: the documented enable value exactly when the two magic
    /// bytes are in place.
    pub fn read_enable(&self) -> (r: u16)
        requires
            self.wf(),
        ensures
            r == spec_debug_enable(self.regs@),
    {
        if self.regs[0x180] == 0xDE && self.regs[0x181] == 0xC0 {
            0x1DEA
        } else {
            0x0000
        }
    }
}

} // verus!
