//! CPU core state: the sixteen general-purpose registers with their
//! per-mode banks, the status word, the saved status registers, the RAM
//! buffers, the I/O register state and the devices hanging off the bus.

use vstd::prelude::*;

use crate::keypad::Keypad;
use crate::lcd::LCD;
use crate::serial::Serial;

verus! {

pub const ARM_MASK_MUL_CLR: u32 = 0xFC00060;
pub const ARM_MASK_MUL_SET: u32 = 0x0000090;
pub const ARM_MASK_MUL_LONG_CLR: u32 = 0xF000090;
pub const ARM_MASK_MUL_LONG_SET: u32 = 0x0800090;
pub const ARM_MASK_SNGL_SWP_CLR: u32 = 0xEB00F60;
pub const ARM_MASK_SNGL_SWP_SET: u32 = 0x1000090;
pub const ARM_MASK_BX_CLR: u32 = 0xED000E0;
pub const ARM_MASK_BX_SET: u32 = 0x12FFF10;
pub const ARM_MASK_HW_REG_CLR: u32 = 0xE400F00;
pub const ARM_MASK_HW_REG_SET: u32 = 0x0000090;
pub const ARM_MASK_HW_IMM_CLR: u32 = 0xE000000;
pub const ARM_MASK_HW_IMM_SET: u32 = 0x0400090;
pub const ARM_MASK_UNDEF_CLR: u32 = 0x08000000;
pub const ARM_MASK_UNDEF_SET: u32 = 0x06000010;
pub const ARM_MASK_MRS_CLR: u32 = 0x0EB00FFF;
pub const ARM_MASK_MRS_SET: u32 = 0x010F0000;
pub const ARM_MASK_MSR_CLR: u32 = 0x0E960FF0;
pub const ARM_MASK_MSR_SET: u32 = 0x0129F000;
pub const ARM_MASK_MSR_BITS_CLR: u32 = 0x0C970000;
pub const ARM_MASK_MSR_BITS_SET: u32 = 0x0128F000;

pub const FLAG_MASK_N: u32 = 0x80000000;
pub const FLAG_MASK_Z: u32 = 0x40000000;
pub const FLAG_MASK_C: u32 = 0x20000000;
pub const FLAG_MASK_V: u32 = 0x10000000;

pub const MODE_USER: u8 = 0x0;
pub const MODE_FIQ: u8 = 0x1;
pub const MODE_IRQ: u8 = 0x2;
pub const MODE_SUPERVISOR: u8 = 0x3;
pub const MODE_ABORT: u8 = 0x7;
pub const MODE_UNDEFINED: u8 = 0xB;
pub const MODE_SYSTEM: u8 = 0xF;

pub const STATUS_FLAG_F: u32 = 0x40;
pub const STATUS_FLAG_I: u32 = 0x80;

pub const ALU_AND: u8 = 0x0;
pub const ALU_EOR: u8 = 0x1;
pub const ALU_SUB: u8 = 0x2;
pub const ALU_RSB: u8 = 0x3;
pub const ALU_ADD: u8 = 0x4;
pub const ALU_ADC: u8 = 0x5;
pub const ALU_SBC: u8 = 0x6;
pub const ALU_RSC: u8 = 0x7;
pub const ALU_TST: u8 = 0x8;
pub const ALU_TEQ: u8 = 0x9;
pub const ALU_CMP: u8 = 0xA;
pub const ALU_CMN: u8 = 0xB;
pub const ALU_ORR: u8 = 0xC;
pub const ALU_MOV: u8 = 0xD;
pub const ALU_BIC: u8 = 0xE;
pub const ALU_MVN: u8 = 0xF;

pub const IRQ_VBLANK: u16 = 0x0001;
pub const IRQ_HBLANK: u16 = 0x0002;
pub const IRQ_VCOUNT: u16 = 0x0004;
pub const IRQ_TIM0: u16 = 0x0008;
pub const IRQ_TIM1: u16 = 0x0010;
pub const IRQ_TIM2: u16 = 0x0020;
pub const IRQ_TIM3: u16 = 0x0040;
pub const IRQ_SERIAL: u16 = 0x0080;
pub const IRQ_DMA0: u16 = 0x0100;
pub const IRQ_DMA1: u16 = 0x0200;
pub const IRQ_DMA2: u16 = 0x0400;
pub const IRQ_DMA3: u16 = 0x0800;
pub const IRQ_KEYPAD: u16 = 0x1000;
pub const IRQ_GAMEPAK: u16 = 0x2000;
pub const IRQ_DEBUG1: u16 = 0x4000;
pub const IRQ_DEBUG2: u16 = 0x8000;

pub const RAM_WORK1_BYTES: usize = 0x40000;
pub const RAM_WORK2_BYTES: usize = 0x8000;
pub const RAM_PALETTE_BYTES: usize = 0x400;
pub const RAM_VIDEO_BYTES: usize = 0x18000;
pub const RAM_OBJ_ATTR_BYTES: usize = 0x400;

pub struct CPU {
    /// The sixteen common register slots; 15 is the program counter.
    pub registers: Vec<u32>,
    /// The status word: flags, interrupt mask, encoding bit and mode field.
    pub reg_cpsr: u32,
    /// Saved status registers, indexed by mode number.
    pub regs_spsr: Vec<u32>,
    /// FIQ bank for registers 8 through 14.
    pub regs_fiq: Vec<u32>,
    /// Supervisor bank for registers 13 and 14.
    pub regs_svc: Vec<u32>,
    /// Abort bank for registers 13 and 14.
    pub regs_abt: Vec<u32>,
    /// IRQ bank for registers 13 and 14.
    pub regs_irq: Vec<u32>,
    /// Undefined-mode bank for registers 13 and 14.
    pub regs_und: Vec<u32>,
    pub ram_work1: Vec<u8>,
    pub ram_work2: Vec<u8>,
    pub ram_palette: Vec<u8>,
    pub ram_video: Vec<u8>,
    pub ram_obj_attr: Vec<u8>,
    /// Recoverable-fault flag; set by invalid accesses, cleared by reset.
    pub panicked: bool,
    pub rom: Vec<u8>,
    pub bios: Vec<u8>,
    /// Last internally accessed address, kept for inspection.
    pub mem_ptr: u32,
    /// DMA channel registers: four channels of source, destination, control.
    pub dma: Vec<u8>,
    /// Timer registers.
    pub timers: Vec<u8>,
    pub io_waitcnt: u16,
    /// Interrupt master enable.
    pub io_ime: u8,
    /// Interrupt enable mask.
    pub io_ie: u16,
    /// Interrupt pending flags.
    pub io_if: u16,
    pub keypad: Keypad,
    pub lcd: LCD,
    pub serial: Serial,
    /// Halt flag; set by the halt services, cleared by interrupt delivery.
    pub halt: bool,
    /// Firmware interrupt-wait word at 0x03007FF8.
    pub io_bios_if: u16,
    pub cycle_count: usize,
}

/// The mode field of a status word.
pub open spec fn cpsr_mode(w: u32) -> u8 {
    (w & 0xFu32) as u8
}

/// The seven mode numbers the register file banks over.
pub open spec fn valid_mode(m: u8) -> bool {
    m == MODE_USER || m == MODE_FIQ || m == MODE_IRQ || m == MODE_SUPERVISOR || m == MODE_ABORT
        || m == MODE_UNDEFINED || m == MODE_SYSTEM
}

pub open spec fn flag_n(w: u32) -> bool {
    w & FLAG_MASK_N != 0u32
}

pub open spec fn flag_z(w: u32) -> bool {
    w & FLAG_MASK_Z != 0u32
}

pub open spec fn flag_c(w: u32) -> bool {
    w & FLAG_MASK_C != 0u32
}

pub open spec fn flag_v(w: u32) -> bool {
    w & FLAG_MASK_V != 0u32
}

/// The encoding bit: compact (16-bit) when set, wide (32-bit) when clear.
pub open spec fn cpsr_thumb(w: u32) -> bool {
    w & 0x20u32 != 0u32
}

/// A program-counter value masked to the alignment of the given encoding.
pub open spec fn pc_masked(v: u32, thumb: bool) -> u32 {
    if thumb {
        v & 0xFFFFFFFEu32
    } else {
        v & 0xFFFFFFFCu32
    }
}

/// The physical register slot that mode `m` sees for register index `k`:
/// slots 0 through 15 are the common file, 16 through 22 the FIQ bank, and
/// 23 through 30 the per-mode banks of registers 13 and 14.
pub open spec fn slot_id(m: u8, k: u8) -> int {
    if k <= 7 || k == 15 {
        k as int
    } else if 8 <= k <= 12 {
        if m == MODE_FIQ {
            16 + (k - 8)
        } else {
            k as int
        }
    } else {
        // k is 13 or 14
        if m == MODE_USER || m == MODE_SYSTEM {
            k as int
        } else if m == MODE_FIQ {
            16 + (k - 8)
        } else if m == MODE_SUPERVISOR {
            23 + (k - 13)
        } else if m == MODE_ABORT {
            25 + (k - 13)
        } else if m == MODE_IRQ {
            27 + (k - 13)
        } else if m == MODE_UNDEFINED {
            29 + (k - 13)
        } else {
            k as int
        }
    }
}

/// The value held in physical slot `i`.
pub open spec fn slot_val(c: CPU, i: int) -> u32 {
    if i < 16 {
        c.registers@[i]
    } else if i < 23 {
        c.regs_fiq@[i - 16]
    } else if i < 25 {
        c.regs_svc@[i - 23]
    } else if i < 27 {
        c.regs_abt@[i - 25]
    } else if i < 29 {
        c.regs_irq@[i - 27]
    } else {
        c.regs_und@[i - 29]
    }
}

/// What `read_register` returns for indices 0 through 14 in the current mode.
pub open spec fn spec_reg(c: CPU, k: u8) -> u32 {
    slot_val(c, slot_id(cpsr_mode(c.reg_cpsr), k))
}

/// What `read_register` returns for any index: the banked slot, with the
/// program counter masked to the current encoding's alignment.
pub open spec fn reg_read(c: CPU, k: u8) -> u32 {
    if k == 15 {
        pc_masked(c.registers@[15], cpsr_thumb(c.reg_cpsr))
    } else {
        spec_reg(c, k)
    }
}

/// The banked register file is unchanged between two states.
pub open spec fn regs_eq(a: CPU, b: CPU) -> bool {
    &&& a.registers == b.registers
    &&& a.regs_fiq == b.regs_fiq
    &&& a.regs_svc == b.regs_svc
    &&& a.regs_abt == b.regs_abt
    &&& a.regs_irq == b.regs_irq
    &&& a.regs_und == b.regs_und
}

/// The status word and the saved status registers are unchanged.
pub open spec fn psr_eq(a: CPU, b: CPU) -> bool {
    &&& a.reg_cpsr == b.reg_cpsr
    &&& a.regs_spsr == b.regs_spsr
}

/// All memory buffers are unchanged.
pub open spec fn mem_eq(a: CPU, b: CPU) -> bool {
    &&& a.ram_work1 == b.ram_work1
    &&& a.ram_work2 == b.ram_work2
    &&& a.ram_palette == b.ram_palette
    &&& a.ram_video == b.ram_video
    &&& a.ram_obj_attr == b.ram_obj_attr
    &&& a.rom == b.rom
    &&& a.bios == b.bios
}

/// The I/O register state and the devices are unchanged.
pub open spec fn io_eq(a: CPU, b: CPU) -> bool {
    &&& a.dma == b.dma
    &&& a.timers == b.timers
    &&& a.io_waitcnt == b.io_waitcnt
    &&& a.io_ime == b.io_ime
    &&& a.io_ie == b.io_ie
    &&& a.io_if == b.io_if
    &&& a.keypad == b.keypad
    &&& a.lcd == b.lcd
    &&& a.serial == b.serial
    &&& a.io_bios_if == b.io_bios_if
}

/// Relation between the states before and after `write_register(k, v)`: the
/// physical slot the current mode resolves `k` to holds the new value (the
/// program counter masked to the encoding's alignment), every other slot and
/// every other part of the machine is untouched.
pub open spec fn write_reg_rel(pre: CPU, post: CPU, k: u8, v: u32) -> bool {
    let m = cpsr_mode(pre.reg_cpsr);
    let i = slot_id(m, k);
    let stored = if k == 15 {
        pc_masked(v, cpsr_thumb(pre.reg_cpsr))
    } else {
        v
    };
    &&& if i < 16 {
        &&& post.registers@ == pre.registers@.update(i, stored)
        &&& post.regs_fiq == pre.regs_fiq
        &&& post.regs_svc == pre.regs_svc
        &&& post.regs_abt == pre.regs_abt
        &&& post.regs_irq == pre.regs_irq
        &&& post.regs_und == pre.regs_und
    } else if i < 23 {
        &&& post.regs_fiq@ == pre.regs_fiq@.update(i - 16, stored)
        &&& post.registers == pre.registers
        &&& post.regs_svc == pre.regs_svc
        &&& post.regs_abt == pre.regs_abt
        &&& post.regs_irq == pre.regs_irq
        &&& post.regs_und == pre.regs_und
    } else if i < 25 {
        &&& post.regs_svc@ == pre.regs_svc@.update(i - 23, stored)
        &&& post.registers == pre.registers
        &&& post.regs_fiq == pre.regs_fiq
        &&& post.regs_abt == pre.regs_abt
        &&& post.regs_irq == pre.regs_irq
        &&& post.regs_und == pre.regs_und
    } else if i < 27 {
        &&& post.regs_abt@ == pre.regs_abt@.update(i - 25, stored)
        &&& post.registers == pre.registers
        &&& post.regs_fiq == pre.regs_fiq
        &&& post.regs_svc == pre.regs_svc
        &&& post.regs_irq == pre.regs_irq
        &&& post.regs_und == pre.regs_und
    } else if i < 29 {
        &&& post.regs_irq@ == pre.regs_irq@.update(i - 27, stored)
        &&& post.registers == pre.registers
        &&& post.regs_fiq == pre.regs_fiq
        &&& post.regs_svc == pre.regs_svc
        &&& post.regs_abt == pre.regs_abt
        &&& post.regs_und == pre.regs_und
    } else {
        &&& post.regs_und@ == pre.regs_und@.update(i - 29, stored)
        &&& post.registers == pre.registers
        &&& post.regs_fiq == pre.regs_fiq
        &&& post.regs_svc == pre.regs_svc
        &&& post.regs_abt == pre.regs_abt
        &&& post.regs_irq == pre.regs_irq
    }
    &&& psr_eq(pre, post)
    &&& mem_eq(pre, post)
    &&& io_eq(pre, post)
    &&& post.panicked == pre.panicked
    &&& post.halt == pre.halt
    &&& post.mem_ptr == pre.mem_ptr
    &&& post.cycle_count == pre.cycle_count
}

impl CPU {
    /// The structural invariant: every bank and buffer has its platform size.
    pub open spec fn wf(&self) -> bool {
        &&& self.registers@.len() == 16
        &&& self.regs_spsr@.len() == 16
        &&& self.regs_fiq@.len() == 7
        &&& self.regs_svc@.len() == 2
        &&& self.regs_abt@.len() == 2
        &&& self.regs_irq@.len() == 2
        &&& self.regs_und@.len() == 2
        &&& self.ram_work1@.len() == RAM_WORK1_BYTES
        &&& self.ram_work2@.len() == RAM_WORK2_BYTES
        &&& self.ram_palette@.len() == RAM_PALETTE_BYTES
        &&& self.ram_video@.len() == RAM_VIDEO_BYTES
        &&& self.ram_obj_attr@.len() == RAM_OBJ_ATTR_BYTES
        &&& self.dma@.len() == 48
        &&& self.timers@.len() == 16
        &&& self.lcd.wf()
        &&& self.serial.wf()
    }

    /// The current mode, from the low nibble of the status word.
    pub open spec fn spec_mode(&self) -> u8 {
        cpsr_mode(self.reg_cpsr)
    }

    /// The raw program counter slot.
    pub open spec fn spec_pc(&self) -> u32 {
        self.registers@[15]
    }

    /// A fresh core: supervisor mode with interrupts masked, empty ROM and
    /// firmware, zeroed registers, RAM and I/O state.
    pub fn new() -> (r: CPU)
        ensures
            r.wf(),
            r.reg_cpsr == 0xC3u32,
            r.spec_mode() == MODE_SUPERVISOR,
            forall|i: int| 0 <= i < 16 ==> r.registers@[i] == 0u32,
            forall|i: int| 0 <= i < 16 ==> r.regs_spsr@[i] == 0u32,
            forall|i: int| 0 <= i < 31 ==> slot_val(r, i) == 0u32,
            forall|i: int| 0 <= i < RAM_WORK1_BYTES ==> r.ram_work1@[i] == 0u8,
            forall|i: int| 0 <= i < RAM_WORK2_BYTES ==> r.ram_work2@[i] == 0u8,
            forall|i: int| 0 <= i < RAM_PALETTE_BYTES ==> r.ram_palette@[i] == 0u8,
            forall|i: int| 0 <= i < RAM_VIDEO_BYTES ==> r.ram_video@[i] == 0u8,
            forall|i: int| 0 <= i < RAM_OBJ_ATTR_BYTES ==> r.ram_obj_attr@[i] == 0u8,
            forall|i: int| 0 <= i < 48 ==> r.dma@[i] == 0u8,
            forall|i: int| 0 <= i < 88 ==> r.lcd.registers@[i] == 0u8,
            r.rom@.len() == 0,
            r.bios@.len() == 0,
            !r.panicked,
            !r.halt,
            r.io_ime == 0u8,
            r.io_ie == 0u16,
            r.io_if == 0u16,
            r.io_bios_if == 0u16,
            r.io_waitcnt == 0u16,
            r.keypad.keyinput == 0xFFFFu16,
            r.keypad.keycnt == 0u16,
            r.mem_ptr == 0u32,
            r.cycle_count == 0,
    {
        proof {
            assert(cpsr_mode(0xC3u32) == 0x3u8) by (bit_vector);
        }
        CPU {
            mem_ptr: 0,
            registers: vec![0u32; 16],
            reg_cpsr: 0xC3,
            regs_spsr: vec![0u32; 16],
            regs_fiq: vec![0u32; 7],
            regs_svc: vec![0u32; 2],
            regs_abt: vec![0u32; 2],
            regs_irq: vec![0u32; 2],
            regs_und: vec![0u32; 2],
            ram_work1: vec![0u8; RAM_WORK1_BYTES],
            ram_work2: vec![0u8; RAM_WORK2_BYTES],
            ram_palette: vec![0u8; RAM_PALETTE_BYTES],
            ram_video: vec![0u8; RAM_VIDEO_BYTES],
            ram_obj_attr: vec![0u8; RAM_OBJ_ATTR_BYTES],
            panicked: false,
            rom: Vec::new(),
            bios: Vec::new(),
            dma: vec![0u8; 48],
            timers: vec![0u8; 16],
            io_waitcnt: 0,
            io_ie: 0,
            io_ime: 0,
            io_if: 0,
            keypad: Keypad::new(),
            lcd: LCD::new(),
            serial: Serial::new(),
            halt: false,
            io_bios_if: 0,
            cycle_count: 0,
        }
    }

    /// Re-initializes the core: supervisor mode with interrupts masked, the
    /// program counter at the cartridge entry, the documented per-mode stack
    /// pointers preseeded, DMA registers cleared, and the fault, halt and
    /// cycle state cleared.  Loaded images and RAM contents are kept.
    pub fn reset(&mut self)
        requires
            old(self).wf(),
        ensures
            final(self).wf(),
            final(self).reg_cpsr == 0xC3u32,
            final(self).spec_mode() == MODE_SUPERVISOR,
            final(self).registers@ == Seq::new(16, |i: int| if i == 13 { 0x03007F00u32 } else if i == 15 { 0x08000000u32 } else { 0u32 }),
            forall|i: int| 0 <= i < 16 ==> final(self).regs_spsr@[i] == 0u32,
            forall|i: int| 0 <= i < 48 ==> final(self).dma@[i] == 0u8,
            final(self).regs_svc@ == old(self).regs_svc@.update(0, 0x03007FE0u32),
            final(self).regs_irq@ == old(self).regs_irq@.update(0, 0x03007FA0u32),
            final(self).regs_fiq == old(self).regs_fiq,
            final(self).regs_abt == old(self).regs_abt,
            final(self).regs_und == old(self).regs_und,
            mem_eq(*old(self), *final(self)),
            final(self).timers == old(self).timers,
            final(self).io_waitcnt == old(self).io_waitcnt,
            final(self).io_ime == old(self).io_ime,
            final(self).io_ie == old(self).io_ie,
            final(self).io_if == old(self).io_if,
            final(self).keypad == old(self).keypad,
            final(self).lcd == old(self).lcd,
            final(self).serial == old(self).serial,
            final(self).io_bios_if == old(self).io_bios_if,
            !final(self).panicked,
            !final(self).halt,
            final(self).mem_ptr == old(self).mem_ptr,
            final(self).cycle_count == 0,
    {
        self.registers = vec![0u32; 16];
        // Supervisor mode (0x3) with both interrupt-mask bits raised
        // (0x40 | 0x80).
        self.reg_cpsr = 0xC3;
        self.regs_spsr = vec![0u32; 16];
        self.dma = vec![0u8; 48];

        proof {
            assert(cpsr_mode(0xC3u32) == 0x3u8 && !cpsr_thumb(0xC3u32) && (0x08000000u32
                & 0xFFFFFFFCu32) == 0x08000000u32) by (bit_vector);
        }

        // The cartridge entry point.
        self.registers[15] = 0x08000000;

        // Preseed the per-mode stack pointers.
        self.regs_svc[0] = 0x03007FE0;
        self.regs_irq[0] = 0x03007FA0;
        self.registers[13] = 0x03007F00;

        self.panicked = false;
        self.halt = false;

        self.cycle_count = 0;

        proof {
            assert(self.registers@ =~= Seq::new(16, |i: int| if i == 13 { 0x03007F00u32 } else if i == 15 { 0x08000000u32 } else { 0u32 }));
        }
    }

    /// Installs a cartridge image.
    pub fn load_rom(&mut self, rom: Vec<u8>)
        ensures
            *final(self) == (CPU { rom: rom, ..*old(self) }),
    {
        self.rom = rom;
    }

    /// Installs a firmware image.
    pub fn load_bios(&mut self, bios: Vec<u8>)
        ensures
            *final(self) == (CPU { bios: bios, ..*old(self) }),
    {
        self.bios = bios;
    }

    pub fn get_flag_n(&self) -> (r: bool)
        ensures
            r == flag_n(self.reg_cpsr),
    {
        self.reg_cpsr & FLAG_MASK_N > 0
    }

    /// The current mode number.
    pub fn get_mode(&self) -> (r: u8)
        ensures
            r == self.spec_mode(),
    {
        (self.reg_cpsr & 0xF) as u8
    }

    pub fn set_mode(&mut self, mode: u8)
        ensures
            *final(self) == (CPU {
                reg_cpsr: ((old(self).reg_cpsr & 0xFFFFFFE0u32) | 0x10u32 | (mode as u32)) as u32,
                ..*old(self)
            }),
    {
        self.reg_cpsr = (self.reg_cpsr & 0xFFFFFFE0) | 0x10 | (mode as u32);
    }

    pub fn set_flag_n(&mut self, set: bool)
        ensures
            *final(self) == (CPU {
                reg_cpsr: (if set {
                    old(self).reg_cpsr | FLAG_MASK_N
                } else {
                    old(self).reg_cpsr & !FLAG_MASK_N
                }) as u32,
                ..*old(self)
            }),
            flag_n(final(self).reg_cpsr) == set,
            flag_z(final(self).reg_cpsr) == flag_z(old(self).reg_cpsr),
            flag_c(final(self).reg_cpsr) == flag_c(old(self).reg_cpsr),
            flag_v(final(self).reg_cpsr) == flag_v(old(self).reg_cpsr),
            final(self).reg_cpsr & !FLAG_MASK_N == old(self).reg_cpsr & !FLAG_MASK_N,
    {
        if set {
            self.reg_cpsr = self.reg_cpsr | FLAG_MASK_N;
        } else {
            self.reg_cpsr = self.reg_cpsr & !FLAG_MASK_N;
        }
        proof {
            flag_set_effect(old(self).reg_cpsr, FLAG_MASK_N, set);
        }
    }

    pub fn get_flag_z(&self) -> (r: bool)
        ensures
            r == flag_z(self.reg_cpsr),
    {
        self.reg_cpsr & FLAG_MASK_Z > 0
    }

    pub fn set_flag_z(&mut self, set: bool)
        ensures
            *final(self) == (CPU {
                reg_cpsr: (if set {
                    old(self).reg_cpsr | FLAG_MASK_Z
                } else {
                    old(self).reg_cpsr & !FLAG_MASK_Z
                }) as u32,
                ..*old(self)
            }),
            flag_z(final(self).reg_cpsr) == set,
            flag_n(final(self).reg_cpsr) == flag_n(old(self).reg_cpsr),
            flag_c(final(self).reg_cpsr) == flag_c(old(self).reg_cpsr),
            flag_v(final(self).reg_cpsr) == flag_v(old(self).reg_cpsr),
            final(self).reg_cpsr & !FLAG_MASK_Z == old(self).reg_cpsr & !FLAG_MASK_Z,
    {
        if set {
            self.reg_cpsr = self.reg_cpsr | FLAG_MASK_Z;
        } else {
            self.reg_cpsr = self.reg_cpsr & !FLAG_MASK_Z;
        }
        proof {
            flag_set_effect(old(self).reg_cpsr, FLAG_MASK_Z, set);
        }
    }

    pub fn get_flag_c(&self) -> (r: bool)
        ensures
            r == flag_c(self.reg_cpsr),
    {
        self.reg_cpsr & FLAG_MASK_C > 0
    }

    pub fn set_flag_c(&mut self, set: bool)
        ensures
            *final(self) == (CPU {
                reg_cpsr: (if set {
                    old(self).reg_cpsr | FLAG_MASK_C
                } else {
                    old(self).reg_cpsr & !FLAG_MASK_C
                }) as u32,
                ..*old(self)
            }),
            flag_c(final(self).reg_cpsr) == set,
            flag_n(final(self).reg_cpsr) == flag_n(old(self).reg_cpsr),
            flag_z(final(self).reg_cpsr) == flag_z(old(self).reg_cpsr),
            flag_v(final(self).reg_cpsr) == flag_v(old(self).reg_cpsr),
            final(self).reg_cpsr & !FLAG_MASK_C == old(self).reg_cpsr & !FLAG_MASK_C,
    {
        if set {
            self.reg_cpsr = self.reg_cpsr | FLAG_MASK_C;
        } else {
            self.reg_cpsr = self.reg_cpsr & !FLAG_MASK_C;
        }
        proof {
            flag_set_effect(old(self).reg_cpsr, FLAG_MASK_C, set);
        }
    }

    pub fn get_flag_v(&self) -> (r: bool)
        ensures
            r == flag_v(self.reg_cpsr),
    {
        self.reg_cpsr & FLAG_MASK_V > 0
    }

    pub fn set_flag_v(&mut self, set: bool)
        ensures
            *final(self) == (CPU {
                reg_cpsr: (if set {
                    old(self).reg_cpsr | FLAG_MASK_V
                } else {
                    old(self).reg_cpsr & !FLAG_MASK_V
                }) as u32,
                ..*old(self)
            }),
            flag_v(final(self).reg_cpsr) == set,
            flag_n(final(self).reg_cpsr) == flag_n(old(self).reg_cpsr),
            flag_z(final(self).reg_cpsr) == flag_z(old(self).reg_cpsr),
            flag_c(final(self).reg_cpsr) == flag_c(old(self).reg_cpsr),
            final(self).reg_cpsr & !FLAG_MASK_V == old(self).reg_cpsr & !FLAG_MASK_V,
    {
        if set {
            self.reg_cpsr = self.reg_cpsr | FLAG_MASK_V;
        } else {
            self.reg_cpsr = self.reg_cpsr & !FLAG_MASK_V;
        }
        proof {
            flag_set_effect(old(self).reg_cpsr, FLAG_MASK_V, set);
        }
    }

    /// The encoding bit: compact instructions when set.
    pub fn is_thumb(&self) -> (r: bool)
        ensures
            r == cpsr_thumb(self.reg_cpsr),
    {
        (self.reg_cpsr & 0x20) != 0
    }

    pub fn set_thumb(&mut self, thumb: bool)
        ensures
            *final(self) == (CPU {
                reg_cpsr: (if thumb {
                    old(self).reg_cpsr | 0x20u32
                } else {
                    old(self).reg_cpsr & !0x20u32
                }) as u32,
                ..*old(self)
            }),
            cpsr_thumb(final(self).reg_cpsr) == thumb,
            final(self).spec_mode() == old(self).spec_mode(),
            flag_n(final(self).reg_cpsr) == flag_n(old(self).reg_cpsr),
            flag_z(final(self).reg_cpsr) == flag_z(old(self).reg_cpsr),
            flag_c(final(self).reg_cpsr) == flag_c(old(self).reg_cpsr),
            flag_v(final(self).reg_cpsr) == flag_v(old(self).reg_cpsr),
    {
        if thumb {
            self.reg_cpsr = self.reg_cpsr | 0x20;
        } else {
            self.reg_cpsr = self.reg_cpsr & !0x20;
        }
        proof {
            let w = old(self).reg_cpsr;
            assert(cpsr_thumb((w | 0x20u32) as u32) && !cpsr_thumb((w & !0x20u32) as u32)
                && cpsr_mode((w | 0x20u32) as u32) == cpsr_mode(w) && cpsr_mode((w & !0x20u32) as u32)
                == cpsr_mode(w)) by (bit_vector);
            flag_set_effect(w, 0x20u32, thumb);
        }
    }

    pub fn disable_irq(&mut self, disable: bool)
        ensures
            *final(self) == (CPU {
                reg_cpsr: (if disable {
                    old(self).reg_cpsr | 0x80u32
                } else {
                    old(self).reg_cpsr & !0x80u32
                }) as u32,
                ..*old(self)
            }),
    {
        if disable {
            self.reg_cpsr = self.reg_cpsr | 0x80;
        } else {
            self.reg_cpsr = self.reg_cpsr & !0x80;
        }
    }

    /// Reads register `k` against the current mode's banking; the program
    /// counter comes back masked to the current encoding's alignment.
    pub fn read_register(&self, register: u8) -> (r: u32)
        requires
            self.wf(),
            register <= 15,
            13 <= register <= 14 ==> valid_mode(self.spec_mode()),
        ensures
            r == reg_read(*self, register),
    {
        let mode = self.get_mode();
        let privileged = mode != MODE_SYSTEM && mode != MODE_USER;

        if register <= 7 {
            self.registers[register as usize]
        } else if register == 15 {
            if self.is_thumb() {
                self.registers[15] & 0xFFFFFFFE
            } else {
                self.registers[15] & 0xFFFFFFFC
            }
        } else if !privileged {
            self.registers[register as usize]
        } else if mode == MODE_FIQ {
            self.regs_fiq[(register - 8) as usize]
        } else if register <= 12 {
            self.registers[register as usize]
        } else if mode == MODE_SUPERVISOR {
            self.regs_svc[(register - 13) as usize]
        } else if mode == MODE_ABORT {
            self.regs_abt[(register - 13) as usize]
        } else if mode == MODE_IRQ {
            self.regs_irq[(register - 13) as usize]
        } else {
            self.regs_und[(register - 13) as usize]
        }
    }

    /// Writes register `k` against the current mode's banking; a program
    /// counter value is masked to the current encoding's alignment.  Every
    /// other slot, and everything else in the machine, stays as it was.
    pub fn write_register(&mut self, register: u8, value: u32)
        requires
            old(self).wf(),
            register <= 15,
            13 <= register <= 14 ==> valid_mode(old(self).spec_mode()),
        ensures
            final(self).wf(),
            write_reg_rel(*old(self), *final(self), register, value),
    {
        let mode = self.get_mode();
        let privileged = mode != MODE_SYSTEM && mode != MODE_USER;

        if register <= 7 {
            self.registers[register as usize] = value;
        } else if register == 15 {
            if self.is_thumb() {
                self.registers[15] = value & 0xFFFFFFFE;
            } else {
                self.registers[15] = value & 0xFFFFFFFC;
            }
        } else if !privileged {
            self.registers[register as usize] = value;
        } else if mode == MODE_FIQ {
            self.regs_fiq[(register - 8) as usize] = value;
        } else if register <= 12 {
            self.registers[register as usize] = value;
        } else if mode == MODE_SUPERVISOR {
            self.regs_svc[(register - 13) as usize] = value;
        } else if mode == MODE_ABORT {
            self.regs_abt[(register - 13) as usize] = value;
        } else if mode == MODE_IRQ {
            self.regs_irq[(register - 13) as usize] = value;
        } else {
            self.regs_und[(register - 13) as usize] = value;
        }
    }

    /// The raw program counter.
    pub fn get_program_counter(&self) -> (r: u32)
        requires
            self.wf(),
        ensures
            r == self.spec_pc(),
    {
        self.registers[15]
    }

    /// Sets the program counter, masked to the current encoding's alignment.
    pub fn set_program_counter(&mut self, addr: u32)
        requires
            old(self).wf(),
        ensures
            final(self).wf(),
            write_reg_rel(*old(self), *final(self), 15, addr),
            final(self).spec_pc() == pc_masked(addr, cpsr_thumb(old(self).reg_cpsr)),
    {
        self.write_register(15, addr);
    }

    /// Advances the raw program counter by `steps` bytes.
    pub fn step_program_counter(&mut self, steps: u32)
        requires
            old(self).wf(),
            old(self).spec_pc() + steps <= u32::MAX,
        ensures
            final(self).wf(),
            *final(self) == (CPU {
                registers: final(self).registers,
                ..*old(self)
            }),
            final(self).registers@ == old(self).registers@.update(
                15,
                (old(self).spec_pc() + steps) as u32,
            ),
    {
        let pc = self.registers[15];
        self.registers[15] = pc + steps;
    }
}

/// A status word with the four flags replaced and everything else kept.
pub open spec fn with_flags(w: u32, n: bool, z: bool, c: bool, v: bool) -> u32 {
    (((w & 0x0FFFFFFFu32) | (if n {
        0x80000000u32
    } else {
        0u32
    }) | (if z {
        0x40000000u32
    } else {
        0u32
    }) | (if c {
        0x20000000u32
    } else {
        0u32
    }) | (if v {
        0x10000000u32
    } else {
        0u32
    })) as u32)
}

/// Setting N, Z, C and V in turn produces `with_flags`, reads back the four
/// values, and touches nothing below the top nibble.
pub proof fn lemma_set_nzcv(w: u32, n: bool, z: bool, c: bool, v: bool)
    by (bit_vector)
    ensures
        ({
            let r1 = if n {
                w | 0x80000000u32
            } else {
                w & !0x80000000u32
            };
            let r2 = if z {
                r1 | 0x40000000u32
            } else {
                r1 & !0x40000000u32
            };
            let r3 = if c {
                r2 | 0x20000000u32
            } else {
                r2 & !0x20000000u32
            };
            let r4 = if v {
                r3 | 0x10000000u32
            } else {
                r3 & !0x10000000u32
            };
            r4 == with_flags(w, n, z, c, v)
        }),
        flag_n(with_flags(w, n, z, c, v)) == n,
        flag_z(with_flags(w, n, z, c, v)) == z,
        flag_c(with_flags(w, n, z, c, v)) == c,
        flag_v(with_flags(w, n, z, c, v)) == v,
        cpsr_thumb(with_flags(w, n, z, c, v)) == cpsr_thumb(w),
        cpsr_mode(with_flags(w, n, z, c, v)) == cpsr_mode(w),
        with_flags(w, n, z, c, v) & 0x0FFFFFFFu32 == w & 0x0FFFFFFFu32,
        with_flags(w, flag_n(w), flag_z(w), flag_c(w), flag_v(w)) == w,
{
}

/// Setting N and Z in turn produces `with_flags` with C and V kept.
pub proof fn lemma_set_nz(w: u32, n: bool, z: bool)
    by (bit_vector)
    ensures
        ({
            let r1 = if n {
                w | 0x80000000u32
            } else {
                w & !0x80000000u32
            };
            let r2 = if z {
                r1 | 0x40000000u32
            } else {
                r1 & !0x40000000u32
            };
            r2 == with_flags(w, n, z, flag_c(w), flag_v(w))
        }),
        flag_n(with_flags(w, n, z, flag_c(w), flag_v(w))) == n,
        flag_z(with_flags(w, n, z, flag_c(w), flag_v(w))) == z,
        flag_c(with_flags(w, n, z, flag_c(w), flag_v(w))) == flag_c(w),
        flag_v(with_flags(w, n, z, flag_c(w), flag_v(w))) == flag_v(w),
        cpsr_thumb(with_flags(w, n, z, flag_c(w), flag_v(w))) == cpsr_thumb(w),
        cpsr_mode(with_flags(w, n, z, flag_c(w), flag_v(w))) == cpsr_mode(w),
{
}

/// Setting N, Z and C in turn produces `with_flags` with V kept.
pub proof fn lemma_set_nzc(w: u32, n: bool, z: bool, c: bool)
    by (bit_vector)
    ensures
        ({
            let r1 = if n {
                w | 0x80000000u32
            } else {
                w & !0x80000000u32
            };
            let r2 = if z {
                r1 | 0x40000000u32
            } else {
                r1 & !0x40000000u32
            };
            let r3 = if c {
                r2 | 0x20000000u32
            } else {
                r2 & !0x20000000u32
            };
            r3 == with_flags(w, n, z, c, flag_v(w))
        }),
        flag_n(with_flags(w, n, z, c, flag_v(w))) == n,
        flag_z(with_flags(w, n, z, c, flag_v(w))) == z,
        flag_c(with_flags(w, n, z, c, flag_v(w))) == c,
        flag_v(with_flags(w, n, z, c, flag_v(w))) == flag_v(w),
        cpsr_thumb(with_flags(w, n, z, c, flag_v(w))) == cpsr_thumb(w),
        cpsr_mode(with_flags(w, n, z, c, flag_v(w))) == cpsr_mode(w),
{
}

/// Setting or clearing one mask bit leaves the rest of the word alone.
proof fn flag_set_effect(w: u32, mask: u32, set: bool)
    by (bit_vector)
    requires
        mask == 0x80000000u32 || mask == 0x40000000u32 || mask == 0x20000000u32 || mask
            == 0x10000000u32 || mask == 0x20u32 || mask == 0x80u32,
    ensures
        ({
            let r = if set {
                w | mask
            } else {
                w & !mask
            };
            &&& ((r & mask != 0u32) == set)
            &&& r & !mask == w & !mask
            &&& mask != 0x80000000u32 ==> flag_n(r) == flag_n(w)
            &&& mask != 0x40000000u32 ==> flag_z(r) == flag_z(w)
            &&& mask != 0x20000000u32 ==> flag_c(r) == flag_c(w)
            &&& mask != 0x10000000u32 ==> flag_v(r) == flag_v(w)
            &&& mask != 0x20u32 ==> cpsr_thumb(r) == cpsr_thumb(w)
            &&& cpsr_mode(r) == cpsr_mode(w)
        }),
{
}

/// The register file round trip: after `write_register(k, v)` the same mode
/// reads `v` back at `k`, and any slot that a mode-and-index pair resolves
/// differently still holds its old value.
pub proof fn lemma_register_round_trip(pre: CPU, post: CPU, k: u8, v: u32)
    requires
        pre.wf(),
        k <= 15,
        write_reg_rel(pre, post, k, v),
    ensures
        slot_val(post, slot_id(cpsr_mode(pre.reg_cpsr), k)) == (if k == 15 {
            pc_masked(v, cpsr_thumb(pre.reg_cpsr))
        } else {
            v
        }),
        k <= 14 ==> spec_reg(post, k) == v,
        forall|j: int|
            0 <= j < 31 && j != slot_id(cpsr_mode(pre.reg_cpsr), k) ==> #[trigger] slot_val(
                post,
                j,
            ) == slot_val(pre, j),
{
    assert(cpsr_mode(post.reg_cpsr) == cpsr_mode(pre.reg_cpsr));
}

/// The register-file effect of writing `k1 := v1` and then, when `w2` holds,
/// `k2 := v2`, both resolved against `pre`'s mode; program-counter writes are
/// masked to `pre`'s encoding.
pub open spec fn reg_write2_rel(
    pre: CPU,
    post: CPU,
    k1: u8,
    v1: u32,
    k2: u8,
    v2: u32,
    w2: bool,
) -> bool {
    let m = cpsr_mode(pre.reg_cpsr);
    let th = cpsr_thumb(pre.reg_cpsr);
    let i1 = slot_id(m, k1);
    let i2 = slot_id(m, k2);
    let s1 = if k1 == 15 {
        pc_masked(v1, th)
    } else {
        v1
    };
    let s2 = if k2 == 15 {
        pc_masked(v2, th)
    } else {
        v2
    };
    &&& (w2 ==> slot_val(post, i2) == s2)
    &&& ((!w2 || i1 != i2) ==> slot_val(post, i1) == s1)
    &&& forall|j: int|
        0 <= j < 31 && j != i1 && (!w2 || j != i2) ==> #[trigger] slot_val(post, j) == slot_val(
            pre,
            j,
        )
    &&& post.registers@.len() == pre.registers@.len()
    &&& post.regs_fiq@.len() == pre.regs_fiq@.len()
    &&& post.regs_svc@.len() == pre.regs_svc@.len()
    &&& post.regs_abt@.len() == pre.regs_abt@.len()
    &&& post.regs_irq@.len() == pre.regs_irq@.len()
    &&& post.regs_und@.len() == pre.regs_und@.len()
}

/// Two successive register writes compose into `reg_write2_rel`.
pub proof fn lemma_reg_write2(pre: CPU, mid: CPU, post: CPU, k1: u8, v1: u32, k2: u8, v2: u32)
    requires
        pre.wf(),
        k1 <= 15,
        k2 <= 15,
        write_reg_rel(pre, mid, k1, v1),
        write_reg_rel(mid, post, k2, v2),
    ensures
        reg_write2_rel(pre, post, k1, v1, k2, v2, true),
{
    assert(cpsr_mode(mid.reg_cpsr) == cpsr_mode(pre.reg_cpsr));
    assert(cpsr_thumb(mid.reg_cpsr) == cpsr_thumb(pre.reg_cpsr));
}

/// `reg_write2_rel` only looks at the register file and the mode, so it
/// transfers to any starting state with the same registers and status word.
pub proof fn lemma_reg_write2_transfer(
    pre0: CPU,
    pre1: CPU,
    post: CPU,
    k1: u8,
    v1: u32,
    k2: u8,
    v2: u32,
    w2: bool,
)
    requires
        reg_write2_rel(pre1, post, k1, v1, k2, v2, w2),
        regs_eq(pre0, pre1),
        pre0.reg_cpsr == pre1.reg_cpsr,
    ensures
        reg_write2_rel(pre0, post, k1, v1, k2, v2, w2),
{
    assert(forall|j: int| #[trigger] slot_val(pre1, j) == slot_val(pre0, j));
}

/// A single register write as the degenerate case of `reg_write2_rel`.
pub proof fn lemma_reg_write1(pre: CPU, post: CPU, k1: u8, v1: u32, k2: u8, v2: u32)
    requires
        pre.wf(),
        k1 <= 15,
        write_reg_rel(pre, post, k1, v1),
    ensures
        reg_write2_rel(pre, post, k1, v1, k2, v2, false),
{
}

/// No register write at all as a degenerate case of `reg_write2_rel`: any
/// slot reads as it did, and the first write's clause is satisfied only when
/// the slot already holds the value; used by contracts whose write is
/// conditional.
pub open spec fn regs_unchanged_rel(pre: CPU, post: CPU) -> bool {
    &&& forall|j: int| 0 <= j < 31 ==> #[trigger] slot_val(post, j) == slot_val(pre, j)
    &&& post.registers@.len() == pre.registers@.len()
    &&& post.regs_fiq@.len() == pre.regs_fiq@.len()
    &&& post.regs_svc@.len() == pre.regs_svc@.len()
    &&& post.regs_abt@.len() == pre.regs_abt@.len()
    &&& post.regs_irq@.len() == pre.regs_irq@.len()
    &&& post.regs_und@.len() == pre.regs_und@.len()
}

/// The view of P1 a caller wants: two mode-and-index pairs that resolve to
/// different physical slots do not interfere.
pub proof fn lemma_register_no_interference(pre: CPU, post: CPU, k: u8, v: u32, m2: u8, j: u8)
    requires
        pre.wf(),
        k <= 14,
        j <= 14,
        write_reg_rel(pre, post, k, v),
        slot_id(m2, j) != slot_id(cpsr_mode(pre.reg_cpsr), k),
    ensures
        slot_val(post, slot_id(m2, j)) == slot_val(pre, slot_id(m2, j)),
{
    lemma_register_round_trip(pre, post, k, v);
}

} // verus!
