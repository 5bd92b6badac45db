//! The 16-bit compact instruction encoding: nineteen formats selected by the
//! opcode's high byte.

use vstd::prelude::*;

use crate::alu::{
    alu_carry, alu_overflow, alu_result, asr32, sign_bit, spec_cond, spec_operand2, wrap32,
};
use crate::cpu::{
    cpsr_mode, cpsr_thumb, flag_c, flag_n, flag_v, flag_z, io_eq, lemma_reg_write1,
    lemma_reg_write2, lemma_reg_write2_transfer, lemma_register_round_trip, lemma_set_nz,
    lemma_set_nzc, lemma_set_nzcv, mem_eq, pc_masked, psr_eq, reg_read, reg_write2_rel,
    regs_unchanged_rel, slot_id, slot_val, spec_reg, valid_mode, with_flags, write_reg_rel,
    ALU_ADD, ALU_CMN, ALU_CMP, ALU_MOV, ALU_RSB, ALU_SUB, ALU_TST, CPU,
};
use crate::mem::{
    mask_addr, ram32_ok, read_u16_ok, read_u32_ok, read_u8_ok, spec_read_u16, spec_read_u32,
    spec_read_u8, write32_mem_rel, write8_mem_rel, write_u32_ok, write_u8_ok,
};
use crate::ops::{
    bit16, ldm_final_rb, ldm_mem_frame, ldm_slot_touched_below, ldm_start, ldm_stm_ok,
    ldrstr_loaded, ldrstr_offsetted, ldrstr_ok, ldrstr_target, rlist_count,
};
use crate::syscall::{div_ok, div_rel_cycles};

verus! {

broadcast use
    crate::bits::lemma_u16_and_bound,
    crate::bits::lemma_u32_and_bound,
    crate::bits::lemma_u32_and_le_self,
;

/// Nothing outside the register file and status word changes.
pub open spec fn pure_op_frame(pre: CPU, post: CPU) -> bool {
    &&& mem_eq(pre, post)
    &&& io_eq(pre, post)
    &&& post.panicked == pre.panicked
    &&& post.halt == pre.halt
    &&& post.mem_ptr == pre.mem_ptr
    &&& post.regs_spsr == pre.regs_spsr
    &&& post.regs_fiq == pre.regs_fiq
    &&& post.regs_svc == pre.regs_svc
    &&& post.regs_abt == pre.regs_abt
    &&& post.regs_irq == pre.regs_irq
    &&& post.regs_und == pre.regs_und
}

/// Nothing outside the register file (including its banks) and status word
/// changes.
pub open spec fn dev_frame(pre: CPU, post: CPU) -> bool {
    &&& mem_eq(pre, post)
    &&& io_eq(pre, post)
    &&& post.panicked == pre.panicked
    &&& post.halt == pre.halt
    &&& post.mem_ptr == pre.mem_ptr
    &&& post.regs_spsr == pre.regs_spsr
}

/// The shifted value of the move-shifted-register format.
pub open spec fn f1_res(sop: u16, off: u32, x: u32) -> u32 {
    if sop == 0 {
        x << off
    } else if sop == 1 {
        x >> off
    } else if sop == 2 {
        asr32(x, off)
    } else {
        0u32
    }
}

/// The shifter carry of the move-shifted-register format; meaningful only
/// for a nonzero immediate.
pub open spec fn f1_carry(sop: u16, off: u32, x: u32) -> bool {
    if sop == 0 {
        if off == 0 {
            false
        } else {
            ((x >> (32 - off) as u32) & 1u32) != 0u32
        }
    } else if sop == 1 || sop == 2 {
        if off == 0 {
            false
        } else {
            ((x >> (off - 1) as u32) & 1u32) != 0u32
        }
    } else {
        true
    }
}

/// The register-file effect of writing `v` to banked register `k` (below 15)
/// and moving the raw program counter to `pc_new`.
pub open spec fn reg_write_pc_rel(pre: CPU, post: CPU, k: u8, v: u32, pc_new: u32) -> bool {
    let m = cpsr_mode(pre.reg_cpsr);
    let i = slot_id(m, k);
    &&& slot_val(post, i) == v
    &&& post.registers@[15] == pc_new
    &&& forall|j: int|
        0 <= j < 31 && j != i && j != 15 ==> #[trigger] slot_val(post, j) == slot_val(pre, j)
    &&& post.registers@.len() == pre.registers@.len()
    &&& post.regs_fiq@.len() == pre.regs_fiq@.len()
    &&& post.regs_svc@.len() == pre.regs_svc@.len()
    &&& post.regs_abt@.len() == pre.regs_abt@.len()
    &&& post.regs_irq@.len() == pre.regs_irq@.len()
    &&& post.regs_und@.len() == pre.regs_und@.len()
}

/// The value format 4 computes for each of its sixteen operations.
pub open spec fn f4_res(c: CPU, op: u8, rd: u8, rs: u8) -> u32 {
    let x = spec_reg(c, rd);
    let y = spec_reg(c, rs);
    if op == 0x2 {
        x << ((y % 32u32) as u32)
    } else if op == 0x3 {
        spec_operand2(c, false, (0x0030u16 | ((rs as u16) << 8u16) | (rd as u16)) as u16).0
    } else if op == 0x4 {
        spec_operand2(c, false, (0x0050u16 | ((rs as u16) << 8u16) | (rd as u16)) as u16).0
    } else if op == 0x7 {
        spec_operand2(c, false, (0x0070u16 | ((rs as u16) << 8u16) | (rd as u16)) as u16).0
    } else if op == 0x9 {
        alu_result(ALU_RSB, y, 0, flag_c(c.reg_cpsr))
    } else if op == 0x8 {
        x & y
    } else if op == 0xD {
        wrap32((y as nat * x as nat) as int % 0x100000000)
    } else {
        alu_result(op, x, y, flag_c(c.reg_cpsr))
    }
}

/// The flags format 4 produces: N and Z always follow the result; C and V
/// follow the operation, with the shifts clearing both through the move they
/// perform and the multiply and bit test keeping the old flags.
pub open spec fn f4_flags(c: CPU, op: u8, rd: u8, rs: u8) -> (bool, bool) {
    let x = spec_reg(c, rd);
    let y = spec_reg(c, rs);
    let cc = flag_c(c.reg_cpsr);
    let vv = flag_v(c.reg_cpsr);
    if op == 0x2 {
        (
            if y == 0 {
                false
            } else if y <= 32 {
                (x & (1u32 << (32 - y) as u32)) != 0u32
            } else {
                false
            },
            y >= 32,
        )
    } else if op == 0x3 || op == 0x4 || op == 0x7 {
        (false, false)
    } else if op == 0x9 {
        (alu_carry(ALU_RSB, y, 0, cc), alu_overflow(ALU_RSB, y, 0, cc, vv))
    } else if op == 0x8 || op == 0xD {
        (cc, vv)
    } else {
        (alu_carry(op, x, y, cc), alu_overflow(op, x, y, cc, vv))
    }
}

/// Whether format 4 writes its result back.
pub open spec fn f4_writes(op: u8) -> bool {
    op != 0x8 && op != 0xA && op != 0xB
}

/// The inputs on which the compact-encoding dispatcher completes without a
/// fault: the per-format preconditions, keyed by the opcode's high byte.
pub open spec fn thumb_exec_ok(c: CPU, opcode: u16) -> bool {
    let high = (opcode >> 8u16) as u16;
    &&& c.wf()
    &&& valid_mode(cpsr_mode(c.reg_cpsr))
    &&& c.spec_pc() + 8 <= u32::MAX
    &&& c.cycle_count + 26 <= usize::MAX
    &&& (0x44 <= high <= 0x47 ==> (((opcode >> 3u16) & 0x7u16) == 7 && (opcode & 0x40u16) != 0u16
        ==> spec_reg(
        c,
        (((opcode & 0x7u16) as u8) + (if (opcode & 0x80u16) != 0u16 {
            8u8
        } else {
            0u8
        })) as u8,
    ) + 4 <= u32::MAX || (opcode & 0x7u16) == 7 && (opcode & 0x80u16) != 0u16))
    &&& (0x48 <= high <= 0x4F ==> read_u32_ok(
        c,
        true,
        (wrap32(c.spec_pc() + 4 + (((opcode & 0xFFu16) as u32) << 2u32)) & 0xFFFFFFFDu32) as u32,
    ))
    &&& ((high == 0x50 || high == 0x51 || high == 0x54 || high == 0x55 || high == 0x58 || high
        == 0x59 || high == 0x5C || high == 0x5D) ==> {
        let rb = ((opcode >> 3u16) & 0x7u16) as u8;
        let ro = ((opcode >> 6u16) & 0x7u16) as u8;
        let ptr = wrap32(spec_reg(c, rb) + spec_reg(c, ro));
        let byte = (opcode & 0x400u16) != 0u16;
        let load = (opcode & 0x800u16) != 0u16;
        &&& (load && byte ==> read_u8_ok(c, true, ptr))
        &&& (load && !byte ==> read_u32_ok(c, true, ptr))
        &&& (!load && byte ==> write_u8_ok(c, true, ptr))
        &&& (!load && !byte ==> write_u32_ok(c, true, ptr))
    })
    &&& ((high == 0x52 || high == 0x53 || high == 0x56 || high == 0x57 || high == 0x5A || high
        == 0x5B || high == 0x5E || high == 0x5F) ==> {
        let rb = ((opcode >> 3u16) & 0x7u16) as u8;
        let ro = ((opcode >> 6u16) & 0x7u16) as u8;
        let sx = (opcode & 0x400u16) != 0u16;
        let hf = (opcode & 0x800u16) != 0u16;
        &&& spec_reg(c, rb) + spec_reg(c, ro) <= u32::MAX
        &&& ({
            let addr = (spec_reg(c, rb) + spec_reg(c, ro)) as u32;
            &&& (!sx && !hf ==> read_u32_ok(c, true, addr) && write_u32_ok(c, true, addr))
            &&& (!sx && hf ==> read_u16_ok(c, true, addr))
            &&& (sx ==> read_u32_ok(c, true, addr))
        })
    })
    &&& (0x60 <= high <= 0x7F ==> {
        let rd = (opcode & 0x7u16) as u8;
        let rb = ((opcode >> 3u16) & 0x7u16) as u8;
        let byte = (opcode & 0x1000u16) != 0u16;
        let off = if byte {
            ((opcode >> 6u16) & 0x1Fu16) as u32
        } else {
            ((((opcode >> 6u16) & 0x1Fu16) as u32) << 2u32) as u32
        };
        let load = (opcode & 0x800u16) != 0u16;
        ldrstr_ok(c, rd, rb, off, load, true, true, byte, false)
    })
    &&& (0x80 <= high <= 0x8F ==> {
        let rb = ((opcode >> 3u16) & 0x7u16) as u8;
        let off = ((((opcode >> 6u16) & 0x1Fu16) as u32) << 1u32) as u32;
        let addr = wrap32(spec_reg(c, rb) + off);
        let load = (opcode & 0x800u16) != 0u16;
        &&& read_u32_ok(c, true, addr)
        &&& (!load ==> write_u32_ok(c, true, addr))
    })
    &&& (0x90 <= high <= 0x9F ==> {
        let rd = ((opcode >> 8u16) & 0x7u16) as u8;
        let imm = (((opcode & 0xFFu16) as u32) << 2u32) as u32;
        let load = (opcode & 0x800u16) != 0u16;
        ldrstr_ok(c, rd, 13, imm, load, true, true, false, false)
    })
    &&& ((high == 0xB4 || high == 0xB5 || high == 0xBC || high == 0xBD) ==> {
        let load = (opcode & 0x0800u16) != 0u16;
        ldm_stm_ok(c, 13, f14_list(opcode), load, load, !load, false)
    })
    &&& (0xC0 <= high <= 0xCF ==> {
        let rb = ((opcode >> 8u16) & 0x7u16) as u8;
        let list = (opcode & 0xFFu16) as u16;
        let load = (opcode & 0x0800u16) != 0u16;
        ldm_stm_ok(c, rb, list, load, true, false, false)
    })
    &&& (high == 0xDF ==> {
        let sc = (opcode & 0xFFu16) as u8;
        &&& sc == 0x01 || sc == 0x02 || sc == 0x04 || sc == 0x05 || sc == 0x06 || sc == 0x07 || sc
            == 0x0B || sc == 0x0C
        &&& (sc == 0x0B ==> crate::syscall::cpu_set_ok(c))
        &&& (sc == 0x04 ==> (spec_reg(c, 0) & 1u32) == 1u32)
        &&& (sc == 0x06 ==> div_ok(c, spec_reg(c, 0), spec_reg(c, 1)))
        &&& (sc == 0x07 ==> div_ok(c, spec_reg(c, 1), spec_reg(c, 0)))
        &&& (sc == 0x0C ==> {
            let len_mode = spec_reg(c, 2);
            &&& (len_mode & 0x01000000u32) != 0
            &&& (len_mode & 0x1FFFFFu32) % 8 == 0
            &&& crate::mem::read_u32_ok(c, true, spec_reg(c, 0))
            &&& crate::syscall::memfill_ok(c, spec_reg(c, 1), (len_mode & 0x1FFFFFu32) as u32)
        })
    })
}

/// Only the raw program counter moves; every other slot keeps its value.
pub open spec fn pc_only_rel(pre: CPU, post: CPU, pc_new: u32) -> bool {
    &&& post.registers@[15] == pc_new
    &&& forall|j: int|
        0 <= j < 31 && j != 15 ==> #[trigger] slot_val(post, j) == slot_val(pre, j)
    &&& post.registers@.len() == pre.registers@.len()
    &&& post.regs_fiq@.len() == pre.regs_fiq@.len()
    &&& post.regs_svc@.len() == pre.regs_svc@.len()
    &&& post.regs_abt@.len() == pre.regs_abt@.len()
    &&& post.regs_irq@.len() == pre.regs_irq@.len()
    &&& post.regs_und@.len() == pre.regs_und@.len()
}

/// The register list of the push/pop format: the low byte, with the link
/// register added to a push and the program counter to a pop when the extra
/// bit is set.
pub open spec fn f14_list(opcode: u16) -> u16 {
    let base = (opcode & 0xFFu16) as u16;
    if (opcode & 0x0100u16) != 0u16 {
        if (opcode & 0x0800u16) != 0u16 {
            (base | 0x8000u16) as u16
        } else {
            (base | 0x4000u16) as u16
        }
    } else {
        base
    }
}

/// The full effect of one compact-encoding dispatch, keyed by the opcode's
/// high byte; an opcode outside every format only marks the core faulted.
pub open spec fn thumb_step_rel(pre: CPU, post: CPU, opcode: u16) -> bool {
    let high = (opcode >> 8u16) as u16;
    if high <= 0x17 {
        thumb_move_shifted_register_rel(pre, post, opcode)
    } else if high <= 0x1F {
        thumb_add_subtract_rel(pre, post, opcode)
    } else if high <= 0x3F {
        thumb_mov_cmp_add_sub_imm_rel(pre, post, opcode)
    } else if high <= 0x43 {
        thumb_alu_rel(pre, post, opcode)
    } else if high <= 0x47 {
        thumb_hi_register_op_bx_rel(pre, post, opcode)
    } else if high <= 0x4F {
        thumb_pc_relative_load_rel(pre, post, opcode)
    } else if high == 0x50 || high == 0x51 || high == 0x54 || high == 0x55 || high == 0x58 || high
        == 0x59 || high == 0x5C || high == 0x5D {
        thumb_load_store_register_offset_rel(pre, post, opcode)
    } else if high == 0x52 || high == 0x53 || high == 0x56 || high == 0x57 || high == 0x5A || high
        == 0x5B || high == 0x5E || high == 0x5F {
        thumb_load_store_sign_extended_byte_halfword_rel(pre, post, opcode)
    } else if high <= 0x7F && high >= 0x60 {
        thumb_load_store_immediate_rel(pre, post, opcode)
    } else if high <= 0x8F && high >= 0x80 {
        thumb_load_store_halfword_rel(pre, post, opcode)
    } else if high <= 0x9F && high >= 0x90 {
        thumb_sp_relative_load_store_rel(pre, post, opcode)
    } else if high <= 0xAF && high >= 0xA0 {
        thumb_load_address_rel(pre, post, opcode)
    } else if high == 0xB0 {
        thumb_offset_to_sp_rel(pre, post, opcode)
    } else if high == 0xB4 || high == 0xB5 || high == 0xBC || high == 0xBD {
        thumb_push_pop_rel(pre, post, opcode)
    } else if high <= 0xCF && high >= 0xC0 {
        thumb_multiple_load_store_rel(pre, post, opcode)
    } else if high <= 0xDE && high >= 0xD0 {
        thumb_conditional_branch_rel(pre, post, opcode)
    } else if high == 0xDF {
        thumb_swi_rel(pre, post, opcode)
    } else if high <= 0xE7 && high >= 0xE0 {
        thumb_unconditional_branch_rel(pre, post, opcode)
    } else if high >= 0xF0 {
        thumb_long_branch_link_rel(pre, post, opcode)
    } else {
        post == (CPU { panicked: true, ..pre })
    }
}

/// The full effect of `thumb_move_shifted_register` as a relation over machine states.
pub open spec fn thumb_move_shifted_register_rel(pre: CPU, post: CPU, opcode: u16) -> bool {
    &&& (post.wf())
    &&& (post.spec_mode() == pre.spec_mode())
    &&& (pure_op_frame(pre, post) || ((opcode >> 11u16) & 0x3u16) == 3)
    &&& (({
                let rd = (opcode & 0x7u16) as u8;
                let rs = ((opcode >> 3u16) & 0x7u16) as u8;
                let off = (((opcode >> 6u16) & 0x1Fu16) as u32);
                let sop = (opcode >> 11u16) & 0x3u16;
                let x = spec_reg(pre, rs);
                let res = f1_res(sop, off, x);
                let carry = f1_carry(sop, off, x);
                &&& post.registers@ == pre.registers@.update(rd as int, res).update(
                    15,
                    (pre.spec_pc() + 2) as u32,
                )
                &&& post.reg_cpsr == (if off != 0 {
                    with_flags(pre.reg_cpsr, sign_bit(res), res == 0u32, carry, flag_v(pre.reg_cpsr))
                } else {
                    with_flags(
                        pre.reg_cpsr,
                        sign_bit(res),
                        res == 0u32,
                        flag_c(pre.reg_cpsr),
                        flag_v(pre.reg_cpsr),
                    )
                })
                &&& post.panicked == (pre.panicked || sop == 3)
                &&& post.cycle_count == pre.cycle_count + 2
            }))
}

/// The full effect of `thumb_add_subtract` as a relation over machine states.
pub open spec fn thumb_add_subtract_rel(pre: CPU, post: CPU, opcode: u16) -> bool {
    &&& (post.wf())
    &&& (post.spec_mode() == pre.spec_mode())
    &&& (pure_op_frame(pre, post))
    &&& (({
                let rd = (opcode & 0x7u16) as u8;
                let rs = ((opcode >> 3u16) & 0x7u16) as u8;
                let field = ((opcode >> 6u16) & 0x7u16) as u8;
                let a = spec_reg(pre, rs);
                let b = if (opcode & 0x400u16) != 0u16 {
                    field as u32
                } else {
                    spec_reg(pre, field)
                };
                let op = if (opcode & 0x200u16) != 0u16 {
                    ALU_SUB
                } else {
                    ALU_ADD
                };
                let res = alu_result(op, a, b, flag_c(pre.reg_cpsr));
                &&& post.registers@ == pre.registers@.update(rd as int, res).update(
                    15,
                    (pre.spec_pc() + 2) as u32,
                )
                &&& post.reg_cpsr == with_flags(
                    pre.reg_cpsr,
                    sign_bit(res),
                    res == 0u32,
                    alu_carry(op, a, b, flag_c(pre.reg_cpsr)),
                    alu_overflow(op, a, b, flag_c(pre.reg_cpsr), flag_v(pre.reg_cpsr)),
                )
                &&& post.cycle_count == pre.cycle_count + 1
            }))
}

/// The full effect of `thumb_mov_cmp_add_sub_imm` as a relation over machine states.
pub open spec fn thumb_mov_cmp_add_sub_imm_rel(pre: CPU, post: CPU, opcode: u16) -> bool {
    &&& (post.wf())
    &&& (post.spec_mode() == pre.spec_mode())
    &&& (pure_op_frame(pre, post))
    &&& (({
                let off = (opcode & 0xFFu16) as u32;
                let rd = ((opcode >> 8u16) & 0x7u16) as u8;
                let sop = (opcode >> 11u16) & 0x3u16;
                let op = if sop == 0 {
                    ALU_MOV
                } else if sop == 1 {
                    ALU_CMP
                } else if sop == 2 {
                    ALU_ADD
                } else {
                    ALU_SUB
                };
                let a = if sop == 0 {
                    0u32
                } else {
                    spec_reg(pre, rd)
                };
                let res = alu_result(op, a, off, flag_c(pre.reg_cpsr));
                &&& post.registers@ == (if sop != 1 {
                    pre.registers@.update(rd as int, res).update(
                        15,
                        (pre.spec_pc() + 2) as u32,
                    )
                } else {
                    pre.registers@.update(15, (pre.spec_pc() + 2) as u32)
                })
                &&& post.reg_cpsr == with_flags(
                    pre.reg_cpsr,
                    sign_bit(res),
                    res == 0u32,
                    alu_carry(op, a, off, flag_c(pre.reg_cpsr)),
                    alu_overflow(op, a, off, flag_c(pre.reg_cpsr), flag_v(pre.reg_cpsr)),
                )
                &&& post.cycle_count == pre.cycle_count + 1
            }))
}

/// The full effect of `thumb_alu` as a relation over machine states.
pub open spec fn thumb_alu_rel(pre: CPU, post: CPU, opcode: u16) -> bool {
    &&& (post.wf())
    &&& (post.spec_mode() == pre.spec_mode())
    &&& (pure_op_frame(pre, post))
    &&& (({
                let rd = (opcode & 0x7u16) as u8;
                let rs = ((opcode >> 3u16) & 0x7u16) as u8;
                let op = ((opcode >> 6u16) & 0xFu16) as u8;
                let res = f4_res(pre, op, rd, rs);
                let cv = f4_flags(pre, op, rd, rs);
                &&& post.registers@ == (if f4_writes(op) {
                    pre.registers@.update(rd as int, res).update(
                        15,
                        (pre.spec_pc() + 2) as u32,
                    )
                } else {
                    pre.registers@.update(15, (pre.spec_pc() + 2) as u32)
                })
                &&& post.reg_cpsr == with_flags(
                    pre.reg_cpsr,
                    sign_bit(res),
                    res == 0u32,
                    cv.0,
                    cv.1,
                )
                &&& post.cycle_count == pre.cycle_count + 1
            }))
}

/// The full effect of `thumb_hi_register_op_bx` as a relation over machine states.
pub open spec fn thumb_hi_register_op_bx_rel(pre: CPU, post: CPU, opcode: u16) -> bool {
    &&& (post.wf())
    &&& (post.spec_mode() == pre.spec_mode())
    &&& (dev_frame(pre, post))
    &&& (({
                let rd = (((opcode & 0x7u16) as u8) + (if (opcode & 0x80u16) != 0u16 {
                    8u8
                } else {
                    0u8
                })) as u8;
                let rs = ((((opcode >> 3u16) & 0x7u16) as u8) + (if (opcode & 0x40u16) != 0u16 {
                    8u8
                } else {
                    0u8
                })) as u8;
                let sop = (opcode >> 8u16) & 0x3u16;
                let rs_val = if rs == 15 {
                    ((reg_read(pre, 15) + 4) as u32 & 0xFFFFFFFEu32) as u32
                } else {
                    reg_read(pre, rs)
                };
                let rd_val = if rs == 15 {
                    ((reg_read(pre, rd) + 4) as u32 & 0xFFFFFFFEu32) as u32
                } else {
                    reg_read(pre, rd)
                };
                if sop == 0 {
                    let sum = wrap32(rd_val + rs_val);
                    &&& post.reg_cpsr == pre.reg_cpsr
                    &&& post.cycle_count == pre.cycle_count
                    &&& (rd != 15 ==> reg_write_pc_rel(
                        pre,
                        post,
                        rd,
                        sum,
                        (pre.spec_pc() + 2) as u32,
                    ))
                    &&& (rd == 15 ==> pc_only_rel(
                        pre,
                        post,
                        pc_masked(sum, cpsr_thumb(pre.reg_cpsr)),
                    ))
                } else if sop == 1 {
                    let res = alu_result(ALU_CMP, rd_val, rs_val, flag_c(pre.reg_cpsr));
                    &&& post.reg_cpsr == with_flags(
                        pre.reg_cpsr,
                        sign_bit(res),
                        res == 0u32,
                        alu_carry(ALU_CMP, rd_val, rs_val, flag_c(pre.reg_cpsr)),
                        alu_overflow(
                            ALU_CMP,
                            rd_val,
                            rs_val,
                            flag_c(pre.reg_cpsr),
                            flag_v(pre.reg_cpsr),
                        ),
                    )
                    &&& pc_only_rel(pre, post, (pre.spec_pc() + 2) as u32)
                    &&& post.cycle_count == pre.cycle_count
                } else if sop == 2 {
                    &&& post.reg_cpsr == pre.reg_cpsr
                    &&& post.cycle_count == pre.cycle_count
                    &&& (rd != 15 ==> reg_write_pc_rel(
                        pre,
                        post,
                        rd,
                        rs_val,
                        (pre.spec_pc() + 2) as u32,
                    ))
                    &&& (rd == 15 ==> pc_only_rel(
                        pre,
                        post,
                        pc_masked(rs_val, cpsr_thumb(pre.reg_cpsr)),
                    ))
                } else {
                    let to_thumb = (rs_val & 1u32) == 1u32;
                    let new_cpsr = if to_thumb {
                        (pre.reg_cpsr | 0x20u32) as u32
                    } else {
                        (pre.reg_cpsr & !0x20u32) as u32
                    };
                    &&& post.reg_cpsr == new_cpsr
                    &&& post.cycle_count == pre.cycle_count + 3
                    &&& pc_only_rel(
                        pre,
                        post,
                        pc_masked(
                            if to_thumb {
                                (rs_val & 0xFFFFFFFEu32) as u32
                            } else {
                                rs_val
                            },
                            to_thumb,
                        ),
                    )
                }
            }))
}

/// The full effect of `thumb_pc_relative_load` as a relation over machine states.
pub open spec fn thumb_pc_relative_load_rel(pre: CPU, post: CPU, opcode: u16) -> bool {
    &&& (post.wf())
    &&& (mem_eq(pre, post))
    &&& (io_eq(pre, post))
    &&& (post.panicked == pre.panicked)
    &&& (post.halt == pre.halt)
    &&& (psr_eq(pre, post))
    &&& (({
                let rd = ((opcode >> 8u16) & 0x7u16) as u8;
                let addr = (wrap32(
                    pre.spec_pc() + 4 + (((opcode & 0xFFu16) as u32) << 2u32),
                ) & 0xFFFFFFFDu32) as u32;
                let val = spec_read_u32(pre, mask_addr(addr));
                &&& post.mem_ptr == mask_addr(addr)
                &&& reg_write_pc_rel(
                    pre,
                    post,
                    rd,
                    val,
                    (pre.spec_pc() + 2) as u32,
                )
                &&& post.cycle_count == pre.cycle_count + 3
            }))
}

/// The full effect of `thumb_load_store_register_offset` as a relation over machine states.
pub open spec fn thumb_load_store_register_offset_rel(pre: CPU, post: CPU, opcode: u16) -> bool {
    &&& (post.wf())
    &&& (psr_eq(pre, post))
    &&& (post.halt == pre.halt)
    &&& (({
                let rd = (opcode & 0x7u16) as u8;
                let rb = ((opcode >> 3u16) & 0x7u16) as u8;
                let ro = ((opcode >> 6u16) & 0x7u16) as u8;
                let ptr = wrap32(spec_reg(pre, rb) + spec_reg(pre, ro));
                let byte = (opcode & 0x400u16) != 0u16;
                let load = (opcode & 0x800u16) != 0u16;
                &&& (load ==> {
                    &&& mem_eq(pre, post)
                    &&& io_eq(pre, post)
                    &&& post.panicked == pre.panicked
                    &&& post.mem_ptr == mask_addr(ptr)
                    &&& reg_write_pc_rel(
                        pre,
                        post,
                        rd,
                        if byte {
                            spec_read_u8(pre, mask_addr(ptr)) as u32
                        } else {
                            spec_read_u32(pre, mask_addr(ptr))
                        },
                        (pre.spec_pc() + 2) as u32,
                    )
                    &&& post.cycle_count == pre.cycle_count + 3
                })
                &&& (!load ==> {
                    &&& (byte ==> write8_mem_rel(
                        pre,
                        post,
                        true,
                        ptr,
                        (spec_reg(pre, rd) & 0xFFu32) as u8,
                    ))
                    &&& (!byte ==> write32_mem_rel(
                        pre,
                        post,
                        true,
                        ptr,
                        spec_reg(pre, rd),
                    ))
                    &&& pc_only_rel(pre, post, (pre.spec_pc() + 2) as u32)
                    &&& post.cycle_count == pre.cycle_count + 2
                })
            }))
}

/// The full effect of `thumb_load_store_sign_extended_byte_halfword` as a relation over machine states.
pub open spec fn thumb_load_store_sign_extended_byte_halfword_rel(pre: CPU, post: CPU, opcode: u16) -> bool {
    &&& (post.wf())
    &&& (psr_eq(pre, post))
    &&& (post.halt == pre.halt)
    &&& (({
                let rd = (opcode & 0x7u16) as u8;
                let rb = ((opcode >> 3u16) & 0x7u16) as u8;
                let ro = ((opcode >> 6u16) & 0x7u16) as u8;
                let sx = (opcode & 0x400u16) != 0u16;
                let hf = (opcode & 0x800u16) != 0u16;
                let addr = (spec_reg(pre, rb) + spec_reg(pre, ro)) as u32;
                if !sx && !hf {
                    let merged = ((spec_read_u32(pre, mask_addr(addr)) & 0xFFFF0000u32) | (
                    spec_reg(pre, rd) & 0xFFFFu32)) as u32;
                    &&& write32_mem_rel(pre, post, true, addr, merged)
                    &&& pc_only_rel(pre, post, (pre.spec_pc() + 2) as u32)
                    &&& post.cycle_count == pre.cycle_count + 2
                } else {
                    let val = if !sx {
                        spec_read_u16(pre, mask_addr(addr)) as u32
                    } else if !hf {
                        let b = (spec_read_u32(pre, mask_addr(addr)) & 0xFFu32) as u32;
                        if (b & 0x80u32) != 0u32 {
                            (b | 0xFFFFFF00u32) as u32
                        } else {
                            b
                        }
                    } else {
                        let h = (spec_read_u32(pre, mask_addr(addr)) & 0xFFFFu32) as u32;
                        if (h & 0x8000u32) != 0u32 {
                            (h | 0xFFFF0000u32) as u32
                        } else {
                            h
                        }
                    };
                    &&& mem_eq(pre, post)
                    &&& io_eq(pre, post)
                    &&& post.panicked == pre.panicked
                    &&& post.mem_ptr == mask_addr(addr)
                    &&& reg_write_pc_rel(
                        pre,
                        post,
                        rd,
                        val,
                        (pre.spec_pc() + 2) as u32,
                    )
                    &&& post.cycle_count == pre.cycle_count + 3
                }
            }))
}

/// The full effect of `thumb_load_store_immediate` as a relation over machine states.
pub open spec fn thumb_load_store_immediate_rel(pre: CPU, post: CPU, opcode: u16) -> bool {
    &&& (post.wf())
    &&& (psr_eq(pre, post))
    &&& (post.halt == pre.halt)
    &&& (({
                let rd = (opcode & 0x7u16) as u8;
                let rb = ((opcode >> 3u16) & 0x7u16) as u8;
                let byte = (opcode & 0x1000u16) != 0u16;
                let off = if byte {
                    ((opcode >> 6u16) & 0x1Fu16) as u32
                } else {
                    ((((opcode >> 6u16) & 0x1Fu16) as u32) << 2u32) as u32
                };
                let load = (opcode & 0x800u16) != 0u16;
                let t = ldrstr_target(pre, rb, off, true, true);
                &&& (load ==> {
                    &&& mem_eq(pre, post)
                    &&& io_eq(pre, post)
                    &&& post.panicked == pre.panicked
                    &&& post.mem_ptr == mask_addr(t)
                    &&& reg_write_pc_rel(
                        pre,
                        post,
                        rd,
                        ldrstr_loaded(pre, t, byte),
                        (pre.spec_pc() + 2) as u32,
                    )
                    &&& post.cycle_count == pre.cycle_count + 3
                })
                &&& (!load ==> {
                    &&& (byte ==> write8_mem_rel(
                        pre,
                        post,
                        true,
                        t,
                        (spec_reg(pre, rd) & 0xFFu32) as u8,
                    ))
                    &&& (!byte ==> write32_mem_rel(
                        pre,
                        post,
                        true,
                        t,
                        spec_reg(pre, rd),
                    ))
                    &&& pc_only_rel(pre, post, (pre.spec_pc() + 2) as u32)
                    &&& post.cycle_count == pre.cycle_count + 2
                })
            }))
}

/// The full effect of `thumb_load_store_halfword` as a relation over machine states.
pub open spec fn thumb_load_store_halfword_rel(pre: CPU, post: CPU, opcode: u16) -> bool {
    &&& (post.wf())
    &&& (psr_eq(pre, post))
    &&& (post.halt == pre.halt)
    &&& (({
                let rd = (opcode & 0x7u16) as u8;
                let rb = ((opcode >> 3u16) & 0x7u16) as u8;
                let off = ((((opcode >> 6u16) & 0x1Fu16) as u32) << 1u32) as u32;
                let addr = wrap32(spec_reg(pre, rb) + off);
                let load = (opcode & 0x800u16) != 0u16;
                let word = spec_read_u32(pre, mask_addr(addr));
                &&& (load ==> {
                    &&& mem_eq(pre, post)
                    &&& io_eq(pre, post)
                    &&& post.panicked == pre.panicked
                    &&& post.mem_ptr == mask_addr(addr)
                    &&& reg_write_pc_rel(
                        pre,
                        post,
                        rd,
                        (word & 0xFFFFu32) as u32,
                        (pre.spec_pc() + 2) as u32,
                    )
                    &&& post.cycle_count == pre.cycle_count + 3
                })
                &&& (!load ==> {
                    &&& write32_mem_rel(
                        pre,
                        post,
                        true,
                        addr,
                        ((word & 0xFFFF0000u32) | (spec_reg(pre, rd) & 0xFFFFu32)) as u32,
                    )
                    &&& pc_only_rel(pre, post, (pre.spec_pc() + 2) as u32)
                    &&& post.cycle_count == pre.cycle_count + 2
                })
            }))
}

/// The full effect of `thumb_sp_relative_load_store` as a relation over machine states.
pub open spec fn thumb_sp_relative_load_store_rel(pre: CPU, post: CPU, opcode: u16) -> bool {
    &&& (post.wf())
    &&& (psr_eq(pre, post))
    &&& (post.halt == pre.halt)
    &&& (({
                let rd = ((opcode >> 8u16) & 0x7u16) as u8;
                let imm = (((opcode & 0xFFu16) as u32) << 2u32) as u32;
                let load = (opcode & 0x800u16) != 0u16;
                let t = ldrstr_target(pre, 13, imm, true, true);
                &&& (load ==> {
                    &&& mem_eq(pre, post)
                    &&& io_eq(pre, post)
                    &&& post.panicked == pre.panicked
                    &&& post.mem_ptr == mask_addr(t)
                    &&& reg_write_pc_rel(
                        pre,
                        post,
                        rd,
                        ldrstr_loaded(pre, t, false),
                        (pre.spec_pc() + 2) as u32,
                    )
                    &&& post.cycle_count == pre.cycle_count + 3
                })
                &&& (!load ==> {
                    &&& write32_mem_rel(pre, post, true, t, spec_reg(pre, rd))
                    &&& pc_only_rel(pre, post, (pre.spec_pc() + 2) as u32)
                    &&& post.cycle_count == pre.cycle_count + 2
                })
            }))
}

/// The full effect of `thumb_load_address` as a relation over machine states.
pub open spec fn thumb_load_address_rel(pre: CPU, post: CPU, opcode: u16) -> bool {
    &&& (post.wf())
    &&& (pure_op_frame(pre, post))
    &&& (post.reg_cpsr == pre.reg_cpsr)
    &&& (({
                let imm = (((opcode & 0xFFu16) as u32) << 2u32) as u32;
                let rd = ((opcode >> 8u16) & 0x7u16) as u8;
                let base = if (opcode & 0x0800u16) != 0u16 {
                    spec_reg(pre, 13)
                } else {
                    (((pre.spec_pc() + 4) as u32) & 0xFFFFFFFDu32) as u32
                };
                let val = wrap32(base + imm);
                &&& post.registers@ == pre.registers@.update(rd as int, val).update(
                    15,
                    (pre.spec_pc() + 2) as u32,
                )
                &&& post.cycle_count == pre.cycle_count + 1
            }))
}

/// The full effect of `thumb_offset_to_sp` as a relation over machine states.
pub open spec fn thumb_offset_to_sp_rel(pre: CPU, post: CPU, opcode: u16) -> bool {
    &&& (post.wf())
    &&& (dev_frame(pre, post))
    &&& (post.reg_cpsr == pre.reg_cpsr)
    &&& (({
                let imm = (((opcode & 0x7Fu16) as u32) << 2u32) as u32;
                let res = if (opcode & 0x80u16) != 0u16 {
                    wrap32(spec_reg(pre, 13) - imm)
                } else {
                    wrap32(spec_reg(pre, 13) + imm)
                };
                &&& reg_write_pc_rel(
                    pre,
                    post,
                    13,
                    res,
                    (pre.spec_pc() + 2) as u32,
                )
                &&& post.cycle_count == pre.cycle_count + 1
            }))
}

/// The full effect of `thumb_push_pop` as a relation over machine states.
pub open spec fn thumb_push_pop_rel(pre: CPU, post: CPU, opcode: u16) -> bool {
    &&& (post.wf())
    &&& (psr_eq(pre, post))
    &&& (post.halt == pre.halt)
    &&& (({
                let load = (opcode & 0x0800u16) != 0u16;
                let pclr = (opcode & 0x0100u16) != 0u16;
                let list = f14_list(opcode);
                let base = spec_reg(pre, 13);
                let n = rlist_count(list, 16);
                let first = mask_addr(ldm_start(base, n, load, !load) as u32);
                let m = cpsr_mode(pre.reg_cpsr);
                let rb_final = ldm_final_rb(base, n, load) as u32;
                &&& post.cycle_count == pre.cycle_count + (if load {
                    2int
                } else {
                    1int
                }) + n + (if load && bit16(list, 15) {
                    2int
                } else {
                    0int
                })
                &&& (!load ==> {
                    &&& ldm_mem_frame(pre, post, first as int, n)
                    &&& forall|i: int|
                        0 <= i < 16 && bit16(list, i) ==> spec_read_u32(
                            post,
                            (first + 4 * rlist_count(list, i)) as u32,
                        ) == reg_read(pre, i as u8)
                    &&& reg_write_pc_rel(
                        pre,
                        post,
                        13,
                        rb_final,
                        (pre.spec_pc() + 2) as u32,
                    )
                })
                &&& (load ==> {
                    &&& mem_eq(pre, post)
                    &&& io_eq(pre, post)
                    &&& post.panicked == pre.panicked
                    &&& post.mem_ptr == pre.mem_ptr
                    &&& slot_val(post, slot_id(m, 13)) == rb_final
                    &&& forall|i: int|
                        0 <= i < 16 && bit16(list, i) && slot_id(m, i as u8) != slot_id(m, 13)
                            && i != 15 ==> slot_val(post, slot_id(m, i as u8))
                            == spec_read_u32(pre, (first + 4 * rlist_count(list, i)) as u32)
                    &&& (pclr ==> post.registers@[15] == pc_masked(
                        spec_read_u32(pre, (first + 4 * rlist_count(list, 15)) as u32),
                        cpsr_thumb(pre.reg_cpsr),
                    ))
                    &&& (!pclr ==> post.registers@[15] == (pre.spec_pc() + 2) as u32)
                    &&& forall|j: int|
                        0 <= j < 31 && j != 15 && !ldm_slot_touched_below(m, list, 16, true, 13, j)
                            ==> #[trigger] slot_val(post, j) == slot_val(pre, j)
                })
            }))
}

/// The full effect of `thumb_multiple_load_store` as a relation over machine states.
pub open spec fn thumb_multiple_load_store_rel(pre: CPU, post: CPU, opcode: u16) -> bool {
    &&& (post.wf())
    &&& (psr_eq(pre, post))
    &&& (post.halt == pre.halt)
    &&& (({
                let rb = ((opcode >> 8u16) & 0x7u16) as u8;
                let list = (opcode & 0xFFu16) as u16;
                let load = (opcode & 0x0800u16) != 0u16;
                let base = spec_reg(pre, rb);
                let n = rlist_count(list, 16);
                let first = mask_addr(ldm_start(base, n, true, false) as u32);
                let m = cpsr_mode(pre.reg_cpsr);
                let rb_final = ldm_final_rb(base, n, true) as u32;
                &&& post.cycle_count == pre.cycle_count + (if load {
                    2int
                } else {
                    1int
                }) + n
                &&& (!load ==> {
                    &&& ldm_mem_frame(pre, post, first as int, n)
                    &&& forall|i: int|
                        0 <= i < 16 && bit16(list, i) ==> spec_read_u32(
                            post,
                            (first + 4 * rlist_count(list, i)) as u32,
                        ) == reg_read(pre, i as u8)
                    &&& reg_write_pc_rel(
                        pre,
                        post,
                        rb,
                        rb_final,
                        (pre.spec_pc() + 2) as u32,
                    )
                })
                &&& (load ==> {
                    &&& mem_eq(pre, post)
                    &&& io_eq(pre, post)
                    &&& post.panicked == pre.panicked
                    &&& post.mem_ptr == pre.mem_ptr
                    &&& slot_val(post, slot_id(m, rb)) == rb_final
                    &&& forall|i: int|
                        0 <= i < 16 && bit16(list, i) && slot_id(m, i as u8) != slot_id(m, rb)
                            && i != 15 ==> slot_val(post, slot_id(m, i as u8))
                            == spec_read_u32(pre, (first + 4 * rlist_count(list, i)) as u32)
                    &&& post.registers@[15] == (pre.spec_pc() + 2) as u32
                    &&& forall|j: int|
                        0 <= j < 31 && j != 15 && !ldm_slot_touched_below(m, list, 16, true, rb, j)
                            ==> #[trigger] slot_val(post, j) == slot_val(pre, j)
                })
            }))
}

/// The full effect of `thumb_conditional_branch` as a relation over machine states.
pub open spec fn thumb_conditional_branch_rel(pre: CPU, post: CPU, opcode: u16) -> bool {
    &&& (post.wf())
    &&& (post.spec_mode() == pre.spec_mode())
    &&& (mem_eq(pre, post))
    &&& (io_eq(pre, post))
    &&& (post.halt == pre.halt)
    &&& (post.mem_ptr == pre.mem_ptr)
    &&& (post.reg_cpsr == pre.reg_cpsr)
    &&& (post.regs_spsr == pre.regs_spsr)
    &&& (post.regs_fiq == pre.regs_fiq)
    &&& (post.regs_svc == pre.regs_svc)
    &&& (post.regs_abt == pre.regs_abt)
    &&& (post.regs_irq == pre.regs_irq)
    &&& (post.regs_und == pre.regs_und)
    &&& (({
                let cond = ((opcode >> 8u16) & 0xFu16) as u8;
                let off = ((opcode & 0xFFu16) as u32) << 1u32;
                let ext = if (opcode & 0x80u16) != 0u16 {
                    (off | 0xFFFFFE00u32) as u32
                } else {
                    off as u32
                };
                let target = wrap32(wrap32(pre.spec_pc() + 4) + ext);
                &&& post.panicked == (pre.panicked || cond > 0xE)
                &&& (spec_cond(cond, pre.reg_cpsr) ==> post.registers@
                    == pre.registers@.update(
                    15,
                    pc_masked(target, cpsr_thumb(pre.reg_cpsr)),
                ) && post.cycle_count == pre.cycle_count + 3)
                &&& (!spec_cond(cond, pre.reg_cpsr) ==> post.registers@
                    == pre.registers@.update(15, (pre.spec_pc() + 2) as u32)
                    && post.cycle_count == pre.cycle_count + 1)
            }))
}

/// The full effect of `thumb_swi` as a relation over machine states.
pub open spec fn thumb_swi_rel(pre: CPU, post: CPU, opcode: u16) -> bool {
    &&& (post.wf())
    &&& (post.cycle_count == pre.cycle_count + 3)
    &&& (post.reg_cpsr == pre.reg_cpsr)
    &&& (post.registers@[15] == (pre.spec_pc() + 2) as u32)
    &&& (({
                let sc = (opcode & 0xFFu16) as u8;
                &&& (sc == 0x01 ==> crate::syscall::ram_reset_mem_rel(pre, post)
                    && forall|j: int|
                    0 <= j < 31 && j != 15 ==> #[trigger] slot_val(post, j) == slot_val(
                        pre,
                        j,
                    ))
                &&& (sc == 0x0B ==> crate::syscall::cpu_set_words_rel(pre, post)
                    && post.halt == pre.halt)
                &&& (sc == 0x0C ==> crate::syscall::fast_set_words_rel(pre, post)
                    && post.halt == pre.halt)
                &&& (sc == 0x02 ==> post.halt && mem_eq(pre, post) && forall|
                    j: int,
                |
                    0 <= j < 31 && j != 15 ==> #[trigger] slot_val(post, j) == slot_val(
                        pre,
                        j,
                    ))
                &&& (sc == 0x04 ==> post.halt && post.io_ime == (pre.io_ime
                    | 0x1u8) as u8 && post.io_bios_if == (spec_reg(pre, 1)
                    & 0xFFFFu32) as u16 && mem_eq(pre, post))
                &&& (sc == 0x05 ==> post.halt && post.io_ime == (pre.io_ime
                    | 0x1u8) as u8 && post.io_bios_if == 1u16 && mem_eq(
                    pre,
                    post,
                ) && slot_val(post, slot_id(pre.spec_mode(), 0)) == 1u32 && slot_val(
                    post,
                    slot_id(pre.spec_mode(), 1),
                ) == 1u32)
                &&& (sc == 0x06 ==> {
                    let q = crate::syscall::sdiv_q(
                        crate::syscall::s32(spec_reg(pre, 0)),
                        crate::syscall::s32(spec_reg(pre, 1)),
                    );
                    let r = crate::syscall::sdiv_r(
                        crate::syscall::s32(spec_reg(pre, 0)),
                        crate::syscall::s32(spec_reg(pre, 1)),
                    );
                    &&& slot_val(post, slot_id(pre.spec_mode(), 0))
                        == crate::syscall::u32_of_s32(q)
                    &&& slot_val(post, slot_id(pre.spec_mode(), 1))
                        == crate::syscall::u32_of_s32(r)
                    &&& slot_val(post, slot_id(pre.spec_mode(), 2))
                        == crate::syscall::abs_int(q)
                    &&& mem_eq(pre, post)
                })
                &&& (sc == 0x07 ==> {
                    let q = crate::syscall::sdiv_q(
                        crate::syscall::s32(spec_reg(pre, 1)),
                        crate::syscall::s32(spec_reg(pre, 0)),
                    );
                    let r = crate::syscall::sdiv_r(
                        crate::syscall::s32(spec_reg(pre, 1)),
                        crate::syscall::s32(spec_reg(pre, 0)),
                    );
                    &&& slot_val(post, slot_id(pre.spec_mode(), 0))
                        == crate::syscall::u32_of_s32(q)
                    &&& slot_val(post, slot_id(pre.spec_mode(), 1))
                        == crate::syscall::u32_of_s32(r)
                    &&& slot_val(post, slot_id(pre.spec_mode(), 2))
                        == crate::syscall::abs_int(q)
                    &&& mem_eq(pre, post)
                })
            }))
}

/// The full effect of `thumb_unconditional_branch` as a relation over machine states.
pub open spec fn thumb_unconditional_branch_rel(pre: CPU, post: CPU, opcode: u16) -> bool {
    &&& (post.wf())
    &&& (pure_op_frame(pre, post))
    &&& (post.reg_cpsr == pre.reg_cpsr)
    &&& (({
                let off = (((opcode & 0x7FFu16) as u32) << 1u32) as u32;
                let ext = if (off & 0x800u32) != 0u32 {
                    (0xFFFFF000u32 | off) as u32
                } else {
                    off
                };
                let target = wrap32(wrap32(pre.spec_pc() + ext) + 4);
                &&& post.registers@ == pre.registers@.update(
                    15,
                    pc_masked(target, cpsr_thumb(pre.reg_cpsr)),
                )
                &&& post.cycle_count == pre.cycle_count + 3
            }))
}

/// The full effect of `thumb_long_branch_link` as a relation over machine states.
pub open spec fn thumb_long_branch_link_rel(pre: CPU, post: CPU, opcode: u16) -> bool {
    &&& (post.wf())
    &&& (dev_frame(pre, post))
    &&& (post.reg_cpsr == pre.reg_cpsr)
    &&& (({
                let off = (opcode & 0x7FFu16) as u32;
                let h = (opcode & 0x0800u16) != 0u16;
                if !h {
                    let ext = if (off & 0x400u32) != 0u32 {
                        (0xFF800000u32 | (off << 12u32)) as u32
                    } else {
                        (off << 12u32) as u32
                    };
                    let lr = wrap32(wrap32(pre.spec_pc() + 4) + ext);
                    &&& reg_write_pc_rel(
                        pre,
                        post,
                        14,
                        lr,
                        (pre.spec_pc() + 2) as u32,
                    )
                    &&& post.cycle_count == pre.cycle_count + 1
                } else {
                    let next = (pre.spec_pc() + 2) as u32;
                    let target = wrap32(spec_reg(pre, 14) + (off << 1u32));
                    &&& reg_write_pc_rel(
                        pre,
                        post,
                        14,
                        (next | 1u32) as u32,
                        pc_masked(target, cpsr_thumb(pre.reg_cpsr)),
                    )
                    &&& post.cycle_count == pre.cycle_count + 3
                }
            }))
}

impl CPU {
    /// Compact format 14: push onto or pop from the stack.  A push stores
    /// the listed low registers (and optionally the link register) below the
    /// stack pointer; a pop reloads them (optionally into the program
    /// counter, branching) and moves the pointer back up.
    pub fn thumb_push_pop(&mut self, opcode: u16)
        requires
            old(self).wf(),
            old(self).spec_pc() + 2 <= u32::MAX,
            old(self).cycle_count + 26 <= usize::MAX,
            ({
                let load = (opcode & 0x0800u16) != 0u16;
                ldm_stm_ok(*old(self), 13, f14_list(opcode), load, load, !load, false)
            }),
        ensures
            thumb_push_pop_rel(*old(self), *final(self), opcode),
    {
        let load = (opcode & 0x0800) != 0;
        let store_lr = (opcode & 0x0100) != 0;
        let base_list = (opcode & 0xFF) as u16;

        let r_list: u16 = if store_lr {
            if load {
                base_list | 0x8000
            } else {
                base_list | 0x4000
            }
        } else {
            base_list
        };

        let ghost s0 = *self;
        if load {
            // Pop: an increment-after load with writeback.
            self.operation_ldm_stm(13, r_list, true, true, false, true, false);
        } else {
            // Push: a decrement-before store with writeback.
            self.operation_ldm_stm(13, r_list, false, true, true, false, false);
        }
        let ghost s1 = *self;

        if load && store_lr {
            // The pop rewrote the program counter; no step.
            proof {
                let lst = f14_list(opcode);
                assert(((lst >> 15u16) & 1u16) == 1u16) by (bit_vector)
                    requires
                        lst == ((opcode & 0xFFu16) | 0x8000u16),
                ;
                assert(bit16(lst, 15));
                assert(slot_val(s1, slot_id(cpsr_mode(s0.reg_cpsr), 13)) == ldm_final_rb(
                    reg_read(s0, 13),
                    rlist_count(f14_list(opcode), 16),
                    true,
                ) as u32);
            }
        } else {
            proof {
                if load {
                    let lst = f14_list(opcode);
                    assert(((lst >> 15u16) & 1u16) != 1u16) by (bit_vector)
                        requires
                            lst == (opcode & 0xFFu16),
                    ;
                    assert(!bit16(lst, 15));
                }
                assert(slot_val(s1, 15) == slot_val(s0, 15));
            }
            self.step_program_counter(2);
            proof {
                assert(forall|j: int|
                    0 <= j < 31 && j != 15 ==> #[trigger] slot_val(*self, j) == slot_val(s1, j));
                assert forall|b: u32| ram32_ok(b) implies #[trigger] spec_read_u32(*self, b)
                    == spec_read_u32(s1, b) by {}
            }
        }
    }

    /// Compact format 15: multiple load or store, increment-after with
    /// writeback, over a list of low registers.
    pub fn thumb_multiple_load_store(&mut self, opcode: u16)
        requires
            old(self).wf(),
            old(self).spec_pc() + 2 <= u32::MAX,
            old(self).cycle_count + 26 <= usize::MAX,
            ({
                let rb = ((opcode >> 8u16) & 0x7u16) as u8;
                let list = (opcode & 0xFFu16) as u16;
                let load = (opcode & 0x0800u16) != 0u16;
                ldm_stm_ok(*old(self), rb, list, load, true, false, false)
            }),
        ensures
            thumb_multiple_load_store_rel(*old(self), *final(self), opcode),
    {
        let r_list = (opcode & 0xFF) as u16;
        let r_base = ((opcode >> 8) & 0x7) as u8;
        let load = (opcode & 0x0800) != 0;

        let ghost s0 = *self;
        self.operation_ldm_stm(r_base, r_list, load, true, false, true, false);
        let ghost s1 = *self;

        proof {
            if load {
                let list16 = (opcode & 0xFFu16) as u16;
                assert(((list16 >> 15u16) & 1u16) != 1u16) by (bit_vector)
                    requires
                        list16 == (opcode & 0xFFu16),
                ;
                assert(!bit16(list16, 15));
            }
            assert(slot_val(s1, 15) == slot_val(s0, 15));
        }
        self.step_program_counter(2);
        proof {
            assert(forall|j: int|
                0 <= j < 31 && j != 15 ==> #[trigger] slot_val(*self, j) == slot_val(s1, j));
            assert forall|b: u32| ram32_ok(b) implies #[trigger] spec_read_u32(*self, b)
                == spec_read_u32(s1, b) by {}
        }
    }

    /// Compact format 17: software interrupt into the firmware service
    /// table.
    pub fn thumb_swi(&mut self, opcode: u16)
        requires
            old(self).wf(),
            valid_mode(old(self).spec_mode()),
            old(self).spec_pc() + 2 <= u32::MAX,
            old(self).cycle_count + 4 <= usize::MAX,
            ({
                let sc = (opcode & 0xFFu16) as u8;
                &&& sc == 0x01 || sc == 0x02 || sc == 0x04 || sc == 0x05 || sc == 0x06 || sc
                    == 0x07 || sc == 0x0B || sc == 0x0C
                &&& (sc == 0x0B ==> crate::syscall::cpu_set_ok(*old(self)))
                &&& (sc == 0x04 ==> (spec_reg(*old(self), 0) & 1u32) == 1u32)
                &&& (sc == 0x06 ==> div_ok(*old(self), spec_reg(*old(self), 0), spec_reg(*old(self), 1)))
                &&& (sc == 0x07 ==> div_ok(*old(self), spec_reg(*old(self), 1), spec_reg(*old(self), 0)))
                &&& (sc == 0x0C ==> {
                    let len_mode = spec_reg(*old(self), 2);
                    &&& (len_mode & 0x01000000u32) != 0
                    &&& (len_mode & 0x1FFFFFu32) % 8 == 0
                    &&& crate::mem::read_u32_ok(*old(self), true, spec_reg(*old(self), 0))
                    &&& crate::syscall::memfill_ok(
                        *old(self),
                        spec_reg(*old(self), 1),
                        (len_mode & 0x1FFFFFu32) as u32,
                    )
                })
            }),
        ensures
            thumb_swi_rel(*old(self), *final(self), opcode),
    {
        let syscall = (opcode & 0xFF) as u8;

        self.operation_swi(syscall);
        let ghost s1 = *self;
        proof {
            assert(slot_val(s1, 15) == slot_val(*old(self), 15));
        }
        self.step_program_counter(2);
        proof {
            assert(forall|j: int|
                0 <= j < 31 && j != 15 ==> #[trigger] slot_val(*self, j) == slot_val(s1, j));
        }
    }

    /// Compact format 5: add, compare or move over the full register range,
    /// and branch-and-exchange.  The comparison's flag update goes through
    /// the sign flag alone; the exchange adopts the encoding selected by the
    /// target's low bit.
    pub fn thumb_hi_register_op_bx(&mut self, opcode: u16)
        requires
            old(self).wf(),
            valid_mode(old(self).spec_mode()),
            old(self).spec_pc() + 8 <= u32::MAX,
            old(self).cycle_count + 4 <= usize::MAX,
            ((opcode >> 3u16) & 0x7u16) == 7 && (opcode & 0x40u16) != 0u16 ==> spec_reg(
                *old(self),
                (((opcode & 0x7u16) as u8) + (if (opcode & 0x80u16) != 0u16 {
                    8u8
                } else {
                    0u8
                })) as u8,
            ) + 4 <= u32::MAX || (opcode & 0x7u16) == 7 && (opcode & 0x80u16) != 0u16,
        ensures
            thumb_hi_register_op_bx_rel(*old(self), *final(self), opcode),
    {
        let rd_low = (opcode & 0x7) as u8;
        let rs_low = ((opcode >> 3) & 0x7) as u8;
        let h2 = (opcode & 0x40) != 0;
        let h1 = (opcode & 0x80) != 0;
        let sop = (opcode >> 8) & 0x3;

        let rd = if h1 {
            rd_low + 8
        } else {
            rd_low
        };
        let rs = if h2 {
            rs_low + 8
        } else {
            rs_low
        };

        let rs_val = if rs == 15 {
            (self.read_register(15) + 4) & 0xFFFFFFFE
        } else {
            self.read_register(rs)
        };

        let rd_val = if rs == 15 {
            (self.read_register(rd) + 4) & 0xFFFFFFFE
        } else {
            self.read_register(rd)
        };

        if sop == 0 {
            let ghost s0 = *self;
            self.write_register(rd, rd_val.wrapping_add(rs_val));
            proof {
                lemma_register_round_trip(s0, *self, rd, rd_val.wrapping_add(rs_val));
            }
            if rd != 15 {
                self.step_program_counter(2);
            }
        } else if sop == 1 {
            let (_, n, z, c, v) = self.alu(ALU_CMP, rd_val, rs_val);
            let ghost s0 = *self;
            self.set_flag_n(n);
            self.set_flag_z(z);
            self.set_flag_c(c);
            self.set_flag_v(v);
            proof {
                lemma_set_nzcv(s0.reg_cpsr, n, z, c, v);
            }
            self.step_program_counter(2);
        } else if sop == 2 {
            let ghost s0 = *self;
            self.write_register(rd, rs_val);
            proof {
                lemma_register_round_trip(s0, *self, rd, rs_val);
            }
            if rd != 15 {
                self.step_program_counter(2);
            }
        } else {
            let thumb = (rs_val & 0x1) == 0x1;

            self.set_thumb(thumb);
            if thumb {
                self.set_program_counter(rs_val & 0xFFFFFFFE);
            } else {
                self.set_program_counter(rs_val);
            }

            self.cycle_count = self.cycle_count + 3;
        }
    }

    /// Compact format 2: add or subtract a register or 3-bit immediate,
    /// updating all four flags.
    pub fn thumb_add_subtract(&mut self, opcode: u16)
        requires
            old(self).wf(),
            old(self).spec_pc() + 2 <= u32::MAX,
            old(self).cycle_count + 2 <= usize::MAX,
        ensures
            thumb_add_subtract_rel(*old(self), *final(self), opcode),
    {
        let rd = (opcode & 0x7) as u8;
        let rs = ((opcode >> 3) & 0x7) as u8;
        let rs_val = self.read_register(rs);
        let field = ((opcode >> 6) & 0x7) as u8;
        let sub = (opcode & 0x200) != 0;
        let imm = (opcode & 0x400) != 0;

        let operand2: u32 = if imm {
            field as u32
        } else {
            self.read_register(field)
        };
        let op: u8 = if sub {
            ALU_SUB
        } else {
            ALU_ADD
        };

        let (result, n, z, c, v) = self.alu(op, rs_val, operand2);

        let ghost s1 = *self;
        self.write_register(rd, result);
        let ghost s2 = *self;
        self.set_flag_n(n);
        self.set_flag_z(z);
        self.set_flag_c(c);
        self.set_flag_v(v);
        proof {
            lemma_set_nzcv(s2.reg_cpsr, n, z, c, v);
        }

        self.step_program_counter(2);
        self.cycle_count = self.cycle_count + 1;
    }

    /// Compact format 3: move, compare, add or subtract an 8-bit immediate,
    /// updating all four flags; the comparison does not write back.
    pub fn thumb_mov_cmp_add_sub_imm(&mut self, opcode: u16)
        requires
            old(self).wf(),
            old(self).spec_pc() + 2 <= u32::MAX,
            old(self).cycle_count + 2 <= usize::MAX,
        ensures
            thumb_mov_cmp_add_sub_imm_rel(*old(self), *final(self), opcode),
    {
        let offset = (opcode & 0xFF) as u32;
        let rd = ((opcode >> 8) & 0x7) as u8;
        let sop = (opcode >> 11) & 0x3;
        let rd_val = self.read_register(rd);

        let (result, n, z, c, v) = if sop == 0 {
            self.alu(ALU_MOV, 0, offset)
        } else if sop == 1 {
            self.alu(ALU_CMP, rd_val, offset)
        } else if sop == 2 {
            self.alu(ALU_ADD, rd_val, offset)
        } else {
            self.alu(ALU_SUB, rd_val, offset)
        };

        let ghost s1 = *self;
        self.set_flag_n(n);
        self.set_flag_z(z);
        self.set_flag_c(c);
        self.set_flag_v(v);
        proof {
            lemma_set_nzcv(s1.reg_cpsr, n, z, c, v);
        }

        if sop != 1 {
            self.write_register(rd, result);
        }

        self.step_program_counter(2);
        self.cycle_count = self.cycle_count + 1;
    }

    /// Compact format 4: the sixteen register-to-register data operations on
    /// low registers, including the register-amount shifts, negate, multiply
    /// and the three tests.
    pub fn thumb_alu(&mut self, opcode: u16)
        requires
            old(self).wf(),
            valid_mode(old(self).spec_mode()),
            old(self).spec_pc() + 2 <= u32::MAX,
            old(self).cycle_count + 4 <= usize::MAX,
        ensures
            thumb_alu_rel(*old(self), *final(self), opcode),
    {
        let rd = (opcode & 0x7) as u8;
        let rd_val = self.read_register(rd);
        let rs = ((opcode >> 3) & 0x7) as u8;
        let rs_val = self.read_register(rs);

        let op = ((opcode >> 6) & 0xF) as u8;

        let (result, n, z, c, v): (u32, bool, bool, bool, bool) = if op == 0x2 {
            let res = rd_val.wrapping_shl(rs_val);
            let carry = if rs_val == 0 {
                false
            } else if rs_val <= 32 {
                (rd_val & (1u32 << (32 - rs_val))) != 0
            } else {
                false
            };
            (res, (res & 0x80000000) != 0, res == 0, carry, rs_val >= 32)
        } else if op == 0x3 {
            let op2 = 0x0030u16 | ((rs as u16) << 8) | (rd as u16);
            let (rot_val, _) = self.alu_operand2_calc(false, op2);
            self.alu(ALU_MOV, rd_val, rot_val)
        } else if op == 0x4 {
            let op2 = 0x0050u16 | ((rs as u16) << 8) | (rd as u16);
            let (rot_val, _) = self.alu_operand2_calc(false, op2);
            self.alu(ALU_MOV, rd_val, rot_val)
        } else if op == 0x7 {
            let op2 = 0x0070u16 | ((rs as u16) << 8) | (rd as u16);
            let (rot_val, _) = self.alu_operand2_calc(false, op2);
            self.alu(ALU_MOV, rd_val, rot_val)
        } else if op == 0x9 {
            self.alu(ALU_RSB, rs_val, 0)
        } else if op == ALU_TST {
            self.alu_tst(rd_val, rs_val)
        } else if op == 0xD {
            let res = rs_val.wrapping_mul(rd_val);
            (res, (res & 0x80000000) != 0, res == 0, self.get_flag_c(), self.get_flag_v())
        } else {
            self.alu(op, rd_val, rs_val)
        };

        let ghost s1 = *self;
        self.set_flag_n(n);
        self.set_flag_z(z);
        self.set_flag_c(c);
        self.set_flag_v(v);
        proof {
            lemma_set_nzcv(s1.reg_cpsr, n, z, c, v);
        }

        if op != ALU_TST && op != ALU_CMP && op != ALU_CMN {
            self.write_register(rd, result);
        }

        self.step_program_counter(2);
        self.cycle_count = self.cycle_count + (if rd == 15 {
            3
        } else {
            1
        });
    }

    /// Compact format 12: load an address relative to the program counter
    /// (with bit 1 forced clear) or to the stack pointer.
    pub fn thumb_load_address(&mut self, opcode: u16)
        requires
            old(self).wf(),
            valid_mode(old(self).spec_mode()),
            old(self).spec_pc() + 8 <= u32::MAX,
            old(self).cycle_count + 2 <= usize::MAX,
        ensures
            thumb_load_address_rel(*old(self), *final(self), opcode),
    {
        let imm = ((opcode & 0xFF) as u32) << 2;
        let rd = ((opcode >> 8) & 0x7) as u8;
        let sp = (opcode & 0x0800) != 0;

        let base = if sp {
            self.read_register(13)
        } else {
            (self.get_program_counter() + 4) & 0xFFFFFFFD
        };
        let val = base.wrapping_add(imm);

        self.write_register(rd, val);

        self.step_program_counter(2);
        self.cycle_count = self.cycle_count + 1;
    }

    /// Compact format 13: add or subtract a 7-bit immediate (scaled by four)
    /// to the stack pointer.
    pub fn thumb_offset_to_sp(&mut self, opcode: u16)
        requires
            old(self).wf(),
            valid_mode(old(self).spec_mode()),
            old(self).spec_pc() + 2 <= u32::MAX,
            old(self).cycle_count + 2 <= usize::MAX,
        ensures
            thumb_offset_to_sp_rel(*old(self), *final(self), opcode),
    {
        let imm = ((opcode & 0x7F) as u32) << 2;
        let neg = (opcode & 0x80) != 0;

        let sp_val = self.read_register(13);

        let res = if neg {
            sp_val.wrapping_sub(imm)
        } else {
            sp_val.wrapping_add(imm)
        };

        let ghost s0 = *self;
        self.write_register(13, res);
        proof {
            lemma_register_round_trip(s0, *self, 13, res);
        }
        self.step_program_counter(2);
        self.cycle_count = self.cycle_count + 1;
    }

    /// Compact format 16: conditional branch by a signed 8-bit offset
    /// (scaled by two) from the pipeline-adjusted program counter.
    pub fn thumb_conditional_branch(&mut self, opcode: u16)
        requires
            old(self).wf(),
            old(self).spec_pc() + 4 <= u32::MAX,
            old(self).cycle_count + 4 <= usize::MAX,
        ensures
            thumb_conditional_branch_rel(*old(self), *final(self), opcode),
    {
        let offset = ((opcode & 0xFF) as u32) << 1;
        let cond = ((opcode >> 8) & 0xF) as u8;

        let ext = if (opcode & 0x80) == 0 {
            offset
        } else {
            offset | 0xFFFFFE00
        };

        let addr = self.get_program_counter().wrapping_add(4).wrapping_add(ext);

        if self.should_execute(cond) {
            self.set_program_counter(addr);
            self.cycle_count = self.cycle_count + 3;
        } else {
            self.step_program_counter(2);
            self.cycle_count = self.cycle_count + 1;
        }
    }

    /// Compact format 18: unconditional branch by a signed 11-bit offset
    /// (scaled by two) from the pipeline-adjusted program counter.
    pub fn thumb_unconditional_branch(&mut self, opcode: u16)
        requires
            old(self).wf(),
            old(self).cycle_count + 4 <= usize::MAX,
        ensures
            thumb_unconditional_branch_rel(*old(self), *final(self), opcode),
    {
        let offset = ((opcode & 0x7FF) as u32) << 1;
        let neg = (offset & 0x800) != 0;

        let extend = if neg {
            0xFFFFF000 | offset
        } else {
            offset
        };

        let target = self.get_program_counter().wrapping_add(extend).wrapping_add(4);
        self.set_program_counter(target);

        self.cycle_count = self.cycle_count + 3;
    }

    /// Compact format 19: the two-halfword long branch with link.  The first
    /// half stages the high offset in the link register; the second half
    /// branches and leaves the return address, flagged for the compact
    /// encoding, in the link register.
    pub fn thumb_long_branch_link(&mut self, opcode: u16)
        requires
            old(self).wf(),
            valid_mode(old(self).spec_mode()),
            old(self).spec_pc() + 4 <= u32::MAX,
            old(self).cycle_count + 4 <= usize::MAX,
        ensures
            thumb_long_branch_link_rel(*old(self), *final(self), opcode),
    {
        let offset = (opcode & 0x7FF) as u32;
        let h = (opcode & 0x0800) != 0;

        if !h {
            let ext = if (offset & 0x400) != 0 {
                0xFF800000 | (offset << 12)
            } else {
                offset << 12
            };
            let lr = self.get_program_counter().wrapping_add(4).wrapping_add(ext);
            let ghost s0 = *self;
            self.write_register(14, lr);
            proof {
                lemma_register_round_trip(s0, *self, 14, lr);
            }
            self.step_program_counter(2);
            self.cycle_count = self.cycle_count + 1;
        } else {
            let next = self.get_program_counter() + 2;
            let lr_val = self.read_register(14);
            self.set_program_counter(lr_val.wrapping_add(offset << 1));
            let ghost s1 = *self;
            self.write_register(14, next | 1);
            proof {
                lemma_register_round_trip(s1, *self, 14, (next | 1u32) as u32);
                assert(slot_id(cpsr_mode(old(self).reg_cpsr), 14) != 15);
            }
            self.cycle_count = self.cycle_count + 3;
        }
    }

    /// Compact format 6: program-counter-relative word load, from the
    /// pipeline-adjusted counter with bit 1 forced clear.
    pub fn thumb_pc_relative_load(&mut self, opcode: u16)
        requires
            old(self).wf(),
            old(self).spec_pc() + 8 <= u32::MAX,
            old(self).cycle_count + 4 <= usize::MAX,
            read_u32_ok(
                *old(self),
                true,
                (wrap32(old(self).spec_pc() + 4 + (((opcode & 0xFFu16) as u32) << 2u32))
                    & 0xFFFFFFFDu32) as u32,
            ),
        ensures
            thumb_pc_relative_load_rel(*old(self), *final(self), opcode),
    {
        let word = ((opcode & 0xFF) as u32) << 2;
        let rd = ((opcode >> 8) & 0x7) as u8;

        let addr = self.get_program_counter().wrapping_add(4).wrapping_add(word) & 0xFFFFFFFD;
        let val = self.read_u32(true, addr);

        let ghost s1 = *self;
        self.write_register(rd, val);
        proof {
            lemma_register_round_trip(s1, *self, rd, val);
            assert(forall|j: int| 0 <= j < 31 ==> slot_val(s1, j) == slot_val(*old(self), j));
        }

        self.step_program_counter(2);
        self.cycle_count = self.cycle_count + 3;
    }

    /// Compact format 7: load or store a word or byte at a register-plus-
    /// register address.
    pub fn thumb_load_store_register_offset(&mut self, opcode: u16)
        requires
            old(self).wf(),
            old(self).spec_pc() + 2 <= u32::MAX,
            old(self).cycle_count + 6 <= usize::MAX,
            ({
                let rb = ((opcode >> 3u16) & 0x7u16) as u8;
                let ro = ((opcode >> 6u16) & 0x7u16) as u8;
                let ptr = wrap32(spec_reg(*old(self), rb) + spec_reg(*old(self), ro));
                let byte = (opcode & 0x400u16) != 0u16;
                let load = (opcode & 0x800u16) != 0u16;
                &&& (load && byte ==> read_u8_ok(*old(self), true, ptr))
                &&& (load && !byte ==> read_u32_ok(*old(self), true, ptr))
                &&& (!load && byte ==> write_u8_ok(*old(self), true, ptr))
                &&& (!load && !byte ==> write_u32_ok(*old(self), true, ptr))
            }),
        ensures
            thumb_load_store_register_offset_rel(*old(self), *final(self), opcode),
    {
        let rd = (opcode & 0x7) as u8;
        let rb = ((opcode >> 3) & 0x7) as u8;
        let ro = ((opcode >> 6) & 0x7) as u8;

        let byte = (opcode & 0x400) != 0;
        let load = (opcode & 0x800) != 0;

        let ptr = self.read_register(rb).wrapping_add(self.read_register(ro));

        if load {
            let val = if byte {
                self.read_u8(true, ptr) as u32
            } else {
                self.read_u32(true, ptr)
            };
            let ghost s1 = *self;
            self.write_register(rd, val);
            proof {
                lemma_register_round_trip(s1, *self, rd, val);
                assert(forall|j: int| 0 <= j < 31 ==> slot_val(s1, j) == slot_val(*old(self), j));
            }
            self.step_program_counter(2);
            self.cycle_count = self.cycle_count + 3;
        } else {
            let val = self.read_register(rd);
            if byte {
                self.write_u8(true, ptr, (val & 0xFF) as u8);
            } else {
                self.write_u32(true, ptr, val);
            }
            self.step_program_counter(2);
            self.cycle_count = self.cycle_count + 2;
        }
    }

    /// Compact format 8: store a halfword into the low half of a word, or
    /// load a halfword, sign-extended byte or sign-extended halfword, at a
    /// register-plus-register address.
    pub fn thumb_load_store_sign_extended_byte_halfword(&mut self, opcode: u16)
        requires
            old(self).wf(),
            old(self).spec_pc() + 2 <= u32::MAX,
            old(self).cycle_count + 6 <= usize::MAX,
            ({
                let rb = ((opcode >> 3u16) & 0x7u16) as u8;
                let ro = ((opcode >> 6u16) & 0x7u16) as u8;
                let sx = (opcode & 0x400u16) != 0u16;
                let hf = (opcode & 0x800u16) != 0u16;
                &&& spec_reg(*old(self), rb) + spec_reg(*old(self), ro) <= u32::MAX
                &&& ({
                    let addr = (spec_reg(*old(self), rb) + spec_reg(*old(self), ro)) as u32;
                    &&& (!sx && !hf ==> read_u32_ok(*old(self), true, addr) && write_u32_ok(
                        *old(self),
                        true,
                        addr,
                    ))
                    &&& (!sx && hf ==> read_u16_ok(*old(self), true, addr))
                    &&& (sx ==> read_u32_ok(*old(self), true, addr))
                })
            }),
        ensures
            thumb_load_store_sign_extended_byte_halfword_rel(*old(self), *final(self), opcode),
    {
        let rd = (opcode & 0x7) as u8;
        let rb = ((opcode >> 3) & 0x7) as u8;
        let ro = ((opcode >> 6) & 0x7) as u8;
        let sign_extended = (opcode & 0x400) != 0;
        let h_flag = (opcode & 0x800) != 0;

        let addr = self.read_register(rb) + self.read_register(ro);

        if !sign_extended && !h_flag {
            let val = self.read_register(rd) & 0xFFFF;
            let addr_val = self.read_u32(true, addr);
            self.write_u32(true, addr, (addr_val & 0xFFFF0000) | val);
            self.step_program_counter(2);
            self.cycle_count = self.cycle_count + 2;
        } else {
            let val = if !sign_extended {
                self.read_u16(true, addr) as u32
            } else if !h_flag {
                let b = self.read_u32(true, addr) & 0xFF;
                if (b & 0x80) != 0 {
                    b | 0xFFFFFF00
                } else {
                    b
                }
            } else {
                let h = self.read_u32(true, addr) & 0xFFFF;
                if (h & 0x8000) != 0 {
                    h | 0xFFFF0000
                } else {
                    h
                }
            };
            let ghost s1 = *self;
            self.write_register(rd, val);
            proof {
                lemma_register_round_trip(s1, *self, rd, val);
                assert(forall|j: int| 0 <= j < 31 ==> slot_val(s1, j) == slot_val(*old(self), j));
            }
            self.step_program_counter(2);
            self.cycle_count = self.cycle_count + 3;
        }
    }

    /// Compact format 9: load or store a word (immediate scaled by four) or
    /// byte at a register-plus-immediate address.
    pub fn thumb_load_store_immediate(&mut self, opcode: u16)
        requires
            old(self).wf(),
            valid_mode(old(self).spec_mode()),
            old(self).spec_pc() + 2 <= u32::MAX,
            old(self).cycle_count + 7 <= usize::MAX,
            ({
                let rd = (opcode & 0x7u16) as u8;
                let rb = ((opcode >> 3u16) & 0x7u16) as u8;
                let byte = (opcode & 0x1000u16) != 0u16;
                let off = if byte {
                    ((opcode >> 6u16) & 0x1Fu16) as u32
                } else {
                    ((((opcode >> 6u16) & 0x1Fu16) as u32) << 2u32) as u32
                };
                let load = (opcode & 0x800u16) != 0u16;
                ldrstr_ok(*old(self), rd, rb, off, load, true, true, byte, false)
            }),
        ensures
            thumb_load_store_immediate_rel(*old(self), *final(self), opcode),
    {
        let rd = (opcode & 0x7) as u8;
        let rb = ((opcode >> 3) & 0x7) as u8;
        let load = (opcode & 0x800) != 0;
        let byte = (opcode & 0x1000) != 0;

        // The assembler stores a word offset divided by four.
        let offset: u32 = if byte {
            ((opcode >> 6) & 0x1F) as u32
        } else {
            (((opcode >> 6) & 0x1F) as u32) << 2
        };

        let ghost s0 = *self;
        self.operation_ldr_str(rd, rb, offset, load, false, true, true, byte, false);
        let ghost s1 = *self;
        proof {
            assert(slot_val(s1, 15) == slot_val(s0, 15));
        }
        self.step_program_counter(2);
        proof {
            assert(forall|j: int|
                0 <= j < 31 && j != 15 ==> #[trigger] slot_val(*self, j) == slot_val(s1, j));
        }
    }

    /// Compact format 10: load or store a halfword (immediate scaled by two)
    /// into the low half of a word at a register-plus-immediate address.
    pub fn thumb_load_store_halfword(&mut self, opcode: u16)
        requires
            old(self).wf(),
            old(self).spec_pc() + 2 <= u32::MAX,
            old(self).cycle_count + 6 <= usize::MAX,
            ({
                let rb = ((opcode >> 3u16) & 0x7u16) as u8;
                let off = ((((opcode >> 6u16) & 0x1Fu16) as u32) << 1u32) as u32;
                let addr = wrap32(spec_reg(*old(self), rb) + off);
                let load = (opcode & 0x800u16) != 0u16;
                &&& read_u32_ok(*old(self), true, addr)
                &&& (!load ==> write_u32_ok(*old(self), true, addr))
            }),
        ensures
            thumb_load_store_halfword_rel(*old(self), *final(self), opcode),
    {
        let rd = (opcode & 0x7) as u8;
        let rb = ((opcode >> 3) & 0x7) as u8;
        let offset = (((opcode >> 6) & 0x1F) as u32) << 1;
        let load = (opcode & 0x800) != 0;

        let addr = self.read_register(rb).wrapping_add(offset);
        let addr_val = self.read_u32(true, addr);

        if load {
            let ghost s1 = *self;
            self.write_register(rd, addr_val & 0xFFFF);
            proof {
                lemma_register_round_trip(s1, *self, rd, (addr_val & 0xFFFFu32) as u32);
                assert(forall|j: int| 0 <= j < 31 ==> slot_val(s1, j) == slot_val(*old(self), j));
            }
            self.step_program_counter(2);
            self.cycle_count = self.cycle_count + 3;
        } else {
            let val = self.read_register(rd) & 0xFFFF;
            self.write_u32(true, addr, (addr_val & 0xFFFF0000) | val);
            self.step_program_counter(2);
            self.cycle_count = self.cycle_count + 2;
        }
    }

    /// Compact format 11: load or store a word at a stack-pointer-relative
    /// address.
    pub fn thumb_sp_relative_load_store(&mut self, opcode: u16)
        requires
            old(self).wf(),
            valid_mode(old(self).spec_mode()),
            old(self).spec_pc() + 2 <= u32::MAX,
            old(self).cycle_count + 7 <= usize::MAX,
            ({
                let rd = ((opcode >> 8u16) & 0x7u16) as u8;
                let imm = (((opcode & 0xFFu16) as u32) << 2u32) as u32;
                let load = (opcode & 0x800u16) != 0u16;
                ldrstr_ok(*old(self), rd, 13, imm, load, true, true, false, false)
            }),
        ensures
            thumb_sp_relative_load_store_rel(*old(self), *final(self), opcode),
    {
        let imm = ((opcode & 0xFF) as u32) << 2;
        let rd = ((opcode >> 8) & 0x7) as u8;
        let load = (opcode & 0x800) != 0;

        let ghost s0 = *self;
        self.operation_ldr_str(rd, 13, imm, load, false, true, true, false, false);
        let ghost s1 = *self;
        proof {
            assert(slot_val(s1, 15) == slot_val(s0, 15));
        }
        self.step_program_counter(2);
        proof {
            assert(forall|j: int|
                0 <= j < 31 && j != 15 ==> #[trigger] slot_val(*self, j) == slot_val(s1, j));
        }
    }

    /// Compact format 1: move shifted register, a logical or arithmetic
    /// shift of a low register by an immediate, updating N, Z and (for a
    /// nonzero amount) C.
    pub fn thumb_move_shifted_register(&mut self, opcode: u16)
        requires
            old(self).wf(),
            old(self).spec_pc() + 2 <= u32::MAX,
            old(self).cycle_count + 2 <= usize::MAX,
        ensures
            thumb_move_shifted_register_rel(*old(self), *final(self), opcode),
    {
        let rd = (opcode & 0x7) as u8;
        let rs = ((opcode >> 3) & 0x7) as u8;
        let rs_val = self.read_register(rs);

        let offset = ((opcode >> 6) & 0x1F) as u32;
        let op = (opcode >> 11) & 0x3;

        let (res, carry): (u32, bool) = if op == 0 {
            let carry = if offset == 0 {
                false
            } else {
                ((rs_val >> (32 - offset)) & 0x1) != 0
            };
            (rs_val << offset, carry)
        } else if op == 1 {
            let carry = if offset == 0 {
                false
            } else {
                ((rs_val >> (offset - 1)) & 0x1) != 0
            };
            (rs_val >> offset, carry)
        } else if op == 2 {
            let carry = if offset == 0 {
                false
            } else {
                ((rs_val >> (offset - 1)) & 0x1) != 0
            };
            (((rs_val as i32) >> offset) as u32, carry)
        } else {
            self.panicked = true;
            (0, true)
        };

        let ghost s1 = *self;
        self.write_register(rd, res);
        let ghost s2 = *self;

        let n = (res & 0x80000000) != 0;
        let z = res == 0;
        self.set_flag_n(n);
        self.set_flag_z(z);
        if offset != 0 {
            self.set_flag_c(carry);
            proof {
                lemma_set_nzc(s2.reg_cpsr, n, z, carry);
            }
        } else {
            proof {
                lemma_set_nz(s2.reg_cpsr, n, z);
            }
        }

        let ghost s3 = *self;
        self.step_program_counter(2);
        self.cycle_count = self.cycle_count + 2;
        proof {
            assert(final(self).registers@ == s1.registers@.update(
                (opcode & 0x7u16) as u8 as int,
                res,
            ).update(15, (old(self).spec_pc() + 2) as u32));
        }
    }

    /// Dispatches one compact-encoding instruction by the opcode's high
    /// byte.  An opcode outside every format marks the core faulted; no
    /// instruction lowers the cycle counter or changes the mode, and none
    /// adds more than twenty-four cycles.
    #[verifier::rlimit(100)]
    #[verifier::spinoff_prover]
    pub fn execute_thumb(&mut self, opcode: u16)
        requires
            thumb_exec_ok(*old(self), opcode),
        ensures
            final(self).wf(),
            final(self).spec_mode() == old(self).spec_mode(),
            old(self).cycle_count <= final(self).cycle_count <= old(self).cycle_count + 24,
            thumb_step_rel(*old(self), *final(self), opcode),
    {
        proof {
            crate::ops::lemma_rlist_count_monotone(f14_list(opcode), 0, 16);
            crate::ops::lemma_rlist_count_monotone((opcode & 0xFFu16) as u16, 0, 16);
        }
        let high = (opcode >> 8) as u16;

        if high <= 0x17 {
            self.thumb_move_shifted_register(opcode);
        } else if high <= 0x1F {
            self.thumb_add_subtract(opcode);
        } else if high <= 0x3F {
            self.thumb_mov_cmp_add_sub_imm(opcode);
        } else if high <= 0x43 {
            self.thumb_alu(opcode);
        } else if high <= 0x47 {
            self.thumb_hi_register_op_bx(opcode);
        } else if high <= 0x4F {
            self.thumb_pc_relative_load(opcode);
        } else if high == 0x50 || high == 0x51 || high == 0x54 || high == 0x55 || high == 0x58
            || high == 0x59 || high == 0x5C || high == 0x5D {
            self.thumb_load_store_register_offset(opcode);
        } else if high == 0x52 || high == 0x53 || high == 0x56 || high == 0x57 || high == 0x5A
            || high == 0x5B || high == 0x5E || high == 0x5F {
            self.thumb_load_store_sign_extended_byte_halfword(opcode);
        } else if high <= 0x7F && high >= 0x60 {
            self.thumb_load_store_immediate(opcode);
        } else if high <= 0x8F && high >= 0x80 {
            self.thumb_load_store_halfword(opcode);
        } else if high <= 0x9F && high >= 0x90 {
            self.thumb_sp_relative_load_store(opcode);
        } else if high <= 0xAF && high >= 0xA0 {
            self.thumb_load_address(opcode);
        } else if high == 0xB0 {
            self.thumb_offset_to_sp(opcode);
        } else if high == 0xB4 || high == 0xB5 || high == 0xBC || high == 0xBD {
            self.thumb_push_pop(opcode);
        } else if high <= 0xCF && high >= 0xC0 {
            self.thumb_multiple_load_store(opcode);
        } else if high <= 0xDE && high >= 0xD0 {
            self.thumb_conditional_branch(opcode);
        } else if high == 0xDF {
            self.thumb_swi(opcode);
        } else if high <= 0xE7 && high >= 0xE0 {
            self.thumb_unconditional_branch(opcode);
        } else if high >= 0xF0 {
            self.thumb_long_branch_link(opcode);
        } else {
            // No format claims this opcode.
            self.panicked = true;
        }
    }
}

} // verus!
