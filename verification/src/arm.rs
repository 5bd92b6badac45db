//! The 32-bit wide instruction encoding: condition-gated dispatch over
//! mask/value families, data processing with the barrel shifter, branches,
//! status-register moves, transfers and multiply.

use vstd::prelude::*;

use crate::alu::{
    alu_carry, alu_overflow, alu_result, sign_bit, spec_cond, spec_operand2, wrap32,
};
use crate::cpu::{
    cpsr_mode, cpsr_thumb, flag_c, flag_n, flag_v, flag_z, io_eq, lemma_reg_write1,
    lemma_reg_write2, lemma_reg_write2_transfer, lemma_register_round_trip, lemma_set_nz,
    lemma_set_nzc, lemma_set_nzcv, mem_eq, pc_masked, psr_eq, reg_read, reg_write2_rel,
    regs_unchanged_rel, slot_id, slot_val, spec_reg, valid_mode, with_flags, write_reg_rel,
    ARM_MASK_BX_CLR, ARM_MASK_BX_SET, ARM_MASK_HW_IMM_CLR, ARM_MASK_HW_IMM_SET,
    ARM_MASK_HW_REG_CLR, ARM_MASK_HW_REG_SET, ARM_MASK_MRS_CLR, ARM_MASK_MRS_SET,
    ARM_MASK_MSR_BITS_CLR, ARM_MASK_MSR_BITS_SET, ARM_MASK_MSR_CLR, ARM_MASK_MSR_SET,
    ARM_MASK_MUL_CLR, ARM_MASK_MUL_LONG_CLR, ARM_MASK_MUL_LONG_SET, ARM_MASK_MUL_SET,
    ARM_MASK_SNGL_SWP_CLR, ARM_MASK_SNGL_SWP_SET, ARM_MASK_UNDEF_CLR, ARM_MASK_UNDEF_SET, CPU,
    MODE_USER,
};
use crate::mem::{
    mask_addr, ram32_ok, read_u32_ok, read_u8_ok, spec_read_u32, spec_read_u8, write32_mem_rel,
    write8_mem_rel, write_u32_ok, write_u8_ok,
};
use crate::ops::{
    bit16, ldm_final_rb, ldm_mem_frame, ldm_slot_touched_below, ldm_start, ldm_stm_ok,
    ldrstr_loaded, ldrstr_offsetted, ldrstr_ok, ldrstr_target, rlist_count,
};
use crate::thumb::{dev_frame, pc_only_rel, reg_write_pc_rel};

verus! {

broadcast use
    crate::bits::lemma_u16_and_bound,
    crate::bits::lemma_u32_and_bound,
    crate::bits::lemma_u32_and_le_self,
;

/// Whether an opcode belongs to the family selected by a clear/set mask pair.
pub open spec fn spec_opcode_match(opcode: u32, mask_clr: u32, mask_set: u32) -> bool {
    (opcode & mask_set == mask_set) && ((!opcode) & mask_clr == mask_clr)
}

/// Operand 1 of a data-processing instruction: the base register, with the
/// pipeline offset when it is the program counter.
pub open spec fn dp_operand1(c: CPU, opcode: u32) -> u32 {
    let rn = ((opcode >> 16u32) & 0xFu32) as u8;
    if rn == 15 {
        (reg_read(c, 15) + 8) as u32
    } else {
        reg_read(c, rn)
    }
}

/// The multiply timing: one to four inner cycles by the magnitude of the
/// multiplier read as a signed value.
pub open spec fn mul_m_cycles(rs_val: u32) -> int {
    let s = crate::syscall::s32(rs_val);
    if -0x100 <= s < 0x100 {
        1
    } else if -0x10000 <= s < 0x10000 {
        2
    } else if -0x1000000 <= s < 0x1000000 {
        3
    } else {
        4
    }
}

/// Whether a data-processing operation is a pure test that writes nothing.
pub open spec fn dp_is_test(aluop: u8) -> bool {
    0x8 <= aluop <= 0xB
}

/// Whether a data-processing operation takes its carry from the shifter.
pub open spec fn dp_is_logical(aluop: u8) -> bool {
    aluop == 0x0 || aluop == 0x1 || aluop == 0x8 || aluop == 0x9 || aluop == 0xC || aluop == 0xD
        || aluop == 0xE || aluop == 0xF
}

/// The inputs on which the wide dispatcher completes without a fault: the
/// recognised families with their per-family preconditions.
pub open spec fn arm_exec_ok(c: CPU, opcode: u32) -> bool {
    let instr = (opcode >> 20u32) & 0xFFu32;
    let cond = ((opcode >> 28u32) & 0xFu32) as u8;
    &&& c.wf()
    &&& valid_mode(cpsr_mode(c.reg_cpsr))
    &&& c.spec_pc() + 8 <= u32::MAX
    &&& c.cycle_count + 26 <= usize::MAX
    &&& (spec_cond(cond, c.reg_cpsr) ==> {
        if instr <= 0x3F {
            if spec_opcode_match(opcode, ARM_MASK_MUL_CLR, ARM_MASK_MUL_SET) {
                ((opcode >> 16u32) & 0xFu32) != 15
            } else if spec_opcode_match(opcode, ARM_MASK_MUL_LONG_CLR, ARM_MASK_MUL_LONG_SET) {
                false
            } else if spec_opcode_match(opcode, ARM_MASK_SNGL_SWP_CLR, ARM_MASK_SNGL_SWP_SET) {
                false
            } else if spec_opcode_match(opcode, ARM_MASK_BX_CLR, ARM_MASK_BX_SET) {
                true
            } else if spec_opcode_match(opcode, ARM_MASK_HW_REG_CLR, ARM_MASK_HW_REG_SET) {
                false
            } else if spec_opcode_match(opcode, ARM_MASK_HW_IMM_CLR, ARM_MASK_HW_IMM_SET) {
                hwt_ok(c, opcode)
            } else if spec_opcode_match(opcode, ARM_MASK_MRS_CLR, ARM_MASK_MRS_SET) {
                ((opcode >> 12u32) & 0xFu32) != 15
            } else if spec_opcode_match(opcode, ARM_MASK_MSR_CLR, ARM_MASK_MSR_SET) {
                true
            } else if spec_opcode_match(opcode, ARM_MASK_MSR_BITS_CLR, ARM_MASK_MSR_BITS_SET) {
                false
            } else {
                true
            }
        } else if instr <= 0x7F {
            if spec_opcode_match(opcode, ARM_MASK_UNDEF_CLR, ARM_MASK_UNDEF_SET) {
                false
            } else {
                &&& ldrstr_ok(
                    c,
                    ((opcode >> 12u32) & 0xFu32) as u8,
                    ((opcode >> 16u32) & 0xFu32) as u8,
                    (opcode & 0xFFFu32) as u32,
                    (opcode & 0x100000u32) != 0u32,
                    (opcode & 0x1000000u32) != 0u32,
                    (opcode & 0x800000u32) != 0u32,
                    (opcode & 0x400000u32) != 0u32,
                    (opcode & 0x2000000u32) != 0u32,
                )
                &&& (((opcode & 0x200000u32) != 0u32 || (opcode & 0x1000000u32) == 0u32) ==> ((
                opcode >> 16u32) & 0xFu32) != 15)
                &&& (((opcode >> 12u32) & 0xFu32) == 15 && (opcode & 0x100000u32) != 0u32
                    ==> ldrstr_loaded(
                    c,
                    ldrstr_target(
                        c,
                        ((opcode >> 16u32) & 0xFu32) as u8,
                        (opcode & 0xFFFu32) as u32,
                        (opcode & 0x800000u32) != 0u32,
                        (opcode & 0x1000000u32) != 0u32,
                    ),
                    (opcode & 0x400000u32) != 0u32,
                ) <= 0xFFFFFF00u32)
            }
        } else if instr <= 0x9F {
            &&& ldm_stm_ok(
                c,
                ((opcode >> 16u32) & 0xFu32) as u8,
                (opcode & 0xFFFFu32) as u16,
                (opcode & 0x100000u32) != 0u32,
                (opcode & 0x800000u32) != 0u32,
                (opcode & 0x1000000u32) != 0u32,
                (opcode & 0x400000u32) != 0u32,
            )
            &&& (((opcode >> 16u32) & 0xFu32) != 15)
        } else if instr <= 0xBF {
            true
        } else {
            false
        }
    })
}

/// The preconditions of the halfword/signed transfer executor.
pub open spec fn hwt_ok(c: CPU, opcode: u32) -> bool {
    let s = (opcode & 0x40u32) != 0u32;
    let h = (opcode & 0x20u32) != 0u32;
    let load = (opcode & 0x100000u32) != 0u32;
    let t = hwt_target(c, opcode);
    &&& !(!s && !h)
    &&& !(s && h)
    &&& ((opcode >> 12u32) & 0xFu32) != 15
    &&& (((opcode & 0x200000u32) != 0u32 || (opcode & 0x1000000u32) == 0u32) ==> ((opcode
        >> 16u32) & 0xFu32) != 15)
    &&& (!s ==> (load ==> read_u32_ok(c, true, t)) && (!load ==> write_u32_ok(c, true, t)))
    &&& (s ==> read_u8_ok(c, true, t))
}

/// The register-file effect of writing `k1 := v1`, then (when `w2`)
/// `k2 := v2`, and finally moving the raw program counter to `pc_new`; both
/// indices below 15.
pub open spec fn reg2pc_rel(
    pre: CPU,
    post: CPU,
    k1: u8,
    v1: u32,
    k2: u8,
    v2: u32,
    w2: bool,
    pc_new: u32,
) -> bool {
    let m = cpsr_mode(pre.reg_cpsr);
    let i1 = slot_id(m, k1);
    let i2 = slot_id(m, k2);
    &&& (w2 ==> slot_val(post, i2) == v2)
    &&& ((!w2 || i1 != i2) ==> slot_val(post, i1) == v1)
    &&& post.registers@[15] == pc_new
    &&& forall|j: int|
        0 <= j < 31 && j != i1 && (!w2 || j != i2) && j != 15 ==> #[trigger] slot_val(post, j)
            == slot_val(pre, j)
    &&& post.registers@.len() == pre.registers@.len()
    &&& post.regs_fiq@.len() == pre.regs_fiq@.len()
    &&& post.regs_svc@.len() == pre.regs_svc@.len()
    &&& post.regs_abt@.len() == pre.regs_abt@.len()
    &&& post.regs_irq@.len() == pre.regs_irq@.len()
    &&& post.regs_und@.len() == pre.regs_und@.len()
}

/// The address a halfword/signed transfer accesses.
pub open spec fn hwt_target(c: CPU, opcode: u32) -> u32 {
    let off = ((((opcode >> 4u32) & 0xF0u32) | (opcode & 0xFu32)) as u32) as u32;
    let rn = ((opcode >> 16u32) & 0xFu32) as u8;
    let base = if rn == 15 {
        (reg_read(c, 15) + 8) as u32
    } else {
        reg_read(c, rn)
    };
    if (opcode & 0x1000000u32) != 0u32 {
        if (opcode & 0x800000u32) != 0u32 {
            wrap32(base + off)
        } else {
            wrap32(base - off)
        }
    } else {
        base
    }
}

/// The full effect of one wide-encoding dispatch: a failed condition only
/// advances the counter by four and one cycle; otherwise the matched
/// family's relation holds.
pub open spec fn arm_step_rel(pre: CPU, post: CPU, opcode: u32) -> bool {
    let cond = ((opcode >> 28u32) & 0xFu32) as u8;
    let instr = (opcode >> 20u32) & 0xFFu32;
    if !spec_cond(cond, pre.reg_cpsr) {
        &&& post == (CPU {
            registers: post.registers,
            cycle_count: (pre.cycle_count + 1) as usize,
            panicked: pre.panicked || cond > 0xE,
            ..pre
        })
        &&& post.registers@ == pre.registers@.update(15, (pre.spec_pc() + 4) as u32)
    } else if instr <= 0x3F {
        if spec_opcode_match(opcode, ARM_MASK_MUL_CLR, ARM_MASK_MUL_SET) {
            arm_multiply_rel(pre, post, opcode)
        } else if spec_opcode_match(opcode, ARM_MASK_MUL_LONG_CLR, ARM_MASK_MUL_LONG_SET) {
            false
        } else if spec_opcode_match(opcode, ARM_MASK_SNGL_SWP_CLR, ARM_MASK_SNGL_SWP_SET) {
            false
        } else if spec_opcode_match(opcode, ARM_MASK_BX_CLR, ARM_MASK_BX_SET) {
            arm_branch_exchange_rel(pre, post, opcode)
        } else if spec_opcode_match(opcode, ARM_MASK_HW_REG_CLR, ARM_MASK_HW_REG_SET) {
            false
        } else if spec_opcode_match(opcode, ARM_MASK_HW_IMM_CLR, ARM_MASK_HW_IMM_SET) {
            arm_halfword_data_transfer_imm_rel(pre, post, opcode)
        } else if spec_opcode_match(opcode, ARM_MASK_MRS_CLR, ARM_MASK_MRS_SET) {
            arm_mrs_rel(pre, post, opcode)
        } else if spec_opcode_match(opcode, ARM_MASK_MSR_CLR, ARM_MASK_MSR_SET) {
            arm_msr_rel(pre, post, opcode)
        } else if spec_opcode_match(opcode, ARM_MASK_MSR_BITS_CLR, ARM_MASK_MSR_BITS_SET) {
            false
        } else {
            arm_data_processing_rel(pre, post, opcode)
        }
    } else if instr <= 0x7F {
        if spec_opcode_match(opcode, ARM_MASK_UNDEF_CLR, ARM_MASK_UNDEF_SET) {
            false
        } else {
            arm_single_data_transfer_rel(pre, post, opcode)
        }
    } else if instr <= 0x9F {
        arm_block_data_transfer_rel(pre, post, opcode)
    } else if instr <= 0xBF {
        arm_branch_rel(pre, post, opcode)
    } else {
        false
    }
}

/// The full effect of one instruction in the encoding the status word
/// selects.
pub open spec fn exec_step_rel(pre: CPU, post: CPU, opcode: u32) -> bool {
    if cpsr_thumb(pre.reg_cpsr) {
        crate::thumb::thumb_step_rel(pre, post, (opcode & 0xFFFFu32) as u16)
    } else {
        arm_step_rel(pre, post, opcode)
    }
}

/// The full effect of `arm_branch` as a relation over machine states.
pub open spec fn arm_branch_rel(pre: CPU, post: CPU, opcode: u32) -> bool {
    &&& (post.wf())
    &&& (dev_frame(pre, post))
    &&& (post.reg_cpsr == pre.reg_cpsr)
    &&& (post.cycle_count == pre.cycle_count + 3)
    &&& (({
                let off = ((opcode & 0xFFFFFFu32) << 2u32) as u32;
                let ext = if off >= 0x02000000u32 {
                    (off | 0xFC000000u32) as u32
                } else {
                    off
                };
                let target = pc_masked(
                    wrap32((pre.spec_pc() + 8) + ext),
                    cpsr_thumb(pre.reg_cpsr),
                );
                if (opcode & 0x01000000u32) != 0u32 {
                    reg_write_pc_rel(
                        pre,
                        post,
                        14,
                        (pre.spec_pc() + 4) as u32,
                        target,
                    )
                } else {
                    pc_only_rel(pre, post, target)
                }
            }))
}

/// The full effect of `arm_branch_exchange` as a relation over machine states.
pub open spec fn arm_branch_exchange_rel(pre: CPU, post: CPU, opcode: u32) -> bool {
    &&& (post.wf())
    &&& (dev_frame(pre, post))
    &&& (post.cycle_count == pre.cycle_count + 3)
    &&& (({
                let rm_val = reg_read(pre, (opcode & 0xFu32) as u8);
                let to_thumb = (rm_val & 1u32) == 1u32;
                &&& post.reg_cpsr == (if to_thumb {
                    (pre.reg_cpsr | 0x20u32) as u32
                } else {
                    (pre.reg_cpsr & !0x20u32) as u32
                })
                &&& pc_only_rel(
                    pre,
                    post,
                    pc_masked(
                        if to_thumb {
                            (rm_val & 0xFFFFFFFEu32) as u32
                        } else {
                            rm_val
                        },
                        to_thumb,
                    ),
                )
            }))
}

/// The full effect of `arm_mrs` as a relation over machine states.
pub open spec fn arm_mrs_rel(pre: CPU, post: CPU, opcode: u32) -> bool {
    &&& (post.wf())
    &&& (dev_frame(pre, post))
    &&& (post.reg_cpsr == pre.reg_cpsr)
    &&& (post.cycle_count == pre.cycle_count + 1)
    &&& (({
                let rd = ((opcode >> 12u32) & 0xFu32) as u8;
                let val = if (opcode & 0x400000u32) != 0u32 {
                    pre.regs_spsr@[pre.spec_mode() as int]
                } else {
                    pre.reg_cpsr
                };
                reg_write_pc_rel(
                    pre,
                    post,
                    rd,
                    val,
                    (pre.spec_pc() + 4) as u32,
                )
            }))
}

/// The full effect of `arm_msr` as a relation over machine states.
pub open spec fn arm_msr_rel(pre: CPU, post: CPU, opcode: u32) -> bool {
    &&& (post.wf())
    &&& (mem_eq(pre, post))
    &&& (io_eq(pre, post))
    &&& (post.panicked == pre.panicked)
    &&& (post.halt == pre.halt)
    &&& (post.mem_ptr == pre.mem_ptr)
    &&& (post.cycle_count == pre.cycle_count + 1)
    &&& (post.regs_fiq == pre.regs_fiq)
    &&& (post.regs_svc == pre.regs_svc)
    &&& (post.regs_abt == pre.regs_abt)
    &&& (post.regs_irq == pre.regs_irq)
    &&& (post.regs_und == pre.regs_und)
    &&& (post.registers@ == pre.registers@.update(
                15,
                (pre.spec_pc() + 4) as u32,
            ))
    &&& (({
                let rm_val = reg_read(pre, (opcode & 0xFu32) as u8);
                if (opcode & 0x400000u32) != 0u32 {
                    &&& post.regs_spsr@ == pre.regs_spsr@.update(
                        pre.spec_mode() as int,
                        rm_val,
                    )
                    &&& post.reg_cpsr == pre.reg_cpsr
                } else {
                    &&& post.regs_spsr == pre.regs_spsr
                    &&& post.reg_cpsr == (if pre.spec_mode() == MODE_USER {
                        ((pre.reg_cpsr & 0x0FFFFFFFu32) | (rm_val & 0xF0000000u32)) as u32
                    } else {
                        rm_val
                    })
                }
            }))
}

/// The full effect of `arm_multiply` as a relation over machine states.
pub open spec fn arm_multiply_rel(pre: CPU, post: CPU, opcode: u32) -> bool {
    &&& (post.wf())
    &&& (dev_frame(pre, post))
    &&& (({
                let rm_val = reg_read(pre, (opcode & 0xFu32) as u8);
                let rs_val = reg_read(pre, ((opcode >> 8u32) & 0xFu32) as u8);
                let rn_val = reg_read(pre, ((opcode >> 12u32) & 0xFu32) as u8);
                let rd = ((opcode >> 16u32) & 0xFu32) as u8;
                let acc = (opcode & 0x200000u32) != 0u32;
                let prod = wrap32((rm_val as nat * rs_val as nat) as int % 0x100000000);
                let res = if acc {
                    wrap32(prod + rn_val)
                } else {
                    prod
                };
                &&& post.reg_cpsr == (if (opcode & 0x100000u32) != 0u32 {
                    with_flags(
                        pre.reg_cpsr,
                        sign_bit(res),
                        res == 0u32,
                        flag_c(pre.reg_cpsr),
                        flag_v(pre.reg_cpsr),
                    )
                } else {
                    pre.reg_cpsr
                })
                &&& reg_write_pc_rel(
                    pre,
                    post,
                    rd,
                    res,
                    (pre.spec_pc() + 4) as u32,
                )
                &&& post.cycle_count == pre.cycle_count + (if acc {
                    2int
                } else {
                    1int
                }) + mul_m_cycles(rs_val)
            }))
}

/// The full effect of `arm_data_processing` as a relation over machine states.
pub open spec fn arm_data_processing_rel(pre: CPU, post: CPU, opcode: u32) -> bool {
    &&& (post.wf())
    &&& (dev_frame(pre, post))
    &&& (({
                let rd = ((opcode >> 12u32) & 0xFu32) as u8;
                let aluop = ((opcode >> 21u32) & 0xFu32) as u8;
                let set_condition = (opcode & 0x100000u32) != 0u32;
                let a = dp_operand1(pre, opcode);
                let ob = spec_operand2(
                    pre,
                    (opcode & 0x2000000u32) != 0u32,
                    (opcode & 0xFFFFu32) as u16,
                );
                let res = alu_result(aluop, a, ob.0, flag_c(pre.reg_cpsr));
                let test = dp_is_test(aluop);
                let new_cpsr = if rd == 15 {
                    if set_condition {
                        pre.regs_spsr@[pre.spec_mode() as int]
                    } else {
                        pre.reg_cpsr
                    }
                } else if set_condition || test {
                    with_flags(
                        pre.reg_cpsr,
                        sign_bit(res),
                        res == 0u32,
                        if dp_is_logical(aluop) {
                            ob.1
                        } else {
                            alu_carry(aluop, a, ob.0, flag_c(pre.reg_cpsr))
                        },
                        if dp_is_logical(aluop) {
                            flag_v(pre.reg_cpsr)
                        } else {
                            alu_overflow(
                                aluop,
                                a,
                                ob.0,
                                flag_c(pre.reg_cpsr),
                                flag_v(pre.reg_cpsr),
                            )
                        },
                    )
                } else {
                    pre.reg_cpsr
                };
                &&& post.reg_cpsr == new_cpsr
                &&& post.cycle_count == pre.cycle_count + (if rd == 15 {
                    3int
                } else {
                    1int
                })
                &&& (rd == 15 && !test ==> pc_only_rel(
                    pre,
                    post,
                    pc_masked(res, cpsr_thumb(new_cpsr)),
                ))
                &&& (test ==> pc_only_rel(
                    pre,
                    post,
                    (pre.spec_pc() + 4) as u32,
                ))
                &&& (rd != 15 && !test ==> reg_write_pc_rel(
                    pre,
                    post,
                    rd,
                    res,
                    (pre.spec_pc() + 4) as u32,
                ))
            }))
}

/// The full effect of `arm_single_data_transfer` as a relation over machine states.
pub open spec fn arm_single_data_transfer_rel(pre: CPU, post: CPU, opcode: u32) -> bool {
    &&& (post.wf())
    &&& (psr_eq(pre, post))
    &&& (post.halt == pre.halt)
    &&& (({
                let rd = ((opcode >> 12u32) & 0xFu32) as u8;
                let rb = ((opcode >> 16u32) & 0xFu32) as u8;
                let off = (opcode & 0xFFFu32) as u32;
                let load = (opcode & 0x100000u32) != 0u32;
                let wb = (opcode & 0x200000u32) != 0u32;
                let byte = (opcode & 0x400000u32) != 0u32;
                let up = (opcode & 0x800000u32) != 0u32;
                let pre_ix = (opcode & 0x1000000u32) != 0u32;
                let t = ldrstr_target(pre, rb, off, up, pre_ix);
                let wrote = ldrstr_offsetted(pre, rb, off, up);
                let loaded = ldrstr_loaded(pre, t, byte);
                &&& post.cycle_count == pre.cycle_count + (if !load {
                    2int
                } else if rd == 15 {
                    5int
                } else {
                    3int
                })
                &&& (load ==> mem_eq(pre, post) && io_eq(pre, post)
                    && post.panicked == pre.panicked && post.mem_ptr
                    == mask_addr(t))
                &&& (load && rd == 15 ==> {
                    &&& ((wb || !pre_ix) ==> reg2pc_rel(
                        pre,
                        post,
                        rb,
                        wrote,
                        rb,
                        wrote,
                        false,
                        pc_masked(loaded, cpsr_thumb(pre.reg_cpsr)),
                    ))
                    &&& (!(wb || !pre_ix) ==> pc_only_rel(
                        pre,
                        post,
                        pc_masked(loaded, cpsr_thumb(pre.reg_cpsr)),
                    ))
                })
                &&& (load && rd != 15 ==> reg2pc_rel(
                    pre,
                    post,
                    rd,
                    loaded,
                    rb,
                    wrote,
                    wb || !pre_ix,
                    (pre.spec_pc() + 4) as u32,
                ))
                &&& (!load ==> {
                    &&& (byte ==> write8_mem_rel(
                        pre,
                        post,
                        true,
                        t,
                        (reg_read(pre, rd) & 0xFFu32) as u8,
                    ))
                    &&& (!byte ==> write32_mem_rel(
                        pre,
                        post,
                        true,
                        t,
                        reg_read(pre, rd),
                    ))
                    &&& ((wb || !pre_ix) ==> reg2pc_rel(
                        pre,
                        post,
                        rb,
                        wrote,
                        rb,
                        wrote,
                        false,
                        (pre.spec_pc() + 4) as u32,
                    ))
                    &&& (!(wb || !pre_ix) ==> pc_only_rel(
                        pre,
                        post,
                        (pre.spec_pc() + 4) as u32,
                    ))
                })
            }))
}

/// The full effect of `arm_halfword_data_transfer_imm` as a relation over machine states.
pub open spec fn arm_halfword_data_transfer_imm_rel(pre: CPU, post: CPU, opcode: u32) -> bool {
    &&& (post.wf())
    &&& (psr_eq(pre, post))
    &&& (post.halt == pre.halt)
    &&& (({
                let rd = ((opcode >> 12u32) & 0xFu32) as u8;
                let rn = ((opcode >> 16u32) & 0xFu32) as u8;
                let s = (opcode & 0x40u32) != 0u32;
                let load = (opcode & 0x100000u32) != 0u32;
                let wb = (opcode & 0x200000u32) != 0u32;
                let up = (opcode & 0x800000u32) != 0u32;
                let pre_ix = (opcode & 0x1000000u32) != 0u32;
                let off = (((opcode >> 4u32) & 0xF0u32) | (opcode & 0xFu32)) as u32;
                let base0 = if rn == 15 {
                    (reg_read(pre, 15) + 8) as u32
                } else {
                    reg_read(pre, rn)
                };
                let t = hwt_target(pre, opcode);
                let final_base = if pre_ix {
                    t
                } else {
                    if up {
                        wrap32(base0 + off)
                    } else {
                        wrap32(base0 - off)
                    }
                };
                let loaded = if !s {
                    (spec_read_u32(pre, mask_addr(t)) & 0xFFFFu32) as u32
                } else {
                    let b = spec_read_u8(pre, mask_addr(t)) as u32;
                    if 1 <= b <= 0x7F {
                        b
                    } else {
                        (0xFFFFFF00u32 | b) as u32
                    }
                };
                &&& post.cycle_count == pre.cycle_count + (if !load {
                    2int
                } else {
                    3int
                })
                &&& ((load || s) ==> mem_eq(pre, post) && io_eq(
                    pre,
                    post,
                ) && post.panicked == pre.panicked && post.mem_ptr
                    == mask_addr(t) && reg2pc_rel(
                    pre,
                    post,
                    rd,
                    loaded,
                    rn,
                    final_base,
                    wb || !pre_ix,
                    (pre.spec_pc() + 4) as u32,
                ))
                &&& ((!load && !s) ==> {
                    &&& write32_mem_rel(
                        pre,
                        post,
                        true,
                        t,
                        (reg_read(pre, rd) & 0xFFFFu32) as u32,
                    )
                    &&& ((wb || !pre_ix) ==> reg2pc_rel(
                        pre,
                        post,
                        rn,
                        final_base,
                        rn,
                        final_base,
                        false,
                        (pre.spec_pc() + 4) as u32,
                    ))
                    &&& (!(wb || !pre_ix) ==> pc_only_rel(
                        pre,
                        post,
                        (pre.spec_pc() + 4) as u32,
                    ))
                })
            }))
}

/// The full effect of `arm_block_data_transfer` as a relation over machine states.
pub open spec fn arm_block_data_transfer_rel(pre: CPU, post: CPU, opcode: u32) -> bool {
    &&& (post.wf())
    &&& (psr_eq(pre, post))
    &&& (post.halt == pre.halt)
    &&& (({
                let rb = ((opcode >> 16u32) & 0xFu32) as u8;
                let list = (opcode & 0xFFFFu32) as u16;
                let load = (opcode & 0x100000u32) != 0u32;
                let wb = (opcode & 0x200000u32) != 0u32;
                let up = (opcode & 0x800000u32) != 0u32;
                let pre_ix = (opcode & 0x1000000u32) != 0u32;
                let base = reg_read(pre, rb);
                let n = rlist_count(list, 16);
                let first = mask_addr(ldm_start(base, n, up, pre_ix) as u32);
                let m = cpsr_mode(pre.reg_cpsr);
                let rb_final = ldm_final_rb(base, n, up) as u32;
                &&& post.cycle_count == pre.cycle_count + (if load {
                    2int
                } else {
                    1int
                }) + n + (if load && bit16(list, 15) {
                    2int
                } else {
                    0int
                })
                &&& (!load ==> {
                    &&& ldm_mem_frame(pre, post, first as int, n)
                    &&& forall|i: int|
                        0 <= i < 16 && bit16(list, i) ==> spec_read_u32(
                            post,
                            (first + 4 * rlist_count(list, i)) as u32,
                        ) == reg_read(pre, i as u8)
                    &&& (wb ==> reg2pc_rel(
                        pre,
                        post,
                        rb,
                        rb_final,
                        rb,
                        rb_final,
                        false,
                        (pre.spec_pc() + 4) as u32,
                    ))
                    &&& (!wb ==> pc_only_rel(
                        pre,
                        post,
                        (pre.spec_pc() + 4) as u32,
                    ))
                })
                &&& (load ==> {
                    &&& mem_eq(pre, post)
                    &&& io_eq(pre, post)
                    &&& post.panicked == pre.panicked
                    &&& (wb ==> slot_val(post, slot_id(m, rb)) == rb_final)
                    &&& forall|i: int|
                        0 <= i < 16 && bit16(list, i) && !(wb && slot_id(m, i as u8) == slot_id(
                            m,
                            rb,
                        )) && i != 15 ==> slot_val(post, slot_id(m, i as u8))
                            == spec_read_u32(pre, (first + 4 * rlist_count(list, i)) as u32)
                    &&& (!bit16(list, 15) ==> post.registers@[15] == (pre.spec_pc()
                        + 4) as u32)
                    &&& (bit16(list, 15) ==> post.registers@[15] == pc_masked(
                        spec_read_u32(pre, (first + 4 * rlist_count(list, 15)) as u32),
                        cpsr_thumb(pre.reg_cpsr),
                    ))
                    &&& forall|j: int|
                        0 <= j < 31 && j != 15 && !ldm_slot_touched_below(m, list, 16, wb, rb, j)
                            ==> #[trigger] slot_val(post, j) == slot_val(pre, j)
                })
            }))
}

impl CPU {
    /// Whether an opcode matches a family's clear/set mask pair.
    pub fn opcode_match(opcode: u32, mask_clr: u32, mask_set: u32) -> (r: bool)
        ensures
            r == spec_opcode_match(opcode, mask_clr, mask_set),
    {
        (opcode & mask_set == mask_set) && ((!opcode) & mask_clr == mask_clr)
    }

    /// Wide branch, optionally with link: a 24-bit signed offset, scaled by
    /// four, taken from the pipeline-adjusted program counter.
    pub fn arm_branch(&mut self, opcode: u32)
        requires
            old(self).wf(),
            valid_mode(old(self).spec_mode()),
            old(self).spec_pc() + 8 <= u32::MAX,
            old(self).cycle_count + 4 <= usize::MAX,
        ensures
            arm_branch_rel(*old(self), *final(self), opcode),
    {
        let link = (opcode & 0x01000000) != 0;
        let mut offset = (opcode & 0xFFFFFF) << 2;

        // Sign extend the 26-bit byte offset.
        if offset >= 0x02000000 {
            offset = offset | 0xFC000000;
        }

        let target = (self.get_program_counter() + 8).wrapping_add(offset);

        let ghost s0 = *self;
        if link {
            let lr = self.get_program_counter() + 4;
            self.write_register(14, lr);
            proof {
                lemma_register_round_trip(s0, *self, 14, lr);
            }
        }

        self.set_program_counter(target);
        self.cycle_count = self.cycle_count + 3;
    }

    /// Wide branch-and-exchange: jump to a register, adopting the compact
    /// encoding exactly when the target's low bit is set.
    pub fn arm_branch_exchange(&mut self, opcode: u32)
        requires
            old(self).wf(),
            valid_mode(old(self).spec_mode()),
            old(self).cycle_count + 4 <= usize::MAX,
        ensures
            arm_branch_exchange_rel(*old(self), *final(self), opcode),
    {
        let rm = (opcode & 0xF) as u8;
        let rm_val = self.read_register(rm);
        let thumb = (rm_val & 0x1) == 0x1;

        self.set_thumb(thumb);
        if thumb {
            self.set_program_counter(rm_val & 0xFFFFFFFE);
        } else {
            self.set_program_counter(rm_val);
        }

        self.cycle_count = self.cycle_count + 3;
    }

    /// Wide move-status-to-register: the status word, or the current mode's
    /// saved status, into a register.
    pub fn arm_mrs(&mut self, opcode: u32)
        requires
            old(self).wf(),
            valid_mode(old(self).spec_mode()),
            old(self).spec_pc() + 4 <= u32::MAX,
            old(self).cycle_count + 2 <= usize::MAX,
            ((opcode >> 12u32) & 0xFu32) != 15,
        ensures
            arm_mrs_rel(*old(self), *final(self), opcode),
    {
        let rd = ((opcode >> 12) & 0xF) as u8;
        let source_spsr = (opcode & 0x400000) != 0;

        let psr_val = if source_spsr {
            let mode = self.get_mode();
            self.regs_spsr[mode as usize]
        } else {
            self.reg_cpsr
        };

        let ghost s0 = *self;
        self.write_register(rd, psr_val);
        proof {
            lemma_register_round_trip(s0, *self, rd, psr_val);
        }

        self.step_program_counter(4);
        self.cycle_count = self.cycle_count + 1;
    }

    /// Wide move-register-to-status: a register into the current mode's
    /// saved status, or into the status word itself (flags only in user
    /// mode).
    pub fn arm_msr(&mut self, opcode: u32)
        requires
            old(self).wf(),
            valid_mode(old(self).spec_mode()),
            old(self).spec_pc() + 4 <= u32::MAX,
            old(self).cycle_count + 2 <= usize::MAX,
        ensures
            arm_msr_rel(*old(self), *final(self), opcode),
    {
        let dest_spsr = (opcode & 0x400000) != 0;
        let rm = (opcode & 0xF) as u8;
        let rm_val = self.read_register(rm);

        if dest_spsr {
            let mode = self.get_mode();
            self.regs_spsr[mode as usize] = rm_val;
        } else {
            if self.get_mode() == MODE_USER {
                // User mode may only replace the flags.
                self.reg_cpsr = (self.reg_cpsr & 0x0FFFFFFF) | (rm_val & 0xF0000000);
            } else {
                self.reg_cpsr = rm_val;
            }
        }

        self.step_program_counter(4);
        self.cycle_count = self.cycle_count + 1;
    }

    /// Wide multiply or multiply-accumulate on the low words, with an
    /// optional flag update from the result.
    pub fn arm_multiply(&mut self, opcode: u32)
        requires
            old(self).wf(),
            valid_mode(old(self).spec_mode()),
            old(self).spec_pc() + 4 <= u32::MAX,
            old(self).cycle_count + 8 <= usize::MAX,
            ((opcode >> 16u32) & 0xFu32) != 15,
        ensures
            arm_multiply_rel(*old(self), *final(self), opcode),
    {
        let rm = (opcode & 0xF) as u8;
        let rs = ((opcode >> 8) & 0xF) as u8;
        let rn = ((opcode >> 12) & 0xF) as u8;
        let rd = ((opcode >> 16) & 0xF) as u8;

        let set_condition = (opcode & 0x100000) != 0;
        let accumulate = (opcode & 0x200000) != 0;

        let rm_val = self.read_register(rm);
        let rs_val = self.read_register(rs);
        let rn_val = self.read_register(rn);

        let result = if accumulate {
            rm_val.wrapping_mul(rs_val).wrapping_add(rn_val)
        } else {
            rm_val.wrapping_mul(rs_val)
        };

        let ghost s0 = *self;
        self.write_register(rd, result);
        proof {
            lemma_register_round_trip(s0, *self, rd, result);
        }

        if set_condition {
            let ghost s1 = *self;
            let n = (result & 0x80000000) != 0;
            let z = result == 0;
            self.set_flag_n(n);
            self.set_flag_z(z);
            proof {
                lemma_set_nz(s1.reg_cpsr, n, z);
            }
        }

        self.step_program_counter(4);

        let m_cycles: usize = if rs_val < 0x100 || rs_val >= 0xFFFFFF00 {
            1
        } else if rs_val < 0x10000 || rs_val >= 0xFFFF0000 {
            2
        } else if rs_val < 0x1000000 || rs_val >= 0xFF000000 {
            3
        } else {
            4
        };

        self.cycle_count = self.cycle_count + (if accumulate {
            2
        } else {
            1
        }) + m_cycles;
    }


    /// Applies the flag update of a flag-setting data operation: N and Z
    /// from the result, C from the shifter for a logical operation and from
    /// the adder otherwise, V only from the adder.
    fn dp_write_flags(&mut self, n: bool, z: bool, c: bool, v: bool, logical: bool, shc: bool)
        ensures
            final(self).reg_cpsr == with_flags(
                old(self).reg_cpsr,
                n,
                z,
                if logical {
                    shc
                } else {
                    c
                },
                if logical {
                    flag_v(old(self).reg_cpsr)
                } else {
                    v
                },
            ),
            *final(self) == (CPU { reg_cpsr: final(self).reg_cpsr, ..*old(self) }),
            cpsr_mode(final(self).reg_cpsr) == cpsr_mode(old(self).reg_cpsr),
            cpsr_thumb(final(self).reg_cpsr) == cpsr_thumb(old(self).reg_cpsr),
    {
        let ghost s1 = *self;
        self.set_flag_n(n);
        self.set_flag_z(z);
        if logical {
            self.set_flag_c(shc);
            proof {
                lemma_set_nzc(s1.reg_cpsr, n, z, shc);
            }
        } else {
            self.set_flag_c(c);
            self.set_flag_v(v);
            proof {
                lemma_set_nzcv(s1.reg_cpsr, n, z, c, v);
            }
        }
    }

    /// Wide data processing: one of the sixteen operations on a register and
    /// a shifted or rotated operand 2.  A flag-setting write to the program
    /// counter restores the current mode's saved status, the exception
    /// return.
    #[verifier::rlimit(100)]
    #[verifier::spinoff_prover]
    pub fn arm_data_processing(&mut self, opcode: u32)
        requires
            old(self).wf(),
            valid_mode(old(self).spec_mode()),
            old(self).spec_pc() + 8 <= u32::MAX,
            old(self).cycle_count + 4 <= usize::MAX,
        ensures
            arm_data_processing_rel(*old(self), *final(self), opcode),
    {
        let rd = ((opcode >> 12) & 0xF) as u8;
        let rn = ((opcode >> 16) & 0xF) as u8;
        let operand1 = if rn == 15 {
            self.read_register(rn) + 8
        } else {
            self.read_register(rn)
        };

        let set_condition = (opcode & 0x100000) != 0;
        let aluop = ((opcode >> 21) & 0xF) as u8;
        let i = (opcode & 0x2000000) != 0;

        let (operand2, shifter_carry) = self.alu_operand2_calc(i, (opcode & 0xFFFF) as u16);

        let (result, n, z, c, v) = self.alu(aluop, operand1, operand2);

        let test = aluop >= 0x8 && aluop <= 0xB;
        let logical = aluop == 0x0 || aluop == 0x1 || aluop == 0x8 || aluop == 0x9 || aluop == 0xC
            || aluop == 0xD || aluop == 0xE || aluop == 0xF;

        if set_condition || test {
            if rd == 15 {
                if set_condition {
                    // The exception-return idiom: the saved status of the
                    // current mode comes back atomically with the counter.
                    let mode = self.get_mode();
                    self.reg_cpsr = self.regs_spsr[mode as usize];
                }
            } else {
                self.dp_write_flags(n, z, c, v, logical, shifter_carry);
            }
        }

        let ghost s2 = *self;
        if !test {
            if rd == 15 {
                // A result written to the counter is the new counter; status
                // and counter change together, with no step afterwards.
                self.set_program_counter(result);
            } else {
                self.write_register(rd, result);
                proof {
                    lemma_register_round_trip(s2, *self, rd, result);
                }
            }
        }

        if test || rd != 15 {
            self.step_program_counter(4);
        }
        self.cycle_count = self.cycle_count + (if rd == 15 {
            3
        } else {
            1
        });
    }

    /// Wide single data transfer: a word or byte load or store with an
    /// immediate offset, pre- or post-indexed; a post-indexed transfer
    /// always writes the computed address back.
    pub fn arm_single_data_transfer(&mut self, opcode: u32)
        requires
            old(self).wf(),
            old(self).cycle_count + 7 <= usize::MAX,
            old(self).spec_pc() + 8 <= u32::MAX,
            ldrstr_ok(
                *old(self),
                ((opcode >> 12u32) & 0xFu32) as u8,
                ((opcode >> 16u32) & 0xFu32) as u8,
                (opcode & 0xFFFu32) as u32,
                (opcode & 0x100000u32) != 0u32,
                (opcode & 0x1000000u32) != 0u32,
                (opcode & 0x800000u32) != 0u32,
                (opcode & 0x400000u32) != 0u32,
                (opcode & 0x2000000u32) != 0u32,
            ),
            ({
                let rd = ((opcode >> 12u32) & 0xFu32) as u8;
                let load = (opcode & 0x100000u32) != 0u32;
                rd == 15 && load ==> ldrstr_loaded(
                    *old(self),
                    ldrstr_target(
                        *old(self),
                        ((opcode >> 16u32) & 0xFu32) as u8,
                        (opcode & 0xFFFu32) as u32,
                        (opcode & 0x800000u32) != 0u32,
                        (opcode & 0x1000000u32) != 0u32,
                    ),
                    (opcode & 0x400000u32) != 0u32,
                ) <= 0xFFFFFF00u32
            }),
            ({
                let wb = (opcode & 0x200000u32) != 0u32;
                let pre = (opcode & 0x1000000u32) != 0u32;
                (wb || !pre) ==> ((opcode >> 16u32) & 0xFu32) != 15
            }),
        ensures
            arm_single_data_transfer_rel(*old(self), *final(self), opcode),
    {
        let offset = opcode & 0xFFF;
        let rd = ((opcode >> 12) & 0xF) as u8;
        let rb = ((opcode >> 16) & 0xF) as u8;

        let load = (opcode & 0x100000) != 0;
        let write_back = (opcode & 0x200000) != 0;
        let byte = (opcode & 0x400000) != 0;
        let up = (opcode & 0x800000) != 0;
        let pre = (opcode & 0x1000000) != 0;
        let reg = (opcode & 0x2000000) != 0;

        let ghost s0 = *self;
        self.operation_ldr_str(rd, rb, offset, load, write_back, pre, up, byte, reg);
        let ghost s1 = *self;

        if rd != 15 {
            proof {
                assert(slot_val(s1, 15) == slot_val(s0, 15));
            }
            self.step_program_counter(4);
            proof {
                assert(forall|j: int|
                    0 <= j < 31 && j != 15 ==> #[trigger] slot_val(*self, j) == slot_val(s1, j));
            }
        }
    }

    /// Wide halfword and signed transfers with an immediate offset: an
    /// unsigned halfword store or load through the low half of a word, or a
    /// sign-extended byte load.
    #[verifier::rlimit(100)]
    #[verifier::spinoff_prover]
    pub fn arm_halfword_data_transfer_imm(&mut self, opcode: u32)
        requires
            old(self).wf(),
            valid_mode(old(self).spec_mode()),
            old(self).spec_pc() + 8 <= u32::MAX,
            old(self).cycle_count + 6 <= usize::MAX,
            hwt_ok(*old(self), opcode),
        ensures
            arm_halfword_data_transfer_imm_rel(*old(self), *final(self), opcode),
    {
        let offset = ((opcode >> 4) & 0xF0) | (opcode & 0xF);
        let s = (opcode & 0x40) != 0;
        let load = (opcode & 0x100000) != 0;
        let write_back = (opcode & 0x200000) != 0;
        let up = (opcode & 0x800000) != 0;
        let pre = (opcode & 0x1000000) != 0;

        let rd = ((opcode >> 12) & 0xF) as u8;
        let rn = ((opcode >> 16) & 0xF) as u8;
        let mut base = if rn == 15 {
            self.read_register(rn) + 8
        } else {
            self.read_register(rn)
        };

        if pre {
            base = if up {
                base.wrapping_add(offset)
            } else {
                base.wrapping_sub(offset)
            };
        }

        let ghost s0 = *self;

        if !s {
            // Unsigned halfwords through the low half of a word.
            if !load {
                let val = self.read_register(rd) & 0xFFFF;
                self.write_u32(true, base, val);
            } else {
                let val = self.read_u32(true, base) & 0xFFFF;
                let ghost sa = *self;
                self.write_register(rd, val);
                proof {
                    lemma_register_round_trip(sa, *self, rd, val);
                }
            }
        } else {
            // A signed byte, extended through its sign.
            let val = self.read_u8(true, base);
            let ext = if val >= 1 && val <= 0x7F {
                val as u32
            } else {
                0xFFFFFF00 | (val as u32)
            };
            let ghost sa = *self;
            self.write_register(rd, ext);
            proof {
                lemma_register_round_trip(sa, *self, rd, ext);
            }
        }

        if !pre {
            base = if up {
                base.wrapping_add(offset)
            } else {
                base.wrapping_sub(offset)
            };
        }

        let ghost s2 = *self;
        if write_back || !pre {
            self.write_register(rn, base);
            proof {
                lemma_register_round_trip(s2, *self, rn, base);
            }
        }

        let ghost s3 = *self;
        proof {
            assert(slot_val(s3, 15) == slot_val(s0, 15));
        }
        self.step_program_counter(4);
        proof {
            assert(forall|j: int|
                0 <= j < 31 && j != 15 ==> #[trigger] slot_val(*self, j) == slot_val(s3, j));
        }
        self.cycle_count = self.cycle_count + (if !load {
            2
        } else {
            3
        });
    }

    /// Wide block data transfer: load or store a register list against a
    /// base register with the four indexing disciplines and optional
    /// writeback.
    pub fn arm_block_data_transfer(&mut self, opcode: u32)
        requires
            old(self).wf(),
            old(self).spec_pc() + 4 <= u32::MAX,
            old(self).cycle_count + 26 <= usize::MAX,
            ldm_stm_ok(
                *old(self),
                ((opcode >> 16u32) & 0xFu32) as u8,
                (opcode & 0xFFFFu32) as u16,
                (opcode & 0x100000u32) != 0u32,
                (opcode & 0x800000u32) != 0u32,
                (opcode & 0x1000000u32) != 0u32,
                (opcode & 0x400000u32) != 0u32,
            ),
            ((opcode >> 16u32) & 0xFu32) != 15,
        ensures
            arm_block_data_transfer_rel(*old(self), *final(self), opcode),
    {
        let r_list = (opcode & 0xFFFF) as u16;
        let r_base = ((opcode >> 16) & 0xF) as u8;
        let load = (opcode & 0x100000) != 0;
        let wb = (opcode & 0x200000) != 0;
        let s_bit = (opcode & 0x400000) != 0;
        let up = (opcode & 0x800000) != 0;
        let pre = (opcode & 0x1000000) != 0;

        let ghost s0 = *self;
        self.operation_ldm_stm(r_base, r_list, load, wb, pre, up, s_bit);
        let ghost s1 = *self;

        proof {
            assert(((r_list & 0x8000u16) != 0u16) == (((r_list >> 15u16) & 1u16) == 1u16))
                by (bit_vector);
        }
        if load && (r_list & 0x8000) != 0 {
            // The load rewrote the counter; the branch takes effect directly.
        } else {
            proof {
                assert(slot_val(s1, 15) == slot_val(s0, 15));
            }
            self.step_program_counter(4);
            proof {
                assert(forall|j: int|
                    0 <= j < 31 && j != 15 ==> #[trigger] slot_val(*self, j) == slot_val(s1, j));
                if !load {
                    assert forall|b: u32| ram32_ok(b) implies #[trigger] spec_read_u32(*self, b)
                        == spec_read_u32(s1, b) by {}
                }
            }
        }
    }

    /// Dispatches one wide instruction: the condition field gates execution,
    /// and an instruction whose condition fails changes nothing but the
    /// program counter (up by four) and one cycle of time.
    #[verifier::rlimit(100)]
    #[verifier::spinoff_prover]
    pub fn execute_arm(&mut self, opcode: u32)
        requires
            arm_exec_ok(*old(self), opcode),
        ensures
            final(self).wf(),
            old(self).cycle_count <= final(self).cycle_count <= old(self).cycle_count + 24,
            arm_step_rel(*old(self), *final(self), opcode),
            !spec_cond(((opcode >> 28u32) & 0xFu32) as u8, old(self).reg_cpsr) ==> {
                &&& *final(self) == (CPU {
                    registers: final(self).registers,
                    cycle_count: (old(self).cycle_count + 1) as usize,
                    panicked: old(self).panicked || ((opcode >> 28u32) & 0xFu32) > 0xE,
                    ..*old(self)
                })
                &&& final(self).registers@ == old(self).registers@.update(
                    15,
                    (old(self).spec_pc() + 4) as u32,
                )
            },
    {
        let cond = ((opcode >> 28) & 0xF) as u8;

        if !self.should_execute(cond) {
            self.step_program_counter(4);
            self.cycle_count = self.cycle_count + 1;
            return ;
        }

        let instr = (opcode >> 20) & 0xFF;

        if instr <= 0x3F {
            if CPU::opcode_match(opcode, ARM_MASK_MUL_CLR, ARM_MASK_MUL_SET) {
                self.arm_multiply(opcode);
            } else if CPU::opcode_match(opcode, ARM_MASK_MUL_LONG_CLR, ARM_MASK_MUL_LONG_SET) {
                proof {
                    assert(false);
                }
            } else if CPU::opcode_match(opcode, ARM_MASK_SNGL_SWP_CLR, ARM_MASK_SNGL_SWP_SET) {
                proof {
                    assert(false);
                }
            } else if CPU::opcode_match(opcode, ARM_MASK_BX_CLR, ARM_MASK_BX_SET) {
                self.arm_branch_exchange(opcode);
            } else if CPU::opcode_match(opcode, ARM_MASK_HW_REG_CLR, ARM_MASK_HW_REG_SET) {
                proof {
                    assert(false);
                }
            } else if CPU::opcode_match(opcode, ARM_MASK_HW_IMM_CLR, ARM_MASK_HW_IMM_SET) {
                self.arm_halfword_data_transfer_imm(opcode);
            } else if CPU::opcode_match(opcode, ARM_MASK_MRS_CLR, ARM_MASK_MRS_SET) {
                self.arm_mrs(opcode);
            } else if CPU::opcode_match(opcode, ARM_MASK_MSR_CLR, ARM_MASK_MSR_SET) {
                self.arm_msr(opcode);
            } else if CPU::opcode_match(opcode, ARM_MASK_MSR_BITS_CLR, ARM_MASK_MSR_BITS_SET) {
                proof {
                    assert(false);
                }
            } else {
                self.arm_data_processing(opcode);
            }
        } else if instr <= 0x7F {
            if CPU::opcode_match(opcode, ARM_MASK_UNDEF_CLR, ARM_MASK_UNDEF_SET) {
                proof {
                    assert(false);
                }
            } else {
                self.arm_single_data_transfer(opcode);
            }
        } else if instr <= 0x9F {
            proof {
                crate::ops::lemma_rlist_count_monotone((opcode & 0xFFFFu32) as u16, 0, 16);
            }
            self.arm_block_data_transfer(opcode);
        } else {
            self.arm_branch(opcode);
        }
    }

    /// Executes one instruction in the encoding the status word selects.
    pub fn execute(&mut self, opcode: u32)
        requires
            old(self).wf(),
            cpsr_thumb(old(self).reg_cpsr) ==> crate::thumb::thumb_exec_ok(
                *old(self),
                (opcode & 0xFFFFu32) as u16,
            ),
            !cpsr_thumb(old(self).reg_cpsr) ==> arm_exec_ok(*old(self), opcode),
        ensures
            final(self).wf(),
            old(self).cycle_count <= final(self).cycle_count <= old(self).cycle_count + 24,
            exec_step_rel(*old(self), *final(self), opcode),
    {
        if self.is_thumb() {
            self.execute_thumb((opcode & 0xFFFF) as u16);
        } else {
            self.execute_arm(opcode);
        }
    }
}

} // verus!
