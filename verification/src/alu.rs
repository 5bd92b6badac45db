//! The arithmetic/logic unit shared by both encodings: the sixteen data
//! operations with their flag semantics, the barrel shifter that produces
//! operand 2 and the shifter carry, and the condition predicates.

use vstd::prelude::*;

use crate::cpu::{
    cpsr_thumb, flag_c, flag_n, flag_v, flag_z, pc_masked, reg_read, valid_mode, ALU_ADC, ALU_ADD,
    ALU_AND, ALU_BIC, ALU_CMN, ALU_CMP, ALU_EOR, ALU_MOV, ALU_MVN, ALU_ORR, ALU_RSB, ALU_RSC,
    ALU_SBC, ALU_SUB, ALU_TEQ, ALU_TST, CPU,
};

verus! {

broadcast use crate::bits::lemma_u16_and_bound, crate::bits::lemma_u32_and_bound;

/// The high bit of a word, the sign of its two's-complement reading.
pub open spec fn sign_bit(x: u32) -> bool {
    x & 0x80000000u32 != 0u32
}

/// A value wrapped into 32 bits; defined for one step of overflow or
/// underflow on either side.
pub open spec fn wrap32(x: int) -> u32 {
    if x < 0 {
        (x + 0x100000000) as u32
    } else if x > 0xFFFFFFFF {
        (x - 0x100000000) as u32
    } else {
        x as u32
    }
}

/// Right rotation by `r` places, `r` below 32.
pub open spec fn ror32(x: u32, r: u32) -> u32 {
    if r == 0 {
        x
    } else {
        (x >> r) | (x << (32 - r) as u32)
    }
}

/// Arithmetic right shift by `sh` places, `sh` below 32.
pub open spec fn asr32(x: u32, sh: u32) -> u32 {
    ((x as i32) >> sh) as u32
}

/// The carry-in as an integer.
pub open spec fn carry_int(c: bool) -> int {
    if c {
        1
    } else {
        0
    }
}

/// The result of data operation `op` on `a` and `b` with carry-in `c_in`.
pub open spec fn alu_result(op: u8, a: u32, b: u32, c_in: bool) -> u32 {
    if op == ALU_AND || op == ALU_TST {
        a & b
    } else if op == ALU_EOR || op == ALU_TEQ {
        a ^ b
    } else if op == ALU_SUB || op == ALU_CMP {
        wrap32(a - b)
    } else if op == ALU_RSB {
        wrap32(b - a)
    } else if op == ALU_ADD || op == ALU_CMN {
        wrap32(a + b)
    } else if op == ALU_ADC {
        wrap32(a + b + carry_int(c_in))
    } else if op == ALU_SBC {
        wrap32(a - b - 1 + carry_int(c_in))
    } else if op == ALU_RSC {
        wrap32(b - a - 1 + carry_int(c_in))
    } else if op == ALU_ORR {
        a | b
    } else if op == ALU_MOV {
        b
    } else if op == ALU_BIC {
        a & !b
    } else {
        !b
    }
}

/// The carry flag `op` produces: "no borrow" for the subtractions, the carry
/// out for the additions, the old flag for the bit test, clear for the other
/// logical operations (their carry comes from the shifter).
pub open spec fn alu_carry(op: u8, a: u32, b: u32, c_in: bool) -> bool {
    if op == ALU_SUB || op == ALU_CMP {
        a >= b
    } else if op == ALU_RSB {
        b >= a
    } else if op == ALU_ADD || op == ALU_CMN {
        a + b > 0xFFFFFFFF
    } else if op == ALU_ADC {
        a + b + carry_int(c_in) > 0xFFFFFFFF
    } else if op == ALU_SBC {
        a - b - 1 + carry_int(c_in) >= 0
    } else if op == ALU_RSC {
        b - a - 1 + carry_int(c_in) >= 0
    } else if op == ALU_TST {
        c_in
    } else {
        false
    }
}

/// The overflow flag `op` produces: for an addition, both inputs share a sign
/// and the result's differs; for a subtraction, the inputs differ in sign and
/// the result's sign matches the subtrahend's.
pub open spec fn alu_overflow(op: u8, a: u32, b: u32, c_in: bool, v_in: bool) -> bool {
    let r = alu_result(op, a, b, c_in);
    if op == ALU_SUB || op == ALU_CMP || op == ALU_SBC {
        sign_bit(a) != sign_bit(b) && sign_bit(r) == sign_bit(b)
    } else if op == ALU_RSB || op == ALU_RSC {
        sign_bit(b) != sign_bit(a) && sign_bit(r) == sign_bit(a)
    } else if op == ALU_ADD || op == ALU_CMN || op == ALU_ADC {
        sign_bit(a) == sign_bit(b) && sign_bit(r) != sign_bit(a)
    } else if op == ALU_TST {
        v_in
    } else {
        false
    }
}

/// One barrel-shifter step: `ty` selects logical left, logical right,
/// arithmetic right or rotate right; returns the shifted value and the
/// shifter carry.  An amount of 0 encodes a shift by 32 for the logical and
/// arithmetic right shifts, and the rotate-with-extend form for the rotation.
pub open spec fn spec_shift(ty: u8, amount: u32, rm: u32, c_in: bool) -> (u32, bool) {
    if ty == 0 {
        if amount == 0 {
            (rm, c_in)
        } else if amount <= 31 {
            (rm << amount, (rm & (1u32 << (32 - amount) as u32)) != 0u32)
        } else if amount == 32 {
            (0u32, rm & 1u32 != 0u32)
        } else {
            (0u32, false)
        }
    } else if ty == 1 {
        if amount == 0 {
            (0u32, sign_bit(rm))
        } else if amount <= 31 {
            (rm >> amount, (rm & (1u32 << (amount - 1) as u32)) != 0u32)
        } else {
            (0u32, false)
        }
    } else if ty == 2 {
        if 1 <= amount <= 31 {
            (asr32(rm, amount), (rm & (1u32 << (amount - 1) as u32)) != 0u32)
        } else if sign_bit(rm) {
            (0xFFFFFFFFu32, true)
        } else {
            (0u32, false)
        }
    } else {
        if amount == 0 {
            (((rm >> 1u32) | ((carry_int(c_in) as u32) << 31u32)) as u32, rm & 1u32 != 0u32)
        } else if amount & 31u32 == 0u32 {
            (rm, sign_bit(rm))
        } else {
            let r = amount & 31u32;
            (ror32(rm, r), (rm & (1u32 << (r - 1) as u32)) != 0u32)
        }
    }
}

/// Operand 2 of a wide data-processing instruction: in immediate form an
/// 8-bit value rotated right by twice the 4-bit amount with the carry flag
/// passed through; in register form a register run through the barrel
/// shifter, by an immediate amount or by the low byte of another register.
pub open spec fn spec_operand2(c: CPU, imm: bool, op2: u16) -> (u32, bool) {
    if imm {
        let rotate = ((op2 >> 8u16) & 0xFu16) as u32;
        let val = (op2 & 0xFFu16) as u32;
        (ror32(val, (2 * rotate) as u32), flag_c(c.reg_cpsr))
    } else {
        let rm = (op2 & 0xFu16) as u8;
        let rm_val = reg_read(c, rm);
        let ty = ((op2 >> 5u16) & 0x3u16) as u8;
        let amount = if (op2 & 0x10u16) == 0u16 {
            ((op2 >> 7u16) & 0x1Fu16) as u32
        } else {
            reg_read(c, ((op2 >> 8u16) & 0xFu16) as u8) & 0xFFu32
        };
        spec_shift(ty, amount, rm_val, flag_c(c.reg_cpsr))
    }
}

/// The 16 condition predicates over the four flags; 14 always holds and 15
/// never executes here.
pub open spec fn spec_cond(cond: u8, w: u32) -> bool {
    let n = flag_n(w);
    let z = flag_z(w);
    let c = flag_c(w);
    let v = flag_v(w);
    if cond == 0x0 {
        z
    } else if cond == 0x1 {
        !z
    } else if cond == 0x2 {
        c
    } else if cond == 0x3 {
        !c
    } else if cond == 0x4 {
        n
    } else if cond == 0x5 {
        !n
    } else if cond == 0x6 {
        v
    } else if cond == 0x7 {
        !v
    } else if cond == 0x8 {
        c && !z
    } else if cond == 0x9 {
        !c || z
    } else if cond == 0xA {
        n == v
    } else if cond == 0xB {
        n != v
    } else if cond == 0xC {
        !z && (n == v)
    } else if cond == 0xD {
        z || (n != v)
    } else if cond == 0xE {
        true
    } else {
        false
    }
}

/// Right rotation by `r` places, `r` below 32.
fn ror32_exec(x: u32, r: u32) -> (res: u32)
    requires
        r < 32,
    ensures
        res == ror32(x, r),
{
    if r == 0 {
        x
    } else {
        (x >> r) | (x << (32 - r))
    }
}

impl CPU {
    /// Performs data operation `op` on the two operands and returns
    /// (result, N, Z, C, V).  N is the result's high bit and Z its zero test;
    /// C and V follow the operation's carry and signed-overflow rules, with
    /// the bit-test operation keeping the current flags.
    pub fn alu(&self, op: u8, operand1: u32, operand2: u32) -> (r: (u32, bool, bool, bool, bool))
        requires
            op <= 0xF,
        ensures
            r.0 == alu_result(op, operand1, operand2, flag_c(self.reg_cpsr)),
            r.1 == sign_bit(r.0),
            r.2 == (r.0 == 0u32),
            r.3 == alu_carry(op, operand1, operand2, flag_c(self.reg_cpsr)),
            r.4 == alu_overflow(
                op,
                operand1,
                operand2,
                flag_c(self.reg_cpsr),
                flag_v(self.reg_cpsr),
            ),
    {
        let a = operand1;
        let b = operand2;
        let cb: u32 = if self.get_flag_c() {
            1
        } else {
            0
        };
        let a_neg = (a & 0x80000000) != 0;
        let b_neg = (b & 0x80000000) != 0;

        let (result, carry, overflow): (u32, bool, bool) = if op == ALU_AND || op == ALU_TST {
            (a & b, self.get_flag_c() && op == ALU_TST, self.get_flag_v() && op == ALU_TST)
        } else if op == ALU_EOR || op == ALU_TEQ {
            (a ^ b, false, false)
        } else if op == ALU_SUB || op == ALU_CMP {
            let result = a.wrapping_sub(b);
            (result, a >= b, a_neg != b_neg && ((result & 0x80000000) != 0) == b_neg)
        } else if op == ALU_RSB {
            let result = b.wrapping_sub(a);
            (result, b >= a, b_neg != a_neg && ((result & 0x80000000) != 0) == a_neg)
        } else if op == ALU_ADD || op == ALU_CMN {
            let result = a.wrapping_add(b);
            let carry = (a as u64) + (b as u64) > 0xFFFFFFFF;
            (result, carry, a_neg == b_neg && ((result & 0x80000000) != 0) != a_neg)
        } else if op == ALU_ADC {
            let result = a.wrapping_add(b).wrapping_add(cb);
            let carry = (a as u64) + (b as u64) + (cb as u64) > 0xFFFFFFFF;
            (result, carry, a_neg == b_neg && ((result & 0x80000000) != 0) != a_neg)
        } else if op == ALU_SBC {
            let result = a.wrapping_sub(b).wrapping_sub(1).wrapping_add(cb);
            let carry = (a as u64) + (cb as u64) >= (b as u64) + 1;
            (result, carry, a_neg != b_neg && ((result & 0x80000000) != 0) == b_neg)
        } else if op == ALU_RSC {
            let result = b.wrapping_sub(a).wrapping_sub(1).wrapping_add(cb);
            let carry = (b as u64) + (cb as u64) >= (a as u64) + 1;
            (result, carry, b_neg != a_neg && ((result & 0x80000000) != 0) == a_neg)
        } else if op == ALU_ORR {
            (a | b, false, false)
        } else if op == ALU_MOV {
            (b, false, false)
        } else if op == ALU_BIC {
            (a & !b, false, false)
        } else {
            (!b, false, false)
        };

        let negative = (result & 0x80000000) != 0;
        let zero = result == 0;
        (result, negative, zero, carry, overflow)
    }

    /// The bit-test operation: N and Z from the conjunction, C and V kept.
    pub fn alu_tst(&self, operand1: u32, operand2: u32) -> (r: (u32, bool, bool, bool, bool))
        ensures
            r.0 == (operand1 & operand2),
            r.1 == sign_bit(r.0),
            r.2 == (r.0 == 0u32),
            r.3 == flag_c(self.reg_cpsr),
            r.4 == flag_v(self.reg_cpsr),
    {
        let result = operand1 & operand2;
        (result, (result & 0x80000000) != 0, result == 0, self.get_flag_c(), self.get_flag_v())
    }

    /// Computes operand 2 and the shifter carry; see `spec_operand2`.
    pub fn alu_operand2_calc(&self, imm: bool, op2: u16) -> (r: (u32, bool))
        requires
            self.wf(),
            !imm ==> valid_mode(self.spec_mode()),
        ensures
            r == spec_operand2(*self, imm, op2),
    {
        if imm {
            let rotate = ((op2 >> 8) & 0xF) as u32;
            let val = (op2 & 0xFF) as u32;

            (ror32_exec(val, rotate * 2), self.get_flag_c())
        } else {
            let rm = (op2 & 0xF) as u8;
            let rm_val = self.read_register(rm);
            let shift_type = ((op2 >> 5) & 0x3) as u8;
            let shift_imm = (op2 & 0x10) == 0x0;

            let shift_amount: u32 = if shift_imm {
                ((op2 >> 7) & 0x1F) as u32
            } else {
                let rs = ((op2 >> 8) & 0xF) as u8;
                self.read_register(rs) & 0xFF
            };

            self.shift_with_carry(shift_type, shift_amount, rm_val)
        }
    }

    /// Runs `rm` through the barrel shifter; see `spec_shift`.
    fn shift_with_carry(&self, ty: u8, amount: u32, rm: u32) -> (r: (u32, bool))
        requires
            ty <= 3,
        ensures
            r == spec_shift(ty, amount, rm, flag_c(self.reg_cpsr)),
    {
        if ty == 0 {
            if amount == 0 {
                (rm, self.get_flag_c())
            } else if amount <= 31 {
                (rm << amount, (rm & (1u32 << (32 - amount))) != 0)
            } else if amount == 32 {
                (0, rm & 1 != 0)
            } else {
                (0, false)
            }
        } else if ty == 1 {
            if amount == 0 {
                // An encoded amount of 0 selects a shift by 32.
                (0, (rm & 0x80000000) != 0)
            } else if amount <= 31 {
                (rm >> amount, (rm & (1u32 << (amount - 1))) != 0)
            } else {
                (0, false)
            }
        } else if ty == 2 {
            if 1 <= amount && amount <= 31 {
                (((rm as i32) >> amount) as u32, (rm & (1u32 << (amount - 1))) != 0)
            } else if (rm & 0x80000000) != 0 {
                // A shift by 32 or more replicates the sign everywhere.
                (0xFFFFFFFF, true)
            } else {
                (0, false)
            }
        } else {
            if amount == 0 {
                // Rotate with extend: the carry shifts in from the top.
                let cb: u32 = if self.get_flag_c() {
                    1
                } else {
                    0
                };
                ((rm >> 1) | (cb << 31), rm & 1 != 0)
            } else if amount & 31 == 0 {
                (rm, (rm & 0x80000000) != 0)
            } else {
                let r = amount & 31;
                proof {
                    assert(amount & 31u32 < 32u32) by (bit_vector);
                }
                (ror32_exec(rm, r), (rm & (1u32 << (r - 1))) != 0)
            }
        }
    }

    /// Evaluates condition predicate `cond` against the flags; a predicate
    /// above 14 marks the core faulted and does not execute.
    pub fn should_execute(&mut self, conditional: u8) -> (r: bool)
        ensures
            r == spec_cond(conditional, old(self).reg_cpsr),
            *final(self) == (CPU {
                panicked: old(self).panicked || conditional > 0xE,
                ..*old(self)
            }),
    {
        let n = self.get_flag_n();
        let z = self.get_flag_z();
        let c = self.get_flag_c();
        let v = self.get_flag_v();

        if conditional == 0x0 {
            z
        } else if conditional == 0x1 {
            !z
        } else if conditional == 0x2 {
            c
        } else if conditional == 0x3 {
            !c
        } else if conditional == 0x4 {
            n
        } else if conditional == 0x5 {
            !n
        } else if conditional == 0x6 {
            v
        } else if conditional == 0x7 {
            !v
        } else if conditional == 0x8 {
            c && !z
        } else if conditional == 0x9 {
            !c || z
        } else if conditional == 0xA {
            n == v
        } else if conditional == 0xB {
            n != v
        } else if conditional == 0xC {
            !z && (n == v)
        } else if conditional == 0xD {
            z || (n != v)
        } else if conditional == 0xE {
            true
        } else {
            self.panicked = true;
            false
        }
    }
}

/// The boundary behavior of the barrel shifter: a logical right shift whose
/// encoded amount is 0 shifts by 32, giving 0 with the old bit 31 as carry;
/// an arithmetic right shift of a negative value by 32 or more gives all
/// ones with the old bit 31 as carry.
pub proof fn lemma_shift_boundaries(rm: u32, c_in: bool, amount: u32)
    ensures
        spec_shift(1, 0, rm, c_in) == (0u32, sign_bit(rm)),
        amount >= 32 && sign_bit(rm) ==> spec_shift(2, amount, rm, c_in) == (0xFFFFFFFFu32, true),
{
}

} // verus!
