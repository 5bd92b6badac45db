use gba_core::cpu::{
    ALU_CMN, ALU_CMP, ALU_TEQ, ALU_TST, ARM_MASK_MUL_CLR, ARM_MASK_MUL_LONG_CLR,
    ARM_MASK_MUL_LONG_SET, ARM_MASK_MUL_SET, CPU, IRQ_HBLANK, IRQ_VBLANK,
};

#[test]
fn opcode_match_multiply() {
    let opcode: u32 = 0b00000000001100001111000010010001;
    assert!(CPU::opcode_match(opcode, ARM_MASK_MUL_CLR, ARM_MASK_MUL_SET));

    assert!(!CPU::opcode_match(
        opcode,
        ARM_MASK_MUL_LONG_CLR,
        ARM_MASK_MUL_LONG_SET
    ));
}

#[test]
fn arm_mov_imm() {
    let mut cpu = CPU::new();
    cpu.set_thumb(false);

    // MOV R0,#0x12
    let opcode: u32 = 0b1110_00_1_1101_0_0000_0000_000000010010;
    cpu.execute_arm(opcode);

    assert!(cpu.read_register(0) == 0x12);
}

// Compact format 1
#[test]
fn thumb_move_shifted_register() {
    let mut cpu = CPU::new();

    let rs = 0b101;
    let rs_signed: u32 = 0x97000000;
    let offset = 2;

    let opcode_lsl = 0b0000000000001000 | (offset << 6);
    let opcode_lsr = 0b0000100000001000 | (offset << 6);
    let opcode_asr = 0b0001000000001000 | (offset << 6);

    cpu.reg_cpsr = 0x00000000;
    cpu.write_register(1, rs);
    cpu.execute_thumb(opcode_lsl);
    assert_eq!(cpu.read_register(0), rs << offset);
    assert_eq!(cpu.get_flag_n(), false);
    assert_eq!(cpu.get_flag_z(), false);
    assert_eq!(cpu.get_flag_c(), false);
    assert_eq!(cpu.get_flag_v(), false);

    // Shift to zero
    cpu.reg_cpsr = 0x00000000;
    cpu.write_register(1, 0x2);
    cpu.execute_thumb(opcode_lsr);
    assert_eq!(cpu.read_register(0), 0x2 >> offset);
    assert_eq!(cpu.get_flag_n(), false);
    assert_eq!(cpu.get_flag_z(), true);
    assert_eq!(cpu.get_flag_c(), true);
    assert_eq!(cpu.get_flag_v(), false);

    cpu.reg_cpsr = 0x00000000;
    cpu.write_register(1, rs);
    cpu.execute_thumb(opcode_lsr);
    assert_eq!(cpu.read_register(0), rs >> offset);
    assert_eq!(cpu.get_flag_n(), false);
    assert_eq!(cpu.get_flag_z(), false);
    assert_eq!(cpu.get_flag_c(), false);
    assert_eq!(cpu.get_flag_v(), false);

    cpu.reg_cpsr = 0x00000000;
    cpu.write_register(1, rs);
    cpu.execute_thumb(opcode_asr);
    assert_eq!(cpu.read_register(0), rs >> offset);
    assert_eq!(cpu.get_flag_n(), false);
    assert_eq!(cpu.get_flag_z(), false);
    assert_eq!(cpu.get_flag_c(), false);
    assert_eq!(cpu.get_flag_v(), false);

    // ASR signed
    cpu.reg_cpsr = 0x00000000;
    cpu.write_register(1, rs_signed);
    cpu.execute_thumb(opcode_asr);
    assert_eq!(cpu.read_register(0), ((rs_signed as i32) >> 2) as u32);
    assert_eq!(cpu.get_flag_n(), true);
    assert_eq!(cpu.get_flag_z(), false);
    assert_eq!(cpu.get_flag_c(), false);
    assert_eq!(cpu.get_flag_v(), false);
}

/// Compact format 2
#[test]
fn thumb_add_subtract() {
    let mut cpu = CPU::new();

    let rd = 0;
    let rs = 8;
    let rn = 4;
    let imm: u16 = 2 << 6;

    // Rd=0, Rs=1, Rn=2, Imm = 2
    let opcode_reg_add: u16 = 0b0001100010001000;
    let opcode_imm_add: u16 = 0b0001110000001000 | imm;
    let opcode_reg_sub: u16 = 0b0001101010001000;
    let opcode_imm_sub: u16 = 0b0001111010001000 | imm;

    cpu.write_register(0, rd);
    cpu.write_register(1, rs);
    cpu.write_register(2, rn);
    cpu.execute_thumb(opcode_reg_add);
    assert!(cpu.read_register(0) == 12);
    assert!(cpu.read_register(1) == rs);
    assert!(cpu.read_register(2) == rn);

    cpu.write_register(0, rd);
    cpu.write_register(1, rs);
    cpu.write_register(2, rn);
    cpu.execute_thumb(opcode_imm_add);
    assert!(cpu.read_register(0) == 10);
    assert!(cpu.read_register(1) == rs);
    assert!(cpu.read_register(2) == rn);

    cpu.write_register(0, rd);
    cpu.write_register(1, rs);
    cpu.write_register(2, rn);
    cpu.execute_thumb(opcode_reg_sub);
    assert!(cpu.read_register(0) == 4);
    assert!(cpu.read_register(1) == rs);
    assert!(cpu.read_register(2) == rn);

    cpu.write_register(0, rd);
    cpu.write_register(1, rs);
    cpu.write_register(2, rn);
    cpu.execute_thumb(opcode_imm_sub);
    assert!(cpu.read_register(0) == 6);
    assert!(cpu.read_register(1) == rs);
    assert!(cpu.read_register(2) == rn);

    // Status checks Negative
    cpu.write_register(1, 0x80000001);
    cpu.write_register(2, 1);
    cpu.reg_cpsr = 0x0;
    cpu.execute_thumb(opcode_reg_add);
    assert_eq!(cpu.get_flag_n(), true);
    assert_eq!(cpu.get_flag_z(), false);
    assert_eq!(cpu.get_flag_c(), false);
    assert_eq!(cpu.get_flag_v(), false);

    // Status checks Zero
    cpu.write_register(1, 0);
    cpu.write_register(2, 0);
    cpu.reg_cpsr = 0x0;
    cpu.execute_thumb(opcode_reg_add);
    assert_eq!(cpu.get_flag_n(), false);
    assert_eq!(cpu.get_flag_z(), true);
    assert_eq!(cpu.get_flag_c(), false);
    assert_eq!(cpu.get_flag_v(), false);

    // Carry; the signed inputs differ in sign, so no overflow.
    cpu.write_register(1, 0xFFFFFFFF);
    cpu.write_register(2, 1);
    cpu.reg_cpsr = 0x0;
    cpu.execute_thumb(opcode_reg_add);
    assert_eq!(cpu.get_flag_c(), true);
    assert_eq!(cpu.get_flag_v(), false);
}

/// Compact format 3
#[test]
fn thumb_mov_cmp_add_sub_imm() {
    let mut cpu = CPU::new();

    // Rd => 0, Offset => 8
    let offset = 8;
    let rd = 24;

    let opcode_mov = 0x2000;
    let _opcode_cmp = 0x2800 | offset;
    let opcode_add = 0x3000;
    let _opcode_sub = 0x3800 | offset;

    // MOV
    cpu.write_register(0, rd);
    cpu.reg_cpsr = 0;
    cpu.execute_thumb(opcode_mov | 8);
    assert_eq!(cpu.read_register(0), 8);
    assert!(!cpu.get_flag_n());
    assert!(!cpu.get_flag_z());
    assert!(!cpu.get_flag_c());
    assert!(!cpu.get_flag_v());

    // MOV zero
    cpu.write_register(0, rd);
    cpu.reg_cpsr = 0;
    cpu.execute_thumb(opcode_mov | 0);
    assert_eq!(cpu.read_register(0), 0);
    assert!(!cpu.get_flag_n());
    assert!(cpu.get_flag_z());
    assert!(!cpu.get_flag_c());
    assert!(!cpu.get_flag_v());

    // ADD
    cpu.write_register(0, rd);
    cpu.reg_cpsr = 0;
    cpu.execute_thumb(opcode_add | 8);
    assert_eq!(cpu.read_register(0), rd + 8);
    assert!(!cpu.get_flag_n());
    assert!(!cpu.get_flag_z());
    assert!(!cpu.get_flag_c());
    assert!(!cpu.get_flag_v());

    // ADD zero
    cpu.write_register(0, 0);
    cpu.reg_cpsr = 0;
    cpu.execute_thumb(opcode_add | 0);
    assert_eq!(cpu.read_register(0), 0);
    assert!(!cpu.get_flag_n());
    assert!(cpu.get_flag_z());
    assert!(!cpu.get_flag_c());
    assert!(!cpu.get_flag_v());

    // ADD negative & overflow
    cpu.write_register(0, 0x7FFFFFFF);
    cpu.reg_cpsr = 0;
    cpu.execute_thumb(opcode_add | 1);
    assert_eq!(cpu.read_register(0), 0x80000000);
    assert!(cpu.get_flag_n());
    assert!(!cpu.get_flag_z());
    assert!(!cpu.get_flag_c());
    assert!(cpu.get_flag_v());

    // ADD zero, carry
    cpu.write_register(0, 0xFFFFFFFF);
    cpu.reg_cpsr = 0;
    cpu.execute_thumb(opcode_add | 1);
    assert_eq!(cpu.read_register(0), 0x0);
    assert!(cpu.get_flag_z());
    assert!(cpu.get_flag_c());
}

#[test]
fn alu() {
    let cpu = CPU::new();

    // TST
    let (_, n, z, _, _) = cpu.alu(ALU_TST, 0x10, 0x10);
    assert!(!n);
    assert!(!z);

    let (_, n, z, _, _) = cpu.alu(ALU_TST, 0x10, 0x20);
    assert!(!n);
    assert!(z);

    let (_, n, z, _, _) = cpu.alu(ALU_TST, 0x30, 0x10);
    assert!(!n);
    assert!(!z);

    // TEQ
    let (_, n, z, _, _) = cpu.alu(ALU_TEQ, 0x10, 0x10);
    assert!(!n);
    assert!(z);

    let (_, n, z, _, _) = cpu.alu(ALU_TEQ, 0x10, 0x20);
    assert!(!n);
    assert!(!z);

    let (_, n, z, _, _) = cpu.alu(ALU_TEQ, 0x10, 0x30);
    assert!(!n);
    assert!(!z);

    // CMP
    let (_, n, z, c, v) = cpu.alu(ALU_CMP, 5, 10);
    assert!(n);
    assert!(!z);
    assert!(!c);
    assert!(!v);

    let (_, n, z, c, v) = cpu.alu(ALU_CMP, 10, 5);
    assert!(!n);
    assert!(!z);
    assert!(c);
    assert!(!v);

    let (_, n, z, c, v) = cpu.alu(ALU_CMP, 5, 5);
    assert!(!n);
    assert!(z);
    assert!(c);
    assert!(!v);

    // CMN
    let (_, n, z, c, v) = cpu.alu(ALU_CMN, 5, 10);
    assert!(!n);
    assert!(!z);
    assert!(!c);
    assert!(!v);

    let (_, n, z, c, v) = cpu.alu(ALU_CMN, 10, 5);
    assert!(!n);
    assert!(!z);
    assert!(!c);
    assert!(!v);

    let (_, n, z, c, v) = cpu.alu(ALU_CMN, 5, 5);
    assert!(!n);
    assert!(!z);
    assert!(!c);
    assert!(!v);

    let op1: i32 = -5;
    let (_, n, z, c, v) = cpu.alu(ALU_CMN, op1 as u32, 5);
    assert!(!n);
    assert!(z);
    assert!(c);
    assert!(!v);

    let op1: i32 = -5;
    let (_, n, z, c, v) = cpu.alu(ALU_CMN, op1 as u32, op1 as u32);
    assert!(n);
    assert!(!z);
    assert!(c);
    assert!(!v);

    let mut cpu = cpu;
    cpu.set_flag_n(true);
    cpu.set_flag_z(true);
    cpu.set_flag_c(true);
    cpu.set_flag_v(true);
    let (_, n, z, c, v) = cpu.alu(ALU_CMP, 0x3E, 0x00);
    assert!(!n);
    assert!(!z);
    assert!(c);
    assert!(!v);
}

/// Compact format 5
#[test]
fn thumb_hi_register_op_bx() {
    let mut cpu = CPU::new();

    let opcode_bx_low = 0b0100011100000000;
    let opcode_bx_high = 0b0100011101000000;

    // BX Rs (0)
    let addr_thumb: u32 = 0x4D500001;

    cpu.write_register(0, addr_thumb);
    cpu.execute_thumb(opcode_bx_low);
    assert_eq!(cpu.get_program_counter(), addr_thumb & 0xFFFFFFFE);
    assert!(cpu.is_thumb());

    let addr_arm: u32 = 0x4D500000;
    cpu.write_register(0, addr_arm);
    cpu.execute_thumb(opcode_bx_low);
    assert_eq!(cpu.get_program_counter(), addr_arm & 0xFFFFFFFE);
    assert!(!cpu.is_thumb());

    // BX Hs (8)
    let addr_thumb: u32 = 0x4D500001;

    cpu.write_register(8, addr_thumb);
    cpu.execute_thumb(opcode_bx_high);
    assert_eq!(cpu.get_program_counter(), addr_thumb & 0xFFFFFFFE);
    assert!(cpu.is_thumb());

    let addr_arm: u32 = 0x4D500000;
    cpu.write_register(8, addr_arm);
    cpu.execute_thumb(opcode_bx_high);
    assert_eq!(cpu.get_program_counter(), addr_arm & 0xFFFFFFFE);
    assert!(!cpu.is_thumb());
}

/// Compact format 6
#[test]
fn thumb_pc_relative_load() {
    let mut cpu = CPU::new();

    let offset: u32 = 8;
    let opcode = 0x4800 | ((offset as u16) >> 2);
    let val = 0xDEADBEEF;

    cpu.reg_cpsr = 0x4D504D50;
    cpu.set_program_counter(0x02000000);
    cpu.write_u32(false, 0x02000000 + offset + 4, val);
    cpu.execute_thumb(opcode);
    assert_eq!(cpu.read_u32(false, 0x02000000 + offset + 4), val);
    assert_eq!(cpu.read_register(0), val);
    assert_eq!(cpu.reg_cpsr, 0x4D504D50);
}

/// Compact format 7
#[test]
fn thumb_load_store_register_offset() {
    let mut cpu = CPU::new();

    // Rd => 0, Rb => 1, Ro => 2
    let rb: u32 = 0x03000000;
    let rd: u32 = 0xDEADBEEF;
    let ro: u32 = 0x8;
    let addr = rb + ro;

    let opcode_str = 0x5088;
    let opcode_strb = 0x5488;
    let opcode_ldr = 0x5888;
    let opcode_ldrb = 0x5C88;

    // STR
    cpu.write_register(0, rd);
    cpu.write_register(1, rb);
    cpu.write_register(2, ro);
    cpu.execute_thumb(opcode_str);
    assert_eq!(cpu.read_u32(false, addr), rd);
    cpu.write_u32(false, addr, 0);

    // STRB
    cpu.write_register(0, rd);
    cpu.write_register(1, rb);
    cpu.write_register(2, ro);
    cpu.execute_thumb(opcode_strb);
    assert_eq!(cpu.read_u8(false, addr), (rd & 0xFF) as u8);

    // LDR
    cpu.write_register(0, 0);
    cpu.write_register(1, rb);
    cpu.write_register(2, ro);
    cpu.write_u32(false, addr, rd);
    cpu.execute_thumb(opcode_ldr);
    assert_eq!(cpu.read_register(0), rd);

    // LDRB
    cpu.write_register(0, 0);
    cpu.write_register(1, rb);
    cpu.write_register(2, ro);
    cpu.write_u8(false, addr, (rd & 0xFF) as u8);
    cpu.execute_thumb(opcode_ldrb);
    assert_eq!(cpu.read_register(0), rd & 0xFF);
}

/// Compact format 8
#[test]
fn thumb_load_store_sign_extended_byte_halfword() {
    let mut cpu = CPU::new();

    // Rd => 0, Ro => 1, Rb => 2
    let rd: u32 = 0xDEADBEEF;
    let rd_sbh: u32 = 0b1001000110100_10101010_11001101;
    let ro: u32 = 0x04;
    let rb: u32 = 0x03000000;

    let opcode_strh = 0x5250;
    let opcode_ldrh = 0x5A50;
    let opcode_ldsb = 0x5650;
    let opcode_ldsh = 0x5E50;

    // STRH R0,[R2,R1]
    cpu.write_register(0, rd);
    cpu.write_register(1, ro);
    cpu.write_register(2, rb);
    cpu.execute_thumb(opcode_strh);
    assert_eq!(cpu.read_u32(false, rb + ro), rd & 0xFFFF);

    // LDRH R0,[R2,R1]
    cpu.write_register(0, 0);
    cpu.write_register(1, ro);
    cpu.write_register(2, rb);
    cpu.write_u32(false, rb + ro, rd);
    cpu.execute_thumb(opcode_ldrh);
    assert_eq!(cpu.read_register(0), rd & 0xFFFF);

    // LDSB R0,[R2,R1]
    cpu.write_register(0, 0);
    cpu.write_register(1, ro);
    cpu.write_register(2, rb);
    cpu.write_u32(false, rb + ro, rd_sbh);
    cpu.execute_thumb(opcode_ldsb);
    assert_eq!(cpu.read_register(0), (rd_sbh & 0xFF) | 0xFFFFFF00);

    // LDSH R0,[R2,R1]
    cpu.write_register(0, 0);
    cpu.write_register(1, ro);
    cpu.write_register(2, rb);
    cpu.write_u32(false, rb + ro, rd_sbh);
    cpu.execute_thumb(opcode_ldsh);
    assert_eq!(cpu.read_register(0), (rd_sbh & 0xFFFF) | 0xFFFF0000);
}

/// Compact format 9
#[test]
fn thumb_load_store_immediate() {
    let mut cpu = CPU::new();

    let rd: u32 = 2;
    let rb: u32 = 0x02000000;
    let offset: u16 = 8;
    let val: u32 = 0xdeadbeef;
    let val8: u8 = 0x4D;

    // Rd=0, Rb=1, Offset=10
    let opcode_str: u16 = 0b0110000000001000 | ((offset >> 2) << 6);
    let opcode_ldr: u16 = 0b0110100000001000 | ((offset >> 2) << 6);
    let opcode_strb: u16 = 0b0111000000001000 | (offset << 6);
    let opcode_ldrb: u16 = 0b0111100000001000 | (offset << 6);

    cpu.write_register(0, rd);
    cpu.write_register(1, rb);
    cpu.write_u32(false, rb + offset as u32, val);
    cpu.execute_thumb(opcode_str);
    assert!(cpu.read_u32(false, rb + offset as u32) == rd);
    assert!(cpu.read_register(0) == rd);
    assert!(cpu.read_register(1) == rb);

    cpu.write_register(0, rd);
    cpu.write_register(1, rb);
    cpu.write_u32(false, rb + offset as u32, val);
    cpu.execute_thumb(opcode_ldr);
    assert!(cpu.read_register(0) == val);
    assert!(cpu.read_register(1) == rb);

    cpu.write_register(0, rd);
    cpu.write_register(1, rb);
    cpu.write_u8(false, rb + offset as u32, val8);
    cpu.execute_thumb(opcode_strb);
    assert!(cpu.read_u8(false, rb + offset as u32) == (rd as u8));
    assert!(cpu.read_register(0) == rd);
    assert!(cpu.read_register(1) == rb);

    cpu.write_register(0, rd);
    cpu.write_register(1, rb);
    cpu.write_u8(false, rb + offset as u32, val8);
    cpu.execute_thumb(opcode_ldrb);
    assert!(cpu.read_u8(false, rb + offset as u32) == val8);
    assert!(cpu.read_register(0) == (val8 as u32));
    assert!(cpu.read_register(1) == rb);
}

/// Compact format 10
#[test]
fn thumb_load_store_halfword() {
    let mut cpu = CPU::new();

    // Rd => 0, Rb => 1, Imm => 8
    let rd: u32 = 0xDEADBEEF;
    let rb: u32 = 0x03000000;
    let imm: u16 = 8;
    let addr = rb + (imm as u32);

    let opcode_strh = 0x8008 | ((imm >> 1) << 6);
    let opcode_ldrh = 0x8808 | ((imm >> 1) << 6);

    // STRH
    cpu.write_register(0, rd);
    cpu.write_register(1, rb);
    cpu.execute_thumb(opcode_strh);
    assert_eq!(cpu.read_u32(false, addr), rd & 0xFFFF);

    // LDRH
    cpu.write_register(0, 0);
    cpu.write_register(1, rb);
    cpu.write_u32(false, addr, rd);
    cpu.execute_thumb(opcode_ldrh);
    assert_eq!(cpu.read_register(0), rd & 0xFFFF);
}

/// Compact format 11
#[test]
fn thumb_sp_relative_load_store() {
    let mut cpu = CPU::new();

    let rd: u32 = 0xDEADBEEF;
    let sp: u32 = 0x03000000;
    let offset: u16 = 8;
    let opcode_str = 0x9000 | (offset >> 2);
    let opcode_ldr = 0x9800 | (offset >> 2);

    let offset = offset as u32;

    // STR
    cpu.write_register(13, sp);
    cpu.write_register(0, rd);
    cpu.execute_thumb(opcode_str);
    assert_eq!(cpu.read_u32(false, sp + offset), rd);

    // LDR
    cpu.write_register(13, sp);
    cpu.write_register(0, 0);
    cpu.execute_thumb(opcode_ldr);
    assert_eq!(cpu.read_register(0), rd);
}

// Compact format 12
#[test]
fn thumb_load_address() {
    let mut cpu = CPU::new();

    // rd=0, word8=16
    let val: u16 = 16;
    let opcode_pc = 0xA000 | (val >> 2);
    let opcode_sp = 0xA800 | (val >> 2);

    let val = val as u32;
    // The counter reads four bytes ahead.
    cpu.set_program_counter(0x0000);

    cpu.write_register(0, 0x0);
    cpu.execute_thumb(opcode_pc);
    assert_eq!(cpu.read_register(0), val + 4);

    // Bit 1 is forced to 0 when using the counter.
    cpu.set_program_counter(0x0002);
    cpu.write_register(0, 0x0);
    cpu.execute_thumb(opcode_pc);
    assert_eq!(cpu.read_register(0), val + 4);

    // Stack-pointer form.
    cpu.write_register(13, 0x1000);
    cpu.write_register(0, 0x0);
    cpu.execute_thumb(opcode_sp);
    assert_eq!(cpu.read_register(0), 0x1000 + val);
}

/// Compact format 13
#[test]
fn thumb_offset_to_sp() {
    let mut cpu = CPU::new();

    let imm = 16;
    let opcode_add = 0xB000 | (imm >> 2);
    let opcode_sub = 0xB080 | (imm >> 2);

    let cpsr = 0xDEADBEEF;
    cpu.reg_cpsr = cpsr;

    cpu.write_register(13, 0);
    cpu.execute_thumb(opcode_add);
    assert_eq!(cpu.read_register(13), 16);
    assert_eq!(cpu.reg_cpsr, cpsr);

    cpu.write_register(13, 16);
    cpu.execute_thumb(opcode_sub);
    assert_eq!(cpu.read_register(13), 0);
    assert_eq!(cpu.reg_cpsr, cpsr);
}

// Compact format 14
#[test]
fn thumb_push_pop() {
    let mut cpu = CPU::new();

    let base: u32 = 0x03000000;

    // Push/pop R0 & R2
    let opcode_push = 0b1011010000000000 | (1 << 0) | (1 << 2);
    let opcode_push_lr = 0b1011010100000000 | (1 << 0) | (1 << 2);
    let opcode_pop = 0b1011110000000000 | (1 << 0) | (1 << 2);
    let opcode_pop_lr = 0b1011110100000000 | (1 << 0) | (1 << 2);

    let r0: u32 = 0x0123;
    let r1: u32 = 0x4567;
    let r2: u32 = 0x89ab;
    let rl: u32 = 0xdeadbeef;
    cpu.write_register(0, r0);
    cpu.write_register(1, r1);
    cpu.write_register(2, r2);
    cpu.write_register(14, rl);

    // Push {R0, R2}
    cpu.write_register(13, base | 16);
    cpu.execute_thumb(opcode_push);
    assert_eq!(cpu.read_register(13), base | 8);
    assert_eq!(cpu.read_u32(false, base | 8), r0);
    assert_eq!(cpu.read_u32(false, base | 12), r2);

    // Pop {R2, R0}
    cpu.write_register(0, 0);
    cpu.write_register(1, 0);
    cpu.write_register(2, 0);
    cpu.execute_thumb(opcode_pop);
    assert_eq!(cpu.read_register(0), r0);
    assert_eq!(cpu.read_register(1), 0);
    assert_eq!(cpu.read_register(2), r2);

    // Push {R0, R2, LR}
    cpu.write_register(0, r0);
    cpu.write_register(1, r1);
    cpu.write_register(2, r2);
    cpu.write_register(14, rl);

    cpu.write_u32(false, base, 0);
    cpu.write_u32(false, base | 4, 0);
    cpu.write_u32(false, base | 8, 0);
    cpu.write_u32(false, base | 12, 0);
    cpu.write_u32(false, base | 16, 0);
    cpu.write_register(13, base | 16);
    cpu.execute_thumb(opcode_push_lr);
    assert_eq!(cpu.read_register(13), base + 4);
    assert_eq!(cpu.read_u32(false, base + 4), r0);
    assert_eq!(cpu.read_u32(false, base + 8), r2);
    assert_eq!(cpu.read_u32(false, base + 12), rl);

    // Pop {R2, R0, PC}
    cpu.write_register(0, 0);
    cpu.write_register(1, 0);
    cpu.write_register(2, 0);
    cpu.set_program_counter(0);
    cpu.execute_thumb(opcode_pop_lr);
    assert_eq!(cpu.read_register(0), r0);
    assert_eq!(cpu.read_register(1), 0);
    assert_eq!(cpu.read_register(2), r2);
}

/// Compact format 15
#[test]
fn thumb_multiple_load_store() {
    let mut cpu = CPU::new();

    // STMIA/LDMIA R3!,{R0, R2}
    let rb: u32 = 0x03000000;
    let r0: u32 = 0x1234;
    let r2: u32 = 0x9abc;
    let opcode_store = 0xC300 | (1 << 0) | (1 << 2);
    let opcode_load = 0xCB00 | (1 << 0) | (1 << 2);

    // STMIA R3!,{R0, R2}
    cpu.write_register(0, r0);
    cpu.write_register(2, r2);
    cpu.write_register(3, rb);
    cpu.execute_thumb(opcode_store);
    assert_eq!(cpu.read_u32(false, rb), r0);
    assert_eq!(cpu.read_u32(false, rb + 4), r2);
    assert_eq!(cpu.read_register(3), rb + 8);

    // LDMIA R3!,{R0, R2}
    cpu.write_register(0, 0);
    cpu.write_register(2, 0);
    cpu.write_register(3, rb);
    cpu.execute_thumb(opcode_load);
    assert_eq!(cpu.read_register(0), r0);
    assert_eq!(cpu.read_register(2), r2);
    assert_eq!(cpu.read_register(3), rb + 8);
}

/// Compact format 16
#[test]
fn thumb_conditional_branch() {
    let mut cpu = CPU::new();
    cpu.set_thumb(true);

    let opcode_bne = 0xD1FC;
    let pc: u32 = 0x08000194;

    // Take negative
    cpu.set_flag_z(false);
    cpu.set_program_counter(pc);
    cpu.execute_thumb(opcode_bne);
    assert_eq!(cpu.get_program_counter(), pc - 8 + 4);

    // Skip negative
    cpu.set_flag_z(true);
    cpu.set_program_counter(pc);
    cpu.execute_thumb(opcode_bne);
    assert_eq!(cpu.get_program_counter(), pc + 2);

    let opcode_bne = 0xD104;

    // Take positive
    cpu.set_flag_z(false);
    cpu.set_program_counter(pc);
    cpu.execute_thumb(opcode_bne);
    assert_eq!(cpu.get_program_counter(), pc + 8 + 4);

    // Skip positive
    cpu.set_flag_z(true);
    cpu.set_program_counter(pc);
    cpu.execute_thumb(opcode_bne);
    assert_eq!(cpu.get_program_counter(), pc + 2);
}

/// Compact format 18
#[test]
fn thumb_unconditional_branch() {
    let mut cpu = CPU::new();

    // Forward
    let offset = 8;
    let opcode = 0xE000 | (offset >> 1);

    cpu.set_program_counter(0);
    cpu.execute_thumb(opcode);
    assert_eq!(cpu.get_program_counter(), (offset as u32) + 4);

    // Backward (-8)
    let offset = 0xFF8;
    let opcode = 0xE000 | (offset >> 1);

    let pc = 1000;
    cpu.set_program_counter(pc);
    cpu.execute_thumb(opcode);
    assert_eq!(cpu.get_program_counter(), pc + 4 - 8);
}

/// Compact format 19
#[test]
fn thumb_long_branch_link() {
    let mut cpu = CPU::new();

    // Forward
    let addr: u32 = 0x8;
    let offset = (addr >> 1) & 0x3FFFFF;
    let offset_high = ((offset >> 11) & 0x3FF) as u16;
    let offset_low = (offset & 0x3FF) as u16;

    let opcode_high = 0xF000 | offset_high;
    let opcode_low = 0xF800 | offset_low;

    let lr_val = 4 + ((offset_high as u32) << 12);

    // First halfword
    cpu.set_program_counter(0);
    cpu.execute_thumb(opcode_high);
    assert_eq!(cpu.read_register(14), lr_val);
    assert_eq!(cpu.get_program_counter(), 2);

    // Second halfword
    cpu.execute_thumb(opcode_low);
    assert_eq!(
        cpu.get_program_counter(),
        lr_val + ((offset_low as u32) << 1)
    );
    assert_eq!(cpu.read_register(14), 4 | 1);
    assert_eq!(cpu.get_program_counter(), 4 + addr);

    // Backward (-8)
    let addr: u32 = 0x7FFFF8;
    let offset = (addr >> 1) & 0x3FFFFF;
    let offset_high = ((offset >> 11) & 0x7FF) as u16;
    let offset_low = (offset & 0x7FF) as u16;

    let opcode_high = 0xF000 | offset_high;
    let opcode_low = 0xF800 | offset_low;
    let pc = 1000;

    // First halfword
    cpu.set_program_counter(pc);
    cpu.execute_thumb(opcode_high);
    assert_eq!(cpu.get_program_counter(), pc + 2);

    // Second halfword
    cpu.execute_thumb(opcode_low);
    assert_eq!(cpu.read_register(14), (pc + 4) | 1);
    assert_eq!(cpu.get_program_counter(), pc + 4 - 8);
}

/// Post-increment load
#[test]
fn operation_ldmia() {
    let mut cpu = CPU::new();

    let wb = true;
    let load = true;
    let pre = false;
    let up = true;

    let r_base = 13;
    let r_list = (1 << 2) | (1 << 0);

    let base_ptr: u32 = 0x03000000;

    let r0 = 123;
    let r2 = 789;

    cpu.write_register(r_base, base_ptr);

    cpu.write_u32(false, base_ptr + 0, r0);
    cpu.write_u32(false, base_ptr + 4, r2);

    cpu.operation_ldm_stm(r_base, r_list, load, wb, pre, up, false);
    assert_eq!(cpu.read_register(r_base), base_ptr + 8);
    assert_eq!(cpu.read_register(0), r0);
    assert_eq!(cpu.read_register(2), r2);
    assert_eq!(cpu.cycle_count, 2 + 2);
}

/// Pre-decrement store
#[test]
fn operation_stmdb() {
    let mut cpu = CPU::new();

    let wb = true;
    let load = false;
    let pre = true;
    let up = false;

    let r_base = 13;
    let r_list = (1 << 2) | (1 << 0);

    let base_ptr: u32 = 0x03000010;

    let r0 = 123;
    let r2 = 789;

    cpu.write_register(r_base, base_ptr);
    cpu.write_register(0, r0);
    cpu.write_register(2, r2);

    cpu.write_u32(false, base_ptr + 0, r0);
    cpu.write_u32(false, base_ptr + 4, r2);

    cpu.operation_ldm_stm(r_base, r_list, load, wb, pre, up, false);
    assert_eq!(cpu.read_register(r_base), base_ptr - 8);
    assert_eq!(cpu.read_u32(false, base_ptr - 8), r0);
    assert_eq!(cpu.read_u32(false, base_ptr - 4), r2);
    assert_eq!(cpu.cycle_count, 1 + 2);
}

#[test]
fn syscall_div() {
    let mut cpu = CPU::new();

    cpu.write_register(0, (-1234 as i32) as u32);
    cpu.write_register(1, 10 as u32);
    cpu.syscall_div();
    assert_eq!(cpu.read_register(0) as i32, -123);
    assert_eq!(cpu.read_register(1) as i32, -4);
    assert_eq!(cpu.read_register(2), 123);
}

#[test]
fn memcpy() {
    let mut cpu = CPU::new();

    let src: u32 = 0x02000000;
    let dest: u32 = 0x03000000;
    let val: u32 = 0xDEADBEEF;

    cpu.write_u32(false, src, val);
    cpu.memcpy(dest, src, 4);
    assert!(cpu.read_u32(false, dest) == val);
}

#[test]
fn memfill32() {
    let mut cpu = CPU::new();

    let dest: u32 = 0x03000000;
    let val: u32 = 0xDEADBEEF;

    cpu.memfill32(dest, val, 2);
    assert!(cpu.read_u32(false, dest) == val);
    assert!(cpu.read_u32(false, dest + 4) == val);
    assert!(cpu.read_u32(false, dest + 8) != val);
}

/// Halt runs until an enabled interrupt is triggered
#[test]
fn syscall_halt() {
    let mut cpu = CPU::new();

    // Delivery needs the master enable on and the mask bit clear.
    cpu.io_ime = 1;
    cpu.disable_irq(false);

    // Enable the V-blank interrupt.
    cpu.io_ie |= IRQ_VBLANK;

    // Enable V-blank and H-blank interrupts in the display status.
    cpu.lcd.set_dispstat(0x0018);

    cpu.syscall_halt();
    assert!(cpu.halt);

    assert!(!cpu.can_irq_trigger(IRQ_HBLANK));
    assert!(cpu.can_irq_trigger(IRQ_VBLANK));

    cpu.trigger_irq(IRQ_VBLANK);
    assert!(!cpu.halt);
}

/// Halt runs until an enabled interrupt is triggered
#[test]
fn syscall_vblank_intr_wait() {
    let mut cpu = CPU::new();

    // Delivery needs the mask bit clear; the wait service raises the master
    // enable itself.
    cpu.disable_irq(false);

    assert!(!cpu.can_irq_trigger(IRQ_HBLANK));
    assert!(!cpu.can_irq_trigger(IRQ_VBLANK));

    // Enable the V-blank interrupt.
    cpu.io_ie |= IRQ_VBLANK;

    assert!(!cpu.can_irq_trigger(IRQ_HBLANK));
    assert!(!cpu.can_irq_trigger(IRQ_VBLANK));

    // Enable V-blank and H-blank interrupts in the display status.
    cpu.lcd.set_dispstat(0x0018);

    assert!(!cpu.can_irq_trigger(IRQ_HBLANK));
    assert!(!cpu.can_irq_trigger(IRQ_VBLANK));

    cpu.syscall_vblank_intr_wait();
    assert!(cpu.halt);

    assert!(!cpu.can_irq_trigger(IRQ_HBLANK));
    assert!(cpu.can_irq_trigger(IRQ_VBLANK));

    cpu.trigger_irq(IRQ_VBLANK);
    assert!(!cpu.halt);
}

#[test]
fn alu_operand2_calc_imm() {
    let cpu = CPU::new();

    let imm: u32 = 0x4D;
    let rot: u32 = 0x3;

    let (result, _) = cpu.alu_operand2_calc(true, ((rot << 8) | imm) as u16);
    assert_eq!(result, imm.rotate_right(rot * 2));
}

#[test]
fn alu_operand2_calc_shift_imm() {
    let mut cpu = CPU::new();

    let rm_val: u32 = 0x4D;
    cpu.write_register(0, rm_val);

    let shift_amount = 5;
    let op_lsl = 0b00101_00_0_0000 | (shift_amount << 7);
    let op_lsr = 0b00101_01_0_0000 | (shift_amount << 7);
    let op_asr = 0b00101_10_0_0000 | (shift_amount << 7);
    let op_ror = 0b00101_11_0_0000 | (shift_amount << 7);

    // LSL R0,5
    let (result, _) = cpu.alu_operand2_calc(false, op_lsl);
    assert_eq!(result, rm_val << shift_amount);

    // LSR R0,5
    let (result, _) = cpu.alu_operand2_calc(false, op_lsr);
    assert_eq!(result, rm_val >> shift_amount);

    // ASR R0,5
    let (result, _) = cpu.alu_operand2_calc(false, op_asr);
    assert_eq!(result as i32, (rm_val as i32) >> shift_amount);

    // ROR R0,5
    let (result, _) = cpu.alu_operand2_calc(false, op_ror);
    assert_eq!(result, rm_val.rotate_right(shift_amount as u32));
}

#[test]
fn alu_operand2_calc_shift_reg() {
    let mut cpu = CPU::new();

    let rm_val: u32 = 0x4D;
    let shift_amount: u32 = 5;

    cpu.write_register(0, rm_val);
    cpu.write_register(1, shift_amount);

    let op_lsl = 0b0001_0_00_1_0000;
    let op_lsr = 0b0001_0_01_1_0000;
    let op_asr = 0b0001_0_10_1_0000;
    let op_ror = 0b0001_0_11_1_0000;

    // LSL R0,R1
    let (result, _) = cpu.alu_operand2_calc(false, op_lsl);
    assert_eq!(result, rm_val << shift_amount);

    // LSR R0,R1
    let (result, _) = cpu.alu_operand2_calc(false, op_lsr);
    assert_eq!(result, rm_val >> shift_amount);

    // ASR R0,R1
    let (result, _) = cpu.alu_operand2_calc(false, op_asr);
    assert_eq!(result as i32, (rm_val as i32) >> shift_amount);

    // ROR R0,R1
    let (result, _) = cpu.alu_operand2_calc(false, op_ror);
    assert_eq!(result, rm_val.rotate_right(shift_amount));
}

#[test]
fn arm_multiply() {
    let mut cpu = CPU::new();

    let rd = 0;
    let rm = 1;
    let rs = 2;
    let rn = 3;

    let opcode_mul =
        0xE0100090 | ((rd as u32) << 16) | ((rn as u32) << 12) | ((rs as u32) << 8) | (rm as u32);
    let opcode_mla =
        0xE0300090 | ((rd as u32) << 16) | ((rn as u32) << 12) | ((rs as u32) << 8) | (rm as u32);

    // MUL Rd, Rm, Rs (-10 * 20 => -200)
    cpu.write_register(rd, 0);
    cpu.write_register(rm, 0xFFFFFFF6);
    cpu.write_register(rs, 0x00000014);
    cpu.write_register(rn, 1);
    cpu.execute_arm(opcode_mul);
    assert_eq!(cpu.read_register(rd), 0xFFFFFF38);

    // MLA Rd, Rm, Rs, Rn (-10 * 20 + 1 => -199)
    cpu.write_register(rd, 0);
    cpu.write_register(rm, 0xFFFFFFF6);
    cpu.write_register(rs, 0x00000014);
    cpu.write_register(rn, 1);
    cpu.execute_arm(opcode_mla);
    assert_eq!(cpu.read_register(rd), 0xFFFFFF39);
}
