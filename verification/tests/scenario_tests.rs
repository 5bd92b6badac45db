use gba_core::cpu::{ALU_ADD, ALU_SUB, CPU, IRQ_VBLANK, MODE_IRQ};
use gba_core::sched::Emulator;

/// Wide-form move immediate: after one step the register holds the immediate
/// and the counter advanced by four.
#[test]
fn scenario_move_immediate() {
    let mut cpu = CPU::new();
    cpu.set_thumb(false);
    cpu.set_program_counter(0x08000000);

    // MOV R0,#0x12
    let opcode: u32 = 0b1110_00_1_1101_0_0000_0000_000000010010;
    cpu.execute(opcode);

    assert_eq!(cpu.read_register(0), 0x12);
    assert_eq!(cpu.get_program_counter(), 0x08000004);
}

/// Compact push-pop round trip over the stack in work RAM 2.
#[test]
fn scenario_push_pop_round_trip() {
    let mut cpu = CPU::new();
    cpu.set_thumb(true);
    cpu.set_program_counter(0x03000100);

    cpu.write_register(0, 0x0123);
    cpu.write_register(2, 0x89AB);
    cpu.write_register(14, 0xDEADBEEF);
    cpu.write_register(13, 0x03000010);

    // PUSH {R0, R2, LR}
    cpu.execute_thumb(0b1011010100000101);
    assert_eq!(cpu.read_register(13), 0x03000004);
    assert_eq!(cpu.read_u32(false, 0x03000004), 0x0123);
    assert_eq!(cpu.read_u32(false, 0x03000008), 0x89AB);
    assert_eq!(cpu.read_u32(false, 0x0300000C), 0xDEADBEEF);

    // POP {R0, R2, PC}
    cpu.write_register(0, 0);
    cpu.write_register(2, 0);
    cpu.execute_thumb(0b1011110100000101);
    assert_eq!(cpu.read_register(0), 0x0123);
    assert_eq!(cpu.read_register(2), 0x89AB);
    // The loaded counter is masked to the compact encoding's alignment.
    assert_eq!(cpu.get_program_counter(), 0xDEADBEEF & 0xFFFFFFFE);
}

/// Signed divide service: -1234 / 10.
#[test]
fn scenario_signed_divide_service() {
    let mut cpu = CPU::new();
    cpu.write_register(0, (-1234i32) as u32);
    cpu.write_register(1, 10);
    cpu.bios_syscall(0x06);
    assert_eq!(cpu.read_register(0) as i32, -123);
    assert_eq!(cpu.read_register(1) as i32, -4);
    assert_eq!(cpu.read_register(2), 123);
}

/// Swapped-argument divide service.
#[test]
fn scenario_swapped_divide_service() {
    let mut cpu = CPU::new();
    cpu.write_register(0, 10);
    cpu.write_register(1, (-1234i32) as u32);
    cpu.syscall_div_arm();
    assert_eq!(cpu.read_register(0) as i32, -123);
    assert_eq!(cpu.read_register(1) as i32, -4);
    assert_eq!(cpu.read_register(2), 123);
}

/// DMA word copy on channel 0: one word from work RAM 1 into work RAM 2,
/// with the enable bit cleared afterwards.
#[test]
fn scenario_dma_word_copy() {
    let mut cpu = CPU::new();

    cpu.write_u32(false, 0x02000000, 0xDEADBEEF);

    // Program channel 0: source, destination, count 1, word units,
    // immediate timing, enabled.
    cpu.write_u32(true, 0x040000B0, 0x02000000);
    cpu.write_u32(true, 0x040000B4, 0x03000000);
    cpu.write_u32(true, 0x040000B8, 0x84000000 | 1);

    assert_eq!(cpu.dma_check(), Some(0));
    cpu.dma_run(0);

    assert_eq!(cpu.read_u32(false, 0x03000000), 0xDEADBEEF);
    // The enable bit is cleared in place.
    assert_eq!(cpu.read_u32(true, 0x040000B8) & 0x80000000, 0);
    assert_eq!(cpu.dma_check(), None);
}

/// V-blank interrupt delivery: stepping the emulator until the scanline
/// counter reaches 160 delivers the interrupt through the firmware vector.
#[test]
fn scenario_vblank_interrupt_delivery() {
    let mut emu = Emulator::new();
    emu.cpu.reset();

    // A wide branch-to-self at the cartridge entry.
    let rom: Vec<u8> = vec![0xFE, 0xFF, 0xFF, 0xEA];
    emu.cpu.load_rom(rom);

    // Unmask interrupts, enable V-blank in the enable mask, the master
    // enable, and the display's V-blank interrupt gate.
    emu.cpu.disable_irq(false);
    emu.cpu.io_ie |= IRQ_VBLANK;
    emu.cpu.io_ime = 1;
    emu.cpu.lcd.set_dispstat(0x0008);

    let mut steps = 0;
    while emu.cpu.lcd.get_vcount() < 160 && steps < 200000 {
        emu.step();
        steps += 1;
    }
    // One more step crosses into the vertical blank and delivers.
    while emu.cpu.get_mode() != MODE_IRQ && steps < 200100 {
        emu.step();
        steps += 1;
    }

    assert_eq!(emu.cpu.io_if & IRQ_VBLANK, IRQ_VBLANK);
    assert!(!emu.cpu.halt);
    assert_eq!(emu.cpu.get_mode(), MODE_IRQ);
    assert_eq!(emu.cpu.get_program_counter(), 0x18);
    // The banked link register holds the return address.
    assert_eq!(emu.cpu.regs_irq[1] % 4, 0);
}

/// Compact logical shift right: result zero with the last bit out in C.
#[test]
fn scenario_compact_lsr() {
    let mut cpu = CPU::new();
    cpu.reg_cpsr = 0;
    cpu.write_register(1, 0x00000002);

    // LSR R0, R1, #2
    let opcode: u16 = 0b0000100010001000;
    cpu.execute_thumb(opcode);

    assert_eq!(cpu.read_register(0), 0);
    assert!(cpu.get_flag_z());
    assert!(cpu.get_flag_c());
    assert!(!cpu.get_flag_n());
    assert!(!cpu.get_flag_v());
}

/// Register round trip: a write in one mode reads back in that mode, and a
/// banked write in another mode does not disturb it.
#[test]
fn register_bank_round_trip() {
    let mut cpu = CPU::new();

    // Supervisor mode out of reset: register 13 goes to the supervisor bank.
    cpu.write_register(13, 0x11111111);
    assert_eq!(cpu.read_register(13), 0x11111111);

    // The same index in IRQ mode is another physical slot.
    cpu.set_mode(MODE_IRQ);
    cpu.write_register(13, 0x22222222);
    assert_eq!(cpu.read_register(13), 0x22222222);

    // Back in supervisor mode the first value is untouched.
    cpu.set_mode(0x3);
    assert_eq!(cpu.read_register(13), 0x11111111);

    // A low register is shared by every mode.
    cpu.write_register(3, 77);
    cpu.set_mode(MODE_IRQ);
    assert_eq!(cpu.read_register(3), 77);
}

/// Memory round trips at each width, modulo alignment.
#[test]
fn memory_round_trips() {
    let mut cpu = CPU::new();

    cpu.write_u8(false, 0x02000005, 0xAB);
    assert_eq!(cpu.read_u8(false, 0x02000005), 0xAB);

    cpu.write_u8(false, 0x03000010, 0x34);
    cpu.write_u8(false, 0x03000011, 0x12);
    assert_eq!(cpu.read_u16(false, 0x03000010), 0x1234);

    cpu.write_u32(false, 0x06000100, 0xCAFEF00D);
    assert_eq!(cpu.read_u32(false, 0x06000100), 0xCAFEF00D);

    // The scratch mirror re-maps onto the tail of work RAM 2.
    cpu.write_u32(false, 0x03FFFF20, 0x55AA55AA);
    assert_eq!(cpu.read_u32(false, 0x03007F20), 0x55AA55AA);
}

/// The computed N and Z always equal the result's high bit and zero test.
#[test]
fn alu_sign_and_zero_flags() {
    let cpu = CPU::new();

    let (r, n, z, _, _) = cpu.alu(ALU_ADD, 0x7FFFFFFF, 1);
    assert_eq!(r, 0x80000000);
    assert!(n);
    assert!(!z);

    let (r, n, z, _, _) = cpu.alu(ALU_SUB, 5, 5);
    assert_eq!(r, 0);
    assert!(!n);
    assert!(z);
}

/// A failing condition leaves everything but the counter alone.
#[test]
fn condition_failure_only_advances_counter() {
    let mut cpu = CPU::new();
    cpu.set_thumb(false);
    cpu.set_program_counter(0x08000000);
    cpu.write_register(0, 7);
    cpu.reg_cpsr &= !0x40000000;

    // MOVEQ R0,#0x12 with Z clear does not execute.
    let opcode: u32 = 0b0000_00_1_1101_0_0000_0000_000000010010;
    cpu.execute(opcode);

    assert_eq!(cpu.read_register(0), 7);
    assert_eq!(cpu.get_program_counter(), 0x08000004);
}

/// Entering IRQ mode and returning through a flag-setting data-processing
/// write to the counter restores the status word exactly.
#[test]
fn irq_entry_and_return_restore_cpsr() {
    let mut cpu = CPU::new();
    cpu.set_program_counter(0x08000100);
    let before = cpu.reg_cpsr;

    cpu.trigger_irq(IRQ_VBLANK);
    assert_eq!(cpu.get_mode(), MODE_IRQ);
    assert_eq!(cpu.get_program_counter(), 0x18);

    // SUBS PC, LR, #4: the exception return.
    let opcode: u32 = 0xE25EF004;
    cpu.execute_arm(opcode);

    assert_eq!(cpu.reg_cpsr, before);
}

/// The block-transfer writeback moves the base by four bytes per register.
#[test]
fn block_transfer_base_delta() {
    let mut cpu = CPU::new();
    cpu.write_register(13, 0x03000040);
    // Store five registers, descending with pre-decrement.
    cpu.operation_ldm_stm(13, 0b11111, false, true, true, false, false);
    assert_eq!(cpu.read_register(13), 0x03000040 - 20);

    cpu.write_register(4, 0x03000040);
    cpu.operation_ldm_stm(4, 0b101, true, true, false, true, false);
    assert_eq!(cpu.read_register(4), 0x03000040 + 8);
}

/// A post-indexed single data transfer always writes the computed address
/// back, writeback bit or not.
#[test]
fn post_indexed_transfer_writes_back() {
    let mut cpu = CPU::new();
    cpu.set_thumb(false);
    cpu.write_register(1, 0x02000010);
    cpu.write_register(0, 0xFEEDFACE);

    // Post-indexed STR R0,[R1],#8 without the writeback bit.
    cpu.operation_ldr_str(0, 1, 8, false, false, false, true, false, false);
    assert_eq!(cpu.read_u32(false, 0x02000010), 0xFEEDFACE);
    assert_eq!(cpu.read_register(1), 0x02000018);
}

/// The scanline counter wraps 227 to 0 and the V-blank flag covers exactly
/// 160 through 226.
#[test]
fn scanline_wrap_and_vblank_flag() {
    let mut cpu = CPU::new();

    cpu.lcd.set_vcount(159);
    let v = cpu.lcd.increment_vcount();
    assert_eq!(v, 160);
    assert!(cpu.lcd.get_dispstat() & 0x1 != 0);

    cpu.lcd.set_vcount(226);
    cpu.lcd.increment_vcount();
    assert_eq!(cpu.lcd.get_vcount(), 227);
    assert!(cpu.lcd.get_dispstat() & 0x1 == 0);

    let v = cpu.lcd.increment_vcount();
    assert_eq!(v, 0);
    assert!(cpu.lcd.get_dispstat() & 0x1 == 0);

    cpu.lcd.set_vcount(100);
    cpu.lcd.increment_vcount();
    assert!(cpu.lcd.get_dispstat() & 0x1 == 0);
}

/// The shifter encodes a right shift by zero as a shift by thirty-two, and a
/// long arithmetic shift of a negative value fills with the sign.
#[test]
fn shifter_boundary_behavior() {
    let mut cpu = CPU::new();
    cpu.write_register(0, 0x80000001);

    // LSR R0,#0 encodes a shift by 32: zero result, carry from bit 31.
    let (result, carry) = cpu.alu_operand2_calc(false, 0b00000_01_0_0000);
    assert_eq!(result, 0);
    assert!(carry);

    // ASR by 32 or more of a negative value gives all ones, carry bit 31.
    cpu.write_register(1, 40);
    let (result, carry) = cpu.alu_operand2_calc(false, 0b0001_0_10_1_0000);
    assert_eq!(result, 0xFFFFFFFF);
    assert!(carry);
}

/// The wake gate: halt is cleared exactly when an allowed source triggers.
#[test]
fn halt_cleared_exactly_on_allowed_trigger() {
    let mut cpu = CPU::new();
    cpu.io_ime = 1;
    cpu.disable_irq(false);
    cpu.syscall_halt();
    assert!(cpu.halt);

    // Not allowed: nothing enabled, so the halt stays.
    assert!(!cpu.try_trigger_irq(IRQ_VBLANK));
    assert!(cpu.halt);

    // Allowed: the enable mask and the display gate are open.
    cpu.io_ie |= IRQ_VBLANK;
    cpu.lcd.set_dispstat(0x0008);
    assert!(cpu.try_trigger_irq(IRQ_VBLANK));
    assert!(!cpu.halt);
}

/// The keypad state word keeps released bits high.
#[test]
fn keypad_press_release() {
    let mut pad = gba_core::keypad::Keypad::new();
    assert_eq!(pad.keyinput, 0xFFFF);
    pad.press(0x0001);
    assert_eq!(pad.keyinput, 0xFFFE);
    pad.release(0x0001);
    assert_eq!(pad.keyinput, 0xFFFF);
    assert!(!pad.is_irq_enabled());
    pad.keycnt = 0x4000;
    assert!(pad.is_irq_enabled());
}

/// The serial block's halfword accessors round-trip the joy words, and a
/// byte write changes only the addressed lane.
#[test]
fn serial_accessors() {
    let mut serial = gba_core::serial::Serial::new();
    serial.write_u32(0x150, 0xAABBCCDD);
    assert_eq!(serial.read_u16(0x150), 0xCCDD);
    assert_eq!(serial.read_u16(0x152), 0xAABB);
    assert_eq!(serial.read_u32(0x150), 0xAABBCCDD);
    serial.write_u8(0x134, 0x7F);
    assert_eq!(serial.read_u16(0x134), 0x007F);

    serial.write_u32(0x150, 0x11223344);
    serial.write_u8(0x152, 0xAB);
    assert_eq!(serial.read_u32(0x150), 0x11AB3344);
    serial.write_u32(0x154, 0x55667788);
    serial.write_u8(0x157, 0x01);
    assert_eq!(serial.read_u32(0x154), 0x01667788);
}

/// The RAM-clear service zeroes exactly the selected regions.
#[test]
fn ram_reset_selection() {
    let mut cpu = CPU::new();
    cpu.write_u8(false, 0x02000000, 0x11);
    cpu.write_u8(false, 0x03000000, 0x22);
    cpu.write_u8(false, 0x03007F00, 0x33);

    // Clear only work RAM 1.
    cpu.write_register(0, 0x1);
    cpu.syscall_register_ram_reset();
    assert_eq!(cpu.read_u8(false, 0x02000000), 0);
    assert_eq!(cpu.read_u8(false, 0x03000000), 0x22);

    // Clear work RAM 2, which spares its top 512 bytes.
    cpu.write_register(0, 0x2);
    cpu.syscall_register_ram_reset();
    assert_eq!(cpu.read_u8(false, 0x03000000), 0);
    assert_eq!(cpu.read_u8(false, 0x03007F00), 0x33);
}

/// The fast fill service replicates one word over the destination.
#[test]
fn cpu_fast_set_fill() {
    let mut cpu = CPU::new();
    cpu.write_u32(false, 0x02000000, 0x01020304);
    cpu.write_register(0, 0x02000000);
    cpu.write_register(1, 0x03000100);
    cpu.write_register(2, 8 | 0x01000000);
    cpu.syscall_cpu_fast_set();
    let mut k = 0;
    while k < 8 {
        assert_eq!(cpu.read_u32(false, 0x03000100 + 4 * k), 0x01020304);
        k += 1;
    }
}

/// The exception return restores the counter together with the status word.
#[test]
fn exception_return_restores_counter() {
    let mut cpu = CPU::new();
    cpu.set_program_counter(0x08000100);
    cpu.trigger_irq(IRQ_VBLANK);
    assert_eq!(cpu.read_register(14), 0x08000104);

    // SUBS PC, LR, #4 lands exactly on the saved return point.
    cpu.execute_arm(0xE25EF004);
    assert_eq!(cpu.get_program_counter(), 0x08000100);
}

/// The IRQ gate demands the master enable and a clear mask bit even while
/// halted.
#[test]
fn irq_gate_demands_master_enable() {
    let mut cpu = CPU::new();
    cpu.io_ie |= IRQ_VBLANK;
    cpu.lcd.set_dispstat(0x0008);
    cpu.syscall_halt();
    // Master enable off: no delivery, halted or not.
    assert!(!cpu.can_irq_trigger(IRQ_VBLANK));
    cpu.io_ime = 1;
    // The mask bit is still set out of reset: no delivery.
    assert!(!cpu.can_irq_trigger(IRQ_VBLANK));
    cpu.disable_irq(false);
    assert!(cpu.can_irq_trigger(IRQ_VBLANK));
}

/// A halfword DMA with a decrementing destination and a cartridge source.
#[test]
fn dma_halfword_decrement_from_cartridge() {
    let mut cpu = CPU::new();
    let rom: Vec<u8> = vec![0x11, 0x22, 0x33, 0x44, 0x55, 0x66, 0x77, 0x88];
    cpu.load_rom(rom);

    // Channel 1: cartridge source (incrementing), destination walking down
    // from 0x03000014, three halfword units, completion interrupt on.
    cpu.write_u32(true, 0x040000BC, 0x08000000);
    cpu.write_u32(true, 0x040000C0, 0x03000014);
    cpu.write_u32(true, 0x040000C4, 0xC0200000 | 3);
    cpu.dma_run(1);

    assert_eq!(cpu.read_u16(false, 0x03000014), 0x2211);
    assert_eq!(cpu.read_u16(false, 0x03000012), 0x4433);
    assert_eq!(cpu.read_u16(false, 0x03000010), 0x6655);
    // The completion interrupt raised the channel's pending bit.
    assert_eq!(cpu.io_if & 0x0200, 0x0200);
}

/// The copy-or-fill service moves words in order.
#[test]
fn cpu_set_word_copy() {
    let mut cpu = CPU::new();
    cpu.write_u32(false, 0x02000000, 0x01020304);
    cpu.write_u32(false, 0x02000004, 0x05060708);
    cpu.write_register(0, 0x02000000);
    cpu.write_register(1, 0x03000040);
    cpu.write_register(2, 2 | 0x04000000);
    cpu.bios_syscall(0x0B);
    assert_eq!(cpu.read_u32(false, 0x03000040), 0x01020304);
    assert_eq!(cpu.read_u32(false, 0x03000044), 0x05060708);
}

/// A word write into the firmware region raises the recoverable fault flag.
#[test]
fn firmware_write_faults_recoverably() {
    let mut cpu = CPU::new();
    assert!(!cpu.panicked);
    cpu.write_u32(false, 0x00000100, 0xDEADBEEF);
    assert!(cpu.panicked);
}

/// The full-range comparison updates all four flags.
#[test]
fn hi_register_cmp_flags() {
    let mut cpu = CPU::new();
    cpu.reg_cpsr = 0;
    cpu.write_register(0, 5);
    cpu.write_register(8, 5);
    // CMP R0, R8
    cpu.execute_thumb(0b0100010101000000);
    assert!(!cpu.get_flag_n());
    assert!(cpu.get_flag_z());
    assert!(cpu.get_flag_c());
    assert!(!cpu.get_flag_v());
}

/// Block loads may include the counter, which takes the loaded value.
#[test]
fn block_load_into_counter() {
    let mut cpu = CPU::new();
    cpu.set_thumb(false);
    cpu.write_register(1, 0x03000020);
    cpu.write_u32(false, 0x03000020, 0x12345678);
    cpu.write_u32(false, 0x03000024, 0x08000204);
    // LDMIA R1!, {R0, PC}
    cpu.execute_arm(0xE8B18001);
    assert_eq!(cpu.read_register(0), 0x12345678);
    assert_eq!(cpu.get_program_counter(), 0x08000204);
    assert_eq!(cpu.read_register(1), 0x03000028);
}

/// The cartridge windows span the full 32 MiB image.
#[test]
fn cartridge_high_offset_readable() {
    let mut cpu = CPU::new();
    let mut rom: Vec<u8> = vec![0; 0x0100_0004];
    rom[0x0100_0000] = 0xAA;
    rom[0x0100_0001] = 0xBB;
    cpu.load_rom(rom);
    assert_eq!(cpu.read_u8(false, 0x09000000), 0xAA);
    assert_eq!(cpu.read_u16(false, 0x09000000), 0xBBAA);
}
