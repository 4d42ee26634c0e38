use gameboy_core::bus::{Bus, INTERRUPT_JOYPAD, INTERRUPT_TIMER, INTERRUPT_VBLANK};
use gameboy_core::cartridge::{synthetic_rom, Cartridge};
use gameboy_core::cpu::{Cpu, CpuMode, Flag, Registers};
use gameboy_core::EmulatorError;

fn bus_with_program(program: &[u8]) -> Bus {
    let mut bus = Bus::default();
    bus.insert_cartridge(
        Cartridge::from_bytes(synthetic_rom("TEST", &[(0x0000, program)])).unwrap(),
    );
    bus
}

fn bus_with_program_at(address: u16, program: &[u8]) -> Bus {
    let mut bus = Bus::default();
    bus.insert_cartridge(
        Cartridge::from_bytes(synthetic_rom("TEST", &[(address, program)])).unwrap(),
    );
    bus
}

#[test]
fn register_pairs_read_and_write_big_endian_values() {
    let mut registers = Registers::default();

    registers.set_af(0x12F3);
    registers.set_bc(0x3456);
    registers.set_de(0x789A);
    registers.set_hl(0xBCDE);

    assert_eq!(registers.af(), 0x12F0);
    assert_eq!(registers.bc(), 0x3456);
    assert_eq!(registers.de(), 0x789A);
    assert_eq!(registers.hl(), 0xBCDE);
}

#[test]
fn flags_can_be_set_cleared_and_read() {
    let mut registers = Registers::default();

    registers.set_flag(Flag::Zero, true);
    registers.set_flag(Flag::Carry, true);
    registers.set_flag(Flag::Zero, false);

    assert!(!registers.flag(Flag::Zero));
    assert!(registers.flag(Flag::Carry));
    assert_eq!(registers.f & 0x0F, 0);
}

#[test]
fn nop_fetch_increments_pc() {
    let mut cpu = Cpu::default();
    let mut bus = bus_with_program(&[0x00]);

    assert_eq!(cpu.step(&mut bus), Ok(4));
    assert_eq!(cpu.registers().pc, 1);
}

#[test]
fn unimplemented_opcode_reports_original_pc() {
    let mut cpu = Cpu::default();
    let mut bus = bus_with_program(&[0xD3]);

    assert_eq!(
        cpu.step(&mut bus),
        Err(EmulatorError::UnimplementedOpcode {
            opcode: 0xD3,
            pc: 0
        })
    );
    assert_eq!(cpu.registers().pc, 1);
}

#[test]
fn post_boot_constructor_uses_dmg_register_defaults() {
    let cpu = Cpu::new_without_boot_rom();

    assert_eq!(cpu.registers().af(), 0x01B0);
    assert_eq!(cpu.registers().bc(), 0x0013);
    assert_eq!(cpu.registers().de(), 0x00D8);
    assert_eq!(cpu.registers().hl(), 0x014D);
    assert_eq!(cpu.registers().pc, 0x0100);
    assert_eq!(cpu.registers().sp, 0xFFFE);
    assert_eq!(cpu.mode(), CpuMode::Running);
    assert!(!cpu.interrupt_master_enabled());
}

#[test]
fn immediate_loads_update_8_bit_registers() {
    let mut cpu = Cpu::default();
    let mut bus = bus_with_program(&[
        0x06, 0x12, 0x0E, 0x34, 0x16, 0x56, 0x1E, 0x78, 0x26, 0x9A, 0x2E, 0xBC, 0x3E, 0xDE,
    ]);

    for _ in 0..7 {
        assert_eq!(cpu.step(&mut bus), Ok(8));
    }

    assert_eq!(cpu.registers().b, 0x12);
    assert_eq!(cpu.registers().c, 0x34);
    assert_eq!(cpu.registers().d, 0x56);
    assert_eq!(cpu.registers().e, 0x78);
    assert_eq!(cpu.registers().h, 0x9A);
    assert_eq!(cpu.registers().l, 0xBC);
    assert_eq!(cpu.registers().a, 0xDE);
}

#[test]
fn immediate_loads_update_16_bit_registers() {
    let mut cpu = Cpu::default();
    let mut bus = bus_with_program(&[
        0x01, 0x34, 0x12, 0x11, 0x78, 0x56, 0x21, 0xBC, 0x9A, 0x31, 0xFE, 0xFF,
    ]);

    for _ in 0..4 {
        assert_eq!(cpu.step(&mut bus), Ok(12));
    }

    assert_eq!(cpu.registers().bc(), 0x1234);
    assert_eq!(cpu.registers().de(), 0x5678);
    assert_eq!(cpu.registers().hl(), 0x9ABC);
    assert_eq!(cpu.registers().sp, 0xFFFE);
}

#[test]
fn inc_and_dec_16_bit_registers_do_not_change_flags() {
    let mut cpu = Cpu::default();
    cpu.registers_mut().set_bc(0xFFFF);
    cpu.registers_mut().set_de(0x0000);
    cpu.registers_mut().set_hl(0x1234);
    cpu.registers_mut().sp = 0xABCD;
    cpu.registers_mut().set_flag(Flag::Zero, true);
    cpu.registers_mut().set_flag(Flag::Carry, true);
    let mut bus = bus_with_program(&[0x03, 0x1B, 0x23, 0x3B]);

    assert_eq!(cpu.step(&mut bus), Ok(8));
    assert_eq!(cpu.step(&mut bus), Ok(8));
    assert_eq!(cpu.step(&mut bus), Ok(8));
    assert_eq!(cpu.step(&mut bus), Ok(8));

    assert_eq!(cpu.registers().bc(), 0x0000);
    assert_eq!(cpu.registers().de(), 0xFFFF);
    assert_eq!(cpu.registers().hl(), 0x1235);
    assert_eq!(cpu.registers().sp, 0xABCC);
    assert!(cpu.registers().flag(Flag::Zero));
    assert!(cpu.registers().flag(Flag::Carry));
}

#[test]
fn add_hl_updates_16_bit_flags_and_preserves_zero() {
    let mut cpu = Cpu::default();
    cpu.registers_mut().set_hl(0x0FFF);
    cpu.registers_mut().set_bc(0x0001);
    cpu.registers_mut().sp = 0xF000;
    cpu.registers_mut().set_flag(Flag::Zero, true);
    let mut bus = bus_with_program(&[0x09, 0x39]);

    assert_eq!(cpu.step(&mut bus), Ok(8));
    assert_eq!(cpu.registers().hl(), 0x1000);
    assert!(cpu.registers().flag(Flag::Zero));
    assert!(!cpu.registers().flag(Flag::Subtract));
    assert!(cpu.registers().flag(Flag::HalfCarry));
    assert!(!cpu.registers().flag(Flag::Carry));

    assert_eq!(cpu.step(&mut bus), Ok(8));
    assert_eq!(cpu.registers().hl(), 0x0000);
    assert!(cpu.registers().flag(Flag::Zero));
    assert!(!cpu.registers().flag(Flag::Subtract));
    assert!(!cpu.registers().flag(Flag::HalfCarry));
    assert!(cpu.registers().flag(Flag::Carry));
}

#[test]
fn push_and_pop_use_little_endian_stack_memory() {
    let mut cpu = Cpu::default();
    cpu.registers_mut().set_bc(0x1234);
    cpu.registers_mut().sp = 0xC010;
    let mut bus = bus_with_program(&[0xC5, 0xD1]);

    assert_eq!(cpu.step(&mut bus), Ok(16));
    assert_eq!(cpu.registers().sp, 0xC00E);
    assert_eq!(bus.read_byte(0xC00E), Ok(0x34));
    assert_eq!(bus.read_byte(0xC00F), Ok(0x12));

    assert_eq!(cpu.step(&mut bus), Ok(12));
    assert_eq!(cpu.registers().de(), 0x1234);
    assert_eq!(cpu.registers().sp, 0xC010);
}

#[test]
fn pop_af_masks_lower_flag_nibble() {
    let mut cpu = Cpu::default();
    cpu.registers_mut().sp = 0xC000;
    let mut bus = bus_with_program(&[0xF1]);
    bus.write_byte(0xC000, 0xFF).expect("write low");
    bus.write_byte(0xC001, 0xAB).expect("write high");

    assert_eq!(cpu.step(&mut bus), Ok(12));
    assert_eq!(cpu.registers().af(), 0xABF0);
}

#[test]
fn jump_absolute_sets_pc_to_little_endian_target() {
    let mut cpu = Cpu::default();
    let mut bus = bus_with_program(&[0xC3, 0x34, 0x12]);

    assert_eq!(cpu.step(&mut bus), Ok(16));
    assert_eq!(cpu.registers().pc, 0x1234);
}

#[test]
fn conditional_absolute_jumps_use_taken_and_not_taken_cycles() {
    let mut cpu = Cpu::default();
    cpu.registers_mut().set_flag(Flag::Zero, true);
    let mut bus = bus_with_program(&[0xC2, 0x06, 0x00, 0xCA, 0x08, 0x00]);

    assert_eq!(cpu.step(&mut bus), Ok(12));
    assert_eq!(cpu.registers().pc, 3);

    assert_eq!(cpu.step(&mut bus), Ok(16));
    assert_eq!(cpu.registers().pc, 8);
}

#[test]
fn call_and_ret_round_trip_through_stack() {
    let mut cpu = Cpu::default();
    cpu.registers_mut().sp = 0xC010;
    let mut bus = bus_with_program(&[0xCD, 0x05, 0x00, 0xFF, 0xFF, 0xC9]);

    assert_eq!(cpu.step(&mut bus), Ok(24));
    assert_eq!(cpu.registers().pc, 5);
    assert_eq!(cpu.registers().sp, 0xC00E);
    assert_eq!(bus.read_byte(0xC00E), Ok(0x03));
    assert_eq!(bus.read_byte(0xC00F), Ok(0x00));

    assert_eq!(cpu.step(&mut bus), Ok(16));
    assert_eq!(cpu.registers().pc, 3);
    assert_eq!(cpu.registers().sp, 0xC010);
}

#[test]
fn conditional_call_and_ret_use_expected_cycles() {
    let mut cpu = Cpu::default();
    cpu.registers_mut().sp = 0xC010;
    cpu.registers_mut().set_flag(Flag::Zero, true);
    let mut bus = bus_with_program(&[0xC4, 0x06, 0x00, 0xCC, 0x08, 0x00, 0xC0, 0xC8]);

    assert_eq!(cpu.step(&mut bus), Ok(12));
    assert_eq!(cpu.registers().pc, 3);
    assert_eq!(cpu.registers().sp, 0xC010);

    assert_eq!(cpu.step(&mut bus), Ok(24));
    assert_eq!(cpu.registers().pc, 8);
    assert_eq!(cpu.registers().sp, 0xC00E);
    assert_eq!(bus.read_byte(0xC00E), Ok(0x06));

    cpu.registers_mut().pc = 6;
    assert_eq!(cpu.step(&mut bus), Ok(8));
    assert_eq!(cpu.registers().pc, 7);

    assert_eq!(cpu.step(&mut bus), Ok(20));
    assert_eq!(cpu.registers().pc, 6);
    assert_eq!(cpu.registers().sp, 0xC010);
}

#[test]
fn rst_pushes_return_address_and_jumps_to_vector() {
    let mut cpu = Cpu::default();
    cpu.registers_mut().sp = 0xC010;
    let mut bus = bus_with_program(&[0xFF]);

    assert_eq!(cpu.step(&mut bus), Ok(16));
    assert_eq!(cpu.registers().pc, 0x0038);
    assert_eq!(cpu.registers().sp, 0xC00E);
    assert_eq!(bus.read_byte(0xC00E), Ok(0x01));
    assert_eq!(bus.read_byte(0xC00F), Ok(0x00));
}

#[test]
fn reti_returns_and_enables_interrupts() {
    let mut cpu = Cpu::default();
    cpu.registers_mut().sp = 0xC000;
    let mut bus = bus_with_program(&[0xD9]);
    bus.write_byte(0xC000, 0x34).expect("write low");
    bus.write_byte(0xC001, 0x12).expect("write high");

    assert_eq!(cpu.step(&mut bus), Ok(16));
    assert_eq!(cpu.registers().pc, 0x1234);
    assert!(cpu.interrupt_master_enabled());
}

#[test]
fn jp_hl_loads_pc_from_hl() {
    let mut cpu = Cpu::default();
    cpu.registers_mut().set_hl(0x4567);
    let mut bus = bus_with_program(&[0xE9]);

    assert_eq!(cpu.step(&mut bus), Ok(4));
    assert_eq!(cpu.registers().pc, 0x4567);
}

#[test]
fn signed_sp_arithmetic_sets_flags_from_low_byte() {
    let mut cpu = Cpu::default();
    cpu.registers_mut().sp = 0x00FF;
    let mut bus = bus_with_program(&[0xE8, 0x01, 0xF8, 0xFF, 0xF9]);

    assert_eq!(cpu.step(&mut bus), Ok(16));
    assert_eq!(cpu.registers().sp, 0x0100);
    assert!(!cpu.registers().flag(Flag::Zero));
    assert!(!cpu.registers().flag(Flag::Subtract));
    assert!(cpu.registers().flag(Flag::HalfCarry));
    assert!(cpu.registers().flag(Flag::Carry));

    assert_eq!(cpu.step(&mut bus), Ok(12));
    assert_eq!(cpu.registers().hl(), 0x00FF);
    assert!(!cpu.registers().flag(Flag::Zero));
    assert!(!cpu.registers().flag(Flag::Subtract));

    assert_eq!(cpu.step(&mut bus), Ok(8));
    assert_eq!(cpu.registers().sp, 0x00FF);
}

#[test]
fn xor_a_zeroes_a_and_sets_flags() {
    let mut cpu = Cpu::default();
    cpu.registers_mut().a = 0xA5;
    cpu.registers_mut().set_flag(Flag::Carry, true);
    let mut bus = bus_with_program(&[0xAF]);

    assert_eq!(cpu.step(&mut bus), Ok(4));

    assert_eq!(cpu.registers().a, 0);
    assert!(cpu.registers().flag(Flag::Zero));
    assert!(!cpu.registers().flag(Flag::Subtract));
    assert!(!cpu.registers().flag(Flag::HalfCarry));
    assert!(!cpu.registers().flag(Flag::Carry));
}

#[test]
fn accumulator_rotates_reset_zero_and_update_carry() {
    let mut cpu = Cpu::default();
    cpu.registers_mut().a = 0x80;
    let mut bus = bus_with_program(&[0x07, 0x17, 0x0F, 0x1F]);

    assert_eq!(cpu.step(&mut bus), Ok(4));
    assert_eq!(cpu.registers().a, 0x01);
    assert!(!cpu.registers().flag(Flag::Zero));
    assert!(cpu.registers().flag(Flag::Carry));

    assert_eq!(cpu.step(&mut bus), Ok(4));
    assert_eq!(cpu.registers().a, 0x03);
    assert!(!cpu.registers().flag(Flag::Carry));

    assert_eq!(cpu.step(&mut bus), Ok(4));
    assert_eq!(cpu.registers().a, 0x81);
    assert!(cpu.registers().flag(Flag::Carry));

    assert_eq!(cpu.step(&mut bus), Ok(4));
    assert_eq!(cpu.registers().a, 0xC0);
    assert!(cpu.registers().flag(Flag::Carry));
}

#[test]
fn daa_adjusts_after_add_and_subtract() {
    let mut cpu = Cpu::default();
    cpu.registers_mut().a = 0x09;
    let mut bus = bus_with_program(&[0xC6, 0x01, 0x27, 0xD6, 0x01, 0x27]);

    assert_eq!(cpu.step(&mut bus), Ok(8));
    assert_eq!(cpu.registers().a, 0x0A);
    assert_eq!(cpu.step(&mut bus), Ok(4));
    assert_eq!(cpu.registers().a, 0x10);
    assert!(!cpu.registers().flag(Flag::Subtract));

    assert_eq!(cpu.step(&mut bus), Ok(8));
    assert_eq!(cpu.step(&mut bus), Ok(4));
    assert_eq!(cpu.registers().a, 0x09);
    assert!(cpu.registers().flag(Flag::Subtract));
}

#[test]
fn complement_and_carry_flag_ops_update_flags() {
    let mut cpu = Cpu::default();
    cpu.registers_mut().a = 0x55;
    cpu.registers_mut().set_flag(Flag::Zero, true);
    let mut bus = bus_with_program(&[0x2F, 0x37, 0x3F]);

    assert_eq!(cpu.step(&mut bus), Ok(4));
    assert_eq!(cpu.registers().a, 0xAA);
    assert!(cpu.registers().flag(Flag::Zero));
    assert!(cpu.registers().flag(Flag::Subtract));
    assert!(cpu.registers().flag(Flag::HalfCarry));

    assert_eq!(cpu.step(&mut bus), Ok(4));
    assert!(cpu.registers().flag(Flag::Carry));
    assert!(!cpu.registers().flag(Flag::Subtract));
    assert!(!cpu.registers().flag(Flag::HalfCarry));

    assert_eq!(cpu.step(&mut bus), Ok(4));
    assert!(!cpu.registers().flag(Flag::Carry));
}

#[test]
fn stop_enters_stopped_mode_and_consumes_padding_byte() {
    let mut cpu = Cpu::default();
    let mut bus = bus_with_program(&[0x10, 0x00, 0xFF]);

    assert_eq!(cpu.step(&mut bus), Ok(4));
    assert_eq!(cpu.mode(), CpuMode::Stopped);
    assert_eq!(cpu.registers().pc, 2);
}

#[test]
fn cb_rotate_shift_and_swap_registers() {
    let mut cpu = Cpu::default();
    cpu.registers_mut().b = 0x80;
    cpu.registers_mut().c = 0x01;
    cpu.registers_mut().d = 0x80;
    cpu.registers_mut().e = 0x01;
    cpu.registers_mut().h = 0x81;
    cpu.registers_mut().l = 0xF0;
    cpu.registers_mut().a = 0x01;
    let mut bus = bus_with_program(&[
        0xCB, 0x00, 0xCB, 0x09, 0xCB, 0x12, 0xCB, 0x1B, 0xCB, 0x24, 0xCB, 0x35, 0xCB, 0x3F,
    ]);

    assert_eq!(cpu.step(&mut bus), Ok(8));
    assert_eq!(cpu.registers().b, 0x01);
    assert!(cpu.registers().flag(Flag::Carry));

    assert_eq!(cpu.step(&mut bus), Ok(8));
    assert_eq!(cpu.registers().c, 0x80);
    assert!(cpu.registers().flag(Flag::Carry));

    assert_eq!(cpu.step(&mut bus), Ok(8));
    assert_eq!(cpu.registers().d, 0x01);
    assert!(cpu.registers().flag(Flag::Carry));

    assert_eq!(cpu.step(&mut bus), Ok(8));
    assert_eq!(cpu.registers().e, 0x80);
    assert!(cpu.registers().flag(Flag::Carry));

    assert_eq!(cpu.step(&mut bus), Ok(8));
    assert_eq!(cpu.registers().h, 0x02);
    assert!(cpu.registers().flag(Flag::Carry));

    assert_eq!(cpu.step(&mut bus), Ok(8));
    assert_eq!(cpu.registers().l, 0x0F);

    assert_eq!(cpu.step(&mut bus), Ok(8));
    assert_eq!(cpu.registers().a, 0x00);
    assert!(cpu.registers().flag(Flag::Zero));
    assert!(cpu.registers().flag(Flag::Carry));
}

#[test]
fn cb_bit_res_and_set_registers_preserve_expected_flags() {
    let mut cpu = Cpu::default();
    cpu.registers_mut().b = 0b0000_0010;
    cpu.registers_mut().set_flag(Flag::Carry, true);
    let mut bus = bus_with_program(&[0xCB, 0x48, 0xCB, 0x80, 0xCB, 0xC0]);

    assert_eq!(cpu.step(&mut bus), Ok(8));
    assert!(!cpu.registers().flag(Flag::Zero));
    assert!(!cpu.registers().flag(Flag::Subtract));
    assert!(cpu.registers().flag(Flag::HalfCarry));
    assert!(cpu.registers().flag(Flag::Carry));

    assert_eq!(cpu.step(&mut bus), Ok(8));
    assert_eq!(cpu.registers().b, 0b0000_0010);

    assert_eq!(cpu.step(&mut bus), Ok(8));
    assert_eq!(cpu.registers().b, 0b0000_0011);
}

#[test]
fn cb_operations_on_hl_use_memory_cycles() {
    let mut cpu = Cpu::default();
    cpu.registers_mut().set_hl(0xC000);
    let mut bus = bus_with_program(&[0xCB, 0x46, 0xCB, 0xC6, 0xCB, 0x86, 0xCB, 0x36]);
    bus.write_byte(0xC000, 0x00).expect("seed memory");

    assert_eq!(cpu.step(&mut bus), Ok(12));
    assert!(cpu.registers().flag(Flag::Zero));

    assert_eq!(cpu.step(&mut bus), Ok(16));
    assert_eq!(bus.read_byte(0xC000), Ok(0x01));

    assert_eq!(cpu.step(&mut bus), Ok(16));
    assert_eq!(bus.read_byte(0xC000), Ok(0x00));

    bus.write_byte(0xC000, 0xF0).expect("seed memory");
    assert_eq!(cpu.step(&mut bus), Ok(16));
    assert_eq!(bus.read_byte(0xC000), Ok(0x0F));
}

#[test]
fn inc_and_dec_update_flags_without_changing_carry() {
    let mut cpu = Cpu::default();
    cpu.registers_mut().b = 0x0F;
    cpu.registers_mut().c = 0x00;
    cpu.registers_mut().set_flag(Flag::Carry, true);
    let mut bus = bus_with_program(&[0x04, 0x0D]);

    assert_eq!(cpu.step(&mut bus), Ok(4));
    assert_eq!(cpu.registers().b, 0x10);
    assert!(!cpu.registers().flag(Flag::Zero));
    assert!(!cpu.registers().flag(Flag::Subtract));
    assert!(cpu.registers().flag(Flag::HalfCarry));
    assert!(cpu.registers().flag(Flag::Carry));

    assert_eq!(cpu.step(&mut bus), Ok(4));
    assert_eq!(cpu.registers().c, 0xFF);
    assert!(!cpu.registers().flag(Flag::Zero));
    assert!(cpu.registers().flag(Flag::Subtract));
    assert!(cpu.registers().flag(Flag::HalfCarry));
    assert!(cpu.registers().flag(Flag::Carry));
}

#[test]
fn inc_and_dec_through_hl_use_memory_cycles() {
    let mut cpu = Cpu::default();
    cpu.registers_mut().set_hl(0xC000);
    let mut bus = bus_with_program(&[0x34, 0x35]);
    bus.write_byte(0xC000, 0xFF).expect("seed memory");

    assert_eq!(cpu.step(&mut bus), Ok(12));
    assert_eq!(bus.read_byte(0xC000), Ok(0x00));
    assert!(cpu.registers().flag(Flag::Zero));
    assert!(cpu.registers().flag(Flag::HalfCarry));

    assert_eq!(cpu.step(&mut bus), Ok(12));
    assert_eq!(bus.read_byte(0xC000), Ok(0xFF));
    assert!(!cpu.registers().flag(Flag::Zero));
    assert!(cpu.registers().flag(Flag::Subtract));
    assert!(cpu.registers().flag(Flag::HalfCarry));
}

#[test]
fn add_and_adc_set_half_carry_and_carry_flags() {
    let mut cpu = Cpu::default();
    cpu.registers_mut().a = 0x8F;
    cpu.registers_mut().b = 0x71;
    cpu.registers_mut().c = 0x00;
    let mut bus = bus_with_program(&[0x80, 0x89]);

    assert_eq!(cpu.step(&mut bus), Ok(4));
    assert_eq!(cpu.registers().a, 0x00);
    assert!(cpu.registers().flag(Flag::Zero));
    assert!(!cpu.registers().flag(Flag::Subtract));
    assert!(cpu.registers().flag(Flag::HalfCarry));
    assert!(cpu.registers().flag(Flag::Carry));

    assert_eq!(cpu.step(&mut bus), Ok(4));
    assert_eq!(cpu.registers().a, 0x01);
    assert!(!cpu.registers().flag(Flag::Zero));
    assert!(!cpu.registers().flag(Flag::Subtract));
    assert!(!cpu.registers().flag(Flag::HalfCarry));
    assert!(!cpu.registers().flag(Flag::Carry));
}

#[test]
fn sub_and_sbc_set_borrow_flags() {
    let mut cpu = Cpu::default();
    cpu.registers_mut().a = 0x10;
    cpu.registers_mut().b = 0x01;
    cpu.registers_mut().c = 0x0F;
    let mut bus = bus_with_program(&[0x90, 0x99]);

    assert_eq!(cpu.step(&mut bus), Ok(4));
    assert_eq!(cpu.registers().a, 0x0F);
    assert!(!cpu.registers().flag(Flag::Zero));
    assert!(cpu.registers().flag(Flag::Subtract));
    assert!(cpu.registers().flag(Flag::HalfCarry));
    assert!(!cpu.registers().flag(Flag::Carry));

    assert_eq!(cpu.step(&mut bus), Ok(4));
    assert_eq!(cpu.registers().a, 0x00);
    assert!(cpu.registers().flag(Flag::Zero));
    assert!(cpu.registers().flag(Flag::Subtract));
    assert!(!cpu.registers().flag(Flag::HalfCarry));
    assert!(!cpu.registers().flag(Flag::Carry));
}

#[test]
fn logical_alu_operations_set_expected_flags() {
    let mut cpu = Cpu::default();
    cpu.registers_mut().a = 0b1010_0000;
    cpu.registers_mut().b = 0b1000_1111;
    cpu.registers_mut().c = 0b0111_0000;
    cpu.registers_mut().d = 0b1111_0000;
    let mut bus = bus_with_program(&[0xA0, 0xB1, 0xAA]);

    assert_eq!(cpu.step(&mut bus), Ok(4));
    assert_eq!(cpu.registers().a, 0b1000_0000);
    assert!(!cpu.registers().flag(Flag::Zero));
    assert!(!cpu.registers().flag(Flag::Subtract));
    assert!(cpu.registers().flag(Flag::HalfCarry));
    assert!(!cpu.registers().flag(Flag::Carry));

    assert_eq!(cpu.step(&mut bus), Ok(4));
    assert_eq!(cpu.registers().a, 0b1111_0000);
    assert!(!cpu.registers().flag(Flag::HalfCarry));

    assert_eq!(cpu.step(&mut bus), Ok(4));
    assert_eq!(cpu.registers().a, 0);
    assert!(cpu.registers().flag(Flag::Zero));
    assert!(!cpu.registers().flag(Flag::Subtract));
    assert!(!cpu.registers().flag(Flag::HalfCarry));
    assert!(!cpu.registers().flag(Flag::Carry));
}

#[test]
fn cp_sets_subtraction_flags_without_changing_a() {
    let mut cpu = Cpu::default();
    cpu.registers_mut().a = 0x10;
    cpu.registers_mut().b = 0x11;
    let mut bus = bus_with_program(&[0xB8]);

    assert_eq!(cpu.step(&mut bus), Ok(4));
    assert_eq!(cpu.registers().a, 0x10);
    assert!(!cpu.registers().flag(Flag::Zero));
    assert!(cpu.registers().flag(Flag::Subtract));
    assert!(cpu.registers().flag(Flag::HalfCarry));
    assert!(cpu.registers().flag(Flag::Carry));
}

#[test]
fn immediate_alu_operations_execute_against_a() {
    let mut cpu = Cpu::default();
    cpu.registers_mut().a = 0x01;
    let mut bus =
        bus_with_program(&[0xC6, 0x0F, 0xCE, 0xF0, 0xE6, 0x0F, 0xF6, 0x80, 0xFE, 0x8F]);

    assert_eq!(cpu.step(&mut bus), Ok(8));
    assert_eq!(cpu.registers().a, 0x10);
    assert!(cpu.registers().flag(Flag::HalfCarry));

    assert_eq!(cpu.step(&mut bus), Ok(8));
    assert_eq!(cpu.registers().a, 0x00);
    assert!(cpu.registers().flag(Flag::Zero));
    assert!(cpu.registers().flag(Flag::Carry));

    assert_eq!(cpu.step(&mut bus), Ok(8));
    assert_eq!(cpu.registers().a, 0x00);
    assert!(cpu.registers().flag(Flag::Zero));

    assert_eq!(cpu.step(&mut bus), Ok(8));
    assert_eq!(cpu.registers().a, 0x80);

    assert_eq!(cpu.step(&mut bus), Ok(8));
    assert_eq!(cpu.registers().a, 0x80);
    assert!(cpu.registers().flag(Flag::Carry));
}

#[test]
fn alu_operations_can_read_from_hl() {
    let mut cpu = Cpu::default();
    cpu.registers_mut().a = 0x01;
    cpu.registers_mut().set_hl(0xC000);
    let mut bus = bus_with_program(&[0x86]);
    bus.write_byte(0xC000, 0x02).expect("seed memory");

    assert_eq!(cpu.step(&mut bus), Ok(8));
    assert_eq!(cpu.registers().a, 0x03);
}

#[test]
fn relative_jump_uses_signed_offset() {
    let mut cpu = Cpu::default();
    let mut bus = bus_with_program(&[0x18, 0x02, 0xFF, 0xFF, 0x18, 0xFC]);

    assert_eq!(cpu.step(&mut bus), Ok(12));
    assert_eq!(cpu.registers().pc, 4);

    assert_eq!(cpu.step(&mut bus), Ok(12));
    assert_eq!(cpu.registers().pc, 2);
}

#[test]
fn conditional_relative_jumps_report_taken_and_not_taken_cycles() {
    let mut cpu = Cpu::default();
    let mut bus = bus_with_program(&[0x20, 0x02, 0x30, 0x02, 0x28, 0x02, 0x38, 0x02]);

    cpu.registers_mut().set_flag(Flag::Zero, true);
    assert_eq!(cpu.step(&mut bus), Ok(8));
    assert_eq!(cpu.registers().pc, 2);

    cpu.registers_mut().set_flag(Flag::Carry, true);
    assert_eq!(cpu.step(&mut bus), Ok(8));
    assert_eq!(cpu.registers().pc, 4);

    assert_eq!(cpu.step(&mut bus), Ok(12));
    assert_eq!(cpu.registers().pc, 8);

    cpu.registers_mut().pc = 6;
    assert_eq!(cpu.step(&mut bus), Ok(12));
    assert_eq!(cpu.registers().pc, 10);
}

#[test]
fn load_through_hl_reads_and_writes_bus_memory() {
    let mut cpu = Cpu::default();
    let mut bus = bus_with_program_at(0, &[0x21, 0x00, 0xC0, 0x36, 0x5A, 0x7E]);

    assert_eq!(cpu.step(&mut bus), Ok(12));
    assert_eq!(cpu.step(&mut bus), Ok(12));
    assert_eq!(cpu.step(&mut bus), Ok(8));

    assert_eq!(cpu.registers().a, 0x5A);
}

#[test]
fn register_to_register_loads_follow_opcode_matrix() {
    let mut cpu = Cpu::default();
    cpu.registers_mut().b = 0x12;
    cpu.registers_mut().c = 0x34;
    let mut bus = bus_with_program(&[0x41, 0x78]);

    assert_eq!(cpu.step(&mut bus), Ok(4));
    assert_eq!(cpu.registers().b, 0x34);

    assert_eq!(cpu.step(&mut bus), Ok(4));
    assert_eq!(cpu.registers().a, 0x34);
}

#[test]
fn register_to_hl_loads_take_memory_cycles() {
    let mut cpu = Cpu::default();
    cpu.registers_mut().set_hl(0xC000);
    cpu.registers_mut().a = 0x5A;
    let mut bus = bus_with_program(&[0x77, 0x46]);

    assert_eq!(cpu.step(&mut bus), Ok(8));
    cpu.registers_mut().b = 0;

    assert_eq!(cpu.step(&mut bus), Ok(8));
    assert_eq!(cpu.registers().b, 0x5A);
}

#[test]
fn accumulator_loads_through_bc_de_and_absolute_addresses() {
    let mut cpu = Cpu::default();
    cpu.registers_mut().a = 0x9A;
    cpu.registers_mut().set_bc(0xC000);
    cpu.registers_mut().set_de(0xC001);
    let mut bus = bus_with_program(&[
        0x02, 0x12, 0xEA, 0x02, 0xC0, 0x3E, 0x00, 0x0A, 0x3E, 0x00, 0x1A, 0x3E, 0x00, 0xFA,
        0x02, 0xC0,
    ]);

    assert_eq!(cpu.step(&mut bus), Ok(8));
    assert_eq!(cpu.step(&mut bus), Ok(8));
    assert_eq!(cpu.step(&mut bus), Ok(16));

    assert_eq!(cpu.step(&mut bus), Ok(8));
    assert_eq!(cpu.step(&mut bus), Ok(8));
    assert_eq!(cpu.registers().a, 0x9A);

    assert_eq!(cpu.step(&mut bus), Ok(8));
    assert_eq!(cpu.step(&mut bus), Ok(8));
    assert_eq!(cpu.registers().a, 0x9A);

    assert_eq!(cpu.step(&mut bus), Ok(8));
    assert_eq!(cpu.step(&mut bus), Ok(16));
    assert_eq!(cpu.registers().a, 0x9A);
}

#[test]
fn high_memory_accumulator_loads_use_ff00_base() {
    let mut cpu = Cpu::default();
    cpu.registers_mut().a = 0xAB;
    cpu.registers_mut().c = 0x42;
    let mut bus =
        bus_with_program(&[0xE0, 0x40, 0xE2, 0x3E, 0x00, 0xF0, 0x40, 0x3E, 0x00, 0xF2]);

    assert_eq!(cpu.step(&mut bus), Ok(12));
    assert_eq!(cpu.step(&mut bus), Ok(8));

    assert_eq!(cpu.step(&mut bus), Ok(8));
    assert_eq!(cpu.step(&mut bus), Ok(12));
    assert_eq!(cpu.registers().a, 0xAB);

    assert_eq!(cpu.step(&mut bus), Ok(8));
    assert_eq!(cpu.step(&mut bus), Ok(8));
    assert_eq!(cpu.registers().a, 0xAB);
}

#[test]
fn hl_auto_increment_and_decrement_loads_update_hl() {
    let mut cpu = Cpu::default();
    cpu.registers_mut().a = 0x22;
    cpu.registers_mut().set_hl(0xC000);
    let mut bus = bus_with_program(&[0x22, 0x3E, 0x00, 0x2A, 0x32, 0x3E, 0x00, 0x3A]);

    assert_eq!(cpu.step(&mut bus), Ok(8));
    assert_eq!(cpu.registers().hl(), 0xC001);

    assert_eq!(cpu.step(&mut bus), Ok(8));
    assert_eq!(cpu.step(&mut bus), Ok(8));
    assert_eq!(cpu.registers().a, 0);
    assert_eq!(cpu.registers().hl(), 0xC002);

    cpu.registers_mut().a = 0x33;
    cpu.registers_mut().set_hl(0xC010);
    assert_eq!(cpu.step(&mut bus), Ok(8));
    assert_eq!(cpu.registers().hl(), 0xC00F);

    assert_eq!(cpu.step(&mut bus), Ok(8));
    assert_eq!(cpu.step(&mut bus), Ok(8));
    assert_eq!(cpu.registers().a, 0);
    assert_eq!(cpu.registers().hl(), 0xC00E);
}

#[test]
fn store_sp_to_absolute_address_writes_little_endian_bytes() {
    let mut cpu = Cpu::default();
    cpu.registers_mut().sp = 0xBEEF;
    let mut bus = bus_with_program(&[0x08, 0x00, 0xC0]);

    assert_eq!(cpu.step(&mut bus), Ok(20));
    assert_eq!(bus.read_byte(0xC000), Ok(0xEF));
    assert_eq!(bus.read_byte(0xC001), Ok(0xBE));
}

#[test]
fn halt_enters_halted_mode_and_subsequent_steps_do_not_fetch() {
    let mut cpu = Cpu::default();
    let mut bus = bus_with_program(&[0x76, 0xFF]);

    assert_eq!(cpu.step(&mut bus), Ok(4));
    assert_eq!(cpu.mode(), CpuMode::Halted);
    assert_eq!(cpu.registers().pc, 1);
    assert_eq!(cpu.step(&mut bus), Ok(4));
    assert_eq!(cpu.registers().pc, 1);
}

#[test]
fn halt_bug_repeats_next_opcode_fetch_when_interrupt_is_pending_without_ime() {
    let mut cpu = Cpu::default();
    let mut bus = bus_with_program(&[0x76, 0x3C]);
    bus.write_byte(0xFFFF, 1 << INTERRUPT_JOYPAD)
        .expect("enable joypad interrupt");
    bus.request_interrupt(INTERRUPT_JOYPAD);

    assert_eq!(cpu.step(&mut bus), Ok(4));
    assert_eq!(cpu.mode(), CpuMode::Running);
    assert_eq!(cpu.registers().pc, 1);

    assert_eq!(cpu.step(&mut bus), Ok(4));
    assert_eq!(cpu.registers().a, 1);
    assert_eq!(cpu.registers().pc, 1);

    assert_eq!(cpu.step(&mut bus), Ok(4));
    assert_eq!(cpu.registers().a, 2);
    assert_eq!(cpu.registers().pc, 2);
}

#[test]
fn ei_enables_interrupts_after_following_instruction() {
    let mut cpu = Cpu::default();
    let mut bus = bus_with_program(&[0xFB, 0x00]);

    assert_eq!(cpu.step(&mut bus), Ok(4));
    assert!(!cpu.interrupt_master_enabled());
    assert_eq!(cpu.step(&mut bus), Ok(4));
    assert!(cpu.interrupt_master_enabled());
}

#[test]
fn di_disables_interrupts_and_cancels_pending_ei() {
    let mut cpu = Cpu::default();
    let mut bus = bus_with_program(&[0xFB, 0xF3, 0x00]);

    assert_eq!(cpu.step(&mut bus), Ok(4));
    assert_eq!(cpu.step(&mut bus), Ok(4));
    assert_eq!(cpu.step(&mut bus), Ok(4));
    assert!(!cpu.interrupt_master_enabled());
}

#[test]
fn enabled_interrupt_pushes_pc_and_jumps_to_priority_vector() {
    let mut cpu = Cpu::default();
    cpu.registers_mut().pc = 0x1234;
    cpu.registers_mut().sp = 0xC010;
    cpu.set_interrupt_master_enabled(true);
    let mut bus = bus_with_program(&[0x00]);
    bus.write_byte(0xFFFF, (1 << INTERRUPT_TIMER) | (1 << INTERRUPT_VBLANK))
        .expect("write ie");
    bus.request_interrupt(INTERRUPT_TIMER);
    bus.request_interrupt(INTERRUPT_VBLANK);

    assert_eq!(cpu.step(&mut bus), Ok(20));
    assert_eq!(cpu.registers().pc, 0x0040);
    assert_eq!(cpu.registers().sp, 0xC00E);
    assert_eq!(bus.read_byte(0xC00E), Ok(0x34));
    assert_eq!(bus.read_byte(0xC00F), Ok(0x12));
    assert_eq!(bus.read_byte(0xFF0F), Ok(0xE4));
    assert!(!cpu.interrupt_master_enabled());
}

#[test]
fn pending_interrupt_wakes_halt_without_ime() {
    let mut cpu = Cpu::default();
    let mut bus = bus_with_program(&[0x76, 0x00]);
    bus.write_byte(0xFFFF, 1 << INTERRUPT_JOYPAD)
        .expect("write ie");

    assert_eq!(cpu.step(&mut bus), Ok(4));
    assert_eq!(cpu.mode(), CpuMode::Halted);

    bus.request_interrupt(INTERRUPT_JOYPAD);
    assert_eq!(cpu.step(&mut bus), Ok(4));
    assert_eq!(cpu.mode(), CpuMode::Running);
    assert_eq!(cpu.registers().pc, 2);
}

#[test]
fn ei_allows_interrupt_service_on_following_step() {
    let mut cpu = Cpu::default();
    cpu.registers_mut().sp = 0xC010;
    let mut bus = bus_with_program(&[0xFB, 0x00]);
    bus.write_byte(0xFFFF, 1 << INTERRUPT_TIMER)
        .expect("write ie");
    bus.request_interrupt(INTERRUPT_TIMER);

    assert_eq!(cpu.step(&mut bus), Ok(4));
    assert!(!cpu.interrupt_master_enabled());

    assert_eq!(cpu.step(&mut bus), Ok(4));
    assert!(cpu.interrupt_master_enabled());

    assert_eq!(cpu.step(&mut bus), Ok(20));
    assert_eq!(cpu.registers().pc, 0x0050);
}

#[test]
fn daa_after_adding_bcd_digits_carries_into_the_next_byte() {
    let mut cpu = Cpu::default();
    cpu.registers_mut().a = 0x99;
    let mut bus = bus_with_program(&[0xC6, 0x01, 0x27]);

    assert_eq!(cpu.step(&mut bus), Ok(8));
    assert_eq!(cpu.registers().a, 0x9A);
    assert_eq!(cpu.step(&mut bus), Ok(4));
    assert_eq!(cpu.registers().a, 0x00);
    assert!(cpu.registers().flag(Flag::Zero));
    assert!(cpu.registers().flag(Flag::Carry));
}

#[test]
fn lowest_pending_interrupt_wins_and_only_its_request_clears() {
    let mut cpu = Cpu::default();
    cpu.registers_mut().pc = 0x0200;
    cpu.registers_mut().sp = 0xC010;
    cpu.set_interrupt_master_enabled(true);
    let mut bus = bus_with_program(&[0x00]);
    bus.write_byte(0xFFFF, 0x1F).expect("write ie");
    bus.request_interrupt(INTERRUPT_JOYPAD);
    bus.request_interrupt(INTERRUPT_TIMER);

    assert_eq!(cpu.step(&mut bus), Ok(20));
    assert_eq!(cpu.registers().pc, 0x0050);
    assert_eq!(bus.read_byte(0xFF0F), Ok(0xF0));
}

#[test]
fn fetch_error_reports_the_unmapped_address() {
    let mut cpu = Cpu::default();
    let mut bus = Bus::default();

    assert_eq!(
        cpu.step(&mut bus),
        Err(EmulatorError::InvalidMemoryAccess { address: 0x0000 })
    );
}

#[test]
fn swap_exchanges_nibbles_and_sla_sra_srl_shift() {
    let mut cpu = Cpu::default();
    cpu.registers_mut().a = 0x81;
    cpu.registers_mut().b = 0x81;
    cpu.registers_mut().c = 0x81;
    let mut bus = bus_with_program(&[0xCB, 0x37, 0xCB, 0x20, 0xCB, 0x29]);

    assert_eq!(cpu.step(&mut bus), Ok(8));
    assert_eq!(cpu.registers().a, 0x18);
    assert!(!cpu.registers().flag(Flag::Carry));

    assert_eq!(cpu.step(&mut bus), Ok(8));
    assert_eq!(cpu.registers().b, 0x02);
    assert!(cpu.registers().flag(Flag::Carry));

    assert_eq!(cpu.step(&mut bus), Ok(8));
    assert_eq!(cpu.registers().c, 0xC0);
    assert!(cpu.registers().flag(Flag::Carry));
}

#[test]
fn register_pairs_keep_each_other() {
    let mut registers = Registers::default();

    registers.set_bc(0x1111);
    registers.set_hl(0x2222);
    registers.set_de(0x3333);

    assert_eq!(registers.bc(), 0x1111);
    assert_eq!(registers.hl(), 0x2222);
    assert_eq!(registers.de(), 0x3333);
}

#[test]
fn store_through_hl_then_load_reads_the_stored_byte() {
    let mut cpu = Cpu::default();
    cpu.registers_mut().set_hl(0xC123);
    cpu.registers_mut().d = 0x5A;
    cpu.registers_mut().b = 0x00;
    let mut bus = bus_with_program(&[0x72, 0x46]);

    assert_eq!(cpu.step(&mut bus), Ok(8));
    assert_eq!(bus.read_byte(0xC123), Ok(0x5A));
    assert_eq!(cpu.registers().pc, 1);

    assert_eq!(cpu.step(&mut bus), Ok(8));
    assert_eq!(cpu.registers().b, 0x5A);
    assert_eq!(cpu.registers().d, 0x5A);
    assert_eq!(cpu.registers().hl(), 0xC123);
    assert_eq!(cpu.registers().pc, 2);
}

#[test]
fn increment_at_hl_writes_back_and_sets_flags() {
    let mut cpu = Cpu::default();
    cpu.registers_mut().set_hl(0xC200);
    let mut bus = bus_with_program(&[0x36, 0x0F, 0x34, 0x35]);

    assert_eq!(cpu.step(&mut bus), Ok(12));
    assert_eq!(bus.read_byte(0xC200), Ok(0x0F));
    assert_eq!(cpu.step(&mut bus), Ok(12));
    assert_eq!(bus.read_byte(0xC200), Ok(0x10));
    assert!(cpu.registers().flag(Flag::HalfCarry));
    assert!(!cpu.registers().flag(Flag::Zero));
    assert_eq!(cpu.step(&mut bus), Ok(12));
    assert_eq!(bus.read_byte(0xC200), Ok(0x0F));
    assert!(cpu.registers().flag(Flag::Subtract));
}

#[test]
fn sixty_four_nops_tick_the_divider_once() {
    let mut cpu = Cpu::default();
    let mut bus = bus_with_program(&[0x00; 64]);
    assert_eq!(bus.read_byte(0xFF04), Ok(0));
    for _ in 0..64 {
        assert_eq!(cpu.step(&mut bus), Ok(4));
    }
    assert_eq!(bus.read_byte(0xFF04), Ok(1));
    assert_eq!(cpu.registers().pc, 64);
}

#[test]
fn di_and_ei_take_one_byte_and_four_cycles() {
    let mut cpu = Cpu::default();
    let mut bus = bus_with_program(&[0xF3, 0xFB, 0x00]);
    let before = *cpu.registers();
    assert_eq!(cpu.step(&mut bus), Ok(4));
    assert_eq!(cpu.registers().pc, 1);
    assert_eq!(cpu.step(&mut bus), Ok(4));
    assert_eq!(cpu.registers().pc, 2);
    assert_eq!(cpu.registers().a, before.a);
    assert_eq!(cpu.registers().sp, before.sp);
}
