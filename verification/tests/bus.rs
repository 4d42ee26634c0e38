use gameboy_core::bus::{
    Bus, DIV, DMA, INTERRUPT_ENABLE, INTERRUPT_FLAG, INTERRUPT_TIMER, JOYPAD, OAM_DMA_BYTES,
    OAM_DMA_BYTE_CYCLES, OAM_DMA_STARTUP_CYCLES, SERIAL_CONTROL, SERIAL_DATA, TAC, TIMA, TMA,
};
use gameboy_core::cartridge::{synthetic_rom, synthetic_rom_with_header, Cartridge};
use gameboy_core::joypad::{JoypadButton, JoypadState};
use gameboy_core::ppu::PpuMode;
use gameboy_core::EmulatorError;

#[test]
fn reads_from_cartridge_rom() {
    let mut bus = Bus::default();
    let cartridge =
        Cartridge::from_bytes(synthetic_rom("TEST", &[(0, &[0x42])])).expect("valid ROM");
    bus.insert_cartridge(cartridge);

    assert_eq!(bus.read_byte(0x0000), Ok(0x42));
}

#[test]
fn reads_and_writes_work_ram() {
    let mut bus = Bus::default();

    bus.write_byte(0xC123, 0x77).expect("write");

    assert_eq!(bus.read_byte(0xC123), Ok(0x77));
}

#[test]
fn echo_ram_mirrors_work_ram() {
    let mut bus = Bus::default();

    bus.write_byte(0xC123, 0x77).expect("write wram");
    assert_eq!(bus.read_byte(0xE123), Ok(0x77));

    bus.write_byte(0xE124, 0x88).expect("write echo");
    assert_eq!(bus.read_byte(0xC124), Ok(0x88));
}

#[test]
fn reads_and_writes_oam_io_hram_and_interrupt_enable() {
    let mut bus = Bus::default();

    bus.write_byte(0xFF40, 0x00).expect("disable lcd");
    bus.write_byte(0xFE00, 0x12).expect("write oam");
    bus.write_byte(0xFF03, 0x34).expect("write io");
    bus.write_byte(0xFF80, 0x56).expect("write hram");
    bus.write_byte(0xFFFF, 0x1F).expect("write ie");

    assert_eq!(bus.read_byte(0xFE00), Ok(0x12));
    assert_eq!(bus.read_byte(0xFF03), Ok(0x34));
    assert_eq!(bus.read_byte(0xFF80), Ok(0x56));
    assert_eq!(bus.read_byte(0xFFFF), Ok(0x1F));
}

#[test]
fn joypad_register_reads_selected_active_low_button_group() {
    let mut bus = Bus::default();
    let state = JoypadState::new()
        .with(JoypadButton::Right, true)
        .with(JoypadButton::Left, true)
        .with(JoypadButton::A, true)
        .with(JoypadButton::Start, true);

    bus.set_joypad_state(state);
    assert_eq!(bus.read_byte(JOYPAD), Ok(0xFF));

    bus.write_byte(JOYPAD, 0x20).expect("select directions");
    assert_eq!(bus.read_byte(JOYPAD), Ok(0xEC));

    bus.write_byte(JOYPAD, 0x10).expect("select actions");
    assert_eq!(bus.read_byte(JOYPAD), Ok(0xD6));

    bus.write_byte(JOYPAD, 0x00).expect("select both");
    assert_eq!(bus.read_byte(JOYPAD), Ok(0xC4));
}

#[test]
fn joypad_newly_pressed_selected_button_requests_interrupt() {
    let mut bus = Bus::default();
    bus.write_byte(JOYPAD, 0x20).expect("select directions");

    bus.set_joypad_state(JoypadState::new().with(JoypadButton::Right, true));
    assert_eq!(bus.read_byte(INTERRUPT_FLAG), Ok(0xF0));

    bus.write_byte(INTERRUPT_FLAG, 0).expect("clear if");
    bus.set_joypad_state(JoypadState::new().with(JoypadButton::Right, true));
    assert_eq!(bus.read_byte(INTERRUPT_FLAG), Ok(0xE0));
}

#[test]
fn joypad_pressed_unselected_button_does_not_request_interrupt_until_selected_press_changes() {
    let mut bus = Bus::default();
    bus.write_byte(JOYPAD, 0x20).expect("select directions");

    bus.set_joypad_state(JoypadState::new().with(JoypadButton::A, true));
    assert_eq!(bus.read_byte(INTERRUPT_FLAG), Ok(0xE0));

    bus.set_joypad_state(
        JoypadState::new()
            .with(JoypadButton::A, true)
            .with(JoypadButton::Up, true),
    );
    assert_eq!(bus.read_byte(INTERRUPT_FLAG), Ok(0xF0));
}

#[test]
fn serial_internal_clock_transfer_logs_byte_and_requests_interrupt() {
    let mut bus = Bus::default();

    bus.write_byte(SERIAL_DATA, b'A').expect("write sb");
    bus.write_byte(SERIAL_CONTROL, 0x81).expect("start serial");

    assert_eq!(bus.read_byte(SERIAL_DATA), Ok(b'A'));
    assert_eq!(bus.read_byte(SERIAL_CONTROL), Ok(0x7F));
    assert_eq!(bus.read_byte(INTERRUPT_FLAG), Ok(0xE8));
    assert_eq!(bus.take_serial_output(), b"A".to_vec());
    assert!(bus.take_serial_output().is_empty());
}

#[test]
fn serial_external_clock_transfer_does_not_log_without_peer() {
    let mut bus = Bus::default();

    bus.write_byte(SERIAL_DATA, b'B').expect("write sb");
    bus.write_byte(SERIAL_CONTROL, 0x80)
        .expect("start external serial");

    assert_eq!(bus.read_byte(SERIAL_CONTROL), Ok(0xFE));
    assert_eq!(bus.read_byte(INTERRUPT_FLAG), Ok(0xE0));
    assert!(bus.take_serial_output().is_empty());
}

#[test]
fn oam_reads_and_writes_are_routed_to_ppu() {
    let mut bus = Bus::default();

    bus.write_byte(0xFF40, 0x00).expect("disable lcd");
    bus.write_byte(0xFE10, 0xAB).expect("write oam");
    assert_eq!(bus.read_byte(0xFE10), Ok(0xAB));
}

#[test]
fn oam_is_restricted_while_ppu_is_using_it() {
    let mut bus = Bus::default();

    bus.write_byte(0xFE10, 0xAB).expect("write ignored");
    assert_eq!(bus.read_byte(0xFE10), Ok(0xFF));
    bus.advance_cycles(80 + 172);
    bus.write_byte(0xFE10, 0xAB).expect("write hblank");
    assert_eq!(bus.read_byte(0xFE10), Ok(0xAB));
}

#[test]
fn dma_copies_source_page_into_ppu_oam() {
    let mut bus = Bus::default();
    bus.write_byte(0xFF40, 0x00).expect("disable lcd");

    bus.write_byte(0xC000, 0x12).expect("write source");
    bus.write_byte(0xC09F, 0x34).expect("write source");
    bus.write_byte(0xFF46, 0xC0).expect("start dma");

    assert_eq!(bus.read_byte(0xFE00), Ok(0x00));

    bus.advance_cycles(OAM_DMA_STARTUP_CYCLES + OAM_DMA_BYTE_CYCLES);
    assert_eq!(bus.read_byte(0xFE00), Ok(0xFF));
    assert_eq!(bus.dma_read_byte(0xFE00), 0x12);
    assert_eq!(bus.dma_read_byte(0xFE01), 0x00);

    bus.advance_cycles((OAM_DMA_BYTES as u32 - 1) * OAM_DMA_BYTE_CYCLES);
    assert_eq!(bus.read_byte(0xFE00), Ok(0x12));
    assert_eq!(bus.read_byte(0xFE9F), Ok(0x34));
    assert_eq!(bus.read_byte(0xFF46), Ok(0xC0));
}

#[test]
fn oam_dma_blocks_cpu_access_outside_hram_after_startup() {
    let mut bus = Bus::default();
    bus.write_byte(0xC000, 0x12).expect("write wram");
    bus.write_byte(0xFF80, 0x34).expect("write hram");

    bus.write_byte(DMA, 0xC0).expect("start dma");
    assert_eq!(bus.read_byte(0xC000), Ok(0x12));

    bus.advance_cycles(OAM_DMA_STARTUP_CYCLES);
    assert_eq!(bus.read_byte(0xC000), Ok(0xFF));
    assert_eq!(bus.read_byte(INTERRUPT_ENABLE), Ok(0xFF));
    assert_eq!(bus.read_byte(0xFF80), Ok(0x34));

    bus.write_byte(0xC000, 0x56).expect("blocked write");
    assert_eq!(bus.dma_read_byte(0xC000), 0x12);
}

#[test]
fn oam_dma_finishes_after_all_bytes_are_copied() {
    let mut bus = Bus::default();
    bus.write_byte(0xFF40, 0x00).expect("disable lcd");
    bus.write_byte(0xC000, 0x12).expect("write source");
    bus.write_byte(0xC09F, 0x34).expect("write source");

    bus.write_byte(DMA, 0xC0).expect("start dma");
    bus.advance_cycles(OAM_DMA_STARTUP_CYCLES + OAM_DMA_BYTES as u32 * OAM_DMA_BYTE_CYCLES);

    assert_eq!(bus.read_byte(0xC000), Ok(0x12));
    assert_eq!(bus.read_byte(0xFE00), Ok(0x12));
    assert_eq!(bus.read_byte(0xFE9F), Ok(0x34));
}

#[test]
fn timer_registers_have_memory_mapped_behavior() {
    let mut bus = Bus::default();

    bus.write_byte(TIMA, 0x12).expect("write tima");
    bus.write_byte(TMA, 0x34).expect("write tma");
    bus.write_byte(TAC, 0xFF).expect("write tac");

    assert_eq!(bus.read_byte(TIMA), Ok(0x12));
    assert_eq!(bus.read_byte(TMA), Ok(0x34));
    assert_eq!(bus.read_byte(TAC), Ok(0xFF));

    bus.advance_cycles(256);
    assert_eq!(bus.read_byte(DIV), Ok(1));

    bus.write_byte(DIV, 0xFF).expect("reset div");
    assert_eq!(bus.read_byte(DIV), Ok(0));
}

#[test]
fn lcd_registers_are_routed_to_ppu() {
    let mut bus = Bus::default();

    assert_eq!(bus.read_byte(0xFF40), Ok(0x91));
    assert_eq!(bus.read_byte(0xFF44), Ok(0));
    bus.write_byte(0xFF42, 0x12).expect("write scy");
    bus.write_byte(0xFF43, 0x34).expect("write scx");

    assert_eq!(bus.read_byte(0xFF42), Ok(0x12));
    assert_eq!(bus.read_byte(0xFF43), Ok(0x34));
    assert_eq!(bus.ppu_mode(), PpuMode::OamScan);
}

#[test]
fn vram_reads_and_writes_are_routed_to_ppu_framebuffer_renderer() {
    let mut bus = Bus::default();

    bus.write_byte(0x9800, 1).expect("write tile map");
    bus.write_byte(0x8010, 0x80).expect("write tile low byte");
    bus.advance_cycles(456);

    assert_eq!(bus.read_byte(0x9800), Ok(1));
    assert_ne!(bus.framebuffer()[0], bus.framebuffer()[1]);
}

#[test]
fn vram_is_restricted_during_ppu_drawing() {
    let mut bus = Bus::default();

    bus.write_byte(0x8000, 0xAB).expect("write vram");
    bus.advance_cycles(80);

    assert_eq!(bus.ppu_mode(), PpuMode::Drawing);
    assert_eq!(bus.read_byte(0x8000), Ok(0xFF));
    bus.write_byte(0x8000, 0x12).expect("ignored write");
    bus.advance_cycles(172);
    assert_eq!(bus.read_byte(0x8000), Ok(0xAB));
}

#[test]
fn ppu_vblank_and_stat_interrupts_are_requested_from_cycle_advance() {
    let mut bus = Bus::default();
    bus.write_byte(0xFF41, 0x10).expect("enable vblank stat");

    for _ in 0..144 {
        bus.advance_cycles(456);
    }

    assert_eq!(bus.read_byte(0xFF44), Ok(144));
    assert_eq!(bus.ppu_mode(), PpuMode::VBlank);
    assert_eq!(bus.read_byte(INTERRUPT_FLAG), Ok(0xE3));
}

#[test]
fn enabled_timer_overflow_reloads_tma_and_requests_interrupt() {
    let mut bus = Bus::default();

    bus.write_byte(TIMA, 0xFF).expect("write tima");
    bus.write_byte(TMA, 0x42).expect("write tma");
    bus.write_byte(TAC, 0b101).expect("enable timer fast");
    bus.advance_cycles(16);

    assert_eq!(bus.read_byte(TIMA), Ok(0x42));
    assert_eq!(bus.read_byte(INTERRUPT_FLAG), Ok(0xE4));
}

#[test]
fn pending_interrupts_are_masked_by_interrupt_enable() {
    let mut bus = Bus::default();

    bus.request_interrupt(INTERRUPT_TIMER);
    assert_eq!(bus.pending_interrupts(), 0);

    bus.write_byte(INTERRUPT_ENABLE, 1 << INTERRUPT_TIMER)
        .expect("write ie");
    assert_eq!(bus.pending_interrupts(), 1 << INTERRUPT_TIMER);

    bus.clear_interrupt(INTERRUPT_TIMER);
    assert_eq!(bus.pending_interrupts(), 0);
}

#[test]
fn unusable_memory_reads_as_ff_and_ignores_writes() {
    let mut bus = Bus::default();

    assert_eq!(bus.read_byte(0xFEA0), Ok(0xFF));
    bus.write_byte(0xFEA0, 0x00).expect("ignored write");
    assert_eq!(bus.read_byte(0xFEA0), Ok(0xFF));
}

#[test]
fn rejects_rom_writes() {
    let mut bus = Bus::default();

    assert_eq!(
        bus.write_byte(0x0000, 0x12),
        Err(EmulatorError::InvalidMemoryAccess { address: 0x0000 })
    );
}

#[test]
fn cartridge_rom_writes_are_forwarded_to_mapper() {
    let mut bus = Bus::default();
    let mut rom = synthetic_rom_with_header("MBC1", 0x01, 0x01, 0x00, &[]);
    rom[0x4000] = 1;
    rom[0x8000] = 2;
    bus.insert_cartridge(Cartridge::from_bytes(rom).expect("valid ROM"));

    assert_eq!(bus.read_byte(0x4000), Ok(1));
    bus.write_byte(0x2000, 0x02).expect("bank switch");
    assert_eq!(bus.read_byte(0x4000), Ok(2));
}

#[test]
fn external_ram_reads_and_writes_are_forwarded_to_cartridge() {
    let mut bus = Bus::default();
    let rom = synthetic_rom_with_header("RAM", 0x03, 0x00, 0x02, &[]);
    bus.insert_cartridge(Cartridge::from_bytes(rom).expect("valid ROM"));

    assert_eq!(bus.read_byte(0xA000), Ok(0xFF));
    bus.write_byte(0x0000, 0x0A).expect("enable ram");
    bus.write_byte(0xA000, 0x5A).expect("write ram");
    assert_eq!(bus.read_byte(0xA000), Ok(0x5A));
}

#[test]
fn hram_write_reads_back_and_leaves_work_ram() {
    let mut bus = Bus::default();

    bus.write_byte(0xC000, 0x11).expect("write wram");
    bus.write_byte(0xFFFE, 0x99).expect("write hram");

    assert_eq!(bus.read_byte(0xFFFE), Ok(0x99));
    assert_eq!(bus.read_byte(0xC000), Ok(0x11));
}

#[test]
fn reads_without_cartridge_are_memory_errors() {
    let bus = Bus::default();

    assert_eq!(
        bus.read_byte(0x0150),
        Err(EmulatorError::InvalidMemoryAccess { address: 0x0150 })
    );
    assert_eq!(
        bus.read_byte(0xA000),
        Err(EmulatorError::InvalidMemoryAccess { address: 0xA000 })
    );
    assert!(bus.clock_room() == u32::MAX);
}

#[test]
fn interrupt_flag_keeps_only_request_bits() {
    let mut bus = Bus::default();

    bus.write_byte(INTERRUPT_FLAG, 0xFF).expect("write if");

    assert_eq!(bus.read_byte(INTERRUPT_FLAG), Ok(0xFF));
    bus.write_byte(INTERRUPT_ENABLE, 0xFF).expect("write ie");
    assert_eq!(bus.pending_interrupts(), 0x1F);
}

#[test]
fn plain_io_and_lcd_registers_read_back_written_values() {
    let mut bus = Bus::default();

    bus.write_byte(0xFF12, 0xA5).expect("write sound register");
    bus.write_byte(0xFF42, 0x3C).expect("write scroll y");
    bus.write_byte(0xFF47, 0xE4).expect("write palette");

    assert_eq!(bus.read_byte(0xFF12), Ok(0xA5));
    assert_eq!(bus.read_byte(0xFF42), Ok(0x3C));
    assert_eq!(bus.read_byte(0xFF47), Ok(0xE4));
}

#[test]
fn sound_power_off_clears_status_bits() {
    let mut bus = Bus::default();

    bus.write_byte(0xFF26, 0x80).expect("power on");
    bus.write_byte(0xFF14, 0x80).expect("trigger channel 1");
    assert_eq!(bus.read_byte(0xFF26), Ok(0x81));

    bus.write_byte(0xFF26, 0x00).expect("power off");
    assert_eq!(bus.read_byte(0xFF26), Ok(0x00));
}

#[test]
fn clearing_a_request_restores_the_flags() {
    let mut bus = Bus::default();
    bus.write_byte(INTERRUPT_FLAG, 0x01).unwrap();
    bus.write_byte(INTERRUPT_ENABLE, 0x05).unwrap();
    bus.request_interrupt(2);
    assert_eq!(bus.read_byte(INTERRUPT_FLAG), Ok(0xE5));
    assert_eq!(bus.pending_interrupts(), 0x05);
    bus.clear_interrupt(2);
    assert_eq!(bus.read_byte(INTERRUPT_FLAG), Ok(0xE1));
    assert_eq!(bus.pending_interrupts(), 0x01);
}

#[test]
fn tma_write_leaves_tima_alone() {
    let mut bus = Bus::default();
    bus.write_byte(TIMA, 0x12).unwrap();
    bus.write_byte(TMA, 0x42).unwrap();
    assert_eq!(bus.read_byte(TIMA), Ok(0x12));
    assert_eq!(bus.read_byte(TMA), Ok(0x42));
}

#[test]
fn reads_without_cartridge_fail_only_in_cartridge_space() {
    let bus = Bus::default();
    assert_eq!(bus.read_byte(0x0000), Err(EmulatorError::InvalidMemoryAccess { address: 0x0000 }));
    assert_eq!(bus.read_byte(0xA123), Err(EmulatorError::InvalidMemoryAccess { address: 0xA123 }));
    assert!(bus.read_byte(0x8000).is_ok());
    assert!(bus.read_byte(0xC000).is_ok());
    assert!(bus.read_byte(0xFE00).is_ok());
    assert!(bus.read_byte(0xFF80).is_ok());
}
