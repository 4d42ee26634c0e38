use gameboy_core::bus::INTERRUPT_TIMER;
use gameboy_core::cartridge::{synthetic_rom, synthetic_rom_with_header, CGB_FLAG_OFFSET};
use gameboy_core::ppu::{PpuMode, FRAMEBUFFER_PIXELS};
use gameboy_core::{Emulator, EmulatorError, HardwareModel, JoypadButton, JoypadState};

#[test]
fn loads_rom_and_steps_nop() {
    let mut emulator = Emulator::new();

    emulator
        .load_rom(synthetic_rom("TEST", &[(0x0100, &[0x00])]))
        .expect("load ROM");

    assert_eq!(emulator.step(), Ok(4));
    assert_eq!(emulator.registers().pc, 0x0101);
}

#[test]
fn step_without_rom_is_memory_error() {
    let mut emulator = Emulator::new();

    assert_eq!(
        emulator.step(),
        Err(EmulatorError::InvalidMemoryAccess { address: 0x0100 })
    );
}

#[test]
fn new_uses_post_boot_cpu_state() {
    let emulator = Emulator::new();

    assert_eq!(emulator.registers().af(), 0x01B0);
    assert_eq!(emulator.registers().bc(), 0x0013);
    assert_eq!(emulator.registers().de(), 0x00D8);
    assert_eq!(emulator.registers().hl(), 0x014D);
    assert_eq!(emulator.registers().pc, 0x0100);
    assert_eq!(emulator.registers().sp, 0xFFFE);
}

#[test]
fn step_advances_div_timer_by_cpu_cycles() {
    let mut emulator = Emulator::new();
    emulator
        .load_rom(synthetic_rom("TEST", &[(0x0100, &[0x00])]))
        .expect("load ROM");

    for _ in 0..64 {
        assert_eq!(emulator.step(), Ok(4));
    }

    assert_eq!(emulator.bus().read_byte(0xFF04), Ok(1));
}

#[test]
fn timer_overflow_can_trigger_interrupt_service() {
    let mut emulator = Emulator::new();
    emulator
        .load_rom(synthetic_rom(
            "TEST",
            &[(0x0100, &[0x00, 0x00, 0x00, 0x00])],
        ))
        .expect("load ROM");

    emulator.bus_mut().write_byte(0xFF05, 0xFF).expect("write tima");
    emulator.bus_mut().write_byte(0xFF06, 0x42).expect("write tma");
    emulator.bus_mut().write_byte(0xFF07, 0b101).expect("write tac");
    emulator
        .bus_mut()
        .write_byte(0xFFFF, 1 << INTERRUPT_TIMER)
        .expect("write ie");
    emulator.cpu_mut().set_interrupt_master_enabled(true);
    emulator.cpu_mut().registers_mut().sp = 0xC010;

    for _ in 0..4 {
        assert_eq!(emulator.step(), Ok(4));
    }

    assert_eq!(emulator.bus().read_byte(0xFF05), Ok(0x42));
    assert_eq!(emulator.step(), Ok(20));
    assert_eq!(emulator.registers().pc, 0x0050);
}

#[test]
fn exposes_headless_framebuffer_and_ppu_mode() {
    let emulator = Emulator::new();

    assert_eq!(emulator.framebuffer().len(), FRAMEBUFFER_PIXELS);
    assert_eq!(emulator.ppu_mode(), PpuMode::OamScan);
}

#[test]
fn step_advances_ppu_and_requests_vblank_interrupt() {
    let mut emulator = Emulator::new();
    emulator
        .load_rom(synthetic_rom("TEST", &[(0x0100, &[0x00])]))
        .expect("load ROM");

    for _ in 0..(456 * 144 / 4) {
        assert_eq!(emulator.step(), Ok(4));
    }

    assert_eq!(emulator.bus().read_byte(0xFF44), Ok(144));
    assert_eq!(emulator.ppu_mode(), PpuMode::VBlank);
    assert_eq!(emulator.bus().read_byte(0xFF0F), Ok(0xE1));
    assert!(emulator.take_frame_ready());
    assert!(!emulator.take_frame_ready());
}

#[test]
fn run_frame_steps_until_framebuffer_is_ready() {
    let mut emulator = Emulator::new();
    emulator
        .load_rom(synthetic_rom("TEST", &[(0x0100, &[0x00])]))
        .expect("load ROM");

    assert_eq!(emulator.run_frame(), Ok(456 * 144));
    assert_eq!(emulator.bus().read_byte(0xFF44), Ok(144));
    assert!(!emulator.take_frame_ready());
}

#[test]
fn framebuffer_reflects_vram_background_tiles_after_scanline() {
    let mut emulator = Emulator::new();
    emulator
        .load_rom(synthetic_rom("TEST", &[(0x0100, &[0x00])]))
        .expect("load ROM");

    emulator.bus_mut().write_byte(0x9800, 1).expect("write map");
    emulator.bus_mut().write_byte(0x8010, 0x80).expect("write tile");

    for _ in 0..114 {
        assert_eq!(emulator.step(), Ok(4));
    }

    assert_ne!(emulator.framebuffer()[0], emulator.framebuffer()[1]);
}

#[test]
fn load_rom_picks_colour_mode_from_header() {
    let mut rom = synthetic_rom("COLOR", &[(0x0100, &[0x00])]);
    rom[CGB_FLAG_OFFSET] = 0x80;

    let mut emulator = Emulator::new();
    emulator.load_rom(rom.clone()).expect("load ROM");
    assert_eq!(emulator.registers().a, 0x11);

    let mut dmg = Emulator::new();
    dmg.load_rom_with_model(rom, HardwareModel::Dmg).expect("load ROM");
    assert_eq!(dmg.registers().a, 0x01);
}

#[test]
fn forced_colour_model_uses_cgb_boot_state() {
    let rom = synthetic_rom("PLAIN", &[(0x0100, &[0x00])]);
    let mut emulator = Emulator::new();

    emulator.load_rom_with_model(rom, HardwareModel::Cgb).expect("load ROM");

    assert_eq!(emulator.registers().af(), 0x11B0);
    assert_eq!(emulator.registers().pc, 0x0100);
}

#[test]
fn rejected_rom_leaves_emulator_untouched() {
    let mut emulator = Emulator::new();

    assert!(matches!(
        emulator.load_rom(vec![0; 16]),
        Err(EmulatorError::InvalidRom { .. })
    ));
    assert_eq!(emulator.registers().pc, 0x0100);
    assert_eq!(
        emulator.step(),
        Err(EmulatorError::InvalidMemoryAccess { address: 0x0100 })
    );
}

#[test]
fn battery_ram_round_trips_through_the_emulator() {
    let rom = synthetic_rom_with_header("SAVE", 0x03, 0x00, 0x02, &[(0x0100, &[0x00])]);
    let mut emulator = Emulator::new();
    emulator.load_rom(rom).expect("load ROM");

    assert!(emulator.has_battery_save());
    assert!(!emulator.has_battery_rtc());
    assert_eq!(emulator.save_rtc(), None);
    let save = vec![0x33; 8 * 1024];
    emulator.load_save_ram(&save).expect("load save");
    assert_eq!(emulator.save_ram(), Some(save.as_slice()));
    assert!(matches!(
        emulator.load_save_ram(&[0x00]),
        Err(EmulatorError::InvalidRom { .. })
    ));
}

#[test]
fn rtc_save_round_trips_through_the_emulator() {
    let rom = synthetic_rom_with_header("CLOCK", 0x10, 0x00, 0x03, &[(0x0100, &[0x00])]);
    let mut emulator = Emulator::new();
    emulator.load_rom(rom).expect("load ROM");

    assert!(emulator.has_battery_rtc());
    let save = emulator.save_rtc().expect("clock save");
    assert_eq!(save.len(), 10);
    emulator.load_save_rtc(&save).expect("load clock");
    assert_eq!(emulator.save_rtc(), Some(save));
    assert!(emulator.can_step());
}

#[test]
fn joypad_state_is_held_by_the_emulator() {
    let mut emulator = Emulator::new();
    let state = JoypadState::new().with(JoypadButton::Start, true);

    emulator.set_joypad_state(state);

    assert_eq!(emulator.joypad_state(), state);
    assert!(emulator.joypad_state().is_pressed(JoypadButton::Start));
}

#[test]
fn empty_emulator_has_no_save_data() {
    let mut emulator = Emulator::new();

    assert!(!emulator.has_battery_save());
    assert_eq!(emulator.save_ram(), None);
    assert!(emulator.take_serial_output().is_empty());
    assert!(emulator.take_audio_samples().is_empty());
}
