use gameboy_core::cartridge::rtc::RTC_CYCLES_PER_SECOND;
use gameboy_core::cartridge::{
    synthetic_rom, synthetic_rom_with_header, Cartridge, MapperKind, CARTRIDGE_TYPE_OFFSET,
    CGB_FLAG_OFFSET, MIN_ROM_SIZE, ROM_BANK_SIZE,
};
use gameboy_core::EmulatorError;

fn banked_rom(cartridge_type: u8, rom_size_code: u8, ram_size_code: u8) -> Vec<u8> {
    let mut rom =
        synthetic_rom_with_header("BANKED", cartridge_type, rom_size_code, ram_size_code, &[]);
    for bank in 0..rom.len() / ROM_BANK_SIZE {
        rom[bank * ROM_BANK_SIZE] = bank as u8;
    }
    rom
}

#[test]
fn parses_header_from_synthetic_rom() {
    let rom = synthetic_rom("TEST", &[(0, &[0x00])]);
    let cartridge = Cartridge::from_bytes(rom).expect("valid ROM");

    assert_eq!(cartridge.header().title(), "TEST");
    assert_eq!(cartridge.header().cartridge_type(), 0x00);
    assert_eq!(cartridge.header().rom_size_code(), 0x00);
    assert_eq!(cartridge.header().ram_size_code(), 0x00);
    assert_eq!(cartridge.header().mapper_kind(), MapperKind::NoMbc);
    assert_eq!(cartridge.header().rom_size(), MIN_ROM_SIZE);
    assert_eq!(cartridge.header().ram_size(), 0);
}

#[test]
fn cgb_flag_distinguishes_dmg_compatible_from_cgb_only() {
    let mut dmg_only = synthetic_rom("DMG", &[(0, &[0x00])]);
    dmg_only[CGB_FLAG_OFFSET] = 0x00;
    let cart = Cartridge::from_bytes(dmg_only).expect("valid ROM");
    assert!(!cart.header().supports_cgb());
    assert!(!cart.header().requires_cgb());

    let mut cgb_compatible = synthetic_rom("COMPAT", &[(0, &[0x00])]);
    cgb_compatible[CGB_FLAG_OFFSET] = 0x80;
    let cart = Cartridge::from_bytes(cgb_compatible).expect("valid ROM");
    assert!(cart.header().supports_cgb());
    assert!(!cart.header().requires_cgb());

    let mut cgb_only = synthetic_rom("CGBONLY", &[(0, &[0x00])]);
    cgb_only[CGB_FLAG_OFFSET] = 0xC0;
    let cart = Cartridge::from_bytes(cgb_only).expect("valid ROM");
    assert!(cart.header().supports_cgb());
    assert!(cart.header().requires_cgb());
}

#[test]
fn rejects_small_roms() {
    let err = Cartridge::from_bytes(vec![0; 16]).expect_err("small ROM should fail");

    assert!(matches!(err, EmulatorError::InvalidRom { .. }));
}

#[test]
fn rejects_unsupported_cartridge_type() {
    let mut rom = synthetic_rom("UNSUPPORTED", &[(0, &[0x00])]);
    rom[CARTRIDGE_TYPE_OFFSET] = 0xFC;

    assert_eq!(
        Cartridge::from_bytes(rom),
        Err(EmulatorError::UnsupportedCartridge {
            cartridge_type: 0xFC
        })
    );
}

#[test]
fn rejects_rom_shorter_than_declared_size() {
    let mut rom = synthetic_rom_with_header("SHORT", 0x00, 0x01, 0x00, &[]);
    rom.truncate(MIN_ROM_SIZE);

    assert!(matches!(
        Cartridge::from_bytes(rom),
        Err(EmulatorError::InvalidRom { .. })
    ));
}

#[test]
fn synthetic_rom_places_program_at_start() {
    let rom = synthetic_rom("TEST", &[(0, &[0x3E, 0x12])]);
    let cartridge = Cartridge::from_bytes(rom).expect("valid ROM");

    assert_eq!(cartridge.read_rom(0), Some(0x3E));
    assert_eq!(cartridge.read_rom(1), Some(0x12));
}

#[test]
fn no_mbc_reads_fixed_rom_and_ignores_rom_writes() {
    let rom = synthetic_rom("ROM", &[(0x0000, &[0x12]), (0x4000, &[0x34])]);
    let mut cartridge = Cartridge::from_bytes(rom).expect("valid ROM");

    assert_eq!(cartridge.read_rom(0x0000), Some(0x12));
    assert_eq!(cartridge.read_rom(0x4000), Some(0x34));

    cartridge.write_rom(0x2000, 0x02);
    assert_eq!(cartridge.read_rom(0x4000), Some(0x34));
}

#[test]
fn mbc1_switches_rom_banks_and_never_selects_bank_zero_in_switchable_region() {
    let rom = banked_rom(0x01, 0x01, 0x00);
    let mut cartridge = Cartridge::from_bytes(rom).expect("valid MBC1 ROM");

    assert_eq!(cartridge.header().mapper_kind(), MapperKind::Mbc1);
    assert_eq!(cartridge.read_rom(0x0000), Some(0));
    assert_eq!(cartridge.read_rom(0x4000), Some(1));

    cartridge.write_rom(0x2000, 0x02);
    assert_eq!(cartridge.read_rom(0x4000), Some(2));

    cartridge.write_rom(0x2000, 0x00);
    assert_eq!(cartridge.read_rom(0x4000), Some(1));
}

#[test]
fn mbc1_ram_enable_and_banking_mode_select_ram_banks() {
    let rom = banked_rom(0x03, 0x00, 0x03);
    let mut cartridge = Cartridge::from_bytes(rom).expect("valid MBC1 ROM");

    cartridge.write_ram(0x0000, 0x11);
    assert_eq!(cartridge.read_ram(0x0000), Some(0xFF));

    cartridge.write_rom(0x0000, 0x0A);
    cartridge.write_ram(0x0000, 0x11);
    assert_eq!(cartridge.read_ram(0x0000), Some(0x11));

    cartridge.write_rom(0x6000, 0x01);
    cartridge.write_rom(0x4000, 0x01);
    cartridge.write_ram(0x0000, 0x22);
    assert_eq!(cartridge.read_ram(0x0000), Some(0x22));

    cartridge.write_rom(0x4000, 0x00);
    assert_eq!(cartridge.read_ram(0x0000), Some(0x11));
}

#[test]
fn mbc3_switches_rom_and_ram_banks() {
    let rom = banked_rom(0x13, 0x02, 0x03);
    let mut cartridge = Cartridge::from_bytes(rom).expect("valid MBC3 ROM");

    assert_eq!(cartridge.header().mapper_kind(), MapperKind::Mbc3);
    assert_eq!(cartridge.read_rom(0x0000), Some(0));
    assert_eq!(cartridge.read_rom(0x4000), Some(1));

    cartridge.write_rom(0x2000, 0x03);
    assert_eq!(cartridge.read_rom(0x4000), Some(3));

    cartridge.write_rom(0x2000, 0x00);
    assert_eq!(cartridge.read_rom(0x4000), Some(1));

    cartridge.write_ram(0x0000, 0x11);
    assert_eq!(cartridge.read_ram(0x0000), Some(0xFF));

    cartridge.write_rom(0x0000, 0x0A);
    cartridge.write_rom(0x4000, 0x00);
    cartridge.write_ram(0x0000, 0x11);
    cartridge.write_rom(0x4000, 0x02);
    cartridge.write_ram(0x0000, 0x22);

    cartridge.write_rom(0x4000, 0x00);
    assert_eq!(cartridge.read_ram(0x0000), Some(0x11));
    cartridge.write_rom(0x4000, 0x02);
    assert_eq!(cartridge.read_ram(0x0000), Some(0x22));
}

#[test]
fn mbc3_latches_and_halts_rtc_registers() {
    let rom = banked_rom(0x10, 0x00, 0x03);
    let mut cartridge = Cartridge::from_bytes(rom).expect("valid MBC3 RTC ROM");

    assert!(cartridge.has_rtc());
    cartridge.write_rom(0x0000, 0x0A);
    cartridge.advance_cycles(RTC_CYCLES_PER_SECOND * 2);
    cartridge.write_rom(0x6000, 0x00);
    cartridge.write_rom(0x6000, 0x01);
    cartridge.write_rom(0x4000, 0x08);
    assert_eq!(cartridge.read_ram(0x0000), Some(2));

    cartridge.write_ram(0x0000, 58);
    cartridge.advance_cycles(RTC_CYCLES_PER_SECOND * 2);
    cartridge.write_rom(0x6000, 0x00);
    cartridge.write_rom(0x6000, 0x01);
    assert_eq!(cartridge.read_ram(0x0000), Some(0));

    cartridge.write_rom(0x4000, 0x09);
    assert_eq!(cartridge.read_ram(0x0000), Some(1));

    cartridge.write_rom(0x4000, 0x0C);
    cartridge.write_ram(0x0000, 0x40);
    cartridge.advance_cycles(RTC_CYCLES_PER_SECOND);
    cartridge.write_rom(0x6000, 0x00);
    cartridge.write_rom(0x6000, 0x01);
    cartridge.write_rom(0x4000, 0x08);
    assert_eq!(cartridge.read_ram(0x0000), Some(0));
}

#[test]
fn mbc3_without_timer_does_not_expose_rtc_registers() {
    let rom = banked_rom(0x13, 0x00, 0x03);
    let mut cartridge = Cartridge::from_bytes(rom).expect("valid MBC3 ROM");

    assert!(!cartridge.has_rtc());
    assert_eq!(cartridge.save_rtc(), None);

    cartridge.write_rom(0x0000, 0x0A);
    cartridge.write_rom(0x4000, 0x08);
    cartridge.write_ram(0x0000, 12);
    cartridge.write_rom(0x6000, 0x00);
    cartridge.write_rom(0x6000, 0x01);
    assert_eq!(cartridge.read_ram(0x0000), Some(0xFF));
}

#[test]
fn mbc5_uses_nine_bit_rom_bank_and_four_bit_ram_bank() {
    let mut rom = banked_rom(0x1B, 0x08, 0x04);
    rom[0x0123] = 0x00;
    rom[ROM_BANK_SIZE + 0x0123] = 0x11;
    rom[0x101 * ROM_BANK_SIZE + 0x0123] = 0xA5;
    let mut cartridge = Cartridge::from_bytes(rom).expect("valid MBC5 ROM");

    assert_eq!(cartridge.header().mapper_kind(), MapperKind::Mbc5);
    assert_eq!(cartridge.read_rom(0x0123), Some(0x00));
    assert_eq!(cartridge.read_rom(0x4123), Some(0x11));

    cartridge.write_rom(0x2000, 0x01);
    cartridge.write_rom(0x3000, 0x01);
    assert_eq!(cartridge.read_rom(0x4123), Some(0xA5));

    cartridge.write_ram(0x0000, 0x11);
    assert_eq!(cartridge.read_ram(0x0000), Some(0xFF));

    cartridge.write_rom(0x0000, 0x0A);
    cartridge.write_rom(0x4000, 0x00);
    cartridge.write_ram(0x0000, 0x11);
    cartridge.write_rom(0x4000, 0x0F);
    cartridge.write_ram(0x0000, 0x22);

    cartridge.write_rom(0x4000, 0x00);
    assert_eq!(cartridge.read_ram(0x0000), Some(0x11));
    cartridge.write_rom(0x4000, 0x0F);
    assert_eq!(cartridge.read_ram(0x0000), Some(0x22));
}

#[test]
fn battery_save_ram_round_trips_exact_external_ram() {
    let rom = banked_rom(0x03, 0x00, 0x03);
    let mut cartridge = Cartridge::from_bytes(rom).expect("valid battery ROM");

    assert!(cartridge.has_battery());
    assert_eq!(cartridge.save_ram().map(|ram| ram.len()), Some(32 * 1024));

    let save = vec![0x5A; 32 * 1024];
    cartridge.load_save_ram(&save).expect("load save RAM");
    assert_eq!(cartridge.save_ram(), Some(save.as_slice()));

    assert!(matches!(
        cartridge.load_save_ram(&save[..save.len() - 1]),
        Err(EmulatorError::InvalidRom { .. })
    ));
}

#[test]
fn battery_rtc_save_round_trips_timer_state() {
    let rom = banked_rom(0x10, 0x00, 0x03);
    let mut cartridge = Cartridge::from_bytes(rom).expect("valid RTC ROM");

    cartridge.advance_cycles(RTC_CYCLES_PER_SECOND * 7);
    let save = cartridge.save_rtc().expect("RTC save data");

    let mut restored =
        Cartridge::from_bytes(banked_rom(0x10, 0x00, 0x03)).expect("valid RTC ROM");
    restored.load_save_rtc(&save).expect("load RTC save");
    restored.write_rom(0x0000, 0x0A);
    restored.write_rom(0x6000, 0x00);
    restored.write_rom(0x6000, 0x01);
    restored.write_rom(0x4000, 0x08);
    assert_eq!(restored.read_ram(0x0000), Some(7));

    assert!(matches!(
        restored.load_save_rtc(&save[..save.len() - 1]),
        Err(EmulatorError::InvalidRom { .. })
    ));
}

#[test]
fn non_battery_cartridges_do_not_export_save_ram() {
    let rom = banked_rom(0x02, 0x00, 0x03);
    let cartridge = Cartridge::from_bytes(rom).expect("valid non-battery ROM");

    assert!(!cartridge.has_battery());
    assert_eq!(cartridge.save_ram(), None);
}

#[test]
fn header_title_is_trimmed_and_decoded_lossily() {
    let mut rom = synthetic_rom("X", &[]);
    rom[0x134..0x13C].copy_from_slice(b"ZELDA   ");
    rom[0x13C] = 0;
    let cartridge = Cartridge::from_bytes(rom).expect("valid ROM");
    assert_eq!(cartridge.header().title(), "ZELDA");

    let mut rom = synthetic_rom("X", &[]);
    rom[0x134] = b'A';
    rom[0x135] = 0xFF;
    rom[0x136] = b'B';
    rom[0x137] = 0;
    let cartridge = Cartridge::from_bytes(rom).expect("valid ROM");
    assert_eq!(cartridge.header().title(), "A\u{FFFD}B");
}

#[test]
fn reload_rom_replaces_image_and_rejects_short_ones() {
    let rom = synthetic_rom("RELOAD", &[(0x0200, &[0x11])]);
    let mut cartridge = Cartridge::from_bytes(rom.clone()).expect("valid ROM");

    let mut patched = rom.clone();
    patched[0x0200] = 0x22;
    cartridge.reload_rom(patched).expect("same size reloads");
    assert_eq!(cartridge.read_rom(0x0200), Some(0x22));

    let short = rom[..0x1000].to_vec();
    let err = cartridge.reload_rom(short).expect_err("short image");
    assert!(matches!(err, EmulatorError::InvalidRom { .. }));
    assert_eq!(cartridge.read_rom(0x0200), Some(0x22));
}
