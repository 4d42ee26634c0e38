use gameboy_core::ppu::{
    Ppu, PpuInterrupts, PpuMode, DOTS_PER_LINE, FRAMEBUFFER_PIXELS, MODE_2_DOTS, MODE_3_BASE_DOTS,
    OAM_ENTRY_BYTES, SCREEN_WIDTH, TILE_BYTES, VISIBLE_LINES,
};

const DMG_COLORS: [u32; 4] = [0xFFFF_FFFF, 0xFFAA_AAAA, 0xFF55_5555, 0xFF00_0000];

fn advance_to_hblank(ppu: &mut Ppu) {
    ppu.advance_cycles(ppu.mode_3_end_dot());
}

fn framebuffer_hash(framebuffer: &[u32]) -> u64 {
    framebuffer
        .iter()
        .fold(0xcbf2_9ce4_8422_2325, |hash, pixel| {
            let hash = hash ^ *pixel as u64;
            hash.wrapping_mul(0x0000_0100_0000_01B3)
        })
}

fn write_solid_tile(ppu: &mut Ppu, tile: u8, color_id: u8) {
    let low = if color_id & 0x01 != 0 { 0xFF } else { 0x00 };
    let high = if color_id & 0x02 != 0 { 0xFF } else { 0x00 };
    let base = tile as u16 * TILE_BYTES as u16;
    for row in 0..8 {
        ppu.write_vram_raw(base + row * 2, low);
        ppu.write_vram_raw(base + row * 2 + 1, high);
    }
}

#[test]
fn default_ppu_has_framebuffer_and_oam_mode() {
    let ppu = Ppu::default();

    assert_eq!(ppu.mode(), PpuMode::OamScan);
    assert_eq!(ppu.framebuffer().len(), FRAMEBUFFER_PIXELS);
    assert_eq!(ppu.read_register(0xFF44), Some(0));
}

#[test]
fn advances_through_visible_line_modes() {
    let mut ppu = Ppu::default();

    assert_eq!(ppu.mode(), PpuMode::OamScan);
    ppu.advance_cycles(80);
    assert_eq!(ppu.mode(), PpuMode::Drawing);
    ppu.advance_cycles(172);
    assert_eq!(ppu.mode(), PpuMode::HBlank);
    ppu.advance_cycles(204);
    assert_eq!(ppu.read_register(0xFF44), Some(1));
    assert_eq!(ppu.mode(), PpuMode::OamScan);
}

#[test]
fn enters_vblank_at_line_144_and_latches_frame_ready() {
    let mut ppu = Ppu::default();
    let mut interrupts = PpuInterrupts::default();

    for _ in 0..VISIBLE_LINES {
        interrupts = ppu.advance_cycles(DOTS_PER_LINE);
    }

    assert_eq!(ppu.read_register(0xFF44), Some(144));
    assert_eq!(ppu.mode(), PpuMode::VBlank);
    assert!(interrupts.vblank);
    assert!(ppu.take_frame_ready());
    assert!(!ppu.take_frame_ready());
}

#[test]
fn stat_lyc_interrupt_is_requested_only_on_new_match() {
    let mut ppu = Ppu::default();

    ppu.write_register(0xFF41, 0x40);
    ppu.write_register(0xFF45, 1);
    let interrupts = ppu.advance_cycles(DOTS_PER_LINE);
    let repeated = ppu.advance_cycles(4);

    assert!(interrupts.stat);
    assert!(!repeated.stat);
    assert_eq!(ppu.read_register(0xFF41).unwrap() & 0x04, 0x04);
}

#[test]
fn stat_mode_interrupts_are_requested_on_enabled_transitions() {
    let mut ppu = Ppu::default();
    ppu.write_register(0xFF41, 0x28);

    assert!(ppu.advance_cycles(80 + 172).stat);
    assert!(ppu.advance_cycles(204).stat);
}

#[test]
fn scx_low_bits_extend_drawing_mode() {
    let mut ppu = Ppu::default();
    ppu.write_register(0xFF43, 7);

    ppu.advance_cycles(MODE_2_DOTS + MODE_3_BASE_DOTS);
    assert_eq!(ppu.mode(), PpuMode::Drawing);
    ppu.advance_cycles(7);
    assert_eq!(ppu.mode(), PpuMode::HBlank);
}

#[test]
fn disabling_lcd_resets_line_mode_and_frame_state() {
    let mut ppu = Ppu::default();

    ppu.advance_cycles(DOTS_PER_LINE);
    ppu.write_register(0xFF40, 0x00);

    assert_eq!(ppu.read_register(0xFF44), Some(0));
    assert_eq!(ppu.mode(), PpuMode::HBlank);
    assert!(!ppu.take_frame_ready());
}

#[test]
fn stat_register_preserves_read_only_mode_and_lyc_bits() {
    let mut ppu = Ppu::default();

    ppu.write_register(0xFF41, 0xFF);

    assert_eq!(ppu.read_register(0xFF41), Some(0xFE));
}

#[test]
fn vram_reads_and_writes_are_available_to_ppu() {
    let mut ppu = Ppu::default();

    advance_to_hblank(&mut ppu);
    assert!(ppu.write_vram(0x123, 0xAB));
    assert_eq!(ppu.read_vram(0x123), Some(0xAB));
    assert!(!ppu.write_vram(0x2000, 0x12));
    assert_eq!(ppu.read_vram(0x2000), None);
}

#[test]
fn vram_is_restricted_during_drawing_mode() {
    let mut ppu = Ppu::default();
    ppu.write_vram_raw(0x100, 0xAB);
    ppu.advance_cycles(MODE_2_DOTS);

    assert_eq!(ppu.mode(), PpuMode::Drawing);
    assert_eq!(ppu.read_vram(0x100), Some(0xFF));
    assert!(ppu.write_vram(0x100, 0x12));
    assert_eq!(ppu.read_vram_raw(0x100), Some(0xAB));
}

#[test]
fn oam_reads_and_writes_are_available_to_ppu_outside_restricted_modes() {
    let mut ppu = Ppu::default();

    advance_to_hblank(&mut ppu);
    assert!(ppu.write_oam(0x10, 0xAB));
    assert_eq!(ppu.read_oam(0x10), Some(0xAB));
    assert!(!ppu.write_oam(0xA0, 0x12));
    assert_eq!(ppu.read_oam(0xA0), None);
}

#[test]
fn oam_is_restricted_during_oam_and_drawing_modes() {
    let mut ppu = Ppu::default();
    ppu.write_oam_raw(0x10, 0xAB);

    assert_eq!(ppu.read_oam(0x10), Some(0xFF));
    assert!(ppu.write_oam(0x10, 0x12));
    assert_eq!(ppu.read_oam_raw(0x10), Some(0xAB));
    ppu.advance_cycles(MODE_2_DOTS);
    assert_eq!(ppu.read_oam(0x10), Some(0xFF));
}

#[test]
fn renders_background_tile_pixels_into_framebuffer() {
    let mut ppu = Ppu::default();
    ppu.write_register(0xFF40, 0x91);
    ppu.write_register(0xFF47, 0b11_10_01_00);
    ppu.write_vram_raw(0x1800, 1);
    ppu.write_vram_raw(TILE_BYTES as u16, 0b1000_0000);
    ppu.write_vram_raw((TILE_BYTES + 1) as u16, 0);

    ppu.advance_cycles(DOTS_PER_LINE);

    assert_eq!(ppu.framebuffer()[0], DMG_COLORS[1]);
    assert_eq!(ppu.framebuffer()[1], DMG_COLORS[0]);
}

#[test]
fn background_rendering_uses_scroll_registers() {
    let mut ppu = Ppu::default();
    ppu.write_register(0xFF40, 0x91);
    ppu.write_register(0xFF43, 8);
    ppu.write_vram_raw(0x1801, 2);
    ppu.write_vram_raw((TILE_BYTES * 2) as u16, 0b1000_0000);

    ppu.advance_cycles(DOTS_PER_LINE);

    assert_eq!(ppu.framebuffer()[0], DMG_COLORS[3]);
}

#[test]
fn background_can_use_alternate_tile_map_and_signed_tile_data() {
    let mut ppu = Ppu::default();
    ppu.write_register(0xFF40, 0x89);
    ppu.write_vram_raw(0x1C00, 0xFF);
    ppu.write_vram_raw(0x0FF0, 0x80);

    ppu.advance_cycles(DOTS_PER_LINE);

    assert_eq!(ppu.framebuffer()[0], DMG_COLORS[3]);
}

#[test]
fn window_renders_from_wy_wx_and_selected_tile_map() {
    let mut ppu = Ppu::default();
    ppu.write_register(0xFF40, 0xF1);
    ppu.write_register(0xFF4A, 0);
    ppu.write_register(0xFF4B, 7);
    ppu.write_register(0xFF47, 0b11_10_01_00);
    ppu.write_vram_raw(0x1C00, 3);
    ppu.write_vram_raw((TILE_BYTES * 3) as u16, 0x80);

    ppu.advance_cycles(DOTS_PER_LINE);

    assert_eq!(ppu.framebuffer()[0], DMG_COLORS[1]);
    assert_eq!(ppu.framebuffer()[1], DMG_COLORS[0]);
}

#[test]
fn window_with_wx_less_than_seven_starts_partway_into_tile() {
    let mut ppu = Ppu::default();
    ppu.write_register(0xFF40, 0xF1);
    ppu.write_register(0xFF4A, 0);
    ppu.write_register(0xFF4B, 0);
    ppu.write_register(0xFF47, 0b11_10_01_00);
    ppu.write_vram_raw(0x1C00, 1);
    ppu.write_vram_raw(TILE_BYTES as u16, 0x01);

    ppu.advance_cycles(DOTS_PER_LINE);

    assert_eq!(ppu.framebuffer()[0], DMG_COLORS[1]);
    assert_eq!(ppu.framebuffer()[1], DMG_COLORS[0]);
}

#[test]
fn window_line_counter_advances_only_on_visible_window_lines() {
    let mut ppu = Ppu::default();
    ppu.write_register(0xFF40, 0xF1);
    ppu.write_register(0xFF4A, 1);
    ppu.write_register(0xFF4B, 7);
    ppu.write_register(0xFF47, 0b11_10_01_00);
    ppu.write_vram_raw(0x1C00, 1);
    ppu.write_vram_raw(TILE_BYTES as u16, 0x80);
    ppu.write_vram_raw(TILE_BYTES as u16 + 2, 0xC0);
    ppu.write_vram_raw(TILE_BYTES as u16 + 3, 0xC0);

    ppu.advance_cycles(DOTS_PER_LINE);
    ppu.advance_cycles(DOTS_PER_LINE);
    ppu.advance_cycles(DOTS_PER_LINE);

    assert_eq!(ppu.framebuffer()[SCREEN_WIDTH], DMG_COLORS[1]);
    assert_eq!(ppu.framebuffer()[SCREEN_WIDTH * 2], DMG_COLORS[3]);
}

#[test]
fn renders_sprite_pixels_over_background() {
    let mut ppu = Ppu::default();
    ppu.write_register(0xFF40, 0x93);
    ppu.write_register(0xFF48, 0b11_10_01_00);
    ppu.write_vram_raw(TILE_BYTES as u16, 0b1000_0000);
    ppu.write_oam_raw(0, 16);
    ppu.write_oam_raw(1, 8);
    ppu.write_oam_raw(2, 1);
    ppu.write_oam_raw(3, 0);

    ppu.advance_cycles(DOTS_PER_LINE);

    assert_eq!(ppu.framebuffer()[0], DMG_COLORS[1]);
    assert_eq!(ppu.framebuffer()[1], DMG_COLORS[0]);
}

#[test]
fn sprite_color_zero_is_transparent() {
    let mut ppu = Ppu::default();
    ppu.write_register(0xFF40, 0x93);
    ppu.write_vram_raw(0x1800, 2);
    ppu.write_vram_raw((TILE_BYTES * 2) as u16, 0x80);
    ppu.write_oam_raw(0, 16);
    ppu.write_oam_raw(1, 8);
    ppu.write_oam_raw(2, 1);

    ppu.advance_cycles(DOTS_PER_LINE);

    assert_eq!(ppu.framebuffer()[0], DMG_COLORS[3]);
}

#[test]
fn sprite_priority_keeps_nonzero_background_in_front() {
    let mut ppu = Ppu::default();
    ppu.write_register(0xFF40, 0x93);
    ppu.write_vram_raw(0x1800, 2);
    ppu.write_vram_raw((TILE_BYTES * 2) as u16, 0x80);
    ppu.write_vram_raw(TILE_BYTES as u16, 0x80);
    ppu.write_oam_raw(0, 16);
    ppu.write_oam_raw(1, 8);
    ppu.write_oam_raw(2, 1);
    ppu.write_oam_raw(3, 0x80);

    ppu.advance_cycles(DOTS_PER_LINE);

    assert_eq!(ppu.framebuffer()[0], DMG_COLORS[3]);
}

#[test]
fn sprite_x_and_y_flip_reverse_pixels() {
    let mut ppu = Ppu::default();
    ppu.write_register(0xFF40, 0x93);
    ppu.write_vram_raw(TILE_BYTES as u16 + 14, 0x01);
    ppu.write_oam_raw(0, 16);
    ppu.write_oam_raw(1, 8);
    ppu.write_oam_raw(2, 1);
    ppu.write_oam_raw(3, 0x60);

    ppu.advance_cycles(DOTS_PER_LINE);

    assert_eq!(ppu.framebuffer()[0], DMG_COLORS[3]);
}

#[test]
fn eight_by_sixteen_sprites_use_even_tile_number() {
    let mut ppu = Ppu::default();
    ppu.write_register(0xFF40, 0x97);
    ppu.write_vram_raw((TILE_BYTES * 2) as u16, 0x80);
    ppu.write_vram_raw((TILE_BYTES * 3) as u16, 0);
    ppu.write_oam_raw(0, 16);
    ppu.write_oam_raw(1, 8);
    ppu.write_oam_raw(2, 3);

    ppu.advance_cycles(DOTS_PER_LINE);

    assert_eq!(ppu.framebuffer()[0], DMG_COLORS[3]);
}

#[test]
fn lower_x_sprite_has_priority_over_higher_x_sprite() {
    let mut ppu = Ppu::default();
    ppu.write_register(0xFF40, 0x93);
    ppu.write_register(0xFF48, 0b11_10_01_00);
    ppu.write_register(0xFF49, 0b11_10_01_00);
    ppu.write_vram_raw(TILE_BYTES as u16, 0x80);
    ppu.write_vram_raw((TILE_BYTES * 2) as u16, 0x80);
    ppu.write_oam_raw(0, 16);
    ppu.write_oam_raw(1, 9);
    ppu.write_oam_raw(2, 1);
    ppu.write_oam_raw(4, 16);
    ppu.write_oam_raw(5, 8);
    ppu.write_oam_raw(6, 2);
    ppu.write_oam_raw(7, 0x10);

    ppu.advance_cycles(DOTS_PER_LINE);

    assert_eq!(ppu.framebuffer()[1], DMG_COLORS[1]);
}

#[test]
fn only_ten_sprites_are_selected_per_scanline() {
    let mut ppu = Ppu::default();
    ppu.write_register(0xFF40, 0x93);
    ppu.write_vram_raw(TILE_BYTES as u16, 0x80);
    for sprite in 0..11 {
        let offset = sprite * OAM_ENTRY_BYTES;
        ppu.write_oam_raw(offset as u16, 16);
        ppu.write_oam_raw((offset + 1) as u16, (8 + sprite) as u8);
        ppu.write_oam_raw((offset + 2) as u16, 1);
    }

    ppu.advance_cycles(DOTS_PER_LINE);

    assert_eq!(ppu.framebuffer()[10], DMG_COLORS[0]);
}

#[test]
fn visual_regression_background_window_and_sprites() {
    let mut ppu = Ppu::default();
    ppu.write_register(0xFF40, 0xF3);
    ppu.write_register(0xFF42, 4);
    ppu.write_register(0xFF43, 3);
    ppu.write_register(0xFF4A, 24);
    ppu.write_register(0xFF4B, 23);
    ppu.write_register(0xFF47, 0b11_10_01_00);
    ppu.write_register(0xFF48, 0b11_10_01_00);
    ppu.write_register(0xFF49, 0b11_10_01_00);

    write_solid_tile(&mut ppu, 1, 1);
    write_solid_tile(&mut ppu, 2, 2);
    write_solid_tile(&mut ppu, 3, 3);
    for index in 0..0x400 {
        ppu.write_vram_raw(0x1800 + index as u16, if index % 2 == 0 { 1 } else { 2 });
        ppu.write_vram_raw(0x1C00 + index as u16, 3);
    }

    ppu.write_oam_raw(0, 40);
    ppu.write_oam_raw(1, 32);
    ppu.write_oam_raw(2, 3);
    ppu.write_oam_raw(3, 0);
    ppu.write_oam_raw(4, 40);
    ppu.write_oam_raw(5, 28);
    ppu.write_oam_raw(6, 2);
    ppu.write_oam_raw(7, 0x80);

    for _ in 0..VISIBLE_LINES {
        ppu.advance_cycles(DOTS_PER_LINE);
    }

    assert_eq!(framebuffer_hash(ppu.framebuffer()), 0x9a26_f37f_2123_4965);
}

#[test]
fn visual_regression_bg_disabled_sprite_priority_is_ignored() {
    let mut ppu = Ppu::default();
    ppu.write_register(0xFF40, 0x92);
    ppu.write_register(0xFF48, 0b11_10_01_00);
    write_solid_tile(&mut ppu, 1, 3);
    ppu.write_oam_raw(0, 16);
    ppu.write_oam_raw(1, 8);
    ppu.write_oam_raw(2, 1);
    ppu.write_oam_raw(3, 0x80);

    ppu.advance_cycles(DOTS_PER_LINE);

    assert_eq!(ppu.framebuffer()[0], DMG_COLORS[3]);
    assert_eq!(framebuffer_hash(ppu.framebuffer()), 0xfe44_45db_b72e_5b0d);
}

fn write_cgb_color(ppu: &mut Ppu, index_reg: u16, data_reg: u16, slot: u8, rgb555: u16) {
    ppu.write_register(index_reg, 0x80 | (slot * 2));
    ppu.write_register(data_reg, (rgb555 & 0xFF) as u8);
    ppu.write_register(data_reg, (rgb555 >> 8) as u8);
}

#[test]
fn cgb_vram_banks_are_independent() {
    let mut ppu = Ppu::default();
    ppu.set_cgb(true);

    ppu.write_register(0xFF4F, 0);
    assert!(ppu.write_vram_raw(0x100, 0xAA));
    ppu.write_register(0xFF4F, 1);
    assert!(ppu.write_vram_raw(0x100, 0xBB));

    assert_eq!(ppu.read_vram_raw(0x100), Some(0xBB));
    assert_eq!(ppu.read_register(0xFF4F), Some(0xFF));
    ppu.write_register(0xFF4F, 0);
    assert_eq!(ppu.read_vram_raw(0x100), Some(0xAA));
    assert_eq!(ppu.read_register(0xFF4F), Some(0xFE));
}

#[test]
fn cgb_palette_data_auto_increments_and_reads_back() {
    let mut ppu = Ppu::default();
    ppu.set_cgb(true);

    ppu.write_register(0xFF68, 0x80);
    for value in 0..8u8 {
        ppu.write_register(0xFF69, value);
    }

    ppu.write_register(0xFF68, 0x03);
    assert_eq!(ppu.read_register(0xFF69), Some(3));
    assert_eq!(ppu.read_register(0xFF68), Some(0x43));
}

#[test]
fn cgb_background_uses_color_palette() {
    let mut ppu = Ppu::default();
    ppu.set_cgb(true);
    ppu.write_register(0xFF40, 0x91);
    write_cgb_color(&mut ppu, 0xFF68, 0xFF69, 1, 0x001F);
    ppu.write_vram_raw(0x1800, 1);
    ppu.write_vram_raw(TILE_BYTES as u16, 0x80);

    ppu.advance_cycles(DOTS_PER_LINE);

    assert_eq!(ppu.framebuffer()[0], 0xFFFF_0000);
}

#[test]
fn cgb_bg_attribute_selects_palette() {
    let mut ppu = Ppu::default();
    ppu.set_cgb(true);
    ppu.write_register(0xFF40, 0x91);
    write_cgb_color(&mut ppu, 0xFF68, 0xFF69, 4 + 1, 0x03E0);
    ppu.write_vram_raw(0x1800, 1);
    ppu.write_vram_raw(TILE_BYTES as u16, 0x80);
    ppu.write_register(0xFF4F, 1);
    ppu.write_vram_raw(0x1800, 0x01);
    ppu.write_register(0xFF4F, 0);

    ppu.advance_cycles(DOTS_PER_LINE);

    assert_eq!(ppu.framebuffer()[0], 0xFF00_FF00);
}

#[test]
fn cgb_bg_attribute_x_flip_mirrors_tile() {
    let mut ppu = Ppu::default();
    ppu.set_cgb(true);
    ppu.write_register(0xFF40, 0x91);
    write_cgb_color(&mut ppu, 0xFF68, 0xFF69, 1, 0x001F);
    ppu.write_vram_raw(0x1800, 1);
    ppu.write_vram_raw(TILE_BYTES as u16, 0x80);
    ppu.write_register(0xFF4F, 1);
    ppu.write_vram_raw(0x1800, 0x20);
    ppu.write_register(0xFF4F, 0);

    ppu.advance_cycles(DOTS_PER_LINE);

    assert_eq!(ppu.framebuffer()[7], 0xFFFF_0000);
    assert_eq!(ppu.framebuffer()[0], 0xFF00_0000);
}

#[test]
fn cgb_sprite_priority_uses_oam_index_not_x() {
    let mut ppu = Ppu::default();
    ppu.set_cgb(true);
    ppu.write_register(0xFF40, 0x93);
    write_cgb_color(&mut ppu, 0xFF6A, 0xFF6B, 1, 0x001F);
    write_cgb_color(&mut ppu, 0xFF6A, 0xFF6B, 4 + 1, 0x03E0);
    ppu.write_vram_raw(TILE_BYTES as u16, 0x80);
    ppu.write_vram_raw((TILE_BYTES * 2) as u16, 0x01);
    ppu.write_oam_raw(0, 16);
    ppu.write_oam_raw(1, 8);
    ppu.write_oam_raw(2, 1);
    ppu.write_oam_raw(3, 0x00);
    ppu.write_oam_raw(4, 16);
    ppu.write_oam_raw(5, 1);
    ppu.write_oam_raw(6, 2);
    ppu.write_oam_raw(7, 0x01);

    ppu.advance_cycles(DOTS_PER_LINE);

    assert_eq!(ppu.framebuffer()[0], 0xFFFF_0000);
}

#[test]
fn full_frame_returns_to_line_zero() {
    let mut ppu = Ppu::default();

    for _ in 0..154 {
        ppu.advance_cycles(DOTS_PER_LINE);
    }

    assert_eq!(ppu.read_register(0xFF44), Some(0));
    assert_eq!(ppu.mode(), PpuMode::OamScan);
    assert!(ppu.take_frame_ready());
}

#[test]
fn raw_bank_writes_land_in_the_named_bank_only() {
    let mut ppu = Ppu::default();

    assert_eq!(ppu.vram_bank(), 0);
    assert!(ppu.write_vram_bank_raw(0, 0x0010, 0x5A));
    assert!(ppu.write_vram_bank_raw(1, 0x0010, 0x77));
    assert_eq!(ppu.read_vram_raw(0x0010), Some(0x5A));
    assert!(!ppu.write_vram_bank_raw(0, 0x2000, 0x11));
    assert_eq!(ppu.read_vram_raw(0x2000), None);
}
