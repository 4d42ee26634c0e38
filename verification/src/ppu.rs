use vstd::prelude::*;
use crate::bits::{lemma_byte_bits, lemma_word_bits};
use crate::memory::MemoryRegion;

verus! {

pub const SCREEN_WIDTH: usize = 160;
pub const SCREEN_HEIGHT: usize = 144;
pub const FRAMEBUFFER_PIXELS: usize = 23040;
pub const DOTS_PER_LINE: u32 = 456;
pub const VISIBLE_LINES: u8 = 144;
pub const LINES_PER_FRAME: u8 = 154;
pub const MODE_2_DOTS: u32 = 80;
pub const MODE_3_BASE_DOTS: u32 = 172;
pub const VRAM_SIZE: usize = 0x2000;
pub const OAM_SIZE: usize = 0xA0;
pub const OAM_ENTRY_BYTES: usize = 4;
pub const SPRITE_COUNT: usize = 40;
pub const MAX_SPRITES_PER_LINE: usize = 10;
pub const TILE_BYTES: usize = 16;
pub const TILE_MAP_SIZE: usize = 32;
pub const CGB_PALETTE_RAM_SIZE: usize = 64;

/// The four grey levels of the original handheld, lightest first, as ARGB.
pub open spec fn dmg_color(shade: u8) -> u32 {
    if shade == 0 {
        0xFFFF_FFFF
    } else if shade == 1 {
        0xFFAA_AAAA
    } else if shade == 2 {
        0xFF55_5555
    } else {
        0xFF00_0000
    }
}

pub fn dmg_color_value(shade: u8) -> (color: u32)
    requires
        shade <= 3,
    ensures
        color == dmg_color(shade),
{
    match shade {
        0 => 0xFFFF_FFFF,
        1 => 0xFFAA_AAAA,
        2 => 0xFF55_5555,
        _ => 0xFF00_0000,
    }
}

/// What the display is doing; the numbers are the STAT mode bits.
#[derive(Debug, Clone, Copy, PartialEq, Eq, Structural)]
pub enum PpuMode {
    HBlank,
    VBlank,
    OamScan,
    Drawing,
}

/// The STAT mode bits of a mode.
pub open spec fn mode_bits(mode: PpuMode) -> u8 {
    match mode {
        PpuMode::HBlank => 0,
        PpuMode::VBlank => 1,
        PpuMode::OamScan => 2,
        PpuMode::Drawing => 3,
    }
}

pub fn mode_number(mode: PpuMode) -> (bits: u8)
    ensures
        bits == mode_bits(mode),
{
    match mode {
        PpuMode::HBlank => 0,
        PpuMode::VBlank => 1,
        PpuMode::OamScan => 2,
        PpuMode::Drawing => 3,
    }
}

impl Default for PpuMode {
    fn default() -> (mode: Self)
        ensures
            mode == PpuMode::HBlank,
    {
        PpuMode::HBlank
    }
}

/// Which interrupts a stretch of display time raised.
#[derive(Debug, Clone, Copy, Default, PartialEq, Eq, Structural)]
pub struct PpuInterrupts {
    pub vblank: bool,
    pub stat: bool,
}

/// One object found on the current line.
#[derive(Debug, Clone, Copy, PartialEq, Eq, Structural)]
pub struct Sprite {
    pub oam_index: usize,
    pub x: i16,
    pub y: i16,
    pub tile: u8,
    pub attributes: u8,
    pub line: usize,
}

proof fn lemma_passes_line_step(ly: int, lines: int, target: int)
    requires
        lines >= 0,
    ensures
        passes_line(ly, lines + 1, target) == (passes_line(ly, lines, target) || (ly + lines + 1)
            % (LINES_PER_FRAME as int) == target),
{
    if passes_line(ly, lines + 1, target) {
        let k = choose|k: int| 1 <= k <= lines + 1 && #[trigger] ((ly + k) % (LINES_PER_FRAME as int))
            == target;
        if k <= lines {
            assert(passes_line(ly, lines, target));
        }
    }
    if passes_line(ly, lines, target) {
        let k = choose|k: int| 1 <= k <= lines && #[trigger] ((ly + k) % (LINES_PER_FRAME as int))
            == target;
        assert(1 <= k <= lines + 1);
    }
    if (ly + lines + 1) % (LINES_PER_FRAME as int) == target {
        assert(1 <= lines + 1 <= lines + 1 && ((ly + (lines + 1)) % (LINES_PER_FRAME as int))
            == target);
    }
}

/// A new LY == LYC coincidence comes within the next `lines` line ends
/// after line `ly`: at the first only when the coincidence flag (`flag`)
/// was clear, at later ones always (two lines in a row differ).
pub open spec fn lyc_reached(ly: int, lyc: int, lines: int, flag: bool) -> bool {
    exists|k: int| 1 <= k <= lines && #[trigger] ((ly + k) % (LINES_PER_FRAME as int)) == lyc && (k > 1 || !flag)
}

proof fn lemma_lyc_reached_step(ly: int, lyc: int, lines: int, flag: bool)
    requires
        lines >= 0,
    ensures
        lyc_reached(ly, lyc, lines + 1, flag) == (lyc_reached(ly, lyc, lines, flag) || ((ly + lines + 1)
            % (LINES_PER_FRAME as int) == lyc && (lines >= 1 || !flag))),
{
    if lyc_reached(ly, lyc, lines + 1, flag) {
        let k = choose|k: int|
            1 <= k <= lines + 1 && #[trigger] ((ly + k) % (LINES_PER_FRAME as int)) == lyc && (k > 1 || !flag);
        if k <= lines {
            assert(lyc_reached(ly, lyc, lines, flag));
        }
    }
    if lyc_reached(ly, lyc, lines, flag) {
        let k = choose|k: int|
            1 <= k <= lines && #[trigger] ((ly + k) % (LINES_PER_FRAME as int)) == lyc && (k > 1 || !flag);
        assert(1 <= k <= lines + 1);
    }
    if (ly + lines + 1) % (LINES_PER_FRAME as int) == lyc && (lines >= 1 || !flag) {
        assert(1 <= lines + 1 <= lines + 1 && ((ly + (lines + 1)) % (LINES_PER_FRAME as int)) == lyc);
    }
}

/// The STAT interrupts raised at line ends over `lines` lines from line
/// `ly`: entering line 144 with STAT bit 4 set, line 0 with bit 5 set, and
/// a new LY == LYC coincidence with bit 6 set.
pub open spec fn line_end_stat(ly: int, lyc: int, stat: u8, lines: int) -> bool {
    ||| passes_line(ly, lines, 144) && stat & 0x10 != 0
    ||| passes_line(ly, lines, 0) && stat & 0x20 != 0
    ||| lyc_reached(ly, lyc, lines, stat & 0x04 != 0) && stat & 0x40 != 0
}

/// Whether STAT has the interrupt for entering `mode` enabled (HBlank bit
/// 3, OAM scan bit 5; drawing has none).
pub open spec fn mode_stat_enabled(stat: u8, mode: PpuMode) -> bool {
    match mode {
        PpuMode::HBlank => stat & 0x08 != 0,
        PpuMode::OamScan => stat & 0x20 != 0,
        PpuMode::VBlank => stat & 0x10 != 0,
        PpuMode::Drawing => false,
    }
}

/// Whether letting `cycles` dots pass from `before` to `after` raises the
/// STAT interrupt: with the display on, at a line end (`line_end_stat`),
/// or when a visible line it ends on has moved to a mode whose interrupt
/// is enabled (the mode before is OAM scan once line 0 was entered, else
/// the starting one).
pub open spec fn stat_raised(before: Ppu, after: Ppu, cycles: u32) -> bool {
    let lines = (before.spec_line_dots() + cycles) / DOTS_PER_LINE as int;
    let mode_before = if passes_line(before.spec_ly() as int, lines, 0) {
        PpuMode::OamScan
    } else {
        before.spec_mode()
    };
    before.lcd_on() && (line_end_stat(before.spec_ly() as int, before.spec_lyc() as int, before.spec_stat(), lines)
        || (after.spec_ly() < VISIBLE_LINES && after.spec_mode() != mode_before && mode_stat_enabled(
        before.spec_stat(),
        after.spec_mode(),
    )))
}

/// The mode a visible line is in `dots` into it, when drawing ends at `mode_3_end`.
pub open spec fn mode_at_dot(dots: int, mode_3_end: int) -> PpuMode {
    if dots < MODE_2_DOTS {
        PpuMode::OamScan
    } else if dots < mode_3_end {
        PpuMode::Drawing
    } else {
        PpuMode::HBlank
    }
}

/// Some line among the next `lines` lines after line `ly` is line `target`.
pub open spec fn passes_line(ly: int, lines: int, target: int) -> bool {
    exists|k: int| 1 <= k <= lines && #[trigger] ((ly + k) % (LINES_PER_FRAME as int)) == target
}

/// The offset of a tile's data in VRAM: unsigned addressing from 0x0000, or
/// signed addressing around 0x1000.
pub open spec fn tile_data_offset_of(tile_id: u8, unsigned: bool) -> int {
    if unsigned {
        tile_id * TILE_BYTES as int
    } else if tile_id < 128 {
        0x1000 + tile_id * TILE_BYTES as int
    } else {
        0x1000 + (tile_id - 256) * TILE_BYTES as int
    }
}

pub fn tile_data_offset(tile_id: u8, unsigned: bool) -> (offset: usize)
    ensures
        offset == tile_data_offset_of(tile_id, unsigned),
        offset + TILE_BYTES <= 0x1800,
{
    if unsigned {
        tile_id as usize * TILE_BYTES
    } else if tile_id < 128 {
        0x1000 + tile_id as usize * TILE_BYTES
    } else {
        0x1000 - (256 - tile_id as usize) * TILE_BYTES
    }
}

/// The grey that a DMG palette register gives colour number `color_id`.
pub open spec fn palette_color_of(palette: u8, color_id: u8) -> u32 {
    dmg_color((palette >> (color_id * 2) as u8) & 0x03)
}

pub fn palette_color(palette: u8, color_id: u8) -> (color: u32)
    requires
        color_id <= 3,
    ensures
        color == palette_color_of(palette, color_id),
{
    let shade = (palette >> (color_id * 2)) & 0x03;
    assert(shade <= 3) by (bit_vector)
        requires
            shade == (palette >> (color_id * 2) as u8) & 0x03,
    ;
    dmg_color_value(shade)
}

/// A 5-bit colour channel widened to 8 bits.
pub open spec fn scale_channel(channel: u16) -> u32 {
    let c = (channel & 0x1F) as u32;
    (c << 3u32) | (c >> 2u32)
}

/// The ARGB colour of entry `color_id` of colour palette `palette` in a
/// colour palette RAM (little-endian RGB555 entries).
pub open spec fn cgb_color_of(palette_ram: Seq<u8>, palette: u8, color_id: u8) -> u32 {
    let base = (palette as int % 8) * 8 + color_id * 2;
    let rgb = (palette_ram[base] as u16) | ((palette_ram[base + 1] as u16) << 8u16);
    0xFF00_0000u32 | (scale_channel(rgb) << 16u32) | (scale_channel(rgb >> 5u16) << 8u32)
        | scale_channel(rgb >> 10u16)
}

fn scale(channel: u16) -> (value: u32)
    ensures
        value == scale_channel(channel),
        value <= 0xFF,
{
    assert(channel & 0x1F <= 0x1F) by {
            lemma_byte_bits();
            lemma_word_bits();
        }
    let c = (channel & 0x1F) as u32;
    assert((c << 3u32) | (c >> 2u32) <= 0xFF) by (bit_vector)
        requires
            c <= 0x1F,
    ;
    (c << 3) | (c >> 2)
}

pub fn cgb_color(palette_ram: &Vec<u8>, palette: u8, color_id: u8) -> (color: u32)
    requires
        palette_ram@.len() == CGB_PALETTE_RAM_SIZE,
        color_id <= 3,
    ensures
        color == cgb_color_of(palette_ram@, palette, color_id),
{
    let base = (palette as usize % 8) * 8 + (color_id as usize) * 2;
    let rgb = palette_ram[base] as u16 | ((palette_ram[base + 1] as u16) << 8);
    let r = scale(rgb);
    let g = scale(rgb >> 5);
    let b = scale(rgb >> 10);
    0xFF00_0000 | (r << 16) | (g << 8) | b
}

/// The three 5-bit fields of a little-endian RGB555 entry, by bytes.
proof fn lemma_rgb555_fields(lo: u8, hi: u8, rgb: u16)
    by (bit_vector)
    requires
        rgb == (lo as u16) | ((hi as u16) << 8u16),
    ensures
        (rgb & 0x1F) as u32 == (lo % 32u8) as u32,
        ((rgb >> 5u16) & 0x1F) as u32 == ((lo / 32u8) as u32 + ((hi % 4u8) as u32) * 8u32) as u32,
        ((rgb >> 10u16) & 0x1F) as u32 == ((hi / 4u8) % 32u8) as u32,
{
}

/// Packing three widened 5-bit fields into an opaque ARGB colour.
proof fn lemma_argb_bytes(r: u32, g: u32, b: u32, color: u32)
    by (bit_vector)
    requires
        r <= 31,
        g <= 31,
        b <= 31,
        color == 0xFF00_0000u32 | (((r << 3u32) | (r >> 2u32)) << 16u32) | (((g << 3u32) | (g
            >> 2u32)) << 8u32) | ((b << 3u32) | (b >> 2u32)),
    ensures
        color / 0x0100_0000u32 == 0xFFu32,
        (color / 0x1_0000u32) % 0x100u32 == (r * 8u32 + r / 4u32) as u32,
        (color / 0x100u32) % 0x100u32 == (g * 8u32 + g / 4u32) as u32,
        color % 0x100u32 == (b * 8u32 + b / 4u32) as u32,
{
}

/// A DMG palette register holds four 2-bit shades, colour number 0 in its
/// low bits: colour `i` shows shade `(palette / 4^i) % 4`. Shade `s` is the
/// opaque grey whose three channels are each `0xFF - 0x55 * s`, so shade 0 is
/// white and shade 3 black.
pub proof fn lemma_dmg_palette_shades(palette: u8, color_id: u8)
    requires
        color_id <= 3,
    ensures
        ({
            let shade: int = if color_id == 0 {
                palette as int % 4
            } else if color_id == 1 {
                (palette as int / 4) % 4
            } else if color_id == 2 {
                (palette as int / 16) % 4
            } else {
                palette as int / 64
            };
            let grey = 0xFF - 0x55 * shade;
            let color = palette_color_of(palette, color_id) as int;
            &&& color == 0xFF00_0000 + grey * 0x1_0000 + grey * 0x100 + grey
        }),
{
    assert(color_id <= 3 ==> (palette >> (color_id * 2) as u8) & 0x03 == (if color_id == 0 {
        palette % 4u8
    } else if color_id == 1 {
        (palette / 4u8) % 4u8
    } else if color_id == 2 {
        (palette / 16u8) % 4u8
    } else {
        palette / 64u8
    })) by (bit_vector);
}

/// A colour palette entry is two bytes, low byte first, holding a 15-bit
/// colour: red in bits 0-4, green in bits 5-9 and blue in bits 10-14. The
/// ARGB colour it shows is opaque, with each 5-bit field `f` widened to the
/// eight bits `f * 8 + f / 4` and placed as red in bits 16-23, green in bits
/// 8-15 and blue in bits 0-7 (so 0x7C00 shows 0xFF0000FF).
pub proof fn lemma_cgb_color_channels(palette_ram: Seq<u8>, palette: u8, color_id: u8)
    requires
        palette_ram.len() == CGB_PALETTE_RAM_SIZE,
        color_id <= 3,
    ensures
        ({
            let base = (palette as int % 8) * 8 + color_id * 2;
            let entry = palette_ram[base] + 256 * palette_ram[base + 1];
            let red = entry % 32;
            let green = (entry / 32) % 32;
            let blue = (entry / 1024) % 32;
            let color = cgb_color_of(palette_ram, palette, color_id) as int;
            &&& color / 0x0100_0000 == 0xFF
            &&& (color / 0x1_0000) % 0x100 == red * 8 + red / 4
            &&& (color / 0x100) % 0x100 == green * 8 + green / 4
            &&& color % 0x100 == blue * 8 + blue / 4
        }),
{
    let base = (palette as int % 8) * 8 + color_id * 2;
    let lo = palette_ram[base];
    let hi = palette_ram[base + 1];
    let rgb = (lo as u16) | ((hi as u16) << 8u16);
    let r = (rgb & 0x1F) as u32;
    let g = ((rgb >> 5u16) & 0x1F) as u32;
    let b = ((rgb >> 10u16) & 0x1F) as u32;
    lemma_rgb555_fields(lo, hi, rgb);
    lemma_argb_bytes(r, g, b, cgb_color_of(palette_ram, palette, color_id));
    let entry = lo + 256 * hi;
    assert(entry % 32 == lo % 32 && (entry / 32) % 32 == lo / 32 + (hi % 4) * 8 && (entry / 1024)
        % 32 == (hi / 4) % 32) by (nonlinear_arith)
        requires
            entry == lo + 256 * hi,
            0 <= lo < 256,
            0 <= hi < 256,
    ;
}

/// The pixel processing unit: LCD registers, video RAM, object memory and
/// the picture drawn so far.
#[derive(Debug, Clone, PartialEq, Eq)]
pub struct Ppu {
    lcdc: u8,
    stat: u8,
    scy: u8,
    scx: u8,
    ly: u8,
    lyc: u8,
    wy: u8,
    wx: u8,
    bgp: u8,
    obp0: u8,
    obp1: u8,
    mode: PpuMode,
    line_dots: u32,
    window_line: u8,
    frame_ready: bool,
    cgb: bool,
    vbk: u8,
    bcps: u8,
    ocps: u8,
    bg_palette_ram: Vec<u8>,
    obj_palette_ram: Vec<u8>,
    vram0: MemoryRegion<0x2000>,
    vram1: MemoryRegion<0x2000>,
    oam: MemoryRegion<0xA0>,
    framebuffer: Vec<u32>,
    bg_color_ids: Vec<u8>,
    bg_attr_priority: Vec<bool>,
}

/// A CGB palette data write: `value` lands at the index the low six bits
/// of the index register `index` name, and with auto-increment (bit 7) the
/// index moves on by one within the 64 bytes.
pub open spec fn palette_written(palette: Seq<u8>, index: u8, value: u8, next_palette: Seq<u8>, next_index: u8) -> bool {
    &&& next_palette == palette.update((index & 0x3F) as int, value)
    &&& next_index == (if index & 0x80 != 0 {
        0x80 | ((((index + 1) % 256) as u8) & 0x3F)
    } else {
        index
    })
}

impl Default for Ppu {
    fn default() -> (ppu: Self)
        ensures
            ppu.inv(),
            ppu.spec_mode() == PpuMode::OamScan,
            ppu.spec_ly() == 0,
            ppu.spec_line_dots() == 0,
            ppu.spec_lcdc() == 0x91,
            !ppu.spec_frame_ready(),
            !ppu.spec_cgb(),
            ppu.spec_vbk() == 0,
            ppu.spec_stat() == 0x85,
            ppu.spec_scx() == 0,
            ppu.spec_lyc() == 0,
            ppu.spec_vram(0) == Seq::new(VRAM_SIZE as nat, |i: int| 0u8),
            ppu.spec_vram(1) == Seq::new(VRAM_SIZE as nat, |i: int| 0u8),
            ppu.spec_oam() == Seq::new(OAM_SIZE as nat, |i: int| 0u8),
            ppu.spec_framebuffer() == Seq::new(FRAMEBUFFER_PIXELS as nat, |i: int| 0u32),
    {
        Ppu::new()
    }
}

impl Ppu {
    pub closed spec fn spec_lcdc(&self) -> u8 {
        self.lcdc
    }

    pub closed spec fn spec_stat(&self) -> u8 {
        self.stat
    }

    pub closed spec fn spec_scx(&self) -> u8 {
        self.scx
    }

    pub closed spec fn spec_scy(&self) -> u8 {
        self.scy
    }

    pub closed spec fn spec_wy(&self) -> u8 {
        self.wy
    }

    pub closed spec fn spec_wx(&self) -> u8 {
        self.wx
    }

    pub closed spec fn spec_bgp(&self) -> u8 {
        self.bgp
    }

    pub closed spec fn spec_obp0(&self) -> u8 {
        self.obp0
    }

    pub closed spec fn spec_obp1(&self) -> u8 {
        self.obp1
    }

    /// The background palette index register (BCPS).
    pub closed spec fn spec_bcps(&self) -> u8 {
        self.bcps
    }

    /// The object palette index register (OCPS).
    pub closed spec fn spec_ocps(&self) -> u8 {
        self.ocps
    }

    /// The 64 bytes of background palette memory.
    pub closed spec fn spec_bg_palette(&self) -> Seq<u8> {
        self.bg_palette_ram@
    }

    /// The 64 bytes of object palette memory.
    pub closed spec fn spec_obj_palette(&self) -> Seq<u8> {
        self.obj_palette_ram@
    }

    pub closed spec fn spec_ly(&self) -> u8 {
        self.ly
    }

    pub closed spec fn spec_lyc(&self) -> u8 {
        self.lyc
    }

    pub closed spec fn spec_mode(&self) -> PpuMode {
        self.mode
    }

    pub closed spec fn spec_line_dots(&self) -> u32 {
        self.line_dots
    }

    pub closed spec fn spec_frame_ready(&self) -> bool {
        self.frame_ready
    }

    pub closed spec fn spec_cgb(&self) -> bool {
        self.cgb
    }

    pub closed spec fn spec_vbk(&self) -> u8 {
        self.vbk
    }

    /// Video RAM bank `bank` (0 or 1).
    pub closed spec fn spec_vram(&self, bank: int) -> Seq<u8> {
        if bank == 0 {
            self.vram0@
        } else {
            self.vram1@
        }
    }

    pub closed spec fn spec_oam(&self) -> Seq<u8> {
        self.oam@
    }

    pub closed spec fn spec_framebuffer(&self) -> Seq<u32> {
        self.framebuffer@
    }

    pub open spec fn lcd_on(&self) -> bool {
        self.spec_lcdc() & 0x80 != 0
    }

    /// The dot at which drawing ends on the current line.
    pub open spec fn mode_3_end(&self) -> int {
        MODE_2_DOTS + MODE_3_BASE_DOTS + (self.spec_scx() & 0x07)
    }

    /// Memories have their sizes, the line position is in range, and a
    /// running display past the visible lines is in vertical blank.
    pub closed spec fn inv(&self) -> bool {
        &&& self.vram0.inv()
        &&& self.vram1.inv()
        &&& self.oam.inv()
        &&& self.bg_palette_ram@.len() == CGB_PALETTE_RAM_SIZE
        &&& self.obj_palette_ram@.len() == CGB_PALETTE_RAM_SIZE
        &&& self.framebuffer@.len() == FRAMEBUFFER_PIXELS
        &&& self.bg_color_ids@.len() == FRAMEBUFFER_PIXELS
        &&& self.bg_attr_priority@.len() == FRAMEBUFFER_PIXELS
        &&& self.ly < LINES_PER_FRAME
        &&& self.line_dots < DOTS_PER_LINE
        &&& self.vbk <= 1
        &&& (self.lcdc & 0x80 != 0 && self.ly >= VISIBLE_LINES) ==> self.mode == PpuMode::VBlank
    }

    /// A well-formed PPU has both video RAM banks and object memory at
    /// their sizes, and bank 0 or 1 selected.
    pub proof fn lemma_memory_sizes(&self)
        requires
            self.inv(),
        ensures
            self.spec_vram(0).len() == VRAM_SIZE,
            self.spec_vram(1).len() == VRAM_SIZE,
            self.spec_oam().len() == OAM_SIZE,
            self.spec_vbk() <= 1,
            self.spec_framebuffer().len() == FRAMEBUFFER_PIXELS,
            self.spec_bg_palette().len() == CGB_PALETTE_RAM_SIZE,
            self.spec_obj_palette().len() == CGB_PALETTE_RAM_SIZE,
    {
    }

    /// What each LCD register reads: LCDC, STAT (with the mode in its low
    /// bits and bit 7 set), the scroll, LY, LYC, palette and window
    /// registers as stored, VBK and the CGB palette registers (0xFF on the
    /// original handheld), and nothing elsewhere.
    pub proof fn lemma_register_read(&self, address: u16)
        ensures
            self.register_read(address) == (if address == 0xFF40 {
                Some(self.spec_lcdc())
            } else if address == 0xFF41 {
                Some((self.spec_stat() & 0xFC) | mode_bits(self.spec_mode()) | 0x80)
            } else if address == 0xFF42 {
                Some(self.spec_scy())
            } else if address == 0xFF43 {
                Some(self.spec_scx())
            } else if address == 0xFF44 {
                Some(self.spec_ly())
            } else if address == 0xFF45 {
                Some(self.spec_lyc())
            } else if address == 0xFF47 {
                Some(self.spec_bgp())
            } else if address == 0xFF48 {
                Some(self.spec_obp0())
            } else if address == 0xFF49 {
                Some(self.spec_obp1())
            } else if address == 0xFF4A {
                Some(self.spec_wy())
            } else if address == 0xFF4B {
                Some(self.spec_wx())
            } else if address == 0xFF4F {
                Some(if self.spec_cgb() { 0xFE | self.spec_vbk() } else { 0xFF })
            } else if address == 0xFF68 {
                Some(if self.spec_cgb() { self.spec_bcps() | 0x40 } else { 0xFF })
            } else if address == 0xFF69 {
                Some(if self.spec_cgb() { self.spec_bg_palette()[(self.spec_bcps() & 0x3F) as int] } else { 0xFF })
            } else if address == 0xFF6A {
                Some(if self.spec_cgb() { self.spec_ocps() | 0x40 } else { 0xFF })
            } else if address == 0xFF6B {
                Some(if self.spec_cgb() { self.spec_obj_palette()[(self.spec_ocps() & 0x3F) as int] } else { 0xFF })
            } else {
                None
            }),
    {
    }

    /// Everything but object memory is as in `other`.
    pub closed spec fn same_but_oam(&self, other: &Ppu) -> bool {
        &&& self.lcdc == other.lcdc
        &&& self.stat == other.stat
        &&& self.scy == other.scy
        &&& self.scx == other.scx
        &&& self.ly == other.ly
        &&& self.lyc == other.lyc
        &&& self.wy == other.wy
        &&& self.wx == other.wx
        &&& self.bgp == other.bgp
        &&& self.obp0 == other.obp0
        &&& self.obp1 == other.obp1
        &&& self.mode == other.mode
        &&& self.line_dots == other.line_dots
        &&& self.window_line == other.window_line
        &&& self.frame_ready == other.frame_ready
        &&& self.cgb == other.cgb
        &&& self.vbk == other.vbk
        &&& self.bcps == other.bcps
        &&& self.ocps == other.ocps
        &&& self.bg_palette_ram == other.bg_palette_ram
        &&& self.obj_palette_ram == other.obj_palette_ram
        &&& self.vram0 == other.vram0
        &&& self.vram1 == other.vram1
        &&& self.framebuffer == other.framebuffer
        &&& self.bg_color_ids == other.bg_color_ids
        &&& self.bg_attr_priority == other.bg_attr_priority
    }

    pub proof fn lemma_same_but_oam_refl(&self)
        ensures
            self.same_but_oam(self),
    {
    }

    pub proof fn lemma_same_but_oam_trans(&self, b: &Ppu, c: &Ppu)
        requires
            self.same_but_oam(b),
            b.same_but_oam(c),
        ensures
            self.same_but_oam(c),
    {
    }

    /// Object memory aside, `other` has the same registers, timing and video RAM.
    pub proof fn lemma_same_but_oam_facts(&self, other: &Ppu)
        requires
            self.same_but_oam(other),
        ensures
            self.spec_lcdc() == other.spec_lcdc(),
            self.spec_stat() == other.spec_stat(),
            self.spec_scx() == other.spec_scx(),
            self.spec_ly() == other.spec_ly(),
            self.spec_lyc() == other.spec_lyc(),
            self.spec_mode() == other.spec_mode(),
            self.spec_line_dots() == other.spec_line_dots(),
            self.spec_frame_ready() == other.spec_frame_ready(),
            self.spec_cgb() == other.spec_cgb(),
            self.spec_vbk() == other.spec_vbk(),
            self.spec_vram(0) == other.spec_vram(0),
            self.spec_vram(1) == other.spec_vram(1),
            self.spec_framebuffer() == other.spec_framebuffer(),
            self.spec_scy() == other.spec_scy(),
            self.spec_wy() == other.spec_wy(),
            self.spec_wx() == other.spec_wx(),
            self.spec_bgp() == other.spec_bgp(),
            self.spec_obp0() == other.spec_obp0(),
            self.spec_obp1() == other.spec_obp1(),
            self.spec_bcps() == other.spec_bcps(),
            self.spec_ocps() == other.spec_ocps(),
            self.spec_bg_palette() == other.spec_bg_palette(),
            self.spec_obj_palette() == other.spec_obj_palette(),
    {
    }

    /// Everything but the picture buffers and the window line counter.
    pub closed spec fn same_registers(&self, other: &Ppu) -> bool {
        &&& self.lcdc == other.lcdc
        &&& self.stat == other.stat
        &&& self.scy == other.scy
        &&& self.scx == other.scx
        &&& self.ly == other.ly
        &&& self.lyc == other.lyc
        &&& self.wy == other.wy
        &&& self.wx == other.wx
        &&& self.bgp == other.bgp
        &&& self.obp0 == other.obp0
        &&& self.obp1 == other.obp1
        &&& self.mode == other.mode
        &&& self.line_dots == other.line_dots
        &&& self.frame_ready == other.frame_ready
        &&& self.cgb == other.cgb
        &&& self.vbk == other.vbk
        &&& self.bcps == other.bcps
        &&& self.ocps == other.ocps
        &&& self.bg_palette_ram@ == other.bg_palette_ram@
        &&& self.obj_palette_ram@ == other.obj_palette_ram@
        &&& self.vram0@ == other.vram0@
        &&& self.vram1@ == other.vram1@
        &&& self.oam@ == other.oam@
    }

    /// The byte at `address` of video RAM bank `bank` (taken modulo 2) as
    /// the renderer reads it: 0 past the end.
    pub closed spec fn vram_byte(&self, bank: int, address: int) -> u8 {
        if 0 <= address < VRAM_SIZE {
            self.spec_vram(bank % 2)[address]
        } else {
            0
        }
    }

    /// Colour number, colour and map priority of pixel (`x`, `y`) of the
    /// background map at `map_base`: the map gives the tile (and, in colour
    /// mode, its attributes: palette, bank, flips, priority), the tile row
    /// gives the two bit planes, and the palette the colour.
    #[verifier::opaque]
    pub closed spec fn tile_pixel(&self, map_base: int, unsigned: bool, x: int, y: int, palette: u8) -> (u8, u32, bool) {
        let map_offset = map_base + ((y / 8) % TILE_MAP_SIZE as int) * TILE_MAP_SIZE as int + (x / 8)
            % TILE_MAP_SIZE as int;
        let tile_offset = tile_data_offset_of(self.vram_byte(0, map_offset), unsigned);
        if self.cgb {
            let attr = self.vram_byte(1, map_offset);
            let bank = ((attr >> 3u8) & 0x01) as int;
            let row = if attr & 0x40 != 0 {
                7 - y % 8
            } else {
                y % 8
            };
            let bit = if attr & 0x20 != 0 {
                (x % 8) as u8
            } else {
                (7 - x % 8) as u8
            };
            let id = color_number(
                self.vram_byte(bank, tile_offset + row * 2),
                self.vram_byte(bank, tile_offset + row * 2 + 1),
                bit,
            );
            (id, cgb_color_of(self.bg_palette_ram@, attr & 0x07, id), attr & 0x80 != 0)
        } else {
            let row = y % 8;
            let id = color_number(
                self.vram_byte(0, tile_offset + row * 2),
                self.vram_byte(0, tile_offset + row * 2 + 1),
                (7 - x % 8) as u8,
            );
            (id, palette_color_of(palette, id), false)
        }
    }

    /// The background pixel at screen column `screen_x` of line LY: the
    /// background map picked by LCDC bit 3, scrolled by SCX and SCY.
    pub closed spec fn background_pixel(&self, screen_x: int) -> (u8, u32, bool) {
        self.tile_pixel(
            if self.lcdc & 0x08 != 0 {
                0x1C00
            } else {
                0x1800
            },
            self.lcdc & 0x10 != 0,
            (screen_x + self.scx) % 256,
            (self.ly + self.scy) % 256,
            self.bgp,
        )
    }

    /// The window pixel at screen column `screen_x`: the window map picked
    /// by LCDC bit 6, starting at WX - 7, on the window's own line count.
    pub closed spec fn window_pixel(&self, screen_x: int) -> (u8, u32, bool) {
        self.tile_pixel(
            if self.lcdc & 0x40 != 0 {
                0x1C00
            } else {
                0x1800
            },
            self.lcdc & 0x10 != 0,
            screen_x + 7 - self.wx,
            self.window_line as int,
            self.bgp,
        )
    }

    /// What line LY shows at `screen_x` below the objects: the window where
    /// it covers the column, else the background.
    pub closed spec fn line_pixel(&self, screen_x: int) -> (u8, u32, bool) {
        if self.window_visible_at(screen_x) {
            self.window_pixel(screen_x)
        } else {
            self.background_pixel(screen_x)
        }
    }

    /// How tall objects are: 16 with LCDC bit 2 set, else 8.
    pub closed spec fn sprite_height(&self) -> int {
        if self.lcdc & 0x04 != 0 {
            16
        } else {
            8
        }
    }

    /// Whether object `index` of object memory covers line LY.
    pub closed spec fn sprite_on_line(&self, index: int) -> bool {
        let line = self.ly - (self.oam@[index * OAM_ENTRY_BYTES as int] - 16);
        0 <= line < self.sprite_height()
    }

    /// Object `index` of object memory as found on line LY.
    pub closed spec fn oam_sprite(&self, index: int) -> Sprite {
        let offset = index * OAM_ENTRY_BYTES as int;
        let y = self.oam@[offset] - 16;
        Sprite {
            oam_index: index as usize,
            x: (self.oam@[offset + 1] - 8) as i16,
            y: y as i16,
            tile: self.oam@[offset + 2],
            attributes: self.oam@[offset + 3],
            line: (self.ly - y) as usize,
        }
    }

    /// The objects on line LY among the first `upto` of object memory, in
    /// object-memory order, at most ten.
    pub closed spec fn found_sprites(&self, upto: int) -> Seq<Sprite>
        decreases upto,
    {
        if upto <= 0 {
            Seq::empty()
        } else {
            let found = self.found_sprites(upto - 1);
            if found.len() < MAX_SPRITES_PER_LINE && self.sprite_on_line(upto - 1) {
                found.push(self.oam_sprite(upto - 1))
            } else {
                found
            }
        }
    }

    /// The colour object `sprite` gives screen column `screen_x` of line LY,
    /// if it paints it there: the column is one of its eight, its colour
    /// number there is not 0, and the background does not stay in front
    /// (an object behind a background of non-zero colour, or in colour
    /// mode with master priority on, also a map entry with priority).
    pub closed spec fn sprite_paint_with(&self, ids: Seq<u8>, priorities: Seq<bool>, sprite: Sprite, screen_x: int) -> Option<u32> {
        let height = self.sprite_height();
        let pixel = screen_x - sprite.x;
        let attributes = sprite.attributes;
        let behind_bg = attributes & 0x80 != 0;
        let line = if attributes & 0x40 != 0 {
            height - 1 - sprite.line
        } else {
            sprite.line as int
        };
        let tile = if height == 16 {
            sprite.tile & 0xFE
        } else {
            sprite.tile
        };
        let bank = if self.cgb {
            ((attributes >> 3u8) & 0x01) as int
        } else {
            0
        };
        let tile_offset = tile * TILE_BYTES as int + line * 2;
        let bit = if attributes & 0x20 != 0 {
            pixel as u8
        } else {
            (7 - pixel) as u8
        };
        let id = color_number(self.vram_byte(bank, tile_offset), self.vram_byte(bank, tile_offset + 1), bit);
        let index = self.ly * SCREEN_WIDTH as int + screen_x;
        let bg_id = ids[index];
        let bg_wins = if self.cgb {
            self.lcdc & 0x01 != 0 && bg_id != 0 && (priorities[index] || behind_bg)
        } else {
            behind_bg && bg_id != 0
        };
        if !(0 <= pixel < 8) || !(0 <= screen_x < SCREEN_WIDTH) || id == 0 || bg_wins {
            None
        } else if self.cgb {
            Some(cgb_color_of(self.obj_palette_ram@, attributes & 0x07, id))
        } else {
            Some(
                palette_color_of(
                    if attributes & 0x10 != 0 {
                        self.obp1
                    } else {
                        self.obp0
                    },
                    id,
                ),
            )
        }
    }

    /// Which of two objects that both paint a column shows on top: the one
    /// with the smaller rank (in colour mode the smaller object index, else
    /// the smaller X and then the smaller index).
    pub closed spec fn sprite_rank(&self, sprite: Sprite) -> int {
        if self.cgb {
            sprite.oam_index as int
        } else {
            (sprite.x + 8) * 64 + sprite.oam_index
        }
    }

    /// The object that shows on top at `screen_x` among `sprites`: of those
    /// that paint the column (over a line whose background colour numbers
    /// and priorities are `ids` and `priorities`), the one of the smallest
    /// rank.
    pub closed spec fn top_sprite_with(&self, ids: Seq<u8>, priorities: Seq<bool>, sprites: Seq<Sprite>, screen_x: int) -> Option<Sprite>
        decreases sprites.len(),
    {
        if sprites.len() == 0 {
            None
        } else {
            let best = self.top_sprite_with(ids, priorities, sprites.drop_last(), screen_x);
            let last = sprites.last();
            if self.sprite_paint_with(ids, priorities, last, screen_x) is Some && (best is None || self.sprite_rank(last)
                < self.sprite_rank(best->0)) {
                Some(last)
            } else {
                best
            }
        }
    }

    /// What `sprite` paints at `screen_x` over this PPU's background line.
    pub closed spec fn sprite_paint(&self, sprite: Sprite, screen_x: int) -> Option<u32> {
        self.sprite_paint_with(self.bg_color_ids@, self.bg_attr_priority@, sprite, screen_x)
    }

    /// The object on top at `screen_x` over this PPU's background line.
    pub closed spec fn top_sprite(&self, sprites: Seq<Sprite>, screen_x: int) -> Option<Sprite> {
        self.top_sprite_with(self.bg_color_ids@, self.bg_attr_priority@, sprites, screen_x)
    }

    /// The colour column `screen_x` of line LY ends up with when the objects
    /// are drawn over `below`, on a line whose background colour numbers and
    /// priorities are `ids` and `priorities`.
    pub closed spec fn objects_over_with(&self, ids: Seq<u8>, priorities: Seq<bool>, screen_x: int, below: u32) -> u32 {
        if self.lcdc & 0x02 == 0 {
            below
        } else {
            match self.top_sprite_with(ids, priorities, self.found_sprites(SPRITE_COUNT as int), screen_x) {
                Some(sprite) => self.sprite_paint_with(ids, priorities, sprite, screen_x)->0,
                None => below,
            }
        }
    }

    /// The colour column `screen_x` of line LY ends up with when the objects
    /// are drawn over `below` on this PPU's background line.
    pub closed spec fn objects_over(&self, screen_x: int, below: u32) -> u32 {
        self.objects_over_with(self.bg_color_ids@, self.bg_attr_priority@, screen_x, below)
    }

    /// The background layer of line LY at column `x` (colour number,
    /// colour, map priority): blank white of colour 0 while a DMG's
    /// background is off, else the window or background pixel.
    pub closed spec fn background_layer(&self, x: int) -> (u8, u32, bool) {
        if !self.cgb && self.lcdc & 0x01 == 0 {
            (0, 0xFFFF_FFFFu32, false)
        } else {
            self.line_pixel(x)
        }
    }

    /// Whether drawing line LY uses the window (so that its line count
    /// moves on).
    pub closed spec fn window_used(&self) -> bool {
        &&& !(!self.cgb && self.lcdc & 0x01 == 0)
        &&& exists|x: int| 0 <= x < SCREEN_WIDTH && self.window_visible_at(x)
    }

    /// This PPU with line LY drawn: the background layer, then the objects
    /// over it; the window's line count moves on when the window was used.
    pub closed spec fn line_drawn(&self, after: Ppu) -> bool {
        let row = self.ly * SCREEN_WIDTH as int;
        &&& after.same_registers(self)
        &&& after.window_line == if self.window_used() {
            ((self.window_line + 1) % 256) as u8
        } else {
            self.window_line
        }
        &&& forall|i: int|
            0 <= i < FRAMEBUFFER_PIXELS && !(row <= i < row + SCREEN_WIDTH) ==> {
                &&& after.framebuffer@[i] == self.framebuffer@[i]
                &&& after.bg_color_ids@[i] == self.bg_color_ids@[i]
                &&& after.bg_attr_priority@[i] == self.bg_attr_priority@[i]
            }
        &&& forall|x: int|
            0 <= x < SCREEN_WIDTH ==> {
                let layer = #[trigger] self.background_layer(x);
                &&& after.bg_color_ids@[row + x] == layer.0
                &&& after.bg_attr_priority@[row + x] == layer.2
                &&& after.framebuffer@[row + x] == after.objects_over(x, layer.1)
            }
    }

    /// The picture (colours, background colour numbers and priorities) and
    /// the window's line count.
    pub closed spec fn picture(&self) -> ((Seq<u32>, Seq<u8>, Seq<bool>), u8) {
        ((self.framebuffer@, self.bg_color_ids@, self.bg_attr_priority@), self.window_line)
    }

    /// Everything drawing a line reads but the picture and the window's
    /// line count: the drawing registers, the current line and the
    /// memories.
    pub closed spec fn same_drawing(&self, other: Ppu) -> bool {
        &&& self.lcdc == other.lcdc
        &&& self.scy == other.scy
        &&& self.scx == other.scx
        &&& self.ly == other.ly
        &&& self.wy == other.wy
        &&& self.wx == other.wx
        &&& self.bgp == other.bgp
        &&& self.obp0 == other.obp0
        &&& self.obp1 == other.obp1
        &&& self.cgb == other.cgb
        &&& self.bg_palette_ram@ == other.bg_palette_ram@
        &&& self.obj_palette_ram@ == other.obj_palette_ram@
        &&& self.vram0@ == other.vram0@
        &&& self.vram1@ == other.vram1@
        &&& self.oam@ == other.oam@
    }

    /// The picture after line `line` is drawn on `picture` (colours,
    /// background colour numbers and priorities) with the window at line
    /// count `window_line`, and the window's line count after it.
    pub closed spec fn picture_with_line(
        &self,
        picture: (Seq<u32>, Seq<u8>, Seq<bool>),
        line: int,
        window_line: u8,
    ) -> ((Seq<u32>, Seq<u8>, Seq<bool>), u8) {
        let q = Ppu { ly: line as u8, window_line, ..*self };
        let row = line * SCREEN_WIDTH as int;
        let ids = Seq::new(
            FRAMEBUFFER_PIXELS as nat,
            |i: int|
                if row <= i < row + SCREEN_WIDTH {
                    q.background_layer(i - row).0
                } else {
                    picture.1[i]
                },
        );
        let priorities = Seq::new(
            FRAMEBUFFER_PIXELS as nat,
            |i: int|
                if row <= i < row + SCREEN_WIDTH {
                    q.background_layer(i - row).2
                } else {
                    picture.2[i]
                },
        );
        let colors = Seq::new(
            FRAMEBUFFER_PIXELS as nat,
            |i: int|
                if row <= i < row + SCREEN_WIDTH {
                    q.objects_over_with(ids, priorities, i - row, q.background_layer(i - row).1)
                } else {
                    picture.0[i]
                },
        );
        (
            (colors, ids, priorities),
            if q.window_used() {
                ((window_line + 1) % 256) as u8
            } else {
                window_line
            },
        )
    }

    /// The picture and the window's line count once `lines` more lines have
    /// ended from this state: each visible line is drawn as it ends
    /// (see `line_drawn`), and the window's count restarts when line 0
    /// begins.
    pub closed spec fn picture_after(&self, lines: nat) -> ((Seq<u32>, Seq<u8>, Seq<bool>), u8)
        decreases lines,
    {
        if lines == 0 {
            ((self.framebuffer@, self.bg_color_ids@, self.bg_attr_priority@), self.window_line)
        } else {
            let (picture, window_line) = self.picture_after((lines - 1) as nat);
            let line = (self.ly + lines - 1) % LINES_PER_FRAME as int;
            let (drawn, after) = if line < VISIBLE_LINES {
                self.picture_with_line(picture, line, window_line)
            } else {
                (picture, window_line)
            };
            (
                drawn,
                if (line + 1) % LINES_PER_FRAME as int == 0 {
                    0
                } else {
                    after
                },
            )
        }
    }

    /// What reading LCD register `address` gives, or `None` for an address
    /// the PPU does not decode.
    pub closed spec fn register_read(&self, address: u16) -> Option<u8> {
        if address == 0xFF40 {
            Some(self.lcdc)
        } else if address == 0xFF41 {
            Some((self.stat & 0xFC) | mode_bits(self.mode) | 0x80)
        } else if address == 0xFF42 {
            Some(self.scy)
        } else if address == 0xFF43 {
            Some(self.scx)
        } else if address == 0xFF44 {
            Some(self.ly)
        } else if address == 0xFF45 {
            Some(self.lyc)
        } else if address == 0xFF47 {
            Some(self.bgp)
        } else if address == 0xFF48 {
            Some(self.obp0)
        } else if address == 0xFF49 {
            Some(self.obp1)
        } else if address == 0xFF4A {
            Some(self.wy)
        } else if address == 0xFF4B {
            Some(self.wx)
        } else if address == 0xFF4F {
            Some(if self.cgb { 0xFE | self.vbk } else { 0xFF })
        } else if address == 0xFF68 {
            Some(if self.cgb { self.bcps | 0x40 } else { 0xFF })
        } else if address == 0xFF69 {
            Some(if self.cgb { self.bg_palette_ram@[(self.bcps & 0x3F) as int] } else { 0xFF })
        } else if address == 0xFF6A {
            Some(if self.cgb { self.ocps | 0x40 } else { 0xFF })
        } else if address == 0xFF6B {
            Some(if self.cgb { self.obj_palette_ram@[(self.ocps & 0x3F) as int] } else { 0xFF })
        } else {
            None
        }
    }

    /// An address the PPU does not decode has no LCD register to read.
    pub proof fn lemma_undecoded_register(&self, address: u16)
        requires
            !Ppu::decodes_register(address),
        ensures
            self.register_read(address) is None,
    {
    }

    /// The LCD registers that read back exactly what was written.
    pub open spec fn is_plain_register(address: u16) -> bool {
        address == 0xFF42 || address == 0xFF43 || address == 0xFF47 || address == 0xFF48
            || address == 0xFF49 || address == 0xFF4A || address == 0xFF4B
    }

    /// The addresses `write_register` accepts.
    pub open spec fn decodes_register(address: u16) -> bool {
        (0xFF40 <= address <= 0xFF45) || (0xFF47 <= address <= 0xFF4B) || address == 0xFF4F || (
        0xFF68 <= address <= 0xFF6B)
    }

    /// CPU access to video RAM is blocked while a running display draws.
    pub open spec fn vram_blocked(&self) -> bool {
        self.spec_mode() == PpuMode::Drawing && self.lcd_on()
    }

    /// CPU access to object memory is blocked while a running display scans or draws.
    pub open spec fn oam_blocked(&self) -> bool {
        (self.spec_mode() == PpuMode::OamScan || self.spec_mode() == PpuMode::Drawing)
            && self.lcd_on()
    }

    /// The byte at `address` of the selected video RAM bank, if in range.
    pub open spec fn vram_raw(&self, address: u16) -> Option<u8> {
        if (address as int) < VRAM_SIZE {
            Some(self.spec_vram(self.spec_vbk() as int)[address as int])
        } else {
            None
        }
    }

    /// The byte at `address` of object memory, if in range.
    pub open spec fn oam_raw(&self, address: u16) -> Option<u8> {
        if (address as int) < OAM_SIZE {
            Some(self.spec_oam()[address as int])
        } else {
            None
        }
    }

    /// The power-on state: display on, line 0, scanning objects.
    pub fn new() -> (ppu: Self)
        ensures
            ppu.inv(),
            ppu.spec_mode() == PpuMode::OamScan,
            ppu.spec_ly() == 0,
            ppu.spec_line_dots() == 0,
            ppu.spec_lcdc() == 0x91,
            !ppu.spec_frame_ready(),
            !ppu.spec_cgb(),
            ppu.spec_vbk() == 0,
            ppu.spec_stat() == 0x85,
            ppu.spec_scx() == 0,
            ppu.spec_lyc() == 0,
            ppu.spec_vram(0) == Seq::new(VRAM_SIZE as nat, |i: int| 0u8),
            ppu.spec_vram(1) == Seq::new(VRAM_SIZE as nat, |i: int| 0u8),
            ppu.spec_oam() == Seq::new(OAM_SIZE as nat, |i: int| 0u8),
            ppu.spec_framebuffer() == Seq::new(FRAMEBUFFER_PIXELS as nat, |i: int| 0u32),
            ppu.spec_framebuffer().len() == SCREEN_WIDTH * SCREEN_HEIGHT,
    {
        let ppu = Ppu {
            lcdc: 0x91,
            stat: 0x85,
            scy: 0,
            scx: 0,
            ly: 0,
            lyc: 0,
            wy: 0,
            wx: 0,
            bgp: 0xFC,
            obp0: 0xFF,
            obp1: 0xFF,
            mode: PpuMode::OamScan,
            line_dots: 0,
            window_line: 0,
            frame_ready: false,
            cgb: false,
            vbk: 0,
            bcps: 0,
            ocps: 0,
            bg_palette_ram: vec![0u8; CGB_PALETTE_RAM_SIZE],
            obj_palette_ram: vec![0u8; CGB_PALETTE_RAM_SIZE],
            vram0: MemoryRegion::zeroed(),
            vram1: MemoryRegion::zeroed(),
            oam: MemoryRegion::zeroed(),
            framebuffer: vec![0u32; FRAMEBUFFER_PIXELS],
            bg_color_ids: vec![0u8; FRAMEBUFFER_PIXELS],
            bg_attr_priority: vec![false; FRAMEBUFFER_PIXELS],
        };
        assert(ppu.framebuffer@ =~= Seq::new(FRAMEBUFFER_PIXELS as nat, |i: int| 0u32));
        ppu
    }

    /// Reads LCD register `address`. STAT reads its mode bits live and bit 7
    /// set; the colour registers read 0xFF outside colour mode.
    pub fn read_register(&self, address: u16) -> (value: Option<u8>)
        requires
            self.inv(),
        ensures
            value == self.register_read(address),
    {
        match address {
            0xFF40 => Some(self.lcdc),
            0xFF41 => Some((self.stat & 0xFC) | mode_number(self.mode) | 0x80),
            0xFF42 => Some(self.scy),
            0xFF43 => Some(self.scx),
            0xFF44 => Some(self.ly),
            0xFF45 => Some(self.lyc),
            0xFF47 => Some(self.bgp),
            0xFF48 => Some(self.obp0),
            0xFF49 => Some(self.obp1),
            0xFF4A => Some(self.wy),
            0xFF4B => Some(self.wx),
            0xFF4F => Some(
                if self.cgb {
                    0xFE | self.vbk
                } else {
                    0xFF
                },
            ),
            0xFF68 => Some(
                if self.cgb {
                    self.bcps | 0x40
                } else {
                    0xFF
                },
            ),
            0xFF69 => Some(
                if self.cgb {
                    let p = self.bcps;
                    assert(p & 0x3F < 64) by {
            lemma_byte_bits();
            lemma_word_bits();
        }
                    let i = (p & 0x3F) as usize;
                    self.bg_palette_ram[i]
                } else {
                    0xFF
                },
            ),
            0xFF6A => Some(
                if self.cgb {
                    self.ocps | 0x40
                } else {
                    0xFF
                },
            ),
            0xFF6B => Some(
                if self.cgb {
                    let p = self.ocps;
                    assert(p & 0x3F < 64) by {
            lemma_byte_bits();
            lemma_word_bits();
        }
                    let i = (p & 0x3F) as usize;
                    self.obj_palette_ram[i]
                } else {
                    0xFF
                },
            ),
            _ => None,
        }
    }

    /// Turns colour mode on or off.
    /// This PPU with the colour flag set to `enabled`.
    pub closed spec fn with_cgb(self, enabled: bool) -> Ppu {
        Ppu { cgb: enabled, ..self }
    }

    /// Setting the colour flag changes nothing else.
    pub proof fn lemma_with_cgb_facts(&self, enabled: bool)
        ensures
            self.inv() ==> self.with_cgb(enabled).inv(),
            self.with_cgb(enabled).spec_cgb() == enabled,
            self.with_cgb(enabled).spec_lcdc() == self.spec_lcdc(),
            self.with_cgb(enabled).spec_stat() == self.spec_stat(),
            self.with_cgb(enabled).spec_scx() == self.spec_scx(),
            self.with_cgb(enabled).spec_scy() == self.spec_scy(),
            self.with_cgb(enabled).spec_wy() == self.spec_wy(),
            self.with_cgb(enabled).spec_wx() == self.spec_wx(),
            self.with_cgb(enabled).spec_bgp() == self.spec_bgp(),
            self.with_cgb(enabled).spec_obp0() == self.spec_obp0(),
            self.with_cgb(enabled).spec_obp1() == self.spec_obp1(),
            self.with_cgb(enabled).spec_bcps() == self.spec_bcps(),
            self.with_cgb(enabled).spec_ocps() == self.spec_ocps(),
            self.with_cgb(enabled).spec_bg_palette() == self.spec_bg_palette(),
            self.with_cgb(enabled).spec_obj_palette() == self.spec_obj_palette(),
            self.with_cgb(enabled).spec_ly() == self.spec_ly(),
            self.with_cgb(enabled).spec_lyc() == self.spec_lyc(),
            self.with_cgb(enabled).spec_mode() == self.spec_mode(),
            self.with_cgb(enabled).spec_line_dots() == self.spec_line_dots(),
            self.with_cgb(enabled).spec_frame_ready() == self.spec_frame_ready(),
            self.with_cgb(enabled).spec_vbk() == self.spec_vbk(),
            self.with_cgb(enabled).spec_vram(0) == self.spec_vram(0),
            self.with_cgb(enabled).spec_vram(1) == self.spec_vram(1),
            self.with_cgb(enabled).spec_oam() == self.spec_oam(),
            self.with_cgb(enabled).spec_framebuffer() == self.spec_framebuffer(),
    {
    }

    pub fn set_cgb(&mut self, enabled: bool)
        requires
            old(self).inv(),
        ensures
            final(self).inv(),
            *final(self) == old(self).with_cgb(enabled),
            final(self).spec_cgb() == enabled,
            final(self).spec_mode() == old(self).spec_mode(),
            final(self).spec_lcdc() == old(self).spec_lcdc(),
            final(self).spec_ly() == old(self).spec_ly(),
            final(self).spec_vbk() == old(self).spec_vbk(),
            final(self).spec_vram(0) == old(self).spec_vram(0),
            final(self).spec_vram(1) == old(self).spec_vram(1),
            final(self).spec_oam() == old(self).spec_oam(),
    {
        self.cgb = enabled;
    }

    fn set_mode(&mut self, mode: PpuMode)
        ensures
            final(self).mode == mode,
            final(self).stat == (old(self).stat & !0x03u8) | mode_bits(mode),
            final(self).ly == old(self).ly,
            final(self).lyc == old(self).lyc,
            final(self).lcdc == old(self).lcdc,
            final(self).line_dots == old(self).line_dots,
            final(self).frame_ready == old(self).frame_ready,
            final(self).scx == old(self).scx,
            final(self).vbk == old(self).vbk,
            final(self).cgb == old(self).cgb,
            final(self).vram0 == old(self).vram0,
            final(self).vram1 == old(self).vram1,
            final(self).oam == old(self).oam,
            final(self).framebuffer == old(self).framebuffer,
            final(self).bg_color_ids == old(self).bg_color_ids,
            final(self).bg_attr_priority == old(self).bg_attr_priority,
            final(self).bg_palette_ram == old(self).bg_palette_ram,
            final(self).obj_palette_ram == old(self).obj_palette_ram,
            final(self).scy == old(self).scy,
            final(self).wy == old(self).wy,
            final(self).wx == old(self).wx,
            final(self).bgp == old(self).bgp,
            final(self).obp0 == old(self).obp0,
            final(self).obp1 == old(self).obp1,
            final(self).window_line == old(self).window_line,
            final(self).bcps == old(self).bcps,
            final(self).ocps == old(self).ocps,
    {
        self.mode = mode;
        self.stat = (self.stat & !0x03) | mode_number(mode);
    }

    /// Whether STAT enables the interrupt source in bit `bit`.
    fn stat_interrupt_enabled(&self, bit: u8) -> (enabled: bool)
        requires
            bit < 8,
        ensures
            enabled == (self.stat & (1u8 << bit) != 0),
    {
        self.stat & (1 << bit) != 0
    }

    /// Sets the coincidence flag (STAT bit 2) from LY == LYC; returns whether
    /// a new coincidence raises the STAT interrupt.
    fn update_lyc_flag(&mut self) -> (raised: bool)
        ensures
            (final(self).stat & 0x04 != 0) == (old(self).ly == old(self).lyc),
            final(self).stat & 0xFB == old(self).stat & 0xFB,
            raised == (old(self).ly == old(self).lyc && old(self).stat & 0x04 == 0
                && old(self).stat & 0x40 != 0),
            final(self).mode == old(self).mode,
            final(self).ly == old(self).ly,
            final(self).lyc == old(self).lyc,
            final(self).lcdc == old(self).lcdc,
            final(self).line_dots == old(self).line_dots,
            final(self).frame_ready == old(self).frame_ready,
            final(self).scx == old(self).scx,
            final(self).vbk == old(self).vbk,
            final(self).cgb == old(self).cgb,
            final(self).vram0 == old(self).vram0,
            final(self).vram1 == old(self).vram1,
            final(self).oam == old(self).oam,
            final(self).framebuffer == old(self).framebuffer,
            final(self).bg_color_ids == old(self).bg_color_ids,
            final(self).bg_attr_priority == old(self).bg_attr_priority,
            final(self).bg_palette_ram == old(self).bg_palette_ram,
            final(self).obj_palette_ram == old(self).obj_palette_ram,
            final(self).scy == old(self).scy,
            final(self).wy == old(self).wy,
            final(self).wx == old(self).wx,
            final(self).bgp == old(self).bgp,
            final(self).obp0 == old(self).obp0,
            final(self).obp1 == old(self).obp1,
            final(self).window_line == old(self).window_line,
            final(self).bcps == old(self).bcps,
            final(self).ocps == old(self).ocps,
    {
        let s = self.stat;
        if self.ly == self.lyc {
            let was_set = self.stat & 0x04 != 0;
            self.stat |= 0x04;
            assert((s | 0x04) & 0x04 != 0 && (s | 0x04) & 0xFB == s & 0xFB) by {
            lemma_stat_bits(s);
        }
            let enabled = self.stat_interrupt_enabled(6);
            assert(((s | 0x04) & (1u8 << 6u8) != 0) == (s & 0x40 != 0)) by {
            lemma_stat_bits(s);
        }
            !was_set && enabled
        } else {
            self.stat &= !0x04;
            assert((s & !0x04u8) & 0x04 == 0 && (s & !0x04u8) & 0xFB == s & 0xFB) by {
            lemma_stat_bits(s);
        }
            false
        }
    }

    pub fn mode(&self) -> (mode: PpuMode)
        ensures
            mode == self.spec_mode(),
    {
        self.mode
    }

    pub fn framebuffer(&self) -> (pixels: &[u32])
        ensures
            pixels@ == self.spec_framebuffer(),
    {
        self.framebuffer.as_slice()
    }

    /// This PPU with its frame-ready flag cleared.
    pub closed spec fn frame_consumed(self) -> Ppu {
        Ppu { frame_ready: false, ..self }
    }

    /// Reports whether a frame was completed since the last call, and clears the flag.
    pub fn take_frame_ready(&mut self) -> (ready: bool)
        requires
            old(self).inv(),
        ensures
            final(self).inv(),
            *final(self) == old(self).frame_consumed(),
            ready == old(self).spec_frame_ready(),
            !final(self).spec_frame_ready(),
            final(self).spec_mode() == old(self).spec_mode(),
            final(self).spec_ly() == old(self).spec_ly(),
            final(self).spec_lcdc() == old(self).spec_lcdc(),
            final(self).spec_vbk() == old(self).spec_vbk(),
            final(self).spec_vram(0) == old(self).spec_vram(0),
            final(self).spec_vram(1) == old(self).spec_vram(1),
            final(self).spec_oam() == old(self).spec_oam(),
            final(self).spec_framebuffer() == old(self).spec_framebuffer(),
    {
        let ready = self.frame_ready;
        self.frame_ready = false;
        ready
    }

    pub fn read_vram(&self, address: u16) -> (value: Option<u8>)
        requires
            self.inv(),
        ensures
            value == (if self.vram_blocked() {
                Some(0xFFu8)
            } else {
                self.vram_raw(address)
            }),
    {
        if self.mode == PpuMode::Drawing && self.lcdc & 0x80 != 0 {
            return Some(0xFF);
        }
        self.read_vram_raw(address)
    }

    /// Writes video RAM unless drawing blocks it; reports whether the
    /// address is inside video RAM.
    pub fn write_vram(&mut self, address: u16, value: u8) -> (in_range: bool)
        requires
            old(self).inv(),
        ensures
            final(self).inv(),
            in_range == ((address as int) < VRAM_SIZE),
            old(self).vram_blocked() ==> *final(self) == *old(self),
            !old(self).vram_blocked() && in_range ==> final(self).spec_vram(
                old(self).spec_vbk() as int,
            ) == old(self).spec_vram(old(self).spec_vbk() as int).update(address as int, value),
            !old(self).vram_blocked() ==> final(self).spec_vram(1 - old(self).spec_vbk())
                == old(self).spec_vram(1 - old(self).spec_vbk()),
            !in_range ==> *final(self) == *old(self),
            final(self).spec_oam() == old(self).spec_oam(),
            final(self).spec_mode() == old(self).spec_mode(),
            final(self).spec_vbk() == old(self).spec_vbk(),
            final(self).spec_lcdc() == old(self).spec_lcdc(),
            final(self).spec_ly() == old(self).spec_ly(),
            final(self).spec_frame_ready() == old(self).spec_frame_ready(),
            final(self).spec_framebuffer() == old(self).spec_framebuffer(),
    {
        if self.mode == PpuMode::Drawing && self.lcdc & 0x80 != 0 {
            return (address as usize) < VRAM_SIZE;
        }
        self.write_vram_raw(address, value)
    }

    pub fn read_oam(&self, address: u16) -> (value: Option<u8>)
        requires
            self.inv(),
        ensures
            value == (if self.oam_blocked() {
                Some(0xFFu8)
            } else {
                self.oam_raw(address)
            }),
    {
        if (self.mode == PpuMode::OamScan || self.mode == PpuMode::Drawing) && self.lcdc & 0x80
            != 0 {
            return Some(0xFF);
        }
        self.read_oam_raw(address)
    }

    /// Writes object memory unless scanning or drawing blocks it; reports
    /// whether the address is inside object memory.
    pub fn write_oam(&mut self, address: u16, value: u8) -> (in_range: bool)
        requires
            old(self).inv(),
        ensures
            final(self).inv(),
            in_range == ((address as int) < OAM_SIZE),
            old(self).oam_blocked() || !in_range ==> *final(self) == *old(self),
            !old(self).oam_blocked() && in_range ==> final(self).spec_oam() == old(self).spec_oam().update(address as int, value),
            final(self).spec_vram(0) == old(self).spec_vram(0),
            final(self).spec_vram(1) == old(self).spec_vram(1),
            final(self).spec_mode() == old(self).spec_mode(),
            final(self).spec_vbk() == old(self).spec_vbk(),
            final(self).spec_lcdc() == old(self).spec_lcdc(),
            final(self).spec_ly() == old(self).spec_ly(),
            final(self).spec_frame_ready() == old(self).spec_frame_ready(),
            final(self).spec_framebuffer() == old(self).spec_framebuffer(),
    {
        if (self.mode == PpuMode::OamScan || self.mode == PpuMode::Drawing) && self.lcdc & 0x80
            != 0 {
            return (address as usize) < OAM_SIZE;
        }
        self.write_oam_raw(address, value)
    }

    pub fn read_vram_raw(&self, address: u16) -> (value: Option<u8>)
        requires
            self.inv(),
        ensures
            value == self.vram_raw(address),
    {
        if self.vbk == 0 {
            self.vram0.read(address as usize)
        } else {
            self.vram1.read(address as usize)
        }
    }

    pub fn write_vram_raw(&mut self, address: u16, value: u8) -> (in_range: bool)
        requires
            old(self).inv(),
        ensures
            final(self).inv(),
            in_range == ((address as int) < VRAM_SIZE),
            !in_range ==> *final(self) == *old(self),
            in_range ==> final(self).spec_vram(old(self).spec_vbk() as int) == old(self).spec_vram(
                old(self).spec_vbk() as int,
            ).update(address as int, value),
            final(self).spec_vram(1 - old(self).spec_vbk()) == old(self).spec_vram(
                1 - old(self).spec_vbk(),
            ),
            final(self).spec_oam() == old(self).spec_oam(),
            final(self).spec_mode() == old(self).spec_mode(),
            final(self).spec_vbk() == old(self).spec_vbk(),
            final(self).spec_lcdc() == old(self).spec_lcdc(),
            final(self).spec_ly() == old(self).spec_ly(),
            final(self).spec_frame_ready() == old(self).spec_frame_ready(),
            final(self).spec_framebuffer() == old(self).spec_framebuffer(),
    {
        if self.vbk == 0 {
            self.vram0.write(address as usize, value)
        } else {
            self.vram1.write(address as usize, value)
        }
    }

    fn read_vram_bank(&self, bank: usize, address: usize) -> (value: u8)
        requires
            self.inv(),
        ensures
            value == (if address < VRAM_SIZE {
                self.spec_vram((bank % 2) as int)[address as int]
            } else {
                0
            }),
    {
        let read = if bank % 2 == 0 {
            self.vram0.read(address)
        } else {
            self.vram1.read(address)
        };
        match read {
            Some(v) => v,
            None => 0,
        }
    }

    /// Writes bank `bank` (taken modulo 2) of video RAM directly.
    pub fn write_vram_bank_raw(&mut self, bank: usize, address: u16, value: u8) -> (in_range: bool)
        requires
            old(self).inv(),
        ensures
            final(self).inv(),
            in_range == ((address as int) < VRAM_SIZE),
            in_range ==> final(self).spec_vram((bank % 2) as int) == old(self).spec_vram(
                (bank % 2) as int,
            ).update(address as int, value),
            !in_range ==> *final(self) == *old(self),
            final(self).spec_vram(1 - (bank % 2) as int) == old(self).spec_vram(
                1 - (bank % 2) as int,
            ),
            final(self).spec_oam() == old(self).spec_oam(),
            final(self).spec_mode() == old(self).spec_mode(),
            final(self).spec_vbk() == old(self).spec_vbk(),
    {
        if bank % 2 == 0 {
            self.vram0.write(address as usize, value)
        } else {
            self.vram1.write(address as usize, value)
        }
    }

    pub fn vram_bank(&self) -> (bank: u8)
        requires
            self.inv(),
        ensures
            bank == self.spec_vbk(),
    {
        let v = self.vbk;
        assert(v <= 1 ==> v & 0x01 == v) by {
            lemma_byte_bits();
            lemma_word_bits();
        }
        v & 0x01
    }

    pub fn read_oam_raw(&self, address: u16) -> (value: Option<u8>)
        requires
            self.inv(),
        ensures
            value == self.oam_raw(address),
    {
        self.oam.read(address as usize)
    }

    pub fn write_oam_raw(&mut self, address: u16, value: u8) -> (in_range: bool)
        requires
            old(self).inv(),
        ensures
            final(self).inv(),
            in_range == ((address as int) < OAM_SIZE),
            !in_range ==> *final(self) == *old(self),
            in_range ==> final(self).spec_oam() == old(self).spec_oam().update(address as int, value),
            old(self).same_but_oam(&*final(self)),
            final(self).spec_vram(0) == old(self).spec_vram(0),
            final(self).spec_vram(1) == old(self).spec_vram(1),
            final(self).spec_mode() == old(self).spec_mode(),
            final(self).spec_vbk() == old(self).spec_vbk(),
            final(self).spec_lcdc() == old(self).spec_lcdc(),
            final(self).spec_ly() == old(self).spec_ly(),
            final(self).spec_frame_ready() == old(self).spec_frame_ready(),
            final(self).spec_framebuffer() == old(self).spec_framebuffer(),
    {
        self.oam.write(address as usize, value)
    }

    /// Writes LCD register `address`; returns whether the PPU decodes it.
    /// Turning the display off resets it to line 0 in horizontal blank with
    /// no frame pending; turning it on restarts line 0 scanning objects;
    /// writing LY restarts the frame. STAT keeps its read-only bits; the
    /// colour palette data ports store at their index and, with bit 7 of the
    /// index set, step the index.
    pub fn write_register(&mut self, address: u16, value: u8) -> (decoded: bool)
        requires
            old(self).inv(),
        ensures
            final(self).inv(),
            decoded == Ppu::decodes_register(address),
            !decoded ==> *final(self) == *old(self),
            Ppu::is_plain_register(address) ==> final(self).register_read(address) == Some(value),
            address == 0xFF45 ==> final(self).spec_lyc() == value,
            address == 0xFF40 ==> final(self).spec_lcdc() == value,
            address != 0xFF40 ==> final(self).spec_lcdc() == old(self).spec_lcdc(),
            address == 0xFF40 && old(self).lcd_on() && value & 0x80 == 0 ==> {
                &&& final(self).spec_ly() == 0
                &&& final(self).spec_line_dots() == 0
                &&& final(self).spec_mode() == PpuMode::HBlank
                &&& !final(self).spec_frame_ready()
            },
            address == 0xFF40 && !old(self).lcd_on() && value & 0x80 != 0 ==> {
                &&& final(self).spec_ly() == 0
                &&& final(self).spec_line_dots() == 0
                &&& final(self).spec_mode() == PpuMode::OamScan
            },
            address == 0xFF41 ==> final(self).spec_stat() == (old(self).spec_stat() & 0x07) | (value
                & 0x78) | 0x80,
            address == 0xFF44 ==> {
                &&& final(self).spec_ly() == 0
                &&& final(self).spec_line_dots() == 0
                &&& final(self).spec_mode() == (if old(self).lcd_on() {
                    PpuMode::OamScan
                } else {
                    PpuMode::HBlank
                })
            },
            address == 0xFF4F ==> final(self).spec_vbk() == (if old(self).spec_cgb() {
                value & 0x01
            } else {
                old(self).spec_vbk()
            }),
            address != 0xFF4F ==> final(self).spec_vbk() == old(self).spec_vbk(),
            address != 0xFF40 && address != 0xFF44 ==> {
                &&& final(self).spec_ly() == old(self).spec_ly()
                &&& final(self).spec_line_dots() == old(self).spec_line_dots()
                &&& final(self).spec_mode() == old(self).spec_mode()
                &&& final(self).spec_frame_ready() == old(self).spec_frame_ready()
            },
            final(self).spec_cgb() == old(self).spec_cgb(),
            final(self).spec_vram(0) == old(self).spec_vram(0),
            final(self).spec_vram(1) == old(self).spec_vram(1),
            final(self).spec_oam() == old(self).spec_oam(),
            final(self).spec_framebuffer() == old(self).spec_framebuffer(),
            address == 0xFF45 ==> (final(self).spec_stat() & 0x04 != 0) == (old(self).spec_ly() == value)
                && final(self).spec_stat() & 0xFB == old(self).spec_stat() & 0xFB,
            address == 0xFF44 ==> (final(self).spec_stat() & 0x04 != 0) == (old(self).spec_lyc() == 0),
            address == 0xFF68 ==> final(self).spec_bcps() == value & 0xBF,
            address == 0xFF6A ==> final(self).spec_ocps() == value & 0xBF,
            address == 0xFF69 && old(self).spec_cgb() ==> palette_written(
                old(self).spec_bg_palette(),
                old(self).spec_bcps(),
                value,
                final(self).spec_bg_palette(),
                final(self).spec_bcps(),
            ),
            address == 0xFF6B && old(self).spec_cgb() ==> palette_written(
                old(self).spec_obj_palette(),
                old(self).spec_ocps(),
                value,
                final(self).spec_obj_palette(),
                final(self).spec_ocps(),
            ),
            (address == 0xFF69 || address == 0xFF6B) && !old(self).spec_cgb() ==> *final(self) == *old(self),
            address != 0xFF69 ==> final(self).spec_bg_palette() == old(self).spec_bg_palette(),
            address != 0xFF6B ==> final(self).spec_obj_palette() == old(self).spec_obj_palette(),
            address != 0xFF68 && address != 0xFF69 ==> final(self).spec_bcps() == old(self).spec_bcps(),
            address != 0xFF6A && address != 0xFF6B ==> final(self).spec_ocps() == old(self).spec_ocps(),
    {
        match address {
            0xFF40 => {
                let was_enabled = self.lcd_enabled();
                self.lcdc = value;
                if was_enabled && !self.lcd_enabled() {
                    self.ly = 0;
                    self.line_dots = 0;
                    self.window_line = 0;
                    self.frame_ready = false;
                    self.set_mode(PpuMode::HBlank);
                    self.update_lyc_flag();
                } else if !was_enabled && self.lcd_enabled() {
                    self.ly = 0;
                    self.line_dots = 0;
                    self.window_line = 0;
                    self.set_mode(PpuMode::OamScan);
                    self.update_lyc_flag();
                }
                true
            },
            0xFF41 => {
                self.stat = (self.stat & 0x07) | (value & 0x78) | 0x80;
                true
            },
            0xFF42 => {
                self.scy = value;
                true
            },
            0xFF43 => {
                self.scx = value;
                true
            },
            0xFF44 => {
                self.ly = 0;
                self.line_dots = 0;
                self.window_line = 0;
                let mode = if self.lcd_enabled() {
                    PpuMode::OamScan
                } else {
                    PpuMode::HBlank
                };
                self.set_mode(mode);
                self.update_lyc_flag();
                true
            },
            0xFF45 => {
                self.lyc = value;
                self.update_lyc_flag();
                true
            },
            0xFF47 => {
                self.bgp = value;
                true
            },
            0xFF48 => {
                self.obp0 = value;
                true
            },
            0xFF49 => {
                self.obp1 = value;
                true
            },
            0xFF4A => {
                self.wy = value;
                true
            },
            0xFF4B => {
                self.wx = value;
                true
            },
            0xFF4F => {
                if self.cgb {
                    self.vbk = value & 0x01;
                    assert(value & 0x01 <= 1) by {
            lemma_byte_bits();
            lemma_word_bits();
        }
                }
                true
            },
            0xFF68 => {
                self.bcps = value & 0xBF;
                true
            },
            0xFF69 => {
                if self.cgb {
                    let p = self.bcps;
                    assert(p & 0x3F < 64) by {
            lemma_byte_bits();
            lemma_word_bits();
        }
                    let index = (p & 0x3F) as usize;
                    self.bg_palette_ram.set(index, value);
                    if p & 0x80 != 0 {
                        self.bcps = 0x80 | (p.wrapping_add(1) & 0x3F);
                    }
                }
                true
            },
            0xFF6A => {
                self.ocps = value & 0xBF;
                true
            },
            0xFF6B => {
                if self.cgb {
                    let p = self.ocps;
                    assert(p & 0x3F < 64) by {
            lemma_byte_bits();
            lemma_word_bits();
        }
                    let index = (p & 0x3F) as usize;
                    self.obj_palette_ram.set(index, value);
                    if p & 0x80 != 0 {
                        self.ocps = 0x80 | (p.wrapping_add(1) & 0x3F);
                    }
                }
                true
            },
            _ => false,
        }
    }

    /// Letting `cycles` dots pass enters line 144 (vertical blank).
    pub open spec fn enters_vblank(self, cycles: u32) -> bool {
        self.lcd_on() && passes_line(
            self.spec_ly() as int,
            (self.spec_line_dots() + cycles) / DOTS_PER_LINE as int,
            144,
        )
    }

    /// `next` is this PPU's display timing after `cycles` dots (see
    /// `advance_cycles`), given that `vblank` reports entering line 144.
    pub open spec fn timing_after(self, next: Ppu, cycles: u32, vblank: bool) -> bool {
        &&& next.spec_lcdc() == self.spec_lcdc()
        &&& next.spec_scx() == self.spec_scx()
        &&& next.spec_lyc() == self.spec_lyc()
        &&& next.spec_cgb() == self.spec_cgb()
        &&& next.spec_vbk() == self.spec_vbk()
        &&& !self.lcd_on() ==> {
            &&& next.spec_ly() == self.spec_ly()
            &&& next.spec_line_dots() == self.spec_line_dots()
            &&& next.spec_mode() == self.spec_mode()
            &&& next.spec_frame_ready() == self.spec_frame_ready()
            &&& !vblank
        }
        &&& self.lcd_on() ==> {
            let total = self.spec_line_dots() + cycles;
            let lines = total / DOTS_PER_LINE as int;
            &&& next.spec_line_dots() == total % DOTS_PER_LINE as int
            &&& next.spec_ly() == (self.spec_ly() + lines) % (LINES_PER_FRAME as int)
            &&& vblank == passes_line(self.spec_ly() as int, lines, 144)
            &&& next.spec_frame_ready() == (self.spec_frame_ready() || vblank)
            &&& next.spec_ly() < VISIBLE_LINES ==> next.spec_mode() == mode_at_dot(
                next.spec_line_dots() as int,
                next.mode_3_end(),
            )
            &&& next.spec_ly() >= VISIBLE_LINES ==> next.spec_mode() == PpuMode::VBlank
        }
    }

    /// Lets `cycles` dots of display time pass. With the display off nothing
    /// happens. Otherwise the line position moves on by `cycles` dots across
    /// the 154-line frame, each visible line is drawn as it ends, entering
    /// line 144 raises the vertical-blank interrupt and marks a frame ready,
    /// and a visible line ends up in the mode its dot position gives. A STAT
    /// interrupt is raised only if one of its sources is enabled.
    pub fn advance_cycles(&mut self, cycles: u32) -> (interrupts: PpuInterrupts)
        requires
            old(self).inv(),
            cycles <= u32::MAX - DOTS_PER_LINE,
        ensures
            final(self).inv(),
            old(self).timing_after(*final(self), cycles, interrupts.vblank),
            interrupts.vblank == old(self).enters_vblank(cycles),
            !old(self).lcd_on() ==> *final(self) == *old(self) && !interrupts.vblank
                && !interrupts.stat,
            old(self).lcd_on() ==> {
                let total = old(self).spec_line_dots() + cycles;
                let lines = total / DOTS_PER_LINE as int;
                &&& final(self).picture() == old(self).picture_after(lines as nat)
                &&& final(self).spec_line_dots() == total % DOTS_PER_LINE as int
                &&& final(self).spec_ly() == (old(self).spec_ly() + lines) % (LINES_PER_FRAME as int)
                &&& interrupts.vblank == passes_line(old(self).spec_ly() as int, lines, 144)
                &&& final(self).spec_frame_ready() == (old(self).spec_frame_ready()
                    || interrupts.vblank)
                &&& final(self).spec_ly() < VISIBLE_LINES ==> final(self).spec_mode()
                    == mode_at_dot(final(self).spec_line_dots() as int, final(self).mode_3_end())
                &&& final(self).spec_ly() >= VISIBLE_LINES ==> final(self).spec_mode()
                    == PpuMode::VBlank
            },
            old(self).spec_stat() & 0x78 == 0 ==> !interrupts.stat,
            interrupts.stat == stat_raised(*old(self), *final(self), cycles),
            final(self).spec_stat() & 0x78 == old(self).spec_stat() & 0x78,
            final(self).spec_lcdc() == old(self).spec_lcdc(),
            final(self).spec_scx() == old(self).spec_scx(),
            final(self).spec_lyc() == old(self).spec_lyc(),
            final(self).spec_cgb() == old(self).spec_cgb(),
            final(self).spec_vbk() == old(self).spec_vbk(),
            final(self).spec_vram(0) == old(self).spec_vram(0),
            final(self).spec_vram(1) == old(self).spec_vram(1),
            final(self).spec_oam() == old(self).spec_oam(),
    {
        let mut interrupts = PpuInterrupts { vblank: false, stat: false };
        if !self.lcd_enabled() {
            return interrupts;
        }
        let ghost start = *self;
        let mut dots: u32 = self.line_dots + cycles;
        let ghost mut lines: int = 0;
        let s_start = self.stat;
        assert(s_start & 0x78 == 0 ==> (s_start & (1u8 << 4u8) == 0 && s_start & (1u8 << 5u8)
            == 0 && s_start & (1u8 << 6u8) == 0 && s_start & (1u8 << 3u8) == 0)) by {
            lemma_stat_bits(s_start);
        }
        while dots >= DOTS_PER_LINE
            invariant
                self.inv(),
                self.lcd_on(),
                self.line_dots == start.line_dots,
                0 <= lines,
                dots + lines * DOTS_PER_LINE == start.line_dots + cycles,
                self.ly == (start.ly + lines) % (LINES_PER_FRAME as int),
                interrupts.vblank == passes_line(start.ly as int, lines, 144),
                self.frame_ready == (start.frame_ready || interrupts.vblank),
                self.stat & 0x78 == start.stat & 0x78,
                start.stat & 0x78 == 0 ==> !interrupts.stat,
                interrupts.stat == line_end_stat(start.ly as int, start.lyc as int, start.stat, lines),
                lines == 0 ==> self.stat & 0x04 == start.stat & 0x04 && self.mode == start.mode,
                lines >= 1 ==> ((self.stat & 0x04 != 0) == (self.ly == self.lyc)),
                self.ly < VISIBLE_LINES ==> self.mode == (if passes_line(start.ly as int, lines, 0) {
                    PpuMode::OamScan
                } else {
                    start.mode
                }),
                self.lcdc == start.lcdc,
                self.scx == start.scx,
                self.lyc == start.lyc,
                self.cgb == start.cgb,
                self.vbk == start.vbk,
                self.vram0@ == start.vram0@,
                self.vram1@ == start.vram1@,
                self.oam@ == start.oam@,
                self.scy == start.scy,
                self.wy == start.wy,
                self.wx == start.wx,
                self.bgp == start.bgp,
                self.obp0 == start.obp0,
                self.obp1 == start.obp1,
                self.bg_palette_ram@ == start.bg_palette_ram@,
                self.obj_palette_ram@ == start.obj_palette_ram@,
                self.picture() == start.picture_after(lines as nat),
                start.ly < LINES_PER_FRAME,
            decreases dots,
        {
            let ghost lines_before = lines;
            let ghost stat_before = self.stat;
            let ghost before_line = *self;
            if self.ly < VISIBLE_LINES {
                self.render_scanline();
                proof {
                    before_line.lemma_line_picture(start, *self);
                }
            }
            dots -= DOTS_PER_LINE;
            let ghost before_ly = self.ly;
            self.ly = (self.ly + 1) % LINES_PER_FRAME;
            proof {
                vstd::arithmetic::div_mod::lemma_add_mod_noop(start.ly + lines, 1, LINES_PER_FRAME as int);
                vstd::arithmetic::div_mod::lemma_small_mod(1, LINES_PER_FRAME as nat);
                if before_ly + 1 < LINES_PER_FRAME {
                    vstd::arithmetic::div_mod::lemma_small_mod((before_ly + 1) as nat, LINES_PER_FRAME as nat);
                }
                lemma_passes_line_step(start.ly as int, lines, 144);
                lemma_passes_line_step(start.ly as int, lines, 0);
                lemma_lyc_reached_step(start.ly as int, start.lyc as int, lines, start.stat & 0x04 != 0);
                lines = lines + 1;
            }
            let s0 = self.stat;
            if self.ly == VISIBLE_LINES {
                self.set_mode(PpuMode::VBlank);
                self.frame_ready = true;
                interrupts.vblank = true;
                let e = self.stat_interrupt_enabled(4);
                proof {
                    lemma_stat_bits(s0);
                    lemma_stat_enables(self.stat, start.stat);
                }
                interrupts.stat = interrupts.stat || e;
            } else if self.ly == 0 {
                self.window_line = 0;
                self.set_mode(PpuMode::OamScan);
                let e = self.stat_interrupt_enabled(5);
                proof {
                    lemma_stat_bits(s0);
                    lemma_stat_enables(self.stat, start.stat);
                }
                interrupts.stat = interrupts.stat || e;
            }
            let s1 = self.stat;
            let raised = self.update_lyc_flag();
            let s2 = self.stat;
            proof {
                lemma_stat_bits(s0);
                assert(s1 & 0x04 == s0 & 0x04);
                assert(s0 & 0x04 == stat_before & 0x04);
                lemma_stat_enables(s1, start.stat);
                if lines_before >= 1 {
                    assert(before_ly != self.ly);
                }
            }
            interrupts.stat = interrupts.stat || raised;
            assert(s1 & 0x78 == s0 & 0x78 ==> s2 & 0x78 == s0 & 0x78) by (bit_vector)
                requires
                    s2 & 0xFB == s1 & 0xFB,
            ;
            assert(forall|m: u8| m <= 3 ==> ((s0 & !0x03u8) | m) & 0x78 == s0 & 0x78) by {
            lemma_stat_bits(s0);
        }
            assert(s1 & 0x78 == 0 ==> (s1 & (1u8 << 4u8) == 0 && s1 & (1u8 << 5u8) == 0 && s1 & 0x40
                == 0)) by {
            lemma_stat_bits(s1);
        }
        }
        self.line_dots = dots;
        proof {
            vstd::arithmetic::div_mod::lemma_fundamental_div_mod_converse(
                start.line_dots + cycles,
                DOTS_PER_LINE as int,
                lines,
                dots as int,
            );
        }
        if self.ly < VISIBLE_LINES {
            let mode_3_end_dot = self.mode_3_end_dot();
            let next_mode = if self.line_dots < MODE_2_DOTS {
                PpuMode::OamScan
            } else if self.line_dots < mode_3_end_dot {
                PpuMode::Drawing
            } else {
                PpuMode::HBlank
            };
            if next_mode != self.mode {
                let s0 = self.stat;
                self.set_mode(next_mode);
                assert(forall|m: u8| m <= 3 ==> ((s0 & !0x03u8) | m) & 0x78 == s0 & 0x78)
                    by {
            lemma_stat_bits(s0);
        }
                let raised = match next_mode {
                    PpuMode::HBlank => self.stat_interrupt_enabled(3),
                    PpuMode::OamScan => self.stat_interrupt_enabled(5),
                    PpuMode::VBlank => self.stat_interrupt_enabled(4),
                    PpuMode::Drawing => false,
                };
                proof {
                    lemma_stat_enables(self.stat, start.stat);
                }
                let s1 = self.stat;
                assert(s1 & 0x78 == 0 ==> (s1 & (1u8 << 3u8) == 0 && s1 & (1u8 << 4u8) == 0 && s1
                    & (1u8 << 5u8) == 0)) by {
            lemma_stat_bits(s1);
        }
                interrupts.stat = interrupts.stat || raised;
            }
        }
        interrupts
    }

    /// Draws line LY: background or window for each pixel, then objects
    /// (see `line_drawn`).
    fn render_scanline(&mut self)
        requires
            old(self).inv(),
            old(self).ly < VISIBLE_LINES,
        ensures
            final(self).inv(),
            old(self).line_drawn(*final(self)),
    {
        let ghost start = *self;
        let ghost row = self.ly * SCREEN_WIDTH;
        proof {
            start.lemma_memory_sizes();
        }
        if !self.cgb && self.lcdc & 0x01 == 0 {
            self.clear_scanline();
            proof {
                assert(!start.window_used());
            }
            return;
        }
        let mut window_used = false;
        let mut x: usize = 0;
        while x < SCREEN_WIDTH
            invariant
                self.inv(),
                self.same_registers(&start),
                self.window_line == start.window_line,
                self.ly < VISIBLE_LINES,
                row == start.ly * SCREEN_WIDTH,
                !(!start.cgb && start.lcdc & 0x01 == 0),
                x <= SCREEN_WIDTH,
                window_used == exists|v: int| 0 <= v < x && start.window_visible_at(v),
                forall|i: int|
                    0 <= i < FRAMEBUFFER_PIXELS && !(row <= i < row + x) ==> {
                        &&& self.framebuffer@[i] == start.framebuffer@[i]
                        &&& self.bg_color_ids@[i] == start.bg_color_ids@[i]
                        &&& self.bg_attr_priority@[i] == start.bg_attr_priority@[i]
                    },
                forall|v: int|
                    0 <= v < x ==> {
                        let layer = #[trigger] start.background_layer(v);
                        &&& self.bg_color_ids@[row + v] == layer.0
                        &&& self.bg_attr_priority@[row + v] == layer.2
                        &&& self.framebuffer@[row + v] == layer.1
                    },
            decreases SCREEN_WIDTH - x,
        {
            let visible = self.window_pixel_visible(x);
            let (color_id, color, priority) = if visible {
                window_used = true;
                self.render_window_pixel(x)
            } else {
                self.render_background_pixel(x)
            };
            proof {
                start.lemma_layer_same(*self, x as int);
            }
            assert((color_id, color, priority) == start.background_layer(x as int));
            let index = self.ly as usize * SCREEN_WIDTH + x;
            self.bg_color_ids.set(index, color_id);
            self.bg_attr_priority.set(index, priority);
            self.framebuffer.set(index, color);
            x += 1;
        }
        if window_used {
            self.window_line = self.window_line.wrapping_add(1);
        }
        proof {
            assert(window_used == start.window_used());
        }
        let ghost mid = *self;
        self.render_sprites_on_scanline();
        proof {
            let done = *self;
            assert forall|v: int| 0 <= v < SCREEN_WIDTH implies done.framebuffer@[row + v] == done.objects_over(
                v,
                #[trigger] start.background_layer(v).1,
            ) by {
                mid.lemma_objects_over_same(done, v, mid.framebuffer@[row + v]);
            }
        }
    }

    fn clear_scanline(&mut self)
        requires
            old(self).inv(),
            old(self).ly < VISIBLE_LINES,
            !old(self).cgb && old(self).lcdc & 0x01 == 0,
        ensures
            final(self).inv(),
            old(self).line_drawn(*final(self)),
    {
        let ghost first = *self;
        let ghost row = self.ly * SCREEN_WIDTH;
        let start = self.ly as usize * SCREEN_WIDTH;
        let mut x: usize = 0;
        while x < SCREEN_WIDTH
            invariant
                self.inv(),
                self.same_registers(&first),
                self.window_line == first.window_line,
                self.ly < VISIBLE_LINES,
                start == self.ly as usize * SCREEN_WIDTH,
                row == start,
                !first.cgb && first.lcdc & 0x01 == 0,
                x <= SCREEN_WIDTH,
                forall|i: int|
                    0 <= i < FRAMEBUFFER_PIXELS && !(row <= i < row + x) ==> {
                        &&& self.framebuffer@[i] == first.framebuffer@[i]
                        &&& self.bg_color_ids@[i] == first.bg_color_ids@[i]
                        &&& self.bg_attr_priority@[i] == first.bg_attr_priority@[i]
                    },
                forall|v: int|
                    0 <= v < x ==> {
                        let layer = #[trigger] first.background_layer(v);
                        &&& self.bg_color_ids@[row + v] == layer.0
                        &&& self.bg_attr_priority@[row + v] == layer.2
                        &&& self.framebuffer@[row + v] == layer.1
                    },
            decreases SCREEN_WIDTH - x,
        {
            assert(first.background_layer(x as int) == (0u8, 0xFFFF_FFFFu32, false));
            self.framebuffer.set(start + x, 0xFFFF_FFFF);
            self.bg_color_ids.set(start + x, 0);
            self.bg_attr_priority.set(start + x, false);
            x += 1;
        }
        let ghost mid = *self;
        self.render_sprites_on_scanline();
        proof {
            let done = *self;
            assert(!first.window_used());
            assert forall|v: int| 0 <= v < SCREEN_WIDTH implies done.framebuffer@[row + v] == done.objects_over(
                v,
                #[trigger] first.background_layer(v).1,
            ) by {
                mid.lemma_objects_over_same(done, v, mid.framebuffer@[row + v]);
            }
        }
    }

    fn render_background_pixel(&self, screen_x: usize) -> (pixel: (u8, u32, bool))
        requires
            self.inv(),
            screen_x < SCREEN_WIDTH,
        ensures
            pixel.0 <= 3,
            pixel == self.background_pixel(screen_x as int),
    {
        let map_base: usize = if self.lcdc & 0x08 != 0 {
            0x1C00
        } else {
            0x1800
        };
        let tile_data_unsigned = self.lcdc & 0x10 != 0;
        let y = self.ly.wrapping_add(self.scy);
        let x = (screen_x as u8).wrapping_add(self.scx);
        self.render_tile_pixel(map_base, tile_data_unsigned, x as usize, y as usize, self.bgp)
    }

    fn render_window_pixel(&self, screen_x: usize) -> (pixel: (u8, u32, bool))
        requires
            self.inv(),
            screen_x < SCREEN_WIDTH,
            self.window_visible_at(screen_x as int),
        ensures
            pixel.0 <= 3,
            pixel == self.window_pixel(screen_x as int),
    {
        let map_base: usize = if self.lcdc & 0x40 != 0 {
            0x1C00
        } else {
            0x1800
        };
        let tile_data_unsigned = self.lcdc & 0x10 != 0;
        let window_x = if self.wx < 7 {
            screen_x + (7 - self.wx) as usize
        } else {
            screen_x - (self.wx - 7) as usize
        };
        self.render_tile_pixel(
            map_base,
            tile_data_unsigned,
            window_x,
            self.window_line as usize,
            self.bgp,
        )
    }

    /// Colour number, colour and bank-1 priority of background-map pixel
    /// (`x`, `y`) of the tile map at `map_base`.
    fn render_tile_pixel(
        &self,
        map_base: usize,
        tile_data_unsigned: bool,
        x: usize,
        y: usize,
        palette: u8,
    ) -> (pixel: (u8, u32, bool))
        requires
            self.inv(),
            map_base == 0x1800 || map_base == 0x1C00,
            x < 0x1000,
            y < 0x1000,
        ensures
            pixel.0 <= 3,
            pixel == self.tile_pixel(map_base as int, tile_data_unsigned, x as int, y as int, palette),
    {
        proof {
            reveal(Ppu::tile_pixel);
        }
        let tile_x = (x / 8) % TILE_MAP_SIZE;
        let tile_y = (y / 8) % TILE_MAP_SIZE;
        let map_offset = map_base + tile_y * TILE_MAP_SIZE + tile_x;
        let tile_id = self.read_vram_bank(0, map_offset);
        let tile_offset = tile_data_offset(tile_id, tile_data_unsigned);
        if self.cgb {
            let attr = self.read_vram_bank(1, map_offset);
            let cgb_palette = attr & 0x07;
            let bank = ((attr >> 3) & 0x01) as usize;
            let x_flip = attr & 0x20 != 0;
            let y_flip = attr & 0x40 != 0;
            let priority = attr & 0x80 != 0;
            let row = if y_flip {
                7 - (y % 8)
            } else {
                y % 8
            };
            let low = self.read_vram_bank(bank, tile_offset + row * 2);
            let high = self.read_vram_bank(bank, tile_offset + row * 2 + 1);
            let px = (x % 8) as u8;
            let bit: u8 = if x_flip {
                px
            } else {
                7 - px
            };
            let color_id = (((high >> bit) & 1) << 1) | ((low >> bit) & 1);
            proof {
                lemma_color_id_bits(high, low, bit);
            }
            (color_id, cgb_color(&self.bg_palette_ram, cgb_palette, color_id), priority)
        } else {
            let col = (x % 8) as u8;
            let row = y % 8;
            let low = self.read_vram_bank(0, tile_offset + row * 2);
            let high = self.read_vram_bank(0, tile_offset + row * 2 + 1);
            let bit: u8 = 7 - col;
            let color_id = (((high >> bit) & 1) << 1) | ((low >> bit) & 1);
            proof {
                lemma_color_id_bits(high, low, bit);
            }
            (color_id, palette_color(palette, color_id), false)
        }
    }

    /// The window covers screen column `screen_x` on the current line.
    pub closed spec fn window_visible_at(&self, screen_x: int) -> bool {
        &&& self.lcdc & 0x20 != 0
        &&& self.ly >= self.wy
        &&& self.wx <= 166
        &&& screen_x >= (if self.wx < 7 { 0 } else { self.wx - 7 })
    }

    fn window_pixel_visible(&self, screen_x: usize) -> (visible: bool)
        ensures
            visible == self.window_visible_at(screen_x as int),
    {
        if self.lcdc & 0x20 == 0 || self.ly < self.wy || self.wx > 166 {
            return false;
        }
        let window_left = self.wx.saturating_sub(7) as usize;
        screen_x >= window_left
    }

    /// Draws the objects on line LY over what the line shows: up to ten
    /// found in object-memory order; where several paint a column, the one
    /// with the smaller X and then the smaller index shows on top, or (in
    /// colour mode) the one with the smaller index (see `objects_over`).
    fn render_sprites_on_scanline(&mut self)
        requires
            old(self).inv(),
            old(self).ly < VISIBLE_LINES,
        ensures
            final(self).inv(),
            final(self).same_registers(old(self)),
            final(self).window_line == old(self).window_line,
            final(self).bg_color_ids@ == old(self).bg_color_ids@,
            final(self).bg_attr_priority@ == old(self).bg_attr_priority@,
            forall|i: int|
                0 <= i < FRAMEBUFFER_PIXELS && !(old(self).ly * SCREEN_WIDTH <= i < old(self).ly * SCREEN_WIDTH
                    + SCREEN_WIDTH) ==> final(self).framebuffer@[i] == old(self).framebuffer@[i],
            forall|x: int|
                0 <= x < SCREEN_WIDTH ==> final(self).framebuffer@[old(self).ly * SCREEN_WIDTH + x]
                    == old(self).objects_over(x, #[trigger] old(self).framebuffer@[old(self).ly * SCREEN_WIDTH + x]),
    {
        let ghost start = *self;
        let ghost row = self.ly * SCREEN_WIDTH;
        if self.lcdc & 0x02 == 0 {
            return;
        }
        let sprite_height: i16 = if self.lcdc & 0x04 != 0 {
            16
        } else {
            8
        };
        let mut sprites: Vec<Sprite> = Vec::with_capacity(MAX_SPRITES_PER_LINE);
        let mut oam_index: usize = 0;
        while oam_index < SPRITE_COUNT && sprites.len() < MAX_SPRITES_PER_LINE
            invariant
                self.inv(),
                *self == start,
                sprite_height == start.sprite_height(),
                oam_index <= SPRITE_COUNT,
                sprites@ == start.found_sprites(oam_index as int),
            decreases SPRITE_COUNT - oam_index,
        {
            let offset = oam_index * OAM_ENTRY_BYTES;
            let y = self.oam_byte(offset) as i16 - 16;
            let x = self.oam_byte(offset + 1) as i16 - 8;
            let tile = self.oam_byte(offset + 2);
            let attributes = self.oam_byte(offset + 3);
            let line = self.ly as i16 - y;
            proof {
                start.lemma_memory_sizes();
            }
            if line < 0 || line >= sprite_height {
                oam_index += 1;
                continue;
            }
            sprites.push(Sprite { oam_index, x, y, tile, attributes, line: line as usize });
            oam_index += 1;
        }
        proof {
            start.lemma_found_sprites_settle(oam_index as int, SPRITE_COUNT as int);
            start.lemma_found_sprites_shape(SPRITE_COUNT as int);
        }
        let n = sprites.len();
        let mut claimed: Vec<u16> = vec![NO_CLAIM; SCREEN_WIDTH];
        let mut k: usize = 0;
        while k < n
            invariant
                self.inv(),
                self.same_registers(&start),
                self.window_line == start.window_line,
                self.ly < VISIBLE_LINES,
                start.lcdc & 0x02 != 0,
                row == start.ly * SCREEN_WIDTH,
                self.bg_color_ids@ == start.bg_color_ids@,
                self.bg_attr_priority@ == start.bg_attr_priority@,
                n == sprites@.len(),
                k <= n,
                sprites@ == start.found_sprites(SPRITE_COUNT as int),
                sprite_height == start.sprite_height(),
                forall|i: int|
                    0 <= i < n ==> {
                        let s = #[trigger] sprites@[i];
                        &&& s.line < start.sprite_height()
                        &&& -8 <= s.x <= 247
                        &&& s.oam_index < SPRITE_COUNT
                    },
                claimed@.len() == SCREEN_WIDTH,
                forall|i: int|
                    0 <= i < FRAMEBUFFER_PIXELS && !(row <= i < row + SCREEN_WIDTH) ==> self.framebuffer@[i]
                        == start.framebuffer@[i],
                forall|x: int|
                    0 <= x < SCREEN_WIDTH ==> #[trigger] claimed_by(
                        start,
                        start.top_sprite(sprites@.take(k as int), x),
                        claimed@[x],
                        self.framebuffer@[row + x],
                        start.framebuffer@[row + x],
                        x,
                    ),
            decreases n - k,
        {
            let sprite = sprites[k];
            proof {
                assert(sprites@.take(k + 1).drop_last() =~= sprites@.take(k as int));
                assert(sprites@.take(k + 1).last() == sprite);
            }
            let ghost before_claims = claimed@;
            let ghost before = *self;
            self.render_sprite_line(sprite, sprite_height as usize, &mut claimed);
            proof {
                assert forall|x: int| 0 <= x < SCREEN_WIDTH implies #[trigger] claimed_by(
                    start,
                    start.top_sprite(sprites@.take(k + 1), x),
                    claimed@[x],
                    self.framebuffer@[row + x],
                    start.framebuffer@[row + x],
                    x,
                ) by {
                    start.lemma_paint_same(before, sprite, x);
                    assert(claimed_by(
                        start,
                        start.top_sprite(sprites@.take(k as int), x),
                        before_claims[x],
                        before.framebuffer@[row + x],
                        start.framebuffer@[row + x],
                        x,
                    ));
                    assert(drawn_if_on_top(
                        before,
                        sprite,
                        before_claims[x],
                        claimed@[x],
                        before.framebuffer@[row + x],
                        self.framebuffer@[row + x],
                        x,
                    ));
                    start.lemma_top_sprite_member(sprites@.take(k as int), x);
                    match start.top_sprite(sprites@.take(k as int), x) {
                        Some(best) => {
                            start.lemma_paint_same(before, best, x);
                        },
                        None => {},
                    }
                }
            }
            k += 1;
        }
        proof {
            assert(sprites@.take(n as int) =~= sprites@);
            assert forall|x: int| 0 <= x < SCREEN_WIDTH implies self.framebuffer@[start.ly * SCREEN_WIDTH + x]
                == start.objects_over(x, #[trigger] start.framebuffer@[start.ly * SCREEN_WIDTH + x]) by {
                assert(claimed_by(
                    start,
                    start.top_sprite(sprites@, x),
                    claimed@[x],
                    self.framebuffer@[row + x],
                    start.framebuffer@[row + x],
                    x,
                ));
            }
        }
    }

    fn oam_byte(&self, offset: usize) -> (value: u8)
        requires
            self.inv(),
        ensures
            value == (if offset < OAM_SIZE { self.spec_oam()[offset as int] } else { 0 }),
    {
        match self.oam.read(offset) {
            Some(v) => v,
            None => 0,
        }
    }

    /// Draws one object's row on line LY where it shows on top of what the
    /// columns hold so far: each column it paints (see `sprite_paint`)
    /// takes its colour when no object claimed the column yet or the
    /// claiming one ranks after it, and the column is then claimed with its
    /// rank.
    #[verifier::rlimit(40)]
    fn render_sprite_line(&mut self, sprite: Sprite, sprite_height: usize, claimed: &mut Vec<u16>)
        requires
            old(self).inv(),
            old(self).ly < VISIBLE_LINES,
            sprite_height == old(self).sprite_height(),
            sprite.line < sprite_height,
            -8 <= sprite.x <= 247,
            sprite.oam_index < SPRITE_COUNT,
            old(claimed)@.len() == SCREEN_WIDTH,
        ensures
            final(self).inv(),
            final(self).same_registers(old(self)),
            final(self).window_line == old(self).window_line,
            final(self).bg_color_ids@ == old(self).bg_color_ids@,
            final(self).bg_attr_priority@ == old(self).bg_attr_priority@,
            final(claimed)@.len() == SCREEN_WIDTH,
            forall|i: int|
                0 <= i < FRAMEBUFFER_PIXELS && !(old(self).ly * SCREEN_WIDTH <= i < old(self).ly * SCREEN_WIDTH
                    + SCREEN_WIDTH) ==> final(self).framebuffer@[i] == old(self).framebuffer@[i],
            forall|x: int|
                0 <= x < SCREEN_WIDTH ==> #[trigger] drawn_if_on_top(
                    *old(self),
                    sprite,
                    old(claimed)@[x],
                    final(claimed)@[x],
                    old(self).framebuffer@[old(self).ly * SCREEN_WIDTH + x],
                    final(self).framebuffer@[old(self).ly * SCREEN_WIDTH + x],
                    x,
                ),
    {
        let ghost start = *self;
        let ghost claims = claimed@;
        let ghost row = self.ly * SCREEN_WIDTH;
        proof {
            start.lemma_memory_sizes();
        }
        let y_flip = sprite.attributes & 0x40 != 0;
        let x_flip = sprite.attributes & 0x20 != 0;
        let behind_bg = sprite.attributes & 0x80 != 0;
        let line = if y_flip {
            sprite_height - 1 - sprite.line
        } else {
            sprite.line
        };
        let tile = if sprite_height == 16 {
            sprite.tile & 0xFE
        } else {
            sprite.tile
        };
        let bank: usize = if self.cgb {
            ((sprite.attributes >> 3) & 0x01) as usize
        } else {
            0
        };
        let tile_offset = tile as usize * TILE_BYTES + line * 2;
        let low = self.read_vram_bank(bank, tile_offset);
        let high = self.read_vram_bank(bank, tile_offset + 1);
        let master_priority = self.lcdc & 0x01 != 0;
        let rank: u16 = if self.cgb {
            sprite.oam_index as u16
        } else {
            ((sprite.x + 8) as u16) * 64 + sprite.oam_index as u16
        };
        assert(rank as int == start.sprite_rank(sprite));
        assert(low == start.vram_byte(bank as int, tile_offset as int));
        assert(high == start.vram_byte(bank as int, tile_offset + 1));
        let mut pixel: i16 = 0;
        while pixel < 8
            invariant
                low == start.vram_byte(bank as int, tile_offset as int),
                high == start.vram_byte(bank as int, tile_offset + 1),
                sprite_height == start.sprite_height(),
                y_flip == (sprite.attributes & 0x40 != 0),
                x_flip == (sprite.attributes & 0x20 != 0),
                behind_bg == (sprite.attributes & 0x80 != 0),
                master_priority == (start.lcdc & 0x01 != 0),
                line == (if y_flip {
                    sprite_height - 1 - sprite.line
                } else {
                    sprite.line as int
                }),
                tile == (if sprite_height == 16 {
                    sprite.tile & 0xFE
                } else {
                    sprite.tile
                }),
                bank == (if start.cgb {
                    ((sprite.attributes >> 3u8) & 0x01) as int
                } else {
                    0
                }),
                tile_offset == tile * TILE_BYTES + line * 2,
                self.inv(),
                self.same_registers(&start),
                self.window_line == start.window_line,
                self.bg_color_ids@ == start.bg_color_ids@,
                self.bg_attr_priority@ == start.bg_attr_priority@,
                self.ly < VISIBLE_LINES,
                row == start.ly * SCREEN_WIDTH,
                0 <= pixel <= 8,
                -8 <= sprite.x <= 247,
                claimed@.len() == SCREEN_WIDTH,
                rank as int == start.sprite_rank(sprite),
                forall|i: int|
                    0 <= i < FRAMEBUFFER_PIXELS && !(row <= i < row + SCREEN_WIDTH) ==> self.framebuffer@[i]
                        == start.framebuffer@[i],
                forall|x: int|
                    0 <= x < SCREEN_WIDTH && sprite.x <= x < sprite.x + pixel ==> #[trigger] drawn_if_on_top(
                        start,
                        sprite,
                        claims[x],
                        claimed@[x],
                        start.framebuffer@[row + x],
                        self.framebuffer@[row + x],
                        x,
                    ),
                forall|x: int|
                    #![trigger unprocessed(sprite, pixel as int, x)]
                    0 <= x < SCREEN_WIDTH && unprocessed(sprite, pixel as int, x) ==> claimed@[x] == claims[x]
                        && self.framebuffer@[row + x] == start.framebuffer@[row + x],
            decreases 8 - pixel,
        {
            let screen_x = sprite.x + pixel;
            let ghost fb_before = self.framebuffer@;
            let ghost claims_before = claimed@;
            if 0 <= screen_x && screen_x < SCREEN_WIDTH as i16 {
                let col: u8 = if x_flip {
                    pixel as u8
                } else {
                    7 - pixel as u8
                };
                let color_id = (((high >> col) & 1) << 1) | ((low >> col) & 1);
                proof {
                    lemma_color_id_bits(high, low, col);
                }
                let index = self.ly as usize * SCREEN_WIDTH + screen_x as usize;
                let bg_wins = if self.cgb {
                    master_priority && self.bg_color_ids[index] != 0 && (self.bg_attr_priority[index]
                        || behind_bg)
                } else {
                    behind_bg && self.bg_color_ids[index] != 0
                };
                let ghost paint = start.sprite_paint(sprite, screen_x as int);
                proof {
                    assert(screen_x - sprite.x == pixel);
                    assert(color_id == color_number(low, high, col));
                    assert(index == start.ly * SCREEN_WIDTH + screen_x);
                }
                if color_id != 0 && !bg_wins {
                    let color = if self.cgb {
                        cgb_color(&self.obj_palette_ram, sprite.attributes & 0x07, color_id)
                    } else {
                        let palette = if sprite.attributes & 0x10 != 0 {
                            self.obp1
                        } else {
                            self.obp0
                        };
                        palette_color(palette, color_id)
                    };
                    assert(paint == Some(color));
                    let x = screen_x as usize;
                    if claimed[x] == NO_CLAIM || rank < claimed[x] {
                        claimed.set(x, rank);
                        self.framebuffer.set(index, color);
                    }
                } else {
                    assert(paint is None);
                }
                proof {
                    assert forall|other: int| 0 <= other < SCREEN_WIDTH && other != screen_x implies claimed@[other]
                        == claims_before[other] && self.framebuffer@[row + other] == fb_before[row + other] by {
                        assert(row + other != index);
                    }
                    assert forall|i: int|
                        0 <= i < FRAMEBUFFER_PIXELS && !(row <= i < row + SCREEN_WIDTH) implies self.framebuffer@[i]
                        == fb_before[i] by {
                        assert(i != index);
                    }
                    let sx = screen_x as int;
                    assert(unprocessed(sprite, pixel as int, sx));
                    assert(claims_before[sx] == claims[sx]);
                    assert(fb_before[row + sx] == start.framebuffer@[row + sx]);
                    assert(drawn_if_on_top(
                        start,
                        sprite,
                        claims[sx],
                        claimed@[sx],
                        start.framebuffer@[row + sx],
                        self.framebuffer@[row + sx],
                        sx,
                    ));
                }
            } else {
                assert(start.sprite_paint(sprite, screen_x as int) is None);
            }
            proof {
                assert forall|x: int|
                    0 <= x < SCREEN_WIDTH && sprite.x <= x < sprite.x + pixel + 1 implies #[trigger] drawn_if_on_top(
                    start,
                    sprite,
                    claims[x],
                    claimed@[x],
                    start.framebuffer@[row + x],
                    self.framebuffer@[row + x],
                    x,
                ) by {
                    if x != screen_x {
                        assert(drawn_if_on_top(
                            start,
                            sprite,
                            claims[x],
                            claims_before[x],
                            start.framebuffer@[row + x],
                            fb_before[row + x],
                            x,
                        ));
                        assert(claimed@[x] == claims_before[x]);
                        assert(self.framebuffer@[row + x] == fb_before[row + x]);
                    }
                }
            }
            proof {
                assert forall|x: int|
                    #![trigger unprocessed(sprite, pixel + 1, x)]
                    0 <= x < SCREEN_WIDTH && unprocessed(sprite, pixel + 1, x) implies claimed@[x] == claims[x]
                    && self.framebuffer@[row + x] == start.framebuffer@[row + x] by {
                    assert(unprocessed(sprite, pixel as int, x));
                    assert(x != screen_x);
                    assert(claimed@[x] == claims_before[x]);
                    assert(self.framebuffer@[row + x] == fb_before[row + x]);
                }
            }
            pixel += 1;
        }
        proof {
            assert forall|x: int| 0 <= x < SCREEN_WIDTH implies #[trigger] drawn_if_on_top(
                start,
                sprite,
                claims[x],
                claimed@[x],
                start.framebuffer@[row + x],
                self.framebuffer@[row + x],
                x,
            ) by {
                if unprocessed(sprite, 8, x) {
                    assert(start.sprite_paint(sprite, x) is None);
                }
            }
        }
    }

    /// What an object paints and how it ranks depend on the registers,
    /// memories and background line only, not on the picture drawn.
    proof fn lemma_paint_same(&self, other: Ppu, sprite: Sprite, x: int)
        requires
            other.same_registers(self),
            other.bg_color_ids@ == self.bg_color_ids@,
            other.bg_attr_priority@ == self.bg_attr_priority@,
        ensures
            other.sprite_paint(sprite, x) == self.sprite_paint(sprite, x),
            other.sprite_rank(sprite) == self.sprite_rank(sprite),
    {
        assert(other.vram_byte(0, 0) == other.vram_byte(0, 0));
    }

    /// A map pixel depends on the registers and memories only.
    proof fn lemma_tile_pixel_same(&self, other: Ppu, map_base: int, unsigned: bool, x: int, y: int, palette: u8)
        requires
            other.same_registers(self),
        ensures
            other.tile_pixel(map_base, unsigned, x, y, palette) == self.tile_pixel(map_base, unsigned, x, y, palette),
    {
        reveal(Ppu::tile_pixel);
        assert(other.vram_byte(0, 0) == other.vram_byte(0, 0));
    }

    /// The background layer depends on the registers, memories and the
    /// window's line count only.
    proof fn lemma_layer_same(&self, other: Ppu, x: int)
        requires
            other.same_registers(self),
            other.window_line == self.window_line,
        ensures
            other.background_layer(x) == self.background_layer(x),
    {
        let window_base = if self.lcdc & 0x40 != 0 {
            0x1C00int
        } else {
            0x1800
        };
        let bg_base = if self.lcdc & 0x08 != 0 {
            0x1C00int
        } else {
            0x1800
        };
        self.lemma_tile_pixel_same(other, window_base, self.lcdc & 0x10 != 0, x + 7 - self.wx, self.window_line as int, self.bgp);
        self.lemma_tile_pixel_same(other, bg_base, self.lcdc & 0x10 != 0, (x + self.scx) % 256, (self.ly + self.scy) % 256, self.bgp);
    }

    /// Two PPUs that read the same for drawing draw lines alike.
    proof fn lemma_same_drawing(&self, other: Ppu)
        requires
            other.same_drawing(*self),
        ensures
            other.window_line == self.window_line ==> forall|x: int| #[trigger] other.background_layer(x)
                == self.background_layer(x),
            other.window_used() == self.window_used(),
            forall|ids: Seq<u8>, priorities: Seq<bool>, x: int, below: u32|
                #[trigger] other.objects_over_with(ids, priorities, x, below) == self.objects_over_with(
                    ids,
                    priorities,
                    x,
                    below,
                ),
    {
        reveal(Ppu::tile_pixel);
        if other.window_line == self.window_line {
            assert forall|x: int| #[trigger] other.background_layer(x) == self.background_layer(x) by {
                assert(other.vram_byte(0, 0) == other.vram_byte(0, 0));
            }
        }
        if self.window_used() {
            let w = choose|x: int| 0 <= x < SCREEN_WIDTH && self.window_visible_at(x);
            assert(other.window_visible_at(w));
        }
        if other.window_used() {
            let w = choose|x: int| 0 <= x < SCREEN_WIDTH && other.window_visible_at(x);
            assert(self.window_visible_at(w));
        }
        assert forall|ids: Seq<u8>, priorities: Seq<bool>, x: int, below: u32|
            #[trigger] other.objects_over_with(ids, priorities, x, below) == self.objects_over_with(
                ids,
                priorities,
                x,
                below,
            ) by {
            self.lemma_found_same_drawing(other, SPRITE_COUNT as int);
            let found = self.found_sprites(SPRITE_COUNT as int);
            self.lemma_top_same_drawing(other, ids, priorities, found, x);
            if let Some(top) = self.top_sprite_with(ids, priorities, found, x) {
                self.lemma_paint_same_drawing(other, ids, priorities, top, x);
            }
        }
    }

    proof fn lemma_paint_same_drawing(&self, other: Ppu, ids: Seq<u8>, priorities: Seq<bool>, sprite: Sprite, x: int)
        requires
            other.same_drawing(*self),
        ensures
            other.sprite_paint_with(ids, priorities, sprite, x) == self.sprite_paint_with(ids, priorities, sprite, x),
            other.sprite_rank(sprite) == self.sprite_rank(sprite),
    {
        assert(other.vram_byte(0, 0) == other.vram_byte(0, 0));
    }

    proof fn lemma_found_same_drawing(&self, other: Ppu, upto: int)
        requires
            other.same_drawing(*self),
        ensures
            other.found_sprites(upto) == self.found_sprites(upto),
        decreases upto,
    {
        if upto > 0 {
            self.lemma_found_same_drawing(other, upto - 1);
        }
    }

    proof fn lemma_top_same_drawing(&self, other: Ppu, ids: Seq<u8>, priorities: Seq<bool>, sprites: Seq<Sprite>, x: int)
        requires
            other.same_drawing(*self),
        ensures
            other.top_sprite_with(ids, priorities, sprites, x) == self.top_sprite_with(ids, priorities, sprites, x),
        decreases sprites.len(),
    {
        if sprites.len() > 0 {
            self.lemma_top_same_drawing(other, ids, priorities, sprites.drop_last(), x);
            self.lemma_paint_same_drawing(other, ids, priorities, sprites.last(), x);
            if let Some(best) = self.top_sprite_with(ids, priorities, sprites.drop_last(), x) {
                self.lemma_paint_same_drawing(other, ids, priorities, best, x);
            }
        }
    }

    /// Drawing a line as `render_scanline` does gives the picture that
    /// `picture_with_line` describes.
    proof fn lemma_line_picture(&self, start: Ppu, after: Ppu)
        requires
            self.inv(),
            after.inv(),
            self.line_drawn(after),
            start.lcdc == self.lcdc,
            start.scy == self.scy,
            start.scx == self.scx,
            start.wy == self.wy,
            start.wx == self.wx,
            start.bgp == self.bgp,
            start.obp0 == self.obp0,
            start.obp1 == self.obp1,
            start.cgb == self.cgb,
            start.bg_palette_ram@ == self.bg_palette_ram@,
            start.obj_palette_ram@ == self.obj_palette_ram@,
            start.vram0@ == self.vram0@,
            start.vram1@ == self.vram1@,
            start.oam@ == self.oam@,
        ensures
            start.picture_with_line(
                (self.framebuffer@, self.bg_color_ids@, self.bg_attr_priority@),
                self.ly as int,
                self.window_line,
            ) == ((after.framebuffer@, after.bg_color_ids@, after.bg_attr_priority@), after.window_line),
    {
        let q = Ppu { ly: self.ly, window_line: self.window_line, ..start };
        q.lemma_same_drawing(*self);
        q.lemma_same_drawing(after);
        let row = self.ly * SCREEN_WIDTH as int;
        let (picture, w) = start.picture_with_line(
            (self.framebuffer@, self.bg_color_ids@, self.bg_attr_priority@),
            self.ly as int,
            self.window_line,
        );
        assert(picture.1 =~= after.bg_color_ids@) by {
            assert forall|i: int| 0 <= i < FRAMEBUFFER_PIXELS implies picture.1[i] == after.bg_color_ids@[i] by {
                if row <= i < row + SCREEN_WIDTH {
                    assert(self.background_layer(i - row) == q.background_layer(i - row));
                }
            }
        }
        assert(picture.2 =~= after.bg_attr_priority@) by {
            assert forall|i: int| 0 <= i < FRAMEBUFFER_PIXELS implies picture.2[i] == after.bg_attr_priority@[i] by {
                if row <= i < row + SCREEN_WIDTH {
                    assert(self.background_layer(i - row) == q.background_layer(i - row));
                }
            }
        }
        assert(picture.0 =~= after.framebuffer@) by {
            assert forall|i: int| 0 <= i < FRAMEBUFFER_PIXELS implies picture.0[i] == after.framebuffer@[i] by {
                if row <= i < row + SCREEN_WIDTH {
                    let x = i - row;
                    assert(self.background_layer(x) == q.background_layer(x));
                    assert(after.objects_over(x, q.background_layer(x).1) == after.objects_over_with(
                        after.bg_color_ids@,
                        after.bg_attr_priority@,
                        x,
                        q.background_layer(x).1,
                    ));
                }
            }
        }
    }

    /// The objects found on a line depend on the registers and object
    /// memory only.
    proof fn lemma_found_same(&self, other: Ppu, upto: int)
        requires
            other.same_registers(self),
        ensures
            other.found_sprites(upto) == self.found_sprites(upto),
        decreases upto,
    {
        if upto > 0 {
            self.lemma_found_same(other, upto - 1);
        }
    }

    /// Which object shows on top depends on the registers, memories and
    /// background line only.
    proof fn lemma_top_same(&self, other: Ppu, sprites: Seq<Sprite>, x: int)
        requires
            other.same_registers(self),
            other.bg_color_ids@ == self.bg_color_ids@,
            other.bg_attr_priority@ == self.bg_attr_priority@,
        ensures
            other.top_sprite(sprites, x) == self.top_sprite(sprites, x),
        decreases sprites.len(),
    {
        if sprites.len() > 0 {
            self.lemma_top_same(other, sprites.drop_last(), x);
            self.lemma_paint_same(other, sprites.last(), x);
            if let Some(best) = self.top_sprite(sprites.drop_last(), x) {
                self.lemma_paint_same(other, best, x);
            }
        }
    }

    /// What the objects make of a column depends on the registers, memories
    /// and background line only, not on the picture drawn.
    proof fn lemma_objects_over_same(&self, other: Ppu, x: int, below: u32)
        requires
            other.same_registers(self),
            other.bg_color_ids@ == self.bg_color_ids@,
            other.bg_attr_priority@ == self.bg_attr_priority@,
        ensures
            other.objects_over(x, below) == self.objects_over(x, below),
    {
        self.lemma_found_same(other, SPRITE_COUNT as int);
        let found = self.found_sprites(SPRITE_COUNT as int);
        self.lemma_top_same(other, found, x);
        if let Some(top) = self.top_sprite(found, x) {
            self.lemma_paint_same(other, top, x);
        }
    }

    /// The object on top at a column is one of the objects looked at.
    proof fn lemma_top_sprite_member(&self, sprites: Seq<Sprite>, x: int)
        ensures
            self.top_sprite(sprites, x) matches Some(s) ==> exists|i: int| 0 <= i < sprites.len() && sprites[i] == s,
        decreases sprites.len(),
    {
        if sprites.len() > 0 {
            self.lemma_top_sprite_member(sprites.drop_last(), x);
            if let Some(s) = self.top_sprite(sprites.drop_last(), x) {
                let i = choose|i: int| 0 <= i < sprites.drop_last().len() && sprites.drop_last()[i] == s;
                assert(sprites[i] == s);
            }
        }
    }

    /// Once the objects found on a line stop growing (ten found), looking
    /// further through object memory finds the same ones.
    proof fn lemma_found_sprites_settle(&self, from: int, upto: int)
        requires
            0 <= from <= upto,
            from == SPRITE_COUNT || self.found_sprites(from).len() >= MAX_SPRITES_PER_LINE,
            upto <= SPRITE_COUNT,
        ensures
            self.found_sprites(upto) == self.found_sprites(from),
        decreases upto - from,
    {
        if upto > from {
            self.lemma_found_sprites_settle(from, upto - 1);
        }
    }

    /// The objects found on a line are at most ten, in increasing index,
    /// each covering the line and lying where it can be drawn.
    proof fn lemma_found_sprites_shape(&self, upto: int)
        requires
            self.inv(),
            0 <= upto <= SPRITE_COUNT,
        ensures
            self.found_sprites(upto).len() <= MAX_SPRITES_PER_LINE,
            forall|i: int|
                0 <= i < self.found_sprites(upto).len() ==> {
                    let s = #[trigger] self.found_sprites(upto)[i];
                    &&& s.line < self.sprite_height()
                    &&& -8 <= s.x <= 247
                    &&& s.oam_index < upto
                },
        decreases upto,
    {
        if upto > 0 {
            self.lemma_found_sprites_shape(upto - 1);
            self.lemma_memory_sizes();
        }
    }

    fn lcd_enabled(&self) -> (on: bool)
        ensures
            on == self.lcd_on(),
    {
        self.lcdc & 0x80 != 0
    }

    pub fn mode_3_end_dot(&self) -> (dot: u32)
        ensures
            dot == self.mode_3_end(),
            dot <= 259,
    {
        let x = self.scx;
        assert(x & 0x07 <= 7) by {
            lemma_byte_bits();
            lemma_word_bits();
        }
        MODE_2_DOTS + MODE_3_BASE_DOTS + (self.scx & 0x07) as u32
    }
}


/// Column `x` is not among the first `count` columns of `sprite`.
pub open spec fn unprocessed(sprite: Sprite, count: int, x: int) -> bool {
    !(sprite.x <= x < sprite.x + count)
}

/// No object has claimed a column yet.
pub const NO_CLAIM: u16 = 0xFFFF;

/// Column `x` holds what `top` says: claimed with its rank and painted in
/// its colour, or unclaimed and as it was (`below`).
pub open spec fn claimed_by(ppu: Ppu, top: Option<Sprite>, claim: u16, color: u32, below: u32, x: int) -> bool {
    match top {
        Some(sprite) => claim as int == ppu.sprite_rank(sprite) && ppu.sprite_paint(sprite, x) == Some(color),
        None => claim == NO_CLAIM && color == below,
    }
}

/// After drawing `sprite`, column `x` took its colour and rank when it
/// paints the column and no object of a smaller rank claimed it before;
/// otherwise the column is as it was.
pub open spec fn drawn_if_on_top(
    ppu: Ppu,
    sprite: Sprite,
    claim_before: u16,
    claim_after: u16,
    color_before: u32,
    color_after: u32,
    x: int,
) -> bool {
    if ppu.sprite_paint(sprite, x) is Some && (claim_before == NO_CLAIM || ppu.sprite_rank(sprite) < claim_before) {
        claim_after as int == ppu.sprite_rank(sprite) && Some(color_after) == ppu.sprite_paint(sprite, x)
    } else {
        claim_after == claim_before && color_after == color_before
    }
}

/// The colour number of bit `bit` of a tile row whose bit planes are `low`
/// and `high` (bit 7 is the leftmost pixel).
pub open spec fn color_number(low: u8, high: u8, bit: u8) -> u8 {
    (((high >> bit) & 1) << 1u8) | ((low >> bit) & 1)
}

/// Bit facts about STAT updates: setting or clearing the coincidence bit
/// and replacing the mode bits leave the interrupt-select bits alone.
proof fn lemma_stat_enables(a: u8, b: u8)
    by (bit_vector)
    requires
        a & 0x78 == b & 0x78,
    ensures
        (a & 0x08 != 0) == (b & 0x08 != 0),
        (a & 0x10 != 0) == (b & 0x10 != 0),
        (a & 0x20 != 0) == (b & 0x20 != 0),
        (a & 0x40 != 0) == (b & 0x40 != 0),
        (a & (1u8 << 3u8) != 0) == (a & 0x08 != 0),
        (a & (1u8 << 4u8) != 0) == (a & 0x10 != 0),
        (a & (1u8 << 5u8) != 0) == (a & 0x20 != 0),
{
}

proof fn lemma_stat_bits(s: u8)
    by (bit_vector)
    ensures
        (s | 0x04) & 0x04 != 0,
        (s | 0x04) & 0xFB == s & 0xFB,
        ((s | 0x04) & (1u8 << 6u8) != 0) == (s & 0x40 != 0),
        (s & !0x04u8) & 0x04 == 0,
        (s & !0x04u8) & 0xFB == s & 0xFB,
        s & 0x78 == 0 ==> (s & (1u8 << 3u8) == 0 && s & (1u8 << 4u8) == 0 && s & (1u8 << 5u8)
            == 0 && s & (1u8 << 6u8) == 0 && s & 0x40 == 0),
        forall|m: u8| m <= 3 ==> #[trigger] (((s & !0x03u8) | m) & 0x78) == s & 0x78,
        forall|m: u8| m <= 3 ==> #[trigger] (((s & !0x03u8) | m) & 0x04) == s & 0x04,
{
}

/// A colour index built from one bit of each tile byte is at most 3.
proof fn lemma_color_id_bits(high: u8, low: u8, bit: u8)
    by (bit_vector)
    ensures
        ((((high >> bit) & 1) << 1u8) | ((low >> bit) & 1)) <= 3,
{
}

} // verus!
