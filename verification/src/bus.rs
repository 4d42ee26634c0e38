use vstd::prelude::*;
use crate::bits::{lemma_byte_bits, lemma_word_bits};
use crate::apu::{audio_advanced, Apu, SampleMix};
use crate::cartridge::Cartridge;
use crate::error::{EmulatorError, Result};
use crate::joypad::{JoypadState, action_nibble_of, direction_nibble_of};
use crate::memory::MemoryRegion;
use crate::ppu::{stat_raised, Ppu, PpuMode};
use crate::serial::Serial;

verus! {

pub const VRAM_START: u16 = 0x8000;
pub const VRAM_END: u16 = 0x9FFF;
pub const ERAM_START: u16 = 0xA000;
pub const ERAM_END: u16 = 0xBFFF;
pub const WRAM_START: u16 = 0xC000;
pub const WRAM_END: u16 = 0xDFFF;
pub const ECHO_RAM_START: u16 = 0xE000;
pub const ECHO_RAM_END: u16 = 0xFDFF;
pub const OAM_START: u16 = 0xFE00;
pub const OAM_END: u16 = 0xFE9F;
pub const UNUSABLE_START: u16 = 0xFEA0;
pub const UNUSABLE_END: u16 = 0xFEFF;
pub const IO_START: u16 = 0xFF00;
pub const IO_END: u16 = 0xFF7F;
pub const JOYPAD: u16 = 0xFF00;
pub const SERIAL_DATA: u16 = 0xFF01;
pub const SERIAL_CONTROL: u16 = 0xFF02;
pub const DIV: u16 = 0xFF04;
pub const TIMA: u16 = 0xFF05;
pub const TMA: u16 = 0xFF06;
pub const TAC: u16 = 0xFF07;
pub const INTERRUPT_FLAG: u16 = 0xFF0F;
pub const NR14: u16 = 0xFF14;
pub const NR24: u16 = 0xFF19;
pub const NR52: u16 = 0xFF26;
pub const DMA: u16 = 0xFF46;
pub const KEY1: u16 = 0xFF4D;
pub const HRAM_START: u16 = 0xFF80;
pub const HRAM_END: u16 = 0xFFFE;
pub const INTERRUPT_ENABLE: u16 = 0xFFFF;
pub const OAM_DMA_BYTES: u16 = 0xA0;
pub const OAM_DMA_STARTUP_CYCLES: u32 = 4;
pub const OAM_DMA_BYTE_CYCLES: u32 = 4;

pub const INTERRUPT_VBLANK: u8 = 0;
pub const INTERRUPT_LCD_STAT: u8 = 1;
pub const INTERRUPT_TIMER: u8 = 2;
pub const INTERRUPT_SERIAL: u8 = 3;
pub const INTERRUPT_JOYPAD: u8 = 4;

/// The largest number of cycles one call of `Bus::advance_cycles` takes.
pub const MAX_ADVANCE_CYCLES: u32 = 0xFFB0_0000;

/// The TIMA increment period, in CPU cycles, that TAC bits 0-1 select.
pub open spec fn timer_period_of(tac: u8) -> u32 {
    let bits = tac & 0x03;
    if bits == 0 {
        1024
    } else if bits == 1 {
        16
    } else if bits == 2 {
        64
    } else {
        256
    }
}

pub fn timer_period(tac: u8) -> (period: u32)
    ensures
        period == timer_period_of(tac),
{
    match tac & 0x03 {
        0 => 1024,
        1 => 16,
        2 => 64,
        _ => 256,
    }
}

/// TIMA and whether it overflowed after `n` increments from `tima`, where
/// an overflow reloads it from TMA.
pub open spec fn tima_after(tima: u8, tma: u8, n: nat) -> (u8, bool)
    decreases n,
{
    if n == 0 {
        (tima, false)
    } else {
        let (t, overflowed) = tima_after(tima, tma, (n - 1) as nat);
        if t == 255 {
            (tma, true)
        } else {
            ((t + 1) as u8, overflowed)
        }
    }
}

/// The joypad register: bits 6-7 set, the selection bits, and the
/// active-low buttons of each selected group.
pub open spec fn joypad_register(select: u8, state: JoypadState) -> u8 {
    let directions = if select & 0x10 == 0 {
        direction_nibble_of(state)
    } else {
        0x0F
    };
    let actions = if select & 0x20 == 0 {
        action_nibble_of(state)
    } else {
        0x0F
    };
    0xC0 | select | (0x0F & directions & actions)
}

/// The divider and timer registers.
#[derive(Debug, Clone, Copy, Default, PartialEq, Eq, Structural)]
pub struct Timer {
    pub div: u8,
    pub div_cycles: u32,
    pub tima: u8,
    pub tma: u8,
    pub tac: u8,
    pub tima_cycles: u32,
}

impl Timer {
    /// Letting `cycles` pass overflows TIMA at least once.
    pub open spec fn overflows_within(self, cycles: u32) -> bool {
        self.tac & 0x04 != 0 && tima_after(
            self.tima,
            self.tma,
            ((self.tima_cycles + cycles) / timer_period_of(self.tac) as int) as nat,
        ).1
    }

    /// `next` is this timer after `cycles` cycles, with IF then `flags`.
    pub open spec fn timer_after(self, next: Timer, cycles: u32, flags: u8) -> bool {
        &&& next.div_cycles == (self.div_cycles + cycles) % 256
        &&& next.div == (self.div + (self.div_cycles + cycles) / 256) % 256
        &&& next.tma == self.tma
        &&& next.tac == self.tac
        &&& self.tac & 0x04 == 0 ==> next.tima == self.tima && next.tima_cycles == self.tima_cycles
        &&& self.tac & 0x04 != 0 ==> {
            let total = self.tima_cycles + cycles;
            let period = timer_period_of(self.tac) as int;
            &&& next.tima_cycles == total % period
            &&& next.tima == tima_after(self.tima, self.tma, (total / period) as nat).0
        }
        &&& self.overflows_within(cycles) ==> flags & 0x04 != 0
    }
}

/// The joypad selection bits and the buttons held.
#[derive(Debug, Clone, Copy, PartialEq, Eq, Structural)]
pub struct Joypad {
    pub select: u8,
    pub state: JoypadState,
}

/// Colour-mode speed switching.
#[derive(Debug, Clone, Copy, Default, PartialEq, Eq, Structural)]
pub struct CgbState {
    pub enabled: bool,
    pub double_speed: bool,
    pub prepare_speed_switch: bool,
}

/// The sound status that NR52 reports for the first two channels.
#[derive(Debug, Clone, Copy, Default, PartialEq, Eq, Structural)]
pub struct ApuStub {
    pub powered: bool,
    pub channel1_active: bool,
    pub channel1_cycles: u32,
    pub channel2_active: bool,
    pub channel2_cycles: u32,
}

/// An object-memory DMA transfer in progress.
#[derive(Debug, Clone, Copy, Default, PartialEq, Eq, Structural)]
pub struct DmaState {
    pub source_high: u8,
    pub active: bool,
    pub startup_cycles: u32,
    pub byte_cycles: u32,
    pub offset: u16,
}

impl Joypad {
    pub fn new() -> (joypad: Self)
        ensures
            joypad.select == 0x30,
            forall|b: crate::joypad::JoypadButton| !joypad.state.pressed(b),
    {
        Joypad { select: 0x30, state: JoypadState::new() }
    }

    pub fn read(&self) -> (value: u8)
        ensures
            value == joypad_register(self.select, self.state),
    {
        let directions = if self.select & 0x10 == 0 {
            self.state.direction_nibble()
        } else {
            0x0F
        };
        let actions = if self.select & 0x20 == 0 {
            self.state.action_nibble()
        } else {
            0x0F
        };
        0xC0 | self.select | (0x0F & directions & actions)
    }

    /// Keeps only the two selection bits.
    pub fn write(&mut self, value: u8)
        ensures
            final(self).select == value & 0x30,
            final(self).state == old(self).state,
    {
        self.select = value & 0x30;
    }

    pub fn set_state(&mut self, state: JoypadState)
        ensures
            final(self).state == state,
            final(self).select == old(self).select,
    {
        self.state = state;
    }

    pub fn state(&self) -> (state: JoypadState)
        ensures
            state == self.state,
    {
        self.state
    }
}

impl CgbState {
    /// KEY1: 0xFF outside colour mode; otherwise bit 7 the current speed,
    /// bit 0 a pending switch, the rest set.
    pub fn read_key1(&self) -> (value: u8)
        ensures
            value == (if !self.enabled {
                0xFF
            } else {
                0x7E | (if self.double_speed { 0x80u8 } else { 0u8 }) | (if self.prepare_speed_switch {
                    1u8
                } else {
                    0u8
                })
            }),
    {
        if !self.enabled {
            return 0xFF;
        }
        let speed: u8 = if self.double_speed { 0x80 } else { 0 };
        let prepare: u8 = if self.prepare_speed_switch { 1 } else { 0 };
        0x7E | speed | prepare
    }

    /// In colour mode, bit 0 arms a speed switch.
    pub fn write_key1(&mut self, value: u8)
        ensures
            final(self).enabled == old(self).enabled,
            final(self).double_speed == old(self).double_speed,
            final(self).prepare_speed_switch == (if old(self).enabled {
                value & 0x01 != 0
            } else {
                old(self).prepare_speed_switch
            }),
    {
        if self.enabled {
            self.prepare_speed_switch = value & 0x01 != 0;
        }
    }
}

/// Counts down a channel's remaining cycles, switching it off at zero.
pub fn advance_channel(active: &mut bool, cycles_left: &mut u32, cycles: u32)
    ensures
        !*old(active) ==> *final(active) == *old(active) && *final(cycles_left) == *old(cycles_left),
        *old(active) ==> *final(cycles_left) == (if *old(cycles_left) >= cycles {
            *old(cycles_left) - cycles
        } else {
            0
        }) && *final(active) == (*final(cycles_left) != 0),
{
    if !*active {
        return;
    }
    *cycles_left = cycles_left.saturating_sub(cycles);
    if *cycles_left == 0 {
        *active = false;
    }
}

impl ApuStub {
    pub fn advance_cycles(&mut self, cycles: u32)
        ensures
            final(self).powered == old(self).powered,
            old(self).channel1_active ==> final(self).channel1_cycles == (if old(self).channel1_cycles
                >= cycles {
                old(self).channel1_cycles - cycles
            } else {
                0
            }) && final(self).channel1_active == (final(self).channel1_cycles != 0),
            !old(self).channel1_active ==> !final(self).channel1_active,
            old(self).channel2_active ==> final(self).channel2_cycles == (if old(self).channel2_cycles
                >= cycles {
                old(self).channel2_cycles - cycles
            } else {
                0
            }) && final(self).channel2_active == (final(self).channel2_cycles != 0),
            !old(self).channel2_active ==> !final(self).channel2_active,
    {
        advance_channel(&mut self.channel1_active, &mut self.channel1_cycles, cycles);
        advance_channel(&mut self.channel2_active, &mut self.channel2_cycles, cycles);
    }

    /// NR52 as this status sees it: 0 while off; otherwise bit 7 and the
    /// two channel bits.
    pub fn read_nr52(&self) -> (value: u8)
        ensures
            value == (if !self.powered {
                0
            } else {
                0x80 | (if self.channel1_active { 1u8 } else { 0u8 }) | (if self.channel2_active {
                    2u8
                } else {
                    0u8
                })
            }),
    {
        if !self.powered {
            return 0;
        }
        let c1: u8 = if self.channel1_active { 1 } else { 0 };
        let c2: u8 = if self.channel2_active { 2 } else { 0 };
        0x80 | c1 | c2
    }

    /// A trigger of channel 1 while powered starts it for a fixed time.
    pub fn write_nr14(&mut self, value: u8, double_speed: bool)
        ensures
            old(self).powered && value & 0x80 != 0 ==> final(self).channel1_active && final(self).channel1_cycles == (if double_speed { 32_000u32 } else { 12_000u32 }),
            !(old(self).powered && value & 0x80 != 0) ==> *final(self) == *old(self),
            final(self).powered == old(self).powered,
            final(self).channel2_active == old(self).channel2_active,
            final(self).channel2_cycles == old(self).channel2_cycles,
    {
        if self.powered && value & 0x80 != 0 {
            self.channel1_active = true;
            self.channel1_cycles = if double_speed { 32_000 } else { 12_000 };
        }
    }

    /// A trigger of channel 2 while powered starts it for a fixed time.
    pub fn write_nr24(&mut self, value: u8)
        ensures
            old(self).powered && value & 0x80 != 0 ==> final(self).channel2_active && final(self).channel2_cycles == 2048,
            !(old(self).powered && value & 0x80 != 0) ==> *final(self) == *old(self),
            final(self).powered == old(self).powered,
            final(self).channel1_active == old(self).channel1_active,
            final(self).channel1_cycles == old(self).channel1_cycles,
    {
        if self.powered && value & 0x80 != 0 {
            self.channel2_active = true;
            self.channel2_cycles = 2_048;
        }
    }

    /// Bit 7 powers the sound on or off; off silences both channels.
    pub fn write_nr52(&mut self, value: u8)
        ensures
            final(self).powered == (value & 0x80 != 0),
            value & 0x80 == 0 ==> !final(self).channel1_active && !final(self).channel2_active
                && final(self).channel1_cycles == 0 && final(self).channel2_cycles == 0,
            value & 0x80 != 0 ==> final(self).channel1_active == old(self).channel1_active && final(self).channel2_active == old(self).channel2_active && final(self).channel1_cycles == old(self).channel1_cycles && final(self).channel2_cycles == old(self).channel2_cycles,
    {
        self.powered = value & 0x80 != 0;
        if !self.powered {
            self.channel1_active = false;
            self.channel1_cycles = 0;
            self.channel2_active = false;
            self.channel2_cycles = 0;
        }
    }
}

/// The memory bus: routes CPU reads and writes to the cartridge, the RAMs,
/// the PPU and the I/O registers, and runs the timer, DMA, serial and
/// sound status alongside the CPU.
#[derive(Debug, Clone, PartialEq, Eq)]
pub struct Bus {
    cartridge: Option<Cartridge>,
    wram: MemoryRegion<0x2000>,
    io: MemoryRegion<0x80>,
    hram: MemoryRegion<0x7F>,
    interrupt_enable: u8,
    timer: Timer,
    joypad: Joypad,
    serial: Serial,
    cgb: CgbState,
    apu: ApuStub,
    audio: Apu,
    dma: DmaState,
    ppu: Ppu,
}

impl Default for Bus {
    fn default() -> (bus: Self)
        ensures
            bus.inv(),
            bus.spec_cartridge() is None,
            !bus.spec_dma().active,
            bus.spec_ie() == 0,
            bus.interrupt_flag_bits() == 0,
            bus.spec_wram() == Seq::new(0x2000, |i: int| 0u8),
            bus.spec_hram() == Seq::new(0x7F, |i: int| 0u8),
            bus.spec_io() == Seq::new(0x80, |i: int| 0u8),
            bus.spec_timer() == (Timer { div: 0, div_cycles: 0, tima: 0, tma: 0, tac: 0, tima_cycles: 0 }),
            bus.spec_joypad().select == 0x30,
            !bus.spec_cgb().enabled,
            bus.spec_ppu().spec_mode() == PpuMode::OamScan,
            bus.spec_ppu().spec_ly() == 0,
            bus.spec_ppu().spec_lcdc() == 0x91,
            bus.spec_serial().spec_output() == Seq::<u8>::empty(),
            fresh_bus(bus),
    {
        Bus::new()
    }
}

/// The DMA unit after `cycles` more cycles: the start-up delay runs down
/// first, then one byte moves every `OAM_DMA_BYTE_CYCLES` cycles until all
/// `OAM_DMA_BYTES` have, which ends the transfer.
pub open spec fn dma_after(dma: DmaState, cycles: u32) -> DmaState {
    if !dma.active {
        dma
    } else {
        let waited: int = if dma.startup_cycles < cycles {
            dma.startup_cycles as int
        } else {
            cycles as int
        };
        let startup = dma.startup_cycles - waited;
        let budget = dma.byte_cycles + (cycles - waited);
        let left = OAM_DMA_BYTES - dma.offset;
        let moved: int = if startup > 0 {
            0
        } else if budget / (OAM_DMA_BYTE_CYCLES as int) < left {
            budget / (OAM_DMA_BYTE_CYCLES as int)
        } else {
            left
        };
        let offset = dma.offset + moved;
        let active = offset < OAM_DMA_BYTES;
        DmaState {
            startup_cycles: startup as u32,
            offset: offset as u16,
            active,
            byte_cycles: if active {
                (budget - moved * (OAM_DMA_BYTE_CYCLES as int)) as u32
            } else {
                0
            },
            ..dma
        }
    }
}

/// The address the transfer from page `high` reads byte `i` from.
pub open spec fn dma_source_of(high: u8, i: int) -> u16 {
    (high as int * 256 + i) as u16
}

/// Object memory after the DMA transfer `dma` moved its bytes up to
/// `offset`, each byte read as `bus` reads for the DMA unit.
pub open spec fn dma_filled(bus: Bus, oam: Seq<u8>, dma: DmaState, offset: int, next: Seq<u8>) -> bool {
    &&& next.len() == oam.len()
    &&& forall|i: int|
        0 <= i < oam.len() ==> #[trigger] next[i] == (if dma.offset <= i < offset {
            bus.dma_read_spec(dma_source_of(dma.source_high, i))
        } else {
            oam[i]
        })
}

proof fn lemma_dma_filled_step(bus: Bus, oam: Seq<u8>, dma: DmaState, offset: int, cur: Seq<u8>, next: Seq<u8>)
    requires
        dma_filled(bus, oam, dma, offset, cur),
        dma.offset <= offset < oam.len(),
        next == cur.update(offset, bus.dma_read_spec(dma_source_of(dma.source_high, offset))),
    ensures
        dma_filled(bus, oam, dma, offset + 1, next),
{
    assert forall|i: int| 0 <= i < oam.len() implies #[trigger] next[i] == (if dma.offset <= i < offset + 1 {
        bus.dma_read_spec(dma_source_of(dma.source_high, i))
    } else {
        oam[i]
    }) by {
        if i != offset {
            assert(next[i] == cur[i]);
        }
    }
}

/// DMA sources outside cartridge RAM whose reads the passing of time
/// leaves alone: ROM, video RAM and work RAM.
pub open spec fn dma_source_kept(high: u8) -> bool {
    high <= 0x9F || 0xC0 <= high <= 0xDF
}

proof fn lemma_dma_filled_transfer(b0: Bus, b1: Bus, oam: Seq<u8>, dma: DmaState, offset: int, next: Seq<u8>)
    requires
        dma_filled(b1, oam, dma, offset, next),
        dma_source_kept(dma.source_high),
        offset <= OAM_DMA_BYTES,
        b1.wram == b0.wram,
        b1.ppu == b0.ppu,
        b0.cartridge is None <==> b1.cartridge is None,
        b0.cartridge matches Some(c0) ==> (b1.cartridge matches Some(c1) && c1.ram_read_view_equal(c0)),
    ensures
        dma_filled(b0, oam, dma, offset, next),
{
    assert forall|i: int| 0 <= i < oam.len() implies #[trigger] next[i] == (if dma.offset <= i < offset {
        b0.dma_read_spec(dma_source_of(dma.source_high, i))
    } else {
        oam[i]
    }) by {
        if dma.offset <= i < offset {
            let a = dma_source_of(dma.source_high, i);
            assert(a <= 0x9FFF || (0xC000 <= a <= 0xDFFF));
            assert(b1.dma_read_spec(a) == b0.dma_read_spec(a));
        }
    }
}

proof fn lemma_dma_source(high: u8, offset: u16)
    requires
        offset < OAM_DMA_BYTES,
        high <= 0xDF,
    ensures
        ((high as u16) << 8u16).wrapping_add(offset) == dma_source_of(high, offset as int),
        dma_source_of(high, offset as int) <= 0xDFFF,
{
    assert(((high as u16) << 8u16) == high as u16 * 256) by (bit_vector)
        requires
            high <= 0xDF,
    ;
}

/// The bus as it is at power-on: no cartridge, zeroed memory and I/O
/// bytes, no interrupt enabled or requested, the timer stopped at zero, no
/// DMA, DMG mode, the sound unit off and empty, and the PPU at the start of
/// line 0 in OAM scan with the display on and a blank 160x144 picture.
pub open spec fn fresh_bus(b: Bus) -> bool {
    &&& b.inv()
    &&& b.spec_cartridge() is None
    &&& b.spec_dma() == (DmaState { source_high: 0, active: false, startup_cycles: 0, byte_cycles: 0, offset: 0 })
    &&& b.spec_ie() == 0
    &&& b.interrupt_flag_bits() == 0
    &&& b.spec_wram() == Seq::new(0x2000, |i: int| 0u8)
    &&& b.spec_hram() == Seq::new(0x7F, |i: int| 0u8)
    &&& b.spec_io() == Seq::new(0x80, |i: int| 0u8)
    &&& b.spec_timer() == (Timer { div: 0, div_cycles: 0, tima: 0, tma: 0, tac: 0, tima_cycles: 0 })
    &&& b.spec_joypad().select == 0x30
    &&& b.spec_cgb() == (CgbState { enabled: false, double_speed: false, prepare_speed_switch: false })
    &&& b.spec_serial().spec_output() == Seq::<u8>::empty()
    &&& !b.spec_audio().spec_powered()
    &&& b.spec_audio().spec_samples() == Seq::<SampleMix>::empty()
    &&& b.spec_audio().spec_sample_cycles() == 0
    &&& b.spec_audio().spec_frame_cycles() == 0
    &&& b.spec_ppu().spec_mode() == PpuMode::OamScan
    &&& b.spec_ppu().spec_ly() == 0
    &&& b.spec_ppu().spec_line_dots() == 0
    &&& b.spec_ppu().spec_lcdc() == 0x91
    &&& b.spec_ppu().spec_stat() == 0x85
    &&& b.spec_ppu().spec_lyc() == 0
    &&& !b.spec_ppu().spec_frame_ready()
    &&& !b.spec_ppu().spec_cgb()
    &&& b.spec_ppu().spec_framebuffer().len() == 160 * 144
}

/// What a CPU write of `value` to `address` does to the bus, with
/// `result`, as `Bus::write_byte` states it.
pub open spec fn bus_write(before: Bus, after: Bus, address: u16, value: u8, result: Result<()>) -> bool {
    &&& result is Err <==> before.write_fails(address)
    &&& result is Err ==> result == Err::<(), EmulatorError>(EmulatorError::InvalidMemoryAccess { address })
        && after == before
    &&& before.dma_blocks(address) ==> after == before
    &&& !before.dma_blocks(address) && WRAM_START <= address <= ECHO_RAM_END ==> {
        let offset = if address <= WRAM_END {
            address - WRAM_START
        } else {
            address - ECHO_RAM_START
        };
        &&& after.spec_wram() == before.spec_wram().update(offset, value)
        &&& after.same_but_wram(&before)
    }
    &&& HRAM_START <= address <= HRAM_END ==> after.spec_hram() == before.spec_hram().update(
        address - HRAM_START,
        value,
    ) && after.same_but_hram(&before)
    &&& !before.dma_blocks(address) && address == INTERRUPT_ENABLE ==> after.spec_ie() == value
        && after.same_but_ie(&before)
    &&& !before.dma_blocks(address) && address <= 0x7FFF && before.spec_cartridge() is Some ==> {
        let c0 = before.spec_cartridge()->Some_0;
        let c1 = after.spec_cartridge()->Some_0;
        &&& after.spec_cartridge() is Some
        &&& c1.spec_mapper() == c0.spec_mapper().after_rom_write(address, value)
        &&& c1.spec_rom() == c0.spec_rom()
        &&& c1.spec_ram() == c0.spec_ram()
        &&& c1.spec_header() == c0.spec_header()
        &&& after.same_but_cartridge(&before)
    }
    &&& !before.dma_blocks(address) && ERAM_START <= address <= ERAM_END && before.spec_cartridge() is Some ==> {
        let c0 = before.spec_cartridge()->Some_0;
        let c1 = after.spec_cartridge()->Some_0;
        let a = (address - ERAM_START) as u16;
        &&& after.spec_cartridge() is Some
        &&& (c0.ram_write_offset(a) matches Some(i) ==> c1.spec_ram() == c0.spec_ram().update(i, value))
        &&& (c0.ram_write_offset(a) is None ==> c1.spec_ram() == c0.spec_ram())
        &&& (!c0.ram_write_hits_rtc() ==> c1.spec_mapper() == c0.spec_mapper())
        &&& c1.spec_rom() == c0.spec_rom()
        &&& c1.spec_header() == c0.spec_header()
        &&& after.same_but_cartridge(&before)
    }
    &&& !before.dma_blocks(address) && VRAM_START <= address <= VRAM_END ==> {
        let p0 = before.spec_ppu();
        let p1 = after.spec_ppu();
        &&& p1.spec_mode() == p0.spec_mode()
        &&& p1.spec_lcdc() == p0.spec_lcdc()
        &&& p1.spec_vbk() == p0.spec_vbk()
        &&& !p0.vram_blocked() ==> p1.spec_vram(p0.spec_vbk() as int) == p0.spec_vram(
            p0.spec_vbk() as int,
        ).update(address - VRAM_START, value)
    }
    &&& !before.dma_blocks(address) && OAM_START <= address <= OAM_END ==> {
        let p0 = before.spec_ppu();
        let p1 = after.spec_ppu();
        &&& p1.spec_mode() == p0.spec_mode()
        &&& p1.spec_lcdc() == p0.spec_lcdc()
        &&& !p0.oam_blocked() ==> p1.spec_oam() == p0.spec_oam().update(address - OAM_START, value)
    }
    &&& after.write_frame(&before, address)
    &&& !before.dma_blocks(address) && address == DIV ==> after.spec_timer() == (Timer {
        div: 0,
        div_cycles: 0,
        ..before.spec_timer()
    })
    &&& !before.dma_blocks(address) && address == TIMA ==> after.spec_timer() == (Timer {
        tima: value,
        ..before.spec_timer()
    })
    &&& !before.dma_blocks(address) && address == TMA ==> after.spec_timer() == (Timer {
        tma: value,
        ..before.spec_timer()
    })
    &&& !before.dma_blocks(address) && address == TAC ==> after.spec_timer() == (Timer {
        tac: value & 0x07,
        tima_cycles: 0,
        ..before.spec_timer()
    })
    &&& !before.dma_blocks(address) && address == INTERRUPT_FLAG ==> after.interrupt_flag_bits()
        == value & 0x1F
    &&& !before.dma_blocks(address) && address == DMA ==> after.spec_dma() == (DmaState {
        source_high: value,
        active: true,
        startup_cycles: OAM_DMA_STARTUP_CYCLES,
        byte_cycles: 0,
        offset: 0,
    })
    &&& !before.dma_blocks(address) && address != DMA ==> after.spec_dma() == before.spec_dma()
    &&& !before.dma_blocks(address) && Bus::io_plain(address) ==> after.spec_io()
        == before.spec_io().update(io_offset(address), value)
    &&& !before.dma_blocks(address) && address == JOYPAD ==> after.spec_joypad().select
        == value & 0x30 && after.spec_joypad().state == before.spec_joypad().state
    &&& !before.dma_blocks(address) && address == SERIAL_DATA ==> {
        &&& after.spec_serial().spec_data() == value
        &&& after.spec_serial().spec_control() == before.spec_serial().spec_control()
        &&& after.spec_serial().spec_output() == before.spec_serial().spec_output()
    }
    &&& !before.dma_blocks(address) && address == SERIAL_CONTROL ==> {
        let s0 = before.spec_serial();
        let s1 = after.spec_serial();
        &&& s1.spec_data() == s0.spec_data()
        &&& value & 0x81 == 0x81 ==> s1.spec_control() == 0x01 && s1.spec_output()
            == s0.spec_output().push(s0.spec_data()) && after.interrupt_flag_bits()
            == (before.interrupt_flag_bits() | (1u8 << INTERRUPT_SERIAL)) & 0x1F
        &&& value & 0x81 != 0x81 ==> s1.spec_control() == value & 0x81 && s1.spec_output()
            == s0.spec_output() && after.spec_io() == before.spec_io()
    }
    &&& !before.dma_blocks(address) && address == KEY1 ==> {
        let c0 = before.spec_cgb();
        let c1 = after.spec_cgb();
        &&& c1.enabled == c0.enabled && c1.double_speed == c0.double_speed
        &&& c1.prepare_speed_switch == (if c0.enabled {
            value & 0x01 != 0
        } else {
            c0.prepare_speed_switch
        })
    }
    &&& !before.dma_blocks(address) && address == NR52 ==> {
        let a1 = after.spec_apu_stub();
        &&& a1.powered == (value & 0x80 != 0)
        &&& value & 0x80 == 0 ==> !a1.channel1_active && !a1.channel2_active
    }
    &&& !before.dma_blocks(address) && address == NR14 && before.spec_apu_stub().powered
        && value & 0x80 != 0 ==> after.spec_apu_stub().channel1_active
    &&& !before.dma_blocks(address) && address == NR24 && before.spec_apu_stub().powered
        && value & 0x80 != 0 ==> after.spec_apu_stub().channel2_active
    &&& !before.dma_blocks(address) && Ppu::is_plain_register(address)
        ==> after.spec_ppu().register_read(address) == Some(value)
    &&& !before.dma_blocks(address) && address == 0xFF40 ==> after.spec_ppu().spec_lcdc() == value
    &&& !before.dma_blocks(address) && address == 0xFF45 ==> after.spec_ppu().spec_lyc() == value
    &&& after.cycle_room() == before.cycle_room()
    &&& after.spec_cartridge() is None <==> before.spec_cartridge() is None
    &&& !before.dma_blocks(address) && Bus::ram_address(address) ==> ram_written(
        before,
        after,
        address,
        value,
    )
    &&& !before.dma_blocks(address) && Bus::ram_address(address) ==> {
        &&& after.read_spec(address) == Ok::<u8, EmulatorError>(value)
        &&& after.spec_dma() == before.spec_dma()
        &&& forall|other: u16|
            Bus::stable_address(other) && !(Bus::ram_address(other) && Bus::ram_cell(other)
                == Bus::ram_cell(address)) ==> #[trigger] after.read_spec(other)
                == before.read_spec(other)
    }
}

/// What letting `cycles` pass does to the bus, as `Bus::advance_cycles`
/// states it: the DMA moves on and copies, the timer and the PPU advance
/// and add exactly the interrupt requests they raise, and the memory and
/// registers the CPU owns keep their values.
pub open spec fn clock_advanced(before: Bus, after: Bus, cycles: u32) -> bool {
    &&& after.spec_dma() == dma_after(before.spec_dma(), cycles)
    &&& before.spec_dma().active && dma_source_kept(before.spec_dma().source_high) ==> dma_filled(
        before,
        before.spec_ppu().spec_oam(),
        before.spec_dma(),
        dma_after(before.spec_dma(), cycles).offset as int,
        after.spec_ppu().spec_oam(),
        )
    &&& after.spec_wram() == before.spec_wram()
    &&& after.spec_hram() == before.spec_hram()
    &&& after.spec_ie() == before.spec_ie()
    &&& after.spec_joypad() == before.spec_joypad()
    &&& after.spec_serial() == before.spec_serial()
    &&& after.spec_cgb() == before.spec_cgb()
    &&& after.spec_io() == before.spec_io().update(0x0F, after.interrupt_flag_bits())
    &&& after.interrupt_flag_bits() & before.interrupt_flag_bits() == before.interrupt_flag_bits()
    &&& after.interrupt_flag_bits() & 0x18 == before.interrupt_flag_bits() & 0x18
    &&& before.spec_timer().timer_after(after.spec_timer(), cycles, after.interrupt_flag_bits())
    &&& !before.spec_ppu().lcd_on() && before.interrupt_flag_bits() & 0x04 == 0
        && !before.spec_timer().overflows_within(cycles) ==> after.interrupt_flag_bits() == before.interrupt_flag_bits()
    &&& before.spec_ppu().timing_after(after.spec_ppu(), cycles, before.spec_ppu().enters_vblank(cycles))
    &&& before.spec_ppu().enters_vblank(cycles) ==> after.interrupt_flag_bits() & 0x01 != 0
    &&& after.spec_ppu().spec_vram(0) == before.spec_ppu().spec_vram(0)
    &&& after.spec_ppu().spec_vram(1) == before.spec_ppu().spec_vram(1)
    &&& !before.spec_dma().active ==> after.spec_dma() == before.spec_dma()
        && after.spec_ppu().spec_oam() == before.spec_ppu().spec_oam()
    &&& !before.spec_dma().active && before.spec_ppu().lcd_on() ==> after.spec_ppu().picture()
        == before.spec_ppu().picture_after(((before.spec_ppu().spec_line_dots() + cycles)
        / (crate::ppu::DOTS_PER_LINE as int)) as nat)
    &&& before.spec_cartridge() is None <==> after.spec_cartridge() is None
    &&& before.spec_cartridge() matches Some(c0) ==> (after.spec_cartridge() matches Some(c1)
        && c1.ram_read_view_equal(c0))
    &&& after.cycle_room() == before.cycle_room() || after.cycle_room() > u32::MAX
        - crate::cartridge::rtc::RTC_CYCLES_PER_SECOND
    &&& after.keeps_stable_reads(&before)
    &&& audio_advanced(before.spec_audio(), after.spec_audio(), cycles)
    &&& exists|stat: bool|
        {
            &&& after.interrupt_flag_bits() == before.interrupt_flag_bits() | (if before.spec_timer().overflows_within(cycles) {
                4u8
            } else {
                0u8
            }) | (if before.spec_ppu().enters_vblank(cycles) {
                1u8
            } else {
                0u8
            }) | (if stat {
                2u8
            } else {
                0u8
            })
            &&& #[trigger] stat_raised_by(before.spec_ppu(), after.spec_ppu(), cycles, stat)
        }
}

/// A CPU write of `value` to RAM address `address` took `before` to
/// `after`: the work-RAM or high-RAM byte it names now holds `value`, and
/// nothing else changed.
pub open spec fn ram_written(before: Bus, after: Bus, address: u16, value: u8) -> bool {
    &&& after.spec_dma() == before.spec_dma()
    &&& WRAM_START <= address <= ECHO_RAM_END ==> {
        let offset = if address <= WRAM_END {
            address - WRAM_START
        } else {
            address - ECHO_RAM_START
        };
        &&& after.spec_wram() == before.spec_wram().update(offset, value)
        &&& after.same_but_wram(&before)
    }
    &&& HRAM_START <= address <= HRAM_END ==> {
        &&& after.spec_hram() == before.spec_hram().update(address - HRAM_START, value)
        &&& after.same_but_hram(&before)
    }
}

/// IF bit `bit` was cleared from `before` to `after`, and nothing else
/// changed.
pub open spec fn interrupt_cleared(before: Bus, after: Bus, bit: u8) -> bool {
    &&& after.interrupt_flag_bits() == (before.interrupt_flag_bits() & !(1u8 << bit)) & 0x1F
    &&& after.spec_io() == before.spec_io().update(0x0F, after.interrupt_flag_bits())
    &&& after.same_but_io(&before)
}

proof fn lemma_request_clear_bits(flags: u8, bit: u8)
    by (bit_vector)
    requires
        bit < 5,
        flags & 0xE0 == 0,
        flags & (1u8 << bit) == 0,
    ensures
        (((flags | (1u8 << bit)) & 0x1F) & !(1u8 << bit)) & 0x1F == flags,
{
}

/// Clearing an interrupt request undoes requesting it: from a bus whose
/// request bit `bit` is clear, `request_interrupt(bit)` then
/// `clear_interrupt(bit)` (as their contracts state them) leave IF, the I/O
/// bytes and the pending interrupts as they were.
pub proof fn lemma_clear_undoes_request(b0: Bus, b1: Bus, b2: Bus, bit: u8)
    requires
        bit < 5,
        b0.inv_but_timer(),
        b0.interrupt_flag_bits() & (1u8 << bit) == 0,
        b1.interrupt_flag_bits() == (b0.interrupt_flag_bits() | (1u8 << bit)) & 0x1F,
        b1.spec_io() == b0.spec_io().update(0x0F, (b0.interrupt_flag_bits() | (1u8 << bit)) & 0x1F),
        b1.same_but_io(&b0),
        interrupt_cleared(b1, b2, bit),
    ensures
        b2.interrupt_flag_bits() == b0.interrupt_flag_bits(),
        b2.spec_io() == b0.spec_io(),
        b2.pending() == b0.pending(),
{
    let f = b0.interrupt_flag_bits();
    let stored = b0.spec_io()[0x0F];
    assert(f & 0xE0 == 0 && stored == f) by (bit_vector)
        requires
            f == stored & 0x1F,
            stored & 0xE0 == 0,
    ;
    lemma_request_clear_bits(f, bit);
    assert(b2.spec_io() =~= b0.spec_io());
}

/// `stat` is whether letting `cycles` pass took the PPU from `before` to
/// `after` with a STAT interrupt raised.
pub open spec fn stat_raised_by(before: Ppu, after: Ppu, cycles: u32, stat: bool) -> bool {
    stat == stat_raised(before, after, cycles)
}

/// Turns an optional byte into a read result.
pub open spec fn read_result(value: Option<u8>, address: u16) -> Result<u8> {
    match value {
        Some(v) => Ok(v),
        None => Err(EmulatorError::InvalidMemoryAccess { address }),
    }
}

proof fn lemma_flag_byte(x: u8)
    requires
        x & 0xE0 == 0,
    ensures
        x & 0x1F == x,
        (x & 0x1F) & x == x,
        x & 0x1B == x & 0x1B,
{
    assert(x & 0x1F == x && (x & 0x1F) & x == x) by (bit_vector)
        requires
            x & 0xE0 == 0,
    ;
}

proof fn lemma_flag_raise(f0: u8, bit: u8, f1: u8)
    requires
        bit <= 1,
        f0 & 0xE0 == 0,
        f1 == (f0 | (1u8 << bit)) & 0x1F,
    ensures
        f1 & f0 == f0,
        f1 & 0x1C == f0 & 0x1C,
        f1 & 0xE0 == 0,
        f1 & (1u8 << bit) != 0,
{
    assert(f1 & f0 == f0 && f1 & 0x1C == f0 & 0x1C && f1 & 0xE0 == 0 && f1 & (1u8 << bit) != 0)
        by (bit_vector)
        requires
            bit <= 1,
            f0 & 0xE0 == 0,
            f1 == (f0 | (1u8 << bit)) & 0x1F,
    ;
}

proof fn lemma_flag_grow(a: u8, b: u8, c: u8)
    requires
        b & a == a,
        c & b == b,
        b & 0x1C == a & 0x1C,
        c & 0x1C == b & 0x1C,
    ensures
        c & a == a,
        c & 0x1C == a & 0x1C,
{
    assert(c & a == a) by (bit_vector)
        requires
            b & a == a,
            c & b == b,
    ;
}

proof fn lemma_flag_bit0_kept(b: u8, c: u8)
    requires
        b & 0x01 != 0,
        c & b == b,
    ensures
        c & 0x01 != 0,
{
    assert(c & 0x01 != 0) by (bit_vector)
        requires
            b & 0x01 != 0,
            c & b == b,
    ;
}

proof fn lemma_flags_timer_exact(f0: u8, ft: u8, overflow: bool)
    requires
        f0 & 0xE0 == 0,
        ft & 0xE0 == 0,
        overflow ==> ft & f0 == f0 && ft & 0x1B == f0 & 0x1B && ft & 0x04 != 0,
        !overflow ==> ft == f0,
    ensures
        ft == f0 | (if overflow { 4u8 } else { 0u8 }),
{
    assert(ft == f0 | (if overflow { 4u8 } else { 0u8 })) by (bit_vector)
        requires
            f0 & 0xE0 == 0,
            ft & 0xE0 == 0,
            overflow ==> ft & f0 == f0 && ft & 0x1B == f0 & 0x1B && ft & 0x04 != 0,
            !overflow ==> ft == f0,
    ;
}

proof fn lemma_flags_ppu_exact(a: u8, vblank: bool, b: u8, stat: bool, c: u8)
    requires
        a & 0xE0 == 0,
        vblank ==> b == (a | 1) & 0x1F,
        !vblank ==> b == a,
        stat ==> c == (b | 2) & 0x1F,
        !stat ==> c == b,
    ensures
        c == a | (if vblank { 1u8 } else { 0u8 }) | (if stat { 2u8 } else { 0u8 }),
{
    assert(c == a | (if vblank { 1u8 } else { 0u8 }) | (if stat { 2u8 } else { 0u8 })) by (bit_vector)
        requires
            a & 0xE0 == 0,
            vblank ==> b == (a | 1) & 0x1F,
            !vblank ==> b == a,
            stat ==> c == (b | 2) & 0x1F,
            !stat ==> c == b,
    ;
}

proof fn lemma_flag_chain(f0: u8, f1: u8, f2: u8)
    requires
        f1 & f0 == f0,
        f2 & f1 == f1,
        f1 & 0x1B == f0 & 0x1B,
        f2 & 0x1C == f1 & 0x1C,
    ensures
        f2 & f0 == f0,
        f2 & 0x18 == f0 & 0x18,
        (f1 & 0x04 != 0) ==> (f2 & 0x04 != 0),
        f2 == f1 ==> f2 == f1,
{
    assert(f2 & f0 == f0 && f2 & 0x18 == f0 & 0x18 && ((f1 & 0x04 != 0) ==> (f2 & 0x04 != 0))) by (bit_vector)
        requires
            f1 & f0 == f0,
            f2 & f1 == f1,
            f1 & 0x1B == f0 & 0x1B,
            f2 & 0x1C == f1 & 0x1C,
    ;
}

/// The address of the I/O byte for register `address`, relative to 0xFF00.
pub open spec fn io_offset(address: u16) -> int {
    address - IO_START
}

impl Bus {
    pub closed spec fn spec_cartridge(&self) -> Option<Cartridge> {
        self.cartridge
    }

    pub closed spec fn spec_wram(&self) -> Seq<u8> {
        self.wram@
    }

    pub closed spec fn spec_hram(&self) -> Seq<u8> {
        self.hram@
    }

    pub closed spec fn spec_io(&self) -> Seq<u8> {
        self.io@
    }

    pub closed spec fn spec_ie(&self) -> u8 {
        self.interrupt_enable
    }

    pub closed spec fn spec_timer(&self) -> Timer {
        self.timer
    }

    pub closed spec fn spec_joypad(&self) -> Joypad {
        self.joypad
    }

    pub closed spec fn spec_serial(&self) -> Serial {
        self.serial
    }

    pub closed spec fn spec_cgb(&self) -> CgbState {
        self.cgb
    }

    pub closed spec fn spec_dma(&self) -> DmaState {
        self.dma
    }

    pub closed spec fn spec_ppu(&self) -> Ppu {
        self.ppu
    }

    pub closed spec fn spec_audio(&self) -> Apu {
        self.audio
    }

    pub closed spec fn spec_apu_stub(&self) -> ApuStub {
        self.apu
    }

    /// The five interrupt request bits (IF).
    pub open spec fn interrupt_flag_bits(&self) -> u8 {
        self.spec_io()[0x0F] & 0x1F
    }

    /// Requested interrupts that are also enabled.
    pub open spec fn pending(&self) -> u8 {
        self.spec_ie() & self.interrupt_flag_bits() & 0x1F
    }

    /// How many more cycles the cartridge clock can take.
    pub open spec fn cycle_room(&self) -> int {
        match self.spec_cartridge() {
            Some(c) => c.cycle_room(),
            None => u32::MAX as int,
        }
    }

    /// The bus is well formed and the timer counters are in range.
    pub open spec fn inv(&self) -> bool {
        &&& self.inv_but_timer()
        &&& self.spec_timer().div_cycles < 256
        &&& self.spec_timer().tima_cycles < 1024
    }

    /// Every component is well formed (the timer counters aside).
    pub closed spec fn inv_but_timer(&self) -> bool {
        &&& self.parts_ok()
        &&& self.dma.offset <= OAM_DMA_BYTES
        &&& self.dma.startup_cycles <= OAM_DMA_STARTUP_CYCLES
        &&& self.dma.byte_cycles < OAM_DMA_BYTE_CYCLES
        &&& self.dma.active ==> self.dma.offset < OAM_DMA_BYTES
    }

    /// Every memory has its size, every component is well formed, and the
    /// stored IF byte holds only the five request bits.
    pub closed spec fn parts_ok(&self) -> bool {
        &&& self.cartridge matches Some(c) ==> c.inv()
        &&& self.wram.inv()
        &&& self.io.inv()
        &&& self.hram.inv()
        &&& self.serial.inv()
        &&& self.audio.inv()
        &&& self.ppu.inv()
        &&& self.io@[0x0F] & 0xE0 == 0
    }

    /// A DMA transfer past its start-up blocks the CPU everywhere but high RAM.
    pub open spec fn dma_blocks(&self, address: u16) -> bool {
        self.spec_dma().active && self.spec_dma().startup_cycles == 0 && !(HRAM_START <= address
            <= HRAM_END)
    }

    /// What a CPU read of `address` gives (the memory map).
    pub open spec fn read_spec(&self, address: u16) -> Result<u8> {
        if self.dma_blocks(address) {
            Ok(0xFF)
        } else if address <= 0x7FFF {
            match self.spec_cartridge() {
                Some(c) => read_result(c.rom_read(address), address),
                None => Err(EmulatorError::InvalidMemoryAccess { address }),
            }
        } else if address <= VRAM_END {
            if self.spec_ppu().vram_blocked() {
                Ok(0xFF)
            } else {
                read_result(self.spec_ppu().vram_raw((address - VRAM_START) as u16), address)
            }
        } else if address <= ERAM_END {
            match self.spec_cartridge() {
                Some(c) => read_result(c.ram_read((address - ERAM_START) as u16), address),
                None => Err(EmulatorError::InvalidMemoryAccess { address }),
            }
        } else if address <= WRAM_END {
            Ok(self.spec_wram()[address - WRAM_START])
        } else if address <= ECHO_RAM_END {
            Ok(self.spec_wram()[address - ECHO_RAM_START])
        } else if address <= OAM_END {
            if self.spec_ppu().oam_blocked() {
                Ok(0xFF)
            } else {
                read_result(self.spec_ppu().oam_raw((address - OAM_START) as u16), address)
            }
        } else if address <= UNUSABLE_END {
            Ok(0xFF)
        } else if address == DIV {
            Ok(self.spec_timer().div)
        } else if address == TIMA {
            Ok(self.spec_timer().tima)
        } else if address == TMA {
            Ok(self.spec_timer().tma)
        } else if address == TAC {
            Ok(self.spec_timer().tac | 0xF8)
        } else if address == JOYPAD {
            Ok(joypad_register(self.spec_joypad().select, self.spec_joypad().state))
        } else if address == SERIAL_DATA {
            Ok(self.spec_serial().spec_data())
        } else if address == SERIAL_CONTROL {
            Ok(0x7E | self.spec_serial().spec_control())
        } else if address == NR52 {
            Ok(
                if !self.spec_apu_stub().powered {
                    0
                } else {
                    0x80 | (if self.spec_apu_stub().channel1_active {
                        1u8
                    } else {
                        0u8
                    }) | (if self.spec_apu_stub().channel2_active {
                        2u8
                    } else {
                        0u8
                    })
                },
            )
        } else if address == INTERRUPT_FLAG {
            Ok(self.interrupt_flag_bits() | 0xE0)
        } else if address == KEY1 {
            Ok(
                if !self.spec_cgb().enabled {
                    0xFF
                } else {
                    0x7E | (if self.spec_cgb().double_speed {
                        0x80u8
                    } else {
                        0u8
                    }) | (if self.spec_cgb().prepare_speed_switch {
                        1u8
                    } else {
                        0u8
                    })
                },
            )
        } else if 0xFF40 <= address <= 0xFF4B {
            match self.spec_ppu().register_read(address) {
                Some(v) => Ok(v),
                None => Ok(self.spec_io()[io_offset(address)]),
            }
        } else if address <= IO_END {
            Ok(self.spec_io()[io_offset(address)])
        } else if address <= HRAM_END {
            Ok(self.spec_hram()[address - HRAM_START])
        } else {
            Ok(self.spec_ie())
        }
    }

    /// Only work RAM differs from `other`.
    pub closed spec fn same_but_wram(&self, other: &Bus) -> bool {
        &&& self.cartridge == other.cartridge
        &&& self.io == other.io
        &&& self.hram == other.hram
        &&& self.interrupt_enable == other.interrupt_enable
        &&& self.timer == other.timer
        &&& self.joypad == other.joypad
        &&& self.serial == other.serial
        &&& self.cgb == other.cgb
        &&& self.apu == other.apu
        &&& self.audio == other.audio
        &&& self.dma == other.dma
        &&& self.ppu == other.ppu
    }

    /// Only high RAM differs from `other`.
    pub closed spec fn same_but_hram(&self, other: &Bus) -> bool {
        &&& self.cartridge == other.cartridge
        &&& self.io == other.io
        &&& self.wram == other.wram
        &&& self.interrupt_enable == other.interrupt_enable
        &&& self.timer == other.timer
        &&& self.joypad == other.joypad
        &&& self.serial == other.serial
        &&& self.cgb == other.cgb
        &&& self.apu == other.apu
        &&& self.audio == other.audio
        &&& self.dma == other.dma
        &&& self.ppu == other.ppu
    }

    /// An empty bus: no cartridge, zeroed RAM, the power-on PPU.
    pub fn new() -> (bus: Self)
        ensures
            bus.inv(),
            bus.spec_cartridge() is None,
            !bus.spec_dma().active,
            bus.spec_ie() == 0,
            bus.interrupt_flag_bits() == 0,
            bus.spec_wram() == Seq::new(0x2000, |i: int| 0u8),
            bus.spec_hram() == Seq::new(0x7F, |i: int| 0u8),
            bus.spec_io() == Seq::new(0x80, |i: int| 0u8),
            bus.spec_timer() == (Timer { div: 0, div_cycles: 0, tima: 0, tma: 0, tac: 0, tima_cycles: 0 }),
            bus.spec_joypad().select == 0x30,
            !bus.spec_cgb().enabled,
            bus.spec_ppu().spec_mode() == PpuMode::OamScan,
            bus.spec_ppu().spec_ly() == 0,
            bus.spec_ppu().spec_lcdc() == 0x91,
            bus.spec_serial().spec_output() == Seq::<u8>::empty(),
            fresh_bus(bus),
    {
        let bus = Bus {
            cartridge: None,
            wram: MemoryRegion::zeroed(),
            io: MemoryRegion::zeroed(),
            hram: MemoryRegion::zeroed(),
            interrupt_enable: 0,
            timer: Timer { div: 0, div_cycles: 0, tima: 0, tma: 0, tac: 0, tima_cycles: 0 },
            joypad: Joypad::new(),
            serial: Serial::new(),
            cgb: CgbState { enabled: false, double_speed: false, prepare_speed_switch: false },
            apu: ApuStub {
                powered: false,
                channel1_active: false,
                channel1_cycles: 0,
                channel2_active: false,
                channel2_cycles: 0,
            },
            audio: Apu::new(),
            dma: DmaState {
                source_high: 0,
                active: false,
                startup_cycles: 0,
                byte_cycles: 0,
                offset: 0,
            },
            ppu: Ppu::new(),
        };
        assert(0u8 & 0x1F == 0 && 0u8 & 0xE0 == 0) by {
            lemma_byte_bits();
            lemma_word_bits();
        }
        bus
    }

    pub fn insert_cartridge(&mut self, cartridge: Cartridge)
        requires
            old(self).inv(),
            cartridge.inv(),
        ensures
            final(self).inv(),
            final(self).spec_cartridge() == Some(cartridge),
            *final(self) == old(self).with_cartridge(cartridge),
            final(self).spec_wram() == old(self).spec_wram(),
            final(self).spec_ppu() == old(self).spec_ppu(),
            final(self).spec_dma() == old(self).spec_dma(),
    {
        self.cartridge = Some(cartridge);
    }

    /// How many more cycles the cartridge clock can count (`cycle_room`).
    pub fn clock_room(&self) -> (room: u32)
        ensures
            room == self.cycle_room(),
    {
        match &self.cartridge {
            Some(c) => c.clock_room(),
            None => u32::MAX,
        }
    }

    pub fn cartridge(&self) -> (cartridge: Option<&Cartridge>)
        ensures
            cartridge matches Some(c) ==> self.spec_cartridge() == Some(*c),
            cartridge is None ==> self.spec_cartridge() is None,
            self.inv() ==> (cartridge matches Some(c) ==> c.inv()),
    {
        match &self.cartridge {
            Some(c) => Some(c),
            None => None,
        }
    }

    pub fn cartridge_mut(&mut self) -> (cartridge: Option<&mut Cartridge>)
        ensures
            cartridge is None <==> old(self).spec_cartridge() is None,
            cartridge matches Some(c) ==> old(self).spec_cartridge() == Some(*c)
                && final(self).spec_cartridge() == Some(*final(c)),
            cartridge is None ==> *final(self) == *old(self),
            final(self).spec_wram() == old(self).spec_wram(),
            final(self).spec_hram() == old(self).spec_hram(),
            final(self).spec_io() == old(self).spec_io(),
            final(self).spec_ppu() == old(self).spec_ppu(),
            final(self).spec_dma() == old(self).spec_dma(),
            final(self).spec_ie() == old(self).spec_ie(),
            final(self).spec_timer() == old(self).spec_timer(),
            final(self).spec_serial() == old(self).spec_serial(),
            final(self).spec_audio() == old(self).spec_audio(),
            final(self).spec_joypad() == old(self).spec_joypad(),
            final(self).spec_cgb() == old(self).spec_cgb(),
            final(self).spec_apu_stub() == old(self).spec_apu_stub(),
            old(self).inv() && (cartridge matches Some(c) ==> final(c).inv()) ==> final(self).inv(),
            old(self).inv() ==> (cartridge matches Some(c) ==> c.inv()),
    {
        match &mut self.cartridge {
            Some(c) => Some(c),
            None => None,
        }
    }

    /// Sets request bit `bit` of IF.
    pub fn request_interrupt(&mut self, bit: u8)
        requires
            old(self).inv_but_timer(),
            bit < 8,
        ensures
            final(self).inv_but_timer(),
            final(self).spec_timer() == old(self).spec_timer(),
            final(self).interrupt_flag_bits() == (old(self).interrupt_flag_bits() | (1u8 << bit)) & 0x1F,
            final(self).spec_io() == old(self).spec_io().update(
                0x0F,
                (old(self).interrupt_flag_bits() | (1u8 << bit)) & 0x1F,
            ),
            final(self).same_but_io(old(self)),
    {
        let interrupt_flag = self.interrupt_flag() | (1 << bit);
        self.set_interrupt_flag(interrupt_flag);
    }

    /// Only the I/O bytes differ from `other`.
    pub closed spec fn same_but_io(&self, other: &Bus) -> bool {
        &&& self.cartridge == other.cartridge
        &&& self.wram == other.wram
        &&& self.hram == other.hram
        &&& self.interrupt_enable == other.interrupt_enable
        &&& self.timer == other.timer
        &&& self.joypad == other.joypad
        &&& self.serial == other.serial
        &&& self.cgb == other.cgb
        &&& self.apu == other.apu
        &&& self.audio == other.audio
        &&& self.dma == other.dma
        &&& self.ppu == other.ppu
    }

    /// This bus with `cartridge` inserted.
    pub closed spec fn with_cartridge(self, cartridge: Cartridge) -> Bus {
        Bus { cartridge: Some(cartridge), ..self }
    }

    /// This bus with the speed-switch state `cgb`.
    pub closed spec fn with_cgb(self, cgb: CgbState) -> Bus {
        Bus { cgb, ..self }
    }

    /// This bus switched to colour mode `enabled` at normal speed, the PPU
    /// told so.
    pub closed spec fn with_cgb_mode(self, enabled: bool) -> Bus {
        Bus {
            cgb: CgbState { enabled, double_speed: false, prepare_speed_switch: false },
            ppu: self.ppu.with_cgb(enabled),
            ..self
        }
    }

    /// Inserting a cartridge changes nothing else.
    pub proof fn lemma_with_cartridge_facts(&self, cartridge: Cartridge)
        ensures
            self.with_cartridge(cartridge).spec_cartridge() == Some(cartridge),
            self.with_cartridge(cartridge).spec_wram() == self.spec_wram(),
            self.with_cartridge(cartridge).spec_io() == self.spec_io(),
            self.with_cartridge(cartridge).spec_hram() == self.spec_hram(),
            self.with_cartridge(cartridge).spec_ie() == self.spec_ie(),
            self.with_cartridge(cartridge).spec_timer() == self.spec_timer(),
            self.with_cartridge(cartridge).spec_joypad() == self.spec_joypad(),
            self.with_cartridge(cartridge).spec_serial() == self.spec_serial(),
            self.with_cartridge(cartridge).spec_cgb() == self.spec_cgb(),
            self.with_cartridge(cartridge).spec_apu_stub() == self.spec_apu_stub(),
            self.with_cartridge(cartridge).spec_audio() == self.spec_audio(),
            self.with_cartridge(cartridge).spec_dma() == self.spec_dma(),
            self.with_cartridge(cartridge).spec_ppu() == self.spec_ppu(),
    {
    }

    /// The switch to a colour mode changes only the speed-switch state and
    /// the PPU's colour flag.
    pub proof fn lemma_with_cgb_mode_facts(&self, enabled: bool)
        ensures
            self.with_cgb_mode(enabled).spec_cgb() == (CgbState {
                enabled,
                double_speed: false,
                prepare_speed_switch: false,
            }),
            self.with_cgb_mode(enabled).spec_ppu() == self.spec_ppu().with_cgb(enabled),
            self.with_cgb_mode(enabled).spec_cartridge() == self.spec_cartridge(),
            self.with_cgb_mode(enabled).spec_wram() == self.spec_wram(),
            self.with_cgb_mode(enabled).spec_io() == self.spec_io(),
            self.with_cgb_mode(enabled).spec_hram() == self.spec_hram(),
            self.with_cgb_mode(enabled).spec_ie() == self.spec_ie(),
            self.with_cgb_mode(enabled).spec_timer() == self.spec_timer(),
            self.with_cgb_mode(enabled).spec_joypad() == self.spec_joypad(),
            self.with_cgb_mode(enabled).spec_serial() == self.spec_serial(),
            self.with_cgb_mode(enabled).spec_apu_stub() == self.spec_apu_stub(),
            self.with_cgb_mode(enabled).spec_audio() == self.spec_audio(),
            self.with_cgb_mode(enabled).spec_dma() == self.spec_dma(),
    {
    }

    /// Only the I/O bytes and the joypad differ from `other`.
    pub closed spec fn same_but_io_joypad(&self, other: &Bus) -> bool {
        &&& self.cartridge == other.cartridge
        &&& self.wram == other.wram
        &&& self.hram == other.hram
        &&& self.interrupt_enable == other.interrupt_enable
        &&& self.timer == other.timer
        &&& self.serial == other.serial
        &&& self.cgb == other.cgb
        &&& self.apu == other.apu
        &&& self.audio == other.audio
        &&& self.dma == other.dma
        &&& self.ppu == other.ppu
    }

    /// Only the bytes waiting in the serial output differ from `other`.
    pub closed spec fn same_but_serial_output(&self, other: &Bus) -> bool {
        &&& self.cartridge == other.cartridge
        &&& self.wram == other.wram
        &&& self.io == other.io
        &&& self.hram == other.hram
        &&& self.interrupt_enable == other.interrupt_enable
        &&& self.timer == other.timer
        &&& self.joypad == other.joypad
        &&& self.serial.spec_data() == other.serial.spec_data()
        &&& self.serial.spec_control() == other.serial.spec_control()
        &&& self.cgb == other.cgb
        &&& self.apu == other.apu
        &&& self.audio == other.audio
        &&& self.dma == other.dma
        &&& self.ppu == other.ppu
    }

    /// The interrupts both requested and enabled, in the five low bits.
    pub fn pending_interrupts(&self) -> (pending: u8)
        requires
            self.inv_but_timer(),
        ensures
            pending == self.pending(),
    {
        self.interrupt_enable & self.interrupt_flag() & 0x1F
    }

    /// Clears request bit `bit` of IF.
    pub fn clear_interrupt(&mut self, bit: u8)
        requires
            old(self).inv_but_timer(),
            bit < 8,
        ensures
            final(self).inv_but_timer(),
            final(self).spec_timer() == old(self).spec_timer(),
            final(self).spec_wram() == old(self).spec_wram(),
            final(self).spec_hram() == old(self).spec_hram(),
            final(self).spec_ie() == old(self).spec_ie(),
            final(self).spec_cartridge() == old(self).spec_cartridge(),
            final(self).spec_dma() == old(self).spec_dma(),
            final(self).spec_ppu() == old(self).spec_ppu(),
            final(self).spec_io() == old(self).spec_io().update(0x0F, final(self).interrupt_flag_bits()),
            final(self).interrupt_flag_bits() == (old(self).interrupt_flag_bits() & !(1u8 << bit)) & 0x1F,
            final(self).same_but_io(old(self)),
            final(self).keeps_stable_reads(old(self)),
            interrupt_cleared(*old(self), *final(self), bit),
    {
        proof {
            reveal(Bus::keeps_stable_reads);
        }
        let interrupt_flag = self.interrupt_flag() & !(1 << bit);
        self.set_interrupt_flag(interrupt_flag);
    }

    fn interrupt_flag(&self) -> (flags: u8)
        requires
            self.parts_ok(),
        ensures
            flags == self.interrupt_flag_bits(),
    {
        let raw = match self.io.read(0x0F) {
            Some(v) => v,
            None => 0,
        };
        raw & 0x1F
    }

    fn set_interrupt_flag(&mut self, value: u8)
        requires
            old(self).inv_but_timer(),
        ensures
            final(self).inv_but_timer(),
            final(self).spec_timer() == old(self).spec_timer(),
            final(self).spec_io() == old(self).spec_io().update(0x0F, value & 0x1F),
            final(self).interrupt_flag_bits() == value & 0x1F,
            final(self).same_but_io(old(self)),
    {
        let masked = value & 0x1F;
        let _ = self.io.write(0x0F, masked);
        assert(masked & 0x1F == masked && masked & 0xE0 == 0) by (bit_vector)
            requires
                masked == value & 0x1F,
        ;
        assert(self.spec_io()[0x0F] == masked);
    }

    pub fn ppu_mode(&self) -> (mode: PpuMode)
        ensures
            mode == self.spec_ppu().spec_mode(),
    {
        self.ppu.mode()
    }

    pub fn framebuffer(&self) -> (pixels: &[u32])
        ensures
            pixels@ == self.spec_ppu().spec_framebuffer(),
    {
        self.ppu.framebuffer()
    }

    /// This bus with the PPU's frame-ready flag cleared.
    pub closed spec fn frame_consumed(self) -> Bus {
        Bus { ppu: self.ppu.frame_consumed(), ..self }
    }

    /// Reports whether a frame was completed since the last call, and clears the flag.
    pub fn take_frame_ready(&mut self) -> (ready: bool)
        requires
            old(self).inv(),
        ensures
            final(self).inv(),
            *final(self) == old(self).frame_consumed(),
            ready == old(self).spec_ppu().spec_frame_ready(),
            !final(self).spec_ppu().spec_frame_ready(),
            final(self).spec_wram() == old(self).spec_wram(),
            final(self).spec_io() == old(self).spec_io(),
            final(self).spec_cartridge() == old(self).spec_cartridge(),
    {
        self.ppu.take_frame_ready()
    }

    /// Sets the buttons held; a selected button that goes from released to
    /// held requests the joypad interrupt.
    pub fn set_joypad_state(&mut self, state: JoypadState)
        requires
            old(self).inv(),
        ensures
            final(self).inv(),
            final(self).spec_joypad().state == state,
            final(self).spec_joypad().select == old(self).spec_joypad().select,
            ({
                let before = joypad_register(old(self).spec_joypad().select, old(self).spec_joypad().state);
                let after = joypad_register(old(self).spec_joypad().select, state);
                final(self).interrupt_flag_bits() == (if before & !after & 0x0F != 0 {
                    (old(self).interrupt_flag_bits() | 0x10) & 0x1F
                } else {
                    old(self).interrupt_flag_bits()
                })
            }),
            final(self).spec_io() == old(self).spec_io().update(0x0F, final(self).interrupt_flag_bits()),
            final(self).same_but_io_joypad(old(self)),
            final(self).spec_wram() == old(self).spec_wram(),
            final(self).spec_cartridge() == old(self).spec_cartridge(),
            final(self).spec_ppu() == old(self).spec_ppu(),
            final(self).spec_dma() == old(self).spec_dma(),
    {
        proof {
            lemma_flag_byte(self.io@[0x0F]);
            assert(self.io@ =~= self.io@.update(0x0F, self.interrupt_flag_bits()));
        }
        let old_value = self.joypad.read();
        self.joypad.set_state(state);
        let new_value = self.joypad.read();
        if old_value & !new_value & 0x0F != 0 {
            self.request_interrupt(INTERRUPT_JOYPAD);
            assert((1u8 << 4u8) == 0x10) by {
            lemma_byte_bits();
            lemma_word_bits();
        }
        }
    }

    pub fn joypad_state(&self) -> (state: JoypadState)
        ensures
            state == self.spec_joypad().state,
    {
        self.joypad.state()
    }

    /// Takes the bytes sent over the serial port since the last call.
    pub fn take_serial_output(&mut self) -> (sent: Vec<u8>)
        requires
            old(self).inv(),
        ensures
            final(self).inv(),
            sent@ == old(self).spec_serial().spec_output(),
            final(self).spec_serial().spec_output() == Seq::<u8>::empty(),
            final(self).spec_wram() == old(self).spec_wram(),
            final(self).spec_cartridge() == old(self).spec_cartridge(),
            final(self).spec_io() == old(self).spec_io(),
            final(self).spec_ppu() == old(self).spec_ppu(),
            final(self).spec_dma() == old(self).spec_dma(),
            final(self).same_but_serial_output(old(self)),
    {
        self.serial.drain_output()
    }

    /// Takes the audio samples mixed since the last call.
    pub fn take_audio_samples(&mut self) -> (samples: Vec<SampleMix>)
        requires
            old(self).inv(),
        ensures
            final(self).inv(),
            samples@ == old(self).spec_audio().spec_samples(),
            final(self).spec_audio().spec_samples() == Seq::<SampleMix>::empty(),
            final(self).spec_wram() == old(self).spec_wram(),
            final(self).spec_cartridge() == old(self).spec_cartridge(),
            final(self).spec_io() == old(self).spec_io(),
            final(self).spec_ppu() == old(self).spec_ppu(),
            final(self).spec_dma() == old(self).spec_dma(),
    {
        self.audio.drain_samples()
    }

    /// Turns colour mode on or off, at normal speed with no switch armed.
    pub fn set_cgb_mode(&mut self, enabled: bool)
        requires
            old(self).inv(),
        ensures
            final(self).inv(),
            final(self).spec_cgb() == (CgbState {
                enabled,
                double_speed: false,
                prepare_speed_switch: false,
            }),
            final(self).spec_ppu().spec_cgb() == enabled,
            *final(self) == old(self).with_cgb_mode(enabled),
            final(self).spec_wram() == old(self).spec_wram(),
            final(self).spec_cartridge() == old(self).spec_cartridge(),
            final(self).spec_io() == old(self).spec_io(),
            final(self).spec_dma() == old(self).spec_dma(),
            final(self).spec_ie() == old(self).spec_ie(),
    {
        self.cgb.enabled = enabled;
        self.cgb.double_speed = false;
        self.cgb.prepare_speed_switch = false;
        self.ppu.set_cgb(enabled);
    }

    /// The STOP instruction: in colour mode with a switch armed, toggles the
    /// speed and reports `true`; otherwise reports `false`.
    pub fn stop(&mut self) -> (switched: bool)
        requires
            old(self).inv(),
        ensures
            final(self).inv(),
            switched == (old(self).spec_cgb().enabled && old(self).spec_cgb().prepare_speed_switch),
            switched ==> final(self).spec_cgb() == (CgbState {
                enabled: true,
                double_speed: !old(self).spec_cgb().double_speed,
                prepare_speed_switch: false,
            }),
            switched ==> *final(self) == old(self).with_cgb(
                CgbState { enabled: true, double_speed: !old(self).spec_cgb().double_speed, prepare_speed_switch: false },
            ),
            !switched ==> *final(self) == *old(self),
            final(self).spec_wram() == old(self).spec_wram(),
            final(self).spec_hram() == old(self).spec_hram(),
            final(self).spec_io() == old(self).spec_io(),
            final(self).spec_ie() == old(self).spec_ie(),
            final(self).spec_cartridge() == old(self).spec_cartridge(),
            final(self).spec_ppu() == old(self).spec_ppu(),
            final(self).spec_dma() == old(self).spec_dma(),
            final(self).keeps_stable_reads(old(self)),
    {
        proof {
            reveal(Bus::keeps_stable_reads);
        }
        if self.cgb.enabled && self.cgb.prepare_speed_switch {
            self.cgb.double_speed = !self.cgb.double_speed;
            self.cgb.prepare_speed_switch = false;
            true
        } else {
            false
        }
    }

    fn dma_blocks_cpu_access(&self, address: u16) -> (blocked: bool)
        ensures
            blocked == self.dma_blocks(address),
    {
        self.dma.active && self.dma.startup_cycles == 0 && !(HRAM_START <= address && address
            <= HRAM_END)
    }

    /// Reads `address` as the CPU sees it (see `read_spec`).
    pub fn read_byte(&self, address: u16) -> (result: Result<u8>)
        requires
            self.inv(),
        ensures
            result == self.read_spec(address),
    {
        if self.dma_blocks_cpu_access(address) {
            return Ok(0xFF);
        }
        if address <= 0x7FFF {
            match &self.cartridge {
                Some(cart) => match cart.read_rom(address) {
                    Some(v) => Ok(v),
                    None => Err(EmulatorError::InvalidMemoryAccess { address }),
                },
                None => Err(EmulatorError::InvalidMemoryAccess { address }),
            }
        } else if address <= VRAM_END {
            match self.ppu.read_vram(address - VRAM_START) {
                Some(v) => Ok(v),
                None => Err(EmulatorError::InvalidMemoryAccess { address }),
            }
        } else if address <= ERAM_END {
            match &self.cartridge {
                Some(cart) => match cart.read_ram(address - ERAM_START) {
                    Some(v) => Ok(v),
                    None => Err(EmulatorError::InvalidMemoryAccess { address }),
                },
                None => Err(EmulatorError::InvalidMemoryAccess { address }),
            }
        } else if address <= WRAM_END {
            Ok(self.ram_byte(&self.wram, (address - WRAM_START) as usize))
        } else if address <= ECHO_RAM_END {
            Ok(self.ram_byte(&self.wram, (address - ECHO_RAM_START) as usize))
        } else if address <= OAM_END {
            match self.ppu.read_oam(address - OAM_START) {
                Some(v) => Ok(v),
                None => Err(EmulatorError::InvalidMemoryAccess { address }),
            }
        } else if address <= UNUSABLE_END {
            Ok(0xFF)
        } else if address == DIV {
            Ok(self.timer.div)
        } else if address == TIMA {
            Ok(self.timer.tima)
        } else if address == TMA {
            Ok(self.timer.tma)
        } else if address == TAC {
            Ok(self.timer.tac | 0xF8)
        } else if address == JOYPAD {
            Ok(self.joypad.read())
        } else if address == SERIAL_DATA {
            Ok(self.serial.read_data())
        } else if address == SERIAL_CONTROL {
            Ok(self.serial.read_control())
        } else if address == NR52 {
            Ok(self.apu.read_nr52())
        } else if address == INTERRUPT_FLAG {
            Ok(self.interrupt_flag() | 0xE0)
        } else if address == KEY1 {
            Ok(self.cgb.read_key1())
        } else if 0xFF40 <= address && address <= 0xFF4B {
            match self.ppu.read_register(address) {
                Some(v) => Ok(v),
                None => Ok(self.io_byte((address - IO_START) as usize)),
            }
        } else if address <= IO_END {
            Ok(self.io_byte((address - IO_START) as usize))
        } else if address <= HRAM_END {
            Ok(self.hram_byte((address - HRAM_START) as usize))
        } else {
            Ok(self.interrupt_enable)
        }
    }

    /// A write to `address` fails only when no cartridge is inserted and the
    /// address is in the ROM or external-RAM area (and no DMA blocks it).
    /// The addresses whose reads time alone does not change while no DMA
    /// runs: ROM, work RAM and its echo, and high RAM.
    pub open spec fn stable_address(address: u16) -> bool {
        address <= 0x7FFF || (WRAM_START <= address <= ECHO_RAM_END) || (HRAM_START <= address
            <= HRAM_END)
    }

    /// Work RAM, its echo and high RAM: the memory a CPU write reaches with
    /// no other effect.
    pub open spec fn ram_address(address: u16) -> bool {
        (WRAM_START <= address <= ECHO_RAM_END) || (HRAM_START <= address <= HRAM_END)
    }

    /// The byte of RAM `address` names: an echo address names the work-RAM
    /// byte it mirrors; high RAM bytes come after the work-RAM ones.
    pub open spec fn ram_cell(address: u16) -> int {
        if address <= WRAM_END {
            address - WRAM_START
        } else if address <= ECHO_RAM_END {
            address - ECHO_RAM_START
        } else {
            0x2000 + address - HRAM_START
        }
    }

    /// The addresses the cartridge answers for: ROM and cartridge RAM.
    pub open spec fn cartridge_area(address: u16) -> bool {
        address <= 0x7FFF || (ERAM_START <= address <= ERAM_END)
    }

    /// If no DMA ran in `before`, none runs in `self`, and every stable
    /// address reads here as it does there.
    #[verifier::opaque]
    pub open spec fn keeps_stable_reads(&self, before: &Bus) -> bool {
        !before.spec_dma().active ==> {
            &&& !self.spec_dma().active
            &&& forall|address: u16| Bus::stable_address(address) ==> #[trigger] self.read_spec(address)
                == before.read_spec(address)
        }
    }

    /// Keeping the stable reads carries over a chain of states.
    pub proof fn lemma_stable_reads_chain(b0: &Bus, b1: &Bus, b2: &Bus)
        requires
            b1.keeps_stable_reads(b0),
            b2.keeps_stable_reads(b1),
        ensures
            b2.keeps_stable_reads(b0),
    {
        reveal(Bus::keeps_stable_reads);
    }

    /// A bus keeps its own stable reads.
    pub proof fn lemma_stable_reads_refl(b: &Bus)
        ensures
            b.keeps_stable_reads(b),
    {
        reveal(Bus::keeps_stable_reads);
    }

    /// The I/O addresses whose written byte is kept as it is in the I/O area.
    pub open spec fn io_plain(address: u16) -> bool {
        &&& IO_START <= address <= IO_END
        &&& address != DIV && address != TIMA && address != TMA && address != TAC
        &&& address != JOYPAD && address != SERIAL_DATA && address != SERIAL_CONTROL
        &&& address != INTERRUPT_FLAG && address != KEY1
        &&& !(0xFF40 <= address <= 0xFF4B && Ppu::decodes_register(address))
    }

    pub open spec fn write_fails(&self, address: u16) -> bool {
        !self.dma_blocks(address) && self.spec_cartridge() is None && (address <= 0x7FFF || (
        ERAM_START <= address <= ERAM_END))
    }

    /// Writes `value` to `address` as the CPU does. Blocked by DMA the write
    /// is dropped; work RAM (and its echo), high RAM and IE store the value
    /// and change nothing else; the ROM area goes to the cartridge's
    /// controller; the rest goes to the PPU, timer, joypad, serial, sound,
    /// DMA and I/O registers.
    pub fn write_byte(&mut self, address: u16, value: u8) -> (result: Result<()>)
        requires
            old(self).inv(),
        ensures
            final(self).inv(),
            bus_write(*old(self), *final(self), address, value, result),
    {
        let ghost before = *self;
        if self.dma_blocks_cpu_access(address) {
            return Ok(());
        }
        let wrote = if address <= 0x7FFF {
            match &mut self.cartridge {
                Some(cartridge) => {
                    cartridge.write_rom(address, value);
                    true
                },
                None => false,
            }
        } else if address <= VRAM_END {
            self.ppu.write_vram(address - VRAM_START, value)
        } else if address <= ERAM_END {
            match &mut self.cartridge {
                Some(cartridge) => {
                    cartridge.write_ram(address - ERAM_START, value);
                    true
                },
                None => false,
            }
        } else if address <= WRAM_END {
            self.wram.write((address - WRAM_START) as usize, value)
        } else if address <= ECHO_RAM_END {
            self.wram.write((address - ECHO_RAM_START) as usize, value)
        } else if address <= OAM_END {
            self.ppu.write_oam(address - OAM_START, value)
        } else if address <= UNUSABLE_END {
            true
        } else if address == DIV {
            self.timer.div = 0;
            self.timer.div_cycles = 0;
            true
        } else if address == TIMA {
            self.timer.tima = value;
            true
        } else if address == TMA {
            self.timer.tma = value;
            true
        } else if address == TAC {
            self.timer.tac = value & 0x07;
            self.timer.tima_cycles = 0;
            true
        } else if address == JOYPAD {
            self.joypad.write(value);
            true
        } else if address == SERIAL_DATA {
            self.serial.write_data(value);
            true
        } else if address == SERIAL_CONTROL {
            if self.serial.write_control(value) {
                self.request_interrupt(INTERRUPT_SERIAL);
            }
            true
        } else if address == NR14 {
            self.apu.write_nr14(value, self.cgb.double_speed);
            self.audio.write_register(address, value);
            self.io.write((NR14 - IO_START) as usize, value)
        } else if address == NR24 {
            self.apu.write_nr24(value);
            self.audio.write_register(address, value);
            self.io.write((NR24 - IO_START) as usize, value)
        } else if address == NR52 {
            self.apu.write_nr52(value);
            self.audio.write_register(address, value);
            self.io.write((NR52 - IO_START) as usize, value)
        } else if address == INTERRUPT_FLAG {
            self.set_interrupt_flag(value);
            true
        } else if address == DMA {
            let wrote = self.io.write((DMA - IO_START) as usize, value);
            self.start_dma(value);
            wrote
        } else if 0xFF40 <= address && address <= 0xFF4B {
            if self.ppu.write_register(address, value) {
                true
            } else {
                self.io.write((address - IO_START) as usize, value)
            }
        } else if address == KEY1 {
            self.cgb.write_key1(value);
            true
        } else if address <= IO_END {
            if 0xFF10 <= address && address <= 0xFF3F {
                self.audio.write_register(address, value);
            }
            self.io.write((address - IO_START) as usize, value)
        } else if address <= HRAM_END {
            self.hram.write((address - HRAM_START) as usize, value)
        } else {
            self.interrupt_enable = value;
            true
        };
        proof {
            if !before.dma_blocks(address) && Bus::ram_address(address) {
                lemma_ram_write_reads(before, *self, address, value);
            }
        }
        if wrote {
            Ok(())
        } else {
            Err(EmulatorError::InvalidMemoryAccess { address })
        }
    }

    /// Only the I/O bytes and the timer differ from `other`.
    pub closed spec fn same_but_io_timer(&self, other: &Bus) -> bool {
        &&& self.cartridge == other.cartridge
        &&& self.wram == other.wram
        &&& self.hram == other.hram
        &&& self.interrupt_enable == other.interrupt_enable
        &&& self.joypad == other.joypad
        &&& self.serial == other.serial
        &&& self.cgb == other.cgb
        &&& self.apu == other.apu
        &&& self.audio == other.audio
        &&& self.dma == other.dma
        &&& self.ppu == other.ppu
    }

    /// Only the interrupt-enable register differs from `other`.
    pub closed spec fn same_but_ie(&self, other: &Bus) -> bool {
        &&& self.cartridge == other.cartridge
        &&& self.io == other.io
        &&& self.wram == other.wram
        &&& self.hram == other.hram
        &&& self.timer == other.timer
        &&& self.joypad == other.joypad
        &&& self.serial == other.serial
        &&& self.cgb == other.cgb
        &&& self.apu == other.apu
        &&& self.audio == other.audio
        &&& self.dma == other.dma
        &&& self.ppu == other.ppu
    }

    /// Only the cartridge differs from `other`.
    pub closed spec fn same_but_cartridge(&self, other: &Bus) -> bool {
        &&& self.io == other.io
        &&& self.wram == other.wram
        &&& self.hram == other.hram
        &&& self.interrupt_enable == other.interrupt_enable
        &&& self.timer == other.timer
        &&& self.joypad == other.joypad
        &&& self.serial == other.serial
        &&& self.cgb == other.cgb
        &&& self.apu == other.apu
        &&& self.audio == other.audio
        &&& self.dma == other.dma
        &&& self.ppu == other.ppu
    }

    /// The sizes of the bus's own memories.
    pub proof fn lemma_memory_sizes(&self)
        requires
            self.inv(),
        ensures
            self.spec_wram().len() == 0x2000,
            self.spec_hram().len() == 0x7F,
            self.spec_io().len() == 0x80,
    {
    }

    /// With no cartridge, a read fails exactly at the addresses the cartridge
    /// answers for (ROM and cartridge RAM) when no DMA hides them, and the
    /// error names the address.
    pub proof fn lemma_read_without_cartridge(&self, address: u16)
        requires
            self.inv(),
            self.spec_cartridge() is None,
        ensures
            self.read_spec(address) is Err <==> !self.dma_blocks(address) && Bus::cartridge_area(address),
            self.read_spec(address) is Err ==> self.read_spec(address) == Err::<u8, EmulatorError>(
                EmulatorError::InvalidMemoryAccess { address },
            ),
    {
        self.ppu.lemma_memory_sizes();
    }

    /// What `same_but_wram` keeps, component by component.
    pub proof fn lemma_same_but_wram_facts(a: &Bus, b: &Bus)
        requires
            a.same_but_wram(b),
        ensures
            a.spec_cartridge() == b.spec_cartridge(),
            a.spec_io() == b.spec_io(),
            a.spec_hram() == b.spec_hram(),
            a.spec_ie() == b.spec_ie(),
            a.spec_timer() == b.spec_timer(),
            a.spec_joypad() == b.spec_joypad(),
            a.spec_serial() == b.spec_serial(),
            a.spec_cgb() == b.spec_cgb(),
            a.spec_apu_stub() == b.spec_apu_stub(),
            a.spec_audio() == b.spec_audio(),
            a.spec_dma() == b.spec_dma(),
            a.spec_ppu() == b.spec_ppu(),
    {
    }

    /// What `same_but_hram` keeps, component by component.
    pub proof fn lemma_same_but_hram_facts(a: &Bus, b: &Bus)
        requires
            a.same_but_hram(b),
        ensures
            a.spec_cartridge() == b.spec_cartridge(),
            a.spec_io() == b.spec_io(),
            a.spec_wram() == b.spec_wram(),
            a.spec_ie() == b.spec_ie(),
            a.spec_timer() == b.spec_timer(),
            a.spec_joypad() == b.spec_joypad(),
            a.spec_serial() == b.spec_serial(),
            a.spec_cgb() == b.spec_cgb(),
            a.spec_apu_stub() == b.spec_apu_stub(),
            a.spec_audio() == b.spec_audio(),
            a.spec_dma() == b.spec_dma(),
            a.spec_ppu() == b.spec_ppu(),
    {
    }

    /// What `same_but_io` keeps, component by component.
    pub proof fn lemma_same_but_io_facts(a: &Bus, b: &Bus)
        requires
            a.same_but_io(b),
        ensures
            a.spec_cartridge() == b.spec_cartridge(),
            a.spec_wram() == b.spec_wram(),
            a.spec_hram() == b.spec_hram(),
            a.spec_ie() == b.spec_ie(),
            a.spec_timer() == b.spec_timer(),
            a.spec_joypad() == b.spec_joypad(),
            a.spec_serial() == b.spec_serial(),
            a.spec_cgb() == b.spec_cgb(),
            a.spec_apu_stub() == b.spec_apu_stub(),
            a.spec_audio() == b.spec_audio(),
            a.spec_dma() == b.spec_dma(),
            a.spec_ppu() == b.spec_ppu(),
    {
    }

    /// What `same_but_io_joypad` keeps, component by component.
    pub proof fn lemma_same_but_io_joypad_facts(a: &Bus, b: &Bus)
        requires
            a.same_but_io_joypad(b),
        ensures
            a.spec_cartridge() == b.spec_cartridge(),
            a.spec_wram() == b.spec_wram(),
            a.spec_hram() == b.spec_hram(),
            a.spec_ie() == b.spec_ie(),
            a.spec_timer() == b.spec_timer(),
            a.spec_serial() == b.spec_serial(),
            a.spec_cgb() == b.spec_cgb(),
            a.spec_apu_stub() == b.spec_apu_stub(),
            a.spec_audio() == b.spec_audio(),
            a.spec_dma() == b.spec_dma(),
            a.spec_ppu() == b.spec_ppu(),
    {
    }

    /// What `same_but_serial_output` keeps, component by component.
    pub proof fn lemma_same_but_serial_output_facts(a: &Bus, b: &Bus)
        requires
            a.same_but_serial_output(b),
        ensures
            a.spec_cartridge() == b.spec_cartridge(),
            a.spec_wram() == b.spec_wram(),
            a.spec_io() == b.spec_io(),
            a.spec_hram() == b.spec_hram(),
            a.spec_ie() == b.spec_ie(),
            a.spec_timer() == b.spec_timer(),
            a.spec_joypad() == b.spec_joypad(),
            a.spec_cgb() == b.spec_cgb(),
            a.spec_apu_stub() == b.spec_apu_stub(),
            a.spec_audio() == b.spec_audio(),
            a.spec_dma() == b.spec_dma(),
            a.spec_ppu() == b.spec_ppu(),
            a.spec_serial().spec_data() == b.spec_serial().spec_data(),
            a.spec_serial().spec_control() == b.spec_serial().spec_control(),
    {
    }

    /// What `same_but_io_timer` keeps, component by component.
    pub proof fn lemma_same_but_io_timer_facts(a: &Bus, b: &Bus)
        requires
            a.same_but_io_timer(b),
        ensures
            a.spec_cartridge() == b.spec_cartridge(),
            a.spec_wram() == b.spec_wram(),
            a.spec_hram() == b.spec_hram(),
            a.spec_ie() == b.spec_ie(),
            a.spec_joypad() == b.spec_joypad(),
            a.spec_serial() == b.spec_serial(),
            a.spec_cgb() == b.spec_cgb(),
            a.spec_apu_stub() == b.spec_apu_stub(),
            a.spec_audio() == b.spec_audio(),
            a.spec_dma() == b.spec_dma(),
            a.spec_ppu() == b.spec_ppu(),
    {
    }

    /// What `same_but_ie` keeps, component by component.
    pub proof fn lemma_same_but_ie_facts(a: &Bus, b: &Bus)
        requires
            a.same_but_ie(b),
        ensures
            a.spec_cartridge() == b.spec_cartridge(),
            a.spec_io() == b.spec_io(),
            a.spec_wram() == b.spec_wram(),
            a.spec_hram() == b.spec_hram(),
            a.spec_timer() == b.spec_timer(),
            a.spec_joypad() == b.spec_joypad(),
            a.spec_serial() == b.spec_serial(),
            a.spec_cgb() == b.spec_cgb(),
            a.spec_apu_stub() == b.spec_apu_stub(),
            a.spec_audio() == b.spec_audio(),
            a.spec_dma() == b.spec_dma(),
            a.spec_ppu() == b.spec_ppu(),
    {
    }

    /// What `same_but_cartridge` keeps, component by component.
    pub proof fn lemma_same_but_cartridge_facts(a: &Bus, b: &Bus)
        requires
            a.same_but_cartridge(b),
        ensures
            a.spec_io() == b.spec_io(),
            a.spec_wram() == b.spec_wram(),
            a.spec_hram() == b.spec_hram(),
            a.spec_ie() == b.spec_ie(),
            a.spec_timer() == b.spec_timer(),
            a.spec_joypad() == b.spec_joypad(),
            a.spec_serial() == b.spec_serial(),
            a.spec_cgb() == b.spec_cgb(),
            a.spec_apu_stub() == b.spec_apu_stub(),
            a.spec_audio() == b.spec_audio(),
            a.spec_dma() == b.spec_dma(),
            a.spec_ppu() == b.spec_ppu(),
    {
    }

    /// What `same_but_dma_oam` keeps, component by component.
    pub proof fn lemma_same_but_dma_oam_facts(a: &Bus, b: &Bus)
        requires
            a.same_but_dma_oam(b),
        ensures
            a.spec_cartridge() == b.spec_cartridge(),
            a.spec_io() == b.spec_io(),
            a.spec_wram() == b.spec_wram(),
            a.spec_hram() == b.spec_hram(),
            a.spec_ie() == b.spec_ie(),
            a.spec_timer() == b.spec_timer(),
            a.spec_joypad() == b.spec_joypad(),
            a.spec_serial() == b.spec_serial(),
            a.spec_cgb() == b.spec_cgb(),
            a.spec_apu_stub() == b.spec_apu_stub(),
            a.spec_audio() == b.spec_audio(),
    {
    }

    /// What a write to `address` can change, seen from `before`: only the
    /// component that answers for the address. The cartridge answers for ROM
    /// and its RAM, work RAM for itself and its echo, high RAM and IE for
    /// themselves, the timer for 0xFF04..=0xFF07, the joypad for 0xFF00, the
    /// serial port for 0xFF01 and 0xFF02, the speed switch for KEY1, the
    /// sound unit for 0xFF10..=0xFF3F, the DMA for 0xFF46, the PPU for video
    /// RAM, object memory and 0xFF40..=0xFF4B, and the I/O bytes for the I/O
    /// addresses not held by the timer, the joypad, the serial data byte or
    /// KEY1.
    pub open spec fn write_frame(&self, before: &Bus, address: u16) -> bool {
        let a = address;
        let io = IO_START <= a <= IO_END && a != DIV && a != TIMA && a != TMA && a != TAC && a != JOYPAD && a
            != SERIAL_DATA && a != KEY1;
        &&& a <= 0x7FFF || (ERAM_START <= a <= ERAM_END) || self.spec_cartridge() == before.spec_cartridge()
        &&& (WRAM_START <= a <= ECHO_RAM_END) || self.spec_wram() == before.spec_wram()
        &&& io || self.spec_io() == before.spec_io()
        &&& (HRAM_START <= a <= HRAM_END) || self.spec_hram() == before.spec_hram()
        &&& a == INTERRUPT_ENABLE || self.spec_ie() == before.spec_ie()
        &&& (DIV <= a <= TAC) || self.spec_timer() == before.spec_timer()
        &&& a == JOYPAD || self.spec_joypad() == before.spec_joypad()
        &&& a == SERIAL_DATA || a == SERIAL_CONTROL || self.spec_serial() == before.spec_serial()
        &&& a == KEY1 || self.spec_cgb() == before.spec_cgb()
        &&& a == NR14 || a == NR24 || a == NR52 || self.spec_apu_stub() == before.spec_apu_stub()
        &&& (0xFF10 <= a <= 0xFF3F) || self.spec_audio() == before.spec_audio()
        &&& a == DMA || self.spec_dma() == before.spec_dma()
        &&& (VRAM_START <= a <= VRAM_END) || (OAM_START <= a <= OAM_END) || (0xFF40 <= a <= 0xFF4B)
            || self.spec_ppu() == before.spec_ppu()
    }

    fn start_dma(&mut self, source_high: u8)
        requires
            old(self).inv(),
        ensures
            final(self).inv(),
            final(self).spec_dma() == (DmaState {
                source_high,
                active: true,
                startup_cycles: OAM_DMA_STARTUP_CYCLES,
                byte_cycles: 0,
                offset: 0,
            }),
            *final(self) == (Bus {
                dma: DmaState {
                    source_high,
                    active: true,
                    startup_cycles: OAM_DMA_STARTUP_CYCLES,
                    byte_cycles: 0,
                    offset: 0,
                },
                ..*old(self)
            }),
            final(self).spec_io() == old(self).spec_io(),
            final(self).spec_cartridge() == old(self).spec_cartridge(),
    {
        self.dma = DmaState {
            source_high,
            active: true,
            startup_cycles: OAM_DMA_STARTUP_CYCLES,
            byte_cycles: 0,
            offset: 0,
        };
    }

    /// Lets `cycles` CPU cycles pass for everything on the bus: the
    /// cartridge clock, the sound, the DMA transfer, the divider and timer
    /// (see `advance_timer`), and the PPU (whose vertical blank and STAT
    /// events request their interrupts). Memory the CPU owns is untouched
    /// and interrupt requests are only ever added.
    pub fn advance_cycles(&mut self, cycles: u32)
        requires
            old(self).inv(),
            cycles <= MAX_ADVANCE_CYCLES,
            cycles <= old(self).cycle_room(),
        ensures
            final(self).inv(),
            clock_advanced(*old(self), *final(self), cycles),
    {
        proof {
            reveal(Bus::keeps_stable_reads);
        }
        match &mut self.cartridge {
            Some(cartridge) => {
                cartridge.advance_cycles(cycles);
            },
            None => {},
        }
        self.apu.advance_cycles(cycles);
        self.audio.advance_cycles(cycles);
        let ghost before_dma = *self;
        self.advance_dma(cycles);
        proof {
            before_dma.ppu.lemma_same_but_oam_facts(&self.ppu);
            if old(self).spec_dma().active && dma_source_kept(old(self).spec_dma().source_high) {
                lemma_dma_filled_transfer(
                    *old(self),
                    before_dma,
                    old(self).spec_ppu().spec_oam(),
                    old(self).spec_dma(),
                    dma_after(old(self).spec_dma(), cycles).offset as int,
                    self.spec_ppu().spec_oam(),
                );
            }
        }
        let ghost before_timer = *self;
        self.advance_timer(cycles);
        let ghost before_ppu = *self;
        let interrupts = self.ppu.advance_cycles(cycles);
        proof {
            lemma_flag_byte(self.io@[0x0F]);
        }
        let ghost f1 = self.interrupt_flag_bits();
        if interrupts.vblank {
            let ghost f0 = self.interrupt_flag_bits();
            self.request_interrupt(INTERRUPT_VBLANK);
            proof {
                lemma_flag_raise(f0, 0, self.interrupt_flag_bits());
                assert((1u8 << 0u8) == 1) by {
            lemma_byte_bits();
            lemma_word_bits();
        }
            }
        }
        let ghost fv = self.interrupt_flag_bits();
        proof {
            lemma_flag_byte(self.io@[0x0F]);
        }
        if interrupts.stat {
            let ghost f0 = self.interrupt_flag_bits();
            self.request_interrupt(INTERRUPT_LCD_STAT);
            proof {
                lemma_flag_raise(f0, 1, self.interrupt_flag_bits());
            }
        }
        proof {
            lemma_flag_byte(before_timer.io@[0x0F]);
            lemma_flag_byte(self.io@[0x0F]);
            assert(self.io@ =~= before_timer.io@.update(0x0F, self.interrupt_flag_bits()));
            let f0 = before_timer.interrupt_flag_bits();
            let f2 = self.interrupt_flag_bits();
            lemma_flag_grow(f1, fv, f2);
            lemma_flag_chain(f0, f1, f2);
            if interrupts.vblank {
                lemma_flag_bit0_kept(fv, f2);
            }
            assert((1u8 << 0u8) == 1 && (1u8 << 1u8) == 2) by {
                lemma_byte_bits();
                lemma_word_bits();
            }
            let b0 = before_timer.io@[0x0F];
            let b1 = before_ppu.io@[0x0F];
            assert(f0 == b0 & 0x1F && f1 == b1 & 0x1F);
            assert(f0 & 0xE0 == 0 && f1 & 0xE0 == 0) by (bit_vector)
                requires
                    f0 == b0 & 0x1F,
                    f1 == b1 & 0x1F,
            ;
            lemma_flags_timer_exact(f0, f1, before_timer.spec_timer().overflows_within(cycles));
            lemma_flags_ppu_exact(f1, interrupts.vblank, fv, interrupts.stat, f2);
            assert(stat_raised(before_ppu.spec_ppu(), self.spec_ppu(), cycles) == stat_raised(
                old(self).spec_ppu(),
                self.spec_ppu(),
                cycles,
            ));
            assert(stat_raised_by(old(self).spec_ppu(), self.spec_ppu(), cycles, interrupts.stat));
        }
    }

    /// Lets `cycles` pass for the divider (one tick per 256 cycles) and,
    /// while TAC enables it, the timer (one TIMA increment per period, an
    /// overflow reloading TMA and requesting the timer interrupt).
    fn advance_timer(&mut self, cycles: u32)
        requires
            old(self).inv(),
            cycles <= MAX_ADVANCE_CYCLES,
        ensures
            final(self).inv(),
            final(self).same_but_io_timer(old(self)),
            final(self).spec_io() == old(self).spec_io().update(0x0F, final(self).interrupt_flag_bits()),
            final(self).interrupt_flag_bits() & old(self).interrupt_flag_bits() == old(self).interrupt_flag_bits(),
            final(self).interrupt_flag_bits() & 0x1B == old(self).interrupt_flag_bits() & 0x1B,
            old(self).spec_timer().timer_after(final(self).spec_timer(), cycles, final(self).interrupt_flag_bits()),
            !old(self).spec_timer().overflows_within(cycles) ==> final(self).interrupt_flag_bits() == old(self).interrupt_flag_bits(),
    {
        let ghost start = *self;
        proof {
            lemma_flag_byte(self.io@[0x0F]);
        }
        self.timer.div_cycles += cycles;
        let ghost mut ticks: int = 0;
        while self.timer.div_cycles >= 256
            invariant
                self.timer.div_cycles + ticks * 256 == start.timer.div_cycles + cycles,
                self.timer.div == (start.timer.div + ticks) % 256,
                0 <= ticks,
                start.timer.div < 256,
                self.timer.tima == start.timer.tima,
                self.timer.tma == start.timer.tma,
                self.timer.tac == start.timer.tac,
                self.timer.tima_cycles == start.timer.tima_cycles,
                *self == (Bus { timer: self.timer, ..start }),
            decreases self.timer.div_cycles,
        {
            self.timer.div_cycles -= 256;
            self.timer.div = self.timer.div.wrapping_add(1);
            proof {
                vstd::arithmetic::div_mod::lemma_add_mod_noop(start.timer.div + ticks, 1, 256);
                vstd::arithmetic::div_mod::lemma_small_mod(1, 256);
                ticks = ticks + 1;
            }
        }
        proof {
            vstd::arithmetic::div_mod::lemma_fundamental_div_mod_converse(
                start.timer.div_cycles + cycles,
                256,
                ticks,
                self.timer.div_cycles as int,
            );
        }
        let ghost after_div = *self;
        if self.timer.tac & 0b100 != 0 {
            self.timer.tima_cycles += cycles;
            let period = timer_period(self.timer.tac);
            let ghost mut increments: nat = 0;
            proof {
                assert(self.io@ =~= after_div.io@.update(0x0F, self.interrupt_flag_bits()));
            }
            while self.timer.tima_cycles >= period
                invariant
                    self.inv_but_timer(),
                    after_div.parts_ok(),
                    after_div.io@[0x0F] & 0x1F == after_div.io@[0x0F],
                    self.timer.div_cycles < 256,
                    period == timer_period_of(after_div.timer.tac),
                    16 <= period <= 1024,
                    self.timer.tima_cycles + increments * period == after_div.timer.tima_cycles + cycles,
                    tima_after(after_div.timer.tima, after_div.timer.tma, increments).0 == self.timer.tima,
                    tima_after(after_div.timer.tima, after_div.timer.tma, increments).1 ==> self.interrupt_flag_bits() & 0x04 != 0,
                    !tima_after(after_div.timer.tima, after_div.timer.tma, increments).1 ==> self.interrupt_flag_bits() == after_div.interrupt_flag_bits(),
                    self.timer.div == after_div.timer.div,
                    self.timer.div_cycles == after_div.timer.div_cycles,
                    self.timer.tma == after_div.timer.tma,
                    self.timer.tac == after_div.timer.tac,
                    self.same_but_io_timer(&after_div),
                    self.spec_io() == after_div.spec_io().update(0x0F, self.interrupt_flag_bits()),
                    self.interrupt_flag_bits() & after_div.interrupt_flag_bits() == after_div.interrupt_flag_bits(),
                    self.interrupt_flag_bits() & 0x1B == after_div.interrupt_flag_bits() & 0x1B,
                decreases self.timer.tima_cycles,
            {
                self.timer.tima_cycles -= period;
                let tima = self.timer.tima;
                if tima == 255 {
                    self.timer.tima = self.timer.tma;
                    let ghost f0 = self.interrupt_flag_bits();
                    let ghost a0 = after_div.interrupt_flag_bits();
                    self.request_interrupt(INTERRUPT_TIMER);
                    proof {
                        let f1 = self.interrupt_flag_bits();
                        assert((1u8 << 2u8) == 4) by {
            lemma_byte_bits();
            lemma_word_bits();
        }
                        assert(f1 & 0x04 != 0 && f1 & 0x1B == a0 & 0x1B && f1 & a0 == a0)
                            by (bit_vector)
                            requires
                                f1 == (f0 | 4) & 0x1F,
                                f0 & a0 == a0,
                                f0 & 0x1B == a0 & 0x1B,
                                a0 & 0xE0 == 0,
                        ;
                        assert(self.io@ =~= after_div.io@.update(0x0F, f1));
                    }
                } else {
                    self.timer.tima = tima + 1;
                }
                proof {
                    increments = increments + 1;
                }
            }
            proof {
                vstd::arithmetic::div_mod::lemma_fundamental_div_mod_converse(
                    after_div.timer.tima_cycles + cycles,
                    period as int,
                    increments as int,
                    self.timer.tima_cycles as int,
                );
            }
        } else {
            proof {
                assert(self.io@ =~= start.io@.update(0x0F, self.interrupt_flag_bits()));
            }
        }
    }

    /// Moves a DMA transfer on by `cycles`: first its start-up delay, then
    /// one byte per four cycles until all 160 bytes are copied.
    #[verifier::rlimit(40)]
    #[verifier::spinoff_prover]
    fn advance_dma(&mut self, cycles: u32)
        requires
            old(self).inv(),
            cycles <= MAX_ADVANCE_CYCLES,
        ensures
            final(self).inv(),
            !old(self).spec_dma().active ==> *final(self) == *old(self),
            final(self).same_but_dma_oam(old(self)),
            old(self).spec_ppu().same_but_oam(&final(self).spec_ppu()),
            final(self).spec_dma() == dma_after(old(self).spec_dma(), cycles),
            old(self).spec_dma().active && old(self).spec_dma().source_high <= 0xDF ==> dma_filled(
                *old(self),
                old(self).spec_ppu().spec_oam(),
                old(self).spec_dma(),
                dma_after(old(self).spec_dma(), cycles).offset as int,
                final(self).spec_ppu().spec_oam(),
            ),
    {
        proof {
            self.ppu.lemma_same_but_oam_refl();
        }
        if !self.dma.active {
            return;
        }
        let ghost start = *self;
        let mut remaining = cycles;
        if self.dma.startup_cycles > 0 {
            let elapsed = if self.dma.startup_cycles < remaining {
                self.dma.startup_cycles
            } else {
                remaining
            };
            self.dma.startup_cycles -= elapsed;
            remaining -= elapsed;
        }
        self.dma.byte_cycles += remaining;
        let ghost mid = self.dma;
        while self.dma.active && self.dma.startup_cycles == 0 && self.dma.byte_cycles
            >= OAM_DMA_BYTE_CYCLES
            invariant
                self.inv_but_dma_cycles(),
                self.same_but_dma_oam(&start),
                start.spec_ppu().same_but_oam(&self.spec_ppu()),
                self.timer == start.timer,
                self.dma.offset <= OAM_DMA_BYTES,
                self.dma.startup_cycles <= OAM_DMA_STARTUP_CYCLES,
                self.dma.active ==> self.dma.offset < OAM_DMA_BYTES,
                self.dma.startup_cycles > 0 ==> self.dma.byte_cycles < OAM_DMA_BYTE_CYCLES,
                !self.dma.active ==> self.dma.byte_cycles == 0,
                self.dma.source_high == start.dma.source_high,
                self.dma.startup_cycles == mid.startup_cycles,
                start.dma.offset <= self.dma.offset,
                self.dma.active ==> self.dma.byte_cycles + (self.dma.offset - start.dma.offset)
                    * OAM_DMA_BYTE_CYCLES == mid.byte_cycles,
                !self.dma.active ==> self.dma.offset == OAM_DMA_BYTES && (self.dma.offset
                    - start.dma.offset) * OAM_DMA_BYTE_CYCLES <= mid.byte_cycles,
                self.dma.startup_cycles > 0 ==> self.dma.offset == start.dma.offset,
                start.dma.source_high <= 0xDF ==> dma_filled(
                    start,
                    start.spec_ppu().spec_oam(),
                    start.dma,
                    self.dma.offset as int,
                    self.spec_ppu().spec_oam(),
                ),
            decreases self.dma.byte_cycles,
        {
            self.dma.byte_cycles -= OAM_DMA_BYTE_CYCLES;
            let ghost before = self.ppu;
            let ghost before_bus = *self;
            proof {
                if start.dma.source_high <= 0xDF {
                    lemma_dma_source(self.dma.source_high, self.dma.offset);
                    before_bus.lemma_dma_read_same(&start, dma_source_of(start.dma.source_high, self.dma.offset as int));
                }
            }
            self.dma_copy_next_byte();
            proof {
                start.ppu.lemma_same_but_oam_trans(&before, &self.ppu);
                if start.dma.source_high <= 0xDF {
                    let off = before_bus.dma.offset as int;
                    assert(before_bus.dma_source() == dma_source_of(start.dma.source_high, off));
                    before.lemma_memory_sizes();
                    lemma_dma_filled_step(start, start.spec_ppu().spec_oam(), start.dma, off, before.spec_oam(), self.spec_ppu().spec_oam());
                }
            }
        }
    }

    /// Copies the next byte of the transfer into object memory.
    fn dma_copy_next_byte(&mut self)
        requires
            old(self).inv_but_dma_cycles(),
            old(self).spec_dma().active,
            old(self).spec_dma().offset < OAM_DMA_BYTES,
        ensures
            final(self).inv_but_dma_cycles(),
            final(self).same_but_dma_oam(old(self)),
            old(self).spec_ppu().same_but_oam(&final(self).spec_ppu()),
            final(self).spec_ppu().spec_oam() == old(self).spec_ppu().spec_oam().update(
                old(self).spec_dma().offset as int,
                old(self).dma_read_spec(old(self).dma_source()),
            ),
            final(self).spec_dma().offset == old(self).spec_dma().offset + 1,
            final(self).spec_dma().active == (old(self).spec_dma().offset + 1 < OAM_DMA_BYTES),
            final(self).spec_dma().active ==> final(self).spec_dma().byte_cycles == old(self).spec_dma().byte_cycles,
            !final(self).spec_dma().active ==> final(self).spec_dma().byte_cycles == 0,
            final(self).spec_dma().startup_cycles == old(self).spec_dma().startup_cycles,
            final(self).spec_dma().source_high == old(self).spec_dma().source_high,
    {
        let source = ((self.dma.source_high as u16) << 8).wrapping_add(self.dma.offset);
        let value = self.dma_read_byte(source);
        self.ppu.write_oam_raw(self.dma.offset, value);
        self.dma.offset += 1;
        if self.dma.offset >= OAM_DMA_BYTES {
            self.dma.active = false;
            self.dma.byte_cycles = 0;
        }
    }

    /// Reads of ROM, video RAM, cartridge RAM and work RAM that the DMA
    /// unit makes are the same in two buses that differ only in the DMA
    /// state and object memory.
    proof fn lemma_dma_read_same(&self, other: &Bus, address: u16)
        requires
            self.inv_but_dma_cycles(),
            self.same_but_dma_oam(other),
            other.spec_ppu().same_but_oam(&self.spec_ppu()),
            address <= 0xDFFF,
        ensures
            self.dma_read_spec(address) == other.dma_read_spec(address),
    {
        other.spec_ppu().lemma_same_but_oam_facts(&self.spec_ppu());
        self.spec_ppu().lemma_memory_sizes();
        assert(self.cartridge == other.cartridge);
        assert(self.wram == other.wram);
        if VRAM_START <= address <= VRAM_END {
            assert(self.ppu.vram_raw((address - VRAM_START) as u16) == other.ppu.vram_raw(
                (address - VRAM_START) as u16,
            ));
        }
    }

    /// The address the transfer reads its next byte from.
    pub closed spec fn dma_source(&self) -> u16 {
        ((self.dma.source_high as u16) << 8u16).wrapping_add(self.dma.offset)
    }

    /// What the DMA unit reads at `address`: like the CPU but ignoring the
    /// PPU's access restrictions, with 0xFF wherever nothing answers.
    pub closed spec fn dma_read_spec(&self, address: u16) -> u8 {
        let or_ff = |v: Option<u8>| match v {
            Some(b) => b,
            None => 0xFFu8,
        };
        if address <= 0x7FFF {
            match self.cartridge {
                Some(c) => or_ff(c.rom_read(address)),
                None => 0xFF,
            }
        } else if address <= VRAM_END {
            or_ff(self.ppu.vram_raw((address - VRAM_START) as u16))
        } else if address <= ERAM_END {
            match self.cartridge {
                Some(c) => or_ff(c.ram_read((address - ERAM_START) as u16)),
                None => 0xFF,
            }
        } else if address <= WRAM_END {
            self.wram@[address - WRAM_START]
        } else if address <= ECHO_RAM_END {
            self.wram@[address - ECHO_RAM_START]
        } else if address <= OAM_END {
            or_ff(self.ppu.oam_raw((address - OAM_START) as u16))
        } else if address <= UNUSABLE_END {
            0xFF
        } else {
            match self.read_spec_plain(address) {
                Ok(v) => v,
                Err(_) => 0xFF,
            }
        }
    }

    /// The CPU view of an I/O, high-RAM or IE address, ignoring DMA.
    pub closed spec fn read_spec_plain(&self, address: u16) -> Result<u8> {
        let quiet = Bus { dma: DmaState { active: false, ..self.dma }, ..*self };
        quiet.read_spec(address)
    }

    pub fn dma_read_byte(&self, address: u16) -> (value: u8)
        requires
            self.inv_but_dma_cycles(),
        ensures
            value == self.dma_read_spec(address),
    {
        if address <= 0x7FFF {
            match &self.cartridge {
                Some(cart) => match cart.read_rom(address) {
                    Some(v) => v,
                    None => 0xFF,
                },
                None => 0xFF,
            }
        } else if address <= VRAM_END {
            match self.ppu.read_vram_raw(address - VRAM_START) {
                Some(v) => v,
                None => 0xFF,
            }
        } else if address <= ERAM_END {
            match &self.cartridge {
                Some(cart) => match cart.read_ram(address - ERAM_START) {
                    Some(v) => v,
                    None => 0xFF,
                },
                None => 0xFF,
            }
        } else if address <= WRAM_END {
            self.ram_byte(&self.wram, (address - WRAM_START) as usize)
        } else if address <= ECHO_RAM_END {
            self.ram_byte(&self.wram, (address - ECHO_RAM_START) as usize)
        } else if address <= OAM_END {
            match self.ppu.read_oam_raw(address - OAM_START) {
                Some(v) => v,
                None => 0xFF,
            }
        } else if address <= UNUSABLE_END {
            0xFF
        } else if address == DIV {
            self.timer.div
        } else if address == TIMA {
            self.timer.tima
        } else if address == TMA {
            self.timer.tma
        } else if address == TAC {
            self.timer.tac | 0xF8
        } else if address == JOYPAD {
            self.joypad.read()
        } else if address == SERIAL_DATA {
            self.serial.read_data()
        } else if address == SERIAL_CONTROL {
            self.serial.read_control()
        } else if address == NR52 {
            self.apu.read_nr52()
        } else if address == INTERRUPT_FLAG {
            self.interrupt_flag() | 0xE0
        } else if address == KEY1 {
            self.cgb.read_key1()
        } else if 0xFF40 <= address && address <= 0xFF4B {
            match self.ppu.read_register(address) {
                Some(v) => v,
                None => self.io_byte((address - IO_START) as usize),
            }
        } else if address <= IO_END {
            self.io_byte((address - IO_START) as usize)
        } else if address <= HRAM_END {
            self.hram_byte((address - HRAM_START) as usize)
        } else {
            self.interrupt_enable
        }
    }

    /// Only the DMA state and object memory differ from `other`.
    pub closed spec fn same_but_dma_oam(&self, other: &Bus) -> bool {
        &&& self.cartridge == other.cartridge
        &&& self.io == other.io
        &&& self.wram == other.wram
        &&& self.hram == other.hram
        &&& self.interrupt_enable == other.interrupt_enable
        &&& self.timer == other.timer
        &&& self.joypad == other.joypad
        &&& self.serial == other.serial
        &&& self.cgb == other.cgb
        &&& self.apu == other.apu
        &&& self.audio == other.audio
    }

    /// The bus is well formed apart from the DMA cycle count.
    pub closed spec fn inv_but_dma_cycles(&self) -> bool {
        &&& self.parts_ok()
        &&& self.timer.div_cycles < 256
        &&& self.timer.tima_cycles < 1024
    }

    fn ram_byte(&self, region: &MemoryRegion<0x2000>, offset: usize) -> (value: u8)
        requires
            region.inv(),
            offset < 0x2000,
        ensures
            value == region@[offset as int],
    {
        match region.read(offset) {
            Some(v) => v,
            None => 0,
        }
    }

    fn io_byte(&self, offset: usize) -> (value: u8)
        requires
            self.parts_ok(),
            offset < 0x80,
        ensures
            value == self.spec_io()[offset as int],
    {
        match self.io.read(offset) {
            Some(v) => v,
            None => 0,
        }
    }

    fn hram_byte(&self, offset: usize) -> (value: u8)
        requires
            self.parts_ok(),
            offset < 0x7F,
        ensures
            value == self.spec_hram()[offset as int],
    {
        match self.hram.read(offset) {
            Some(v) => v,
            None => 0,
        }
    }
}


/// Work RAM gives back what was written: after a write of `value` to a
/// work-RAM address (or its echo) that no DMA blocks, reading that
/// address, or the same byte through the other window, gives `value`, and
/// every address outside work RAM and its echo reads as before.
pub proof fn lemma_wram_read_after_write(before: Bus, after: Bus, address: u16, value: u8)
    requires
        before.inv(),
        WRAM_START <= address <= ECHO_RAM_END,
        !before.dma_blocks(address),
        after.spec_wram() == before.spec_wram().update(
            if address <= WRAM_END {
                address - WRAM_START
            } else {
                address - ECHO_RAM_START
            },
            value,
        ),
        after.same_but_wram(&before),
    ensures
        after.read_spec(address) == Ok::<u8, EmulatorError>(value),
        address <= WRAM_END && address - WRAM_START < ECHO_RAM_END - ECHO_RAM_START + 1 ==> after.read_spec(
            (address + 0x2000) as u16,
        ) == Ok::<u8, EmulatorError>(value),
        address > WRAM_END ==> after.read_spec((address - 0x2000) as u16) == Ok::<u8, EmulatorError>(value),
        forall|other: u16| !(WRAM_START <= other <= ECHO_RAM_END) ==> after.read_spec(other) == before.read_spec(
            other,
        ),
{
}

/// A write to RAM reads back at its address and changes the reads of no
/// other stable address but those naming the same byte.
proof fn lemma_ram_write_reads(before: Bus, after: Bus, address: u16, value: u8)
    requires
        before.inv(),
        !before.dma_blocks(address),
        Bus::ram_address(address),
        WRAM_START <= address <= ECHO_RAM_END ==> after.spec_wram() == before.spec_wram().update(
            if address <= WRAM_END {
                address - WRAM_START
            } else {
                address - ECHO_RAM_START
            },
            value,
        ) && after.same_but_wram(&before),
        HRAM_START <= address <= HRAM_END ==> after.spec_hram() == before.spec_hram().update(
            address - HRAM_START,
            value,
        ) && after.same_but_hram(&before),
    ensures
        after.read_spec(address) == Ok::<u8, EmulatorError>(value),
        after.spec_dma() == before.spec_dma(),
        forall|other: u16|
            Bus::stable_address(other) && !(Bus::ram_address(other) && Bus::ram_cell(other) == Bus::ram_cell(
                address,
            )) ==> #[trigger] after.read_spec(other) == before.read_spec(other),
{
    if WRAM_START <= address <= ECHO_RAM_END {
        lemma_wram_read_after_write(before, after, address, value);
    } else {
        lemma_hram_read_after_write(before, after, address, value);
    }
}

/// A plain I/O register gives back what was written: after a write of
/// `value` to an I/O address kept as a plain byte (the sound status NR52
/// aside, which reads the channels' state), reading it gives `value`.
pub proof fn lemma_io_read_after_write(before: Bus, after: Bus, address: u16, value: u8)
    requires
        before.inv(),
        after.inv(),
        Bus::io_plain(address),
        address != NR52,
        !after.dma_blocks(address),
        after.spec_io() == before.spec_io().update(io_offset(address), value),
    ensures
        after.read_spec(address) == Ok::<u8, EmulatorError>(value),
{
    if 0xFF40 <= address <= 0xFF4B {
        after.spec_ppu().lemma_undecoded_register(address);
    }
}

/// An LCD register that holds what is written (the scroll, window and
/// palette registers) reads back the written value.
pub proof fn lemma_lcd_register_read_after_write(after: Bus, address: u16, value: u8)
    requires
        Ppu::is_plain_register(address),
        !after.dma_blocks(address),
        after.spec_ppu().register_read(address) == Some(value),
    ensures
        after.read_spec(address) == Ok::<u8, EmulatorError>(value),
{
}

/// High RAM gives back what was written, and nothing else reads
/// differently.
pub proof fn lemma_hram_read_after_write(before: Bus, after: Bus, address: u16, value: u8)
    requires
        before.inv(),
        HRAM_START <= address <= HRAM_END,
        after.spec_hram() == before.spec_hram().update(address - HRAM_START, value),
        after.same_but_hram(&before),
    ensures
        after.read_spec(address) == Ok::<u8, EmulatorError>(value),
        forall|other: u16| other != address ==> after.read_spec(other) == before.read_spec(other),
{
}

/// Video RAM gives back what was written: after a write of `value` to a
/// video-RAM address that neither DMA nor drawing blocks, reading it gives
/// `value` (from the same bank).
pub proof fn lemma_vram_read_after_write(before: Bus, after: Bus, address: u16, value: u8)
    requires
        before.inv(),
        VRAM_START <= address <= VRAM_END,
        !before.dma_blocks(address),
        !before.spec_ppu().vram_blocked(),
        after.spec_dma() == before.spec_dma(),
        after.spec_ppu().spec_mode() == before.spec_ppu().spec_mode(),
        after.spec_ppu().spec_lcdc() == before.spec_ppu().spec_lcdc(),
        after.spec_ppu().spec_vbk() == before.spec_ppu().spec_vbk(),
        after.spec_ppu().spec_vram(before.spec_ppu().spec_vbk() as int) == before.spec_ppu().spec_vram(
            before.spec_ppu().spec_vbk() as int,
        ).update(address - VRAM_START, value),
    ensures
        after.read_spec(address) == Ok::<u8, EmulatorError>(value),
{
    before.spec_ppu().lemma_memory_sizes();
}

/// Object memory gives back what was written: after a write of `value` to
/// an object-memory address that neither DMA nor the display blocks,
/// reading it gives `value`.
pub proof fn lemma_oam_read_after_write(before: Bus, after: Bus, address: u16, value: u8)
    requires
        before.inv(),
        OAM_START <= address <= OAM_END,
        !before.dma_blocks(address),
        !before.spec_ppu().oam_blocked(),
        after.spec_dma() == before.spec_dma(),
        after.spec_ppu().spec_mode() == before.spec_ppu().spec_mode(),
        after.spec_ppu().spec_lcdc() == before.spec_ppu().spec_lcdc(),
        after.spec_ppu().spec_oam() == before.spec_ppu().spec_oam().update(address - OAM_START, value),
    ensures
        after.read_spec(address) == Ok::<u8, EmulatorError>(value),
{
    before.spec_ppu().lemma_memory_sizes();
}
} // verus!
