use vstd::prelude::*;
use crate::apu::SampleMix;
use crate::bus::{fresh_bus, Bus};
use crate::cartridge::{cartridge_built, lemma_refusal_unique, refused_with, same_error,
    mapper_kind_for, mapper_rtc, battery_for, rom_accepted, Cartridge,
    CartridgeHeader, Mapper, CARTRIDGE_TYPE_OFFSET, MIN_ROM_SIZE,
};
use crate::cpu::{bus_ready, step_outcome, Cpu, CpuMode, CycleCount, Registers, MAX_INSTRUCTION_CYCLES};
use crate::error::{is_invalid_rom, EmulatorError, Result};
use crate::joypad::JoypadState;
use crate::ppu::PpuMode;

verus! {

/// Cycles in one video frame: 154 lines of 456 dots.
pub const DOTS_PER_FRAME: CycleCount = 70224;

/// Which console to emulate for a cartridge.
#[derive(Debug, Clone, Copy, PartialEq, Eq, Structural)]
pub enum HardwareModel {
    /// Colour when the cartridge header supports it, otherwise DMG.
    Auto,
    Dmg,
    Cgb,
}

/// Whether a cartridge with `header` runs in colour mode on `model`.
pub open spec fn cgb_mode_for(model: HardwareModel, header: CartridgeHeader) -> bool {
    match model {
        HardwareModel::Auto => header.spec_cgb_flag() == 0x80 || header.spec_cgb_flag() == 0xC0,
        HardwareModel::Dmg => false,
        HardwareModel::Cgb => true,
    }
}

/// The registers the boot ROM leaves behind, with `a` telling the models
/// apart (0x01 on a DMG, 0x11 on a CGB).
pub open spec fn boot_registers(a: u8) -> Registers {
    Registers { a, f: 0xB0, b: 0x00, c: 0x13, d: 0x00, e: 0xD8, h: 0x01, l: 0x4D, pc: 0x0100, sp: 0xFFFE }
}

/// A CPU fresh from the boot ROM: running, interrupts disabled.
pub open spec fn boot_cpu(cpu: Cpu, a: u8) -> bool {
    &&& cpu.inv()
    &&& cpu.regs() == boot_registers(a)
    &&& cpu.spec_mode() == CpuMode::Running
    &&& !cpu.ime()
    &&& cpu.ime_delay() is None
    &&& !cpu.halt_bug_pending()
}

/// The console: a CPU and the bus it drives.
#[derive(Debug, Clone, PartialEq, Eq)]
pub struct Emulator {
    cpu: Cpu,
    bus: Bus,
}

impl Default for Emulator {
    /// A CPU with every register zero and an empty bus.
    fn default() -> (emulator: Self)
        ensures
            emulator.can_run(),
            emulator.spec_cpu().regs() == (Registers { a: 0, f: 0, b: 0, c: 0, d: 0, e: 0, h: 0, l: 0, pc: 0, sp: 0 }),
            emulator.spec_bus().spec_cartridge() is None,
            fresh_bus(emulator.spec_bus()),
    {
        Emulator { cpu: Cpu::default(), bus: Bus::default() }
    }
}

/// What loading `rom` on `model` does, from `before` to `after`.
pub open spec fn rom_loaded(
    before: Emulator,
    after: Emulator,
    rom: Seq<u8>,
    model: HardwareModel,
    result: Result<()>,
) -> bool {
    &&& after.inv()
    &&& (result is Ok <==> rom_accepted(rom))
    &&& rom.len() < MIN_ROM_SIZE ==> is_invalid_rom(result)
    &&& rom.len() >= MIN_ROM_SIZE && mapper_kind_for(rom[CARTRIDGE_TYPE_OFFSET as int]) is None ==> result
        == Err::<(), EmulatorError>(
        EmulatorError::UnsupportedCartridge { cartridge_type: rom[CARTRIDGE_TYPE_OFFSET as int] },
    )
    &&& rom.len() >= MIN_ROM_SIZE && mapper_kind_for(rom[CARTRIDGE_TYPE_OFFSET as int]) is Some
        && result is Err ==> is_invalid_rom(result)
    &&& result is Err ==> after == before
    &&& result matches Err(e) ==> refused_with(rom, e)
    &&& result is Ok ==> {
        let c = after.spec_bus().spec_cartridge()->Some_0;
        let cgb = cgb_mode_for(model, c.spec_header());
        &&& after.can_run()
        &&& after.spec_bus().spec_cartridge() is Some
        &&& c.spec_header().parsed_from(rom)
        &&& c.spec_rom() == rom.subrange(0, c.spec_header().spec_rom_size() as int)
        &&& c.spec_ram() == Seq::new(c.spec_header().spec_ram_size(), |i: int| 0u8)
        &&& c.spec_mapper() == Mapper::initial(
            c.spec_header().spec_mapper_kind(),
            c.spec_header().spec_cartridge_type(),
        )
        &&& after.spec_bus().spec_cgb().enabled == cgb
        &&& boot_cpu(after.spec_cpu(), if cgb { 0x11u8 } else { 0x01u8 })
        &&& after.spec_bus().spec_wram() == before.spec_bus().spec_wram()
        &&& after.spec_bus() == before.spec_bus().with_cartridge(c).with_cgb_mode(cgb)
    }
}

impl Emulator {
    pub closed spec fn spec_cpu(&self) -> Cpu {
        self.cpu
    }

    pub closed spec fn spec_bus(&self) -> Bus {
        self.bus
    }

    /// The CPU and the bus are well formed.
    pub open spec fn inv(&self) -> bool {
        self.spec_cpu().inv() && self.spec_bus().inv()
    }

    /// Well formed, and the cartridge clock has room for the next
    /// instruction.
    pub open spec fn can_run(&self) -> bool {
        self.spec_cpu().inv() && bus_ready(&self.spec_bus())
    }

    /// A DMG fresh from its boot ROM, with no cartridge.
    pub fn new() -> (emulator: Self)
        ensures
            emulator.can_run(),
            boot_cpu(emulator.spec_cpu(), 0x01),
            emulator.spec_bus().spec_cartridge() is None,
            !emulator.spec_bus().spec_cgb().enabled,
            emulator.spec_bus().spec_ppu().spec_mode() == PpuMode::OamScan,
            fresh_bus(emulator.spec_bus()),
    {
        Emulator { cpu: Cpu::new_without_boot_rom(), bus: Bus::new() }
    }

    /// Inserts a cartridge built from `bytes`, in colour mode when its
    /// header supports it, and resets the CPU to the matching boot state.
    pub fn load_rom(&mut self, bytes: Vec<u8>) -> (result: Result<()>)
        requires
            old(self).inv(),
        ensures
            rom_loaded(*old(self), *final(self), bytes@, HardwareModel::Auto, result),
    {
        self.load_rom_with_model(bytes, HardwareModel::Auto)
    }

    /// Inserts a cartridge built from `bytes` on the chosen model and resets
    /// the CPU to that model's boot state. A ROM the cartridge refuses
    /// leaves everything as it was.
    pub fn load_rom_with_model(&mut self, bytes: Vec<u8>, model: HardwareModel) -> (result: Result<()>)
        requires
            old(self).inv(),
        ensures
            rom_loaded(*old(self), *final(self), bytes@, model, result),
    {
        let ghost rom = bytes@;
        let cartridge = match Cartridge::from_bytes(bytes) {
            Ok(c) => c,
            Err(e) => {
                return Err(e);
            },
        };
        let cgb_mode = match model {
            HardwareModel::Auto => cartridge.header().supports_cgb(),
            HardwareModel::Dmg => false,
            HardwareModel::Cgb => true,
        };
        self.bus.insert_cartridge(cartridge);
        self.bus.set_cgb_mode(cgb_mode);
        self.cpu = if cgb_mode {
            Cpu::new_cgb_without_boot_rom()
        } else {
            Cpu::new_without_boot_rom()
        };
        Ok(())
    }

    /// Whether the cartridge has battery-backed RAM to keep.
    pub fn has_battery_save(&self) -> (battery: bool)
        ensures
            battery == (self.spec_bus().spec_cartridge() matches Some(c) && battery_for(
                c.spec_header().spec_cartridge_type(),
            ) && c.spec_ram().len() > 0),
    {
        match self.bus.cartridge() {
            Some(cartridge) => cartridge.save_ram().is_some(),
            None => false,
        }
    }

    /// Restores the cartridge RAM from a save; without a cartridge nothing
    /// happens.
    pub fn load_save_ram(&mut self, bytes: &[u8]) -> (result: Result<()>)
        requires
            old(self).inv(),
        ensures
            final(self).inv(),
            old(self).can_run() ==> final(self).can_run(),
            final(self).spec_cpu() == old(self).spec_cpu(),
            old(self).spec_bus().spec_cartridge() is None ==> result is Ok && *final(self) == *old(self),
            old(self).spec_bus().spec_cartridge() matches Some(c) ==> {
                let c1 = final(self).spec_bus().spec_cartridge()->Some_0;
                &&& final(self).spec_bus().spec_cartridge() is Some
                &&& (result is Ok <==> bytes@.len() == c.spec_ram().len())
                &&& (result is Err ==> is_invalid_rom(result) && c1.spec_ram() == c.spec_ram())
                &&& (result is Ok ==> c1.spec_ram() == bytes@)
                &&& c1.spec_rom() == c.spec_rom()
                &&& c1.spec_header() == c.spec_header()
                &&& c1.spec_mapper() == c.spec_mapper()
            },
    {
        match self.bus.cartridge_mut() {
            Some(cartridge) => cartridge.load_save_ram(bytes),
            None => Ok(()),
        }
    }

    /// The battery-backed RAM to write to a save, if the cartridge has any.
    pub fn save_ram(&self) -> (save: Option<&[u8]>)
        ensures
            save is Some <==> self.has_battery_ram(),
            save matches Some(bytes) ==> bytes@ == self.spec_bus().spec_cartridge()->Some_0.spec_ram(),
    {
        match self.bus.cartridge() {
            Some(cartridge) => cartridge.save_ram(),
            None => None,
        }
    }

    /// The cartridge has battery-backed RAM.
    pub open spec fn has_battery_ram(&self) -> bool {
        self.spec_bus().spec_cartridge() matches Some(c) && battery_for(c.spec_header().spec_cartridge_type())
            && c.spec_ram().len() > 0
    }

    /// The cartridge has a battery-backed real-time clock.
    pub open spec fn has_battery_clock(&self) -> bool {
        self.spec_bus().spec_cartridge() matches Some(c) && battery_for(c.spec_header().spec_cartridge_type())
            && mapper_rtc(c.spec_mapper()) is Some
    }

    /// Whether the cartridge has a battery-backed clock to keep.
    pub fn has_battery_rtc(&self) -> (battery: bool)
        ensures
            battery == self.has_battery_clock(),
    {
        match self.bus.cartridge() {
            Some(cartridge) => cartridge.save_rtc().is_some(),
            None => false,
        }
    }

    /// Restores the cartridge clock from a save; without a cartridge
    /// nothing happens.
    pub fn load_save_rtc(&mut self, bytes: &[u8]) -> (result: Result<()>)
        requires
            old(self).inv(),
        ensures
            final(self).inv(),
            final(self).spec_cpu() == old(self).spec_cpu(),
            old(self).spec_bus().spec_cartridge() is None ==> result is Ok && *final(self) == *old(self),
            old(self).spec_bus().spec_cartridge() matches Some(c) ==> {
                let c1 = final(self).spec_bus().spec_cartridge()->Some_0;
                &&& final(self).spec_bus().spec_cartridge() is Some
                &&& (mapper_rtc(c.spec_mapper()) is Some ==> (result is Ok <==> bytes@.len()
                    == crate::cartridge::rtc::RTC_SAVE_LEN))
                &&& (mapper_rtc(c.spec_mapper()) is None ==> (result is Ok <==> bytes@.len() == 0))
                &&& (result is Err ==> is_invalid_rom(result))
                &&& (result is Err || mapper_rtc(c.spec_mapper()) is None ==> c1.spec_mapper() == c.spec_mapper())
                &&& (result is Ok && mapper_rtc(c.spec_mapper()) is Some ==> mapper_rtc(c1.spec_mapper()) is Some
                    && mapper_rtc(c1.spec_mapper())->Some_0.restored_from(bytes@))
                &&& c1.spec_ram() == c.spec_ram()
                &&& c1.spec_rom() == c.spec_rom()
                &&& c1.spec_header() == c.spec_header()
            },
    {
        match self.bus.cartridge_mut() {
            Some(cartridge) => cartridge.load_save_rtc(bytes),
            None => Ok(()),
        }
    }

    /// The clock state to write to a save, if the cartridge keeps one.
    pub fn save_rtc(&self) -> (save: Option<Vec<u8>>)
        ensures
            save is Some <==> self.has_battery_clock(),
            save matches Some(bytes) ==> bytes@ == mapper_rtc(
                self.spec_bus().spec_cartridge()->Some_0.spec_mapper(),
            )->Some_0.save_bytes(),
    {
        match self.bus.cartridge() {
            Some(cartridge) => cartridge.save_rtc(),
            None => None,
        }
    }

    /// Whether the cartridge clock has room for the next instruction (a
    /// clock restored from a save can hold a count too close to its limit).
    pub fn can_step(&self) -> (ok: bool)
        ensures
            ok == (self.spec_bus().cycle_room() >= 4),
    {
        self.bus.clock_room() >= 4
    }

    /// Runs one CPU step (see `Cpu::step`).
    pub fn step(&mut self) -> (result: Result<CycleCount>)
        requires
            old(self).can_run(),
        ensures
            final(self).can_run(),
            result matches Ok(c) ==> 4 <= c <= MAX_INSTRUCTION_CYCLES && c % 4 == 0,
            step_outcome(
                old(self).spec_cpu(),
                old(self).spec_bus(),
                final(self).spec_cpu(),
                final(self).spec_bus(),
                result,
            ),
    {
        let result = self.cpu.step(&mut self.bus);
        proof {
            reveal(step_outcome);
        }
        result
    }

    /// Steps until the PPU completes a frame or a frame's worth of cycles
    /// has passed, and reports the cycles taken; the frame-ready flag is
    /// consumed after each step. A failing step ends the frame with its
    /// error. `frame_run` states the steps taken.
    pub fn run_frame(&mut self) -> (result: Result<CycleCount>)
        requires
            old(self).can_run(),
        ensures
            final(self).can_run(),
            result matches Ok(cycles) ==> 4 <= cycles < DOTS_PER_FRAME + MAX_INSTRUCTION_CYCLES && cycles
                % 4 == 0 && !final(self).spec_bus().spec_ppu().spec_frame_ready(),
            frame_outcome(old(self).spec_cpu(), old(self).spec_bus(), final(self).spec_cpu(), final(self).spec_bus(), result),
    {
        let mut elapsed: CycleCount = 0;
        let ghost start = (old(self).spec_cpu(), old(self).spec_bus());
        let ghost mut before: Seq<(Cpu, Bus)> = seq![start];
        let ghost mut after: Seq<(Cpu, Bus)> = Seq::empty();
        let ghost mut costs: Seq<CycleCount> = Seq::empty();
        loop
            invariant
                self.can_run(),
                elapsed < DOTS_PER_FRAME,
                elapsed % 4 == 0,
                before.len() == after.len() + 1,
                costs.len() == after.len(),
                start == (old(self).spec_cpu(), old(self).spec_bus()),
                before[0] == start,
                before.last() == (self.spec_cpu(), self.spec_bus()),
                elapsed == cycle_total(costs),
                forall|i: int| 0 <= i < after.len() ==> #[trigger] completed_step(before, after, costs, i),
            decreases DOTS_PER_FRAME - elapsed,
        {
            let cycles = match self.step() {
                Ok(c) => c,
                Err(e) => {
                    proof {
                        let last = (self.spec_cpu(), self.spec_bus());
                        let after_all = after.push(last);
                        let costs_all = costs.push(0);
                        lemma_steps_kept(before, after, costs, last, 0);
                        assert(frame_run(
                            old(self).spec_cpu(),
                            old(self).spec_bus(),
                            self.spec_cpu(),
                            self.spec_bus(),
                            Err(e),
                            before,
                            after_all,
                            costs_all,
                        ));
                    }
                    return Err(e);
                },
            };
            let ghost mid = (self.spec_cpu(), self.spec_bus());
            elapsed += cycles;
            let ready = self.take_frame_ready();
            proof {
                lemma_steps_kept(before, after, costs, mid, cycles);
                assert(costs.push(cycles).drop_last() =~= costs);
                after = after.push(mid);
                costs = costs.push(cycles);
            }
            if ready || elapsed >= DOTS_PER_FRAME {
                proof {
                    assert(costs.take(costs.len() as int) =~= costs);
                    assert(frame_run(
                        old(self).spec_cpu(),
                        old(self).spec_bus(),
                        self.spec_cpu(),
                        self.spec_bus(),
                        Ok(elapsed),
                        before,
                        after,
                        costs,
                    ));
                }
                return Ok(elapsed);
            }
            proof {
                let k = after.len() - 1;
                assert(costs.take(k + 1) =~= costs);
                assert(completed_step(before.push((self.spec_cpu(), self.spec_bus())), after, costs, k));
                assert forall|i: int| 0 <= i < after.len() implies #[trigger] completed_step(
                    before.push((self.spec_cpu(), self.spec_bus())),
                    after,
                    costs,
                    i,
                ) by {
                    if i < k {
                        assert(completed_step(before, after, costs, i));
                    }
                }
                before = before.push((self.spec_cpu(), self.spec_bus()));
            }
        }
    }

    pub fn registers(&self) -> (registers: &Registers)
        ensures
            *registers == self.spec_cpu().regs(),
    {
        self.cpu.registers()
    }

    pub fn bus(&self) -> (bus: &Bus)
        ensures
            *bus == self.spec_bus(),
    {
        &self.bus
    }

    /// Direct access to the bus; the CPU is left as it is.
    pub fn bus_mut(&mut self) -> (bus: &mut Bus)
        ensures
            *bus == old(self).spec_bus(),
            final(self).spec_bus() == *final(bus),
            final(self).spec_cpu() == old(self).spec_cpu(),
    {
        &mut self.bus
    }

    /// Direct access to the CPU; the bus is left as it is.
    pub fn cpu_mut(&mut self) -> (cpu: &mut Cpu)
        ensures
            *cpu == old(self).spec_cpu(),
            final(self).spec_cpu() == *final(cpu),
            final(self).spec_bus() == old(self).spec_bus(),
    {
        &mut self.cpu
    }

    pub fn ppu_mode(&self) -> (mode: PpuMode)
        ensures
            mode == self.spec_bus().spec_ppu().spec_mode(),
    {
        self.bus.ppu_mode()
    }

    pub fn framebuffer(&self) -> (pixels: &[u32])
        ensures
            pixels@ == self.spec_bus().spec_ppu().spec_framebuffer(),
    {
        self.bus.framebuffer()
    }

    /// Reports whether a frame was completed since the last call, and
    /// clears the flag.
    pub fn take_frame_ready(&mut self) -> (ready: bool)
        requires
            old(self).inv(),
        ensures
            final(self).inv(),
            old(self).can_run() ==> final(self).can_run(),
            ready == old(self).spec_bus().spec_ppu().spec_frame_ready(),
            !final(self).spec_bus().spec_ppu().spec_frame_ready(),
            final(self).spec_cpu() == old(self).spec_cpu(),
            final(self).spec_bus() == old(self).spec_bus().frame_consumed(),
    {
        self.bus.take_frame_ready()
    }

    /// Sets the buttons held (see `Bus::set_joypad_state`).
    pub fn set_joypad_state(&mut self, state: JoypadState)
        requires
            old(self).inv(),
        ensures
            final(self).inv(),
            old(self).can_run() ==> final(self).can_run(),
            final(self).spec_bus().spec_joypad().state == state,
            final(self).spec_cpu() == old(self).spec_cpu(),
    {
        self.bus.set_joypad_state(state);
    }

    pub fn joypad_state(&self) -> (state: JoypadState)
        ensures
            state == self.spec_bus().spec_joypad().state,
    {
        self.bus.joypad_state()
    }

    /// Takes the bytes sent over the serial port since the last call.
    pub fn take_serial_output(&mut self) -> (sent: Vec<u8>)
        requires
            old(self).inv(),
        ensures
            final(self).inv(),
            old(self).can_run() ==> final(self).can_run(),
            sent@ == old(self).spec_bus().spec_serial().spec_output(),
            final(self).spec_bus().spec_serial().spec_output() == Seq::<u8>::empty(),
            final(self).spec_cpu() == old(self).spec_cpu(),
            final(self).spec_bus().same_but_serial_output(&old(self).spec_bus()),
    {
        self.bus.take_serial_output()
    }

    /// Takes the audio samples mixed since the last call.
    pub fn take_audio_samples(&mut self) -> (samples: Vec<SampleMix>)
        requires
            old(self).inv(),
        ensures
            final(self).inv(),
            old(self).can_run() ==> final(self).can_run(),
            samples@ == old(self).spec_bus().spec_audio().spec_samples(),
            final(self).spec_bus().spec_audio().spec_samples() == Seq::<SampleMix>::empty(),
            final(self).spec_cpu() == old(self).spec_cpu(),
    {
        self.bus.take_audio_samples()
    }
}

/// The cycles of `costs` added up.
pub open spec fn cycle_total(costs: Seq<CycleCount>) -> int
    decreases costs.len(),
{
    if costs.len() == 0 {
        0
    } else {
        cycle_total(costs.drop_last()) + costs.last()
    }
}

/// Step `i` of a frame ran from `before[i]` to `after[i]` in `costs[i]`
/// cycles without completing a frame, within a frame's worth of cycles so
/// far, and the next step started from `after[i]` with the frame-ready
/// flag consumed.
pub open spec fn completed_step(before: Seq<(Cpu, Bus)>, after: Seq<(Cpu, Bus)>, costs: Seq<CycleCount>, i: int) -> bool {
    &&& step_outcome(before[i].0, before[i].1, after[i].0, after[i].1, Ok(costs[i]))
    &&& !after[i].1.spec_ppu().spec_frame_ready()
    &&& cycle_total(costs.take(i + 1)) < DOTS_PER_FRAME
    &&& before[i + 1] == (after[i].0, after[i].1.frame_consumed())
}

/// A frame run from `(cpu0, bus0)` to `(cpu1, bus1)` with the given result,
/// as the steps it took: step `i` ran from `before[i]` to `after[i]` in
/// `costs[i]` cycles. Every step but the last completed no frame and kept
/// the total under a frame's worth of cycles. A failing last step ends the
/// run with its error; a succeeding one completed a frame or brought the
/// total to a frame's worth, the total is the result, and the run ends with
/// the frame-ready flag consumed.
pub open spec fn frame_run(
    cpu0: Cpu,
    bus0: Bus,
    cpu1: Cpu,
    bus1: Bus,
    result: Result<CycleCount>,
    before: Seq<(Cpu, Bus)>,
    after: Seq<(Cpu, Bus)>,
    costs: Seq<CycleCount>,
) -> bool {
    let k = after.len() as int;
    &&& k >= 1
    &&& before.len() == k
    &&& costs.len() == k
    &&& before[0] == (cpu0, bus0)
    &&& forall|i: int| 0 <= i < k - 1 ==> #[trigger] completed_step(before, after, costs, i)
    &&& match result {
        Err(e) => {
            &&& step_outcome(before[k - 1].0, before[k - 1].1, cpu1, bus1, Err(e))
            &&& after[k - 1] == (cpu1, bus1)
        },
        Ok(c) => {
            &&& step_outcome(before[k - 1].0, before[k - 1].1, after[k - 1].0, after[k - 1].1, Ok(costs[k - 1]))
            &&& c == cycle_total(costs)
            &&& (after[k - 1].1.spec_ppu().spec_frame_ready() || c >= DOTS_PER_FRAME)
            &&& (cpu1, bus1) == (after[k - 1].0, after[k - 1].1.frame_consumed())
        },
    }
}

/// Some run of steps, as `frame_run` states them, leads from `(cpu0, bus0)`
/// to `(cpu1, bus1)` with `result`.
pub open spec fn frame_outcome(cpu0: Cpu, bus0: Bus, cpu1: Cpu, bus1: Bus, result: Result<CycleCount>) -> bool {
    exists|before: Seq<(Cpu, Bus)>, after: Seq<(Cpu, Bus)>, costs: Seq<CycleCount>|
        frame_run(cpu0, bus0, cpu1, bus1, result, before, after, costs)
}

proof fn lemma_steps_kept(
    before: Seq<(Cpu, Bus)>,
    after: Seq<(Cpu, Bus)>,
    costs: Seq<CycleCount>,
    next: (Cpu, Bus),
    cost: CycleCount,
)
    requires
        before.len() == after.len() + 1,
        costs.len() == after.len(),
        forall|i: int| 0 <= i < after.len() ==> #[trigger] completed_step(before, after, costs, i),
    ensures
        forall|i: int| 0 <= i < after.len() ==> #[trigger] completed_step(before, after.push(next), costs.push(cost), i),
{
    assert forall|i: int| 0 <= i < after.len() implies #[trigger] completed_step(
        before,
        after.push(next),
        costs.push(cost),
        i,
    ) by {
        assert(completed_step(before, after, costs, i));
        assert(costs.push(cost).take(i + 1) =~= costs.take(i + 1));
    }
}

} // verus!

verus! {

/// Loading a ROM installs exactly what `Cartridge::from_bytes` builds from
/// it: it fails exactly when building fails, with the same error and the
/// emulator left as it was; otherwise the cartridge inserted has the
/// built one's ROM, RAM, controller and header fields, and the CPU is in
/// the boot state of the model the header (or the chosen model) calls for.
pub proof fn lemma_load_rom_as_from_bytes(
    before: Emulator,
    after: Emulator,
    rom: Seq<u8>,
    model: HardwareModel,
    loaded: Result<()>,
    built: Result<Cartridge>,
)
    requires
        rom_loaded(before, after, rom, model, loaded),
        cartridge_built(rom, built),
    ensures
        loaded is Ok <==> built is Ok,
        loaded matches Err(e) ==> (built matches Err(b) && same_error(e, b) && after == before),
        loaded is Ok ==> (built matches Ok(c) && {
            let a = after.spec_bus().spec_cartridge()->Some_0;
            let h = a.spec_header();
            &&& after.spec_bus().spec_cartridge() is Some
            &&& a.spec_rom() == c.spec_rom()
            &&& a.spec_ram() == c.spec_ram()
            &&& a.spec_mapper() == c.spec_mapper()
            &&& h.spec_title() == c.spec_header().spec_title()
            &&& h.spec_cartridge_type() == c.spec_header().spec_cartridge_type()
            &&& h.spec_cgb_flag() == c.spec_header().spec_cgb_flag()
            &&& h.spec_rom_size_code() == c.spec_header().spec_rom_size_code()
            &&& h.spec_ram_size_code() == c.spec_header().spec_ram_size_code()
            &&& h.spec_mapper_kind() == c.spec_header().spec_mapper_kind()
            &&& h.spec_rom_size() == c.spec_header().spec_rom_size()
            &&& h.spec_ram_size() == c.spec_header().spec_ram_size()
            &&& boot_cpu(after.spec_cpu(), if cgb_mode_for(model, c.spec_header()) { 0x11u8 } else { 0x01u8 })
        }),
{
    if let Err(e) = loaded {
        if let Err(b) = built {
            lemma_refusal_unique(rom, e, b);
        }
    }
}

} // verus!
