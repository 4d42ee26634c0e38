use vstd::prelude::*;
use crate::bus::Bus;
use crate::cpu::{Cpu, CycleCount};
use crate::cartridge::{decode_lossy, lossy_utf8, mapper_kind_for, rom_accepted, refused_with, CARTRIDGE_TYPE_OFFSET, MIN_ROM_SIZE};
use crate::cpu::MAX_INSTRUCTION_CYCLES;
use crate::emulator::{boot_cpu, frame_outcome, rom_loaded, Emulator, HardwareModel, DOTS_PER_FRAME};
use crate::ppu::PpuMode;
use crate::error::{is_invalid_rom, EmulatorError, Result};

verus! {

/// Where a test ROM reports its result in cartridge RAM.
pub const EXTERNAL_RESULT_ADDRESS: u16 = 0xA000;
/// Where the zero-terminated result text starts.
pub const EXTERNAL_TEXT_ADDRESS: u16 = 0xA004;
/// The result byte while the test is still running.
pub const EXTERNAL_RESULT_PENDING: u8 = 0x80;
/// The most text bytes read.
pub const EXTERNAL_TEXT_LIMIT: u16 = 0x1FFC;
/// The most frames a run may be given: the most whose cycle total, at a
/// frame's worth of cycles plus one instruction each, fits in a `u64`.
pub const MAX_TEST_FRAMES: u64 = 262_594_580_254_378;

/// How a test ROM run ended.
#[derive(Debug, Clone, Copy, PartialEq, Eq, Structural)]
pub enum TestRomStatus {
    Passed,
    Failed,
    TimedOut,
}

/// The outcome of running a test ROM.
#[derive(Debug, Clone, PartialEq, Eq)]
pub struct TestRomRun {
    pub status: TestRomStatus,
    pub frames: u64,
    pub cycles: u64,
    pub serial_output: Vec<u8>,
}

/// How long to run a test ROM and on which model.
#[derive(Debug, Clone, Copy, PartialEq, Eq, Structural)]
pub struct TestRomConfig {
    pub max_frames: u64,
    pub model: HardwareModel,
}

impl Default for TestRomConfig {
    /// One minute of frames, the model chosen by the cartridge.
    fn default() -> (config: Self)
        ensures
            config == (TestRomConfig { max_frames: 3600, model: HardwareModel::Auto }),
    {
        TestRomConfig { max_frames: 3_600, model: HardwareModel::Auto }
    }
}

impl TestRomRun {
    /// The serial output decoded as UTF-8, invalid bytes replaced.
    pub fn serial_text(&self) -> (text: String)
        ensures
            text@ == lossy_utf8(self.serial_output@),
    {
        decode_lossy(self.serial_output.as_slice())
    }
}

/// ASCII upper-case letters folded to lower case.
pub open spec fn ascii_lower(byte: u8) -> u8 {
    if 0x41 <= byte <= 0x5A {
        (byte + 0x20) as u8
    } else {
        byte
    }
}

/// `pattern` occurs in `text` at `at`, ignoring ASCII case.
pub open spec fn matches_at(text: Seq<u8>, pattern: Seq<u8>, at: int) -> bool {
    &&& 0 <= at
    &&& at + pattern.len() <= text.len()
    &&& forall|j: int| 0 <= j < pattern.len() ==> ascii_lower(#[trigger] text[at + j]) == pattern[j]
}

/// `pattern` (lower case) occurs somewhere in `text`, ignoring ASCII case.
pub open spec fn contains_ignoring_case(text: Seq<u8>, pattern: Seq<u8>) -> bool {
    exists|at: int| matches_at(text, pattern, at)
}

/// The bytes of "passed".
pub open spec fn passed_word() -> Seq<u8> {
    seq![0x70u8, 0x61, 0x73, 0x73, 0x65, 0x64]
}

/// The bytes of "passed all tests".
pub open spec fn passed_all_words() -> Seq<u8> {
    seq![0x70u8, 0x61, 0x73, 0x73, 0x65, 0x64, 0x20, 0x61, 0x6C, 0x6C, 0x20, 0x74, 0x65, 0x73, 0x74, 0x73]
}

/// The bytes of "failed".
pub open spec fn failed_word() -> Seq<u8> {
    seq![0x66u8, 0x61, 0x69, 0x6C, 0x65, 0x64]
}

/// The bytes of "failure".
pub open spec fn failure_word() -> Seq<u8> {
    seq![0x66u8, 0x61, 0x69, 0x6C, 0x75, 0x72, 0x65]
}

/// The serial output announces success.
pub open spec fn says_passed(output: Seq<u8>) -> bool {
    contains_ignoring_case(output, passed_word()) || contains_ignoring_case(output, passed_all_words())
}

/// The serial output announces a failure.
pub open spec fn says_failed(output: Seq<u8>) -> bool {
    contains_ignoring_case(output, failed_word()) || contains_ignoring_case(output, failure_word())
}

/// The byte a CPU read of `address` gives, if it succeeds.
pub open spec fn bus_byte(bus: Bus, address: int) -> Option<u8> {
    match bus.read_spec(address as u16) {
        Ok(v) => Some(v),
        Err(_) => None,
    }
}

/// The result byte of an external report: the magic bytes DE B0 61 follow
/// it and it is no longer pending.
pub open spec fn external_code(bus: Bus) -> Option<u8> {
    if bus_byte(bus, 0xA001) == Some(0xDEu8) && bus_byte(bus, 0xA002) == Some(0xB0u8) && bus_byte(bus, 0xA003)
        == Some(0x61u8) {
        match bus_byte(bus, 0xA000) {
            Some(code) => if code != EXTERNAL_RESULT_PENDING {
                Some(code)
            } else {
                None
            },
            None => None,
        }
    } else {
        None
    }
}

/// `text` is the report text: the bytes from 0xA004 up to the first zero
/// (at most 0x1FFC of them), every one of them and the zero readable.
pub open spec fn is_external_text(bus: Bus, text: Seq<u8>) -> bool {
    &&& text.len() <= EXTERNAL_TEXT_LIMIT
    &&& forall|i: int| 0 <= i < text.len() ==> #[trigger] bus_byte(bus, 0xA004 + i) == Some(text[i]) && text[i] != 0
    &&& text.len() < EXTERNAL_TEXT_LIMIT ==> bus_byte(bus, 0xA004 + text.len() as int) == Some(0u8)
}

/// The status an external result code reports.
pub open spec fn status_of_code(code: u8) -> TestRomStatus {
    if code == 0 {
        TestRomStatus::Passed
    } else {
        TestRomStatus::Failed
    }
}

/// Folds an ASCII upper-case letter to lower case.
fn to_lower(byte: u8) -> (lower: u8)
    ensures
        lower == ascii_lower(byte),
{
    if 0x41 <= byte && byte <= 0x5A {
        byte + 0x20
    } else {
        byte
    }
}

/// Searches `text` for `pattern`, ignoring ASCII case.
fn contains_pattern(text: &[u8], pattern: &[u8]) -> (found: bool)
    requires
        pattern@.len() >= 1,
    ensures
        found == contains_ignoring_case(text@, pattern@),
{
    if pattern.len() > text.len() {
        return false;
    }
    let last = text.len() - pattern.len();
    let mut at: usize = 0;
    while at <= last
        invariant
            last == text@.len() - pattern@.len(),
            text@.len() <= usize::MAX,
            pattern@.len() >= 1,
            pattern@.len() <= text@.len(),
            at <= text@.len() - pattern@.len() + 1,
            forall|k: int| 0 <= k < at ==> !matches_at(text@, pattern@, k),
        decreases last + 1 - at,
    {
        let mut j: usize = 0;
        let mut matched = true;
        while j < pattern.len()
            invariant
                at + pattern@.len() <= text@.len(),
                text@.len() <= usize::MAX,
                j <= pattern@.len(),
                matched ==> forall|m: int| 0 <= m < j ==> ascii_lower(#[trigger] text@[at + m]) == pattern@[m],
                !matched ==> !matches_at(text@, pattern@, at as int),
            decreases pattern.len() - j,
        {
            if to_lower(text[at + j]) != pattern[j] {
                matched = false;
                assert(!matches_at(text@, pattern@, at as int)) by {
                    assert(ascii_lower(text@[at + j as int]) != pattern@[j as int]);
                }
            }
            j += 1;
        }
        if matched {
            assert(matches_at(text@, pattern@, at as int));
            return true;
        }
        at += 1;
    }
    assert forall|k: int| !matches_at(text@, pattern@, k) by {
        if 0 <= k < at {
        }
    }
    false
}

/// Whether the serial output announces success ("passed", any case).
fn serial_indicates_success(output: &[u8]) -> (passed: bool)
    ensures
        passed == says_passed(output@),
{
    let passed = vec![0x70u8, 0x61, 0x73, 0x73, 0x65, 0x64];
    let all = vec![
        0x70u8, 0x61, 0x73, 0x73, 0x65, 0x64, 0x20, 0x61, 0x6C, 0x6C, 0x20, 0x74, 0x65, 0x73, 0x74, 0x73,
    ];
    assert(passed@ == passed_word());
    assert(all@ == passed_all_words());
    contains_pattern(output, passed.as_slice()) || contains_pattern(output, all.as_slice())
}

/// Whether the serial output announces a failure ("failed" or "failure",
/// any case).
fn serial_indicates_failure(output: &[u8]) -> (failed: bool)
    ensures
        failed == says_failed(output@),
{
    let failed = vec![0x66u8, 0x61, 0x69, 0x6C, 0x65, 0x64];
    let failure = vec![0x66u8, 0x61, 0x69, 0x6C, 0x75, 0x72, 0x65];
    assert(failed@ == failed_word());
    assert(failure@ == failure_word());
    contains_pattern(output, failed.as_slice()) || contains_pattern(output, failure.as_slice())
}

/// Reads `address`, or nothing when the read fails.
fn read_optional(bus: &Bus, address: u16) -> (byte: Option<u8>)
    requires
        bus.inv(),
    ensures
        byte == bus_byte(*bus, address as int),
{
    match bus.read_byte(address) {
        Ok(v) => Some(v),
        Err(_) => None,
    }
}

/// The result a test ROM left in cartridge RAM, if any: the status its
/// result code reports and its text. A read that fails means no result.
fn external_result(emulator: &Emulator) -> (result: Option<(TestRomStatus, Vec<u8>)>)
    requires
        emulator.inv(),
    ensures
        result matches Some((status, text)) ==> external_code(emulator.spec_bus()) matches Some(code)
            && status == status_of_code(code) && is_external_text(emulator.spec_bus(), text@),
        result is None ==> external_code(emulator.spec_bus()) is None || forall|text: Seq<u8>|
            !is_external_text(emulator.spec_bus(), text),
{
    let bus = emulator.bus();
    let m1 = match read_optional(bus, EXTERNAL_RESULT_ADDRESS + 1) {
        Some(b) => b,
        None => {
            return None;
        },
    };
    let m2 = match read_optional(bus, EXTERNAL_RESULT_ADDRESS + 2) {
        Some(b) => b,
        None => {
            return None;
        },
    };
    let m3 = match read_optional(bus, EXTERNAL_RESULT_ADDRESS + 3) {
        Some(b) => b,
        None => {
            return None;
        },
    };
    if m1 != 0xDE || m2 != 0xB0 || m3 != 0x61 {
        return None;
    }
    let code = match read_optional(bus, EXTERNAL_RESULT_ADDRESS) {
        Some(b) => b,
        None => {
            return None;
        },
    };
    if code == EXTERNAL_RESULT_PENDING {
        return None;
    }
    let ghost b = *bus;
    let mut text: Vec<u8> = Vec::new();
    let mut offset: u16 = 0;
    let mut terminated = false;
    while offset < EXTERNAL_TEXT_LIMIT
        invariant
            bus.inv(),
            *bus == b,
            b == emulator.spec_bus(),
            offset <= EXTERNAL_TEXT_LIMIT,
            text@.len() == offset,
            forall|i: int| 0 <= i < offset ==> #[trigger] bus_byte(b, 0xA004 + i) == Some(text@[i]) && text@[i] != 0,
            terminated ==> offset < EXTERNAL_TEXT_LIMIT && bus_byte(b, 0xA004 + offset) == Some(0u8),
        ensures
            text@.len() == offset,
            forall|i: int| 0 <= i < offset ==> #[trigger] bus_byte(b, 0xA004 + i) == Some(text@[i]) && text@[i] != 0,
            offset < EXTERNAL_TEXT_LIMIT ==> terminated && bus_byte(b, 0xA004 + offset) == Some(0u8),
        decreases EXTERNAL_TEXT_LIMIT - offset,
    {
        let byte = match read_optional(bus, EXTERNAL_TEXT_ADDRESS + offset) {
            Some(v) => v,
            None => {
                proof {
                    assert forall|t: Seq<u8>| !is_external_text(b, t) by {
                        if is_external_text(b, t) {
                            if t.len() > offset {
                                assert(bus_byte(b, 0xA004 + offset) == Some(t[offset as int]));
                            } else if t.len() < offset {
                                assert(bus_byte(b, 0xA004 + t.len() as int) == Some(text@[t.len() as int]));
                            }
                        }
                    }
                }
                return None;
            },
        };
        if byte == 0 {
            terminated = true;
            break;
        }
        text.push(byte);
        offset += 1;
    }
    let status = if code == 0 {
        TestRomStatus::Passed
    } else {
        TestRomStatus::Failed
    };
    Some((status, text))
}

/// An emulator as `Emulator::new` makes it.
pub open spec fn fresh_emulator(e: Emulator) -> bool {
    &&& e.can_run()
    &&& boot_cpu(e.spec_cpu(), 0x01)
    &&& e.spec_bus().spec_cartridge() is None
    &&& !e.spec_bus().spec_cgb().enabled
    &&& e.spec_bus().spec_ppu().spec_mode() == PpuMode::OamScan
}

/// The serial output gathered before frame `i`.
pub open spec fn output_before(outputs: Seq<Seq<u8>>, i: int) -> Seq<u8> {
    if i == 0 {
        Seq::empty()
    } else {
        outputs[i - 1]
    }
}

/// A frame ran from `start` and completed; `next` is the state it left
/// with the serial bytes taken out, which extend `before` to `after`.
pub open spec fn frame_collected(start: (Cpu, Bus), next: (Cpu, Bus), before: Seq<u8>, after: Seq<u8>) -> bool {
    exists|cpu: Cpu, bus: Bus, cycles: CycleCount|
        #[trigger] frame_outcome(start.0, start.1, cpu, bus, Ok(cycles)) && next.0 == cpu
            && next.1.same_but_serial_output(&bus) && next.1.spec_serial().spec_output() == Seq::<u8>::empty()
            && after == before + bus.spec_serial().spec_output()
}

/// Cartridge RAM holds a result code with its terminated text.
pub open spec fn has_external_result(bus: Bus) -> bool {
    external_code(bus) is Some && exists|text: Seq<u8>| is_external_text(bus, text)
}

/// Nothing seen after a frame ends the run.
pub open spec fn undecided(bus: Bus, output: Seq<u8>) -> bool {
    !has_external_result(bus) && !says_failed(output) && !says_passed(output)
}

/// The status and output reported after a frame that decided the run: a
/// result in cartridge RAM first (its text standing in for an empty serial
/// output), then a failure message, then a success message.
pub open spec fn verdict(bus: Bus, output: Seq<u8>, status: TestRomStatus, reported: Seq<u8>) -> bool {
    if has_external_result(bus) {
        &&& status == status_of_code(external_code(bus)->Some_0)
        &&& if output.len() == 0 {
            is_external_text(bus, reported)
        } else {
            reported == output
        }
    } else if says_failed(output) {
        status == TestRomStatus::Failed && reported == output
    } else {
        says_passed(output) && status == TestRomStatus::Passed && reported == output
    }
}

/// A run of `rom` with `result`: `states[0]` is a fresh emulator with the
/// ROM loaded, `states[i + 1]` the state after frame `i` completed, and
/// `outputs[i]` the serial output gathered by then. Every completed frame
/// but a deciding last one left the run undecided; an error is that of the
/// frame that followed them; a timeout comes after `config.max_frames`
/// undecided frames.
pub open spec fn test_run(
    rom: Seq<u8>,
    config: TestRomConfig,
    states: Seq<(Cpu, Bus)>,
    outputs: Seq<Seq<u8>>,
    result: Result<TestRomRun>,
) -> bool {
    let n = outputs.len() as int;
    &&& states.len() == n + 1
    &&& exists|fresh: Emulator, loaded: Emulator|
        fresh_emulator(fresh) && #[trigger] rom_loaded(fresh, loaded, rom, config.model, Ok(())) && states[0] == (
        loaded.spec_cpu(),
        loaded.spec_bus(),
    )
    &&& forall|i: int|
        0 <= i < n ==> #[trigger] frame_collected(states[i], states[i + 1], output_before(outputs, i), outputs[i])
    &&& test_run_result(config, states, outputs, result)
}

/// How a run whose frames are `states` and `outputs` (as in `test_run`)
/// ends with `result`.
pub open spec fn test_run_result(
    config: TestRomConfig,
    states: Seq<(Cpu, Bus)>,
    outputs: Seq<Seq<u8>>,
    result: Result<TestRomRun>,
) -> bool {
    let n = outputs.len() as int;
    match result {
        Err(e) => {
            &&& n < config.max_frames
            &&& forall|i: int| 0 <= i < n ==> undecided(states[i + 1].1, #[trigger] outputs[i])
            &&& exists|cpu: Cpu, bus: Bus| #[trigger] frame_outcome(states[n].0, states[n].1, cpu, bus, Err(e))
        },
        Ok(run) => {
            &&& run.frames == n
            &&& forall|i: int| 0 <= i < n - 1 ==> undecided(states[i + 1].1, #[trigger] outputs[i])
            &&& if run.status == TestRomStatus::TimedOut {
                &&& n == config.max_frames
                &&& n >= 1 ==> undecided(states[n].1, outputs[n - 1])
                &&& run.serial_output@ == output_before(outputs, n)
            } else {
                n >= 1 && verdict(states[n].1, outputs[n - 1], run.status, run.serial_output@)
            }
        },
    }
}

/// Runs a test ROM image for up to `config.max_frames` frames. After each
/// frame the serial bytes sent are collected; a result left in cartridge
/// RAM ends the run with its status (its text standing in for an empty
/// serial output), then a failure message, then a success message; with
/// none of them the run times out. A ROM that does not load, or a step
/// that fails, is an error.
#[verifier::loop_isolation(false)]
pub fn run_blargg_test_rom_bytes(rom: Vec<u8>, config: TestRomConfig) -> (result: Result<TestRomRun>)
    requires
        config.max_frames <= MAX_TEST_FRAMES,
    ensures
        !rom_accepted(rom@) ==> result is Err,
        !rom_accepted(rom@) ==> (result matches Err(e) && refused_with(rom@, e)),
        rom@.len() < MIN_ROM_SIZE ==> is_invalid_rom(result),
        rom@.len() >= MIN_ROM_SIZE && mapper_kind_for(rom@[CARTRIDGE_TYPE_OFFSET as int]) is None ==> result
            == Err::<TestRomRun, EmulatorError>(
            EmulatorError::UnsupportedCartridge { cartridge_type: rom@[CARTRIDGE_TYPE_OFFSET as int] },
        ),
        rom_accepted(rom@) ==> exists|states: Seq<(Cpu, Bus)>, outputs: Seq<Seq<u8>>|
            test_run(rom@, config, states, outputs, result),
        result matches Ok(run) ==> {
            &&& run.frames <= config.max_frames
            &&& run.cycles <= run.frames * (DOTS_PER_FRAME + MAX_INSTRUCTION_CYCLES)
            &&& run.status == TestRomStatus::TimedOut ==> run.frames == config.max_frames && !says_failed(
                run.serial_output@,
            ) && !says_passed(run.serial_output@)
            &&& run.status != TestRomStatus::TimedOut ==> 1 <= run.frames
        },
{
    let mut emulator = Emulator::new();
    let ghost rom_bytes = rom@;
    let ghost fresh = emulator;
    match emulator.load_rom_with_model(rom, config.model) {
        Ok(()) => {},
        Err(e) => {
            return Err(e);
        },
    }
    let ghost loaded = emulator;
    let ghost mut states: Seq<(Cpu, Bus)> = seq![(emulator.spec_cpu(), emulator.spec_bus())];
    let ghost mut outputs: Seq<Seq<u8>> = Seq::empty();
    let mut serial_output: Vec<u8> = Vec::new();
    let mut cycles: u64 = 0;
    let mut frames: u64 = 1;
    while frames <= config.max_frames
        invariant
            emulator.can_run(),
            1 <= frames <= config.max_frames + 1,
            config.max_frames <= MAX_TEST_FRAMES,
            cycles <= (frames - 1) * (DOTS_PER_FRAME + MAX_INSTRUCTION_CYCLES),
            frames > 1 ==> !says_failed(serial_output@) && !says_passed(serial_output@),
            frames == 1 ==> serial_output@.len() == 0,
            fresh_emulator(fresh),
            rom_loaded(fresh, loaded, rom_bytes, config.model, Ok(())),
            outputs.len() == frames - 1,
            states.len() == frames,
            states[0] == (loaded.spec_cpu(), loaded.spec_bus()),
            states.last() == (emulator.spec_cpu(), emulator.spec_bus()),
            serial_output@ == output_before(outputs, outputs.len() as int),
            forall|i: int|
                0 <= i < outputs.len() ==> #[trigger] frame_collected(
                    states[i],
                    states[i + 1],
                    output_before(outputs, i),
                    outputs[i],
                ),
            forall|i: int| 0 <= i < outputs.len() ==> undecided(states[i + 1].1, #[trigger] outputs[i]),
        decreases config.max_frames + 1 - frames,
    {
        let ghost start = (emulator.spec_cpu(), emulator.spec_bus());
        let frame_cycles = match emulator.run_frame() {
            Ok(c) => c,
            Err(e) => {
                proof {
                    assert(frame_outcome(states[outputs.len() as int].0, states[outputs.len() as int].1, emulator.spec_cpu(), emulator.spec_bus(), Err(e)));
                    lemma_run_found(rom_bytes, config, states, outputs, Err(e), fresh, loaded);
                }
                return Err(e);
            },
        };
        let ghost mid = (emulator.spec_cpu(), emulator.spec_bus());
        cycles += frame_cycles as u64;
        let mut sent = emulator.take_serial_output();
        let ghost gathered = serial_output@;
        serial_output.append(&mut sent);
        proof {
            let n = outputs.len() as int;
            let next = (emulator.spec_cpu(), emulator.spec_bus());
            let new_states = states.push(next);
            let new_outputs = outputs.push(serial_output@);
            assert(frame_outcome(start.0, start.1, mid.0, mid.1, Ok(frame_cycles)));
            assert(new_states[n] == start);
            assert(output_before(new_outputs, n) == gathered);
            assert(frame_collected(new_states[n], new_states[n + 1], output_before(new_outputs, n), new_outputs[n]));
            assert forall|i: int| 0 <= i < new_outputs.len() implies #[trigger] frame_collected(
                new_states[i],
                new_states[i + 1],
                output_before(new_outputs, i),
                new_outputs[i],
            ) by {
                if i < n {
                    assert(new_states[i] == states[i]);
                    assert(new_states[i + 1] == states[i + 1]);
                    assert(new_outputs[i] == outputs[i]);
                    assert(output_before(new_outputs, i) == output_before(outputs, i));
                    assert(frame_collected(states[i], states[i + 1], output_before(outputs, i), outputs[i]));
                }
            }
            assert forall|i: int| 0 <= i < n implies undecided(new_states[i + 1].1, #[trigger] new_outputs[i]) by {
                assert(new_states[i + 1] == states[i + 1]);
                assert(new_outputs[i] == outputs[i]);
                assert(undecided(states[i + 1].1, outputs[i]));
            }
            states = new_states;
            outputs = new_outputs;
        }
        match external_result(&emulator) {
            Some((status, external_output)) => {
                let ghost before_external = serial_output@;
                if serial_output.len() == 0 {
                    serial_output = external_output;
                }
                let run = TestRomRun { status, frames, cycles, serial_output };
                proof {
                    assert(is_external_text(emulator.spec_bus(), external_output@));
                    assert(has_external_result(emulator.spec_bus()));
                    lemma_run_found(rom_bytes, config, states, outputs, Ok(run), fresh, loaded);
                }
                return Ok(run);
            },
            None => {},
        }
        if serial_indicates_failure(serial_output.as_slice()) {
            let run = TestRomRun { status: TestRomStatus::Failed, frames, cycles, serial_output };
            proof {
                lemma_run_found(rom_bytes, config, states, outputs, Ok(run), fresh, loaded);
            }
            return Ok(run);
        }
        if serial_indicates_success(serial_output.as_slice()) {
            let run = TestRomRun { status: TestRomStatus::Passed, frames, cycles, serial_output };
            proof {
                lemma_run_found(rom_bytes, config, states, outputs, Ok(run), fresh, loaded);
            }
            return Ok(run);
        }
        proof {
            let n = outputs.len() as int;
            assert(!has_external_result(emulator.spec_bus()));
            assert(undecided(states[n].1, outputs[n - 1]));
        }
        frames += 1;
    }
    let run = TestRomRun { status: TestRomStatus::TimedOut, frames: config.max_frames, cycles, serial_output };
    proof {
        lemma_run_found(rom_bytes, config, states, outputs, Ok(run), fresh, loaded);
    }
    Ok(run)
}

/// The witnesses of a run make `test_run` hold for some states and outputs.
proof fn lemma_run_found(
    rom: Seq<u8>,
    config: TestRomConfig,
    states: Seq<(Cpu, Bus)>,
    outputs: Seq<Seq<u8>>,
    result: Result<TestRomRun>,
    fresh: Emulator,
    loaded: Emulator,
)
    requires
        fresh_emulator(fresh),
        rom_loaded(fresh, loaded, rom, config.model, Ok(())),
        states.len() == outputs.len() + 1,
        states[0] == (loaded.spec_cpu(), loaded.spec_bus()),
        forall|i: int|
            0 <= i < outputs.len() ==> #[trigger] frame_collected(
                states[i],
                states[i + 1],
                output_before(outputs, i),
                outputs[i],
            ),
        test_run_result(config, states, outputs, result),
    ensures
        exists|s: Seq<(Cpu, Bus)>, o: Seq<Seq<u8>>| test_run(rom, config, s, o, result),
{
    assert(test_run(rom, config, states, outputs, result));
}

} // verus!
