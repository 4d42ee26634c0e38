use gameboy_core::cartridge::synthetic_rom;
use gameboy_core::test_harness::{run_blargg_test_rom_bytes, TestRomConfig, TestRomRun, TestRomStatus};
use gameboy_core::{EmulatorError, HardwareModel};

fn serial_program(message: &str) -> Vec<u8> {
    let mut program = Vec::new();
    for byte in message.bytes() {
        program.extend_from_slice(&[0x3E, byte, 0xE0, 0x01, 0x3E, 0x81, 0xE0, 0x02]);
    }
    program.push(0x76);

    synthetic_rom(
        "SERIAL",
        &[(0x0100, &[0xC3, 0x50, 0x01]), (0x0150, &program)],
    )
}

#[test]
fn detects_pass_from_serial_output() {
    let run = run_blargg_test_rom_bytes(
        serial_program("Passed\n"),
        TestRomConfig {
            max_frames: 1,
            model: HardwareModel::Auto,
        },
    )
    .expect("run test ROM");

    assert_eq!(run.status, TestRomStatus::Passed);
    assert_eq!(run.serial_text(), "Passed\n");
}

#[test]
fn detects_failure_from_serial_output() {
    let run = run_blargg_test_rom_bytes(
        serial_program("Failed #1\n"),
        TestRomConfig {
            max_frames: 1,
            model: HardwareModel::Auto,
        },
    )
    .expect("run test ROM");

    assert_eq!(run.status, TestRomStatus::Failed);
    assert_eq!(run.serial_text(), "Failed #1\n");
}

#[test]
fn reports_timeout_when_no_result_is_emitted() {
    let run = run_blargg_test_rom_bytes(
        serial_program("Running\n"),
        TestRomConfig {
            max_frames: 1,
            model: HardwareModel::Auto,
        },
    )
    .expect("run test ROM");

    assert_eq!(run.status, TestRomStatus::TimedOut);
    assert_eq!(run.frames, 1);
    assert_eq!(run.serial_text(), "Running\n");
}

#[test]
fn failure_message_is_matched_ignoring_case() {
    let run = run_blargg_test_rom_bytes(
        serial_program("FAILURE\n"),
        TestRomConfig {
            max_frames: 1,
            model: HardwareModel::Auto,
        },
    )
    .expect("run test ROM");

    assert_eq!(run.status, TestRomStatus::Failed);
    assert_eq!(run.frames, 1);
}

#[test]
fn zero_frames_times_out_at_once() {
    let run = run_blargg_test_rom_bytes(
        serial_program("Passed\n"),
        TestRomConfig {
            max_frames: 0,
            model: HardwareModel::Auto,
        },
    )
    .expect("run test ROM");

    assert_eq!(run.status, TestRomStatus::TimedOut);
    assert_eq!(run.frames, 0);
    assert_eq!(run.cycles, 0);
    assert!(run.serial_output.is_empty());
}

#[test]
fn result_in_cartridge_ram_ends_the_run() {
    // Enable RAM, write the magic bytes, the text "ok" and result code 0.
    let mut program = vec![0x3E, 0x0A, 0xEA, 0x00, 0x00];
    for (address, value) in [
        (0xA001u16, 0xDEu8),
        (0xA002, 0xB0),
        (0xA003, 0x61),
        (0xA004, b'o'),
        (0xA005, b'k'),
        (0xA006, 0x00),
        (0xA000, 0x00),
    ] {
        program.extend_from_slice(&[0x3E, value, 0xEA, address as u8, (address >> 8) as u8]);
    }
    program.push(0x76);
    let mut rom = gameboy_core::cartridge::synthetic_rom_with_header(
        "EXTERNAL",
        0x03,
        0x00,
        0x02,
        &[(0x0100, &[0xC3, 0x50, 0x01]), (0x0150, &program)],
    );
    rom[0x0150 + program.len()] = 0x76;

    let run = run_blargg_test_rom_bytes(rom, TestRomConfig::default()).expect("run test ROM");

    assert_eq!(run.status, TestRomStatus::Passed);
    assert_eq!(run.frames, 1);
    assert_eq!(run.serial_output, b"ok".to_vec());
}

#[test]
fn unloadable_rom_is_an_error() {
    assert!(matches!(
        run_blargg_test_rom_bytes(vec![0; 16], TestRomConfig::default()),
        Err(EmulatorError::InvalidRom { .. })
    ));
}

#[test]
fn default_config_runs_a_minute_on_the_header_model() {
    assert_eq!(
        TestRomConfig::default(),
        TestRomConfig {
            max_frames: 3_600,
            model: HardwareModel::Auto,
        }
    );
}

#[test]
fn serial_text_decodes_invalid_bytes_lossily() {
    let run = TestRomRun { status: TestRomStatus::TimedOut, frames: 1, cycles: 4, serial_output: vec![b'o', 0xC3, b'k'] };
    assert_eq!(run.serial_text(), "o\u{FFFD}k");
}
