use gameboy_core::cartridge::{rom_size, Cartridge};
use gameboy_core::EmulatorError;

#[test]
fn messages_of_each_error() {
    assert_eq!(
        EmulatorError::UnsupportedCartridge { cartridge_type: 0x2A }.message(),
        "unsupported cartridge type: 0x2A"
    );
    assert_eq!(
        EmulatorError::InvalidMemoryAccess { address: 0x0100 }.message(),
        "invalid memory access at 0x0100"
    );
    assert_eq!(
        EmulatorError::UnimplementedOpcode { opcode: 0xD3, pc: 0xBEEF }.message(),
        "unimplemented opcode 0xD3 at 0xBEEF"
    );
    assert_eq!(
        EmulatorError::InvalidRom { reason: String::from("bad") }.message(),
        "invalid ROM: bad"
    );
}

#[test]
fn short_rom_reason_counts_bytes() {
    let err = Cartridge::from_bytes(vec![0; 10]).err().expect("too short");
    assert_eq!(
        err,
        EmulatorError::InvalidRom { reason: String::from("expected at least 32768 bytes, got 10") }
    );
    assert_eq!(err.message(), "invalid ROM: expected at least 32768 bytes, got 10");
}

#[test]
fn size_code_reason_in_hex() {
    assert_eq!(
        rom_size(0x0B),
        Err(EmulatorError::InvalidRom { reason: String::from("unsupported ROM size code: 0x0B") })
    );
}
