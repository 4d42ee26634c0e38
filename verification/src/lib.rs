pub mod bits;
pub mod error;
pub mod joypad;
pub mod memory;
pub mod serial;
pub mod cartridge;
pub mod ppu;
pub mod apu;
pub mod bus;
pub mod cpu;
pub mod emulator;
pub mod test_harness;
pub mod states;
pub mod library;
pub mod browser;
pub mod menu;
pub mod pause;
pub mod navigation;
pub mod input;

pub use emulator::{Emulator, HardwareModel, DOTS_PER_FRAME};
pub use cpu::CycleCount;
pub use error::{EmulatorError, Result};
pub use joypad::{JoypadButton, JoypadState};
