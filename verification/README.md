# gameboy_core

A Game Boy / Game Boy Color emulator core whose behaviour is stated in
`requires` / `ensures` contracts and proved with Verus, together with the
decision logic of its front end (save-state store, ROM library, menus).

## Layout

- `src/` — the verified library.
  - `cpu.rs` — the SM83 processor: registers, instruction semantics,
    interrupts, HALT/STOP (`step_outcome` states one step: the registers,
    the bytes stores and pushes write, interrupt service, and the bus after
    it as the bus before with one machine cycle — a write or none, then
    four clock cycles of `Bus::advance_cycles` — per four cycles the step
    took, STOP adding the speed switch KEY1 prepared).
  - `bus.rs`, `memory.rs`, `joypad.rs`, `serial.rs` — the memory map, DMA,
    timer, joypad register and serial port.
  - `cartridge.rs`, `cartridge/mbc.rs`, `cartridge/rtc.rs` — header parsing,
    the MBC1/MBC3/MBC5 controllers, battery RAM and the MBC3 clock.
  - `ppu.rs`, `apu.rs` — picture and sound generation.
  - `emulator.rs`, `test_harness.rs` — the machine as a whole and the runner
    for serial-reporting test ROMs.
  - `states.rs`, `library.rs`, `browser.rs` — the save-state store, the ROM
    library and the folder listing of the front end.
  - `menu.rs`, `navigation.rs`, `pause.rs`, `input.rs` — the front end's menus
    as state machines from input to next state and action, and its control
    bindings.
- `tests/` — tests of the library on concrete values.
- `app/` — a front end: plays a cartridge headless or in a window, writes the
  last frame and the sound to files, and runs test ROMs.
