use vstd::prelude::*;
use super::rtc::{Rtc, rtc_latched_register};

verus! {

/// MBC1 banking registers.
#[derive(Debug, Clone, Copy, Default, PartialEq, Eq, Structural)]
pub struct Mbc1 {
    pub ram_enabled: bool,
    pub rom_bank_low5: u8,
    pub bank_high2: u8,
    pub banking_mode: u8,
}

/// MBC3 banking registers and clock.
#[derive(Debug, Clone, Copy, Default, PartialEq, Eq, Structural)]
pub struct Mbc3 {
    pub ram_rtc_enabled: bool,
    pub has_rtc: bool,
    pub rom_bank: u8,
    pub ram_rtc_select: u8,
    pub latch_armed: bool,
    pub rtc: Rtc,
}

/// MBC5 banking registers.
#[derive(Debug, Clone, Copy, Default, PartialEq, Eq, Structural)]
pub struct Mbc5 {
    pub ram_enabled: bool,
    pub rom_bank: u16,
    pub ram_bank: u8,
}

impl Mbc1 {
    /// The low bank bits never select bank 0, and each register keeps its width.
    pub open spec fn inv(&self) -> bool {
        &&& 1 <= self.rom_bank_low5 <= 0x1F
        &&& self.bank_high2 <= 3
        &&& self.banking_mode <= 1
    }

    pub open spec fn spec_fixed_rom_bank(&self, count: nat) -> nat {
        if self.banking_mode == 0 {
            0
        } else {
            ((self.bank_high2 * 32) % (count as int)) as nat
        }
    }

    pub open spec fn spec_switchable_rom_bank(&self, count: nat) -> nat {
        ((self.bank_high2 * 32 + self.rom_bank_low5) % (count as int)) as nat
    }

    pub open spec fn spec_ram_bank(&self, count: nat) -> nat {
        if self.banking_mode == 0 {
            0
        } else {
            ((self.bank_high2 as int) % (count as int)) as nat
        }
    }

    /// The bank mapped at 0x0000-0x3FFF: bank 0, or in mode 1 the upper
    /// bank bits alone.
    pub fn fixed_rom_bank(&self, rom_bank_count: usize) -> (bank: usize)
        requires
            self.inv(),
            rom_bank_count > 0,
        ensures
            bank == self.spec_fixed_rom_bank(rom_bank_count as nat),
            bank < rom_bank_count,
    {
        if self.banking_mode == 0 {
            0
        } else {
            let high = self.bank_high2 as usize;
            assert((high << 5usize) == high * 32) by (bit_vector)
                requires
                    high <= 3,
            ;
            (high << 5) % rom_bank_count
        }
    }

    /// The bank mapped at 0x4000-0x7FFF: the upper and lower bank bits
    /// together, whose low five bits are never zero.
    pub fn switchable_rom_bank(&self, rom_bank_count: usize) -> (bank: usize)
        requires
            self.inv(),
            rom_bank_count > 0,
        ensures
            bank == self.spec_switchable_rom_bank(rom_bank_count as nat),
            bank < rom_bank_count,
    {
        let high = self.bank_high2 as usize;
        let low = self.rom_bank_low5 as usize;
        let mut bank = (high << 5) | low;
        assert(((high << 5usize) | low) == high * 32 + low && ((high << 5usize) | low) & 0x1F
            == low) by (bit_vector)
            requires
                high <= 3,
                1 <= low <= 0x1F,
        ;
        if bank & 0x1F == 0 {
            bank += 1;
        }
        bank % rom_bank_count
    }

    /// The RAM bank: bank 0, or in mode 1 the upper bank bits.
    pub fn ram_bank(&self, ram_bank_count: usize) -> (bank: usize)
        requires
            self.inv(),
            ram_bank_count > 0,
        ensures
            bank == self.spec_ram_bank(ram_bank_count as nat),
            bank < ram_bank_count,
    {
        if self.banking_mode == 0 {
            0
        } else {
            self.bank_high2 as usize % ram_bank_count
        }
    }
}

impl Mbc3 {
    pub open spec fn inv(&self) -> bool {
        &&& 1 <= self.rom_bank <= 0x7F
        &&& self.rtc.inv()
    }

    pub open spec fn spec_rom_bank(&self, count: nat) -> nat {
        ((if self.rom_bank == 0 { 1 } else { self.rom_bank as int }) % (count as int)) as nat
    }

    pub open spec fn spec_ram_bank(&self, count: nat) -> nat {
        ((self.ram_rtc_select & 0x03) as int % (count as int)) as nat
    }

    /// The ROM bank mapped at 0x4000-0x7FFF.
    pub fn rom_bank(&self, rom_bank_count: usize) -> (bank: usize)
        requires
            rom_bank_count > 0,
        ensures
            bank == self.spec_rom_bank(rom_bank_count as nat),
            bank < rom_bank_count,
    {
        let bank = if self.rom_bank == 0 {
            1
        } else {
            self.rom_bank
        };
        bank as usize % rom_bank_count
    }

    /// The RAM bank: the low two bits of the RAM/RTC select register.
    pub fn ram_bank(&self, ram_bank_count: usize) -> (bank: usize)
        requires
            ram_bank_count > 0,
        ensures
            bank == self.spec_ram_bank(ram_bank_count as nat),
            bank < ram_bank_count,
    {
        (self.ram_rtc_select as usize & 0x03) % ram_bank_count
    }

    /// The registers after `write_latch(value)`.
    pub open spec fn latch_written(self, value: u8) -> Mbc3 {
        if value == 0 {
            Mbc3 { latch_armed: true, ..self }
        } else if value == 1 && self.latch_armed {
            Mbc3 {
                latch_armed: false,
                rtc: Rtc { latched: self.rtc.latched_view(), ..self.rtc },
                ..self
            }
        } else {
            Mbc3 { latch_armed: false, ..self }
        }
    }

    /// Writing 0 then 1 latches the clock; any other sequence disarms.
    pub fn write_latch(&mut self, value: u8)
        requires
            old(self).inv(),
        ensures
            final(self).inv(),
            final(self).latch_armed == (value == 0),
            (value == 1 && old(self).latch_armed) ==> final(self).rtc.latched
                == old(self).rtc.latched_view(),
            !(value == 1 && old(self).latch_armed) ==> final(self).rtc == old(self).rtc,
            (value == 1 && old(self).latch_armed) ==> {
                &&& final(self).rtc.cycles == old(self).rtc.cycles
                &&& final(self).rtc.seconds == old(self).rtc.seconds
                &&& final(self).rtc.minutes == old(self).rtc.minutes
                &&& final(self).rtc.hours == old(self).rtc.hours
                &&& final(self).rtc.day_counter == old(self).rtc.day_counter
                &&& final(self).rtc.halted == old(self).rtc.halted
                &&& final(self).rtc.carry == old(self).rtc.carry
            },
            final(self).ram_rtc_enabled == old(self).ram_rtc_enabled,
            final(self).has_rtc == old(self).has_rtc,
            final(self).rom_bank == old(self).rom_bank,
            final(self).ram_rtc_select == old(self).ram_rtc_select,
            *final(self) == old(self).latch_written(value),
    {
        if value == 0 {
            self.latch_armed = true;
        } else if value == 1 && self.latch_armed {
            self.rtc.latch();
            self.latch_armed = false;
        } else {
            self.latch_armed = false;
        }
    }

    /// Reads the latched clock register `register` when it is selected.
    pub fn read_rtc(&self, register: u8) -> (value: u8)
        ensures
            value == rtc_latched_register(self.rtc.latched, register),
    {
        self.rtc.read_latched(register)
    }
}

impl Mbc5 {
    pub open spec fn inv(&self) -> bool {
        &&& self.rom_bank <= 0x1FF
        &&& self.ram_bank <= 0x0F
    }

    pub open spec fn spec_rom_bank(&self, count: nat) -> nat {
        (self.rom_bank as int % (count as int)) as nat
    }

    pub open spec fn spec_ram_bank(&self, count: nat) -> nat {
        ((self.ram_bank & 0x0F) as int % (count as int)) as nat
    }

    /// The 9-bit ROM bank mapped at 0x4000-0x7FFF (bank 0 included).
    pub fn rom_bank(&self, rom_bank_count: usize) -> (bank: usize)
        requires
            rom_bank_count > 0,
        ensures
            bank == self.spec_rom_bank(rom_bank_count as nat),
            bank < rom_bank_count,
    {
        self.rom_bank as usize % rom_bank_count
    }

    /// The 4-bit RAM bank.
    pub fn ram_bank(&self, ram_bank_count: usize) -> (bank: usize)
        requires
            ram_bank_count > 0,
        ensures
            bank == self.spec_ram_bank(ram_bank_count as nat),
            bank < ram_bank_count,
    {
        (self.ram_bank as usize & 0x0F) % ram_bank_count
    }
}

} // verus!
