use vstd::prelude::*;
use crate::bits::{lemma_byte_bits, lemma_word_bits};
use vstd::arithmetic::div_mod::{
    lemma_fundamental_div_mod_converse, lemma_add_mod_noop, lemma_small_mod, lemma_mod_self_0,
};
use crate::error::{describe_two, invalid_rom, EmulatorError, Result};

verus! {

/// CPU cycles in one second of real time.
pub const RTC_CYCLES_PER_SECOND: u32 = 4_194_304;

/// Length of an RTC save: the cycle counter, the time, the day and the flags.
pub const RTC_SAVE_LEN: usize = 10;

/// Seconds in the 512-day span that the day counter covers.
pub open spec fn rtc_span() -> int {
    44236800int
}

/// The latched copies of the clock registers that the game reads.
#[derive(Debug, Clone, Copy, Default, PartialEq, Eq, Structural)]
pub struct RtcRegisters {
    pub seconds: u8,
    pub minutes: u8,
    pub hours: u8,
    pub day_low: u8,
    pub day_high: u8,
}

/// The real-time clock of an MBC3 cartridge.
#[derive(Debug, Clone, Copy, Default, PartialEq, Eq, Structural)]
pub struct Rtc {
    pub cycles: u32,
    pub seconds: u8,
    pub minutes: u8,
    pub hours: u8,
    pub day_counter: u16,
    pub halted: bool,
    pub carry: bool,
    pub latched: RtcRegisters,
}

/// Little-endian encoding of a 32-bit counter.
pub open spec fn le32(bytes: Seq<u8>, at: int) -> u32 {
    (bytes[at] as u32) | ((bytes[at + 1] as u32) << 8u32) | ((bytes[at + 2] as u32) << 16u32) | ((
    bytes[at + 3] as u32) << 24u32)
}

impl Rtc {
    /// This clock holds what a save in `bytes` (see `save_bytes`) restores:
    /// the cycle count, the time fields brought into range, the day counter
    /// masked to nine bits, the halt and carry flags, and latched registers
    /// showing the time.
    pub open spec fn restored_from(self, bytes: Seq<u8>) -> bool {
        &&& self.cycles == le32(bytes, 0)
        &&& self.seconds == bytes[4] % 60
        &&& self.minutes == bytes[5] % 60
        &&& self.hours == bytes[6] % 24
        &&& self.day_counter == ((bytes[7] as u16) | ((bytes[8] as u16) << 8u16)) & 0x01FF
        &&& self.halted == (bytes[9] & 0x01 != 0)
        &&& self.carry == (bytes[9] & 0x02 != 0)
        &&& self.latched == self.latched_view()
    }

    /// The clock fields are in range.
    pub open spec fn inv(&self) -> bool {
        &&& self.seconds < 60
        &&& self.minutes < 60
        &&& self.hours < 24
        &&& self.day_counter <= 0x1FF
    }

    /// Seconds since day 0, 00:00:00.
    pub open spec fn total_seconds(&self) -> int {
        self.day_counter * 86400 + self.hours * 3600 + self.minutes * 60 + self.seconds
    }

    /// What `latch` copies from the running clock.
    pub open spec fn latched_view(&self) -> RtcRegisters {
        RtcRegisters {
            seconds: self.seconds,
            minutes: self.minutes,
            hours: self.hours,
            day_low: (self.day_counter & 0xFF) as u8,
            day_high: ((self.day_counter >> 8u16) & 0x01) as u8 | (if self.halted {
                0x40u8
            } else {
                0u8
            }) | (if self.carry {
                0x80u8
            } else {
                0u8
            }),
        }
    }

    /// The clock after `write_register(register, value)`.
    pub open spec fn written(self, register: u8, value: u8) -> Rtc {
        let next = Rtc {
            cycles: self.cycles,
            seconds: if register == 0x08 { value % 60 } else { self.seconds },
            minutes: if register == 0x09 { value % 60 } else { self.minutes },
            hours: if register == 0x0A { value % 24 } else { self.hours },
            day_counter: if register == 0x0B {
                (self.day_counter & 0x0100) | value as u16
            } else if register == 0x0C {
                (self.day_counter & 0x00FF) | (((value & 0x01) as u16) << 8u16)
            } else {
                self.day_counter
            },
            halted: if register == 0x0C { value & 0x40 != 0 } else { self.halted },
            carry: if register == 0x0C { value & 0x80 != 0 } else { self.carry },
            latched: self.latched,
        };
        Rtc { latched: next.latched_view(), ..next }
    }

    /// `next` is this clock advanced by `cycles` CPU cycles.
    pub open spec fn advanced_to(self, next: Rtc, cycles: u32) -> bool {
        &&& next.inv()
        &&& next.halted == self.halted
        &&& next.latched == self.latched
        &&& self.halted ==> next == self
        &&& !self.halted ==> {
            let elapsed = self.cycles + cycles;
            let ticks = elapsed / RTC_CYCLES_PER_SECOND as int;
            &&& next.cycles == elapsed % RTC_CYCLES_PER_SECOND as int
            &&& next.total_seconds() == (self.total_seconds() + ticks) % rtc_span()
            &&& next.carry == (self.carry || self.total_seconds() + ticks >= rtc_span())
        }
    }

    /// The ten bytes of an RTC save.
    pub open spec fn save_bytes(&self) -> Seq<u8> {
        seq![
            (self.cycles & 0xFF) as u8,
            ((self.cycles >> 8u32) & 0xFF) as u8,
            ((self.cycles >> 16u32) & 0xFF) as u8,
            ((self.cycles >> 24u32) & 0xFF) as u8,
            self.seconds,
            self.minutes,
            self.hours,
            (self.day_counter & 0xFF) as u8,
            ((self.day_counter >> 8u16) & 0xFF) as u8,
            (if self.halted { 1u8 } else { 0u8 }) | (if self.carry { 2u8 } else { 0u8 }),
        ]
    }

    /// Advances the clock by `cycles` CPU cycles unless it is halted; every
    /// full second of cycles ticks the time once.
    pub fn advance_cycles(&mut self, cycles: u32)
        requires
            old(self).inv(),
            old(self).cycles + cycles <= u32::MAX,
        ensures
            old(self).advanced_to(*final(self), cycles),
            final(self).inv(),
            final(self).halted == old(self).halted,
            final(self).latched == old(self).latched,
            old(self).halted ==> *final(self) == *old(self),
            !old(self).halted ==> {
                let elapsed = old(self).cycles + cycles;
                let ticks = elapsed / RTC_CYCLES_PER_SECOND as int;
                &&& final(self).cycles == elapsed % RTC_CYCLES_PER_SECOND as int
                &&& final(self).total_seconds() == (old(self).total_seconds() + ticks)
                    % rtc_span()
                &&& final(self).carry == (old(self).carry || old(self).total_seconds() + ticks
                    >= rtc_span())
            },
    {
        if self.halted {
            return;
        }
        let ghost start = *self;
        self.cycles += cycles;
        let ghost mut ticks: int = 0;
        proof {
            lemma_small_mod(start.total_seconds() as nat, rtc_span() as nat);
        }
        while self.cycles >= RTC_CYCLES_PER_SECOND
            invariant
                self.inv(),
                self.halted == start.halted,
                self.latched == start.latched,
                0 <= ticks,
                self.cycles + ticks * RTC_CYCLES_PER_SECOND == start.cycles + cycles,
                self.total_seconds() == (start.total_seconds() + ticks) % rtc_span(),
                self.carry == (start.carry || start.total_seconds() + ticks >= rtc_span()),
                start.total_seconds() < rtc_span(),
            decreases self.cycles,
        {
            self.cycles -= RTC_CYCLES_PER_SECOND;
            let ghost before = *self;
            self.tick_second();
            proof {
                lemma_add_mod_noop(start.total_seconds() + ticks, 1, rtc_span());
                lemma_small_mod(1, rtc_span() as nat);
                let t = (start.total_seconds() + ticks) % rtc_span();
                if t + 1 < rtc_span() {
                    lemma_small_mod((t + 1) as nat, rtc_span() as nat);
                }
                if t + 1 == rtc_span() {
                    lemma_mod_self_0(rtc_span());
                }
                if start.total_seconds() + ticks < rtc_span() {
                    lemma_small_mod((start.total_seconds() + ticks) as nat, rtc_span() as nat);
                }
                ticks = ticks + 1;
            }
        }
        proof {
            lemma_fundamental_div_mod_converse(
                start.cycles + cycles,
                RTC_CYCLES_PER_SECOND as int,
                ticks,
                self.cycles as int,
            );
        }
    }

    /// Moves the time on by one second, carrying into minutes, hours and the
    /// 9-bit day counter; a day counter that wraps sets the carry flag.
    pub fn tick_second(&mut self)
        requires
            old(self).inv(),
        ensures
            final(self).inv(),
            final(self).total_seconds() == (old(self).total_seconds() + 1) % rtc_span(),
            final(self).carry == (old(self).carry || old(self).total_seconds() + 1
                == rtc_span()),
            final(self).cycles == old(self).cycles,
            final(self).halted == old(self).halted,
            final(self).latched == old(self).latched,
    {
        let ghost start = *self;
        proof {
            assert(start.total_seconds() < rtc_span()) by (nonlinear_arith)
                requires
                    start.seconds < 60,
                    start.minutes < 60,
                    start.hours < 24,
                    start.day_counter <= 0x1FF,
            ;
        }
        self.seconds += 1;
        if self.seconds < 60 {
            proof { lemma_small_mod((start.total_seconds() + 1) as nat, rtc_span() as nat); }
            return;
        }
        self.seconds = 0;
        self.minutes += 1;
        if self.minutes < 60 {
            proof { lemma_small_mod((start.total_seconds() + 1) as nat, rtc_span() as nat); }
            return;
        }
        self.minutes = 0;
        self.hours += 1;
        if self.hours < 24 {
            proof { lemma_small_mod((start.total_seconds() + 1) as nat, rtc_span() as nat); }
            return;
        }
        self.hours = 0;
        self.day_counter += 1;
        if self.day_counter > 0x01FF {
            self.day_counter &= 0x01FF;
            assert(0x200u16 & 0x1FF == 0) by {
            lemma_byte_bits();
            lemma_word_bits();
        }
            self.carry = true;
            proof { lemma_mod_self_0(rtc_span()); }
        } else {
            proof { lemma_small_mod((start.total_seconds() + 1) as nat, rtc_span() as nat); }
        }
    }

    /// Copies the running clock into the registers the game reads.
    pub fn latch(&mut self)
        ensures
            final(self).latched == old(self).latched_view(),
            final(self).cycles == old(self).cycles,
            final(self).seconds == old(self).seconds,
            final(self).minutes == old(self).minutes,
            final(self).hours == old(self).hours,
            final(self).day_counter == old(self).day_counter,
            final(self).halted == old(self).halted,
            final(self).carry == old(self).carry,
    {
        let halted_bit: u8 = if self.halted { 0x40 } else { 0 };
        let carry_bit: u8 = if self.carry { 0x80 } else { 0 };
        self.latched = RtcRegisters {
            seconds: self.seconds,
            minutes: self.minutes,
            hours: self.hours,
            day_low: (self.day_counter & 0xFF) as u8,
            day_high: ((self.day_counter >> 8) & 0x01) as u8 | halted_bit | carry_bit,
        };
    }

    /// The latched register selected by `register` (0x08 to 0x0C), or 0xFF.
    pub fn read_latched(&self, register: u8) -> (value: u8)
        ensures
            value == rtc_latched_register(self.latched, register),
    {
        match register {
            0x08 => self.latched.seconds,
            0x09 => self.latched.minutes,
            0x0A => self.latched.hours,
            0x0B => self.latched.day_low,
            0x0C => self.latched.day_high,
            _ => 0xFF,
        }
    }

    /// Sets the running clock register selected by `register`, keeping the
    /// time in range, then latches.
    pub fn write_register(&mut self, register: u8, value: u8)
        requires
            old(self).inv(),
        ensures
            final(self).inv(),
            final(self).cycles == old(self).cycles,
            final(self).seconds == (if register == 0x08 {
                value % 60
            } else {
                old(self).seconds
            }),
            final(self).minutes == (if register == 0x09 {
                value % 60
            } else {
                old(self).minutes
            }),
            final(self).hours == (if register == 0x0A {
                value % 24
            } else {
                old(self).hours
            }),
            final(self).day_counter == (if register == 0x0B {
                (old(self).day_counter & 0x0100) | value as u16
            } else if register == 0x0C {
                (old(self).day_counter & 0x00FF) | (((value & 0x01) as u16) << 8u16)
            } else {
                old(self).day_counter
            }),
            final(self).halted == (if register == 0x0C {
                value & 0x40 != 0
            } else {
                old(self).halted
            }),
            final(self).carry == (if register == 0x0C {
                value & 0x80 != 0
            } else {
                old(self).carry
            }),
            final(self).latched == final(self).latched_view(),
            *final(self) == old(self).written(register, value),
    {
        match register {
            0x08 => self.seconds = value % 60,
            0x09 => self.minutes = value % 60,
            0x0A => self.hours = value % 24,
            0x0B => {
                let day = self.day_counter;
                self.day_counter = (day & 0x0100) | value as u16;
                assert((day & 0x0100) | (value as u16) <= 0x1FF) by {
            lemma_byte_bits();
            lemma_word_bits();
        }
            },
            0x0C => {
                let day = self.day_counter;
                self.day_counter = (day & 0x00FF) | (((value & 0x01) as u16) << 8);
                assert((day & 0x00FF) | (((value & 0x01) as u16) << 8u16) <= 0x1FF)
                    by {
            lemma_byte_bits();
            lemma_word_bits();
        }
                self.halted = value & 0x40 != 0;
                self.carry = value & 0x80 != 0;
            },
            _ => {},
        }
        self.latch();
    }

    /// The clock as the ten bytes of an RTC save.
    pub fn to_bytes(&self) -> (bytes: Vec<u8>)
        ensures
            bytes@ == self.save_bytes(),
    {
        let mut bytes = Vec::with_capacity(RTC_SAVE_LEN);
        bytes.push((self.cycles & 0xFF) as u8);
        bytes.push(((self.cycles >> 8) & 0xFF) as u8);
        bytes.push(((self.cycles >> 16) & 0xFF) as u8);
        bytes.push(((self.cycles >> 24) & 0xFF) as u8);
        bytes.push(self.seconds);
        bytes.push(self.minutes);
        bytes.push(self.hours);
        bytes.push((self.day_counter & 0xFF) as u8);
        bytes.push(((self.day_counter >> 8) & 0xFF) as u8);
        let halted_bit: u8 = if self.halted { 1 } else { 0 };
        let carry_bit: u8 = if self.carry { 2 } else { 0 };
        bytes.push(halted_bit | carry_bit);
        assert(bytes@ =~= self.save_bytes());
        bytes
    }

    /// Restores the clock from an RTC save of exactly ten bytes, keeping the
    /// time in range, then latches. Any other length is an `InvalidRom` error
    /// and leaves the clock as it was.
    pub fn load_bytes(&mut self, bytes: &[u8]) -> (result: Result<()>)
        ensures
            result is Ok <==> bytes@.len() == RTC_SAVE_LEN,
            result is Err ==> result->Err_0 is InvalidRom && *final(self) == *old(self),
            result is Ok ==> {
                &&& final(self).cycles == le32(bytes@, 0)
                &&& final(self).seconds == bytes@[4] % 60
                &&& final(self).minutes == bytes@[5] % 60
                &&& final(self).hours == bytes@[6] % 24
                &&& final(self).day_counter == ((bytes@[7] as u16) | ((bytes@[8] as u16)
                    << 8u16)) & 0x01FF
                &&& final(self).halted == (bytes@[9] & 0x01 != 0)
                &&& final(self).carry == (bytes@[9] & 0x02 != 0)
                &&& final(self).latched == final(self).latched_view()
                &&& final(self).inv()
            },
    {
        if bytes.len() != RTC_SAVE_LEN {
            return Err(
                invalid_rom(
                    describe_two("RTC save size mismatch: expected ", RTC_SAVE_LEN, " bytes, got ", bytes.len()),
                ),
            );
        }
        self.cycles = (bytes[0] as u32) | ((bytes[1] as u32) << 8) | ((bytes[2] as u32) << 16) | ((
        bytes[3] as u32) << 24);
        self.seconds = bytes[4] % 60;
        self.minutes = bytes[5] % 60;
        self.hours = bytes[6] % 24;
        let low = bytes[7];
        let high = bytes[8];
        let day = ((low as u16) | ((high as u16) << 8)) & 0x01FF;
        assert(day <= 0x1FF) by (bit_vector)
            requires day == ((low as u16) | ((high as u16) << 8u16)) & 0x01FF;
        self.day_counter = day;
        self.halted = bytes[9] & 0x01 != 0;
        self.carry = bytes[9] & 0x02 != 0;
        self.latch();
        Ok(())
    }
}

/// The latched register that an RTC register number selects.
pub open spec fn rtc_latched_register(latched: RtcRegisters, register: u8) -> u8 {
    if register == 0x08 {
        latched.seconds
    } else if register == 0x09 {
        latched.minutes
    } else if register == 0x0A {
        latched.hours
    } else if register == 0x0B {
        latched.day_low
    } else if register == 0x0C {
        latched.day_high
    } else {
        0xFF
    }
}

/// Saving a clock and loading the save back gives the same clock: the cycle
/// counter, the time, the day counter and both flags come back unchanged.
pub proof fn lemma_rtc_save_round_trip(rtc: Rtc)
    requires
        rtc.inv(),
    ensures
        rtc.save_bytes().len() == RTC_SAVE_LEN,
        le32(rtc.save_bytes(), 0) == rtc.cycles,
        rtc.save_bytes()[4] % 60 == rtc.seconds,
        rtc.save_bytes()[5] % 60 == rtc.minutes,
        rtc.save_bytes()[6] % 24 == rtc.hours,
        ((rtc.save_bytes()[7] as u16) | ((rtc.save_bytes()[8] as u16) << 8u16)) & 0x01FF
            == rtc.day_counter,
        (rtc.save_bytes()[9] & 0x01 != 0) == rtc.halted,
        (rtc.save_bytes()[9] & 0x02 != 0) == rtc.carry,
{
    let c = rtc.cycles;
    let d = rtc.day_counter;
    let b = rtc.save_bytes();
    assert(((((c & 0xFF) as u8) as u32) | (((((c >> 8u32) & 0xFF) as u8) as u32) << 8u32) | ((
    (((c >> 16u32) & 0xFF) as u8) as u32) << 16u32) | (((((c >> 24u32) & 0xFF) as u8) as u32)
        << 24u32)) == c) by (bit_vector);
    assert(((((d & 0xFF) as u8) as u16) | (((((d >> 8u16) & 0xFF) as u8) as u16) << 8u16))
        & 0x01FF == d) by (bit_vector)
        requires
            d <= 0x1FF,
    ;
    let h: u8 = if rtc.halted { 1u8 } else { 0u8 };
    let k: u8 = if rtc.carry { 2u8 } else { 0u8 };
    assert(((h | k) & 0x01 != 0) == (h == 1) && ((h | k) & 0x02 != 0) == (k == 2)) by (bit_vector)
        requires
            h == 0 || h == 1,
            k == 0 || k == 2,
    ;
}


/// What a latch shows of a clock: the seconds, minutes and hours as they
/// run, the low eight bits of the day counter in the day-low register, and
/// in the day-high register the day counter's bit 8 as bit 0, bit 6 set
/// exactly when the clock is halted, bit 7 set exactly when the day counter
/// has carried, and bits 1-5 clear.
pub proof fn lemma_latched_registers(clock: Rtc)
    requires
        clock.inv(),
    ensures
        ({
            let shown = clock.latched_view();
            &&& shown.seconds == clock.seconds
            &&& shown.minutes == clock.minutes
            &&& shown.hours == clock.hours
            &&& shown.day_low == clock.day_counter % 256
            &&& shown.day_high % 2 == clock.day_counter / 256
            &&& (shown.day_high / 2) % 32 == 0
            &&& ((shown.day_high / 64) % 2 == 1 <==> clock.halted)
            &&& (shown.day_high >= 128 <==> clock.carry)
        }),
{
    let d = clock.day_counter;
    let h = clock.halted;
    let c = clock.carry;
    let high = clock.latched_view().day_high;
    assert(d & 0xFF == d % 256) by (bit_vector);
    assert(d <= 0x1FF ==> ((d >> 8u16) & 0x01) as u8 == (d / 256) as u8) by (bit_vector);
    assert(high == ((d >> 8u16) & 0x01) as u8 | (if h { 0x40u8 } else { 0u8 }) | (if c {
        0x80u8
    } else {
        0u8
    }));
    assert(d <= 0x1FF && high == ((d >> 8u16) & 0x01) as u8 | (if h { 0x40u8 } else { 0u8 }) | (
    if c {
        0x80u8
    } else {
        0u8
    }) ==> high % 2 == d / 256 && (high / 2) % 32 == 0 && ((high / 64) % 2 == 1 <==> h) && (high
        >= 128 <==> c)) by (bit_vector);
}

/// A clock register reads back what was written to it, brought into range:
/// the seconds and minutes modulo 60, the hours modulo 24, the day-low
/// register whole, and the day-high register with only its bits 0 (day bit
/// 8), 6 (halt) and 7 (carry) kept, whatever the clock held before. A write
/// also latches, so the read needs no separate latch.
pub proof fn lemma_register_write_read_back(clock: Rtc, register: u8, value: u8)
    requires
        clock.inv(),
        0x08 <= register <= 0x0C,
    ensures
        rtc_latched_register(clock.written(register, value).latched, register) == (if register
            == 0x08 || register == 0x09 {
            value % 60
        } else if register == 0x0A {
            value % 24
        } else if register == 0x0B {
            value
        } else {
            (value % 2 + (value / 64) * 64) as u8
        }),
{
    let d0 = clock.day_counter;
    assert(((((d0 & 0x0100) | value as u16) & 0xFF) as u8 == value) && ((((d0 & 0x00FF) | (((value
        & 0x01) as u16) << 8u16)) >> 8u16) & 0x01) as u8 | (if value & 0x40 != 0 {
        0x40u8
    } else {
        0u8
    }) | (if value & 0x80 != 0 {
        0x80u8
    } else {
        0u8
    }) == (value % 2 + (value / 64) * 64) as u8) by (bit_vector);
}
} // verus!
