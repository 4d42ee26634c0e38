use vstd::prelude::*;
use crate::bits::{lemma_byte_bits, lemma_word_bits};

verus! {

/// Output samples per second.
pub const SAMPLE_RATE: u32 = 44_100;
/// CPU cycles per second.
pub const CPU_HZ: u32 = 4_194_304;
/// CPU cycles per frame-sequencer step (512 Hz).
pub const FRAME_SEQUENCER_PERIOD: u32 = 8192;

/// The eight-step waveform of duty setting `duty` at step `step`.
pub open spec fn duty_pattern(duty: u8, step: u8) -> u8 {
    if duty == 0 {
        if step == 7 { 1 } else { 0 }
    } else if duty == 1 {
        if step == 0 || step == 7 { 1 } else { 0 }
    } else if duty == 2 {
        if step == 0 || step == 5 || step == 6 || step == 7 { 1 } else { 0 }
    } else {
        if step == 0 || step == 7 { 0 } else { 1 }
    }
}

fn duty_bit(duty: u8, step: u8) -> (bit: u8)
    requires
        duty <= 3,
        step <= 7,
    ensures
        bit == duty_pattern(duty, step),
{
    match duty {
        0 => if step == 7 { 1 } else { 0 },
        1 => if step == 0 || step == 7 { 1 } else { 0 },
        2 => if step == 0 || step == 5 || step == 6 || step == 7 { 1 } else { 0 },
        _ => if step == 0 || step == 7 { 0 } else { 1 },
    }
}

/// A stereo sample in 16-bit PCM.
#[derive(Debug, Clone, Copy, Default, PartialEq, Eq, Structural)]
pub struct AudioSample {
    pub left: i16,
    pub right: i16,
}

/// The inputs of one output sample: each channel's level (0-15) on each
/// side it is routed to (0 where it is not), in channel order pulse 1,
/// pulse 2, wave, noise, and each side's master volume (1-8).
#[derive(Debug, Clone, Copy, Default, PartialEq, Eq)]
pub struct SampleMix {
    pub left: [u8; 4],
    pub right: [u8; 4],
    pub left_volume: u8,
    pub right_volume: u8,
}

/// NR51 routes a channel to a side when bit `bit` is set.
pub open spec fn routes(nr51: u8, bit: u8) -> bool {
    nr51 & (1u8 << bit) != 0
}

impl SampleMix {
    /// This mix routes by `nr51` and scales by `nr50`: channel `i` has
    /// level 0 on a side it is not routed to, the same level on both sides
    /// when routed to both, and each side's volume is its NR50 level plus one.
    pub open spec fn routed_by(&self, nr50: u8, nr51: u8) -> bool {
        &&& forall|i: int| 0 <= i < 4 ==> !routes(nr51, i as u8) ==> #[trigger] self.right@[i] == 0
        &&& forall|i: int| 0 <= i < 4 ==> !routes(nr51, (i + 4) as u8) ==> #[trigger] self.left@[i] == 0
        &&& forall|i: int|
            0 <= i < 4 && routes(nr51, i as u8) && routes(nr51, (i + 4) as u8) ==> #[trigger] self.left@[i]
                == self.right@[i]
        &&& self.left_volume == ((nr50 >> 4u8) & 0x07) + 1
        &&& self.right_volume == (nr50 & 0x07) + 1
    }

    /// No channel reaches either side.
    pub open spec fn spec_silent(&self) -> bool {
        forall|i: int| 0 <= i < 4 ==> self.left@[i] == 0 && self.right@[i] == 0
    }

    pub fn is_silent(&self) -> (silent: bool)
        ensures
            silent == self.spec_silent(),
    {
        let mut i: usize = 0;
        while i < 4
            invariant
                0 <= i <= 4,
                forall|j: int| 0 <= j < i ==> self.left@[j] == 0 && self.right@[j] == 0,
            decreases 4 - i,
        {
            if self.left[i] != 0 || self.right[i] != 0 {
                return false;
            }
            i += 1;
        }
        true
    }
}

/// The reload value of an envelope or sweep timer: its period, with 0 counting as 8.
pub open spec fn envelope_reload_of(period: u8) -> u8 {
    if period == 0 {
        8
    } else {
        period
    }
}

pub fn envelope_reload(period: u8) -> (reload: u8)
    ensures
        reload == envelope_reload_of(period),
{
    if period == 0 {
        8
    } else {
        period
    }
}

/// A square-wave channel, with a frequency sweep on channel 1.
#[derive(Debug, Clone, Copy, PartialEq, Eq, Structural)]
pub struct PulseChannel {
    pub has_sweep: bool,
    pub enabled: bool,
    pub dac_enabled: bool,
    pub duty: u8,
    pub length_timer: u16,
    pub length_enabled: bool,
    pub volume: u8,
    pub envelope_initial: u8,
    pub envelope_increase: bool,
    pub envelope_period: u8,
    pub envelope_timer: u8,
    pub frequency: u16,
    pub period_timer: u16,
    pub duty_step: u8,
    pub sweep_period: u8,
    pub sweep_negate: bool,
    pub sweep_shift: u8,
    pub sweep_timer: u8,
    pub sweep_shadow: u16,
    pub sweep_enabled: bool,
    pub sweep_negated_since_trigger: bool,
    pub nr10: u8,
    pub nr11: u8,
    pub nr12: u8,
    pub nr13: u8,
    pub nr14: u8,
}

/// The one-step envelope update shared by the pulse and noise channels.
pub open spec fn envelope_step(volume: u8, increase: bool) -> u8 {
    if increase && volume < 15 {
        (volume + 1) as u8
    } else if !increase && volume > 0 {
        (volume - 1) as u8
    } else {
        volume
    }
}

/// The timer period of a frequency: (2048 - frequency) times `factor`,
/// at least `factor`.
pub open spec fn period_of(frequency: u16, factor: int) -> int {
    (if 2048 - frequency >= 1 { 2048 - frequency } else { 1 }) * factor
}

impl PulseChannel {
    pub open spec fn inv(&self) -> bool {
        &&& self.duty <= 3
        &&& self.length_timer <= 64
        &&& self.volume <= 15
        &&& self.envelope_initial <= 15
        &&& self.envelope_period <= 7
        &&& self.envelope_timer <= 8
        &&& self.frequency <= 0x7FF
        &&& self.period_timer <= 8192
        &&& self.duty_step <= 7
        &&& self.sweep_period <= 7
        &&& self.sweep_shift <= 7
        &&& self.sweep_timer <= 8
        &&& self.sweep_shadow <= 0x7FF
    }

    /// A silent channel with every register zero.
    pub fn new(has_sweep: bool) -> (channel: Self)
        ensures
            channel.inv(),
            channel.has_sweep == has_sweep,
            !channel.enabled,
            !channel.dac_enabled,
            channel.length_timer == 0,
            channel.frequency == 0,
            channel.nr10 == 0 && channel.nr11 == 0 && channel.nr12 == 0 && channel.nr13 == 0
                && channel.nr14 == 0,
    {
        PulseChannel {
            has_sweep,
            enabled: false,
            dac_enabled: false,
            duty: 0,
            length_timer: 0,
            length_enabled: false,
            volume: 0,
            envelope_initial: 0,
            envelope_increase: false,
            envelope_period: 0,
            envelope_timer: 0,
            frequency: 0,
            period_timer: 0,
            duty_step: 0,
            sweep_period: 0,
            sweep_negate: false,
            sweep_shift: 0,
            sweep_timer: 0,
            sweep_shadow: 0,
            sweep_enabled: false,
            sweep_negated_since_trigger: false,
            nr10: 0,
            nr11: 0,
            nr12: 0,
            nr13: 0,
            nr14: 0,
        }
    }

    /// NR10: sweep period, direction and shift. Clearing the negate bit after
    /// a negated sweep calculation since the last trigger turns channel 1 off.
    pub fn write_nr10(&mut self, value: u8)
        requires
            old(self).inv(),
        ensures
            final(self).inv(),
            *final(self) == (PulseChannel {
                enabled: if old(self).has_sweep && old(self).sweep_negated_since_trigger
                    && old(self).sweep_negate && value & 0x08 == 0 {
                    false
                } else {
                    old(self).enabled
                },
                nr10: value & 0x7F,
                sweep_period: (value >> 4u8) & 0x07,
                sweep_negate: value & 0x08 != 0,
                sweep_shift: value & 0x07,
                ..*old(self)
            }),
    {
        if self.has_sweep && self.sweep_negated_since_trigger && self.sweep_negate && value & 0x08
            == 0 {
            self.enabled = false;
        }
        self.nr10 = value & 0x7F;
        self.sweep_period = (value >> 4) & 0x07;
        self.sweep_negate = value & 0x08 != 0;
        self.sweep_shift = value & 0x07;
        assert((value >> 4u8) & 0x07 <= 7 && value & 0x07 <= 7) by {
            lemma_byte_bits();
            lemma_word_bits();
        }
    }

    /// NR11: duty in the top two bits, length load in the low six.
    pub fn write_nr11(&mut self, value: u8)
        requires
            old(self).inv(),
        ensures
            final(self).inv(),
            *final(self) == (PulseChannel {
                nr11: value,
                duty: value >> 6u8,
                length_timer: (64 - (value & 0x3F)) as u16,
                ..*old(self)
            }),
    {
        self.nr11 = value;
        self.duty = value >> 6;
        assert(value >> 6u8 <= 3 && value & 0x3F <= 63) by {
            lemma_byte_bits();
            lemma_word_bits();
        }
        self.length_timer = 64 - (value & 0x3F) as u16;
    }

    /// NR12: envelope start volume, direction and period. A DAC switched
    /// off (top five bits zero) turns the channel off.
    pub fn write_nr12(&mut self, value: u8)
        requires
            old(self).inv(),
        ensures
            final(self).inv(),
            *final(self) == (PulseChannel {
                nr12: value,
                envelope_initial: value >> 4u8,
                envelope_increase: value & 0x08 != 0,
                envelope_period: value & 0x07,
                dac_enabled: value & 0xF8 != 0,
                enabled: if value & 0xF8 == 0 {
                    false
                } else {
                    old(self).enabled
                },
                ..*old(self)
            }),
    {
        self.nr12 = value;
        self.envelope_initial = value >> 4;
        self.envelope_increase = value & 0x08 != 0;
        self.envelope_period = value & 0x07;
        self.dac_enabled = value & 0xF8 != 0;
        assert(value >> 4u8 <= 15 && value & 0x07 <= 7) by {
            lemma_byte_bits();
            lemma_word_bits();
        }
        if !self.dac_enabled {
            self.enabled = false;
        }
    }

    /// NR13: low eight bits of the frequency.
    pub fn write_nr13(&mut self, value: u8)
        requires
            old(self).inv(),
        ensures
            final(self).inv(),
            *final(self) == (PulseChannel {
                nr13: value,
                frequency: (old(self).frequency & 0x0700) | value as u16,
                ..*old(self)
            }),
    {
        self.nr13 = value;
        let f = self.frequency;
        assert((f & 0x0700) | (value as u16) <= 0x7FF) by {
            lemma_byte_bits();
            lemma_word_bits();
        }
        self.frequency = (f & 0x0700) | value as u16;
    }

    /// The frequency and length-enable bits NR14 sets, before any trigger.
    pub open spec fn nr14_written(self, value: u8) -> PulseChannel {
        PulseChannel {
            nr14: value & 0xC7,
            length_enabled: value & 0x40 != 0,
            frequency: (self.frequency & 0x00FF) | (((value & 0x07) as u16) << 8u16),
            ..self
        }
    }

    /// NR14: high frequency bits and length enable; bit 7 triggers.
    pub fn write_nr14(&mut self, value: u8)
        requires
            old(self).inv(),
        ensures
            final(self).inv(),
            value & 0x80 == 0 ==> *final(self) == old(self).nr14_written(value),
            value & 0x80 != 0 ==> old(self).nr14_written(value).triggered_to(*final(self)),
            *final(self) == old(self).nr14_applied(value),
    {
        self.nr14 = value & 0xC7;
        self.length_enabled = value & 0x40 != 0;
        let f = self.frequency;
        assert((f & 0x00FF) | (((value & 0x07) as u16) << 8u16) <= 0x7FF) by {
            lemma_byte_bits();
            lemma_word_bits();
        }
        self.frequency = (f & 0x00FF) | (((value & 0x07) as u16) << 8);
        if value & 0x80 != 0 {
            self.trigger();
        }
    }

    /// `next` is this channel just after a trigger: on if its DAC is, a
    /// zero length reloaded to 64, timers reloaded, volume reset to the
    /// envelope start, the sweep reloaded from the frequency and, with a
    /// non-zero shift, checked once for overflow.
    pub open spec fn triggered_to(self, next: PulseChannel) -> bool {
        next == self.triggered()
    }

    /// This channel just after a trigger (see `triggered_to`).
    pub open spec fn triggered(self) -> PulseChannel {
        let base = PulseChannel {
            enabled: self.dac_enabled,
            length_timer: if self.length_timer == 0 { 64 } else { self.length_timer },
            period_timer: period_of(self.frequency, 4) as u16,
            volume: self.envelope_initial,
            envelope_timer: envelope_reload_of(self.envelope_period),
            sweep_shadow: self.frequency,
            sweep_timer: envelope_reload_of(self.sweep_period),
            sweep_enabled: self.sweep_period != 0 || self.sweep_shift != 0,
            sweep_negated_since_trigger: false,
            ..self
        };
        if self.has_sweep && self.sweep_shift != 0 {
            base.sweep_checked().0
        } else {
            base
        }
    }

    /// This channel after an NR14 write of `value`, triggering on bit 7.
    pub open spec fn nr14_applied(self, value: u8) -> PulseChannel {
        if value & 0x80 != 0 {
            self.nr14_written(value).triggered()
        } else {
            self.nr14_written(value)
        }
    }

    /// This channel after one step of its frequency timer.
    pub open spec fn timer_clocked(self) -> PulseChannel {
        if self.period_timer == 0 {
            PulseChannel {
                period_timer: period_of(self.frequency, 4) as u16,
                duty_step: ((self.duty_step + 1) % 8) as u8,
                ..self
            }
        } else {
            PulseChannel { period_timer: (self.period_timer - 1) as u16, ..self }
        }
    }

    /// This channel after one length-counter clock.
    pub open spec fn length_clocked(self) -> PulseChannel {
        if self.length_enabled && self.length_timer > 0 {
            PulseChannel {
                length_timer: (self.length_timer - 1) as u16,
                enabled: if self.length_timer == 1 {
                    false
                } else {
                    self.enabled
                },
                ..self
            }
        } else {
            self
        }
    }

    /// Starts the channel again (see `triggered_to`).
    pub fn trigger(&mut self)
        requires
            old(self).inv(),
        ensures
            final(self).inv(),
            old(self).triggered_to(*final(self)),
    {
        self.enabled = self.dac_enabled;
        if self.length_timer == 0 {
            self.length_timer = 64;
        }
        self.period_timer = self.period();
        self.volume = self.envelope_initial;
        self.envelope_timer = envelope_reload(self.envelope_period);
        self.sweep_shadow = self.frequency;
        self.sweep_timer = envelope_reload(self.sweep_period);
        self.sweep_enabled = self.sweep_period != 0 || self.sweep_shift != 0;
        self.sweep_negated_since_trigger = false;
        if self.has_sweep && self.sweep_shift != 0 {
            let _ = self.calculate_sweep();
        }
    }

    /// One step of the frequency timer: at zero it reloads and the duty
    /// position moves on.
    pub fn clock_timer(&mut self)
        requires
            old(self).inv(),
        ensures
            final(self).inv(),
            old(self).period_timer == 0 ==> *final(self) == (PulseChannel {
                period_timer: period_of(old(self).frequency, 4) as u16,
                duty_step: ((old(self).duty_step + 1) % 8) as u8,
                ..*old(self)
            }),
            old(self).period_timer != 0 ==> *final(self) == (PulseChannel {
                period_timer: (old(self).period_timer - 1) as u16,
                ..*old(self)
            }),
            *final(self) == old(self).timer_clocked(),
    {
        if self.period_timer == 0 {
            self.period_timer = self.period();
            let next: u8 = self.duty_step + 1;
            assert(next & 0x07 == next % 8) by {
            lemma_byte_bits();
            lemma_word_bits();
        }
            self.duty_step = next & 0x07;
        } else {
            self.period_timer -= 1;
        }
    }

    /// One length-counter clock: counting down to zero turns the channel off.
    pub fn clock_length(&mut self)
        requires
            old(self).inv(),
        ensures
            final(self).inv(),
            (old(self).length_enabled && old(self).length_timer > 0) ==> *final(self) == (
            PulseChannel {
                length_timer: (old(self).length_timer - 1) as u16,
                enabled: if old(self).length_timer == 1 {
                    false
                } else {
                    old(self).enabled
                },
                ..*old(self)
            }),
            !(old(self).length_enabled && old(self).length_timer > 0) ==> *final(self) == *old(self),
            *final(self) == old(self).length_clocked(),
    {
        if self.length_enabled && self.length_timer > 0 {
            self.length_timer -= 1;
            if self.length_timer == 0 {
                self.enabled = false;
            }
        }
    }

    /// One envelope clock: with a non-zero period the timer counts down and,
    /// on reaching zero, reloads and steps the volume within 0-15.
    pub fn clock_envelope(&mut self)
        requires
            old(self).inv(),
        ensures
            final(self).inv(),
            old(self).envelope_period == 0 ==> *final(self) == *old(self),
            old(self).envelope_period != 0 && old(self).envelope_timer > 1 ==> *final(self) == (
            PulseChannel { envelope_timer: (old(self).envelope_timer - 1) as u8, ..*old(self) }),
            old(self).envelope_period != 0 && old(self).envelope_timer <= 1 ==> *final(self) == (
            PulseChannel {
                envelope_timer: envelope_reload_of(old(self).envelope_period),
                volume: envelope_step(old(self).volume, old(self).envelope_increase),
                ..*old(self)
            }),
    {
        if self.envelope_period == 0 {
            return;
        }
        self.envelope_timer = self.envelope_timer.saturating_sub(1);
        if self.envelope_timer == 0 {
            self.envelope_timer = envelope_reload(self.envelope_period);
            if self.envelope_increase && self.volume < 15 {
                self.volume += 1;
            } else if !self.envelope_increase && self.volume > 0 {
                self.volume -= 1;
            }
        }
    }

    /// The sweep calculation and what it does to the channel: the shadow
    /// frequency plus or minus itself shifted right by the shift; a result
    /// over 2047 turns the channel off and gives `None`.
    pub open spec fn sweep_checked(self) -> (PulseChannel, Option<u16>) {
        let delta = self.sweep_shadow >> self.sweep_shift;
        let frequency = if self.sweep_negate {
            self.sweep_shadow.wrapping_sub(delta)
        } else {
            self.sweep_shadow.wrapping_add(delta)
        };
        let marked = PulseChannel {
            sweep_negated_since_trigger: if self.sweep_negate {
                true
            } else {
                self.sweep_negated_since_trigger
            },
            ..self
        };
        if frequency > 2047 {
            (PulseChannel { enabled: false, ..marked }, None)
        } else {
            (marked, Some(frequency))
        }
    }

    pub fn calculate_sweep(&mut self) -> (next: Option<u16>)
        requires
            old(self).inv(),
        ensures
            final(self).inv(),
            (*final(self), next) == old(self).sweep_checked(),
            next matches Some(f) ==> f <= 2047,
    {
        let delta = self.sweep_shadow >> self.sweep_shift;
        let frequency = if self.sweep_negate {
            self.sweep_negated_since_trigger = true;
            self.sweep_shadow.wrapping_sub(delta)
        } else {
            self.sweep_shadow.wrapping_add(delta)
        };
        if frequency > 2047 {
            self.enabled = false;
            None
        } else {
            Some(frequency)
        }
    }

    /// One sweep clock on channel 1: the timer counts down; on reaching zero
    /// it reloads and, when the sweep is active with a non-zero period, a
    /// new in-range frequency with a non-zero shift is applied and checked again.
    pub fn clock_sweep(&mut self)
        requires
            old(self).inv(),
        ensures
            final(self).inv(),
            !old(self).has_sweep ==> *final(self) == *old(self),
            old(self).has_sweep && old(self).sweep_timer > 1 ==> *final(self) == (PulseChannel {
                sweep_timer: (old(self).sweep_timer - 1) as u8,
                ..*old(self)
            }),
            final(self).has_sweep == old(self).has_sweep,
            final(self).duty == old(self).duty,
            final(self).length_timer == old(self).length_timer,
            final(self).volume == old(self).volume,
    {
        if !self.has_sweep {
            return;
        }
        self.sweep_timer = self.sweep_timer.saturating_sub(1);
        if self.sweep_timer != 0 {
            return;
        }
        self.sweep_timer = envelope_reload(self.sweep_period);
        if self.sweep_enabled && self.sweep_period != 0 {
            if let Some(next) = self.calculate_sweep() {
                if self.sweep_shift != 0 {
                    self.frequency = next;
                    self.sweep_shadow = next;
                    let _ = self.calculate_sweep();
                }
            }
        }
    }

    /// The level the channel outputs now: its volume while on, its DAC on
    /// and its waveform high; otherwise 0.
    /// The level this channel puts out now (0 while off or in a low duty step).
    pub closed spec fn level(&self) -> u8 {
        if !self.enabled || !self.dac_enabled || duty_pattern(self.duty, self.duty_step) == 0 {
            0
        } else {
            self.volume
        }
    }

    pub fn output(&self) -> (level: u8)
        requires
            self.inv(),
        ensures
            level == self.level(),
            level == (if !self.enabled || !self.dac_enabled || duty_pattern(self.duty, self.duty_step)
                == 0 {
                0
            } else {
                self.volume
            }),
            level <= 15,
    {
        if !self.enabled || !self.dac_enabled || duty_bit(self.duty, self.duty_step) == 0 {
            0
        } else {
            self.volume
        }
    }

    pub fn period(&self) -> (period: u16)
        requires
            self.frequency <= 0x7FF,
        ensures
            period == period_of(self.frequency, 4),
            period <= 8192,
    {
        let diff = 2048 - self.frequency;
        let d = if diff >= 1 {
            diff
        } else {
            1
        };
        d * 4
    }
}

/// The wave channel: plays 32 four-bit samples from wave RAM.
#[derive(Debug, Clone, PartialEq, Eq)]
pub struct WaveChannel {
    pub enabled: bool,
    pub dac_enabled: bool,
    pub length_timer: u16,
    pub length_enabled: bool,
    pub volume_code: u8,
    pub frequency: u16,
    pub period_timer: u16,
    pub sample_index: u8,
    pub wave_ram: Vec<u8>,
    pub nr30: u8,
    pub nr31: u8,
    pub nr32: u8,
    pub nr33: u8,
    pub nr34: u8,
}

/// The wave-RAM index the CPU reaches at `offset`: while the channel plays,
/// the byte being played, whatever the offset.
pub open spec fn wave_ram_index(enabled: bool, sample_index: u8, offset: u16) -> int {
    if enabled {
        sample_index as int / 2
    } else {
        offset as int
    }
}

impl WaveChannel {
    pub open spec fn inv(&self) -> bool {
        &&& self.wave_ram@.len() == 16
        &&& self.length_timer <= 256
        &&& self.volume_code <= 3
        &&& self.frequency <= 0x7FF
        &&& self.period_timer <= 4096
        &&& self.sample_index <= 31
    }

    pub fn new() -> (channel: Self)
        ensures
            channel.inv(),
            !channel.enabled,
            channel.length_timer == 0,
            channel.wave_ram@ == Seq::new(16, |i: int| 0u8),
    {
        let channel = WaveChannel {
            enabled: false,
            dac_enabled: false,
            length_timer: 0,
            length_enabled: false,
            volume_code: 0,
            frequency: 0,
            period_timer: 0,
            sample_index: 0,
            wave_ram: vec![0u8; 16],
            nr30: 0,
            nr31: 0,
            nr32: 0,
            nr33: 0,
            nr34: 0,
        };
        assert(channel.wave_ram@ =~= Seq::new(16, |i: int| 0u8));
        channel
    }

    pub fn read_wave_ram(&self, offset: u16) -> (value: u8)
        requires
            self.inv(),
            offset < 16,
        ensures
            value == self.wave_ram@[wave_ram_index(self.enabled, self.sample_index, offset)],
    {
        if self.enabled {
            self.wave_ram[(self.sample_index / 2) as usize]
        } else {
            self.wave_ram[offset as usize]
        }
    }

    pub fn write_wave_ram(&mut self, offset: u16, value: u8)
        requires
            old(self).inv(),
            offset < 16,
        ensures
            final(self).inv(),
            final(self).wave_ram@ == old(self).wave_ram@.update(
                wave_ram_index(old(self).enabled, old(self).sample_index, offset),
                value,
            ),
            final(self).enabled == old(self).enabled,
            final(self).sample_index == old(self).sample_index,
            final(self).length_timer == old(self).length_timer,
    {
        let index = if self.enabled {
            (self.sample_index / 2) as usize
        } else {
            offset as usize
        };
        self.wave_ram.set(index, value);
    }

    /// NR30: DAC power; switching it off turns the channel off.
    pub fn write_nr30(&mut self, value: u8)
        requires
            old(self).inv(),
        ensures
            final(self).inv(),
            final(self).nr30 == value & 0x80,
            final(self).dac_enabled == (value & 0x80 != 0),
            final(self).enabled == (old(self).enabled && value & 0x80 != 0),
            final(self).wave_ram == old(self).wave_ram,
            final(self).length_timer == old(self).length_timer,
            final(self).frequency == old(self).frequency,
    {
        self.nr30 = value & 0x80;
        self.dac_enabled = value & 0x80 != 0;
        if !self.dac_enabled {
            self.enabled = false;
        }
    }

    /// NR31: length load (256 minus the value).
    pub fn write_nr31(&mut self, value: u8)
        requires
            old(self).inv(),
        ensures
            final(self).inv(),
            final(self).nr31 == value,
            final(self).length_timer == 256 - value,
            final(self).enabled == old(self).enabled,
            final(self).wave_ram == old(self).wave_ram,
    {
        self.nr31 = value;
        self.length_timer = 256 - value as u16;
    }

    /// NR32: output level in bits 5-6.
    pub fn write_nr32(&mut self, value: u8)
        requires
            old(self).inv(),
        ensures
            final(self).inv(),
            final(self).nr32 == value & 0x60,
            final(self).volume_code == (value >> 5u8) & 0x03,
            final(self).enabled == old(self).enabled,
            final(self).wave_ram == old(self).wave_ram,
            final(self).length_timer == old(self).length_timer,
    {
        self.nr32 = value & 0x60;
        self.volume_code = (value >> 5) & 0x03;
        assert((value >> 5u8) & 0x03 <= 3) by {
            lemma_byte_bits();
            lemma_word_bits();
        }
    }

    /// NR33: low eight bits of the frequency.
    pub fn write_nr33(&mut self, value: u8)
        requires
            old(self).inv(),
        ensures
            final(self).inv(),
            final(self).nr33 == value,
            final(self).frequency == (old(self).frequency & 0x0700) | value as u16,
            final(self).enabled == old(self).enabled,
            final(self).wave_ram == old(self).wave_ram,
            final(self).length_timer == old(self).length_timer,
    {
        self.nr33 = value;
        let f = self.frequency;
        assert((f & 0x0700) | (value as u16) <= 0x7FF) by {
            lemma_byte_bits();
            lemma_word_bits();
        }
        self.frequency = (f & 0x0700) | value as u16;
    }

    /// This channel just after a trigger: on if its DAC is, a zero length
    /// reloaded to 256, the timer reloaded and the first sample next.
    pub open spec fn triggered(self) -> WaveChannel {
        WaveChannel {
            enabled: self.dac_enabled,
            length_timer: if self.length_timer == 0 {
                256
            } else {
                self.length_timer
            },
            period_timer: period_of(self.frequency, 2) as u16,
            sample_index: 0,
            ..self
        }
    }

    /// This channel after an NR34 write of `value`, triggering on bit 7.
    pub open spec fn nr34_applied(self, value: u8) -> WaveChannel {
        let written = WaveChannel {
            nr34: value & 0xC7,
            length_enabled: value & 0x40 != 0,
            frequency: (self.frequency & 0x00FF) | (((value & 0x07) as u16) << 8u16),
            ..self
        };
        if value & 0x80 != 0 {
            written.triggered()
        } else {
            written
        }
    }

    /// This channel after one step of its frequency timer.
    pub open spec fn timer_clocked(self) -> WaveChannel {
        if self.period_timer == 0 {
            WaveChannel {
                period_timer: period_of(self.frequency, 2) as u16,
                sample_index: ((self.sample_index + 1) % 32) as u8,
                ..self
            }
        } else {
            WaveChannel { period_timer: (self.period_timer - 1) as u16, ..self }
        }
    }

    /// This channel after one length-counter clock.
    pub open spec fn length_clocked(self) -> WaveChannel {
        if self.length_enabled && self.length_timer > 0 {
            WaveChannel {
                length_timer: (self.length_timer - 1) as u16,
                enabled: self.enabled && self.length_timer != 1,
                ..self
            }
        } else {
            self
        }
    }

    /// NR34: high frequency bits and length enable; bit 7 triggers.
    pub fn write_nr34(&mut self, value: u8)
        requires
            old(self).inv(),
        ensures
            final(self).inv(),
            final(self).nr34 == value & 0xC7,
            final(self).length_enabled == (value & 0x40 != 0),
            final(self).frequency == (old(self).frequency & 0x00FF) | (((value & 0x07) as u16)
                << 8u16),
            final(self).wave_ram == old(self).wave_ram,
            value & 0x80 != 0 ==> final(self).enabled == old(self).dac_enabled,
            value & 0x80 != 0 ==> final(self).length_timer == (if old(self).length_timer == 0 {
                256
            } else {
                old(self).length_timer
            }),
            value & 0x80 != 0 ==> final(self).sample_index == 0,
            value & 0x80 == 0 ==> final(self).enabled == old(self).enabled,
            value & 0x80 == 0 ==> final(self).length_timer == old(self).length_timer,
            *final(self) == old(self).nr34_applied(value),
    {
        self.nr34 = value & 0xC7;
        self.length_enabled = value & 0x40 != 0;
        let f = self.frequency;
        assert((f & 0x00FF) | (((value & 0x07) as u16) << 8u16) <= 0x7FF) by {
            lemma_byte_bits();
            lemma_word_bits();
        }
        self.frequency = (f & 0x00FF) | (((value & 0x07) as u16) << 8);
        if value & 0x80 != 0 {
            self.trigger();
        }
    }

    /// Starts the channel again from the first sample.
    pub fn trigger(&mut self)
        requires
            old(self).inv(),
        ensures
            final(self).inv(),
            final(self).enabled == old(self).dac_enabled,
            final(self).length_timer == (if old(self).length_timer == 0 {
                256
            } else {
                old(self).length_timer
            }),
            final(self).period_timer == period_of(old(self).frequency, 2),
            final(self).sample_index == 0,
            final(self).wave_ram == old(self).wave_ram,
            final(self).frequency == old(self).frequency,
            final(self).length_enabled == old(self).length_enabled,
            final(self).dac_enabled == old(self).dac_enabled,
            final(self).nr34 == old(self).nr34,
            *final(self) == old(self).triggered(),
    {
        self.enabled = self.dac_enabled;
        if self.length_timer == 0 {
            self.length_timer = 256;
        }
        self.period_timer = self.period();
        self.sample_index = 0;
    }

    /// One step of the frequency timer: at zero it reloads and moves to the next sample.
    pub fn clock_timer(&mut self)
        requires
            old(self).inv(),
        ensures
            final(self).inv(),
            old(self).period_timer == 0 ==> final(self).period_timer == period_of(
                old(self).frequency,
                2,
            ) && final(self).sample_index == (old(self).sample_index + 1) % 32,
            old(self).period_timer != 0 ==> final(self).period_timer == old(self).period_timer - 1
                && final(self).sample_index == old(self).sample_index,
            final(self).enabled == old(self).enabled,
            final(self).wave_ram == old(self).wave_ram,
            final(self).length_timer == old(self).length_timer,
            final(self).dac_enabled == old(self).dac_enabled,
            *final(self) == old(self).timer_clocked(),
    {
        if self.period_timer == 0 {
            self.period_timer = self.period();
            let next: u8 = self.sample_index + 1;
            assert(next & 0x1F == next % 32) by {
            lemma_byte_bits();
            lemma_word_bits();
        }
            self.sample_index = next & 0x1F;
        } else {
            self.period_timer -= 1;
        }
    }

    /// One length-counter clock: counting down to zero turns the channel off.
    pub fn clock_length(&mut self)
        requires
            old(self).inv(),
        ensures
            final(self).inv(),
            (old(self).length_enabled && old(self).length_timer > 0) ==> final(self).length_timer
                == old(self).length_timer - 1 && final(self).enabled == (old(self).enabled
                && old(self).length_timer != 1),
            !(old(self).length_enabled && old(self).length_timer > 0) ==> final(self).length_timer
                == old(self).length_timer && final(self).enabled == old(self).enabled,
            final(self).wave_ram == old(self).wave_ram,
            final(self).length_enabled == old(self).length_enabled,
            final(self).sample_index == old(self).sample_index,
            *final(self) == old(self).length_clocked(),
    {
        if self.length_enabled && self.length_timer > 0 {
            self.length_timer -= 1;
            if self.length_timer == 0 {
                self.enabled = false;
            }
        }
    }

    /// The level the channel outputs: the current 4-bit sample (high nibble
    /// first) shifted right by the output level (0 for mute), while on.
    /// The level this channel puts out now: the current wave sample shifted
    /// by the volume code, 0 while off.
    pub closed spec fn level(&self) -> u8 {
        if !self.enabled || !self.dac_enabled {
            0
        } else {
            let byte = self.wave_ram@[self.sample_index as int / 2];
            let sample = if self.sample_index % 2 == 0 {
                byte >> 4u8
            } else {
                byte & 0x0F
            };
            if self.volume_code == 0 {
                0
            } else if self.volume_code == 1 {
                sample
            } else if self.volume_code == 2 {
                sample >> 1u8
            } else {
                sample >> 2u8
            }
        }
    }

    pub fn output(&self) -> (level: u8)
        requires
            self.inv(),
        ensures
            level == self.level(),
            level <= 15,
            !self.enabled || !self.dac_enabled ==> level == 0,
            self.enabled && self.dac_enabled ==> {
                let byte = self.wave_ram@[self.sample_index as int / 2];
                let sample = if self.sample_index % 2 == 0 {
                    byte >> 4u8
                } else {
                    byte & 0x0F
                };
                level == (if self.volume_code == 0 {
                    0
                } else if self.volume_code == 1 {
                    sample
                } else if self.volume_code == 2 {
                    sample >> 1u8
                } else {
                    sample >> 2u8
                })
            },
    {
        if !self.enabled || !self.dac_enabled {
            return 0;
        }
        let byte = self.wave_ram[(self.sample_index / 2) as usize];
        let sample = if self.sample_index % 2 == 0 {
            byte >> 4
        } else {
            byte & 0x0F
        };
        assert(byte >> 4u8 <= 15 && byte & 0x0F <= 15) by {
            lemma_byte_bits();
            lemma_word_bits();
        }
        assert(sample <= 15 ==> (sample >> 1u8) <= 15 && (sample >> 2u8) <= 15) by {
            lemma_byte_bits();
            lemma_word_bits();
        }
        match self.volume_code {
            0 => 0,
            1 => sample,
            2 => sample >> 1,
            _ => sample >> 2,
        }
    }

    pub fn period(&self) -> (period: u16)
        requires
            self.frequency <= 0x7FF,
        ensures
            period == period_of(self.frequency, 2),
            period <= 4096,
    {
        let diff = 2048 - self.frequency;
        let d = if diff >= 1 {
            diff
        } else {
            1
        };
        d * 2
    }
}

/// The noise channel: a linear-feedback shift register clocked at a
/// programmable rate.
#[derive(Debug, Clone, Copy, PartialEq, Eq, Structural)]
pub struct NoiseChannel {
    pub enabled: bool,
    pub dac_enabled: bool,
    pub length_timer: u16,
    pub length_enabled: bool,
    pub volume: u8,
    pub envelope_initial: u8,
    pub envelope_increase: bool,
    pub envelope_period: u8,
    pub envelope_timer: u8,
    pub clock_shift: u8,
    pub width_mode: bool,
    pub divisor_code: u8,
    pub period_timer: u16,
    pub lfsr: u16,
    pub nr41: u8,
    pub nr42: u8,
    pub nr43: u8,
    pub nr44: u8,
}

/// The noise timer period: divisor 8 for code 0 or 16 times the code,
/// shifted left by the clock shift (in 16 bits), at least 1.
pub open spec fn noise_period_of(divisor_code: u8, clock_shift: u8) -> u16 {
    let divisor: u16 = if divisor_code == 0 {
        8
    } else {
        (divisor_code * 16) as u16
    };
    let shifted = divisor << clock_shift;
    if shifted >= 1 {
        shifted
    } else {
        1
    }
}

/// One step of the shift register: XOR of the two low bits shifted in at
/// bit 14 (and also bit 6 in 7-bit mode).
pub open spec fn lfsr_step(lfsr: u16, width_mode: bool) -> u16 {
    let xor_bit = (lfsr & 1) ^ ((lfsr >> 1u16) & 1);
    let wide = (lfsr >> 1u16) | (xor_bit << 14u16);
    if width_mode {
        (wide & !(1u16 << 6u16)) | (xor_bit << 6u16)
    } else {
        wide
    }
}

impl NoiseChannel {
    pub open spec fn inv(&self) -> bool {
        &&& self.length_timer <= 64
        &&& self.volume <= 15
        &&& self.envelope_initial <= 15
        &&& self.envelope_period <= 7
        &&& self.envelope_timer <= 8
        &&& self.clock_shift <= 15
        &&& self.divisor_code <= 7
    }

    pub fn new() -> (channel: Self)
        ensures
            channel.inv(),
            !channel.enabled,
            channel.length_timer == 0,
            channel.lfsr == 0x7FFF,
    {
        NoiseChannel {
            enabled: false,
            dac_enabled: false,
            length_timer: 0,
            length_enabled: false,
            volume: 0,
            envelope_initial: 0,
            envelope_increase: false,
            envelope_period: 0,
            envelope_timer: 0,
            clock_shift: 0,
            width_mode: false,
            divisor_code: 0,
            period_timer: 0,
            lfsr: 0x7FFF,
            nr41: 0,
            nr42: 0,
            nr43: 0,
            nr44: 0,
        }
    }

    /// NR41: length load (64 minus the low six bits).
    pub fn write_nr41(&mut self, value: u8)
        requires
            old(self).inv(),
        ensures
            final(self).inv(),
            *final(self) == (NoiseChannel {
                nr41: value & 0x3F,
                length_timer: (64 - (value & 0x3F)) as u16,
                ..*old(self)
            }),
    {
        self.nr41 = value & 0x3F;
        assert(value & 0x3F <= 63) by {
            lemma_byte_bits();
            lemma_word_bits();
        }
        self.length_timer = 64 - (value & 0x3F) as u16;
    }

    /// NR42: envelope; a DAC switched off turns the channel off.
    pub fn write_nr42(&mut self, value: u8)
        requires
            old(self).inv(),
        ensures
            final(self).inv(),
            *final(self) == (NoiseChannel {
                nr42: value,
                envelope_initial: value >> 4u8,
                envelope_increase: value & 0x08 != 0,
                envelope_period: value & 0x07,
                dac_enabled: value & 0xF8 != 0,
                enabled: if value & 0xF8 == 0 {
                    false
                } else {
                    old(self).enabled
                },
                ..*old(self)
            }),
    {
        self.nr42 = value;
        self.envelope_initial = value >> 4;
        self.envelope_increase = value & 0x08 != 0;
        self.envelope_period = value & 0x07;
        self.dac_enabled = value & 0xF8 != 0;
        assert(value >> 4u8 <= 15 && value & 0x07 <= 7) by {
            lemma_byte_bits();
            lemma_word_bits();
        }
        if !self.dac_enabled {
            self.enabled = false;
        }
    }

    /// NR43: clock shift, width mode and divisor code.
    pub fn write_nr43(&mut self, value: u8)
        requires
            old(self).inv(),
        ensures
            final(self).inv(),
            *final(self) == (NoiseChannel {
                nr43: value,
                clock_shift: value >> 4u8,
                width_mode: value & 0x08 != 0,
                divisor_code: value & 0x07,
                ..*old(self)
            }),
    {
        self.nr43 = value;
        self.clock_shift = value >> 4;
        self.width_mode = value & 0x08 != 0;
        self.divisor_code = value & 0x07;
        assert(value >> 4u8 <= 15 && value & 0x07 <= 7) by {
            lemma_byte_bits();
            lemma_word_bits();
        }
    }

    /// This channel just after a trigger: on if its DAC is, a zero length
    /// reloaded to 64, timers and volume reloaded and a full shift register.
    pub open spec fn triggered(self) -> NoiseChannel {
        NoiseChannel {
            enabled: self.dac_enabled,
            length_timer: if self.length_timer == 0 {
                64
            } else {
                self.length_timer
            },
            period_timer: noise_period_of(self.divisor_code, self.clock_shift),
            volume: self.envelope_initial,
            envelope_timer: envelope_reload_of(self.envelope_period),
            lfsr: 0x7FFF,
            ..self
        }
    }

    /// This channel after an NR44 write of `value`, triggering on bit 7.
    pub open spec fn nr44_applied(self, value: u8) -> NoiseChannel {
        let written = NoiseChannel { nr44: value & 0xC0, length_enabled: value & 0x40 != 0, ..self };
        if value & 0x80 != 0 {
            written.triggered()
        } else {
            written
        }
    }

    /// This channel after one step of its timer.
    pub open spec fn timer_clocked(self) -> NoiseChannel {
        if self.period_timer == 0 {
            NoiseChannel {
                period_timer: noise_period_of(self.divisor_code, self.clock_shift),
                lfsr: lfsr_step(self.lfsr, self.width_mode),
                ..self
            }
        } else {
            NoiseChannel { period_timer: (self.period_timer - 1) as u16, ..self }
        }
    }

    /// This channel after one length-counter clock.
    pub open spec fn length_clocked(self) -> NoiseChannel {
        if self.length_enabled && self.length_timer > 0 {
            NoiseChannel {
                length_timer: (self.length_timer - 1) as u16,
                enabled: if self.length_timer == 1 {
                    false
                } else {
                    self.enabled
                },
                ..self
            }
        } else {
            self
        }
    }

    /// NR44: length enable; bit 7 triggers.
    pub fn write_nr44(&mut self, value: u8)
        requires
            old(self).inv(),
        ensures
            final(self).inv(),
            final(self).nr44 == value & 0xC0,
            final(self).length_enabled == (value & 0x40 != 0),
            value & 0x80 != 0 ==> final(self).enabled == old(self).dac_enabled && final(self).lfsr
                == 0x7FFF,
            value & 0x80 == 0 ==> *final(self) == (NoiseChannel {
                nr44: value & 0xC0,
                length_enabled: value & 0x40 != 0,
                ..*old(self)
            }),
            *final(self) == old(self).nr44_applied(value),
    {
        self.nr44 = value & 0xC0;
        self.length_enabled = value & 0x40 != 0;
        if value & 0x80 != 0 {
            self.trigger();
        }
    }

    /// Starts the channel again with a full shift register.
    pub fn trigger(&mut self)
        requires
            old(self).inv(),
        ensures
            final(self).inv(),
            *final(self) == (NoiseChannel {
                enabled: old(self).dac_enabled,
                length_timer: if old(self).length_timer == 0 {
                    64
                } else {
                    old(self).length_timer
                },
                period_timer: noise_period_of(old(self).divisor_code, old(self).clock_shift),
                volume: old(self).envelope_initial,
                envelope_timer: envelope_reload_of(old(self).envelope_period),
                lfsr: 0x7FFF,
                ..*old(self)
            }),
    {
        self.enabled = self.dac_enabled;
        if self.length_timer == 0 {
            self.length_timer = 64;
        }
        self.period_timer = self.period();
        self.volume = self.envelope_initial;
        self.envelope_timer = envelope_reload(self.envelope_period);
        self.lfsr = 0x7FFF;
    }

    /// One step of the timer: at zero it reloads and the shift register steps.
    pub fn clock_timer(&mut self)
        requires
            old(self).inv(),
        ensures
            final(self).inv(),
            old(self).period_timer == 0 ==> *final(self) == (NoiseChannel {
                period_timer: noise_period_of(old(self).divisor_code, old(self).clock_shift),
                lfsr: lfsr_step(old(self).lfsr, old(self).width_mode),
                ..*old(self)
            }),
            old(self).period_timer != 0 ==> *final(self) == (NoiseChannel {
                period_timer: (old(self).period_timer - 1) as u16,
                ..*old(self)
            }),
            *final(self) == old(self).timer_clocked(),
    {
        if self.period_timer == 0 {
            self.period_timer = self.period();
            let lfsr = self.lfsr;
            let xor_bit = (lfsr & 1) ^ ((lfsr >> 1) & 1);
            let wide = (lfsr >> 1) | (xor_bit << 14);
            if self.width_mode {
                self.lfsr = (wide & !(1 << 6)) | (xor_bit << 6);
            } else {
                self.lfsr = wide;
            }
        } else {
            self.period_timer -= 1;
        }
    }

    pub fn clock_length(&mut self)
        requires
            old(self).inv(),
        ensures
            final(self).inv(),
            (old(self).length_enabled && old(self).length_timer > 0) ==> *final(self) == (
            NoiseChannel {
                length_timer: (old(self).length_timer - 1) as u16,
                enabled: if old(self).length_timer == 1 {
                    false
                } else {
                    old(self).enabled
                },
                ..*old(self)
            }),
            !(old(self).length_enabled && old(self).length_timer > 0) ==> *final(self) == *old(self),
            *final(self) == old(self).length_clocked(),
    {
        if self.length_enabled && self.length_timer > 0 {
            self.length_timer -= 1;
            if self.length_timer == 0 {
                self.enabled = false;
            }
        }
    }

    pub fn clock_envelope(&mut self)
        requires
            old(self).inv(),
        ensures
            final(self).inv(),
            old(self).envelope_period == 0 ==> *final(self) == *old(self),
            old(self).envelope_period != 0 && old(self).envelope_timer > 1 ==> *final(self) == (
            NoiseChannel { envelope_timer: (old(self).envelope_timer - 1) as u8, ..*old(self) }),
            old(self).envelope_period != 0 && old(self).envelope_timer <= 1 ==> *final(self) == (
            NoiseChannel {
                envelope_timer: envelope_reload_of(old(self).envelope_period),
                volume: envelope_step(old(self).volume, old(self).envelope_increase),
                ..*old(self)
            }),
    {
        if self.envelope_period == 0 {
            return;
        }
        self.envelope_timer = self.envelope_timer.saturating_sub(1);
        if self.envelope_timer == 0 {
            self.envelope_timer = envelope_reload(self.envelope_period);
            if self.envelope_increase && self.volume < 15 {
                self.volume += 1;
            } else if !self.envelope_increase && self.volume > 0 {
                self.volume -= 1;
            }
        }
    }

    /// The level the channel outputs: its volume while on with the low bit
    /// of the shift register clear; otherwise 0.
    /// The level this channel puts out now (0 while off or while the LFSR's
    /// low bit is set).
    pub closed spec fn level(&self) -> u8 {
        if !self.enabled || !self.dac_enabled || self.lfsr & 1 != 0 {
            0
        } else {
            self.volume
        }
    }

    pub fn output(&self) -> (level: u8)
        requires
            self.inv(),
        ensures
            level == self.level(),
            level == (if !self.enabled || !self.dac_enabled || self.lfsr & 1 != 0 {
                0
            } else {
                self.volume
            }),
            level <= 15,
    {
        if !self.enabled || !self.dac_enabled || self.lfsr & 1 != 0 {
            0
        } else {
            self.volume
        }
    }

    pub fn period(&self) -> (period: u16)
        requires
            self.divisor_code <= 7,
            self.clock_shift <= 15,
        ensures
            period == noise_period_of(self.divisor_code, self.clock_shift),
    {
        let divisor: u16 = if self.divisor_code == 0 {
            8
        } else {
            self.divisor_code as u16 * 16
        };
        let shifted = divisor << self.clock_shift;
        if shifted >= 1 {
            shifted
        } else {
            1
        }
    }
}

/// The audio processing unit: four channels, the frame sequencer that
/// clocks their lengths, envelopes and sweep, and the samples mixed so far.
#[derive(Debug, Clone, PartialEq, Eq)]
pub struct Apu {
    powered: bool,
    frame_cycles: u32,
    frame_step: u8,
    sample_cycles: u32,
    sample_buffer: Vec<SampleMix>,
    nr50: u8,
    nr51: u8,
    pulse1: PulseChannel,
    pulse2: PulseChannel,
    wave: WaveChannel,
    noise: NoiseChannel,
}

/// The audio registers whose writes are dropped while the unit is off.
pub open spec fn is_channel_register(address: u16) -> bool {
    0xFF10 <= address <= 0xFF25
}

/// The addresses that are always accepted as written: NR52, wave RAM and
/// the unused holes.
pub open spec fn always_accepted(address: u16) -> bool {
    address == 0xFF26 || (0xFF30 <= address <= 0xFF3F) || address == 0xFF15 || address == 0xFF1F
        || (0xFF27 <= address <= 0xFF2F)
}

/// What letting `cycles` pass does to the sound unit, as
/// `Apu::advance_cycles` states it.
pub open spec fn audio_advanced(before: Apu, after: Apu, cycles: u32) -> bool {
    &&& !before.spec_powered() ==> after == before
    &&& before.spec_powered() ==> {
        let sample_total = before.spec_sample_cycles() + cycles * SAMPLE_RATE;
        let frame_total = before.spec_frame_cycles() + cycles;
        &&& after.spec_powered()
        &&& after.spec_sample_cycles() == sample_total % CPU_HZ as int
        &&& after.spec_samples().len() == before.spec_samples().len()
            + sample_total / CPU_HZ as int
        &&& after.spec_samples().subrange(0, before.spec_samples().len() as int)
            == before.spec_samples()
        &&& after.spec_frame_cycles() == frame_total % FRAME_SEQUENCER_PERIOD as int
        &&& after.spec_frame_step() == (before.spec_frame_step() + frame_total
            / FRAME_SEQUENCER_PERIOD as int) % 8
        &&& after.spec_nr50() == before.spec_nr50()
        &&& after.spec_nr51() == before.spec_nr51()
        &&& forall|k: int|
            before.spec_samples().len() <= k < after.spec_samples().len()
                ==> #[trigger] after.spec_samples()[k].routed_by(
                before.spec_nr50(),
                before.spec_nr51(),
            )
    }
}

impl Default for Apu {
    fn default() -> (apu: Self)
        ensures
            apu.inv(),
            !apu.spec_powered(),
            apu.spec_samples() == Seq::<SampleMix>::empty(),
            apu.spec_status() == 0x70,
            apu.spec_frame_step() == 0,
            apu.spec_frame_cycles() == 0,
            apu.spec_sample_cycles() == 0,
            apu.spec_wave_ram() == Seq::new(16, |i: int| 0u8),
    {
        Apu::new()
    }
}

impl Apu {
    /// NR50: the master volumes.
    pub closed spec fn spec_nr50(&self) -> u8 {
        self.nr50
    }

    /// NR51: which channels reach which side.
    pub closed spec fn spec_nr51(&self) -> u8 {
        self.nr51
    }

    pub closed spec fn spec_powered(&self) -> bool {
        self.powered
    }

    pub closed spec fn spec_samples(&self) -> Seq<SampleMix> {
        self.sample_buffer@
    }

    pub closed spec fn spec_sample_cycles(&self) -> u32 {
        self.sample_cycles
    }

    pub closed spec fn spec_frame_cycles(&self) -> u32 {
        self.frame_cycles
    }

    pub closed spec fn spec_frame_step(&self) -> u8 {
        self.frame_step
    }

    pub closed spec fn spec_wave_ram(&self) -> Seq<u8> {
        self.wave.wave_ram@
    }

    pub closed spec fn spec_status(&self) -> u8 {
        0x70 | (if self.powered { 0x80u8 } else { 0u8 }) | (if self.pulse1.enabled {
            0x01u8
        } else {
            0u8
        }) | (if self.pulse2.enabled { 0x02u8 } else { 0u8 }) | (if self.wave.enabled {
            0x04u8
        } else {
            0u8
        }) | (if self.noise.enabled { 0x08u8 } else { 0u8 })
    }

    /// The wave-RAM byte that CPU address `address` (0xFF30-0xFF3F) reaches.
    pub closed spec fn wave_ram_target(&self, address: u16) -> int {
        wave_ram_index(self.wave.enabled, self.wave.sample_index, (address - 0xFF30) as u16)
    }

    pub closed spec fn inv(&self) -> bool {
        &&& self.pulse1.inv()
        &&& self.pulse2.inv()
        &&& self.wave.inv()
        &&& self.noise.inv()
        &&& self.pulse1.has_sweep
        &&& !self.pulse2.has_sweep
        &&& self.frame_cycles < FRAME_SEQUENCER_PERIOD
        &&& self.frame_step <= 7
        &&& self.sample_cycles < CPU_HZ
    }

    /// What reading audio register `address` gives, or `None` outside the
    /// audio range. Write-only bits read as 1.
    pub closed spec fn register_read(&self, address: u16) -> Option<u8> {
        if address == 0xFF10 {
            Some(self.pulse1.nr10 | 0x80)
        } else if address == 0xFF11 {
            Some(self.pulse1.nr11 | 0x3F)
        } else if address == 0xFF12 {
            Some(self.pulse1.nr12)
        } else if address == 0xFF14 {
            Some(self.pulse1.nr14 | 0xBF)
        } else if address == 0xFF16 {
            Some(self.pulse2.nr11 | 0x3F)
        } else if address == 0xFF17 {
            Some(self.pulse2.nr12)
        } else if address == 0xFF19 {
            Some(self.pulse2.nr14 | 0xBF)
        } else if address == 0xFF1A {
            Some(self.wave.nr30 | 0x7F)
        } else if address == 0xFF1C {
            Some(self.wave.nr32 | 0x9F)
        } else if address == 0xFF1E {
            Some(self.wave.nr34 | 0xBF)
        } else if address == 0xFF21 {
            Some(self.noise.nr42)
        } else if address == 0xFF22 {
            Some(self.noise.nr43)
        } else if address == 0xFF23 {
            Some(self.noise.nr44 | 0xBF)
        } else if address == 0xFF24 {
            Some(self.nr50)
        } else if address == 0xFF25 {
            Some(self.nr51)
        } else if address == 0xFF26 {
            Some(self.spec_status())
        } else if 0xFF30 <= address <= 0xFF3F {
            Some(
                self.wave.wave_ram@[wave_ram_index(
                    self.wave.enabled,
                    self.wave.sample_index,
                    (address - 0xFF30) as u16,
                )],
            )
        } else if 0xFF10 <= address <= 0xFF2F {
            Some(0xFF)
        } else {
            None
        }
    }

    /// The unit switched off, every channel silent and wave RAM zeroed.
    pub fn new() -> (apu: Self)
        ensures
            apu.inv(),
            !apu.spec_powered(),
            apu.spec_samples() == Seq::<SampleMix>::empty(),
            apu.spec_status() == 0x70,
            apu.spec_frame_step() == 0,
            apu.spec_frame_cycles() == 0,
            apu.spec_sample_cycles() == 0,
            apu.spec_wave_ram() == Seq::new(16, |i: int| 0u8),
    {
        let apu = Apu {
            powered: false,
            frame_cycles: 0,
            frame_step: 0,
            sample_cycles: 0,
            sample_buffer: Vec::new(),
            nr50: 0,
            nr51: 0,
            pulse1: PulseChannel::new(true),
            pulse2: PulseChannel::new(false),
            wave: WaveChannel::new(),
            noise: NoiseChannel::new(),
        };
        assert(0x70u8 | 0u8 | 0u8 | 0u8 | 0u8 | 0u8 == 0x70) by {
            lemma_byte_bits();
            lemma_word_bits();
        }
        apu
    }

    /// Lets `cycles` CPU cycles pass. While switched off nothing happens.
    /// Otherwise every cycle clocks the channel timers, every 8192 cycles
    /// the frame sequencer steps, and a sample is mixed and appended each
    /// time the 44.1 kHz sample clock comes round, so that exactly
    /// `(sample counter + cycles * 44100) / 4194304` samples are added.
    pub fn advance_cycles(&mut self, cycles: u32)
        requires
            old(self).inv(),
        ensures
            final(self).inv(),
            audio_advanced(*old(self), *final(self), cycles),
    {
        if !self.powered {
            return;
        }
        let ghost start = *self;
        let ghost mut samples: int = 0;
        let ghost mut steps: int = 0;
        let mut i: u32 = 0;
        while i < cycles
            invariant
                self.inv(),
                self.powered,
                i <= cycles,
                0 <= samples,
                0 <= steps,
                self.sample_cycles + samples * CPU_HZ == start.sample_cycles + i * SAMPLE_RATE,
                self.sample_buffer@.len() == start.sample_buffer@.len() + samples,
                self.sample_buffer@.subrange(0, start.sample_buffer@.len() as int)
                    == start.sample_buffer@,
                self.frame_cycles + steps * FRAME_SEQUENCER_PERIOD == start.frame_cycles + i,
                self.frame_step == (start.frame_step + steps) % 8,
                start.frame_step <= 7,
                self.nr50 == start.nr50,
                self.nr51 == start.nr51,
                forall|k: int|
                    start.sample_buffer@.len() <= k < self.sample_buffer@.len()
                        ==> #[trigger] self.sample_buffer@[k].routed_by(start.nr50, start.nr51),
            decreases cycles - i,
        {
            self.clock_channels();
            self.frame_cycles += 1;
            if self.frame_cycles >= FRAME_SEQUENCER_PERIOD {
                self.frame_cycles -= FRAME_SEQUENCER_PERIOD;
                self.clock_frame_sequencer();
                proof {
                    vstd::arithmetic::div_mod::lemma_add_mod_noop(start.frame_step + steps, 1, 8);
                    vstd::arithmetic::div_mod::lemma_small_mod(1, 8);
                    steps = steps + 1;
                }
            }
            self.sample_cycles += SAMPLE_RATE;
            if self.sample_cycles >= CPU_HZ {
                self.sample_cycles -= CPU_HZ;
                let mix = self.mix_sample();
                let ghost before = self.sample_buffer@;
                self.sample_buffer.push(mix);
                proof {
                    assert(self.sample_buffer@.subrange(0, start.sample_buffer@.len() as int)
                        =~= before.subrange(0, start.sample_buffer@.len() as int));
                    samples = samples + 1;
                }
            }
            i += 1;
        }
        proof {
            vstd::arithmetic::div_mod::lemma_fundamental_div_mod_converse(
                start.sample_cycles + cycles * SAMPLE_RATE,
                CPU_HZ as int,
                samples,
                self.sample_cycles as int,
            );
            vstd::arithmetic::div_mod::lemma_fundamental_div_mod_converse(
                start.frame_cycles + cycles,
                FRAME_SEQUENCER_PERIOD as int,
                steps,
                self.frame_cycles as int,
            );
        }
    }

    /// What `same_but_samples` keeps: every register, the channels and the
    /// clocks, so every register read and channel level.
    pub proof fn lemma_same_but_samples_facts(&self, other: &Apu)
        requires
            self.same_but_samples(other),
        ensures
            self.spec_powered() == other.spec_powered(),
            self.spec_status() == other.spec_status(),
            self.spec_nr50() == other.spec_nr50(),
            self.spec_nr51() == other.spec_nr51(),
            self.spec_frame_step() == other.spec_frame_step(),
            self.spec_frame_cycles() == other.spec_frame_cycles(),
            self.spec_sample_cycles() == other.spec_sample_cycles(),
            self.spec_wave_ram() == other.spec_wave_ram(),
            forall|address: u16| #[trigger] self.register_read(address) == other.register_read(address),
            forall|i: int| #[trigger] self.channel_level(i) == other.channel_level(i),
    {
    }

    /// What the audio registers read: NR50, NR51 and NR52 give their values,
    /// the other addresses of 0xFF10..=0xFF3F a byte, and nothing outside.
    pub proof fn lemma_register_read(&self, address: u16)
        ensures
            self.register_read(address) is Some <==> 0xFF10 <= address <= 0xFF3F,
            address == 0xFF24 ==> self.register_read(address) == Some(self.spec_nr50()),
            address == 0xFF25 ==> self.register_read(address) == Some(self.spec_nr51()),
            address == 0xFF26 ==> self.register_read(address) == Some(self.spec_status()),
            (address == 0xFF15 || address == 0xFF1F || 0xFF27 <= address <= 0xFF2F) ==> self.register_read(
                address,
            ) == Some(0xFFu8),
    {
    }

    /// Everything but the sample buffer is as in `other`.
    pub closed spec fn same_but_samples(&self, other: &Apu) -> bool {
        &&& self.powered == other.powered
        &&& self.frame_cycles == other.frame_cycles
        &&& self.frame_step == other.frame_step
        &&& self.sample_cycles == other.sample_cycles
        &&& self.nr50 == other.nr50
        &&& self.nr51 == other.nr51
        &&& self.pulse1 == other.pulse1
        &&& self.pulse2 == other.pulse2
        &&& self.wave == other.wave
        &&& self.noise == other.noise
    }

    /// Takes every sample mixed so far, leaving none behind.
    pub fn drain_samples(&mut self) -> (samples: Vec<SampleMix>)
        requires
            old(self).inv(),
        ensures
            final(self).inv(),
            samples@ == old(self).spec_samples(),
            final(self).spec_samples() == Seq::<SampleMix>::empty(),
            final(self).spec_powered() == old(self).spec_powered(),
            final(self).spec_status() == old(self).spec_status(),
            final(self).same_but_samples(old(self)),
    {
        let mut samples = Vec::new();
        core::mem::swap(&mut samples, &mut self.sample_buffer);
        samples
    }

    pub fn read_register(&self, address: u16) -> (value: Option<u8>)
        requires
            self.inv(),
        ensures
            value == self.register_read(address),
    {
        if address == 0xFF26 {
            return Some(self.read_nr52());
        }
        if 0xFF30 <= address && address <= 0xFF3F {
            return Some(self.wave.read_wave_ram(address - 0xFF30));
        }
        match address {
            0xFF10 => Some(self.pulse1.nr10 | 0x80),
            0xFF11 => Some(self.pulse1.nr11 | 0x3F),
            0xFF12 => Some(self.pulse1.nr12),
            0xFF14 => Some(self.pulse1.nr14 | 0xBF),
            0xFF16 => Some(self.pulse2.nr11 | 0x3F),
            0xFF17 => Some(self.pulse2.nr12),
            0xFF19 => Some(self.pulse2.nr14 | 0xBF),
            0xFF1A => Some(self.wave.nr30 | 0x7F),
            0xFF1C => Some(self.wave.nr32 | 0x9F),
            0xFF1E => Some(self.wave.nr34 | 0xBF),
            0xFF21 => Some(self.noise.nr42),
            0xFF22 => Some(self.noise.nr43),
            0xFF23 => Some(self.noise.nr44 | 0xBF),
            0xFF24 => Some(self.nr50),
            0xFF25 => Some(self.nr51),
            0xFF10..=0xFF2F => Some(0xFF),
            _ => None,
        }
    }

    /// Writes audio register `address`; returns whether the address is
    /// accepted. NR52 and wave RAM are always written; while the unit is off
    /// the channel registers NR10-NR51 are accepted but ignored.
    pub fn write_register(&mut self, address: u16, value: u8) -> (accepted: bool)
        requires
            old(self).inv(),
        ensures
            final(self).inv(),
            accepted == (always_accepted(address) || is_channel_register(address)),
            !always_accepted(address) && (!old(self).spec_powered() || !is_channel_register(
                address,
            )) ==> *final(self) == *old(self),
            address == 0xFF26 ==> final(self).spec_powered() == (value & 0x80 != 0),
            address != 0xFF26 ==> final(self).spec_powered() == old(self).spec_powered(),
            address == 0xFF26 && old(self).spec_powered() && value & 0x80 == 0 ==> {
                &&& final(self).spec_status() == 0x70
                &&& final(self).spec_wave_ram() == old(self).spec_wave_ram()
            },
            (0xFF30 <= address <= 0xFF3F) ==> final(self).spec_wave_ram() == old(self).spec_wave_ram().update(old(self).wave_ram_target(address), value),
            old(self).spec_powered() && (address == 0xFF24 || address == 0xFF25)
                ==> final(self).register_read(address) == Some(value),
            final(self).spec_samples() == old(self).spec_samples(),
            address != 0xFF26 ==> final(self).spec_sample_cycles() == old(self).spec_sample_cycles()
                && final(self).spec_frame_cycles() == old(self).spec_frame_cycles()
                && final(self).spec_frame_step() == old(self).spec_frame_step(),
            address == 0xFF26 && !old(self).spec_powered() && value & 0x80 != 0 ==> final(self).spec_sample_cycles()
                == old(self).spec_sample_cycles() && final(self).spec_frame_cycles() == 0
                && final(self).spec_frame_step() == 0,
    {
        if address == 0xFF26 {
            self.write_nr52(value);
            return true;
        }
        if 0xFF30 <= address && address <= 0xFF3F {
            self.wave.write_wave_ram(address - 0xFF30, value);
            return true;
        }
        if address == 0xFF15 || address == 0xFF1F || (0xFF27 <= address && address <= 0xFF2F) {
            return true;
        }
        if !self.powered {
            return 0xFF10 <= address && address <= 0xFF25;
        }
        match address {
            0xFF10 => self.pulse1.write_nr10(value),
            0xFF11 => self.pulse1.write_nr11(value),
            0xFF12 => self.pulse1.write_nr12(value),
            0xFF13 => self.pulse1.write_nr13(value),
            0xFF14 => self.write_pulse1_nr14(value),
            0xFF16 => self.pulse2.write_nr11(value),
            0xFF17 => self.pulse2.write_nr12(value),
            0xFF18 => self.pulse2.write_nr13(value),
            0xFF19 => self.write_pulse2_nr14(value),
            0xFF1A => self.wave.write_nr30(value),
            0xFF1B => self.wave.write_nr31(value),
            0xFF1C => self.wave.write_nr32(value),
            0xFF1D => self.wave.write_nr33(value),
            0xFF1E => self.write_wave_nr34(value),
            0xFF20 => self.noise.write_nr41(value),
            0xFF21 => self.noise.write_nr42(value),
            0xFF22 => self.noise.write_nr43(value),
            0xFF23 => self.write_noise_nr44(value),
            0xFF24 => self.nr50 = value,
            0xFF25 => self.nr51 = value,
            _ => return false,
        }
        true
    }

    /// NR52: bit 7 powered, bits 0-3 the channels that are on, bits 4-6 set.
    pub fn read_nr52(&self) -> (value: u8)
        ensures
            value == self.spec_status(),
    {
        let powered: u8 = if self.powered { 0x80 } else { 0 };
        let p1: u8 = if self.pulse1.enabled { 0x01 } else { 0 };
        let p2: u8 = if self.pulse2.enabled { 0x02 } else { 0 };
        let w: u8 = if self.wave.enabled { 0x04 } else { 0 };
        let n: u8 = if self.noise.enabled { 0x08 } else { 0 };
        0x70 | powered | p1 | p2 | w | n
    }

    /// Switching the unit on restarts the frame sequencer; switching it off
    /// resets every register and channel, keeping only wave RAM and the
    /// length counters.
    fn write_nr52(&mut self, value: u8)
        requires
            old(self).inv(),
        ensures
            final(self).inv(),
            final(self).powered == (value & 0x80 != 0),
            final(self).sample_buffer@ == old(self).sample_buffer@,
            final(self).wave.wave_ram@ == old(self).wave.wave_ram@,
            old(self).powered == (value & 0x80 != 0) ==> *final(self) == *old(self),
            old(self).powered && value & 0x80 == 0 ==> final(self).spec_status() == 0x70,
            !old(self).powered && value & 0x80 != 0 ==> final(self).frame_cycles == 0
                && final(self).frame_step == 0 && final(self).sample_cycles == old(self).sample_cycles,
            old(self).powered && value & 0x80 == 0 ==> final(self).frame_cycles == 0 && final(self).frame_step
                == 0 && final(self).sample_cycles == 0,
    {
        let power = value & 0x80 != 0;
        if self.powered == power {
            return;
        }
        self.powered = power;
        if power {
            self.frame_cycles = 0;
            self.frame_step = 0;
        } else {
            let mut wave_ram = Vec::new();
            core::mem::swap(&mut wave_ram, &mut self.wave.wave_ram);
            let mut samples = Vec::new();
            core::mem::swap(&mut samples, &mut self.sample_buffer);
            let pulse1_length = self.pulse1.length_timer;
            let pulse2_length = self.pulse2.length_timer;
            let wave_length = self.wave.length_timer;
            let noise_length = self.noise.length_timer;
            *self = Apu::new();
            self.wave.wave_ram = wave_ram;
            self.sample_buffer = samples;
            self.pulse1.length_timer = pulse1_length;
            self.pulse2.length_timer = pulse2_length;
            self.wave.length_timer = wave_length;
            self.noise.length_timer = noise_length;
            assert(0x70u8 | 0u8 | 0u8 | 0u8 | 0u8 | 0u8 == 0x70) by {
            lemma_byte_bits();
            lemma_word_bits();
        }
        }
    }

    /// Whether the next frame-sequencer step leaves lengths alone, so that
    /// a length counter just turned on is clocked once at once.
    spec fn extra_length_clock(self) -> bool {
        (self.frame_step + 1) % 8 % 2 == 1
    }

    fn write_pulse1_nr14(&mut self, value: u8)
        requires
            old(self).inv(),
        ensures
            final(self).inv(),
            final(self).powered == old(self).powered,
            final(self).sample_buffer@ == old(self).sample_buffer@,
            final(self).wave == old(self).wave,
            ({
                let written = old(self).pulse1.nr14_applied(value);
                *final(self) == (Apu {
                    pulse1: if !old(self).pulse1.length_enabled && written.length_enabled
                        && old(self).extra_length_clock() {
                        written.length_clocked()
                    } else {
                        written
                    },
                    ..*old(self)
                })
            }),
    {
        let was_enabled = self.pulse1.length_enabled;
        self.pulse1.write_nr14(value);
        if !was_enabled && self.pulse1.length_enabled && self.extra_length_clock_on_enable() {
            self.pulse1.clock_length();
        }
    }

    fn write_pulse2_nr14(&mut self, value: u8)
        requires
            old(self).inv(),
        ensures
            final(self).inv(),
            final(self).powered == old(self).powered,
            final(self).sample_buffer@ == old(self).sample_buffer@,
            final(self).wave == old(self).wave,
            ({
                let written = old(self).pulse2.nr14_applied(value);
                *final(self) == (Apu {
                    pulse2: if !old(self).pulse2.length_enabled && written.length_enabled
                        && old(self).extra_length_clock() {
                        written.length_clocked()
                    } else {
                        written
                    },
                    ..*old(self)
                })
            }),
    {
        let was_enabled = self.pulse2.length_enabled;
        self.pulse2.write_nr14(value);
        if !was_enabled && self.pulse2.length_enabled && self.extra_length_clock_on_enable() {
            self.pulse2.clock_length();
        }
    }

    fn write_wave_nr34(&mut self, value: u8)
        requires
            old(self).inv(),
        ensures
            final(self).inv(),
            final(self).powered == old(self).powered,
            final(self).sample_buffer@ == old(self).sample_buffer@,
            final(self).wave.wave_ram == old(self).wave.wave_ram,
            ({
                let written = old(self).wave.nr34_applied(value);
                *final(self) == (Apu {
                    wave: if !old(self).wave.length_enabled && written.length_enabled
                        && old(self).extra_length_clock() {
                        written.length_clocked()
                    } else {
                        written
                    },
                    ..*old(self)
                })
            }),
    {
        let was_enabled = self.wave.length_enabled;
        self.wave.write_nr34(value);
        if !was_enabled && self.wave.length_enabled && self.extra_length_clock_on_enable() {
            self.wave.clock_length();
        }
    }

    fn write_noise_nr44(&mut self, value: u8)
        requires
            old(self).inv(),
        ensures
            final(self).inv(),
            final(self).powered == old(self).powered,
            final(self).sample_buffer@ == old(self).sample_buffer@,
            final(self).wave == old(self).wave,
            ({
                let written = old(self).noise.nr44_applied(value);
                *final(self) == (Apu {
                    noise: if !old(self).noise.length_enabled && written.length_enabled
                        && old(self).extra_length_clock() {
                        written.length_clocked()
                    } else {
                        written
                    },
                    ..*old(self)
                })
            }),
    {
        let was_enabled = self.noise.length_enabled;
        self.noise.write_nr44(value);
        if !was_enabled && self.noise.length_enabled && self.extra_length_clock_on_enable() {
            self.noise.clock_length();
        }
    }

    /// Enabling a length counter clocks it once more when the next
    /// frame-sequencer step will not clock lengths.
    fn extra_length_clock_on_enable(&self) -> (extra: bool)
        requires
            self.frame_step <= 7,
        ensures
            extra == ((self.frame_step + 1) % 8 % 2 == 1),
    {
        let n1: u8 = self.frame_step + 1;
        let next: u8 = n1 & 0x07;
        assert(n1 & 0x07 == n1 % 8) by {
            lemma_byte_bits();
            lemma_word_bits();
        }
        !(next == 0 || next == 2 || next == 4 || next == 6)
    }

    fn clock_channels(&mut self)
        requires
            old(self).inv(),
        ensures
            final(self).inv(),
            final(self).powered == old(self).powered,
            final(self).frame_cycles == old(self).frame_cycles,
            final(self).frame_step == old(self).frame_step,
            final(self).sample_cycles == old(self).sample_cycles,
            final(self).sample_buffer@ == old(self).sample_buffer@,
            *final(self) == (Apu {
                pulse1: old(self).pulse1.timer_clocked(),
                pulse2: old(self).pulse2.timer_clocked(),
                wave: old(self).wave.timer_clocked(),
                noise: old(self).noise.timer_clocked(),
                ..*old(self)
            }),
    {
        self.pulse1.clock_timer();
        self.pulse2.clock_timer();
        self.wave.clock_timer();
        self.noise.clock_timer();
    }

    /// One 512 Hz step: lengths on even steps, the sweep on steps 2 and 6,
    /// envelopes on step 7.
    fn clock_frame_sequencer(&mut self)
        requires
            old(self).inv(),
        ensures
            final(self).inv(),
            final(self).frame_step == (old(self).frame_step + 1) % 8,
            final(self).nr50 == old(self).nr50,
            final(self).nr51 == old(self).nr51,
            final(self).powered == old(self).powered,
            final(self).frame_cycles == old(self).frame_cycles,
            final(self).sample_cycles == old(self).sample_cycles,
            final(self).sample_buffer@ == old(self).sample_buffer@,
    {
        let next: u8 = self.frame_step + 1;
        assert(next & 0x07 == next % 8) by {
            lemma_byte_bits();
            lemma_word_bits();
        }
        self.frame_step = next & 0x07;
        let step = self.frame_step;
        if step == 0 || step == 2 || step == 4 || step == 6 {
            self.pulse1.clock_length();
            self.pulse2.clock_length();
            self.wave.clock_length();
            self.noise.clock_length();
        }
        if step == 2 || step == 6 {
            self.pulse1.clock_sweep();
        }
        if step == 7 {
            self.pulse1.clock_envelope();
            self.pulse2.clock_envelope();
            self.noise.clock_envelope();
        }
    }

    /// The level channel `i` (pulse 1, pulse 2, wave, noise) puts out now.
    pub closed spec fn channel_level(&self, i: int) -> u8 {
        if i == 0 {
            self.pulse1.level()
        } else if i == 1 {
            self.pulse2.level()
        } else if i == 2 {
            self.wave.level()
        } else {
            self.noise.level()
        }
    }

    /// `mix` is the sample of this state: each channel's current level on
    /// the sides NR51 routes it to, 0 elsewhere, with the NR50 volumes.
    pub open spec fn is_mix_of(&self, mix: SampleMix) -> bool {
        &&& forall|i: int|
            0 <= i < 4 ==> #[trigger] mix.right@[i] == (if routes(self.spec_nr51(), i as u8) {
                self.channel_level(i)
            } else {
                0
            })
        &&& forall|i: int|
            0 <= i < 4 ==> #[trigger] mix.left@[i] == (if routes(self.spec_nr51(), (i + 4) as u8) {
                self.channel_level(i)
            } else {
                0
            })
        &&& mix.routed_by(self.spec_nr50(), self.spec_nr51())
    }

    /// The inputs of the current output sample: channel `i` (pulse 1,
    /// pulse 2, wave, noise) reaches the right side when NR51 bit `i` is set
    /// and the left side when bit `i + 4` is; each side's volume is its NR50
    /// level plus one.
    fn mix_sample(&self) -> (mix: SampleMix)
        requires
            self.inv(),
        ensures
            forall|i: int| 0 <= i < 4 ==> mix.left@[i] <= 15 && mix.right@[i] <= 15,
            1 <= mix.left_volume <= 8,
            1 <= mix.right_volume <= 8,
            mix.left_volume == ((self.nr50 >> 4u8) & 0x07) + 1,
            mix.right_volume == (self.nr50 & 0x07) + 1,
            self.is_mix_of(mix),
    {
        let outputs = [self.pulse1.output(), self.pulse2.output(), self.wave.output(), self.noise.output()];
        let mut left: [u8; 4] = [0, 0, 0, 0];
        let mut right: [u8; 4] = [0, 0, 0, 0];
        let mut index: usize = 0;
        while index < 4
            invariant
                0 <= index <= 4,
                forall|i: int| 0 <= i < 4 ==> outputs@[i] <= 15,
                forall|i: int| 0 <= i < 4 ==> #[trigger] outputs@[i] == self.channel_level(i),
                forall|i: int| 0 <= i < 4 ==> left@[i] <= 15 && right@[i] <= 15,
                forall|i: int|
                    0 <= i < index ==> #[trigger] right@[i] == (if routes(self.nr51, i as u8) {
                        outputs@[i]
                    } else {
                        0
                    }),
                forall|i: int|
                    0 <= i < index ==> #[trigger] left@[i] == (if routes(self.nr51, (i + 4) as u8) {
                        outputs@[i]
                    } else {
                        0
                    }),
                forall|i: int| index <= i < 4 ==> left@[i] == 0 && right@[i] == 0,
            decreases 4 - index,
        {
            let bit: u8 = 1u8 << (index as u8);
            let high: u8 = 1u8 << (index as u8 + 4);
            assert(index as u8 + 4 == (index + 4) as u8);
            if self.nr51 & bit != 0 {
                right[index] = outputs[index];
            }
            if self.nr51 & high != 0 {
                left[index] = outputs[index];
            }
            index += 1;
        }
        let n = self.nr50;
        assert((n >> 4u8) & 0x07 <= 7 && n & 0x07 <= 7) by {
            lemma_byte_bits();
            lemma_word_bits();
        }
        SampleMix {
            left,
            right,
            left_volume: ((n >> 4) & 0x07) + 1,
            right_volume: (n & 0x07) + 1,
        }
    }
}

} // verus!
