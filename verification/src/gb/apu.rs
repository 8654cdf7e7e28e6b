//! Audio Processing Unit (APU): NR10-52, four channels, and mixing.
//!
//! The DMG APU produces one stereo sample pair every 512 T-cycles (8192 Hz)
//! while a 512 Hz frame sequencer drives the length counters, envelope, and
//! channel-1 sweep. Mixing is exact: a channel's level is a fraction of 15, a
//! master volume a fraction of 7 and the gain one half, so a sample is a whole
//! number of units of which `FULL_SCALE` make full scale.

use crate::bits::put;
use crate::emu::audio::AudioBuffer;
use crate::gb::timer::IoRegs;
use vstd::prelude::*;

verus! {

/// The sample value that stands for an amplitude of 1.
pub const FULL_SCALE: i16 = 210;

/// The patterns of the four duty settings.
pub const DUTY: [[u8; 8]; 4] = [
    [0, 0, 0, 0, 0, 0, 0, 1],
    [1, 0, 0, 0, 0, 0, 0, 1],
    [1, 0, 0, 0, 0, 0, 1, 1],
    [1, 1, 1, 1, 0, 0, 1, 1],
];

#[derive(Clone, Copy, PartialEq, Eq, Structural, Debug)]
pub struct Envelope {
    pub volume: u8,
    pub up: bool,
    pub period: u8,
    pub timer: u8,
}

impl Envelope {
    pub open spec fn initial() -> Envelope {
        Envelope { volume: 0, up: false, period: 0, timer: 0 }
    }

    pub fn new() -> (r: Envelope)
        ensures
            r == Envelope::initial(),
    {
        Envelope { volume: 0, up: false, period: 0, timer: 0 }
    }

    /// The parameters of the register value `nr`, the timer as it is.
    pub open spec fn after_set(self, nr: u8) -> Envelope {
        Envelope { volume: nr >> 4, up: nr & 0x08 != 0, period: nr & 0x07, ..self }
    }

    /// The parameters of `nr` with the timer loaded.
    pub open spec fn after_reload(self, nr: u8) -> Envelope {
        Envelope { timer: nr & 0x07, ..self.after_set(nr) }
    }

    fn reload(&mut self, nr: u8)
        ensures
            *final(self) == old(self).after_reload(nr),
    {
        self.set(nr);
        self.timer = self.period;
    }

    /// Update the envelope parameters from a write to NRx2 without reloading
    /// the timer (the timer is only (re)loaded on trigger).
    fn set(&mut self, nr: u8)
        ensures
            *final(self) == old(self).after_set(nr),
    {
        self.volume = nr >> 4;
        self.up = nr & 0x08 != 0;
        self.period = nr & 0x07;
    }

    /// One envelope clock: the timer counts down, and at its end the volume
    /// moves one step within 0-15.
    #[verifier::opaque]
    pub open spec fn after_tick(self) -> Envelope {
        if self.period == 0 {
            self
        } else if self.timer > 0 {
            Envelope { timer: (self.timer - 1) as u8, ..self }
        } else {
            Envelope {
                timer: self.period,
                volume: if self.up && self.volume < 15 {
                    (self.volume + 1) as u8
                } else if !self.up && self.volume > 0 {
                    (self.volume - 1) as u8
                } else {
                    self.volume
                },
                ..self
            }
        }
    }

    /// Called on frame-sequencer envelope steps.
    fn tick(&mut self)
        ensures
            *final(self) == old(self).after_tick(),
            old(self).volume <= 15 ==> final(self).volume <= 15,
    {
        reveal(Envelope::after_tick);
        if self.period == 0 {
            return;
        }
        if self.timer > 0 {
            self.timer = self.timer - 1;
            return;
        }
        self.timer = self.period;
        if self.up {
            if self.volume < 15 {
                self.volume = self.volume + 1;
            }
        } else if self.volume > 0 {
            self.volume = self.volume - 1;
        }
    }
}

/// The channel frequency in the registers `lo` and the low bits of `hi`.
pub open spec fn freq_of(lo: u8, hi: u8) -> u16 {
    lo as u16 | ((hi & 0x07) as u16) << 8
}

fn freq_from(lo: u8, hi: u8) -> (r: u16)
    ensures
        r == freq_of(lo, hi),
        r <= 0x7FF,
{
    proof {
        crate::bits::lemma_byte_fields(hi, lo);
    }
    lo as u16 | ((hi & 0x07) as u16) << 8
}

#[derive(Clone, Copy, PartialEq, Eq, Structural, Debug)]
pub struct Square {
    pub duty: u8,
    pub freq_timer: u32,
    pub freq: u16,
    pub phase: u8,
    pub length: u16,
    pub length_enable: bool,
    pub env: Envelope,
    pub sweep_period: u8,
    pub sweep_negate: bool,
    pub sweep_shift: u8,
    pub sweep_timer: u8,
    pub sweep_enabled: bool,
    pub on: bool,
}

impl Square {
    /// Register fields within their widths.
    pub open spec fn wf(self) -> bool {
        &&& self.freq <= 0x7FF
        &&& self.duty <= 3
        &&& self.phase <= 7
        &&& self.sweep_shift <= 7
        &&& self.env.volume <= 15
    }

    fn is_valid(&self) -> (r: bool)
        ensures
            r == self.wf(),
    {
        self.freq <= 0x7FF && self.duty <= 3 && self.phase <= 7 && self.sweep_shift <= 7
            && self.env.volume <= 15
    }

    pub open spec fn initial() -> Square {
        Square {
            duty: 0,
            freq_timer: 0,
            freq: 0,
            phase: 0,
            length: 0,
            length_enable: false,
            env: Envelope::initial(),
            sweep_period: 0,
            sweep_negate: false,
            sweep_shift: 0,
            sweep_timer: 0,
            sweep_enabled: false,
            on: false,
        }
    }

    pub fn new() -> (r: Square)
        ensures
            r == Square::initial(),
            r.wf(),
    {
        Square {
            duty: 0,
            freq_timer: 0,
            freq: 0,
            phase: 0,
            length: 0,
            length_enable: false,
            env: Envelope::new(),
            sweep_period: 0,
            sweep_negate: false,
            sweep_shift: 0,
            sweep_timer: 0,
            sweep_enabled: false,
            on: false,
        }
    }

    /// T-cycles per duty step at frequency `freq`.
    pub open spec fn period_of(freq: u16) -> u32 {
        ((2048 - freq) * 4) as u32
    }

    /// The sweep's timer after a reload: a period of 0 counts as 8.
    pub open spec fn sweep_reload(self) -> u8 {
        if self.sweep_period == 0 {
            8
        } else {
            self.sweep_period
        }
    }

    /// The frequency the sweep proposes.
    pub open spec fn swept(self) -> u16 {
        if self.sweep_negate {
            vstd::wrapping::u16_specs::wrapping_sub(self.freq, self.freq >> self.sweep_shift)
        } else {
            (self.freq + (self.freq >> self.sweep_shift)) as u16
        }
    }

    /// A sweep calculation: an overflow silences the channel, and `load` takes
    /// the new frequency.
    pub open spec fn after_sweep(self, load: bool) -> Square {
        let new = self.swept();
        Square {
            on: self.on && new <= 0x7FF,
            freq: if load {
                new & 0x7FF
            } else {
                self.freq
            },
            freq_timer: if load {
                Square::period_of(new & 0x7FF)
            } else {
                self.freq_timer
            },
            ..self
        }
    }

    fn calc_sweep(&mut self, load: bool)
        requires
            old(self).wf(),
        ensures
            *final(self) == old(self).after_sweep(load),
            final(self).wf(),
    {
        broadcast use crate::bits::group_masks;

        let freq: u16 = self.freq;
        let shift: u8 = self.sweep_shift;
        proof {
            crate::bits::lemma_shr_le(freq as u64, shift as u64);
        }
        let delta: u16 = freq >> shift;
        let new_freq: u16 = if self.sweep_negate {
            freq.wrapping_sub(delta)
        } else {
            freq + delta
        };
        if new_freq > 0x7FF {
            self.on = false;
        }
        if load {
            self.freq = new_freq & 0x7FF;
            self.freq_timer = (2048 - self.freq as u32) * 4;
        }
    }

    /// The channel (re)started from its registers.
    #[verifier::opaque]
    pub open spec fn after_trigger(self, nr1: u8, nr2: u8, nr3: u8, nr4: u8) -> Square {
        let s = Square {
            length: if self.length == 0 {
                64
            } else {
                self.length
            },
            duty: nr1 >> 6,
            env: self.env.after_reload(nr2),
            freq: freq_of(nr3, nr4),
            freq_timer: Square::period_of(freq_of(nr3, nr4)),
            phase: 0,
            sweep_timer: self.sweep_reload(),
            sweep_enabled: self.sweep_period != 0 || self.sweep_shift != 0,
            ..self
        };
        if self.sweep_shift != 0 {
            Square { on: true, ..s.after_sweep(true) }
        } else {
            Square { on: true, ..s }
        }
    }

    fn trigger(&mut self, nr1: u8, nr2: u8, nr3: u8, nr4: u8)
        requires
            old(self).wf(),
        ensures
            *final(self) == old(self).after_trigger(nr1, nr2, nr3, nr4),
            final(self).wf(),
    {
        reveal(Square::after_trigger);
        proof {
            crate::bits::lemma_shr_u8();
        }
        if self.length == 0 {
            self.length = 64;
        }
        self.duty = nr1 >> 6;
        self.env.reload(nr2);
        self.freq = freq_from(nr3, nr4);
        self.freq_timer = (2048 - self.freq as u32) * 4;
        self.phase = 0;
        self.sweep_timer = if self.sweep_period == 0 {
            8
        } else {
            self.sweep_period
        };
        self.sweep_enabled = self.sweep_period != 0 || self.sweep_shift != 0;
        if self.sweep_shift != 0 {
            self.calc_sweep(true);
        }
        self.on = true;
    }

    /// One T-cycle of the frequency timer.
    pub open spec fn after_freq(self) -> Square {
        if self.freq_timer == 0 {
            Square {
                freq_timer: (Square::period_of(self.freq) - 1) as u32,
                phase: ((self.phase + 1) % 8) as u8,
                ..self
            }
        } else {
            Square { freq_timer: (self.freq_timer - 1) as u32, ..self }
        }
    }

    fn tick_freq(&mut self)
        requires
            old(self).wf(),
        ensures
            *final(self) == old(self).after_freq(),
            final(self).wf(),
    {
        if self.freq_timer == 0 {
            self.freq_timer = (2048 - self.freq as u32) * 4;
            self.phase = (self.phase + 1) % 8;
        }
        self.freq_timer = self.freq_timer - 1;
    }

    /// The channel's level, a fraction of 15: plus or minus the volume by the
    /// duty cycle, 0 while off.
    pub open spec fn level(self) -> int {
        if !self.on {
            0
        } else if DUTY[self.duty as int][self.phase as int] == 1 {
            self.env.volume as int
        } else {
            -(self.env.volume as int)
        }
    }

    fn sample(&self) -> (r: i16)
        requires
            self.wf(),
        ensures
            r == self.level(),
            -15 <= r <= 15,
    {
        if !self.on {
            return 0;
        }
        if DUTY[self.duty as usize][self.phase as usize] == 1 {
            self.env.volume as i16
        } else {
            -(self.env.volume as i16)
        }
    }

    /// One sweep clock.
    #[verifier::opaque]
    pub open spec fn after_sweep_tick(self) -> Square {
        if !self.sweep_enabled {
            self
        } else if self.sweep_timer > 0 {
            Square { sweep_timer: (self.sweep_timer - 1) as u8, ..self }
        } else {
            Square { sweep_timer: self.sweep_reload(), ..self }.after_sweep(true).after_sweep(false)
        }
    }

    fn sweep_tick(&mut self)
        requires
            old(self).wf(),
        ensures
            *final(self) == old(self).after_sweep_tick(),
            final(self).wf(),
    {
        reveal(Square::after_sweep_tick);
        if !self.sweep_enabled {
            return;
        }
        if self.sweep_timer > 0 {
            self.sweep_timer = self.sweep_timer - 1;
            return;
        }
        self.sweep_timer = if self.sweep_period == 0 {
            8
        } else {
            self.sweep_period
        };
        self.calc_sweep(true);
        self.calc_sweep(false);
    }

    /// One length clock: an enabled counter that reaches 0 silences the
    /// channel.
    pub open spec fn after_length(self) -> Square {
        if self.length_enable {
            let length = if self.length > 0 {
                (self.length - 1) as u16
            } else {
                0
            };
            Square { length, on: self.on && length != 0, ..self }
        } else {
            self
        }
    }

    fn tick_length(&mut self)
        ensures
            *final(self) == old(self).after_length(),
    {
        if self.length_enable {
            self.length = self.length.saturating_sub(1);
            if self.length == 0 {
                self.on = false;
            }
        }
    }
}

#[derive(Clone, Copy, PartialEq, Eq, Structural, Debug)]
pub struct Wave {
    pub freq_timer: u32,
    pub freq: u16,
    pub phase: u8,
    pub length: u16,
    pub length_enable: bool,
    pub volume_shift: u8,
    pub dac_on: bool,
    pub on: bool,
}

impl Wave {
    /// Register fields within their widths.
    pub open spec fn wf(self) -> bool {
        &&& self.freq <= 0x7FF
        &&& self.phase <= 31
        &&& self.volume_shift <= 3
    }

    pub open spec fn initial() -> Wave {
        Wave {
            freq_timer: 0,
            freq: 0,
            phase: 0,
            length: 0,
            length_enable: false,
            volume_shift: 0,
            dac_on: false,
            on: false,
        }
    }

    pub fn new() -> (r: Wave)
        ensures
            r == Wave::initial(),
            r.wf(),
    {
        Wave {
            freq_timer: 0,
            freq: 0,
            phase: 0,
            length: 0,
            length_enable: false,
            volume_shift: 0,
            dac_on: false,
            on: false,
        }
    }

    /// The channel (re)started from its registers; it sounds only with its DAC
    /// powered.
    #[verifier::opaque]
    pub open spec fn after_trigger(self, nr3: u8, nr4: u8) -> Wave {
        Wave {
            length: if self.length == 0 {
                256
            } else {
                self.length
            },
            freq: freq_of(nr3, nr4),
            freq_timer: Square::period_of(freq_of(nr3, nr4)),
            phase: 0,
            on: self.dac_on,
            ..self
        }
    }

    fn trigger(&mut self, nr3: u8, nr4: u8)
        requires
            old(self).wf(),
        ensures
            *final(self) == old(self).after_trigger(nr3, nr4),
            final(self).wf(),
    {
        reveal(Wave::after_trigger);
        if self.length == 0 {
            self.length = 256;
        }
        self.freq = freq_from(nr3, nr4);
        self.freq_timer = (2048 - self.freq as u32) * 4;
        self.phase = 0;
        self.on = self.dac_on;
    }

    /// One T-cycle of the frequency timer.
    pub open spec fn after_freq(self) -> Wave {
        if self.freq_timer == 0 {
            Wave {
                freq_timer: (Square::period_of(self.freq) - 1) as u32,
                phase: ((self.phase + 1) % 32) as u8,
                ..self
            }
        } else {
            Wave { freq_timer: (self.freq_timer - 1) as u32, ..self }
        }
    }

    fn tick_freq(&mut self)
        requires
            old(self).wf(),
        ensures
            *final(self) == old(self).after_freq(),
            final(self).wf(),
    {
        if self.freq_timer == 0 {
            self.freq_timer = (2048 - self.freq as u32) * 4;
            self.phase = (self.phase + 1) % 32;
        }
        self.freq_timer = self.freq_timer - 1;
    }

    /// The 4-bit sample being played, high nibble first.
    pub open spec fn nibble(self, wave_ram: [u8; 16]) -> u8 {
        let byte = wave_ram[(self.phase / 2) as int];
        if self.phase % 2 == 0 {
            byte / 16
        } else {
            byte % 16
        }
    }

    /// The channel's level, a fraction of 15: the sample after the volume
    /// shift, centred; 0 while off or muted.
    pub open spec fn level(self, wave_ram: [u8; 16]) -> int {
        if !self.on || self.volume_shift == 0 {
            0
        } else {
            2 * (self.nibble(wave_ram) >> ((self.volume_shift - 1) as u8)) - 15
        }
    }

    fn sample(&self, wave_ram: &[u8; 16]) -> (r: i16)
        requires
            self.wf(),
        ensures
            r == self.level(*wave_ram),
            -15 <= r <= 15,
    {
        if !self.on || self.volume_shift == 0 {
            return 0;
        }
        let byte: u8 = wave_ram[(self.phase / 2) as usize];
        let nibble: u8 = if self.phase % 2 == 0 {
            byte / 16
        } else {
            byte % 16
        };
        let shift: u8 = self.volume_shift - 1;
        proof {
            crate::bits::lemma_shr_le(nibble as u64, shift as u64);
        }
        2 * (nibble >> shift) as i16 - 15
    }

    /// One length clock.
    pub open spec fn after_length(self) -> Wave {
        if self.length_enable {
            let length = if self.length > 0 {
                (self.length - 1) as u16
            } else {
                0
            };
            Wave { length, on: self.on && length != 0, ..self }
        } else {
            self
        }
    }

    fn tick_length(&mut self)
        ensures
            *final(self) == old(self).after_length(),
    {
        if self.length_enable {
            self.length = self.length.saturating_sub(1);
            if self.length == 0 {
                self.on = false;
            }
        }
    }
}

#[derive(Clone, Copy, PartialEq, Eq, Structural, Debug)]
pub struct Noise {
    pub freq_timer: u32,
    pub divisor: u8,
    pub shift: u8,
    pub width: bool,
    pub lfsr: u16,
    pub length: u16,
    pub length_enable: bool,
    pub env: Envelope,
    pub on: bool,
}

impl Noise {
    /// Register fields within their widths.
    pub open spec fn wf(self) -> bool {
        &&& self.divisor <= 15
        &&& self.shift <= 7
        &&& self.env.volume <= 15
    }

    pub open spec fn initial() -> Noise {
        Noise {
            freq_timer: 0,
            divisor: 0,
            shift: 0,
            width: false,
            lfsr: 0x7FFF,
            length: 0,
            length_enable: false,
            env: Envelope::initial(),
            on: false,
        }
    }

    pub fn new() -> (r: Noise)
        ensures
            r == Noise::initial(),
            r.wf(),
    {
        Noise {
            freq_timer: 0,
            divisor: 0,
            shift: 0,
            width: false,
            lfsr: 0x7FFF,
            length: 0,
            length_enable: false,
            env: Envelope::new(),
            on: false,
        }
    }

    /// The channel (re)started from its registers.
    #[verifier::opaque]
    pub open spec fn after_trigger(self, nr2: u8) -> Noise {
        Noise {
            length: if self.length == 0 {
                64
            } else {
                self.length
            },
            env: self.env.after_reload(nr2),
            lfsr: 0x7FFF,
            on: true,
            ..self
        }
    }

    fn trigger(&mut self, nr2: u8)
        requires
            old(self).wf(),
        ensures
            *final(self) == old(self).after_trigger(nr2),
            final(self).wf(),
    {
        reveal(Noise::after_trigger);
        proof {
            crate::bits::lemma_shr_u8();
        }
        if self.length == 0 {
            self.length = 64;
        }
        self.env.reload(nr2);
        self.lfsr = 0x7FFF;
        self.on = true;
    }

    /// T-cycles per shift of the register: 8 or 16 per divisor step, doubled
    /// `shift` times.
    pub open spec fn clock_period(self) -> u32 {
        (if self.divisor == 0 {
            8u32
        } else {
            (self.divisor as u32) << 4
        }) << self.shift
    }

    fn clock(&self) -> (r: u32)
        requires
            self.wf(),
        ensures
            r == self.clock_period(),
            r >= 8,
    {
        let base: u32 = if self.divisor == 0 {
            8
        } else {
            (self.divisor as u32) << 4
        };
        let d: u8 = self.divisor;
        let s: u8 = self.shift;
        assert(8u32 << s >= 8 && (1 <= d ==> ((d as u32) << 4) << s >= 8)) by (bit_vector)
            requires
                d <= 15,
                s <= 7,
        ;
        base << self.shift
    }

    /// The shift register one step on: the new bit is the sum of the lowest
    /// two, entered at bit 14 and, in 7-bit mode, at bit 6.
    pub open spec fn shifted(lfsr: u16, width: bool) -> u16 {
        let xor = (lfsr & 1) ^ ((lfsr >> 1) & 1);
        let next = (lfsr >> 1) | (xor << 14);
        if width {
            (next & !0x40u16) | (xor << 6)
        } else {
            next
        }
    }

    /// One T-cycle of the frequency timer.
    pub open spec fn after_freq(self) -> Noise {
        if self.freq_timer == 0 {
            Noise {
                freq_timer: (self.clock_period() - 1) as u32,
                lfsr: Noise::shifted(self.lfsr, self.width),
                ..self
            }
        } else {
            Noise { freq_timer: (self.freq_timer - 1) as u32, ..self }
        }
    }

    fn tick_freq(&mut self)
        requires
            old(self).wf(),
        ensures
            *final(self) == old(self).after_freq(),
            final(self).wf(),
    {
        if self.freq_timer == 0 {
            self.freq_timer = self.clock();
            let xor: u16 = (self.lfsr & 1) ^ ((self.lfsr >> 1) & 1);
            let next: u16 = (self.lfsr >> 1) | (xor << 14);
            self.lfsr = if self.width {
                (next & !0x40u16) | (xor << 6)
            } else {
                next
            };
        }
        self.freq_timer = self.freq_timer - 1;
    }

    /// The channel's level, a fraction of 15.
    pub open spec fn level(self) -> int {
        if !self.on {
            0
        } else if self.lfsr & 1 == 0 {
            self.env.volume as int
        } else {
            -(self.env.volume as int)
        }
    }

    fn sample(&self) -> (r: i16)
        requires
            self.wf(),
        ensures
            r == self.level(),
            -15 <= r <= 15,
    {
        if !self.on {
            return 0;
        }
        if self.lfsr & 1 == 0 {
            self.env.volume as i16
        } else {
            -(self.env.volume as i16)
        }
    }

    /// One length clock.
    pub open spec fn after_length(self) -> Noise {
        if self.length_enable {
            let length = if self.length > 0 {
                (self.length - 1) as u16
            } else {
                0
            };
            Noise { length, on: self.on && length != 0, ..self }
        } else {
            self
        }
    }

    fn tick_length(&mut self)
        ensures
            *final(self) == old(self).after_length(),
    {
        if self.length_enable {
            self.length = self.length.saturating_sub(1);
            if self.length == 0 {
                self.on = false;
            }
        }
    }
}

pub struct Apu {
    pub buffer: AudioBuffer,
    pub power: bool,
    pub cycle_accum: u32,
    pub frame_accum: u32,
    pub frame_step_n: u32,
    pub ch1: Square,
    pub ch2: Square,
    pub ch3: Wave,
    pub ch4: Noise,
    /// Number of stereo samples produced, modulo 2^64 (for diagnostics).
    pub produced: u64,
}

/// An APU's state as a value.
pub struct ApuState {
    pub samples: Seq<i16>,
    pub power: bool,
    pub cycle_accum: u32,
    pub frame_accum: u32,
    pub frame_step_n: u32,
    pub ch1: Square,
    pub ch2: Square,
    pub ch3: Wave,
    pub ch4: Noise,
    pub produced: u64,
}

impl View for Apu {
    type V = ApuState;

    open spec fn view(&self) -> ApuState {
        ApuState {
            samples: self.buffer@,
            power: self.power,
            cycle_accum: self.cycle_accum,
            frame_accum: self.frame_accum,
            frame_step_n: self.frame_step_n,
            ch1: self.ch1,
            ch2: self.ch2,
            ch3: self.ch3,
            ch4: self.ch4,
            produced: self.produced,
        }
    }
}

/// The levels routed to one side, by the four select bits from `bit` on.
pub open spec fn routed(nr51: u8, bit: u8, s1: int, s2: int, s3: int, s4: int) -> int {
    (if nr51 & (bit) != 0 {
        s1
    } else {
        0
    }) + (if nr51 & ((bit * 2) as u8) != 0 {
        s2
    } else {
        0
    }) + (if nr51 & ((bit * 4) as u8) != 0 {
        s3
    } else {
        0
    }) + (if nr51 & ((bit * 8) as u8) != 0 {
        s4
    } else {
        0
    })
}

/// `v` held within full scale.
pub open spec fn clipped(v: int) -> int {
    if v > FULL_SCALE {
        FULL_SCALE as int
    } else if v < -FULL_SCALE {
        -FULL_SCALE as int
    } else {
        v
    }
}

fn clip(v: i16) -> (r: i16)
    ensures
        r == clipped(v as int),
{
    if v > FULL_SCALE {
        FULL_SCALE
    } else if v < -FULL_SCALE {
        -FULL_SCALE
    } else {
        v
    }
}

fn route(nr51: u8, bit: u8, s1: i16, s2: i16, s3: i16, s4: i16) -> (r: i16)
    requires
        bit == 1 || bit == 16,
        -15 <= s1 <= 15,
        -15 <= s2 <= 15,
        -15 <= s3 <= 15,
        -15 <= s4 <= 15,
    ensures
        r == routed(nr51, bit, s1 as int, s2 as int, s3 as int, s4 as int),
        -60 <= r <= 60,
{
    (if nr51 & bit != 0 {
        s1
    } else {
        0
    }) + (if nr51 & (bit * 2) != 0 {
        s2
    } else {
        0
    }) + (if nr51 & (bit * 4) != 0 {
        s3
    } else {
        0
    }) + (if nr51 & (bit * 8) != 0 {
        s4
    } else {
        0
    })
}

/// The registers with `n` of them cleared, from offset `from` on.
pub open spec fn zeroed_regs(io: IoRegs, from: int, n: nat) -> IoRegs
    decreases n,
{
    if n == 0 {
        io
    } else {
        put(zeroed_regs(io, from, (n - 1) as nat), from + n - 1, 0)
    }
}

fn zero_regs(io: &mut IoRegs, from: usize, n: usize)
    requires
        from + n <= 0x80,
    ensures
        *final(io) == zeroed_regs(*old(io), from as int, n as nat),
{
    let mut i: usize = 0;
    while i < n
        invariant
            i <= n,
            from + n <= 0x80,
            *io == zeroed_regs(*old(io), from as int, i as nat),
        decreases n - i,
    {
        io[from + i] = 0;
        i = i + 1;
    }
}

impl ApuState {
    /// What every APU in use satisfies: channel fields within their widths and
    /// the dividers below their periods.
    #[verifier::opaque]
    pub open spec fn wf(self) -> bool {
        &&& self.ch1.wf()
        &&& self.ch2.wf()
        &&& self.ch3.wf()
        &&& self.ch4.wf()
        &&& self.cycle_accum < 512
        &&& self.frame_accum < 8192
        &&& self.frame_step_n < 8
    }

    pub open spec fn initial() -> ApuState {
        ApuState {
            samples: Seq::empty(),
            power: false,
            cycle_accum: 0,
            frame_accum: 0,
            frame_step_n: 0,
            ch1: Square::initial(),
            ch2: Square::initial(),
            ch3: Wave::initial(),
            ch4: Noise::initial(),
            produced: 0,
        }
    }

    /// The APU and registers after the power switch is set: switching off
    /// clears every sound register and channel.
    #[verifier::opaque]
    pub open spec fn after_power(self, io: IoRegs, on: bool) -> (ApuState, IoRegs) {
        if self.power == on {
            (self, io)
        } else if on {
            (ApuState { power: true, ..self }, io)
        } else {
            (
                ApuState {
                    power: false,
                    ch1: Square::initial(),
                    ch2: Square::initial(),
                    ch3: Wave::initial(),
                    ch4: Noise::initial(),
                    ..self
                },
                put(zeroed_regs(zeroed_regs(io, 0x10, 22), 0x30, 16), 0x26, 0),
            )
        }
    }

    /// One bit per sounding channel.
    pub open spec fn status(self) -> u8 {
        (if self.ch1.on {
            1u8
        } else {
            0
        }) | (if self.ch2.on {
            2u8
        } else {
            0
        }) | (if self.ch3.on {
            4u8
        } else {
            0
        }) | (if self.ch4.on {
            8u8
        } else {
            0
        })
    }

    /// What the register at `addr` reads: write-only bits read as 1.
    pub open spec fn reg(self, addr: u16, io: IoRegs) -> u8 {
        let raw = io[addr - 0xFF00];
        if addr == 0xFF10 {
            raw | 0x80
        } else if addr == 0xFF11 || addr == 0xFF16 {
            raw | 0x3F
        } else if addr == 0xFF13 || addr == 0xFF18 || addr == 0xFF1B || addr == 0xFF1D || addr
            == 0xFF20 || addr == 0xFF15 || addr == 0xFF1F || 0xFF27 <= addr <= 0xFF2F {
            0xFF
        } else if addr == 0xFF14 || addr == 0xFF19 || addr == 0xFF1E || addr == 0xFF23 {
            raw | 0xBF
        } else if addr == 0xFF1A {
            raw | 0x7F
        } else if addr == 0xFF1C {
            raw | 0x9F
        } else if addr == 0xFF26 {
            if self.power {
                raw | 0x70 | self.status()
            } else {
                0x70
            }
        } else {
            raw
        }
    }

    /// A write to the registers of channel 1 (0xFF10-0xFF14).
    pub open spec fn after_write_ch1(self, addr: u16, value: u8, io: IoRegs) -> (ApuState, IoRegs) {
        let regs = put(io, addr - 0xFF00, value);
        let length64 = (64 - (value & 0x3F)) as u16;
        let counted = value & 0x40 != 0;
        if addr == 0xFF10 {
            (
                ApuState {
                    ch1: Square {
                        sweep_period: (value >> 4) & 0x07,
                        sweep_negate: value & 0x08 != 0,
                        sweep_shift: value & 0x07,
                        ..self.ch1
                    },
                    ..self
                },
                regs,
            )
        } else if addr == 0xFF11 {
            (
                ApuState { ch1: Square { length: length64, duty: value >> 6, ..self.ch1 }, ..self },
                regs,
            )
        } else if addr == 0xFF12 {
            (
                ApuState { ch1: Square { env: self.ch1.env.after_set(value), ..self.ch1 }, ..self },
                regs,
            )
        } else if addr == 0xFF14 {
            let ch1 = Square {
                length_enable: counted,
                freq: (self.ch1.freq & 0x700 | io[0x13] as u16) | ((value & 0x07) as u16) << 8,
                ..self.ch1
            };
            let ch1 = if value & 0x80 != 0 {
                ch1.after_trigger(io[0x11], io[0x12], io[0x13], value)
            } else {
                ch1
            };
            (ApuState { ch1, ..self }, regs)
        } else {
            (self, regs)
        }
    }

    /// A write to the registers of channel 2 (0xFF15-0xFF19; the first is unused).
    pub open spec fn after_write_ch2(self, addr: u16, value: u8, io: IoRegs) -> (ApuState, IoRegs) {
        let regs = put(io, addr - 0xFF00, value);
        let length64 = (64 - (value & 0x3F)) as u16;
        let counted = value & 0x40 != 0;
        if addr == 0xFF16 {
            (
                ApuState { ch2: Square { length: length64, duty: value >> 6, ..self.ch2 }, ..self },
                regs,
            )
        } else if addr == 0xFF17 {
            (
                ApuState { ch2: Square { env: self.ch2.env.after_set(value), ..self.ch2 }, ..self },
                regs,
            )
        } else if addr == 0xFF19 {
            let ch2 = Square {
                length_enable: counted,
                freq: freq_of(io[0x18], value),
                ..self.ch2
            };
            let ch2 = if value & 0x80 != 0 {
                ch2.after_trigger(io[0x16], io[0x17], io[0x18], value)
            } else {
                ch2
            };
            (ApuState { ch2, ..self }, regs)
        } else if addr == 0xFF18 {
            (self, regs)
        } else {
            (self, io)
        }
    }

    /// A write to the registers of channel 3 (0xFF1A-0xFF1E).
    pub open spec fn after_write_ch3(self, addr: u16, value: u8, io: IoRegs) -> (ApuState, IoRegs) {
        let regs = put(io, addr - 0xFF00, value);
        let length64 = (64 - (value & 0x3F)) as u16;
        let counted = value & 0x40 != 0;
        if addr == 0xFF1A {
            let dac_on = value & 0x80 != 0;
            (
                ApuState { ch3: Wave { dac_on, on: self.ch3.on && dac_on, ..self.ch3 }, ..self },
                regs,
            )
        } else if addr == 0xFF1B {
            (ApuState { ch3: Wave { length: (256 - value) as u16, ..self.ch3 }, ..self }, regs)
        } else if addr == 0xFF1C {
            (
                ApuState { ch3: Wave { volume_shift: (value >> 5) & 0x03, ..self.ch3 }, ..self },
                regs,
            )
        } else if addr == 0xFF1E {
            let ch3 = Wave {
                length_enable: counted,
                freq: freq_of(io[0x1D], value),
                ..self.ch3
            };
            let ch3 = if value & 0x80 != 0 {
                ch3.after_trigger(io[0x1D], value)
            } else {
                ch3
            };
            (ApuState { ch3, ..self }, regs)
        } else {
            (self, regs)
        }
    }

    /// A write to the registers of channel 4 (0xFF1F-0xFF23; the first is unused).
    pub open spec fn after_write_ch4(self, addr: u16, value: u8, io: IoRegs) -> (ApuState, IoRegs) {
        let regs = put(io, addr - 0xFF00, value);
        let length64 = (64 - (value & 0x3F)) as u16;
        let counted = value & 0x40 != 0;
        if addr == 0xFF20 {
            (ApuState { ch4: Noise { length: length64, ..self.ch4 }, ..self }, regs)
        } else if addr == 0xFF21 {
            (
                ApuState { ch4: Noise { env: self.ch4.env.after_set(value), ..self.ch4 }, ..self },
                regs,
            )
        } else if addr == 0xFF22 {
            (
                ApuState {
                    ch4: Noise {
                        divisor: value >> 4,
                        width: value & 0x08 != 0,
                        shift: value & 0x07,
                        ..self.ch4
                    },
                    ..self
                },
                regs,
            )
        } else if addr == 0xFF23 {
            let ch4 = Noise { length_enable: counted, ..self.ch4 };
            let ch4 = if value & 0x80 != 0 {
                ch4.after_trigger(io[0x21])
            } else {
                ch4
            };
            (ApuState { ch4, ..self }, regs)
        } else {
            (self, io)
        }
    }

    /// The APU and registers after a write of `value` at `addr`.
    #[verifier::opaque]
    pub open spec fn after_write(self, addr: u16, value: u8, io: IoRegs) -> (ApuState, IoRegs) {
        if addr < 0xFF10 {
            (self, io)
        } else if addr <= 0xFF14 {
            self.after_write_ch1(addr, value, io)
        } else if addr <= 0xFF19 {
            self.after_write_ch2(addr, value, io)
        } else if addr <= 0xFF1E {
            self.after_write_ch3(addr, value, io)
        } else if addr <= 0xFF23 {
            self.after_write_ch4(addr, value, io)
        } else if addr == 0xFF26 {
            self.after_power(put(io, 0x26, value | 0x70), value & 0x80 != 0)
        } else if addr == 0xFF24 || addr == 0xFF25 || 0xFF30 <= addr <= 0xFF3F {
            (self, put(io, addr - 0xFF00, value))
        } else {
            (self, io)
        }
    }

    /// One clock of the four length counters.
    pub open spec fn after_lengths(self) -> ApuState {
        ApuState {
            ch1: self.ch1.after_length(),
            ch2: self.ch2.after_length(),
            ch3: self.ch3.after_length(),
            ch4: self.ch4.after_length(),
            ..self
        }
    }

    /// One step of the frame sequencer: lengths on even steps, the sweep on
    /// steps 1 and 5, the envelopes on steps 3 and 7.
    pub open spec fn after_frame_step(self) -> ApuState {
        let step = self.frame_step_n;
        let s = ApuState { frame_step_n: ((step + 1) % 8) as u32, ..self };
        if step % 2 == 0 {
            s.after_lengths()
        } else if step == 1 || step == 5 {
            ApuState { ch1: s.ch1.after_sweep_tick(), ..s }
        } else if step == 3 || step == 7 {
            ApuState {
                ch1: Square { env: s.ch1.env.after_tick(), ..s.ch1 },
                ch2: Square { env: s.ch2.env.after_tick(), ..s.ch2 },
                ch4: Noise { env: s.ch4.env.after_tick(), ..s.ch4 },
                ..s
            }
        } else {
            s
        }
    }

    /// `n` steps of the frame sequencer.
    pub open spec fn after_frame_steps(self, n: nat) -> ApuState
        decreases n,
    {
        if n == 0 {
            self
        } else {
            self.after_frame_steps((n - 1) as nat).after_frame_step()
        }
    }

    /// The stereo pair (left, right) the mixer gives now.
    pub open spec fn mixed(self, io: IoRegs, wave_ram: [u8; 16]) -> (int, int) {
        let s1 = self.ch1.level();
        let s2 = self.ch2.level();
        let s3 = self.ch3.level(wave_ram);
        let s4 = self.ch4.level();
        (
            clipped(routed(io[0x25], 16, s1, s2, s3, s4) * (io[0x24] % 8)),
            clipped(routed(io[0x25], 1, s1, s2, s3, s4) * (io[0x24] / 16 % 8)),
        )
    }

    /// The APU with one stereo pair emitted.
    pub open spec fn after_sample(self, io: IoRegs, wave_ram: [u8; 16]) -> ApuState {
        let (left, right) = self.mixed(io, wave_ram);
        ApuState {
            samples: self.samples.push(left as i16).push(right as i16),
            produced: vstd::wrapping::u64_specs::wrapping_add(self.produced, 1),
            ..self
        }
    }

    /// One T-cycle: every frequency timer, and a sample each 512 cycles.
    pub open spec fn after_cycle(self, io: IoRegs, wave_ram: [u8; 16]) -> ApuState {
        let s = ApuState {
            ch1: self.ch1.after_freq(),
            ch2: self.ch2.after_freq(),
            ch3: self.ch3.after_freq(),
            ch4: self.ch4.after_freq(),
            cycle_accum: ((self.cycle_accum + 1) % 512) as u32,
            ..self
        };
        if s.cycle_accum == 0 {
            s.after_sample(io, wave_ram)
        } else {
            s
        }
    }

    /// `n` T-cycles.
    pub open spec fn after_cycles(self, io: IoRegs, wave_ram: [u8; 16], n: nat) -> ApuState
        decreases n,
    {
        if n == 0 {
            self
        } else {
            self.after_cycles(io, wave_ram, (n - 1) as nat).after_cycle(io, wave_ram)
        }
    }

    /// The APU `cycles` T-cycles on; powered off it stands still.
    #[verifier::opaque]
    pub open spec fn after_step(self, cycles: u32, io: IoRegs, wave_ram: [u8; 16]) -> ApuState {
        if !self.power {
            self
        } else {
            let total = self.frame_accum + cycles;
            let s = self.after_cycles(io, wave_ram, cycles as nat);
            ApuState { frame_accum: (total % 8192) as u32, ..s }.after_frame_steps(
                (total / 8192) as nat,
            )
        }
    }
}

impl Apu {
    pub fn new() -> (r: Apu)
        ensures
            r@ == ApuState::initial(),
            r@.wf(),
    {
        reveal(ApuState::wf);
        Apu {
            buffer: AudioBuffer::new(),
            power: false,
            cycle_accum: 0,
            frame_accum: 0,
            frame_step_n: 0,
            ch1: Square::new(),
            ch2: Square::new(),
            ch3: Wave::new(),
            ch4: Noise::new(),
            produced: 0,
        }
    }

    fn set_power(&mut self, io: &mut IoRegs, on: bool)
        requires
            old(self)@.wf(),
        ensures
            (final(self)@, *final(io)) == old(self)@.after_power(*old(io), on),
            final(self)@.wf(),
    {
        reveal(ApuState::wf);
        reveal(ApuState::after_power);
        if self.power == on {
            return;
        }
        self.power = on;
        if !on {
            zero_regs(io, 0x10, 22);
            zero_regs(io, 0x30, 16);
            io[0x26] = 0;
            self.ch1 = Square::new();
            self.ch2 = Square::new();
            self.ch3 = Wave::new();
            self.ch4 = Noise::new();
        }
    }

    fn channel_status(&self) -> (r: u8)
        ensures
            r == self@.status(),
    {
        (if self.ch1.on {
            1u8
        } else {
            0
        }) | (if self.ch2.on {
            2u8
        } else {
            0
        }) | (if self.ch3.on {
            4u8
        } else {
            0
        }) | (if self.ch4.on {
            8u8
        } else {
            0
        })
    }

    /// Whether the state is sound; one restored from untrusted bytes may not be.
    pub fn is_valid(&self) -> (r: bool)
        ensures
            r == self@.wf(),
    {
        reveal(ApuState::wf);
        self.ch1.is_valid() && self.ch2.is_valid() && self.ch3.freq <= 0x7FF && self.ch3.phase <= 31
            && self.ch3.volume_shift <= 3 && self.ch4.divisor <= 15 && self.ch4.shift <= 7
            && self.ch4.env.volume <= 15 && self.cycle_accum < 512 && self.frame_accum < 8192
            && self.frame_step_n < 8
    }

    /// Read a sound register or wave RAM.
    pub fn read(&self, addr: u16, io: &IoRegs) -> (r: u8)
        requires
            0xFF00 <= addr < 0xFF80,
        ensures
            r == self@.reg(addr, *io),
    {
        let raw: u8 = io[(addr - 0xFF00) as usize];
        match addr {
            0xFF10 => raw | 0x80,
            0xFF11 | 0xFF16 => raw | 0x3F,
            0xFF13 | 0xFF18 | 0xFF1B | 0xFF1D | 0xFF20 => 0xFF,
            0xFF14 | 0xFF19 | 0xFF1E | 0xFF23 => raw | 0xBF,
            0xFF15 | 0xFF1F | 0xFF27..=0xFF2F => 0xFF,
            0xFF1A => raw | 0x7F,
            0xFF1C => raw | 0x9F,
            0xFF26 => {
                if self.power {
                    raw | 0x70 | self.channel_status()
                } else {
                    0x70
                }
            },
            _ => raw,
        }
    }

    fn write_ch1(&mut self, addr: u16, value: u8, io: &mut IoRegs)
        requires
            0xFF10 <= addr <= 0xFF14,
            old(self)@.wf(),
        ensures
            (final(self)@, *final(io)) == old(self)@.after_write_ch1(addr, value, *old(io)),
            final(self)@.wf(),
    {
        reveal(ApuState::wf);
        broadcast use crate::bits::group_masks;

        proof {
            crate::bits::lemma_shr_u8();
        }
        let off: usize = (addr - 0xFF00) as usize;
        match addr {
            0xFF10 => {
                io[off] = value;
                self.ch1.sweep_period = (value >> 4) & 0x07;
                self.ch1.sweep_negate = value & 0x08 != 0;
                self.ch1.sweep_shift = value & 0x07;
            },
            0xFF11 => {
                io[off] = value;
                self.ch1.length = 64 - (value & 0x3F) as u16;
                self.ch1.duty = value >> 6;
            },
            0xFF12 => {
                io[off] = value;
                self.ch1.env.set(value);
            },
            0xFF14 => {
                io[off] = value;
                self.ch1.length_enable = value & 0x40 != 0;
                let old_freq: u16 = self.ch1.freq;
                let lo: u8 = io[0x13];
                assert((old_freq & 0x700 | lo as u16) | ((value & 0x07) as u16) << 8 <= 0x7FF)
                    by (bit_vector);
                self.ch1.freq = (old_freq & 0x700 | lo as u16) | ((value & 0x07) as u16) << 8;
                if value & 0x80 != 0 {
                    self.ch1.trigger(io[0x11], io[0x12], io[0x13], value);
                }
            },
            _ => {
                io[off] = value;
            },
        }
    }

    fn write_ch2(&mut self, addr: u16, value: u8, io: &mut IoRegs)
        requires
            0xFF15 <= addr <= 0xFF19,
            old(self)@.wf(),
        ensures
            (final(self)@, *final(io)) == old(self)@.after_write_ch2(addr, value, *old(io)),
            final(self)@.wf(),
    {
        reveal(ApuState::wf);
        broadcast use crate::bits::group_masks;

        proof {
            crate::bits::lemma_shr_u8();
        }
        let off: usize = (addr - 0xFF00) as usize;
        match addr {
            0xFF16 => {
                io[off] = value;
                self.ch2.length = 64 - (value & 0x3F) as u16;
                self.ch2.duty = value >> 6;
            },
            0xFF17 => {
                io[off] = value;
                self.ch2.env.set(value);
            },
            0xFF19 => {
                io[off] = value;
                self.ch2.length_enable = value & 0x40 != 0;
                self.ch2.freq = freq_from(io[0x18], value);
                if value & 0x80 != 0 {
                    self.ch2.trigger(io[0x16], io[0x17], io[0x18], value);
                }
            },
            0xFF18 => {
                io[off] = value;
            },
            _ => {},
        }
    }

    fn write_ch3(&mut self, addr: u16, value: u8, io: &mut IoRegs)
        requires
            0xFF1A <= addr <= 0xFF1E,
            old(self)@.wf(),
        ensures
            (final(self)@, *final(io)) == old(self)@.after_write_ch3(addr, value, *old(io)),
            final(self)@.wf(),
    {
        reveal(ApuState::wf);
        broadcast use crate::bits::group_masks;

        proof {
            crate::bits::lemma_shr_u8();
        }
        let off: usize = (addr - 0xFF00) as usize;
        match addr {
            0xFF1A => {
                io[off] = value;
                self.ch3.dac_on = value & 0x80 != 0;
                if !self.ch3.dac_on {
                    self.ch3.on = false;
                }
            },
            0xFF1B => {
                io[off] = value;
                self.ch3.length = 256 - value as u16;
            },
            0xFF1C => {
                io[off] = value;
                self.ch3.volume_shift = (value >> 5) & 0x03;
            },
            0xFF1E => {
                io[off] = value;
                self.ch3.length_enable = value & 0x40 != 0;
                self.ch3.freq = freq_from(io[0x1D], value);
                if value & 0x80 != 0 {
                    self.ch3.trigger(io[0x1D], value);
                }
            },
            _ => {
                io[off] = value;
            },
        }
    }

    fn write_ch4(&mut self, addr: u16, value: u8, io: &mut IoRegs)
        requires
            0xFF1F <= addr <= 0xFF23,
            old(self)@.wf(),
        ensures
            (final(self)@, *final(io)) == old(self)@.after_write_ch4(addr, value, *old(io)),
            final(self)@.wf(),
    {
        reveal(ApuState::wf);
        broadcast use crate::bits::group_masks;

        proof {
            crate::bits::lemma_shr_u8();
        }
        let off: usize = (addr - 0xFF00) as usize;
        match addr {
            0xFF20 => {
                io[off] = value;
                self.ch4.length = 64 - (value & 0x3F) as u16;
            },
            0xFF21 => {
                io[off] = value;
                self.ch4.env.set(value);
            },
            0xFF22 => {
                io[off] = value;
                self.ch4.divisor = value >> 4;
                self.ch4.width = value & 0x08 != 0;
                self.ch4.shift = value & 0x07;
            },
            0xFF23 => {
                io[off] = value;
                self.ch4.length_enable = value & 0x40 != 0;
                if value & 0x80 != 0 {
                    self.ch4.trigger(io[0x21]);
                }
            },
            _ => {},
        }
    }

    /// Write a sound register or wave RAM.
    pub fn write(&mut self, addr: u16, value: u8, io: &mut IoRegs)
        requires
            0xFF00 <= addr < 0xFF80,
            old(self)@.wf(),
        ensures
            (final(self)@, *final(io)) == old(self)@.after_write(addr, value, *old(io)),
            final(self)@.wf(),
    {
        reveal(ApuState::after_write);
        match addr {
            0xFF10..=0xFF14 => self.write_ch1(addr, value, io),
            0xFF15..=0xFF19 => self.write_ch2(addr, value, io),
            0xFF1A..=0xFF1E => self.write_ch3(addr, value, io),
            0xFF1F..=0xFF23 => self.write_ch4(addr, value, io),
            0xFF26 => {
                io[0x26] = value | 0x70;
                self.set_power(io, value & 0x80 != 0);
            },
            0xFF24 | 0xFF25 | 0xFF30..=0xFF3F => {
                io[(addr - 0xFF00) as usize] = value;
            },
            _ => {},
        }
    }

    fn frame_step(&mut self)
        requires
            old(self)@.wf(),
        ensures
            final(self)@ == old(self)@.after_frame_step(),
            final(self)@.wf(),
    {
        reveal(ApuState::wf);
        let step: u32 = self.frame_step_n;
        self.frame_step_n = (self.frame_step_n + 1) % 8;
        if step % 2 == 0 {
            self.tick_lengths();
        } else if step == 1 || step == 5 {
            self.ch1.sweep_tick();
        } else {
            self.ch1.env.tick();
            self.ch2.env.tick();
            self.ch4.env.tick();
        }
    }

    fn tick_lengths(&mut self)
        requires
            old(self)@.wf(),
        ensures
            final(self)@ == old(self)@.after_lengths(),
            final(self)@.wf(),
    {
        reveal(ApuState::wf);
        self.ch1.tick_length();
        self.ch2.tick_length();
        self.ch3.tick_length();
        self.ch4.tick_length();
    }

    fn sample(&mut self, io: &IoRegs, wave_ram: &[u8; 16])
        requires
            old(self)@.wf(),
        ensures
            final(self)@ == old(self)@.after_sample(*io, *wave_ram),
            final(self)@.wf(),
    {
        reveal(ApuState::wf);
        let s1: i16 = self.ch1.sample();
        let s2: i16 = self.ch2.sample();
        let s3: i16 = self.ch3.sample(wave_ram);
        let s4: i16 = self.ch4.sample();
        let nr51: u8 = io[0x25];
        let l: i16 = route(nr51, 16, s1, s2, s3, s4);
        let r: i16 = route(nr51, 1, s1, s2, s3, s4);
        let left_vol: i16 = (io[0x24] % 8) as i16;
        let right_vol: i16 = (io[0x24] / 16 % 8) as i16;
        assert(-420 <= l * left_vol <= 420 && -420 <= r * right_vol <= 420) by (nonlinear_arith)
            requires
                -60 <= l <= 60,
                -60 <= r <= 60,
                0 <= left_vol <= 7,
                0 <= right_vol <= 7,
        ;
        self.buffer.push(clip(l * left_vol), clip(r * right_vol));
        self.produced = self.produced.wrapping_add(1);
    }

    /// One T-cycle.
    fn cycle(&mut self, io: &IoRegs, wave_ram: &[u8; 16])
        requires
            old(self)@.wf(),
        ensures
            final(self)@ == old(self)@.after_cycle(*io, *wave_ram),
            final(self)@.wf(),
    {
        reveal(ApuState::wf);
        self.ch1.tick_freq();
        self.ch2.tick_freq();
        self.ch3.tick_freq();
        self.ch4.tick_freq();
        self.cycle_accum = self.cycle_accum + 1;
        if self.cycle_accum >= 512 {
            self.cycle_accum = self.cycle_accum - 512;
            self.sample(io, wave_ram);
        }
    }

    /// Advance by `cycles` T-cycles.
    pub fn step(&mut self, cycles: u32, io: &mut IoRegs, wave_ram: &[u8; 16])
        requires
            old(self)@.wf(),
            old(self)@.frame_accum + cycles <= u32::MAX,
        ensures
            final(self)@ == old(self)@.after_step(cycles, *old(io), *wave_ram),
            *final(io) == *old(io),
            final(self)@.wf(),
    {
        reveal(ApuState::wf);
        reveal(ApuState::after_step);
        if !self.power {
            return;
        }
        let mut i: u32 = 0;
        while i < cycles
            invariant
                i <= cycles,
                *io == *old(io),
                self@.wf(),
                self.frame_accum == old(self).frame_accum,
                self@ == old(self)@.after_cycles(*io, *wave_ram, i as nat),
            decreases cycles - i,
        {
            self.cycle(io, wave_ram);
            i = i + 1;
        }
        let total: u32 = self.frame_accum + cycles;
        let steps: u32 = total / 8192;
        self.frame_accum = total % 8192;
        let ghost start = self@;
        let mut n: u32 = 0;
        while n < steps
            invariant
                n <= steps,
                *io == *old(io),
                self@.wf(),
                self@ == start.after_frame_steps(n as nat),
            decreases steps - n,
        {
            self.frame_step();
            n = n + 1;
        }
    }
}

impl Default for Apu {
    fn default() -> (r: Apu)
        ensures
            r@ == ApuState::initial(),
            r@.wf(),
    {
        Apu::new()
    }
}

proof fn lemma_sweep_wf(ch: Square, load: bool)
    requires
        ch.wf(),
    ensures
        ch.after_sweep(load).wf(),
{
    broadcast use crate::bits::group_masks;

}

proof fn lemma_frame_step_wf(apu: ApuState)
    requires
        apu.wf(),
    ensures
        apu.after_frame_step().wf(),
{
    reveal(ApuState::wf);
    reveal(Square::after_sweep_tick);
    reveal(Envelope::after_tick);
    let r = Square { sweep_timer: apu.ch1.sweep_reload(), ..apu.ch1 };
    lemma_sweep_wf(r, true);
    lemma_sweep_wf(r.after_sweep(true), false);
}

proof fn lemma_frame_steps_wf(apu: ApuState, n: nat)
    requires
        apu.wf(),
    ensures
        apu.after_frame_steps(n).wf(),
    decreases n,
{
    if n > 0 {
        lemma_frame_steps_wf(apu, (n - 1) as nat);
        lemma_frame_step_wf(apu.after_frame_steps((n - 1) as nat));
    }
}

proof fn lemma_cycles_wf(apu: ApuState, io: IoRegs, wave_ram: [u8; 16], n: nat)
    requires
        apu.wf(),
    ensures
        apu.after_cycles(io, wave_ram, n).wf(),
    decreases n,
{
    reveal(ApuState::wf);
    if n > 0 {
        lemma_cycles_wf(apu, io, wave_ram, (n - 1) as nat);
    }
}

/// Time leaves the APU well formed.
pub proof fn law_apu_stays_well_formed(apu: ApuState, cycles: u32, io: IoRegs, wave_ram: [u8; 16])
    requires
        apu.wf(),
    ensures
        apu.after_step(cycles, io, wave_ram).wf(),
{
    reveal(ApuState::after_step);
    if apu.power {
        let total = apu.frame_accum + cycles;
        let s = apu.after_cycles(io, wave_ram, cycles as nat);
        lemma_cycles_wf(apu, io, wave_ram, cycles as nat);
        let t = ApuState { frame_accum: (total % 8192) as u32, ..s };
        assert(t.wf()) by {
            reveal(ApuState::wf);
        }
        lemma_frame_steps_wf(t, (total / 8192) as nat);
    }
}

/// One stereo pair comes out of every 512 cycles of a powered APU: after `n`
/// cycles the pairs and the divider together account for all of them.
pub proof fn law_sample_rate(apu: ApuState, io: IoRegs, wave_ram: [u8; 16], n: nat)
    requires
        apu.cycle_accum < 512,
    ensures
        ({
            let s = apu.after_cycles(io, wave_ram, n);
            &&& s.cycle_accum == (apu.cycle_accum + n) % 512
            &&& s.samples.len() == apu.samples.len() + 2 * ((apu.cycle_accum + n) / 512)
        }),
    decreases n,
{
    if n > 0 {
        law_sample_rate(apu, io, wave_ram, (n - 1) as nat);
    }
}

/// Every sample lies within full scale.
pub proof fn law_samples_within_full_scale(apu: ApuState, io: IoRegs, wave_ram: [u8; 16])
    ensures
        -FULL_SCALE <= apu.mixed(io, wave_ram).0 <= FULL_SCALE,
        -FULL_SCALE <= apu.mixed(io, wave_ram).1 <= FULL_SCALE,
{
}

/// Rewriting an envelope register leaves its running timer alone; only a
/// trigger loads it.
pub proof fn law_envelope_write_keeps_timer(apu: ApuState, io: IoRegs, value: u8)
    ensures
        apu.after_write(0xFF17, value, io).0.ch2.env.timer == apu.ch2.env.timer,
        apu.after_write(0xFF12, value, io).0.ch1.env.timer == apu.ch1.env.timer,
{
    reveal(ApuState::after_write);
}

/// A retrigger keeps a running length counter and loads an expired one.
pub proof fn law_retrigger_keeps_length(ch: Square, nr1: u8, nr2: u8, nr3: u8, nr4: u8)
    ensures
        ch.after_trigger(nr1, nr2, nr3, nr4).length == if ch.length == 0 {
            64
        } else {
            ch.length
        },
{
    reveal(Square::after_trigger);
}

} // verus!
