//! GBA Audio Processing Unit (APU).
//!
//! The GBA reuses the four Game Boy channels (two squares, one wave, one noise)
//! and adds two 8-bit Direct Sound channels (A and B) with DMA-fed FIFOs. All
//! six channels are mixed into a single stereo pair.
//!
//! The APU is clocked by [`Apu::step`] with CPU cycles: channel timers count
//! CPU cycles, a 512 Hz frame sequencer drives the length counters, envelopes
//! and the channel-1 sweep, and one stereo sample is emitted every 512 cycles
//! (32768 Hz). Mixing is integer-only in the 10-bit units of the hardware
//! output; SOUNDBIAS is applied exactly as on the console. A sample is the
//! output less 0x200, so that [`FULL_SCALE`] units make full scale.
//!
//! Register layouts follow GBATEK ("GBA Sound Controller").

use crate::bits::{filled, put};
use crate::emu::audio::AudioBuffer;
use vstd::prelude::*;
use vstd::wrapping::u8_specs;

verus! {

/// The sample value that stands for an amplitude of 1.
pub const FULL_SCALE: i16 = 512;

/// CPU cycles per audio sample (16.78 MHz / 32768 Hz).
pub const CYCLES_PER_SAMPLE: u32 = 512;
/// CPU cycles per frame-sequencer step (512 Hz).
pub const CYCLES_PER_SEQUENCER_STEP: u32 = 32768;

/// The patterns of the four duty settings.
pub const DUTY: [[u8; 8]; 4] = [
    [0, 0, 0, 0, 0, 0, 0, 1],
    [1, 0, 0, 0, 0, 0, 0, 1],
    [1, 0, 0, 0, 0, 0, 1, 1],
    [1, 1, 1, 1, 0, 0, 1, 1],
];

/// A down-counting timer `cycles` cycles on, reloaded with `period` each time
/// it expires, and how often it expired.
pub open spec fn timer_run(timer: u32, period: u32, cycles: u32) -> (u32, u32) {
    if cycles < timer {
        ((timer - cycles) as u32, 0)
    } else {
        let rest = cycles - timer;
        ((period - rest % period as int) as u32, (1 + rest / period as int) as u32)
    }
}

/// Advance a down-counting timer by `cycles`, reloading it with `period`
/// (which must be non-zero) each time it expires. Returns how many times it
/// expired, so a channel can be clocked in bulk instead of per cycle.
pub fn run_timer(timer: &mut u32, period: u32, cycles: u32) -> (r: u32)
    requires
        period > 0,
        period > 1 || *old(timer) >= 1 || cycles < u32::MAX,
    ensures
        (*final(timer), r) == timer_run(*old(timer), period, cycles),
        r <= cycles + 1,
        period > 1 ==> r <= cycles / 2 + 1,
        *old(timer) >= 1 ==> *final(timer) >= 1 && r <= cycles,
{
    if cycles < *timer {
        *timer = *timer - cycles;
        return 0;
    }
    let rest: u32 = cycles - *timer;
    assert(rest / period <= rest && (period > 1 ==> rest / period <= rest / 2)) by (nonlinear_arith)
        requires
            period > 0,
    ;
    *timer = period - rest % period;
    1 + rest / period
}

/// The signed value of a sample byte.
pub open spec fn signed8(v: u8) -> i8 {
    (if v >= 128 {
        v - 256
    } else {
        v as int
    }) as i8
}

pub fn to_signed8(v: u8) -> (r: i8)
    ensures
        r == signed8(v),
{
    if v >= 128 {
        (v as i16 - 256) as i8
    } else {
        v as i8
    }
}

/// Volume envelope (SOUNDxCNT bits 8-15: initial volume, direction, period).
#[derive(Clone, Copy, PartialEq, Eq, Structural, Debug)]
pub struct Envelope {
    pub volume: u8,
    pub initial: u8,
    pub up: bool,
    pub period: u8,
    /// Counts down modulo 256.
    pub timer: u8,
}

impl Envelope {
    pub open spec fn silent() -> Envelope {
        Envelope { volume: 0, initial: 0, up: false, period: 0, timer: 0 }
    }

    pub fn new() -> (r: Envelope)
        ensures
            r == Envelope::silent(),
    {
        Envelope { volume: 0, initial: 0, up: false, period: 0, timer: 0 }
    }

    pub open spec fn wf(self) -> bool {
        self.volume <= 15 && self.initial <= 15
    }

    /// The parameters of the register's high byte; the running volume stays.
    pub open spec fn after_set(self, nr: u8) -> Envelope {
        Envelope {
            initial: (nr / 16) as u8,
            up: nr & 0x08 != 0,
            period: (nr % 8) as u8,
            ..self
        }
    }

    /// Update the parameters from the register's high byte. The running
    /// volume only changes on the next restart.
    pub fn set(&mut self, nr: u8)
        ensures
            *final(self) == old(self).after_set(nr),
            old(self).wf() ==> final(self).wf(),
    {
        self.initial = nr / 16;
        self.up = nr & 0x08 != 0;
        self.period = nr % 8;
    }

    pub open spec fn powered(self) -> bool {
        self.initial != 0 || self.up
    }

    /// The DAC is powered while the initial volume or direction is non-zero.
    pub fn dac_on(&self) -> (r: bool)
        ensures
            r == self.powered(),
    {
        self.initial != 0 || self.up
    }

    pub open spec fn after_trigger(self) -> Envelope {
        Envelope {
            volume: self.initial,
            timer: if self.period == 0 {
                8
            } else {
                self.period
            },
            ..self
        }
    }

    pub fn trigger(&mut self)
        ensures
            *final(self) == old(self).after_trigger(),
            old(self).wf() ==> final(self).wf(),
    {
        self.volume = self.initial;
        self.timer = if self.period == 0 {
            8
        } else {
            self.period
        };
    }

    /// One envelope clock: when the timer expires the volume moves one step,
    /// within 0 to 15.
    pub open spec fn after_tick(self) -> Envelope {
        let timer = u8_specs::wrapping_sub(self.timer, 1);
        if self.period == 0 {
            self
        } else if timer > 0 {
            Envelope { timer, ..self }
        } else {
            Envelope {
                timer: self.period,
                volume: if self.up {
                    if self.volume < 15 {
                        (self.volume + 1) as u8
                    } else {
                        self.volume
                    }
                } else if self.volume > 0 {
                    (self.volume - 1) as u8
                } else {
                    0
                },
                ..self
            }
        }
    }

    /// One 64 Hz envelope clock.
    pub fn tick(&mut self)
        ensures
            *final(self) == old(self).after_tick(),
            old(self).wf() ==> final(self).wf(),
    {
        if self.period == 0 {
            return;
        }
        self.timer = self.timer.wrapping_sub(1);
        if self.timer > 0 {
            return;
        }
        self.timer = self.period;
        if self.up {
            if self.volume < 15 {
                self.volume = self.volume + 1;
            }
        } else if self.volume > 0 {
            self.volume = self.volume - 1;
        }
    }
}

#[derive(Clone, Copy, PartialEq, Eq, Structural, Debug)]
pub struct Square {
    pub duty: u8,
    pub freq_timer: u32,
    pub freq: u16,
    pub phase: u8,
    pub length: u8,
    pub length_enable: bool,
    pub env: Envelope,
    pub sweep_period: u8,
    pub sweep_negate: bool,
    pub sweep_shift: u8,
    pub sweep_timer: u8,
    pub sweep_enabled: bool,
    pub on: bool,
}

impl Square {
    pub open spec fn silent() -> Square {
        Square {
            duty: 0,
            freq_timer: 16,
            freq: 0,
            phase: 0,
            length: 0,
            length_enable: false,
            env: Envelope::silent(),
            sweep_period: 0,
            sweep_negate: false,
            sweep_shift: 0,
            sweep_timer: 0,
            sweep_enabled: false,
            on: false,
        }
    }

    pub open spec fn wf(self) -> bool {
        &&& self.duty < 4
        &&& self.freq_timer >= 1
        &&& self.freq < 2048
        &&& self.phase < 8
        &&& self.sweep_shift < 8
        &&& self.env.wf()
    }

    pub fn is_valid(&self) -> (r: bool)
        ensures
            r == self.wf(),
    {
        self.duty < 4 && self.freq_timer >= 1 && self.freq < 2048 && self.phase < 8
            && self.sweep_shift < 8 && self.env.volume <= 15 && self.env.initial <= 15
    }

    pub fn new() -> (r: Square)
        ensures
            r == Square::silent(),
            r.wf(),
    {
        Square {
            duty: 0,
            freq_timer: 16,
            freq: 0,
            phase: 0,
            length: 0,
            length_enable: false,
            env: Envelope::new(),
            sweep_period: 0,
            sweep_negate: false,
            sweep_shift: 0,
            sweep_timer: 0,
            sweep_enabled: false,
            on: false,
        }
    }

    pub open spec fn after_sweep_write(self, value: u16) -> Square {
        Square {
            sweep_shift: (value % 8) as u8,
            sweep_negate: value & 0x08 != 0,
            sweep_period: (value / 16 % 8) as u8,
            ..self
        }
    }

    /// SOUND1CNT_L: sweep shift (0-2), direction (3), period (4-6).
    pub fn set_sweep(&mut self, value: u16)
        requires
            old(self).wf(),
        ensures
            *final(self) == old(self).after_sweep_write(value),
            final(self).wf(),
    {
        self.sweep_shift = (value % 8) as u8;
        self.sweep_negate = value & 0x08 != 0;
        self.sweep_period = (value / 16 % 8) as u8;
    }

    pub open spec fn after_len_duty_env(self, value: u16) -> Square {
        let env = self.env.after_set((value / 256) as u8);
        Square {
            length: (64 - value % 64) as u8,
            duty: (value / 64 % 4) as u8,
            env,
            on: self.on && env.powered(),
            ..self
        }
    }

    /// SOUND1CNT_H / SOUND2CNT_L: length (0-5), duty (6-7), envelope (8-15).
    pub fn set_len_duty_env(&mut self, value: u16)
        requires
            old(self).wf(),
        ensures
            *final(self) == old(self).after_len_duty_env(value),
            final(self).wf(),
    {
        self.length = 64 - (value % 64) as u8;
        self.duty = (value / 64 % 4) as u8;
        self.env.set((value / 256) as u8);
        if !self.env.dac_on() {
            self.on = false;
        }
    }

    /// CPU cycles per duty step: the Game Boy's `(2048 - f) * 4` at four
    /// times the clock.
    pub open spec fn step_cycles(self) -> u32 {
        ((2048 - self.freq) * 16) as u32
    }

    pub fn period(&self) -> (r: u32)
        requires
            self.freq < 2048,
        ensures
            r == self.step_cycles(),
            r > 0,
    {
        (2048 - self.freq as u32) * 16
    }

    /// The frequency that the sweep moves to.
    pub open spec fn swept_freq(self) -> int {
        let delta = self.freq >> (self.sweep_shift as u16);
        if self.sweep_negate {
            self.freq - delta
        } else {
            self.freq + delta
        }
    }

    /// A sweep step: too high a frequency silences the channel.
    pub open spec fn after_sweep_step(self, load: bool) -> Square {
        let new = self.swept_freq();
        if new > 0x7FF {
            Square { on: false, ..self }
        } else if load {
            Square { freq: new as u16, ..self }
        } else {
            self
        }
    }

    fn calc_sweep(&mut self, load: bool)
        requires
            old(self).wf(),
        ensures
            *final(self) == old(self).after_sweep_step(load),
            final(self).wf(),
    {
        let freq: u16 = self.freq;
        let shift: u16 = self.sweep_shift as u16;
        let delta: u16 = freq >> shift;
        proof {
            crate::bits::lemma_shr_le(freq as u64, shift as u64);
        }
        let new: u16 = if self.sweep_negate {
            freq - delta
        } else {
            freq + delta
        };
        if new > 0x7FF {
            self.on = false;
        } else if load {
            self.freq = new;
        }
    }

    pub open spec fn after_trigger(self, has_sweep: bool) -> Square {
        let s = Square {
            length: if self.length == 0 {
                64
            } else {
                self.length
            },
            freq_timer: self.step_cycles(),
            phase: 0,
            env: self.env.after_trigger(),
            ..self
        };
        let t = if has_sweep {
            let w = Square {
                sweep_timer: if self.sweep_period == 0 {
                    8
                } else {
                    self.sweep_period
                },
                sweep_enabled: self.sweep_period != 0 || self.sweep_shift != 0,
                ..s
            };
            if self.sweep_shift != 0 {
                w.after_sweep_step(false)
            } else {
                w
            }
        } else {
            s
        };
        Square { on: t.env.powered(), ..t }
    }

    fn trigger(&mut self, has_sweep: bool)
        requires
            old(self).wf(),
        ensures
            *final(self) == old(self).after_trigger(has_sweep),
            final(self).wf(),
    {
        if self.length == 0 {
            self.length = 64;
        }
        self.freq_timer = self.period();
        self.phase = 0;
        self.env.trigger();
        if has_sweep {
            self.sweep_timer = if self.sweep_period == 0 {
                8
            } else {
                self.sweep_period
            };
            self.sweep_enabled = self.sweep_period != 0 || self.sweep_shift != 0;
            if self.sweep_shift != 0 {
                self.calc_sweep(false);
            }
        }
        self.on = self.env.dac_on();
    }

    pub open spec fn after_freq_ctrl(self, value: u16, has_sweep: bool) -> Square {
        let s = Square {
            freq: (value % 2048) as u16,
            length_enable: value & 0x4000 != 0,
            ..self
        };
        if value & 0x8000 != 0 {
            s.after_trigger(has_sweep)
        } else {
            s
        }
    }

    /// SOUND1CNT_X / SOUND2CNT_H: frequency (0-10), length enable (14),
    /// restart (15).
    pub fn set_freq_ctrl(&mut self, value: u16, has_sweep: bool)
        requires
            old(self).wf(),
        ensures
            *final(self) == old(self).after_freq_ctrl(value, has_sweep),
            final(self).wf(),
    {
        self.freq = value % 2048;
        self.length_enable = value & 0x4000 != 0;
        if value & 0x8000 != 0 {
            self.trigger(has_sweep);
        }
    }

    /// The channel `cycles` CPU cycles on.
    pub open spec fn after_clock(self, cycles: u32) -> Square {
        let (freq_timer, steps) = timer_run(self.freq_timer, self.step_cycles(), cycles);
        Square { freq_timer, phase: ((self.phase + steps) % 8) as u8, ..self }
    }

    pub fn clock(&mut self, cycles: u32)
        requires
            old(self).wf(),
        ensures
            *final(self) == old(self).after_clock(cycles),
            final(self).wf(),
    {
        let period: u32 = self.period();
        let steps: u32 = run_timer(&mut self.freq_timer, period, cycles);
        self.phase = ((self.phase as u32 + steps) % 8) as u8;
    }

    /// Bipolar 4-bit DAC output: `+volume` on the high part of the duty
    /// cycle, `-volume` on the low part, 0 while the channel is off.
    pub open spec fn level(self) -> int {
        if !self.on {
            0
        } else if DUTY[self.duty as int][self.phase as int] == 1 {
            self.env.volume as int
        } else {
            -(self.env.volume as int)
        }
    }

    pub fn output(&self) -> (r: i32)
        requires
            self.wf(),
        ensures
            r == self.level(),
            -15 <= r <= 15,
    {
        if !self.on {
            return 0;
        }
        let v: i32 = self.env.volume as i32;
        if DUTY[self.duty as usize][self.phase as usize] == 1 {
            v
        } else {
            -v
        }
    }

    pub open spec fn after_length_tick(self) -> Square {
        if self.length_enable && self.length > 0 {
            Square {
                length: (self.length - 1) as u8,
                on: self.on && self.length != 1,
                ..self
            }
        } else {
            self
        }
    }

    pub fn length_tick(&mut self)
        requires
            old(self).wf(),
        ensures
            *final(self) == old(self).after_length_tick(),
            final(self).wf(),
    {
        if self.length_enable && self.length > 0 {
            self.length = self.length - 1;
            if self.length == 0 {
                self.on = false;
            }
        }
    }

    pub open spec fn after_sweep_tick(self) -> Square {
        if !self.sweep_enabled {
            self
        } else if self.sweep_timer > 1 {
            Square { sweep_timer: (self.sweep_timer - 1) as u8, ..self }
        } else if self.sweep_period == 0 {
            Square { sweep_timer: 8, ..self }
        } else {
            Square { sweep_timer: self.sweep_period, ..self }.after_sweep_step(
                true,
            ).after_sweep_step(false)
        }
    }

    pub fn sweep_tick(&mut self)
        requires
            old(self).wf(),
        ensures
            *final(self) == old(self).after_sweep_tick(),
            final(self).wf(),
    {
        if !self.sweep_enabled {
            return;
        }
        if self.sweep_timer > 0 {
            self.sweep_timer = self.sweep_timer - 1;
        }
        if self.sweep_timer > 0 {
            return;
        }
        self.sweep_timer = if self.sweep_period == 0 {
            8
        } else {
            self.sweep_period
        };
        if self.sweep_period != 0 {
            self.calc_sweep(true);
            self.calc_sweep(false);
        }
    }
}

#[derive(Clone, Copy, PartialEq, Eq, Debug)]
pub struct Wave {
    /// SOUND3CNT_L bit 5: play both banks as one 64-sample wave.
    pub dimension: bool,
    /// SOUND3CNT_L bit 6: the bank playback starts in; the CPU sees the other.
    pub bank: u8,
    pub dac_on: bool,
    pub length: u16,
    pub length_enable: bool,
    /// SOUND3CNT_H bits 13-14: 0 mute, 1 100 %, 2 50 %, 3 25 %.
    pub volume: u8,
    /// SOUND3CNT_H bit 15: force 75 %.
    pub force75: bool,
    pub freq_timer: u32,
    pub freq: u16,
    /// Sample position within the 32 or 64 sample sequence.
    pub pos: u8,
    pub on: bool,
    /// Both wave RAM banks (bank 0 in bytes 0-15, bank 1 in 16-31).
    pub ram: [u8; 32],
}

impl Wave {
    pub open spec fn silent() -> Wave {
        Wave {
            dimension: false,
            bank: 0,
            dac_on: false,
            length: 0,
            length_enable: false,
            volume: 0,
            force75: false,
            freq_timer: 8,
            freq: 0,
            pos: 0,
            on: false,
            ram: filled(0),
        }
    }

    pub open spec fn wf(self) -> bool {
        &&& self.bank <= 1
        &&& self.volume < 4
        &&& self.freq_timer >= 1
        &&& self.freq < 2048
        &&& self.pos < 64
    }

    pub fn is_valid(&self) -> (r: bool)
        ensures
            r == self.wf(),
    {
        self.bank <= 1 && self.volume < 4 && self.freq_timer >= 1 && self.freq < 2048 && self.pos
            < 64
    }

    pub fn new() -> (r: Wave)
        ensures
            r == Wave::silent(),
            r.wf(),
    {
        Wave {
            dimension: false,
            bank: 0,
            dac_on: false,
            length: 0,
            length_enable: false,
            volume: 0,
            force75: false,
            freq_timer: 8,
            freq: 0,
            pos: 0,
            on: false,
            ram: [0; 32],
        }
    }

    pub open spec fn after_ctrl_l(self, value: u16) -> Wave {
        Wave {
            dimension: value & 0x20 != 0,
            bank: (value / 64 % 2) as u8,
            dac_on: value & 0x80 != 0,
            on: self.on && value & 0x80 != 0,
            ..self
        }
    }

    /// SOUND3CNT_L: dimension (5), bank (6), playback enable (7).
    pub fn set_ctrl_l(&mut self, value: u16)
        requires
            old(self).wf(),
        ensures
            *final(self) == old(self).after_ctrl_l(value),
            final(self).wf(),
    {
        self.dimension = value & 0x20 != 0;
        self.bank = (value / 64 % 2) as u8;
        self.dac_on = value & 0x80 != 0;
        if !self.dac_on {
            self.on = false;
        }
    }

    pub open spec fn after_len_vol(self, value: u16) -> Wave {
        Wave {
            length: (256 - value % 256) as u16,
            volume: (value / 0x2000 % 4) as u8,
            force75: value & 0x8000 != 0,
            ..self
        }
    }

    /// SOUND3CNT_H: length (0-7), volume (13-14), force 75 % (15).
    pub fn set_len_vol(&mut self, value: u16)
        requires
            old(self).wf(),
        ensures
            *final(self) == old(self).after_len_vol(value),
            final(self).wf(),
    {
        self.length = 256 - value % 256;
        self.volume = (value / 0x2000 % 4) as u8;
        self.force75 = value & 0x8000 != 0;
    }

    /// CPU cycles per wave sample: the Game Boy's `(2048 - f) * 2` at four
    /// times the clock.
    pub open spec fn step_cycles(self) -> u32 {
        ((2048 - self.freq) * 8) as u32
    }

    pub fn period(&self) -> (r: u32)
        requires
            self.freq < 2048,
        ensures
            r == self.step_cycles(),
            r > 0,
    {
        (2048 - self.freq as u32) * 8
    }

    pub open spec fn after_trigger(self) -> Wave {
        Wave {
            length: if self.length == 0 {
                256
            } else {
                self.length
            },
            freq_timer: self.step_cycles(),
            pos: 0,
            on: self.dac_on,
            ..self
        }
    }

    fn trigger(&mut self)
        requires
            old(self).wf(),
        ensures
            *final(self) == old(self).after_trigger(),
            final(self).wf(),
    {
        if self.length == 0 {
            self.length = 256;
        }
        self.freq_timer = self.period();
        self.pos = 0;
        self.on = self.dac_on;
    }

    pub open spec fn after_freq_ctrl(self, value: u16) -> Wave {
        let w = Wave { freq: (value % 2048) as u16, length_enable: value & 0x4000 != 0, ..self };
        if value & 0x8000 != 0 {
            w.after_trigger()
        } else {
            w
        }
    }

    /// SOUND3CNT_X: frequency (0-10), length enable (14), restart (15).
    pub fn set_freq_ctrl(&mut self, value: u16)
        requires
            old(self).wf(),
        ensures
            *final(self) == old(self).after_freq_ctrl(value),
            final(self).wf(),
    {
        self.freq = value % 2048;
        self.length_enable = value & 0x4000 != 0;
        if value & 0x8000 != 0 {
            self.trigger();
        }
    }

    /// The length of the sequence that is played.
    pub open spec fn sequence(self) -> int {
        if self.dimension {
            64
        } else {
            32
        }
    }

    pub fn samples(&self) -> (r: u32)
        ensures
            r == self.sequence(),
    {
        if self.dimension {
            64
        } else {
            32
        }
    }

    /// The channel `cycles` CPU cycles on.
    pub open spec fn after_clock(self, cycles: u32) -> Wave {
        let (freq_timer, steps) = timer_run(self.freq_timer, self.step_cycles(), cycles);
        Wave { freq_timer, pos: ((self.pos + steps) % self.sequence()) as u8, ..self }
    }

    pub fn clock(&mut self, cycles: u32)
        requires
            old(self).wf(),
        ensures
            *final(self) == old(self).after_clock(cycles),
            final(self).wf(),
    {
        let period: u32 = self.period();
        let steps: u32 = run_timer(&mut self.freq_timer, period, cycles);
        self.pos = if self.dimension {
            ((self.pos as u32 + steps) % 64) as u8
        } else {
            ((self.pos as u32 + steps) % 32) as u8
        };
    }

    /// Index into `ram` (in nibbles) of the sample being played.
    pub open spec fn nibble(self) -> int {
        if self.dimension {
            (self.bank * 32 + self.pos) % 64
        } else {
            self.bank * 32 + self.pos % 32
        }
    }

    fn play_nibble(&self) -> (r: usize)
        requires
            self.wf(),
        ensures
            r == self.nibble(),
            r < 64,
    {
        let start: usize = self.bank as usize * 32;
        if self.dimension {
            (start + self.pos as usize) % 64
        } else {
            start + self.pos as usize % 32
        }
    }

    /// The byte offset in `ram` the CPU sees at the even wave RAM offset
    /// `idx`: the bank that is not selected for playback.
    pub open spec fn visible_byte(self, idx: int) -> int {
        (1 - self.bank) * 16 + idx % 16 / 2 * 2
    }

    fn cpu_byte(&self, idx: usize) -> (r: usize)
        requires
            self.bank <= 1,
        ensures
            r == self.visible_byte(idx as int),
            r <= 30,
    {
        (1 - self.bank as usize) * 16 + idx % 16 / 2 * 2
    }

    pub open spec fn ram_half(self, idx: int) -> u16 {
        let i = self.visible_byte(idx);
        (self.ram[i] + self.ram[i + 1] * 256) as u16
    }

    pub fn read_ram16(&self, idx: usize) -> (r: u16)
        requires
            self.bank <= 1,
        ensures
            r == self.ram_half(idx as int),
    {
        let i: usize = self.cpu_byte(idx);
        self.ram[i] as u16 + self.ram[i + 1] as u16 * 256
    }

    pub open spec fn after_ram_write(self, idx: int, value: u16) -> Wave {
        let i = self.visible_byte(idx);
        Wave { ram: put(put(self.ram, i, (value % 256) as u8), i + 1, (value / 256) as u8), ..self }
    }

    pub fn write_ram16(&mut self, idx: usize, value: u16)
        requires
            old(self).bank <= 1,
        ensures
            *final(self) == old(self).after_ram_write(idx as int, value),
            old(self).wf() ==> final(self).wf(),
    {
        let i: usize = self.cpu_byte(idx);
        self.ram[i] = (value % 256) as u8;
        self.ram[i + 1] = (value / 256) as u8;
    }

    /// Bipolar 4-bit DAC output of the current sample after the volume
    /// shift (0 while the channel is off).
    pub open spec fn level(self) -> int {
        if !self.on {
            0
        } else {
            let byte = self.ram[self.nibble() / 2];
            let sample: int = if self.nibble() % 2 == 0 {
                byte as int / 16
            } else {
                byte as int % 16
            };
            let scaled = if self.force75 {
                sample * 3 / 4
            } else if self.volume == 0 {
                0
            } else if self.volume == 1 {
                sample
            } else if self.volume == 2 {
                sample / 2
            } else {
                sample / 4
            };
            scaled * 2 - 15
        }
    }

    pub fn output(&self) -> (r: i32)
        requires
            self.wf(),
        ensures
            r == self.level(),
            -15 <= r <= 15,
    {
        if !self.on {
            return 0;
        }
        let nib: usize = self.play_nibble();
        let byte: u8 = self.ram[nib / 2];
        let sample: u8 = if nib % 2 == 0 {
            byte / 16
        } else {
            byte % 16
        };
        let scaled: u8 = if self.force75 {
            sample * 3 / 4
        } else {
            match self.volume {
                0 => 0,
                1 => sample,
                2 => sample / 2,
                _ => sample / 4,
            }
        };
        scaled as i32 * 2 - 15
    }

    pub open spec fn after_length_tick(self) -> Wave {
        if self.length_enable && self.length > 0 {
            Wave { length: (self.length - 1) as u16, on: self.on && self.length != 1, ..self }
        } else {
            self
        }
    }

    pub fn length_tick(&mut self)
        requires
            old(self).wf(),
        ensures
            *final(self) == old(self).after_length_tick(),
            final(self).wf(),
    {
        if self.length_enable && self.length > 0 {
            self.length = self.length - 1;
            if self.length == 0 {
                self.on = false;
            }
        }
    }
}

#[derive(Clone, Copy, PartialEq, Eq, Structural, Debug)]
pub struct Noise {
    pub freq_timer: u32,
    /// SOUND4CNT_H bits 0-2 (dividing ratio r).
    pub divisor: u8,
    /// SOUND4CNT_H bits 4-7 (shift s).
    pub shift: u8,
    /// SOUND4CNT_H bit 3: 7-bit counter.
    pub width: bool,
    pub lfsr: u16,
    pub length: u8,
    pub length_enable: bool,
    pub env: Envelope,
    pub on: bool,
}

/// 2 to the power `s`, up to 13.
pub open spec fn two_to(s: u8) -> u32 {
    match s {
        0 => 1,
        1 => 2,
        2 => 4,
        3 => 8,
        4 => 16,
        5 => 32,
        6 => 64,
        7 => 128,
        8 => 256,
        9 => 512,
        10 => 1024,
        11 => 2048,
        12 => 4096,
        _ => 8192,
    }
}

fn power_of_two(s: u8) -> (r: u32)
    ensures
        r == two_to(s),
        1 <= r <= 8192,
{
    match s {
        0 => 1,
        1 => 2,
        2 => 4,
        3 => 8,
        4 => 16,
        5 => 32,
        6 => 64,
        7 => 128,
        8 => 256,
        9 => 512,
        10 => 1024,
        11 => 2048,
        12 => 4096,
        _ => 8192,
    }
}

/// The shift register one step on: the exclusive-or of its two lowest bits
/// enters at bit 14, and in 7-bit mode also at bit 6.
pub open spec fn lfsr_step(lfsr: u16, width: bool) -> u16 {
    let xor = (lfsr & 1) ^ ((lfsr >> 1) & 1);
    let next = (lfsr >> 1) | (xor << 14);
    if width {
        (next & 0xFFBF) | (xor << 6)
    } else {
        next
    }
}

/// The shift register `n` steps on.
pub open spec fn lfsr_steps(lfsr: u16, width: bool, n: nat) -> u16
    decreases n,
{
    if n == 0 {
        lfsr
    } else {
        lfsr_step(lfsr_steps(lfsr, width, (n - 1) as nat), width)
    }
}

impl Noise {
    pub open spec fn silent() -> Noise {
        Noise {
            freq_timer: 32,
            divisor: 0,
            shift: 0,
            width: false,
            lfsr: 0x7FFF,
            length: 0,
            length_enable: false,
            env: Envelope::silent(),
            on: false,
        }
    }

    pub open spec fn wf(self) -> bool {
        &&& self.freq_timer >= 1
        &&& self.divisor < 8
        &&& self.shift < 16
        &&& self.env.wf()
    }

    pub fn is_valid(&self) -> (r: bool)
        ensures
            r == self.wf(),
    {
        self.freq_timer >= 1 && self.divisor < 8 && self.shift < 16 && self.env.volume <= 15
            && self.env.initial <= 15
    }

    pub fn new() -> (r: Noise)
        ensures
            r == Noise::silent(),
            r.wf(),
    {
        Noise {
            freq_timer: 32,
            divisor: 0,
            shift: 0,
            width: false,
            lfsr: 0x7FFF,
            length: 0,
            length_enable: false,
            env: Envelope::new(),
            on: false,
        }
    }

    pub open spec fn after_len_env(self, value: u16) -> Noise {
        let env = self.env.after_set((value / 256) as u8);
        Noise { length: (64 - value % 64) as u8, env, on: self.on && env.powered(), ..self }
    }

    /// SOUND4CNT_L: length (0-5), envelope (8-15).
    pub fn set_len_env(&mut self, value: u16)
        requires
            old(self).wf(),
        ensures
            *final(self) == old(self).after_len_env(value),
            final(self).wf(),
    {
        self.length = 64 - (value % 64) as u8;
        self.env.set((value / 256) as u8);
        if !self.env.dac_on() {
            self.on = false;
        }
    }

    /// CPU cycles per LFSR shift: `(r == 0 ? 8 : 16 r) << s` Game Boy cycles
    /// at four times the clock. Shift values 14 and 15 never clock.
    pub open spec fn step_cycles(self) -> u32 {
        ((if self.divisor == 0 {
            32int
        } else {
            64 * self.divisor
        }) * two_to(self.shift)) as u32
    }

    pub fn period(&self) -> (r: u32)
        requires
            self.divisor < 8,
        ensures
            r == self.step_cycles(),
            r > 0,
    {
        let base: u32 = if self.divisor == 0 {
            32
        } else {
            64 * self.divisor as u32
        };
        let scale: u32 = power_of_two(self.shift);
        assert(1 <= base * scale <= 448 * 8192) by (nonlinear_arith)
            requires
                1 <= base <= 448,
                1 <= scale <= 8192,
        ;
        base * scale
    }

    pub open spec fn after_trigger(self) -> Noise {
        Noise {
            length: if self.length == 0 {
                64
            } else {
                self.length
            },
            env: self.env.after_trigger(),
            freq_timer: self.step_cycles(),
            lfsr: 0x7FFF,
            on: self.env.powered(),
            ..self
        }
    }

    fn trigger(&mut self)
        requires
            old(self).wf(),
        ensures
            *final(self) == old(self).after_trigger(),
            final(self).wf(),
    {
        if self.length == 0 {
            self.length = 64;
        }
        self.env.trigger();
        self.freq_timer = self.period();
        self.lfsr = 0x7FFF;
        self.on = self.env.dac_on();
    }

    pub open spec fn after_ctrl(self, value: u16) -> Noise {
        let n = Noise {
            divisor: (value % 8) as u8,
            width: value & 0x08 != 0,
            shift: (value / 16 % 16) as u8,
            length_enable: value & 0x4000 != 0,
            ..self
        };
        if value & 0x8000 != 0 {
            n.after_trigger()
        } else {
            n
        }
    }

    /// SOUND4CNT_H: r (0-2), width (3), s (4-7), length enable (14),
    /// restart (15).
    pub fn set_ctrl(&mut self, value: u16)
        requires
            old(self).wf(),
        ensures
            *final(self) == old(self).after_ctrl(value),
            final(self).wf(),
    {
        self.divisor = (value % 8) as u8;
        self.width = value & 0x08 != 0;
        self.shift = (value / 16 % 16) as u8;
        self.length_enable = value & 0x4000 != 0;
        if value & 0x8000 != 0 {
            self.trigger();
        }
    }

    /// The number of steps after which the register is taken to repeat.
    pub open spec fn repeat(self) -> u32 {
        if self.width {
            127
        } else {
            32767
        }
    }

    /// The channel `cycles` CPU cycles on.
    pub open spec fn after_clock(self, cycles: u32) -> Noise {
        if self.shift >= 14 {
            self
        } else {
            let (freq_timer, steps) = timer_run(self.freq_timer, self.step_cycles(), cycles);
            Noise {
                freq_timer,
                lfsr: lfsr_steps(self.lfsr, self.width, (steps % self.repeat()) as nat),
                ..self
            }
        }
    }

    pub fn clock(&mut self, cycles: u32)
        requires
            old(self).wf(),
        ensures
            *final(self) == old(self).after_clock(cycles),
            final(self).wf(),
    {
        if self.shift >= 14 {
            return;
        }
        let period: u32 = self.period();
        let steps: u32 = run_timer(&mut self.freq_timer, period, cycles);
        // The LFSR repeats after at most 32767 steps (127 in 7-bit mode).
        let repeat: u32 = if self.width {
            127
        } else {
            32767
        };
        let n: u32 = steps % repeat;
        let mut lfsr: u16 = self.lfsr;
        let mut k: u32 = 0;
        while k < n
            invariant
                k <= n,
                lfsr == lfsr_steps(self.lfsr, self.width, k as nat),
            decreases n - k,
        {
            let xor: u16 = (lfsr & 1) ^ ((lfsr >> 1) & 1);
            lfsr = (lfsr >> 1) | (xor << 14);
            if self.width {
                lfsr = (lfsr & 0xFFBF) | (xor << 6);
            }
            k = k + 1;
        }
        self.lfsr = lfsr;
    }

    /// `+volume` or `-volume` by the lowest bit of the shift register, 0 while
    /// the channel is off.
    pub open spec fn level(self) -> int {
        if !self.on {
            0
        } else if self.lfsr & 1 == 0 {
            self.env.volume as int
        } else {
            -(self.env.volume as int)
        }
    }

    pub fn output(&self) -> (r: i32)
        requires
            self.wf(),
        ensures
            r == self.level(),
            -15 <= r <= 15,
    {
        if !self.on {
            return 0;
        }
        let v: i32 = self.env.volume as i32;
        if self.lfsr & 1 == 0 {
            v
        } else {
            -v
        }
    }

    pub open spec fn after_length_tick(self) -> Noise {
        if self.length_enable && self.length > 0 {
            Noise { length: (self.length - 1) as u8, on: self.on && self.length != 1, ..self }
        } else {
            self
        }
    }

    pub fn length_tick(&mut self)
        requires
            old(self).wf(),
        ensures
            *final(self) == old(self).after_length_tick(),
            final(self).wf(),
    {
        if self.length_enable && self.length > 0 {
            self.length = self.length - 1;
            if self.length == 0 {
                self.on = false;
            }
        }
    }
}

/// A Direct Sound channel (8-bit signed FIFO sample).
#[derive(Clone, Copy, PartialEq, Eq, Debug)]
pub struct DirectSound {
    pub fifo: [u8; 32],
    pub fifo_count: usize,
    pub fifo_read: usize,
}

impl DirectSound {
    pub open spec fn empty() -> DirectSound {
        DirectSound { fifo: filled(0), fifo_count: 0, fifo_read: 0 }
    }

    pub open spec fn wf(self) -> bool {
        self.fifo_count <= 32 && self.fifo_read < 32
    }

    /// The queued bytes, the next one to play first.
    pub open spec fn queue(self) -> Seq<u8> {
        Seq::new(self.fifo_count as nat, |i: int| self.fifo[(self.fifo_read + i) % 32])
    }

    pub fn new() -> (r: DirectSound)
        ensures
            r == DirectSound::empty(),
            r.wf(),
    {
        DirectSound { fifo: [0; 32], fifo_count: 0, fifo_read: 0 }
    }

    /// The channel with `v` queued; a full FIFO drops it.
    pub open spec fn after_push(self, v: u8) -> DirectSound {
        if self.fifo_count < 32 {
            DirectSound {
                fifo: put(self.fifo, (self.fifo_read + self.fifo_count) % 32, v),
                fifo_count: (self.fifo_count + 1) as usize,
                ..self
            }
        } else {
            self
        }
    }

    pub fn push(&mut self, v: u8)
        requires
            old(self).wf(),
        ensures
            *final(self) == old(self).after_push(v),
            final(self).wf(),
    {
        if self.fifo_count < 32 {
            let idx: usize = (self.fifo_read + self.fifo_count) % 32;
            self.fifo[idx] = v;
            self.fifo_count = self.fifo_count + 1;
        }
    }

    /// The channel after its next sample was taken, and the sample; an empty
    /// FIFO repeats silence.
    pub open spec fn popped(self) -> (DirectSound, i8) {
        if self.fifo_count == 0 {
            (self, 0)
        } else {
            (
                DirectSound {
                    fifo_read: ((self.fifo_read + 1) % 32) as usize,
                    fifo_count: (self.fifo_count - 1) as usize,
                    ..self
                },
                signed8(self.fifo[self.fifo_read as int]),
            )
        }
    }

    /// Pop the next signed 8-bit sample; an empty FIFO repeats silence.
    pub fn sample(&mut self) -> (r: i8)
        requires
            old(self).wf(),
        ensures
            (*final(self), r) == old(self).popped(),
            final(self).wf(),
    {
        if self.fifo_count == 0 {
            return 0;
        }
        let v: u8 = self.fifo[self.fifo_read];
        self.fifo_read = (self.fifo_read + 1) % 32;
        self.fifo_count = self.fifo_count - 1;
        to_signed8(v)
    }
}

impl Default for DirectSound {
    fn default() -> (r: DirectSound)
        ensures
            r == DirectSound::empty(),
            r.wf(),
    {
        DirectSound::new()
    }
}

/// The FIFO gives its bytes back in the order in which they were queued.
pub proof fn law_fifo_order(d: DirectSound, v: u8)
    requires
        d.wf(),
    ensures
        d.fifo_count < 32 ==> d.after_push(v).queue() == d.queue().push(v),
        d.fifo_count == 32 ==> d.after_push(v).queue() == d.queue(),
        d.fifo_count > 0 ==> d.popped().1 == signed8(d.queue()[0]) && d.popped().0.queue()
            == d.queue().skip(1),
        d.fifo_count == 0 ==> d.popped() == (d, 0i8),
{
    if d.fifo_count < 32 {
        assert(d.after_push(v).queue() =~= d.queue().push(v)) by {
            assert forall|i: int| 0 <= i < d.fifo_count implies (#[trigger] d.after_push(
                v,
            ).queue()[i]) == d.queue()[i] by {
                assert((d.fifo_read + i) % 32 != (d.fifo_read + d.fifo_count) % 32);
            }
        }
    }
    if d.fifo_count > 0 {
        assert(d.popped().0.queue() =~= d.queue().skip(1)) by {
            assert forall|i: int| 0 <= i < d.fifo_count - 1 implies (#[trigger] d.popped().0.queue()[i])
                == d.queue()[i + 1] by {
                assert(((d.fifo_read + 1) % 32 + i) % 32 == (d.fifo_read + (i + 1)) % 32);
            }
        }
    }
}

/// The two Direct Sound DACs: the sample each holds, replaced on overflow of
/// the timer selected in SOUNDCNT_H, and that timer (0 or 1).
#[derive(Clone, Copy, PartialEq, Eq, Structural, Debug)]
pub struct Dacs {
    pub a: i8,
    pub b: i8,
    pub a_timer: u8,
    pub b_timer: u8,
}

/// CPU cycles into the current sample and sequencer step, and that step.
#[derive(Clone, Copy, PartialEq, Eq, Structural, Debug)]
pub struct Clock {
    pub cycles: u32,
    pub fs_cycles: u32,
    pub fs: u8,
}

/// The control registers.
#[derive(Clone, Copy, PartialEq, Eq, Structural, Debug)]
pub struct Control {
    pub soundcnt_l: u16,
    pub soundcnt_h: u16,
    pub soundcnt_x: u16,
    pub soundbias: u16,
}

impl Control {
    pub open spec fn enabled(self) -> bool {
        self.soundcnt_x & 0x80 != 0
    }
}

/// The GBA APU.
pub struct Apu {
    pub sq1: Square,
    pub sq2: Square,
    pub wave: Wave,
    pub noise: Noise,
    pub dsa: DirectSound,
    pub dsb: DirectSound,
    pub dacs: Dacs,
    pub clock: Clock,
    pub control: Control,
    pub output: AudioBuffer,
}

/// An APU's state as a value.
pub struct ApuState {
    pub sq1: Square,
    pub sq2: Square,
    pub wave: Wave,
    pub noise: Noise,
    pub dsa: DirectSound,
    pub dsb: DirectSound,
    pub dacs: Dacs,
    pub clock: Clock,
    pub control: Control,
    pub samples: Seq<i16>,
}

impl View for Apu {
    type V = ApuState;

    open spec fn view(&self) -> ApuState {
        ApuState {
            sq1: self.sq1,
            sq2: self.sq2,
            wave: self.wave,
            noise: self.noise,
            dsa: self.dsa,
            dsb: self.dsb,
            dacs: self.dacs,
            clock: self.clock,
            control: self.control,
            samples: self.output@,
        }
    }
}

/// The sum of the four channel levels that the nibble `enables` lets through.
pub open spec fn enabled_sum(enables: int, l1: int, l2: int, l3: int, l4: int) -> int {
    (if enables % 2 != 0 {
        l1
    } else {
        0
    }) + (if enables / 2 % 2 != 0 {
        l2
    } else {
        0
    }) + (if enables / 4 % 2 != 0 {
        l3
    } else {
        0
    }) + (if enables / 8 % 2 != 0 {
        l4
    } else {
        0
    })
}

fn sum_enabled(enables: u16, l1: i32, l2: i32, l3: i32, l4: i32) -> (r: i32)
    requires
        -15 <= l1 <= 15,
        -15 <= l2 <= 15,
        -15 <= l3 <= 15,
        -15 <= l4 <= 15,
    ensures
        r == enabled_sum(enables as int, l1 as int, l2 as int, l3 as int, l4 as int),
        -60 <= r <= 60,
{
    let mut mix: i32 = 0;
    if enables % 2 != 0 {
        mix = mix + l1;
    }
    if enables / 2 % 2 != 0 {
        mix = mix + l2;
    }
    if enables / 4 % 2 != 0 {
        mix = mix + l3;
    }
    if enables / 8 % 2 != 0 {
        mix = mix + l4;
    }
    mix
}

/// The PSG mix at a master volume and at 25, 50 or 100 % (SOUNDCNT_H bits 0-1).
pub open spec fn scaled(mix: int, master: int, ratio: int) -> int {
    if ratio == 0 {
        mix * master / 4
    } else if ratio == 1 {
        mix * master / 2
    } else {
        mix * master
    }
}

fn scale(mix: i32, master: i32, ratio: u16) -> (r: i32)
    requires
        -60 <= mix <= 60,
        0 <= master <= 7,
    ensures
        r == scaled(mix as int, master as int, ratio as int),
        -420 <= r <= 420,
{
    assert(-420 <= mix * master <= 420) by (nonlinear_arith)
        requires
            -60 <= mix <= 60,
            0 <= master <= 7,
    ;
    let v: i32 = mix * master;
    if ratio == 0 {
        ((v + 512) as u32 / 4) as i32 - 128
    } else if ratio == 1 {
        ((v + 512) as u32 / 2) as i32 - 256
    } else {
        v
    }
}

/// The output of one side: the mix around SOUNDBIAS, clamped to ten bits, with
/// the bits below the resolution dropped, and the middle moved to 0.
pub open spec fn biased(mix: int, soundbias: u16) -> int {
    let step: int = if soundbias / 0x4000 == 0 {
        2
    } else if soundbias / 0x4000 == 1 {
        4
    } else if soundbias / 0x4000 == 2 {
        8
    } else {
        16
    };
    let v = mix + (soundbias & 0x3FE);
    let c = if v < 0 {
        0
    } else if v > 0x3FF {
        0x3FF
    } else {
        v
    };
    c - c % step - 0x200
}

fn bias(mix: i32, soundbias: u16) -> (r: i16)
    requires
        -2000 <= mix <= 2000,
    ensures
        r == biased(mix as int, soundbias),
        -512 <= r < 512,
{
    let step: i32 = match soundbias / 0x4000 {
        0 => 2,
        1 => 4,
        2 => 8,
        _ => 16,
    };
    proof {
        crate::bits::and_le_u16(soundbias, 0x3FE);
    }
    let v: i32 = mix + (soundbias & 0x3FE) as i32;
    let c: i32 = if v < 0 {
        0
    } else if v > 0x3FF {
        0x3FF
    } else {
        v
    };
    assert(0 <= c % step <= c) by (nonlinear_arith)
        requires
            0 <= c,
            2 <= step,
    ;
    let low: i32 = (c as u32 % step as u32) as i32;
    (c - low - 0x200) as i16
}

impl ApuState {
    pub open spec fn initial() -> ApuState {
        ApuState {
            sq1: Square::silent(),
            sq2: Square::silent(),
            wave: Wave::silent(),
            noise: Noise::silent(),
            dsa: DirectSound::empty(),
            dsb: DirectSound::empty(),
            dacs: Dacs { a: 0, b: 0, a_timer: 0, b_timer: 0 },
            clock: Clock { cycles: 0, fs_cycles: 0, fs: 0 },
            control: Control { soundcnt_l: 0, soundcnt_h: 0, soundcnt_x: 0, soundbias: 0x200 },
            samples: Seq::empty(),
        }
    }

    pub open spec fn wf(self) -> bool {
        &&& self.sq1.wf()
        &&& self.sq2.wf()
        &&& self.wave.wf()
        &&& self.noise.wf()
        &&& self.dsa.wf()
        &&& self.dsb.wf()
        &&& self.dacs.a_timer <= 1
        &&& self.dacs.b_timer <= 1
        &&& self.clock.cycles < 512
        &&& self.clock.fs_cycles < 32768
        &&& self.clock.fs < 8
    }

    /// The DACs clocked by timer `timer` take their next samples.
    pub open spec fn after_overflow(self, timer: u8) -> ApuState {
        let a = if self.dacs.a_timer == timer {
            let (dsa, v) = self.dsa.popped();
            ApuState { dsa, dacs: Dacs { a: v, ..self.dacs }, ..self }
        } else {
            self
        };
        if a.dacs.b_timer == timer {
            let (dsb, v) = a.dsb.popped();
            ApuState { dsb, dacs: Dacs { b: v, ..a.dacs }, ..a }
        } else {
            a
        }
    }

    /// SOUNDCNT_X as the CPU reads it.
    pub open spec fn status(self) -> u16 {
        ((if self.control.enabled() {
            0x80int
        } else {
            0
        }) + (if self.sq1.on {
            1int
        } else {
            0
        }) + (if self.sq2.on {
            2int
        } else {
            0
        }) + (if self.wave.on {
            4int
        } else {
            0
        }) + (if self.noise.on {
            8int
        } else {
            0
        })) as u16
    }

    /// What a sound register reads.
    pub open spec fn half(self, offset: int) -> u16 {
        if offset == 0x80 {
            self.control.soundcnt_l
        } else if offset == 0x82 {
            self.control.soundcnt_h
        } else if offset == 0x84 {
            self.status()
        } else if offset == 0x88 {
            self.control.soundbias
        } else if 0x90 <= offset <= 0x9F {
            self.wave.ram_half(offset - 0x90)
        } else {
            0
        }
    }

    /// The PSG channels and their registers reset; the FIFOs, SOUNDCNT_H and
    /// wave RAM survive.
    pub open spec fn powered_off(self) -> ApuState {
        ApuState {
            sq1: Square::silent(),
            sq2: Square::silent(),
            wave: Wave { ram: self.wave.ram, ..Wave::silent() },
            noise: Noise::silent(),
            control: Control { soundcnt_l: 0, ..self.control },
            clock: Clock { fs: 0, fs_cycles: 0, ..self.clock },
            ..self
        }
    }

    /// SOUNDCNT_H: volumes, enables and timers; bits 11 and 15 reset a FIFO.
    pub open spec fn mixer_written(self, value: u16) -> ApuState {
        let s = ApuState {
            control: Control { soundcnt_h: value & 0x770F, ..self.control },
            dacs: Dacs {
                a_timer: (value / 0x400 % 2) as u8,
                b_timer: (value / 0x4000 % 2) as u8,
                ..self.dacs
            },
            ..self
        };
        let a = if value & 0x800 != 0 {
            ApuState { dsa: DirectSound::empty(), dacs: Dacs { a: 0, ..s.dacs }, ..s }
        } else {
            s
        };
        if value & 0x8000 != 0 {
            ApuState { dsb: DirectSound::empty(), dacs: Dacs { b: 0, ..a.dacs }, ..a }
        } else {
            a
        }
    }

    /// SOUNDCNT_X: clearing the master enable resets the PSG.
    pub open spec fn master_written(self, value: u16) -> ApuState {
        let s = if value & 0x80 == 0 && self.control.enabled() {
            self.powered_off()
        } else {
            self
        };
        ApuState { control: Control { soundcnt_x: value & 0x80, ..s.control }, ..s }
    }

    /// The APU after a write to a PSG register.
    pub open spec fn psg_written(self, offset: int, value: u16) -> ApuState {
        if offset == 0x60 {
            ApuState { sq1: self.sq1.after_sweep_write(value), ..self }
        } else if offset == 0x62 {
            ApuState { sq1: self.sq1.after_len_duty_env(value), ..self }
        } else if offset == 0x64 {
            ApuState { sq1: self.sq1.after_freq_ctrl(value, true), ..self }
        } else if offset == 0x68 {
            ApuState { sq2: self.sq2.after_len_duty_env(value), ..self }
        } else if offset == 0x6C {
            ApuState { sq2: self.sq2.after_freq_ctrl(value, false), ..self }
        } else if offset == 0x70 {
            ApuState { wave: self.wave.after_ctrl_l(value), ..self }
        } else if offset == 0x72 {
            ApuState { wave: self.wave.after_len_vol(value), ..self }
        } else if offset == 0x74 {
            ApuState { wave: self.wave.after_freq_ctrl(value), ..self }
        } else if offset == 0x78 {
            ApuState { noise: self.noise.after_len_env(value), ..self }
        } else if offset == 0x7C {
            ApuState { noise: self.noise.after_ctrl(value), ..self }
        } else if offset == 0x80 {
            ApuState {
                control: Control { soundcnt_l: value & 0xFF77, ..self.control },
                ..self
            }
        } else {
            self
        }
    }

    /// The APU after a write to a sound register. The PSG registers (0x60-0x81)
    /// are ignored while the master enable is off.
    pub open spec fn after_write16(self, offset: int, value: u16) -> ApuState {
        let (lo, hi) = ((value % 256) as u8, (value / 256) as u8);
        if 0x60 <= offset <= 0x81 {
            if self.control.enabled() {
                self.psg_written(offset, value)
            } else {
                self
            }
        } else if offset == 0x82 {
            self.mixer_written(value)
        } else if offset == 0x84 {
            self.master_written(value)
        } else if offset == 0x88 {
            ApuState { control: Control { soundbias: value & 0xC3FE, ..self.control }, ..self }
        } else if 0x90 <= offset <= 0x9F {
            ApuState { wave: self.wave.after_ram_write(offset - 0x90, value), ..self }
        } else if offset == 0xA0 || offset == 0xA2 {
            ApuState { dsa: self.dsa.after_push(lo).after_push(hi), ..self }
        } else if offset == 0xA4 || offset == 0xA6 {
            ApuState { dsb: self.dsb.after_push(lo).after_push(hi), ..self }
        } else {
            self
        }
    }

    /// The channel timers `cycles` CPU cycles on.
    pub open spec fn after_clock(self, cycles: u32) -> ApuState {
        ApuState {
            sq1: self.sq1.after_clock(cycles),
            sq2: self.sq2.after_clock(cycles),
            wave: self.wave.after_clock(cycles),
            noise: self.noise.after_clock(cycles),
            ..self
        }
    }

    pub open spec fn lengths_ticked(self) -> ApuState {
        ApuState {
            sq1: self.sq1.after_length_tick(),
            sq2: self.sq2.after_length_tick(),
            wave: self.wave.after_length_tick(),
            noise: self.noise.after_length_tick(),
            ..self
        }
    }

    pub open spec fn envelopes_ticked(self) -> ApuState {
        ApuState {
            sq1: Square { env: self.sq1.env.after_tick(), ..self.sq1 },
            sq2: Square { env: self.sq2.env.after_tick(), ..self.sq2 },
            noise: Noise { env: self.noise.env.after_tick(), ..self.noise },
            ..self
        }
    }

    /// One step of the frame sequencer: lengths on even steps, the sweep of
    /// channel 1 on steps 2 and 6, envelopes on step 7.
    pub open spec fn sequenced(self) -> ApuState {
        let fs = self.clock.fs;
        let s = if fs % 2 == 0 {
            self.lengths_ticked()
        } else {
            self
        };
        if fs == 2 || fs == 6 {
            ApuState { sq1: s.sq1.after_sweep_tick(), ..s }
        } else if fs == 7 {
            s.envelopes_ticked()
        } else {
            s
        }
    }

    /// The mix of one side before the bias.
    pub open spec fn mixed(self, left: bool) -> int {
        let l = self.control.soundcnt_l;
        let h = self.control.soundcnt_h;
        let (master, enables, to_a, to_b) = if left {
            (l / 16 % 8, l / 0x1000, h & 0x200 != 0, h & 0x2000 != 0)
        } else {
            (l % 8, l / 0x100 % 16, h & 0x100 != 0, h & 0x1000 != 0)
        };
        let psg = scaled(
            enabled_sum(
                enables as int,
                self.sq1.level(),
                self.sq2.level(),
                self.wave.level(),
                self.noise.level(),
            ),
            master as int,
            (h % 4) as int,
        );
        psg + (if to_a {
            self.dacs.a * (if h & 0x04 != 0 {
                4int
            } else {
                2
            })
        } else {
            0
        }) + (if to_b {
            self.dacs.b * (if h & 0x08 != 0 {
                4int
            } else {
                2
            })
        } else {
            0
        })
    }

    /// One side of the next sample.
    pub open spec fn side(self, left: bool) -> i16 {
        if self.control.enabled() {
            biased(self.mixed(left), self.control.soundbias) as i16
        } else {
            0
        }
    }

    pub open spec fn sampled(self) -> ApuState {
        ApuState { samples: self.samples.push(self.side(true)).push(self.side(false)), ..self }
    }

    /// The frame sequencer `run` cycles on; `run` is less than one of its
    /// steps.
    pub open spec fn sequencer_run(self, run: u32) -> ApuState {
        let total = self.clock.fs_cycles + run;
        if total >= CYCLES_PER_SEQUENCER_STEP {
            ApuState {
                clock: Clock {
                    fs_cycles: (total - CYCLES_PER_SEQUENCER_STEP) as u32,
                    fs: ((self.clock.fs + 1) % 8) as u8,
                    ..self.clock
                },
                ..self
            }.sequenced()
        } else {
            ApuState { clock: Clock { fs_cycles: total as u32, ..self.clock }, ..self }
        }
    }

    /// `run` cycles, no more than the current sample still has.
    #[verifier::opaque]
    pub open spec fn after_run(self, run: u32) -> ApuState {
        let s = self.after_clock(run).sequencer_run(run);
        let cycles = self.clock.cycles + run;
        if cycles == CYCLES_PER_SAMPLE {
            ApuState { clock: Clock { cycles: 0, ..s.clock }, ..s }.sampled()
        } else {
            ApuState { clock: Clock { cycles: cycles as u32, ..s.clock }, ..s }
        }
    }

    /// The cycles that the current sample has left, at most `cycles`.
    pub open spec fn next_run(self, cycles: u32) -> u32 {
        if cycles < 512 - self.clock.cycles {
            cycles
        } else {
            (512 - self.clock.cycles) as u32
        }
    }

    /// The APU `cycles` CPU cycles on, in at most `fuel` runs.
    pub open spec fn after_runs(self, cycles: u32, fuel: nat) -> ApuState
        decreases fuel,
    {
        if cycles == 0 || fuel == 0 {
            self
        } else {
            let run = self.next_run(cycles);
            self.after_run(run).after_runs((cycles - run) as u32, (fuel - 1) as nat)
        }
    }

    /// The APU `cycles` CPU cycles on: it runs from sample to sample.
    pub open spec fn after_step(self, cycles: u32) -> ApuState {
        self.after_runs(cycles, cycles as nat)
    }
}

/// One run leaves a well-formed APU well-formed, and moves the cycle count on.
pub proof fn lemma_run(s: ApuState, run: u32)
    requires
        s.wf(),
        1 <= run <= 512 - s.clock.cycles,
    ensures
        s.after_run(run).wf(),
        s.after_run(run).clock.cycles == (s.clock.cycles + run) % 512,
        s.after_run(run).samples.len() == s.samples.len() + (s.clock.cycles + run) / 512 * 2,
        s.after_run(run).samples.take(s.samples.len() as int) =~= s.samples,
{
    reveal(ApuState::after_run);
    let c = s.after_clock(run);
    lemma_clocked_wf(s, run);
    lemma_sequenced_wf(c, run);
}

proof fn lemma_clocked_wf(s: ApuState, run: u32)
    requires
        s.wf(),
        1 <= run <= 512,
    ensures
        s.after_clock(run).wf(),
{
    lemma_timer(s.sq1.freq_timer, s.sq1.step_cycles(), run);
    lemma_timer(s.sq2.freq_timer, s.sq2.step_cycles(), run);
    lemma_timer(s.wave.freq_timer, s.wave.step_cycles(), run);
    assert(s.noise.step_cycles() >= 1) by {
        let base: int = if s.noise.divisor == 0 {
            32
        } else {
            64 * s.noise.divisor
        };
        let scale = two_to(s.noise.shift) as int;
        assert(1 <= base * scale <= 448 * 8192) by (nonlinear_arith)
            requires
                1 <= base <= 448,
                1 <= scale <= 8192,
        ;
    }
    lemma_timer(s.noise.freq_timer, s.noise.step_cycles(), run);
}

proof fn lemma_timer(timer: u32, period: u32, cycles: u32)
    requires
        timer >= 1,
        period >= 1,
        cycles <= 512,
    ensures
        timer_run(timer, period, cycles).0 >= 1,
{
}

proof fn lemma_sequenced_wf(s: ApuState, run: u32)
    requires
        s.wf(),
        1 <= run <= 512,
    ensures
        s.sequencer_run(run).wf(),
        s.sequencer_run(run).clock.cycles == s.clock.cycles,
        s.sequencer_run(run).samples == s.samples,
{
    lemma_swept_wf(s.sq1);
    lemma_swept_wf(s.sq1.after_length_tick());
}

proof fn lemma_swept_wf(q: Square)
    requires
        q.wf(),
    ensures
        q.after_sweep_tick().wf(),
        q.after_length_tick().wf(),
{
    let t = Square { sweep_timer: q.sweep_period, ..q };
    lemma_sweep_step_wf(t, true);
    lemma_sweep_step_wf(t.after_sweep_step(true), false);
}

proof fn lemma_sweep_step_wf(q: Square, load: bool)
    requires
        q.wf(),
    ensures
        q.after_sweep_step(load).wf(),
{
    let freq = q.freq;
    let shift = q.sweep_shift as u16;
    crate::bits::lemma_shr_le(freq as u64, shift as u64);
}

impl Apu {
    pub fn new() -> (r: Apu)
        ensures
            r@ == ApuState::initial(),
            r@.wf(),
    {
        Apu {
            sq1: Square::new(),
            sq2: Square::new(),
            wave: Wave::new(),
            noise: Noise::new(),
            dsa: DirectSound::new(),
            dsb: DirectSound::new(),
            dacs: Dacs { a: 0, b: 0, a_timer: 0, b_timer: 0 },
            clock: Clock { cycles: 0, fs_cycles: 0, fs: 0 },
            control: Control { soundcnt_l: 0, soundcnt_h: 0, soundcnt_x: 0, soundbias: 0x200 },
            output: AudioBuffer::new(),
        }
    }

    /// Whether the APU can be stepped; one restored from untrusted bytes may
    /// not.
    pub fn is_valid(&self) -> (r: bool)
        ensures
            r == self@.wf(),
    {
        self.sq1.is_valid() && self.sq2.is_valid() && self.wave.is_valid() && self.noise.is_valid()
            && self.dsa.fifo_count <= 32 && self.dsa.fifo_read < 32 && self.dsb.fifo_count <= 32
            && self.dsb.fifo_read < 32 && self.dacs.a_timer <= 1 && self.dacs.b_timer <= 1
            && self.clock.cycles < 512 && self.clock.fs_cycles < 32768 && self.clock.fs < 8
    }

    /// Timer overflow notification: each DirectSound channel clocked by this
    /// timer pops its next FIFO sample into its DAC.
    pub fn timer_overflow(&mut self, timer_idx: u8)
        requires
            old(self)@.wf(),
        ensures
            final(self)@ == old(self)@.after_overflow(timer_idx),
            final(self)@.wf(),
    {
        if self.dacs.a_timer == timer_idx {
            self.dacs.a = self.dsa.sample();
        }
        if self.dacs.b_timer == timer_idx {
            self.dacs.b = self.dsb.sample();
        }
    }

    /// Timer (0 or 1) selected in SOUNDCNT_H to clock DirectSound A.
    pub fn dsa_timer(&self) -> (r: u8)
        ensures
            r == self@.dacs.a_timer,
    {
        self.dacs.a_timer
    }

    /// Timer (0 or 1) selected in SOUNDCNT_H to clock DirectSound B.
    pub fn dsb_timer(&self) -> (r: u8)
        ensures
            r == self@.dacs.b_timer,
    {
        self.dacs.b_timer
    }

    /// SOUNDCNT_X bit 7.
    pub fn master_enabled(&self) -> (r: bool)
        ensures
            r == self@.control.enabled(),
    {
        self.control.soundcnt_x & 0x80 != 0
    }

    /// SOUNDCNT_X as the CPU reads it: the master enable plus the live
    /// channel-active bits 0-3.
    pub fn read_soundcnt_x(&self) -> (r: u16)
        ensures
            r == self@.status(),
    {
        let mut v: u16 = 0;
        if self.master_enabled() {
            v = 0x80;
        }
        if self.sq1.on {
            v = v + 1;
        }
        if self.sq2.on {
            v = v + 2;
        }
        if self.wave.on {
            v = v + 4;
        }
        if self.noise.on {
            v = v + 8;
        }
        v
    }

    /// SOUNDBIAS as the CPU reads it.
    pub fn soundbias(&self) -> (r: u16)
        ensures
            r == self@.control.soundbias,
    {
        self.control.soundbias
    }

    /// Halfword of wave RAM at `idx` (0..16, even), from the bank the CPU
    /// can access (the one not being played).
    pub fn read_wave_ram16(&self, idx: usize) -> (r: u16)
        requires
            self@.wf(),
        ensures
            r == self@.wave.ram_half(idx as int),
    {
        self.wave.read_ram16(idx)
    }

    /// A byte store to the FIFO ports 0xA0-0xA7.
    pub fn push_fifo_byte(&mut self, offset: usize, v: u8)
        requires
            old(self)@.wf(),
        ensures
            final(self)@ == if offset & 4 == 0 {
                ApuState { dsa: old(self)@.dsa.after_push(v), ..old(self)@ }
            } else {
                ApuState { dsb: old(self)@.dsb.after_push(v), ..old(self)@ }
            },
            final(self)@.wf(),
    {
        if offset & 4 == 0 {
            self.dsa.push(v);
        } else {
            self.dsb.push(v);
        }
    }

    /// Bytes currently queued in FIFO A.
    pub fn fifo_a_count(&self) -> (r: usize)
        ensures
            r == self@.dsa.fifo_count,
    {
        self.dsa.fifo_count
    }

    /// Bytes currently queued in FIFO B.
    pub fn fifo_b_count(&self) -> (r: usize)
        ensures
            r == self@.dsb.fifo_count,
    {
        self.dsb.fifo_count
    }

    /// Queue a sample byte in FIFO A (DMA refill path).
    pub fn push_fifo_a(&mut self, v: u8)
        requires
            old(self)@.wf(),
        ensures
            final(self)@ == (ApuState { dsa: old(self)@.dsa.after_push(v), ..old(self)@ }),
            final(self)@.wf(),
    {
        self.dsa.push(v);
    }

    /// Queue a sample byte in FIFO B (DMA refill path).
    pub fn push_fifo_b(&mut self, v: u8)
        requires
            old(self)@.wf(),
        ensures
            final(self)@ == (ApuState { dsb: old(self)@.dsb.after_push(v), ..old(self)@ }),
            final(self)@.wf(),
    {
        self.dsb.push(v);
    }

    /// Hand over the samples produced since the last call.
    pub fn take_audio(&mut self) -> (r: AudioBuffer)
        ensures
            r@ == old(self)@.samples,
            final(self)@ == (ApuState { samples: Seq::empty(), ..old(self)@ }),
    {
        let mut out = AudioBuffer::new();
        core::mem::swap(&mut out, &mut self.output);
        out
    }

    /// Read a 16-bit sound register (offset within 0x04000000).
    pub fn read16(&self, offset: usize) -> (r: u16)
        requires
            self@.wf(),
        ensures
            r == self@.half(offset as int),
    {
        if offset >= 0x90 && offset <= 0x9F {
            return self.wave.read_ram16(offset - 0x90);
        }
        match offset {
            0x80 => self.control.soundcnt_l,
            0x82 => self.control.soundcnt_h,
            0x84 => self.read_soundcnt_x(),
            0x88 => self.control.soundbias,
            _ => 0,
        }
    }

    fn write_psg(&mut self, offset: usize, value: u16)
        requires
            old(self)@.wf(),
        ensures
            final(self)@ == old(self)@.psg_written(offset as int, value),
            final(self)@.wf(),
    {
        match offset {
            0x60 => self.sq1.set_sweep(value),
            0x62 => self.sq1.set_len_duty_env(value),
            0x64 => self.sq1.set_freq_ctrl(value, true),
            0x68 => self.sq2.set_len_duty_env(value),
            0x6C => self.sq2.set_freq_ctrl(value, false),
            0x70 => self.wave.set_ctrl_l(value),
            0x72 => self.wave.set_len_vol(value),
            0x74 => self.wave.set_freq_ctrl(value),
            0x78 => self.noise.set_len_env(value),
            0x7C => self.noise.set_ctrl(value),
            0x80 => {
                self.control.soundcnt_l = value & 0xFF77;
            },
            _ => {},
        }
    }

    fn write_mixer(&mut self, value: u16)
        requires
            old(self)@.wf(),
        ensures
            final(self)@ == old(self)@.mixer_written(value),
            final(self)@.wf(),
    {
        // Bits 11 and 15 are write-only FIFO resets.
        self.control.soundcnt_h = value & 0x770F;
        self.dacs.a_timer = (value / 0x400 % 2) as u8;
        self.dacs.b_timer = (value / 0x4000 % 2) as u8;
        if value & 0x800 != 0 {
            self.dsa = DirectSound::new();
            self.dacs.a = 0;
        }
        if value & 0x8000 != 0 {
            self.dsb = DirectSound::new();
            self.dacs.b = 0;
        }
    }

    /// Write a 16-bit sound register. The PSG registers (0x60-0x81) are
    /// ignored while the master enable is off.
    pub fn write16(&mut self, offset: usize, value: u16)
        requires
            old(self)@.wf(),
        ensures
            final(self)@ == old(self)@.after_write16(offset as int, value),
            final(self)@.wf(),
    {
        let lo: u8 = (value % 256) as u8;
        let hi: u8 = (value / 256) as u8;
        if offset >= 0x60 && offset <= 0x81 {
            if self.master_enabled() {
                self.write_psg(offset, value);
            }
        } else if offset >= 0x90 && offset <= 0x9F {
            self.wave.write_ram16(offset - 0x90, value);
        } else {
            match offset {
                0x82 => self.write_mixer(value),
                0x84 => {
                    if value & 0x80 == 0 && self.master_enabled() {
                        self.power_off();
                    }
                    self.control.soundcnt_x = value & 0x80;
                },
                0x88 => {
                    self.control.soundbias = value & 0xC3FE;
                },
                0xA0 | 0xA2 => {
                    self.dsa.push(lo);
                    self.dsa.push(hi);
                },
                0xA4 | 0xA6 => {
                    self.dsb.push(lo);
                    self.dsb.push(hi);
                },
                _ => {},
            }
        }
    }

    /// Clearing SOUNDCNT_X bit 7 resets the PSG channels and their
    /// registers; the FIFOs, SOUNDCNT_H and wave RAM survive.
    fn power_off(&mut self)
        requires
            old(self)@.wf(),
        ensures
            final(self)@ == old(self)@.powered_off(),
            final(self)@.wf(),
    {
        let ram: [u8; 32] = self.wave.ram;
        self.sq1 = Square::new();
        self.sq2 = Square::new();
        self.wave = Wave::new();
        self.wave.ram = ram;
        self.noise = Noise::new();
        self.control.soundcnt_l = 0;
        self.clock.fs = 0;
        self.clock.fs_cycles = 0;
    }

    fn clock_channels(&mut self, cycles: u32)
        requires
            old(self)@.wf(),
            cycles <= 512,
        ensures
            final(self)@ == old(self)@.after_clock(cycles),
            final(self)@.wf(),
    {
        self.sq1.clock(cycles);
        self.sq2.clock(cycles);
        self.wave.clock(cycles);
        self.noise.clock(cycles);
    }

    fn tick_lengths(&mut self)
        requires
            old(self)@.wf(),
        ensures
            final(self)@ == old(self)@.lengths_ticked(),
            final(self)@.wf(),
    {
        self.sq1.length_tick();
        self.sq2.length_tick();
        self.wave.length_tick();
        self.noise.length_tick();
    }

    fn tick_envelopes(&mut self)
        requires
            old(self)@.wf(),
        ensures
            final(self)@ == old(self)@.envelopes_ticked(),
            final(self)@.wf(),
    {
        self.sq1.env.tick();
        self.sq2.env.tick();
        self.noise.env.tick();
    }

    fn tick_sweep(&mut self)
        requires
            old(self)@.wf(),
        ensures
            final(self)@ == (ApuState { sq1: old(self)@.sq1.after_sweep_tick(), ..old(self)@ }),
            final(self)@.wf(),
    {
        self.sq1.sweep_tick();
    }

    fn sequencer_step(&mut self)
        requires
            old(self)@.wf(),
        ensures
            final(self)@ == old(self)@.sequenced(),
            final(self)@.wf(),
    {
        let fs: u8 = self.clock.fs;
        if fs % 2 == 0 {
            self.tick_lengths();
        }
        // Sweep (ch1) at steps 2 and 6, envelopes at step 7.
        if fs == 2 || fs == 6 {
            self.tick_sweep();
        } else if fs == 7 {
            self.tick_envelopes();
        }
    }

    fn run_sequencer(&mut self, run: u32)
        requires
            old(self)@.wf(),
            run <= 512,
        ensures
            final(self)@ == old(self)@.sequencer_run(run),
            final(self)@.wf(),
    {
        let total: u32 = self.clock.fs_cycles + run;
        if total >= CYCLES_PER_SEQUENCER_STEP {
            self.clock.fs_cycles = total - CYCLES_PER_SEQUENCER_STEP;
            self.clock.fs = (self.clock.fs + 1) % 8;
            self.sequencer_step();
        } else {
            self.clock.fs_cycles = total;
        }
    }

    fn run(&mut self, run: u32)
        requires
            old(self)@.wf(),
            1 <= run <= 512 - old(self)@.clock.cycles,
        ensures
            final(self)@ == old(self)@.after_run(run),
            final(self)@.wf(),
    {
        reveal(ApuState::after_run);
        proof {
            lemma_clocked_wf(self@, run);
            lemma_sequenced_wf(self@.after_clock(run), run);
        }
        self.clock_channels(run);
        self.run_sequencer(run);
        let cycles: u32 = self.clock.cycles + run;
        if cycles == CYCLES_PER_SAMPLE {
            self.clock.cycles = 0;
            self.push_sample();
        } else {
            self.clock.cycles = cycles;
        }
    }

    /// Advance the APU by `cycles` CPU cycles: clock the channel timers and
    /// the 512 Hz frame sequencer, emitting one sample every 512 cycles.
    pub fn step(&mut self, cycles: u32)
        requires
            old(self)@.wf(),
        ensures
            final(self)@ == old(self)@.after_step(cycles),
            final(self)@.wf(),
    {
        let mut left: u32 = cycles;
        let ghost mut fuel: nat = cycles as nat;
        while left > 0
            invariant
                self@.wf(),
                fuel >= left,
                self@.after_runs(left, fuel) == old(self)@.after_step(cycles),
            decreases left,
        {
            let room: u32 = CYCLES_PER_SAMPLE - self.clock.cycles;
            let run: u32 = if left < room {
                left
            } else {
                room
            };
            proof {
                fuel = (fuel - 1) as nat;
            }
            self.run(run);
            left = left - run;
        }
    }

    /// Mix one side in the hardware's 10-bit units and apply SOUNDBIAS.
    fn mix_side(&self, left: bool) -> (r: i16)
        requires
            self@.wf(),
            self@.control.enabled(),
        ensures
            r == self@.side(left),
    {
        let l: u16 = self.control.soundcnt_l;
        let h: u16 = self.control.soundcnt_h;
        // Right is SOUNDCNT_L bits 0-2, 8-11 and SOUNDCNT_H bits 8, 12; left
        // is bits 4-6, 12-15 and bits 9, 13.
        let (master, enables, to_a, to_b) = if left {
            (l / 16 % 8, l / 0x1000, h & 0x200 != 0, h & 0x2000 != 0)
        } else {
            (l % 8, l / 0x100 % 16, h & 0x100 != 0, h & 0x1000 != 0)
        };
        let psg: i32 = sum_enabled(
            enables,
            self.sq1.output(),
            self.sq2.output(),
            self.wave.output(),
            self.noise.output(),
        );
        let mut mix: i32 = scale(psg, master as i32, h % 4);
        if to_a {
            mix = mix + self.dacs.a as i32 * (if h & 0x04 != 0 {
                4
            } else {
                2
            });
        }
        if to_b {
            mix = mix + self.dacs.b as i32 * (if h & 0x08 != 0 {
                4
            } else {
                2
            });
        }
        bias(mix, self.control.soundbias)
    }

    /// Mix one stereo sample; a disabled APU is silent.
    fn push_sample(&mut self)
        requires
            old(self)@.wf(),
        ensures
            final(self)@ == old(self)@.sampled(),
            final(self)@.wf(),
    {
        if !self.master_enabled() {
            self.output.push(0, 0);
            return;
        }
        let left: i16 = self.mix_side(true);
        let right: i16 = self.mix_side(false);
        self.output.push(left, right);
    }
}

impl Default for Apu {
    fn default() -> (r: Apu)
        ensures
            r@ == ApuState::initial(),
            r@.wf(),
    {
        Apu::new()
    }
}

/// The APU emits one stereo sample for every 512 cycles, however the cycles
/// are handed over.
pub proof fn law_sample_rate(s: ApuState, cycles: u32, fuel: nat)
    requires
        s.wf(),
        fuel >= cycles,
    ensures
        s.after_runs(cycles, fuel).wf(),
        s.after_runs(cycles, fuel).samples.len() == s.samples.len() + (s.clock.cycles + cycles)
            / 512 * 2,
        s.after_runs(cycles, fuel).clock.cycles == (s.clock.cycles + cycles) % 512,
    decreases fuel,
{
    if cycles > 0 {
        let run = s.next_run(cycles);
        lemma_run(s, run);
        law_sample_rate(s.after_run(run), (cycles - run) as u32, (fuel - 1) as nat);
    }
}

/// Every sample lies within full scale.
pub proof fn law_samples_within_full_scale(s: ApuState, left: bool)
    ensures
        -FULL_SCALE <= s.side(left) < FULL_SCALE,
{
    let mix = s.mixed(left);
    let b = s.control.soundbias;
    crate::bits::and_le_u16(b, 0x3FE);
}

/// While the master enable is off the APU is silent and its PSG registers
/// cannot be written.
pub proof fn law_disabled_apu_is_silent(s: ApuState, left: bool, offset: int, value: u16)
    requires
        !s.control.enabled(),
        0x60 <= offset <= 0x81,
    ensures
        s.side(left) == 0,
        s.after_write16(offset, value) == s,
{
}

/// What is written to wave RAM reads back, and leaves the bank that plays
/// untouched.
pub proof fn law_wave_ram_reads_back(w: Wave, idx: int, value: u16, i: int)
    requires
        w.wf(),
        0 <= idx,
        0 <= i < 16,
    ensures
        w.after_ram_write(idx, value).ram_half(idx) == value,
        w.after_ram_write(idx, value).ram[w.bank * 16 + i] == w.ram[w.bank * 16 + i],
{
}

/// Clearing the master enable silences the PSG channels and forgets their
/// registers; the FIFOs, SOUNDCNT_H and wave RAM survive.
pub proof fn law_power_off(s: ApuState, value: u16)
    requires
        value & 0x80 == 0,
        s.control.enabled(),
    ensures
        ({
            let t = s.after_write16(0x84, value);
            &&& !t.control.enabled()
            &&& t.sq1 == Square::silent()
            &&& t.sq2 == Square::silent()
            &&& t.noise == Noise::silent()
            &&& t.wave == (Wave { ram: s.wave.ram, ..Wave::silent() })
            &&& t.control.soundcnt_l == 0
            &&& t.control.soundcnt_h == s.control.soundcnt_h
            &&& t.dsa == s.dsa
            &&& t.dsb == s.dsb
        }),
{
    assert((value & 0x80) & 0x80 == 0) by (bit_vector)
        requires
            value & 0x80 == 0,
    ;
}

/// The PSG registers ignore writes while the master enable is off.
pub proof fn law_disabled_psg_ignores_writes(s: ApuState, offset: int, value: u16)
    requires
        !s.control.enabled(),
        0x60 <= offset <= 0x81,
    ensures
        s.after_write16(offset, value) == s,
{
}

} // verus!
