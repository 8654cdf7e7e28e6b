//! What the sound channels do over time, told by what their registers hold.

use crate::bits::lemma_half_fields;
use crate::gba::apu::{lfsr_step, ApuState, Envelope, Noise, Square, Wave};
use vstd::prelude::*;

verus! {

/// The envelope `n` clocks on.
pub open spec fn clocked(e: Envelope, n: nat) -> Envelope
    decreases n,
{
    if n == 0 {
        e
    } else {
        clocked(e, (n - 1) as nat).after_tick()
    }
}

/// An envelope set from the high byte of its register and started.
pub open spec fn started(e: Envelope, nr: u8) -> Envelope {
    e.after_set(nr).after_trigger()
}

proof fn lemma_started(e: Envelope, nr: u8)
    ensures
        started(e, nr).volume == nr / 16,
        started(e, nr).up == (nr / 8 % 2 == 1),
        started(e, nr).period == nr % 8,
        started(e, nr).timer == if nr % 8 == 0 {
            8int
        } else {
            nr as int % 8
        },
{
    crate::bits::lemma_byte_fields(nr, 0);
}

proof fn lemma_parameters_stay(e: Envelope, n: nat)
    ensures
        clocked(e, n).up == e.up,
        clocked(e, n).period == e.period,
    decreases n,
{
    if n > 0 {
        lemma_parameters_stay(e, (n - 1) as nat);
    }
}

/// An envelope clock never raises the volume where the direction bit is clear,
/// and never lowers it where the bit is set; it moves it by at most one and keeps
/// it within four bits.
pub proof fn law_envelope_direction(e: Envelope, nr: u8, n: nat)
    ensures
        ({
            let before = clocked(started(e, nr), n).volume;
            let after = clocked(started(e, nr), n + 1).volume;
            &&& nr / 8 % 2 == 0 ==> after <= before <= after + 1
            &&& nr / 8 % 2 == 1 ==> before <= after <= before + 1
            &&& before <= 15
        }),
    decreases n,
{
    lemma_started(e, nr);
    lemma_parameters_stay(started(e, nr), n);
    if n > 0 {
        law_envelope_direction(e, nr, (n - 1) as nat);
    }
}

/// A clock in which the timer has not run out moves the timer alone.
proof fn lemma_waiting(e: Envelope, n: nat)
    requires
        e.period > 0,
        n < e.timer,
    ensures
        clocked(e, n) == (Envelope { timer: (e.timer - n) as u8, ..e }),
    decreases n,
{
    if n > 0 {
        lemma_waiting(e, (n - 1) as nat);
    }
}

proof fn lemma_clocked_twice(e: Envelope, n: nat, k: nat)
    ensures
        clocked(clocked(e, n), k) == clocked(e, n + k),
    decreases k,
{
    if k > 0 {
        lemma_clocked_twice(e, n, (k - 1) as nat);
    }
}

/// With a period `p` above 0 the volume takes its steps every `p` clocks, down to
/// 0 or up to 15: after `p * k` clocks of an envelope that starts at `v` it is
/// `v - k`, or 0, where it decreases, and `v + k`, or 15, where it increases.
#[verifier::rlimit(60)]
pub proof fn law_envelope_course(e: Envelope, nr: u8, k: nat)
    requires
        nr % 8 > 0,
    ensures
        ({
            let v = nr as int / 16;
            let c = clocked(started(e, nr), ((nr % 8) * k) as nat);
            &&& nr / 8 % 2 == 0 ==> c.volume == if k <= v {
                v - k
            } else {
                0
            }
            &&& nr / 8 % 2 == 1 ==> c.volume == if k <= 15 - v {
                v + k
            } else {
                15
            }
            &&& c.timer == nr % 8
        }),
    decreases k,
{
    lemma_started(e, nr);
    let start = started(e, nr);
    let p = nr as nat % 8;
    if k > 0 {
        let j = (k - 1) as nat;
        law_envelope_course(e, nr, j);
        let n = (p * j) as nat;
        assert(p * k == n + p) by (nonlinear_arith)
            requires
                n == p * j,
                k == j + 1,
        ;
        let c = clocked(start, n);
        lemma_parameters_stay(start, n);
        lemma_waiting(c, (p - 1) as nat);
        lemma_clocked_twice(start, n, (p - 1) as nat);
        assert(clocked(start, n + p) == clocked(start, (n + p - 1) as nat).after_tick());
    } else {
        assert(p * k == 0) by (nonlinear_arith)
            requires
                k == 0,
        ;
    }
}

/// An envelope with the period 0 holds its volume.
pub proof fn law_envelope_held(e: Envelope, nr: u8, n: nat)
    requires
        nr % 8 == 0,
    ensures
        clocked(started(e, nr), n).volume == nr / 16,
    decreases n,
{
    lemma_started(e, nr);
    if n > 0 {
        lemma_parameters_stay(started(e, nr), (n - 1) as nat);
        law_envelope_held(e, nr, (n - 1) as nat);
    }
}

/// `n` clocks of the length counter of a square channel.
pub open spec fn counted(s: Square, n: nat) -> Square
    decreases n,
{
    if n == 0 {
        s
    } else {
        counted(s, (n - 1) as nat).after_length_tick()
    }
}

/// A square channel with an enabled counter sounds for as many length clocks as
/// its length and then falls silent; with the counter disabled it sounds on.
pub proof fn law_square_length(s: Square, n: nat)
    requires
        s.length > 0,
    ensures
        s.length_enable ==> counted(s, n).on == (s.on && n < s.length),
        s.length_enable ==> counted(s, n).length == if n < s.length {
            s.length - n
        } else {
            0
        },
        !s.length_enable ==> counted(s, n) == s,
        counted(s, n).length_enable == s.length_enable,
    decreases n,
{
    if n > 0 {
        law_square_length(s, (n - 1) as nat);
    }
}

/// `n` clocks of the length counter of the wave channel.
pub open spec fn counted_wave(s: Wave, n: nat) -> Wave
    decreases n,
{
    if n == 0 {
        s
    } else {
        counted_wave(s, (n - 1) as nat).after_length_tick()
    }
}

/// The length counter of the wave channel, as that of the square channels.
pub proof fn law_wave_length(s: Wave, n: nat)
    requires
        s.length > 0,
    ensures
        s.length_enable ==> counted_wave(s, n).on == (s.on && n < s.length),
        s.length_enable ==> counted_wave(s, n).length == if n < s.length {
            s.length - n
        } else {
            0
        },
        !s.length_enable ==> counted_wave(s, n) == s,
        counted_wave(s, n).length_enable == s.length_enable,
    decreases n,
{
    if n > 0 {
        law_wave_length(s, (n - 1) as nat);
    }
}

/// `n` clocks of the length counter of the noise channel.
pub open spec fn counted_noise(s: Noise, n: nat) -> Noise
    decreases n,
{
    if n == 0 {
        s
    } else {
        counted_noise(s, (n - 1) as nat).after_length_tick()
    }
}

/// The length counter of the noise channel, as that of the square channels.
pub proof fn law_noise_length(s: Noise, n: nat)
    requires
        s.length > 0,
    ensures
        s.length_enable ==> counted_noise(s, n).on == (s.on && n < s.length),
        s.length_enable ==> counted_noise(s, n).length == if n < s.length {
            s.length - n
        } else {
            0
        },
        !s.length_enable ==> counted_noise(s, n) == s,
        counted_noise(s, n).length_enable == s.length_enable,
    decreases n,
{
    if n > 0 {
        law_noise_length(s, (n - 1) as nat);
    }
}

/// A square channel that sounds gives its volume in the high steps of its duty
/// and minus its volume in the low ones: one, two, three or six of the eight are
/// high, the last one always, and the others around it. One that is off gives 0.
pub proof fn law_duty(s: Square)
    requires
        s.wf(),
    ensures
        !s.on ==> s.level() == 0,
        s.on ==> s.level() == if s.phase == 7 || s.duty >= 1 && s.phase == 0 || s.duty >= 2
            && s.phase == 6 || s.duty == 3 && s.phase <= 3 {
            s.env.volume as int
        } else {
            -(s.env.volume as int)
        },
{
}

/// A square channel moves one of its eight steps on every `16 * (2048 - f)` CPU
/// cycles: after the cycles that its timer still counts, and again after each
/// whole period.
pub proof fn law_square_period(s: Square, cycles: u32)
    requires
        s.wf(),
        s.freq_timer + cycles < 0x1_0000_0000,
    ensures
        ({
            let p = 16 * (2048 - s.freq);
            let r = s.after_clock(cycles);
            &&& cycles < s.freq_timer ==> r.phase == s.phase && r.freq_timer == s.freq_timer
                - cycles
            &&& cycles == s.freq_timer ==> r.phase == (s.phase + 1) % 8 && r.freq_timer == p
            &&& cycles == s.freq_timer + p ==> r.phase == (s.phase + 2) % 8 && r.freq_timer == p
            &&& r == (Square { phase: r.phase, freq_timer: r.freq_timer, ..s })
        }),
{
    let p = 16 * (2048 - s.freq);
    assert(0int / p == 0 && 0int % p == 0 && p / p == 1 && p % p == 0) by (nonlinear_arith)
        requires
            p > 0,
    ;
}

/// The part of the frequency by which the sweep moves it.
pub open spec fn sweep_part(freq: int, shift: int) -> int {
    if shift == 0 {
        freq
    } else if shift == 1 {
        freq / 2
    } else if shift == 2 {
        freq / 4
    } else if shift == 3 {
        freq / 8
    } else if shift == 4 {
        freq / 16
    } else if shift == 5 {
        freq / 32
    } else if shift == 6 {
        freq / 64
    } else {
        freq / 128
    }
}

/// The sweep moves the frequency up, or down where it negates, by the frequency
/// over two to the shift. A frequency above 2047 silences the channel.
pub proof fn law_sweep(s: Square, load: bool)
    requires
        s.wf(),
    ensures
        ({
            let part = sweep_part(s.freq as int, s.sweep_shift as int);
            let new = if s.sweep_negate {
                s.freq - part
            } else {
                s.freq + part
            };
            let r = s.after_sweep_step(load);
            &&& r.on == (s.on && new <= 2047)
            &&& r.freq == if load && new <= 2047 {
                new
            } else {
                s.freq as int
            }
            &&& r == (Square { on: r.on, freq: r.freq, ..s })
        }),
{
    crate::gb::sound::lemma_shifts(0, s.freq, s.sweep_shift);
}

/// The wave channel plays the halves of its bytes in order, the upper half of a
/// byte first: 32 from its bank, or 64 from its bank on. Its volume is a whole, a
/// half, a quarter or, if forced, three quarters of the sample, and its level
/// twice that less 15; 0 while it is off.
#[verifier::rlimit(60)]
pub proof fn law_wave_level(w: Wave)
    requires
        w.wf(),
    ensures
        ({
            let at = if w.dimension {
                (32 * w.bank + w.pos) % 64
            } else {
                32 * w.bank + w.pos % 32
            };
            let byte = w.ram[at / 2] as int;
            let sample = if at % 2 == 0 {
                byte / 16
            } else {
                byte % 16
            };
            let level = w.level();
            &&& !w.on ==> level == 0
            &&& w.on && w.force75 ==> (level + 15) / 2 == sample * 3 / 4
            &&& w.on && !w.force75 && w.volume == 0 ==> level == -15
            &&& w.on && !w.force75 && w.volume == 1 ==> level == 2 * sample - 15
            &&& w.on && !w.force75 && w.volume == 2 ==> level == 2 * (sample / 2) - 15
            &&& w.on && !w.force75 && w.volume == 3 ==> level == 2 * (sample / 4) - 15
        }),
{
}

/// The noise register moves one bit down; the sum modulo 2 of its two lowest bits
/// enters at bit 14, and in the short mode at bit 6 too.
pub proof fn law_noise_step(w: u16, short: bool, i: u16)
    requires
        w < 0x8000,
        i < 15,
    ensures
        crate::gb::sound::noise_bit(lfsr_step(w, short), i) == if i == 14 || short && i == 6 {
            crate::gb::sound::noise_bit(w, 0) != crate::gb::sound::noise_bit(w, 1)
        } else {
            crate::gb::sound::noise_bit(w, (i + 1) as u16)
        },
{
    crate::gb::sound::law_noise_step(w, short, i);
    crate::gb::sound::lemma_noise_mask();
}

/// The noise register moves every 32, or 64 times the divisor, CPU cycles, doubled
/// as often as the shift says; each shift doubles the period.
pub proof fn law_noise_period(n: Noise, faster: Noise)
    requires
        n.wf(),
        n.shift < 14,
        faster.divisor == n.divisor,
        n.shift > 0 ==> faster.shift == n.shift - 1,
    ensures
        n.shift == 0 ==> n.step_cycles() == if n.divisor == 0 {
            32
        } else {
            64 * n.divisor
        },
        n.shift > 0 ==> n.step_cycles() == 2 * faster.step_cycles(),
{
    let d = if n.divisor == 0 {
        32int
    } else {
        64 * n.divisor
    };
    if n.shift > 0 {
        let (a, b) = (crate::gba::apu::two_to(n.shift), crate::gba::apu::two_to(faster.shift));
        assert(a == 2 * b);
        assert(d * a == 2 * (d * b) && 0 <= d * b <= 448 * 4096) by (nonlinear_arith)
            requires
                a == 2 * b,
                0 <= d <= 448,
                0 <= b <= 4096,
        ;
    }
}

/// The noise channel gives its volume where the lowest bit of its register is
/// clear, minus its volume where it is set, and 0 while it is off.
pub proof fn law_noise_level(n: Noise)
    ensures
        n.level() == if !n.on {
            0
        } else if n.lfsr % 2 == 0 {
            n.env.volume as int
        } else {
            -(n.env.volume as int)
        },
{
    lemma_half_fields(n.lfsr);
}

/// What a bit of a register lets through.
pub open spec fn passed(control: u16, weight: int, level: int) -> int {
    if control as int / weight % 2 == 1 {
        level
    } else {
        0
    }
}

/// Channels 1 to 4 go to the left by bits 12 to 15 of SOUNDCNT_L and to the right
/// by bits 8 to 11, at the volume of its bits 4 to 6 and 0 to 2, and at a quarter,
/// a half or the whole as SOUNDCNT_H says. To them are added the two DACs, left by
/// bits 9 and 13 of SOUNDCNT_H and right by bits 8 and 12, doubled or by its bits
/// 2 and 3 fourfold.
#[verifier::rlimit(60)]
pub proof fn law_mixer(apu: ApuState, left: bool)
    ensures
        ({
            let (l, h) = (apu.control.soundcnt_l, apu.control.soundcnt_h);
            let (s1, s2) = (apu.sq1.level(), apu.sq2.level());
            let (s3, s4) = (apu.wave.level(), apu.noise.level());
            let sum = if left {
                passed(l, 0x1000, s1) + passed(l, 0x2000, s2) + passed(l, 0x4000, s3) + passed(
                    l,
                    0x8000,
                    s4,
                )
            } else {
                passed(l, 0x100, s1) + passed(l, 0x200, s2) + passed(l, 0x400, s3) + passed(
                    l,
                    0x800,
                    s4,
                )
            };
            let volume = if left {
                l as int / 16 % 8
            } else {
                l as int % 8
            };
            let psg = if h % 4 == 0 {
                sum * volume / 4
            } else if h % 4 == 1 {
                sum * volume / 2
            } else {
                sum * volume
            };
            let a = apu.dacs.a * if h / 4 % 2 == 1 {
                4int
            } else {
                2
            };
            let b = apu.dacs.b * if h / 8 % 2 == 1 {
                4int
            } else {
                2
            };
            apu.mixed(left) == psg + passed(
                h,
                if left {
                    0x200
                } else {
                    0x100
                },
                a,
            ) + passed(
                h,
                if left {
                    0x2000
                } else {
                    0x1000
                },
                b,
            )
        }),
{
    lemma_half_fields(apu.control.soundcnt_h);
    let l = apu.control.soundcnt_l as int;
    assert(l / 0x1000 / 2 == l / 0x2000 && l / 0x1000 / 4 == l / 0x4000 && l / 0x1000 / 8 == l
        / 0x8000);
    lemma_nibble(l / 0x100);
    assert(l / 0x100 / 2 == l / 0x200 && l / 0x100 / 4 == l / 0x400 && l / 0x100 / 8 == l / 0x800);
}

proof fn lemma_nibble(n: int)
    requires
        0 <= n < 256,
    ensures
        n % 16 % 2 == n % 2,
        n % 16 / 2 % 2 == n / 2 % 2,
        n % 16 / 4 % 2 == n / 4 % 2,
        n % 16 / 8 % 2 == n / 8 % 2,
{
    let (q, r) = (n / 16, n % 16);
    assert(n == 16 * q + r);
    assert(n / 2 == 8 * q + r / 2);
    assert(n / 4 == 4 * q + r / 4);
    assert(n / 8 == 2 * q + r / 8);
}

/// Each side is its mix around the bias, held within ten bits, rounded down to
/// steps of 2, 4, 8 or 16 by the resolution, with the middle at 0; 0 while sound is
/// disabled.
#[verifier::rlimit(60)]
pub proof fn law_output(apu: ApuState, left: bool)
    ensures
        apu.control.soundcnt_x / 0x80 % 2 == 0 ==> apu.side(left) == 0,
        apu.control.soundcnt_x / 0x80 % 2 == 1 ==> ({
            let v = apu.mixed(left) + (apu.control.soundbias & 0x3FE);
            let held = if v < 0 {
                0
            } else if v > 1023 {
                1023
            } else {
                v
            };
            let n = apu.control.soundbias as int / 0x4000;
            let step = if n == 0 {
                2int
            } else if n == 1 {
                4
            } else if n == 2 {
                8
            } else {
                16
            };
            let out = apu.side(left) + 0x200;
            out <= held < out + step && out % step == 0
        }),
{
    lemma_half_fields(apu.control.soundcnt_x);
    let v = apu.mixed(left) + (apu.control.soundbias & 0x3FE);
    let held = if v < 0 {
        0
    } else if v > 1023 {
        1023
    } else {
        v
    };
    lemma_rounded(held);
}

proof fn lemma_rounded(c: int)
    requires
        0 <= c < 1024,
    ensures
        0 <= c - c % 2 && (c - c % 2) % 2 == 0 && c % 2 < 2,
        0 <= c - c % 4 && (c - c % 4) % 4 == 0 && c % 4 < 4,
        0 <= c - c % 8 && (c - c % 8) % 8 == 0 && c % 8 < 8,
        0 <= c - c % 16 && (c - c % 16) % 16 == 0 && c % 16 < 16,
{
}

/// Writing the registers of channel 1 or 2 sets length, duty and envelope, and its
/// frequency; with bit 15 of the latter the channel starts: with its first volume,
/// at its first step, and with a full length if that had run out. It sounds unless
/// its volume and direction are 0.
#[verifier::rlimit(60)]
pub proof fn law_square_registers(s: Square, value: u16)
    ensures
        ({
            let r = s.after_len_duty_env(value);
            &&& r.length == 64 - value % 64
            &&& r.duty == value / 64 % 4
            &&& r.env.initial == value / 0x1000
            &&& r.env.up == (value / 0x800 % 2 == 1)
            &&& r.env.period == value / 0x100 % 8
            &&& r.env.volume == s.env.volume
        }),
        ({
            let r = s.after_freq_ctrl(value, false);
            &&& r.freq == value % 2048
            &&& r.length_enable == (value / 0x4000 % 2 == 1)
            &&& value < 0x8000 ==> r.on == s.on && r.length == s.length && r.env == s.env
            &&& value >= 0x8000 ==> {
                &&& r.on == (s.env.initial != 0 || s.env.up)
                &&& r.phase == 0
                &&& r.freq_timer == 16 * (2048 - value % 2048)
                &&& r.env.volume == s.env.initial
                &&& r.length == if s.length == 0 {
                    64
                } else {
                    s.length
                }
            }
        }),
        ({
            let r = s.after_sweep_write(value);
            r.sweep_shift == value % 8 && r.sweep_negate == (value / 8 % 2 == 1) && r.sweep_period
                == value / 16 % 8
        }),
{
    lemma_half_fields(value);
    let hi = (value / 256) as u8;
    crate::bits::lemma_byte_fields(hi, 0);
    assert(value / 256 / 16 == value / 0x1000 && value / 256 / 8 == value / 0x800);
}

/// Each step of the frame sequencer: the even ones clock the lengths, the third and
/// the seventh also the sweep of channel 1, and the last one the envelopes.
pub proof fn law_frame_step(apu: ApuState)
    requires
        apu.clock.fs < 8,
    ensures
        ({
            let n = apu.clock.fs;
            let r = apu.sequenced();
            &&& n % 2 == 0 ==> r.sq2 == apu.sq2.after_length_tick() && r.wave
                == apu.wave.after_length_tick() && r.noise == apu.noise.after_length_tick()
            &&& n == 0 || n == 4 ==> r.sq1 == apu.sq1.after_length_tick()
            &&& n == 2 || n == 6 ==> r.sq1 == apu.sq1.after_length_tick().after_sweep_tick()
            &&& n == 7 ==> r.sq1.env == apu.sq1.env.after_tick() && r.sq2.env
                == apu.sq2.env.after_tick() && r.noise.env == apu.noise.env.after_tick() && r.wave
                == apu.wave
            &&& n == 1 || n == 3 || n == 5 ==> r == apu
        }),
{
}

/// A sweep clock counts its timer down to its end; then it starts again, with 8
/// for a period of 0, and with another period the frequency moves and the next
/// move is tried for overflow.
pub proof fn law_sweep_clock(s: Square)
    requires
        s.wf(),
    ensures
        !s.sweep_enabled ==> s.after_sweep_tick() == s,
        s.sweep_enabled && s.sweep_timer > 1 ==> s.after_sweep_tick() == (Square {
            sweep_timer: (s.sweep_timer - 1) as u8,
            ..s
        }),
        s.sweep_enabled && s.sweep_timer <= 1 ==> s.after_sweep_tick().sweep_timer
            == if s.sweep_period == 0 {
            8
        } else {
            s.sweep_period
        },
        s.sweep_enabled && s.sweep_timer <= 1 && s.sweep_period > 0 ==> ({
            let r = s.after_sweep_tick();
            let once = s.after_sweep_step(true);
            r.freq == once.freq && r.on == (once.on && once.after_sweep_step(false).on)
        }),
        s.sweep_enabled && s.sweep_period == 0 ==> s.after_sweep_tick().freq == s.freq,
{
}

/// The registers of the wave channel: bit 5 of the first joins the banks, bit 6
/// selects one, bit 7 powers the channel; the second holds 256 less the length and
/// the volume; the third the frequency, whether the length counts, and with bit 15
/// starts the channel at its first sample.
pub proof fn law_wave_registers(w: Wave, value: u16)
    ensures
        ({
            let r = w.after_ctrl_l(value);
            &&& r.dimension == (value / 32 % 2 == 1)
            &&& r.bank == value / 64 % 2
            &&& r.dac_on == (value / 128 % 2 == 1)
            &&& r.on == (w.on && value / 128 % 2 == 1)
        }),
        ({
            let r = w.after_len_vol(value);
            &&& r.length == 256 - value % 256
            &&& r.volume == value / 0x2000 % 4
            &&& r.force75 == (value >= 0x8000)
        }),
        ({
            let r = w.after_freq_ctrl(value);
            &&& r.freq == value % 2048
            &&& r.length_enable == (value / 0x4000 % 2 == 1)
            &&& value < 0x8000 ==> r.on == w.on && r.pos == w.pos && r.length == w.length
            &&& value >= 0x8000 ==> {
                &&& r.on == w.dac_on
                &&& r.pos == 0
                &&& r.freq_timer == 8 * (2048 - value % 2048)
                &&& r.length == if w.length == 0 {
                    256
                } else {
                    w.length
                }
            }
        }),
{
    lemma_half_fields(value);
}

/// The registers of the noise channel: length and envelope in the first; in the
/// second the divisor, the short mode in bit 3, the shift in bits 4 to 7, whether
/// the length counts, and with bit 15 a start with every bit of the register set.
pub proof fn law_noise_registers(n: Noise, value: u16)
    ensures
        ({
            let r = n.after_len_env(value);
            &&& r.length == 64 - value % 64
            &&& r.env.initial == value / 0x1000
            &&& r.env.up == (value / 0x800 % 2 == 1)
            &&& r.env.period == value / 0x100 % 8
        }),
        ({
            let r = n.after_ctrl(value);
            &&& r.divisor == value % 8
            &&& r.width == (value / 8 % 2 == 1)
            &&& r.shift == value / 16 % 16
            &&& r.length_enable == (value / 0x4000 % 2 == 1)
            &&& value < 0x8000 ==> r.on == n.on && r.lfsr == n.lfsr && r.length == n.length
            &&& value >= 0x8000 ==> {
                &&& r.on == (n.env.initial != 0 || n.env.up)
                &&& r.lfsr == 0x7FFF
                &&& r.env.volume == n.env.initial
                &&& r.length == if n.length == 0 {
                    64
                } else {
                    n.length
                }
            }
        }),
{
    lemma_half_fields(value);
    let hi = (value / 256) as u8;
    crate::bits::lemma_byte_fields(hi, 0);
    assert(value / 256 / 16 == value / 0x1000 && value / 256 / 8 == value / 0x800);
}

/// The wave channel moves one sample on every `8 * (2048 - f)` CPU cycles, and
/// around after 32 or 64.
pub proof fn law_wave_period(w: Wave, cycles: u32)
    requires
        w.wf(),
        w.freq_timer + cycles < 0x1_0000_0000,
    ensures
        ({
            let p = 8 * (2048 - w.freq);
            let n: int = if w.dimension {
                64
            } else {
                32
            };
            let r = w.after_clock(cycles);
            &&& cycles < w.freq_timer ==> r.pos == w.pos as int % n && r.freq_timer == w.freq_timer
                - cycles
            &&& cycles == w.freq_timer ==> r.pos == (w.pos + 1) % n && r.freq_timer == p
            &&& cycles == w.freq_timer + p ==> r.pos == (w.pos + 2) % n && r.freq_timer == p
        }),
{
    let p = 8 * (2048 - w.freq);
    assert(0int / p == 0 && 0int % p == 0 && p / p == 1 && p % p == 0) by (nonlinear_arith)
        requires
            p > 0,
    ;
}

/// Where each sound register goes while sound is enabled.
pub proof fn law_register_map(apu: ApuState, value: u16)
    requires
        apu.control.soundcnt_x / 0x80 % 2 == 1,
    ensures
        apu.after_write16(0x60, value).sq1 == apu.sq1.after_sweep_write(value),
        apu.after_write16(0x62, value).sq1 == apu.sq1.after_len_duty_env(value),
        apu.after_write16(0x64, value).sq1 == apu.sq1.after_freq_ctrl(value, true),
        apu.after_write16(0x68, value).sq2 == apu.sq2.after_len_duty_env(value),
        apu.after_write16(0x6C, value).sq2 == apu.sq2.after_freq_ctrl(value, false),
        apu.after_write16(0x70, value).wave == apu.wave.after_ctrl_l(value),
        apu.after_write16(0x72, value).wave == apu.wave.after_len_vol(value),
        apu.after_write16(0x74, value).wave == apu.wave.after_freq_ctrl(value),
        apu.after_write16(0x78, value).noise == apu.noise.after_len_env(value),
        apu.after_write16(0x7C, value).noise == apu.noise.after_ctrl(value),
{
    lemma_half_fields(apu.control.soundcnt_x);
}

} // verus!
