//! What the sound channels do over time, told by what their registers hold.

use crate::bits::lemma_byte_fields;
use crate::gb::apu::{freq_of, ApuState, Envelope, Noise, Square, Wave};
use crate::gb::timer::IoRegs;
use vstd::prelude::*;

verus! {

/// Shifts by a register's field, as divisions and products.
pub proof fn lemma_shifts(x: u8, w: u16, s: u8)
    requires
        s < 8,
    ensures
        s == 0 ==> w >> s == w,
        s == 1 ==> w >> s == w / 2,
        s == 2 ==> w >> s == w / 4,
        s == 3 ==> w >> s == w / 8,
        s == 4 ==> w >> s == w / 16,
        s == 5 ==> w >> s == w / 32,
        s == 6 ==> w >> s == w / 64,
        s == 7 ==> w >> s == w / 128,
        s == 0 ==> x >> s == x,
        s == 1 ==> x >> s == x / 2,
        s == 2 ==> x >> s == x / 4,
        s == 0 ==> 8u32 << s == 8,
        s == 1 ==> 8u32 << s == 16,
        s == 2 ==> 8u32 << s == 32,
        s == 3 ==> 8u32 << s == 64,
        s == 4 ==> 8u32 << s == 128,
        s == 5 ==> 8u32 << s == 256,
        s == 6 ==> 8u32 << s == 512,
        s == 7 ==> 8u32 << s == 1024,
        s == 0 && x < 16 ==> ((x as u32) << 4) << s == x * 16,
        s == 1 && x < 16 ==> ((x as u32) << 4) << s == x * 32,
        s == 2 && x < 16 ==> ((x as u32) << 4) << s == x * 64,
        s == 3 && x < 16 ==> ((x as u32) << 4) << s == x * 128,
        s == 4 && x < 16 ==> ((x as u32) << 4) << s == x * 256,
        s == 5 && x < 16 ==> ((x as u32) << 4) << s == x * 512,
        s == 6 && x < 16 ==> ((x as u32) << 4) << s == x * 1024,
        s == 7 && x < 16 ==> ((x as u32) << 4) << s == x * 2048,
{
    assert((s == 0 ==> w >> s == w) && (s == 1 ==> w >> s == w / 2) && (s == 2 ==> w >> s == w / 4) && (s == 3 ==> w >> s == w / 8) && (s == 4 ==> w >> s == w / 16) && (s == 5 ==> w >> s == w / 32) && (s == 6 ==> w >> s == w / 64) && (s == 7 ==> w >> s == w / 128) && (s == 0 ==> x >> s == x) && (s == 1 ==> x >> s == x / 2) && (s == 2 ==> x >> s == x / 4) && (s == 0 ==> 8u32 << s == 8) && (s == 1 ==> 8u32 << s == 16) && (s == 2 ==> 8u32 << s == 32) && (s == 3 ==> 8u32 << s == 64) && (s == 4 ==> 8u32 << s == 128) && (s == 5 ==> 8u32 << s == 256) && (s == 6 ==> 8u32 << s == 512) && (s == 7 ==> 8u32 << s == 1024) && (s == 0 && x < 16 ==> ((x as u32) << 4) << s == x * 16) && (s == 1 && x < 16 ==> ((x as u32) << 4) << s == x * 32) && (s == 2 && x < 16 ==> ((x as u32) << 4) << s == x * 64) && (s == 3 && x < 16 ==> ((x as u32) << 4) << s == x * 128) && (s == 4 && x < 16 ==> ((x as u32) << 4) << s == x * 256) && (s == 5 && x < 16 ==> ((x as u32) << 4) << s == x * 512) && (s == 6 && x < 16 ==> ((x as u32) << 4) << s == x * 1024) && (s == 7 && x < 16 ==> ((x as u32) << 4) << s == x * 2048)) by (bit_vector)
        requires
            s < 8,
    ;
}

/// The bits of the noise register one step on.
pub proof fn lemma_noise_bits(w: u16, i: u16, j: u16)
    by (bit_vector)
    requires
        i < 15,
        j < 15,
    ensures
        i == 14 && w < 0x8000 ==> ((((w >> 1) | (((w & 1) ^ ((w >> 1) & 1)) << 14)) >> i) & 1 == 1) == (((w >> 0) & 1 == 1) != ((w >> 1) & 1 == 1)),
        j == i + 1 ==> ((((w >> 1) | (((w & 1) ^ ((w >> 1) & 1)) << 14)) >> i) & 1 == 1) == ((w >> j) & 1 == 1),
        i == 6 ==> ((((((w >> 1) | (((w & 1) ^ ((w >> 1) & 1)) << 14)) & !0x40u16) | (((w & 1) ^ ((w >> 1) & 1)) << 6)) >> i) & 1 == 1) == (((w >> 0) & 1 == 1) != ((w >> 1) & 1 == 1)),
        i != 6 ==> (((((w >> 1) | (((w & 1) ^ ((w >> 1) & 1)) << 14)) & !0x40u16) | (((w & 1) ^ ((w >> 1) & 1)) << 6)) >> i) & 1 == (((w >> 1) | (((w & 1) ^ ((w >> 1) & 1)) << 14)) >> i) & 1,
        w < 0x8000 ==> ((w >> 1) | (((w & 1) ^ ((w >> 1) & 1)) << 14)) < 0x8000 && ((((w >> 1) | (((w & 1) ^ ((w >> 1) & 1)) << 14)) & !0x40u16) | (((w & 1) ^ ((w >> 1) & 1)) << 6)) < 0x8000,
        !0x40u16 == 0xFFBFu16,
{
}

/// The envelope `n` clocks on.
pub open spec fn clocked(e: Envelope, n: nat) -> Envelope
    decreases n,
{
    if n == 0 {
        e
    } else {
        clocked(e, (n - 1) as nat).after_tick()
    }
}

proof fn lemma_loaded(e: Envelope, nr: u8)
    ensures
        e.after_reload(nr).volume == nr / 16,
        e.after_reload(nr).up == (nr / 8 % 2 == 1),
        e.after_reload(nr).period == nr % 8,
        e.after_reload(nr).timer == nr % 8,
{
    lemma_byte_fields(nr, 0);
}

proof fn lemma_parameters_stay(e: Envelope, n: nat)
    ensures
        clocked(e, n).up == e.up,
        clocked(e, n).period == e.period,
    decreases n,
{
    reveal(Envelope::after_tick);
    if n > 0 {
        lemma_parameters_stay(e, (n - 1) as nat);
    }
}

/// An envelope clock never raises the volume where bit 3 of the register is
/// clear, and never lowers it where the bit is set; it moves it by at most one
/// and keeps it within four bits.
pub proof fn law_envelope_direction(e: Envelope, nr: u8, n: nat)
    ensures
        ({
            let before = clocked(e.after_reload(nr), n).volume;
            let after = clocked(e.after_reload(nr), n + 1).volume;
            &&& nr / 8 % 2 == 0 ==> after <= before <= after + 1
            &&& nr / 8 % 2 == 1 ==> before <= after <= before + 1
            &&& before <= 15
        }),
    decreases n,
{
    reveal(Envelope::after_tick);
    lemma_loaded(e, nr);
    lemma_parameters_stay(e.after_reload(nr), n);
    if n > 0 {
        law_envelope_direction(e, nr, (n - 1) as nat);
    }
}

/// A clock in which the timer has not run out moves the timer alone.
proof fn lemma_waiting(e: Envelope, n: nat)
    requires
        e.period > 0,
        n <= e.timer,
    ensures
        clocked(e, n) == (Envelope { timer: (e.timer - n) as u8, ..e }),
    decreases n,
{
    reveal(Envelope::after_tick);
    if n > 0 {
        lemma_waiting(e, (n - 1) as nat);
    }
}

proof fn lemma_clocked_twice(e: Envelope, n: nat, k: nat)
    ensures
        clocked(clocked(e, n), k) == clocked(e, n + k),
    decreases k,
{
    if k > 0 {
        lemma_clocked_twice(e, n, (k - 1) as nat);
    }
}

/// With a period `p` above 0 the volume takes its steps every `p + 1` clocks,
/// down to 0 or up to 15: after `(p + 1) * k` clocks of an envelope that starts
/// at `v` it is `v - k`, or 0, where it decreases, and `v + k`, or 15, where it
/// increases. So a decreasing one is silent after `(p + 1) * v` clocks and an
/// increasing one full after `(p + 1) * (15 - v)`, and both stay so.
#[verifier::rlimit(60)]
pub proof fn law_envelope_course(e: Envelope, nr: u8, k: nat)
    requires
        nr % 8 > 0,
    ensures
        ({
            let v = nr as int / 16;
            let c = clocked(e.after_reload(nr), ((nr % 8 + 1) * k) as nat);
            &&& nr / 8 % 2 == 0 ==> c.volume == if k <= v {
                v - k
            } else {
                0
            }
            &&& nr / 8 % 2 == 1 ==> c.volume == if k <= 15 - v {
                v + k
            } else {
                15
            }
            &&& c.timer == nr % 8
        }),
    decreases k,
{
    lemma_loaded(e, nr);
    let start = e.after_reload(nr);
    let p = nr as nat % 8;
    if k > 0 {
        let j = (k - 1) as nat;
        law_envelope_course(e, nr, j);
        let n = ((p + 1) * j) as nat;
        assert((p + 1) * k == n + p + 1) by (nonlinear_arith)
            requires
                n == (p + 1) * j,
                k == j + 1,
        ;
        let c = clocked(start, n);
        lemma_parameters_stay(start, n);
        lemma_waiting(c, p);
        lemma_clocked_twice(start, n, p);
        lemma_clocked_twice(start, n, p + 1);
        assert(clocked(start, n + p + 1) == clocked(start, n + p).after_tick());
        reveal(Envelope::after_tick);
    } else {
        assert((p + 1) * k == 0) by (nonlinear_arith)
            requires
                k == 0,
        ;
    }
}

/// An envelope with the period 0 holds its volume.
pub proof fn law_envelope_held(e: Envelope, nr: u8, n: nat)
    requires
        nr % 8 == 0,
    ensures
        clocked(e.after_reload(nr), n).volume == nr / 16,
    decreases n,
{
    lemma_loaded(e, nr);
    lemma_parameters_stay(e.after_reload(nr), n);
    reveal(Envelope::after_tick);
    if n > 0 {
        lemma_parameters_stay(e.after_reload(nr), (n - 1) as nat);
        law_envelope_held(e, nr, (n - 1) as nat);
    }
}

/// `n` clocks of the length counter of a square channel.
pub open spec fn counted(s: Square, n: nat) -> Square
    decreases n,
{
    if n == 0 {
        s
    } else {
        counted(s, (n - 1) as nat).after_length()
    }
}

/// A square channel whose length is `64 - t`, as NRx1 with `t` in its low six bits
/// sets it, and whose counter is enabled sounds for that many length clocks and
/// then falls silent; with the counter disabled it sounds on.
pub proof fn law_square_length(s: Square, n: nat)
    requires
        s.length > 0,
    ensures
        s.length_enable ==> counted(s, n).on == (s.on && n < s.length),
        s.length_enable ==> counted(s, n).length == if n < s.length {
            s.length - n
        } else {
            0
        },
        !s.length_enable ==> counted(s, n) == s,
        counted(s, n).length_enable == s.length_enable,
    decreases n,
{
    if n > 0 {
        law_square_length(s, (n - 1) as nat);
    }
}

/// `n` clocks of the length counter of the wave channel.
pub open spec fn counted_wave(s: Wave, n: nat) -> Wave
    decreases n,
{
    if n == 0 {
        s
    } else {
        counted_wave(s, (n - 1) as nat).after_length()
    }
}

/// The length counter of the wave channel, as that of the square channels.
pub proof fn law_wave_length(s: Wave, n: nat)
    requires
        s.length > 0,
    ensures
        s.length_enable ==> counted_wave(s, n).on == (s.on && n < s.length),
        s.length_enable ==> counted_wave(s, n).length == if n < s.length {
            s.length - n
        } else {
            0
        },
        !s.length_enable ==> counted_wave(s, n) == s,
        counted_wave(s, n).length_enable == s.length_enable,
    decreases n,
{
    if n > 0 {
        law_wave_length(s, (n - 1) as nat);
    }
}

/// `n` clocks of the length counter of the noise channel.
pub open spec fn counted_noise(s: Noise, n: nat) -> Noise
    decreases n,
{
    if n == 0 {
        s
    } else {
        counted_noise(s, (n - 1) as nat).after_length()
    }
}

/// The length counter of the noise channel, as that of the square channels.
pub proof fn law_noise_length(s: Noise, n: nat)
    requires
        s.length > 0,
    ensures
        s.length_enable ==> counted_noise(s, n).on == (s.on && n < s.length),
        s.length_enable ==> counted_noise(s, n).length == if n < s.length {
            s.length - n
        } else {
            0
        },
        !s.length_enable ==> counted_noise(s, n) == s,
        counted_noise(s, n).length_enable == s.length_enable,
    decreases n,
{
    if n > 0 {
        law_noise_length(s, (n - 1) as nat);
    }
}

/// `n` T-cycles of the frequency timer of a square channel.
pub open spec fn turned(s: Square, n: nat) -> Square
    decreases n,
{
    if n == 0 {
        s
    } else {
        turned(s, (n - 1) as nat).after_freq()
    }
}

proof fn lemma_turning(s: Square, n: nat)
    requires
        n <= s.freq_timer,
    ensures
        turned(s, n) == (Square { freq_timer: (s.freq_timer - n) as u32, ..s }),
    decreases n,
{
    if n > 0 {
        lemma_turning(s, (n - 1) as nat);
    }
}

proof fn lemma_turned_on(s: Square, n: nat, k: nat)
    ensures
        turned(turned(s, n), k) == turned(s, n + k),
    decreases k,
{
    if k > 0 {
        lemma_turned_on(s, n, (k - 1) as nat);
    }
}

/// A square channel moves one of its eight steps on every `4 * (2048 - f)`
/// T-cycles, where `f` is its frequency.
#[verifier::rlimit(60)]
pub proof fn law_square_period(s: Square, k: nat)
    requires
        s.wf(),
        s.freq_timer == 0,
    ensures
        turned(s, 4 * ((2048 - s.freq) as nat) * k) == (Square {
            phase: ((s.phase + k) % 8) as u8,
            ..s
        }),
    decreases k,
{
    let p = 4 * ((2048 - s.freq) as nat);
    if k > 0 {
        let j = (k - 1) as nat;
        law_square_period(s, j);
        assert(p * k == p * j + p) by (nonlinear_arith)
            requires
                k == j + 1,
        ;
        let t = turned(s, p * j);
        let u = t.after_freq();
        assert(turned(t, 1) == u) by {
            assert(turned(t, 0) == t);
        }
        lemma_turning(u, (p - 1) as nat);
        lemma_turned_on(t, 1, (p - 1) as nat);
        lemma_turned_on(s, p * j, p);
        assert((s.phase + k) % 8 == ((s.phase + j) % 8 + 1) % 8);
    } else {
        assert(p * k == 0) by (nonlinear_arith)
            requires
                k == 0,
        ;
    }
}

/// A square channel that sounds gives its volume in the high steps of its duty
/// and minus its volume in the low ones: one, two, three or six of the eight are
/// high, the last one always, and the others around it. One that is off gives 0.
#[verifier::rlimit(60)]
pub proof fn law_duty(s: Square)
    requires
        s.wf(),
    ensures
        !s.on ==> s.level() == 0,
        s.on ==> s.level() == if s.phase == 7 || s.duty >= 1 && s.phase == 0 || s.duty >= 2
            && s.phase == 6 || s.duty == 3 && s.phase <= 3 {
            s.env.volume as int
        } else {
            -(s.env.volume as int)
        },
{
}

/// The wave channel plays the 32 halves of its 16 bytes in order, the upper half
/// of a byte first, and shifted right by nothing, one or two for the volumes 1, 2
/// and 3; volume 0 mutes it. Its level is twice the sample less 15.
pub proof fn law_wave_level(w: Wave, ram: [u8; 16])
    requires
        w.wf(),
    ensures
        ({
            let byte = ram[w.phase as int / 2] as int;
            let half = if w.phase % 2 == 0 {
                byte / 16
            } else {
                byte % 16
            };
            w.level(ram) == if !w.on || w.volume_shift == 0 {
                0
            } else if w.volume_shift == 1 {
                2 * half - 15
            } else if w.volume_shift == 2 {
                2 * (half / 2) - 15
            } else {
                2 * (half / 4) - 15
            }
        }),
{
    if w.volume_shift > 0 {
        lemma_shifts(w.nibble(ram), 0, (w.volume_shift - 1) as u8);
    }
}

/// The frequency of two registers: the low byte and three bits above it.
pub proof fn law_frequency(lo: u8, hi: u8)
    ensures
        freq_of(lo, hi) == lo + 256 * (hi % 8),
{
    lemma_byte_fields(hi, lo);
    let f = freq_of(lo, hi) as int;
    assert(f == f / 256 * 256 + f % 256);
}

/// The part of the frequency by which the sweep moves it.
pub open spec fn sweep_part(freq: int, shift: int) -> int {
    if shift == 0 {
        freq
    } else if shift == 1 {
        freq / 2
    } else if shift == 2 {
        freq / 4
    } else if shift == 3 {
        freq / 8
    } else if shift == 4 {
        freq / 16
    } else if shift == 5 {
        freq / 32
    } else if shift == 6 {
        freq / 64
    } else {
        freq / 128
    }
}

/// The sweep moves the frequency up, or down where it negates, by the frequency
/// over two to the shift. A frequency above 2047 silences the channel; it never
/// comes of moving down.
pub proof fn law_sweep(s: Square, load: bool)
    requires
        s.wf(),
    ensures
        ({
            let part = sweep_part(s.freq as int, s.sweep_shift as int);
            let new = if s.sweep_negate {
                s.freq - part
            } else {
                s.freq + part
            };
            let r = s.after_sweep(load);
            &&& r.on == (s.on && new <= 2047)
            &&& load && new <= 2047 ==> r.freq == new && r.freq_timer == 4 * (2048 - new)
            &&& !load ==> r.freq == s.freq && r.freq_timer == s.freq_timer
            &&& r == (Square { on: r.on, freq: r.freq, freq_timer: r.freq_timer, ..s })
            &&& s.sweep_negate ==> new <= s.freq
        }),
{
    lemma_shifts(0, s.freq, s.sweep_shift);
    crate::bits::lemma_half_fields(s.swept());
}

/// A sweep clock counts its timer down; at its end it starts again, with 8 for a
/// period of 0, the frequency moves, and the next move is tried for overflow.
pub proof fn law_sweep_clock(s: Square)
    requires
        s.wf(),
    ensures
        !s.sweep_enabled ==> s.after_sweep_tick() == s,
        s.sweep_enabled && s.sweep_timer > 0 ==> s.after_sweep_tick() == (Square {
            sweep_timer: (s.sweep_timer - 1) as u8,
            ..s
        }),
        s.sweep_enabled && s.sweep_timer == 0 ==> ({
            let r = s.after_sweep_tick();
            &&& r.sweep_timer == if s.sweep_period == 0 {
                8
            } else {
                s.sweep_period
            }
            &&& r.freq == s.after_sweep(true).freq
            &&& r.on == (s.after_sweep(true).on && s.after_sweep(true).after_sweep(false).on)
        }),
{
    reveal(Square::after_sweep_tick);
}

/// Everything but bit 6.
pub proof fn lemma_noise_mask()
    ensures
        !0x40u16 == 0xFFBFu16,
{
    lemma_noise_bits(0, 0, 0);
}

/// Bit `i` of the noise register.
pub open spec fn noise_bit(w: u16, i: u16) -> bool {
    (w >> i) & 1 == 1
}

/// The noise register moves one bit down; the sum modulo 2 of its two lowest bits
/// enters at bit 14, and in the short mode at bit 6 too.
pub proof fn law_noise_step(w: u16, short: bool, i: u16)
    requires
        w < 0x8000,
        i < 15,
    ensures
        noise_bit(Noise::shifted(w, short), i) == if i == 14 || short && i == 6 {
            noise_bit(w, 0) != noise_bit(w, 1)
        } else {
            noise_bit(w, (i + 1) as u16)
        },
        Noise::shifted(w, short) < 0x8000,
{
    lemma_noise_bits(w, i, if i < 14 { (i + 1) as u16 } else { 0 });
}

/// The noise register moves every `8`, or `16` times the divisor, T-cycles, doubled
/// as often as the shift says.
pub proof fn law_noise_period(n: Noise)
    requires
        n.wf(),
    ensures
        ({
            let base = if n.divisor == 0 {
                8
            } else {
                16 * n.divisor
            };
            n.clock_period() == base * if n.shift == 0 {
                1int
            } else if n.shift == 1 {
                2
            } else if n.shift == 2 {
                4
            } else if n.shift == 3 {
                8
            } else if n.shift == 4 {
                16
            } else if n.shift == 5 {
                32
            } else if n.shift == 6 {
                64
            } else {
                128
            }
        }),
        n.freq_timer == 0 ==> n.after_freq().freq_timer == n.clock_period() - 1
            && n.after_freq().lfsr == Noise::shifted(n.lfsr, n.width),
        n.freq_timer > 0 ==> n.after_freq() == (Noise {
            freq_timer: (n.freq_timer - 1) as u32,
            ..n
        }),
{
    lemma_shifts(n.divisor, 0, n.shift);
}

/// The noise channel gives its volume where the lowest bit of its register is
/// clear, minus its volume where it is set, and 0 while it is off.
pub proof fn law_noise_level(n: Noise)
    ensures
        n.level() == if !n.on {
            0
        } else if n.lfsr % 2 == 0 {
            n.env.volume as int
        } else {
            -(n.env.volume as int)
        },
{
    crate::bits::lemma_half_fields(n.lfsr);
}

/// What a bit of NR51 lets through.
pub open spec fn passed(nr51: u8, weight: int, level: int) -> int {
    if nr51 as int / weight % 2 == 1 {
        level
    } else {
        0
    }
}

/// Channels 1 to 4 go to the left by bits 4 to 7 of NR51 and to the right by bits
/// 0 to 3. NR50 sets the volumes, left by its low three bits and right by bits 4
/// to 6; the product is clipped at full scale.
#[verifier::rlimit(60)]
pub proof fn law_mixer(apu: ApuState, io: IoRegs, ram: [u8; 16])
    ensures
        ({
            let (s1, s2) = (apu.ch1.level(), apu.ch2.level());
            let (s3, s4) = (apu.ch3.level(ram), apu.ch4.level());
            let to = io[0x25];
            let left = (passed(to, 16, s1) + passed(to, 32, s2) + passed(to, 64, s3) + passed(
                to,
                128,
                s4,
            )) * (io[0x24] % 8);
            let right = (passed(to, 1, s1) + passed(to, 2, s2) + passed(to, 4, s3) + passed(
                to,
                8,
                s4,
            )) * (io[0x24] / 16 % 8);
            let (l, r) = apu.mixed(io, ram);
            &&& l == if left > 210 {
                210
            } else if left < -210 {
                -210
            } else {
                left
            }
            &&& r == if right > 210 {
                210
            } else if right < -210 {
                -210
            } else {
                right
            }
        }),
{
    lemma_byte_fields(io[0x25], 0);
}

/// Each step of the frame sequencer leads to the next of eight. The even ones
/// clock the lengths, the fourth and the last one the envelopes, and the two
/// between them the sweep of channel 1.
pub proof fn law_frame_step(apu: ApuState)
    requires
        apu.frame_step_n < 8,
    ensures
        ({
            let n = apu.frame_step_n;
            let r = apu.after_frame_step();
            &&& r.frame_step_n == (n + 1) % 8
            &&& n % 2 == 0 ==> r.ch1 == apu.ch1.after_length() && r.ch2 == apu.ch2.after_length()
                && r.ch3 == apu.ch3.after_length() && r.ch4 == apu.ch4.after_length()
            &&& n % 4 == 1 ==> r.ch1 == apu.ch1.after_sweep_tick() && r.ch2 == apu.ch2 && r.ch3
                == apu.ch3 && r.ch4 == apu.ch4
            &&& n % 4 == 3 ==> r.ch1.env == apu.ch1.env.after_tick() && r.ch2.env
                == apu.ch2.env.after_tick() && r.ch4.env == apu.ch4.env.after_tick() && r.ch3
                == apu.ch3
            &&& n % 4 == 3 ==> r.ch1 == (Square { env: r.ch1.env, ..apu.ch1 }) && r.ch2 == (Square {
                env: r.ch2.env,
                ..apu.ch2
            }) && r.ch4 == (Noise { env: r.ch4.env, ..apu.ch4 })
        }),
{
}

/// Writing NRx1 sets the duty and the length, writing NRx2 the envelope, and
/// writing NRx4 with bit 7 starts a channel with the frequency of NRx3 and NRx4.
#[verifier::rlimit(60)]
pub proof fn law_square_registers(apu: ApuState, io: IoRegs, value: u8)
    ensures
        ({
            let r = apu.after_write(0xFF16, value, io).0.ch2;
            r.length == 64 - value % 64 && r.duty == value / 64
        }),
        ({
            let r = apu.after_write(0xFF11, value, io).0.ch1;
            r.length == 64 - value % 64 && r.duty == value / 64
        }),
        ({
            let r = apu.after_write(0xFF17, value, io).0.ch2.env;
            r.volume == value / 16 && r.up == (value / 8 % 2 == 1) && r.period == value % 8
        }),
        ({
            let r = apu.after_write(0xFF12, value, io).0.ch1.env;
            r.volume == value / 16 && r.up == (value / 8 % 2 == 1) && r.period == value % 8
        }),
        ({
            let r = apu.after_write(0xFF21, value, io).0.ch4.env;
            r.volume == value / 16 && r.up == (value / 8 % 2 == 1) && r.period == value % 8
        }),
        ({
            let r = apu.after_write(0xFF10, value, io).0.ch1;
            r.sweep_period == value / 16 % 8 && r.sweep_negate == (value / 8 % 2 == 1)
                && r.sweep_shift == value % 8
        }),
        ({
            let r = apu.after_write(0xFF22, value, io).0.ch4;
            r.divisor == value / 16 && r.width == (value / 8 % 2 == 1) && r.shift == value % 8
        }),
        ({
            let r = apu.after_write(0xFF20, value, io).0.ch4;
            r.length == 64 - value % 64
        }),
        ({
            let r = apu.after_write(0xFF1B, value, io).0.ch3;
            r.length == 256 - value
        }),
        ({
            let r = apu.after_write(0xFF1C, value, io).0.ch3;
            r.volume_shift == value / 32 % 4
        }),
        ({
            let r = apu.after_write(0xFF1A, value, io).0.ch3;
            r.dac_on == (value >= 128) && r.on == (apu.ch3.on && value >= 128)
        }),
{
    reveal(ApuState::after_write);
    lemma_byte_fields(value, 0);
}

/// Writing NR24 sets the frequency and whether the length counts; with bit 7 the
/// channel starts: on, at its first step, with the duty and envelope of its
/// registers, and with a full length if that had run out.
#[verifier::rlimit(60)]
pub proof fn law_square_trigger(apu: ApuState, io: IoRegs, value: u8)
    requires
        apu.ch2.sweep_shift == 0,
    ensures
        ({
            let r = apu.after_write(0xFF19, value, io).0.ch2;
            let freq = io[0x18] + 256 * (value % 8);
            &&& r.freq == freq
            &&& r.length_enable == (value / 64 % 2 == 1)
            &&& value < 128 ==> r.on == apu.ch2.on && r.length == apu.ch2.length && r.env
                == apu.ch2.env
            &&& value >= 128 ==> {
                &&& r.on
                &&& r.phase == 0
                &&& r.freq_timer == 4 * (2048 - freq)
                &&& r.duty == io[0x16] / 64
                &&& r.env.volume == io[0x17] / 16
                &&& r.length == if apu.ch2.length == 0 {
                    64
                } else {
                    apu.ch2.length
                }
            }
        }),
{
    reveal(ApuState::after_write);
    reveal(Square::after_trigger);
    lemma_byte_fields(value, 0);
    lemma_byte_fields(io[0x16], 0);
    lemma_loaded(apu.ch2.env, io[0x17]);
    law_frequency(io[0x18], value);
}

/// `n` T-cycles of the frequency timer of the wave channel.
pub open spec fn turned_wave(s: Wave, n: nat) -> Wave
    decreases n,
{
    if n == 0 {
        s
    } else {
        turned_wave(s, (n - 1) as nat).after_freq()
    }
}

proof fn lemma_turning_wave(s: Wave, n: nat)
    requires
        n <= s.freq_timer,
    ensures
        turned_wave(s, n) == (Wave { freq_timer: (s.freq_timer - n) as u32, ..s }),
    decreases n,
{
    if n > 0 {
        lemma_turning_wave(s, (n - 1) as nat);
    }
}

proof fn lemma_turned_wave_on(s: Wave, n: nat, k: nat)
    ensures
        turned_wave(turned_wave(s, n), k) == turned_wave(s, n + k),
    decreases k,
{
    if k > 0 {
        lemma_turned_wave_on(s, n, (k - 1) as nat);
    }
}

/// The wave channel moves one of its 32 samples on every `4 * (2048 - f)` T-cycles.
pub proof fn law_wave_period(s: Wave, k: nat)
    requires
        s.wf(),
        s.freq_timer == 0,
    ensures
        turned_wave(s, 4 * ((2048 - s.freq) as nat) * k) == (Wave {
            phase: ((s.phase + k) % 32) as u8,
            ..s
        }),
    decreases k,
{
    let p = 4 * ((2048 - s.freq) as nat);
    if k > 0 {
        let j = (k - 1) as nat;
        law_wave_period(s, j);
        assert(p * k == p * j + p) by (nonlinear_arith)
            requires
                k == j + 1,
        ;
        let t = turned_wave(s, p * j);
        let u = t.after_freq();
        assert(turned_wave(t, 1) == u) by {
            assert(turned_wave(t, 0) == t);
        }
        lemma_turning_wave(u, (p - 1) as nat);
        lemma_turned_wave_on(t, 1, (p - 1) as nat);
        lemma_turned_wave_on(s, p * j, p);
        assert((s.phase + k) % 32 == ((s.phase + j) % 32 + 1) % 32);
    } else {
        assert(p * k == 0) by (nonlinear_arith)
            requires
                k == 0,
        ;
    }
}

/// Writing NR34 or NR44 with bit 7 starts the wave channel, if it is powered, or the
/// noise channel: from the first sample, or with every bit of its register set,
/// and with a full length if that had run out.
pub proof fn law_wave_and_noise_trigger(apu: ApuState, io: IoRegs, value: u8)
    ensures
        ({
            let r = apu.after_write(0xFF1E, value, io).0.ch3;
            let freq = io[0x1D] + 256 * (value % 8);
            &&& r.freq == freq
            &&& r.length_enable == (value / 64 % 2 == 1)
            &&& value < 128 ==> r.on == apu.ch3.on && r.phase == apu.ch3.phase && r.length
                == apu.ch3.length
            &&& value >= 128 ==> {
                &&& r.on == apu.ch3.dac_on
                &&& r.phase == 0
                &&& r.freq_timer == 4 * (2048 - freq)
                &&& r.length == if apu.ch3.length == 0 {
                    256
                } else {
                    apu.ch3.length
                }
            }
        }),
        ({
            let r = apu.after_write(0xFF23, value, io).0.ch4;
            &&& r.length_enable == (value / 64 % 2 == 1)
            &&& value < 128 ==> r.on == apu.ch4.on && r.lfsr == apu.ch4.lfsr && r.length
                == apu.ch4.length
            &&& value >= 128 ==> {
                &&& r.on
                &&& r.lfsr == 0x7FFF
                &&& r.env.volume == io[0x21] / 16
                &&& r.length == if apu.ch4.length == 0 {
                    64
                } else {
                    apu.ch4.length
                }
            }
        }),
{
    reveal(ApuState::after_write);
    reveal(Wave::after_trigger);
    reveal(Noise::after_trigger);
    lemma_byte_fields(value, 0);
    lemma_loaded(apu.ch4.env, io[0x21]);
    law_frequency(io[0x1D], value);
}

/// Starting channel 1 takes its duty, envelope and frequency from its registers
/// and starts its sweep; with a shift above 0 the frequency moves at once.
pub proof fn law_sweep_trigger(s: Square, nr1: u8, nr2: u8, nr3: u8, nr4: u8)
    requires
        s.wf(),
    ensures
        ({
            let r = s.after_trigger(nr1, nr2, nr3, nr4);
            let freq = nr3 + 256 * (nr4 % 8);
            let part = sweep_part(freq, s.sweep_shift as int);
            let new = if s.sweep_negate {
                freq - part
            } else {
                freq + part
            };
            &&& r.on
            &&& r.phase == 0
            &&& r.duty == nr1 / 64
            &&& r.env.volume == nr2 / 16
            &&& r.sweep_enabled == (s.sweep_period > 0 || s.sweep_shift > 0)
            &&& r.sweep_timer == if s.sweep_period == 0 {
                8
            } else {
                s.sweep_period
            }
            &&& s.sweep_shift == 0 ==> r.freq == freq
            &&& s.sweep_shift > 0 && new <= 2047 ==> r.freq == new
        }),
{
    reveal(Square::after_trigger);
    lemma_byte_fields(nr1, 0);
    lemma_loaded(s.env, nr2);
    law_frequency(nr3, nr4);
    let t = Square {
        length: if s.length == 0 {
            64
        } else {
            s.length
        },
        duty: nr1 >> 6,
        env: s.env.after_reload(nr2),
        freq: freq_of(nr3, nr4),
        freq_timer: Square::period_of(freq_of(nr3, nr4)),
        phase: 0,
        sweep_timer: s.sweep_reload(),
        sweep_enabled: s.sweep_period != 0 || s.sweep_shift != 0,
        ..s
    };
    assert(t.wf()) by {
        lemma_byte_fields(nr2, 0);
    }
    law_sweep(t, true);
}

} // verus!
