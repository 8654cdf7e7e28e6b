//! The timer: DIV, TIMA, TMA and TAC.
//!
//! An internal 16-bit counter advances once per T-cycle. The DIV register is
//! the upper byte of that counter, so it changes every 256 T-cycles (16384 Hz).
//! Writing DIV resets the counter to 0. TIMA increments on the falling edge of
//! a bit of the counter selected by TAC: 00 -> bit 9 (4096 Hz),
//! 01 -> bit 3 (262144 Hz), 10 -> bit 5 (65536 Hz), 11 -> bit 7 (16384 Hz).
//!
//! On overflow TIMA reads 0 for one M-cycle while a reload from TMA is
//! pending; a write to TIMA in that cycle cancels the reload (and the
//! interrupt), a write in the cycle the reload happens is ignored, and a write
//! to TMA in either cycle is what gets loaded. Disabling the timer, or changing
//! its clock, while the selected counter bit is set counts as a falling edge
//! (the TAC glitch).

use crate::bits::put;
use vstd::arithmetic::div_mod::{
    lemma_fundamental_div_mod, lemma_fundamental_div_mod_converse, lemma_mod_mod,
};
use vstd::prelude::*;

verus! {

/// The I/O registers, 0xFF00-0xFF7F.
pub type IoRegs = [u8; 0x80];

#[derive(Clone, Copy, Debug)]
pub struct Timer {
    /// 16-bit counter, advanced once per T-cycle.
    pub div_counter: u16,
    /// Absolute T-cycle count, modulo 2^64, used to time the reload deadline.
    pub abs_cycles: u64,
    /// Absolute cycle at which the pending TMA reload is applied.
    pub reload_deadline: u64,
    /// Value to load into TIMA when the pending reload fires.
    pub reload_value: u8,
    /// Whether a reload is pending (TIMA reads 0 and the reload window is open).
    pub reload_pending: bool,
    /// Absolute cycle at which the last reload was applied.
    pub reloaded_at: u64,
}

impl Timer {
    /// A timer at power-on: nothing counted, no reload pending or applied.
    pub open spec fn initial() -> Timer {
        Timer {
            div_counter: 0,
            abs_cycles: 0,
            reload_deadline: 0,
            reload_value: 0,
            reload_pending: false,
            reloaded_at: u64::MAX,
        }
    }

    pub fn new() -> (r: Timer)
        ensures
            r == Timer::initial(),
    {
        Timer {
            div_counter: 0,
            abs_cycles: 0,
            reload_deadline: 0,
            reload_value: 0,
            reload_pending: false,
            reloaded_at: u64::MAX,
        }
    }

    /// The counter bit whose falling edge clocks TIMA.
    pub open spec fn clock_bit(tac: u8) -> u8 {
        if tac & 0x03 == 0 {
            9
        } else if tac & 0x03 == 1 {
            3
        } else if tac & 0x03 == 2 {
            5
        } else {
            7
        }
    }

    pub fn selected_bit(tac: u8) -> (r: u8)
        ensures
            r == Timer::clock_bit(tac),
            r <= 9,
    {
        match tac & 0x03 {
            0 => 9,
            1 => 3,
            2 => 5,
            _ => 7,
        }
    }

    /// The signal feeding TIMA's increment: the selected counter bit ANDed
    /// with the enable bit.
    pub open spec fn line(self, tac: u8) -> bool {
        tac & 0x04 != 0 && (self.div_counter >> Timer::clock_bit(tac)) & 1 == 1
    }

    fn signal(&self, tac: u8) -> (r: bool)
        ensures
            r == self.line(tac),
    {
        tac & 0x04 != 0 && (self.div_counter >> Self::selected_bit(tac)) & 1 == 1
    }

    /// Whether the current CPU access falls in the M-cycle that applied the
    /// reload (accesses land at the end of their cycle).
    pub open spec fn just_reloaded(self) -> bool {
        self.abs_cycles >= self.reloaded_at && self.abs_cycles < vstd::wrapping::u64_specs::wrapping_add(
            self.reloaded_at,
            4,
        )
    }

    fn in_reload_cycle(&self) -> (r: bool)
        ensures
            r == self.just_reloaded(),
    {
        self.abs_cycles >= self.reloaded_at && self.abs_cycles < self.reloaded_at.wrapping_add(4)
    }

    /// One increment of TIMA at cycle `at`; an overflow schedules the reload
    /// of TMA four cycles later.
    pub open spec fn after_inc(self, io: IoRegs, at: u64) -> (Timer, IoRegs) {
        if io[0x05] == 0xFF {
            (
                Timer {
                    reload_value: io[0x06],
                    reload_pending: true,
                    reload_deadline: vstd::wrapping::u64_specs::wrapping_add(at, 4),
                    ..self
                },
                put(io, 0x05, 0),
            )
        } else {
            (self, put(io, 0x05, (io[0x05] + 1) as u8))
        }
    }

    fn inc_tima(&mut self, io: &mut IoRegs, overflow_abs: u64)
        ensures
            (*final(self), *final(io)) == old(self).after_inc(*old(io), overflow_abs),
    {
        let tima: u8 = io[0x05].wrapping_add(1);
        if tima == 0 {
            io[0x05] = 0;
            self.reload_value = io[0x06];
            self.reload_pending = true;
            self.reload_deadline = overflow_abs.wrapping_add(4);
        } else {
            io[0x05] = tima;
        }
    }

    /// The reload: TIMA takes TMA and the interrupt is requested.
    pub open spec fn after_reload(self, io: IoRegs) -> (Timer, IoRegs) {
        (
            Timer { reload_pending: false, reloaded_at: self.reload_deadline, ..self },
            put(put(io, 0x05, self.reload_value), 0x0F, io[0x0F] | 0x04),
        )
    }

    /// Apply a due reload: TIMA takes TMA and the interrupt is requested.
    fn apply_reload(&mut self, io: &mut IoRegs)
        ensures
            (*final(self), *final(io)) == old(self).after_reload(*old(io)),
    {
        self.reload_pending = false;
        self.reloaded_at = self.reload_deadline;
        io[0x05] = self.reload_value;
        io[0x0F] = io[0x0F] | 0x04;
    }

    /// The reload if it is due at cycle `at`.
    pub open spec fn after_due(self, io: IoRegs, at: u64) -> (Timer, IoRegs) {
        if self.reload_pending && at >= self.reload_deadline {
            self.after_reload(io)
        } else {
            (self, io)
        }
    }

    /// What a DIV write does: the counter resets, which is a falling edge when
    /// the signal was high.
    pub open spec fn after_div_write(self, io: IoRegs) -> (Timer, IoRegs) {
        let (t, regs) = if self.line(io[0x07]) {
            self.after_inc(io, self.abs_cycles)
        } else {
            (self, io)
        };
        (Timer { div_counter: 0, ..t }, put(regs, 0x04, 0))
    }

    /// Writing DIV (0xFF04) resets the counter. If the previously selected bit
    /// was 1, the reset to 0 is itself a falling edge, so TIMA is incremented.
    pub fn on_div_write(&mut self, io: &mut IoRegs)
        ensures
            (*final(self), *final(io)) == old(self).after_div_write(*old(io)),
    {
        if self.signal(io[0x07]) {
            let at: u64 = self.abs_cycles;
            self.inc_tima(io, at);
        }
        self.div_counter = 0;
        io[0x04] = 0;
    }

    /// What a TIMA write does.
    pub open spec fn after_write_tima(self, io: IoRegs, value: u8) -> (Timer, IoRegs) {
        if self.reload_pending {
            (Timer { reload_pending: false, ..self }, put(io, 0x05, value))
        } else if self.just_reloaded() {
            (self, io)
        } else {
            (self, put(io, 0x05, value))
        }
    }

    /// Write TIMA (0xFF05): cancels a pending reload, is ignored in the cycle
    /// the reload happens, and simply stores the value otherwise.
    pub fn write_tima(&mut self, io: &mut IoRegs, value: u8)
        ensures
            (*final(self), *final(io)) == old(self).after_write_tima(*old(io), value),
    {
        if self.reload_pending {
            self.reload_pending = false;
            io[0x05] = value;
        } else if self.in_reload_cycle() {
            // TMA won this cycle.
        } else {
            io[0x05] = value;
        }
    }

    /// What a TMA write does.
    pub open spec fn after_write_tma(self, io: IoRegs, value: u8) -> (Timer, IoRegs) {
        let regs = put(io, 0x06, value);
        if self.reload_pending {
            (Timer { reload_value: value, ..self }, regs)
        } else if self.just_reloaded() {
            (self, put(regs, 0x05, value))
        } else {
            (self, regs)
        }
    }

    /// Write TMA (0xFF06): a pending or just-applied reload takes the new
    /// value.
    pub fn write_tma(&mut self, io: &mut IoRegs, value: u8)
        ensures
            (*final(self), *final(io)) == old(self).after_write_tma(*old(io), value),
    {
        io[0x06] = value;
        if self.reload_pending {
            self.reload_value = value;
        } else if self.in_reload_cycle() {
            io[0x05] = value;
        }
    }

    /// What a TAC write does.
    pub open spec fn after_write_tac(self, io: IoRegs, value: u8) -> (Timer, IoRegs) {
        let regs = put(io, 0x07, value | 0xF8);
        if self.line(io[0x07]) && !self.line(value | 0xF8) {
            self.after_inc(regs, self.abs_cycles)
        } else {
            (self, regs)
        }
    }

    /// Write TAC (0xFF07): if the increment signal falls because the timer is
    /// disabled or re-clocked, TIMA increments (the DMG "TAC glitch").
    pub fn write_tac(&mut self, io: &mut IoRegs, value: u8)
        ensures
            (*final(self), *final(io)) == old(self).after_write_tac(*old(io), value),
    {
        let before = self.signal(io[0x07]);
        io[0x07] = value | 0xF8;
        if before && !self.signal(io[0x07]) {
            let at: u64 = self.abs_cycles;
            self.inc_tima(io, at);
        }
    }

    /// One T-cycle at absolute cycle `at`: a due reload, then the counter
    /// advances and a falling edge of the selected bit increments TIMA.
    pub open spec fn after_tick(self, io: IoRegs, tac: u8, at: u64) -> (Timer, IoRegs) {
        let (t, regs) = self.after_due(io, at);
        let next = Timer {
            div_counter: vstd::wrapping::u16_specs::wrapping_add(t.div_counter, 1),
            ..t
        };
        let bit = Timer::clock_bit(tac);
        if tac & 0x04 != 0 && (t.div_counter >> bit) & 1 == 1 && (next.div_counter >> bit) & 1 == 0 {
            next.after_inc(regs, at)
        } else {
            (next, regs)
        }
    }

    /// `n` T-cycles beginning at absolute cycle `at`; also the cycle reached.
    pub open spec fn after_ticks(self, io: IoRegs, tac: u8, at: u64, n: nat) -> (Timer, IoRegs, u64)
        decreases n,
    {
        if n == 0 {
            (self, io, at)
        } else {
            let (t, regs, now) = self.after_ticks(io, tac, at, (n - 1) as nat);
            let (next, regs2) = t.after_tick(regs, tac, now);
            (next, regs2, vstd::wrapping::u64_specs::wrapping_add(now, 1))
        }
    }

    /// The timer and the registers `cycles` T-cycles on.
    #[verifier::opaque]
    pub open spec fn after_step(self, io: IoRegs, cycles: u32) -> (Timer, IoRegs) {
        let (t, regs, now) = self.after_ticks(io, io[0x07], self.abs_cycles, cycles as nat);
        let (t, regs) = t.after_due(regs, now);
        (Timer { abs_cycles: now, ..t }, put(regs, 0x04, (t.div_counter >> 8) as u8))
    }

    /// Advance by `cycles` T-cycles.
    pub fn step(&mut self, cycles: u32, io: &mut IoRegs)
        ensures
            (*final(self), *final(io)) == old(self).after_step(*old(io), cycles),
    {
        reveal(Timer::after_step);
        let tac: u8 = io[0x07];
        let enabled = tac & 0x04 != 0;
        let bit: u8 = Self::selected_bit(tac);
        let mut t: u64 = self.abs_cycles;
        let mut i: u32 = 0;
        while i < cycles
            invariant
                i <= cycles,
                tac == old(io)[0x07],
                enabled == (tac & 0x04 != 0),
                bit == Timer::clock_bit(tac),
                bit <= 9,
                (*self, *io, t) == old(self).after_ticks(*old(io), tac, old(self).abs_cycles, i as nat),
            decreases cycles - i,
        {
            if self.reload_pending && t >= self.reload_deadline {
                self.apply_reload(io);
            }
            let prev: u16 = self.div_counter;
            self.div_counter = self.div_counter.wrapping_add(1);
            if enabled && ((prev >> bit) & 1) == 1 && ((self.div_counter >> bit) & 1) == 0 {
                self.inc_tima(io, t);
            }
            t = t.wrapping_add(1);
            i = i + 1;
        }
        if self.reload_pending && t >= self.reload_deadline {
            self.apply_reload(io);
        }
        io[0x04] = (self.div_counter >> 8) as u8;
        self.abs_cycles = t;
    }
}

impl Default for Timer {
    fn default() -> (r: Timer)
        ensures
            r == Timer::initial(),
    {
        Timer::new()
    }
}

/// DIV is the upper byte of the counter, which advances by one per T-cycle,
/// whatever the timer is set to.
pub proof fn law_counter_advances_every_cycle(timer: Timer, io: IoRegs, cycles: u32)
    ensures
        timer.after_step(io, cycles).0.div_counter as int == (timer.div_counter + cycles) % 0x1_0000,
        timer.after_step(io, cycles).1[0x04] == (timer.after_step(io, cycles).0.div_counter >> 8) as u8,
{
    reveal(Timer::after_step);
    lemma_ticks_counter(timer, io, io[0x07], timer.abs_cycles, cycles as nat);
}

proof fn lemma_ticks_counter(timer: Timer, io: IoRegs, tac: u8, at: u64, n: nat)
    ensures
        timer.after_ticks(io, tac, at, n).0.div_counter as int == (timer.div_counter + n) % 0x1_0000,
        timer.after_ticks(io, tac, at, n).2 as int == (at + n) % 0x1_0000_0000_0000_0000,
    decreases n,
{
    if n > 0 {
        let p = (n - 1) as nat;
        lemma_ticks_counter(timer, io, tac, at, p);
        let (t, regs, now) = timer.after_ticks(io, tac, at, p);
        lemma_tick_counter(t, regs, tac, now);
        lemma_next(timer.div_counter as int, n as int);
    }
}

proof fn lemma_tick_counter(t: Timer, io: IoRegs, tac: u8, at: u64)
    ensures
        t.after_tick(io, tac, at).0.div_counter == vstd::wrapping::u16_specs::wrapping_add(
            t.div_counter,
            1,
        ),
{
}

/// Ticking in two parts is ticking once by the sum.
pub proof fn law_ticks_compose(timer: Timer, io: IoRegs, tac: u8, at: u64, a: nat, b: nat)
    ensures
        ({
            let (t, regs, now) = timer.after_ticks(io, tac, at, a);
            timer.after_ticks(io, tac, at, a + b) == t.after_ticks(regs, tac, now, b)
        }),
    decreases b,
{
    if b > 0 {
        law_ticks_compose(timer, io, tac, at, a, (b - 1) as nat);
        assert((a + b - 1) as nat == a + (b - 1) as nat);
    }
}

/// The T-cycles between two increments of TIMA: 4096, 262144, 65536 or 16384
/// of them to the second.
pub open spec fn period(tac: u8) -> int {
    if tac & 0x03 == 0 {
        1024
    } else if tac & 0x03 == 1 {
        16
    } else if tac & 0x03 == 2 {
        64
    } else {
        256
    }
}

/// How often the counter passes a multiple of `period` on its way from `from`
/// through `n` cycles.
pub open spec fn passes(from: int, period: int, n: int) -> int {
    (from + n) / period - from / period
}

/// The selected bit falls where the counter reaches a multiple of the period.
proof fn lemma_edge(tac: u8, d: u16, e: u16)
    requires
        e as int == (d + 1) % 0x1_0000,
    ensures
        ({
            let bit = Timer::clock_bit(tac);
            ((d >> bit) & 1 == 1 && (e >> bit) & 1 == 0) <==> e as int % period(tac) == 0
        }),
{
    assert(d != 0xFFFF ==> e == d + 1);
    assert(d == 0xFFFF ==> e == 0);
    assert(((d >> 9u8) & 1 == 1 && (e >> 9u8) & 1 == 0 <==> e % 1024 == 0) && ((d >> 3u8) & 1 == 1
        && (e >> 3u8) & 1 == 0 <==> e % 16 == 0) && ((d >> 5u8) & 1 == 1 && (e >> 5u8) & 1 == 0
        <==> e % 64 == 0) && ((d >> 7u8) & 1 == 1 && (e >> 7u8) & 1 == 0 <==> e % 256 == 0))
        by (bit_vector)
        requires
            d != 0xFFFF ==> e == d + 1,
            d == 0xFFFF ==> e == 0,
    ;
}

/// A quotient goes up by one exactly at the multiples of the divisor.
proof fn lemma_quotient(x: int, p: int)
    requires
        x >= 1,
        p >= 2,
    ensures
        x / p == (x - 1) / p + (if x % p == 0 {
            1int
        } else {
            0
        }),
{
    let q = (x - 1) / p;
    let r = (x - 1) % p;
    lemma_fundamental_div_mod(x - 1, p);
    assert(x - 1 == q * p + r) by (nonlinear_arith)
        requires
            x - 1 == p * q + r,
    ;
    if r + 1 < p {
        lemma_fundamental_div_mod_converse(x, p, q, r + 1);
    } else {
        assert(x == (q + 1) * p + 0) by (nonlinear_arith)
            requires
                x - 1 == q * p + r,
                r == p - 1,
        ;
        lemma_fundamental_div_mod_converse(x, p, q + 1, 0);
    }
}

proof fn lemma_passes(from: int, period: int, n: int)
    requires
        period == 1024 || period == 16 || period == 64 || period == 256,
        0 <= from,
        0 < n,
    ensures
        passes(from, period, n - 1) <= passes(from, period, n),
        passes(from, period, n) == passes(from, period, n - 1) + (if ((from + n) % 0x1_0000)
            % period == 0 {
            1int
        } else {
            0
        }),
{
    let x = from + n;
    lemma_quotient(x, period);
    assert((x % 0x1_0000) % period == x % period) by {
        if period == 1024 {
            lemma_mod_mod(x, 1024, 64);
        } else if period == 16 {
            lemma_mod_mod(x, 16, 4096);
        } else if period == 64 {
            lemma_mod_mod(x, 64, 1024);
        } else {
            lemma_mod_mod(x, 256, 256);
        }
    }
}

/// Whether the next cycle takes the counter `d` to a multiple of the period.
pub open spec fn due(tac: u8, d: u16) -> bool {
    ((d + 1) % 0x1_0000) % period(tac) == 0
}

proof fn lemma_tick(t: Timer, io: IoRegs, tac: u8, at: u64)
    requires
        tac & 0x04 != 0,
        !t.reload_pending,
        due(tac, t.div_counter) ==> io[0x05] < 0xFF,
    ensures
        ({
            let (next, regs) = t.after_tick(io, tac, at);
            &&& !next.reload_pending
            &&& regs == if due(tac, t.div_counter) {
                put(io, 0x05, (io[0x05] + 1) as u8)
            } else {
                io
            }
        }),
{
    lemma_edge(tac, t.div_counter, vstd::wrapping::u16_specs::wrapping_add(t.div_counter, 1));
}

proof fn lemma_counts(timer: Timer, io: IoRegs, tac: u8, at: u64, n: nat)
    requires
        tac & 0x04 != 0,
        !timer.reload_pending,
        io[0x05] + passes(timer.div_counter as int, period(tac), n as int) <= 0xFF,
    ensures
        ({
            let (t, regs, now) = timer.after_ticks(io, tac, at, n);
            let count = io[0x05] + passes(timer.div_counter as int, period(tac), n as int);
            &&& !t.reload_pending
            &&& regs[0x05] == count
            &&& regs[0x0F] == io[0x0F]
        }),
    decreases n,
{
    if n > 0 {
        let p = (n - 1) as nat;
        lemma_passes(timer.div_counter as int, period(tac), n as int);
        lemma_counts(timer, io, tac, at, p);
        lemma_ticks_counter(timer, io, tac, at, p);
        let (t, regs, now) = timer.after_ticks(io, tac, at, p);
        assert(due(tac, t.div_counter) == (((timer.div_counter + n) % 0x1_0000) % period(tac)
            == 0)) by {
            lemma_next(timer.div_counter as int, n as int);
        }
        lemma_tick(t, regs, tac, now);
    }
}

proof fn lemma_next(d: int, n: int)
    ensures
        ((d + n - 1) % 0x1_0000 + 1) % 0x1_0000 == (d + n) % 0x1_0000,
{
}

/// An enabled timer counts once per period of its clock, and asks for no
/// interrupt until it overflows.
pub proof fn law_tima_counts(timer: Timer, io: IoRegs, cycles: u32)
    requires
        io[0x07] & 0x04 != 0,
        !timer.reload_pending,
        io[0x05] + passes(timer.div_counter as int, period(io[0x07]), cycles as int) <= 0xFF,
    ensures
        timer.after_step(io, cycles).1[0x05] == io[0x05] + passes(
            timer.div_counter as int,
            period(io[0x07]),
            cycles as int,
        ),
        timer.after_step(io, cycles).1[0x0F] == io[0x0F],
{
    reveal(Timer::after_step);
    lemma_counts(timer, io, io[0x07], timer.abs_cycles, cycles as nat);
    if cycles > 0 {
        lemma_passes(timer.div_counter as int, period(io[0x07]), cycles as int);
    }
}

/// Ticks leave TAC alone, read neither DIV's register nor the absolute count,
/// and keep both as they are.
proof fn lemma_ticks_keep(t: Timer, io: IoRegs, tac: u8, at: u64, n: nat, div: u8, count: u64)
    ensures
        ({
            let (u, regs, now) = t.after_ticks(io, tac, at, n);
            let s = Timer { abs_cycles: count, ..t };
            &&& s.after_ticks(put(io, 0x04, div), tac, at, n) == (
                Timer { abs_cycles: count, ..u },
                put(regs, 0x04, div),
                now,
            )
            &&& regs[0x07] == io[0x07]
        }),
    decreases n,
{
    if n > 0 {
        let p = (n - 1) as nat;
        lemma_ticks_keep(t, io, tac, at, p, div, count);
        let (u, regs, now) = t.after_ticks(io, tac, at, p);
        lemma_tick_keeps(u, regs, tac, now, div, count);
    }
}

proof fn lemma_tick_keeps(t: Timer, io: IoRegs, tac: u8, at: u64, div: u8, count: u64)
    ensures
        ({
            let (u, regs) = t.after_tick(io, tac, at);
            let (v, other) = Timer { abs_cycles: count, ..t }.after_tick(
                put(io, 0x04, div),
                tac,
                at,
            );
            &&& v == (Timer { abs_cycles: count, ..u })
            &&& other == put(regs, 0x04, div)
            &&& regs[0x07] == io[0x07]
        }),
{
    let (u, regs) = t.after_tick(io, tac, at);
    let (v, other) = Timer { abs_cycles: count, ..t }.after_tick(put(io, 0x04, div), tac, at);
    assert(other =~= put(regs, 0x04, div));
}

/// A reload that is due is applied once, before the next tick or after the
/// last.
proof fn lemma_due_first(t: Timer, io: IoRegs, tac: u8, at: u64, n: nat)
    ensures
        ({
            let (d, regs) = t.after_due(io, at);
            let (a, ra, na) = t.after_ticks(io, tac, at, n);
            let (b, rb, nb) = d.after_ticks(regs, tac, at, n);
            &&& na == nb
            &&& a.after_due(ra, na) == b.after_due(rb, nb)
            &&& n >= 1 ==> a == b && ra == rb
        }),
    decreases n,
{
    if n > 0 {
        lemma_due_first(t, io, tac, at, (n - 1) as nat);
        if n == 1 {
            let (d, regs) = t.after_due(io, at);
            assert(d.after_due(regs, at) == (d, regs));
            assert(d.after_tick(regs, tac, at) == t.after_tick(io, tac, at));
            assert(t.after_ticks(io, tac, at, 0) == (t, io, at));
            assert(d.after_ticks(regs, tac, at, 0) == (d, regs, at));
        }
    }
}

/// Two steps make one of their cycles together: how time is split never
/// matters.
pub proof fn law_steps_compose(timer: Timer, io: IoRegs, a: u32, b: u32)
    requires
        a + b <= u32::MAX,
    ensures
        ({
            let (t, regs) = timer.after_step(io, a);
            t.after_step(regs, b) == timer.after_step(io, (a + b) as u32)
        }),
{
    reveal(Timer::after_step);
    let tac = io[0x07];
    let at = timer.abs_cycles;
    let (t, regs, now) = timer.after_ticks(io, tac, at, a as nat);
    let (d, due_regs) = t.after_due(regs, now);
    let div = (d.div_counter >> 8) as u8;
    lemma_ticks_keep(timer, io, tac, at, a as nat, 0, 0);
    lemma_ticks_keep(d, due_regs, tac, now, b as nat, div, now);
    lemma_due_first(t, regs, tac, now, b as nat);
    law_ticks_compose(timer, io, tac, at, a as nat, b as nat);
    let (u, urs, end) = d.after_ticks(due_regs, tac, now, b as nat);
    let (v, vrs) = u.after_due(urs, end);
    let (x, xrs) = Timer { abs_cycles: now, ..u }.after_due(put(urs, 0x04, div), end);
    assert(xrs =~= put(vrs, 0x04, div));
    let last = (v.div_counter >> 8) as u8;
    assert(put(put(vrs, 0x04, div), 0x04, last) =~= put(vrs, 0x04, last));
}

} // verus!
