//! GBA timers (TM0-3).
//!
//! Four 16-bit timers at I/O offsets 0x100..0x110. They count up and may be
//! cascaded (clocked by the previous timer's overflow). On overflow a timer
//! raises its IRQ (flags 0-3) and reloads from its reload value.
//!
//! `step` is called with CPU cycles from the system root.

use crate::bits::{filled, put};
use vstd::prelude::*;

verus! {

/// Prescaler dividers for the two-bit prescaler field.
pub const DIVIDERS: [u32; 4] = [1, 64, 256, 1024];

/// IRQ flags for each timer overflow.
pub const IRQ: [u16; 4] = [0x1, 0x2, 0x4, 0x8];

#[derive(Clone, Copy, PartialEq, Eq, Structural, Debug)]
pub struct Timer {
    pub counter: u16,
    pub reload: u16,
    pub prescaler: u8,
    pub cascade: bool,
    pub irq_enable: bool,
    pub enabled: bool,
    pub ticks: u32,
}

impl Timer {
    pub open spec fn initial() -> Timer {
        Timer {
            counter: 0,
            reload: 0,
            prescaler: 0,
            cascade: false,
            irq_enable: false,
            enabled: false,
            ticks: 0,
        }
    }

    pub open spec fn wf(self) -> bool {
        self.prescaler < 4 && self.ticks < 1024
    }

    /// One count: the counter moves on, or reloads after 0xFFFF.
    pub open spec fn counted(self) -> Timer {
        Timer {
            counter: if self.counter == 0xFFFF {
                self.reload
            } else {
                (self.counter + 1) as u16
            },
            ..self
        }
    }

    fn is_valid(&self) -> (r: bool)
        ensures
            r == self.wf(),
    {
        self.prescaler < 4 && self.ticks < 1024
    }

    fn new() -> (r: Timer)
        ensures
            r == Timer::initial(),
    {
        Timer {
            counter: 0,
            reload: 0,
            prescaler: 0,
            cascade: false,
            irq_enable: false,
            enabled: false,
            ticks: 0,
        }
    }
}

/// The four GBA timers.
#[derive(Clone, Copy, PartialEq, Eq, Debug)]
pub struct Timers {
    pub t: [Timer; 4],
    /// Pending overflow IRQ flags (bits 0-3).
    pub flags: u16,
    /// Which timers overflowed during the most recent `step`.
    pub overflowed: [bool; 4],
}

impl Timers {
    pub open spec fn initial() -> Timers {
        Timers { t: filled(Timer::initial()), flags: 0, overflowed: filled(false) }
    }

    pub open spec fn wf(self) -> bool {
        forall|i: int| 0 <= i < 4 ==> (#[trigger] self.t[i]).wf()
    }

    pub fn new() -> (r: Timers)
        ensures
            r == Timers::initial(),
            r.wf(),
    {
        Timers { t: [Timer::new(); 4], flags: 0, overflowed: [false; 4] }
    }

    /// Whether timer `i` overflowed during the most recent `step`.
    pub fn just_overflowed(&self, i: usize) -> (r: bool)
        requires
            i < 4,
        ensures
            r == self.overflowed[i as int],
    {
        self.overflowed[i]
    }

    /// Timer `idx` with its reload value written, which it also counts from.
    pub open spec fn after_cnt_l(self, idx: int, value: u16) -> Timers {
        Timers { t: put(self.t, idx, Timer { reload: value, counter: value, ..self.t[idx] }), ..self }
    }

    /// Write to the low 16-bit reload register of timer `idx`.
    pub fn write_cnt_l(&mut self, idx: usize, value: u16)
        requires
            idx < 4,
        ensures
            *final(self) == old(self).after_cnt_l(idx as int, value),
            old(self).wf() ==> final(self).wf(),
    {
        self.t[idx].reload = value;
        self.t[idx].counter = value;
        assert(self.t =~= old(self).after_cnt_l(idx as int, value).t);
    }

    /// Timer `idx` with its control register written; a timer that is switched
    /// on starts a fresh prescaler period.
    pub open spec fn after_cnt_h(self, idx: int, value: u16) -> Timers {
        let t = self.t[idx];
        let on = value & 0x80 != 0;
        Timers {
            t: put(
                self.t,
                idx,
                Timer {
                    prescaler: (value % 4) as u8,
                    cascade: value & 0x04 != 0,
                    irq_enable: value & 0x40 != 0,
                    enabled: on,
                    ticks: if on {
                        0
                    } else {
                        t.ticks
                    },
                    counter: if on && t.counter == 0 && t.reload != 0 {
                        t.reload
                    } else {
                        t.counter
                    },
                    ..t
                },
            ),
            ..self
        }
    }

    /// Write to the high 16-bit control register of timer `idx`.
    pub fn write_cnt_h(&mut self, idx: usize, value: u16)
        requires
            idx < 4,
        ensures
            *final(self) == old(self).after_cnt_h(idx as int, value),
            old(self).wf() ==> final(self).wf(),
    {
        let mut t: Timer = self.t[idx];
        t.prescaler = (value % 4) as u8;
        t.cascade = value & 0x04 != 0;
        t.irq_enable = value & 0x40 != 0;
        t.enabled = value & 0x80 != 0;
        if t.enabled {
            t.ticks = 0;
            if t.counter == 0 && t.reload != 0 {
                t.counter = t.reload;
            }
        }
        self.t[idx] = t;
    }

    /// Read the current counter value.
    pub fn read_cnt_l(&self, idx: usize) -> (r: u16)
        requires
            idx < 4,
        ensures
            r == self.t[idx as int].counter,
    {
        self.t[idx].counter
    }

    /// Pending overflow IRQ flags (bits 0-3).
    pub fn irq_flags(&self) -> (r: u16)
        ensures
            r == self.flags,
    {
        self.flags
    }

    pub open spec fn cleared(self, mask: u16) -> Timers {
        Timers { flags: self.flags & !(mask & 0x0F), ..self }
    }

    /// Clear pending overflow IRQ flags (on IF write).
    pub fn clear_irq(&mut self, mask: u16)
        ensures
            *final(self) == old(self).cleared(mask),
            old(self).wf() ==> final(self).wf(),
    {
        self.flags = self.flags & !(mask & 0x0F);
    }

    /// Timer `i` counted once; an overflow is noted and raises its interrupt.
    pub open spec fn after_count(self, i: int) -> Timers {
        let t = self.t[i];
        if t.counter == 0xFFFF {
            Timers {
                t: put(self.t, i, t.counted()),
                overflowed: put(self.overflowed, i, true),
                flags: if t.irq_enable {
                    self.flags | IRQ[i]
                } else {
                    self.flags
                },
            }
        } else {
            Timers { t: put(self.t, i, t.counted()), ..self }
        }
    }

    /// One tick of timer `i`: its overflow ticks the next timer where that is
    /// cascaded.
    pub open spec fn after_tick(self, i: int) -> Timers
        decreases 3 - i,
    {
        let s = self.after_count(i);
        if self.t[i].counter == 0xFFFF && i < 3 && self.t[i + 1].enabled && self.t[i + 1].cascade {
            s.after_tick(i + 1)
        } else {
            s
        }
    }

    /// `n` ticks of timer `i`.
    pub open spec fn after_ticks(self, i: int, n: nat) -> Timers
        decreases n,
    {
        if n == 0 {
            self
        } else {
            self.after_ticks(i, (n - 1) as nat).after_tick(i)
        }
    }

    /// Timer `i` after `cycles` CPU cycles: one tick per prescaler period, at
    /// most 65536. Stopped and cascaded timers do not run by themselves.
    pub open spec fn after_cycles(self, i: int, cycles: u32) -> Timers {
        let t = self.t[i];
        if !t.enabled || t.cascade {
            self
        } else {
            let div = DIVIDERS[t.prescaler as int];
            let total = t.ticks + cycles;
            let steps = total / div as int;
            Timers {
                t: put(self.t, i, Timer { ticks: (total % div as int) as u32, ..t }),
                ..self
            }.after_ticks(
                i,
                (if steps < 0x1_0000 {
                    steps
                } else {
                    0x1_0000
                }) as nat,
            )
        }
    }

    /// The timers `cycles` CPU cycles on.
    #[verifier::opaque]
    pub open spec fn after_step(self, cycles: u32) -> Timers {
        Timers { overflowed: filled(false), ..self }.after_cycles(0, cycles).after_cycles(
            1,
            cycles,
        ).after_cycles(2, cycles).after_cycles(3, cycles)
    }

    fn count(&mut self, i: usize)
        requires
            i < 4,
            old(self).wf(),
        ensures
            *final(self) == old(self).after_count(i as int),
            final(self).wf(),
    {
        let t: Timer = self.t[i];
        if t.counter == 0xFFFF {
            self.overflowed[i] = true;
            if t.irq_enable {
                self.flags = self.flags | IRQ[i];
            }
            self.t[i] = Timer { counter: t.reload, ..t };
        } else {
            self.t[i] = Timer { counter: t.counter + 1, ..t };
        }
    }

    fn tick(&mut self, i: usize)
        requires
            i < 4,
            old(self).wf(),
        ensures
            *final(self) == old(self).after_tick(i as int),
            final(self).wf(),
        decreases 3 - i,
    {
        let overflows = self.t[i].counter == 0xFFFF;
        let cascades = overflows && i < 3 && self.t[i + 1].enabled && self.t[i + 1].cascade;
        self.count(i);
        if cascades {
            self.tick(i + 1);
        }
    }

    fn run(&mut self, i: usize, cycles: u32)
        requires
            i < 4,
            old(self).wf(),
        ensures
            *final(self) == old(self).after_cycles(i as int, cycles),
            final(self).wf(),
    {
        let t: Timer = self.t[i];
        if !t.enabled || t.cascade {
            return;
        }
        assert(self.t[i as int].wf());
        let div: u32 = DIVIDERS[t.prescaler as usize];
        let total: u64 = t.ticks as u64 + cycles as u64;
        let steps: u64 = total / div as u64;
        self.t[i] = Timer { ticks: (total % div as u64) as u32, ..t };
        let n: u32 = if steps < 0x1_0000 {
            steps as u32
        } else {
            0x1_0000
        };
        let ghost start = *self;
        let mut k: u32 = 0;
        while k < n
            invariant
                i < 4,
                k <= n,
                self.wf(),
                *self == start.after_ticks(i as int, k as nat),
            decreases n - k,
        {
            self.tick(i);
            k = k + 1;
        }
    }

    /// Advance the timers by `cycles` CPU cycles.
    pub fn step(&mut self, cycles: u32)
        requires
            old(self).wf(),
        ensures
            *final(self) == old(self).after_step(cycles),
            final(self).wf(),
    {
        reveal(Timers::after_step);
        self.overflowed = [false; 4];
        self.run(0, cycles);
        self.run(1, cycles);
        self.run(2, cycles);
        self.run(3, cycles);
    }

    /// Whether the timers can be stepped.
    pub fn is_valid(&self) -> (r: bool)
        ensures
            r == self.wf(),
    {
        self.t[0].is_valid() && self.t[1].is_valid() && self.t[2].is_valid() && self.t[3].is_valid()
    }

    /// Whether timer `i` is currently running.
    pub fn enabled(&self, i: usize) -> (r: bool)
        requires
            i < 4,
        ensures
            r == self.t[i as int].enabled,
    {
        self.t[i].enabled
    }
}

impl Default for Timers {
    fn default() -> (r: Timers)
        ensures
            r == Timers::initial(),
            r.wf(),
    {
        Timers::new()
    }
}

/// A timer that does not overflow counts one for every tick.
pub proof fn law_timer_counts(timers: Timers, i: int, n: nat)
    requires
        0 <= i < 4,
        timers.t[i].counter + n <= 0xFFFF,
    ensures
        timers.after_ticks(i, n).t[i].counter == timers.t[i].counter + n,
        timers.after_ticks(i, n).flags == timers.flags,
    decreases n,
{
    if n > 0 {
        law_timer_counts(timers, i, (n - 1) as nat);
    }
}

/// The overflow of a timer ticks the one behind it where that is cascaded, and
/// the overflow of that one the next.
pub proof fn law_cascade(timers: Timers, i: int)
    requires
        0 <= i < 3,
        timers.t[i].counter == 0xFFFF,
        timers.t[i + 1].enabled,
        timers.t[i + 1].cascade,
    ensures
        timers.after_tick(i) == timers.after_count(i).after_tick(i + 1),
        timers.after_tick(i).t[i].counter == timers.t[i].reload,
        timers.after_tick(i).t[i + 1] == timers.t[i + 1].counted(),
        timers.after_tick(i).overflowed[i],
        timers.t[i + 1].counter == 0xFFFF ==> timers.after_tick(i).overflowed[i + 1],
        timers.t[i + 1].counter == 0xFFFF && i < 2 && timers.t[i + 2].enabled && timers.t[i
            + 2].cascade ==> timers.after_tick(i).t[i + 2] == timers.t[i + 2].counted(),
{
    reveal_with_fuel(Timers::after_tick, 4);
}

} // verus!
