//! Cartridge real-time clock (Seiko S-3511A), bit-banged over the cartridge
//! GPIO port at 0x080000C4 (GBATEK, "GBA Cart Real-Time Clock").
//!
//! Pins on the GPIO data register: bit 0 = SCK (clock), bit 1 = SIO (data),
//! bit 2 = CS (chip select). A transfer starts when CS rises; every SCK rising
//! edge moves one bit. The command byte is sent MSB first and has the form
//! `0110 rrr w`: `rrr` selects the register (0 reset, 1 status, 2 date/time,
//! 3 time, 4 alarm) and the low bit is 1 for a read. Data bytes follow LSB
//! first: 1 byte of status, 7 bytes of BCD date/time (yy mm dd weekday hh mm
//! ss), 3 bytes of time (hh mm ss) or 2 bytes of alarm.
//!
//! The clock counts emulated cycles, so a run is deterministic; frontends seed
//! the wall-clock time through [`Rtc::set_unix_time`]. Seconds are counted
//! modulo 2^64.

use crate::bits::{be_bytes, filled, from_be, lemma_be_round_trip, put, to_be};
use vstd::prelude::*;
use vstd::wrapping::u64_specs;

verus! {

/// CPU cycles per second (16.78 MHz).
pub const CYCLES_PER_SECOND: u32 = 16_777_216;
/// 2000-01-01 00:00:00 UTC, the value the chip resets to.
pub const EPOCH_2000: u64 = 946_684_800;

pub const STATUS_24HOUR: u8 = 0x40;
pub const STATUS_POWER: u8 = 0x80;

#[derive(Clone, Copy, PartialEq, Eq, Structural, Debug)]
pub enum Phase {
    /// Waiting for the eight command bits.
    Command,
    /// Clocking data bits out to the GBA.
    Read,
    /// Clocking data bits in from the GBA.
    Write,
    /// Transfer finished; nothing more until CS drops.
    Done,
}

/// The cartridge RTC.
#[derive(Clone, Copy, PartialEq, Eq, Debug)]
pub struct Rtc {
    /// Seconds since the Unix epoch.
    pub unix: u64,
    /// Cycles accumulated towards the next second.
    pub sub_cycles: u32,
    pub status: u8,
    pub alarm: [u8; 2],
    // Pin state.
    pub sck: bool,
    pub cs: bool,
    // Transfer state.
    pub phase: Phase,
    pub shift: u8,
    pub bits: u8,
    pub register: u8,
    pub buf: [u8; 8],
    pub len: usize,
    /// Bit position within `buf` for the data phase.
    pub pos: usize,
    /// Level currently driven on SIO during a read.
    pub sio_out: bool,
}

/// Two decimal digits in one byte.
pub open spec fn bcd(v: int) -> u8 {
    (v / 10 * 16 + v % 10) as u8
}

/// The number that the two digits of a byte spell.
pub open spec fn bcd_value(v: u8) -> int {
    v / 16 * 10 + v % 16
}

fn to_bcd(v: u64) -> (r: u8)
    requires
        v < 100,
    ensures
        r == bcd(v as int),
{
    (v / 10 * 16 + v % 10) as u8
}

fn from_bcd(v: u8) -> (r: u64)
    ensures
        r == bcd_value(v),
        r <= 165,
{
    (v / 16) as u64 * 10 + (v % 16) as u64
}

/// Whether `y` is a leap year of the Gregorian calendar.
pub open spec fn leap(y: int) -> bool {
    y % 4 == 0 && (y % 100 != 0 || y % 400 == 0)
}

/// The number of days of month `m` of year `y`.
pub open spec fn month_days(y: int, m: int) -> int {
    if m == 2 {
        if leap(y) {
            29
        } else {
            28
        }
    } else if m == 4 || m == 6 || m == 9 || m == 11 {
        30
    } else {
        31
    }
}

pub open spec fn valid_date(y: int, m: int, d: int) -> bool {
    1 <= m <= 12 && 1 <= d <= month_days(y, m)
}

/// Days since 1970-01-01 to a civil date (year, month, day), proleptic
/// Gregorian; Howard Hinnant's `civil_from_days`.
pub open spec fn civil(days: int) -> (int, int, int) {
    let z = days + 719_468;
    let era = z / 146_097;
    let doe = z % 146_097;
    let yoe = (doe - doe / 1460 + doe / 36_524 - doe / 146_096) / 365;
    let y = yoe + era * 400;
    let doy = doe - (365 * yoe + yoe / 4 - yoe / 100);
    let mp = (5 * doy + 2) / 153;
    let d = doy - (153 * mp + 2) / 5 + 1;
    let m = if mp < 10 {
        mp + 3
    } else {
        mp - 9
    };
    (
        if m <= 2 {
            y + 1
        } else {
            y
        },
        m,
        d,
    )
}

/// The days from 1970-01-01 to a civil date.
pub open spec fn day_number(y: int, m: int, d: int) -> int {
    let yy = if m <= 2 {
        y - 1
    } else {
        y
    };
    let era = yy / 400;
    let yoe = yy % 400;
    let mp = if m > 2 {
        m - 3
    } else {
        m + 9
    };
    let doy = (153 * mp + 2) / 5 + d - 1;
    let doe = yoe * 365 + yoe / 4 - yoe / 100 + doy;
    era * 146_097 + doe - 719_468
}

/// The year of the era that day `doe` of it falls in, counted from March, and
/// the day of that year.
proof fn lemma_year_of_era(doe: int)
    requires
        0 <= doe < 146_097,
    ensures
        ({
            let yoe = (doe - doe / 1460 + doe / 36_524 - doe / 146_096) / 365;
            let doy = doe - (365 * yoe + yoe / 4 - yoe / 100);
            &&& 0 <= yoe < 400
            &&& 0 <= doy <= 365
            &&& doy == 365 ==> leap(yoe + 1)
        }),
{
    let yoe = (doe - doe / 1460 + doe / 36_524 - doe / 146_096) / 365;
    let c = doe / 36_524;
    let k = doe / 1460;
    if doe == 146_096 {
    } else {
        assert(doe / 146_096 == 0);
        assert(0 <= c <= 3);
        // Within the century, by groups of four years.
        let q = yoe / 4;
        let s = yoe % 4;
        assert(365 * yoe <= doe - k + c < 365 * yoe + 365);
        assert(1460 * k <= doe < 1460 * k + 1460);
        assert(365 * yoe == 1460 * q + 365 * s);
        assert(k == q || k == q + 1);
        assert(yoe / 100 == c) by {
            assert(36_524 * c <= doe < 36_524 * c + 36_524);
        }
    }
}

/// The civil date of a day is a valid one, and its day number is that day.
pub proof fn law_civil_date_of_a_day(days: int)
    ensures
        ({
            let (y, m, d) = civil(days);
            valid_date(y, m, d) && day_number(y, m, d) == days
        }),
{
    let z = days + 719_468;
    let era = z / 146_097;
    let doe = z % 146_097;
    lemma_year_of_era(doe);
    let yoe = (doe - doe / 1460 + doe / 36_524 - doe / 146_096) / 365;
    let doy = doe - (365 * yoe + yoe / 4 - yoe / 100);
    let mp = (5 * doy + 2) / 153;
    assert(0 <= mp <= 11);
    let (y, m, d) = civil(days);
    let yy = yoe + era * 400;
    assert(yy / 400 == era && yy % 400 == yoe);
    assert(leap(yoe + 1) == leap(yy + 1)) by {
        assert((yy + 1) % 4 == (yoe + 1) % 4);
        assert((yy + 1) % 100 == (yoe + 1) % 100);
        assert((yy + 1) % 400 == (yoe + 1) % 400);
    }
    assert(mp == 11 ==> d <= 29);
}

/// The year of the era comes back from the day of the era.
proof fn lemma_year_recovered(yoe: int, doy: int)
    requires
        0 <= yoe < 400,
        0 <= doy <= 365,
        doy == 365 ==> leap(yoe + 1),
    ensures
        ({
            let doe = yoe * 365 + yoe / 4 - yoe / 100 + doy;
            &&& 0 <= doe <= 146_096
            &&& (doe - doe / 1460 + doe / 36_524 - doe / 146_096) / 365 == yoe
        }),
{
    let doe = yoe * 365 + yoe / 4 - yoe / 100 + doy;
    let c = yoe / 100;
    let q = yoe / 4;
    let s = yoe % 4;
    let r = yoe % 100;
    assert(doe == 1461 * q + 365 * s - c + doy);
    assert(q == 25 * c + r / 4);
    assert(doe == 36_524 * c + 365 * r + r / 4 + doy);
    assert(365 * r + r / 4 + doy <= 36_524);
    assert(doe < 146_096 ==> doe / 36_524 == c);
    let part = q - c + 365 * s + doy;
    assert(doe == 1460 * q + part);
    assert(0 <= part < 2920);
    assert(doe / 1460 == if part < 1460 {
        q
    } else {
        q + 1
    });
    assert(doy == 365 ==> s == 3);
    assert(doe - doe / 1460 + doe / 36_524 - doe / 146_096 == 365 * yoe + doy + (if part < 1460 {
        0int
    } else {
        -1
    }));
}

/// The month comes back from the day of the year.
proof fn lemma_month_recovered(mp: int, d: int)
    requires
        0 <= mp <= 11,
        1 <= d <= 31,
        mp == 1 || mp == 3 || mp == 6 || mp == 8 ==> d <= 30,
        mp == 11 ==> d <= 29,
    ensures
        (5 * ((153 * mp + 2) / 5 + d - 1) + 2) / 153 == mp,
{
    if mp == 0 {
    } else if mp == 1 {
    } else if mp == 2 {
    } else if mp == 3 {
    } else if mp == 4 {
    } else if mp == 5 {
    } else if mp == 6 {
    } else if mp == 7 {
    } else if mp == 8 {
    } else if mp == 9 {
    } else if mp == 10 {
    } else {
    }
}

/// A leap year is one by its place in the era.
proof fn lemma_leap_in_era(era: int, n: int)
    ensures
        leap(era * 400 + n) == leap(n),
{
    let y = era * 400 + n;
    assert(y % 4 == n % 4);
    assert(y % 100 == n % 100);
    assert(y % 400 == n % 400);
}

/// The civil date of the day number of a date is that date.
pub proof fn law_day_number_of_a_date(y: int, m: int, d: int)
    requires
        valid_date(y, m, d),
    ensures
        civil(day_number(y, m, d)) == (y, m, d),
{
    let yy = if m <= 2 {
        y - 1
    } else {
        y
    };
    let era = yy / 400;
    let yoe = yy % 400;
    let mp = if m > 2 {
        m - 3
    } else {
        m + 9
    };
    let doy = (153 * mp + 2) / 5 + d - 1;
    let doe = yoe * 365 + yoe / 4 - yoe / 100 + doy;
    assert(yy == era * 400 + yoe);
    lemma_leap_in_era(era, yoe + 1);
    assert(m == 2 ==> leap(yoe + 1) == leap(y));
    assert(0 <= doy <= 365);
    assert(doy == 365 ==> m == 2 && d == 29);
    lemma_year_recovered(yoe, doy);
    lemma_month_recovered(mp, d);
    let z = day_number(y, m, d) + 719_468;
    assert(z == era * 146_097 + doe);
    assert(z / 146_097 == era && z % 146_097 == doe);
}

fn civil_from_days(days: u64) -> (r: (u64, u64, u64))
    requires
        days <= u64::MAX / 86_400,
    ensures
        r.0 == civil(days as int).0,
        r.1 == civil(days as int).1,
        r.2 == civil(days as int).2,
        1 <= r.1 <= 12,
        1 <= r.2 <= 31,
{
    let z: u64 = days + 719_468;
    let era: u64 = z / 146_097;
    let doe: u64 = z % 146_097;
    proof {
        lemma_year_of_era(doe as int);
        law_civil_date_of_a_day(days as int);
    }
    let yoe: u64 = (doe - doe / 1460 + doe / 36_524 - doe / 146_096) / 365;
    let y: u64 = yoe + era * 400;
    let doy: u64 = doe - (365 * yoe + yoe / 4 - yoe / 100);
    let mp: u64 = (5 * doy + 2) / 153;
    let d: u64 = doy - (153 * mp + 2) / 5 + 1;
    let m: u64 = if mp < 10 {
        mp + 3
    } else {
        mp - 9
    };
    (
        if m <= 2 {
            y + 1
        } else {
            y
        },
        m,
        d,
    )
}

fn days_from_civil(y: u64, m: u64, d: u64) -> (r: u64)
    requires
        1970 <= y <= 10_000,
        1 <= m <= 12,
        1 <= d <= 31,
    ensures
        r == day_number(y as int, m as int, d as int),
{
    let yy: u64 = if m <= 2 {
        y - 1
    } else {
        y
    };
    let era: u64 = yy / 400;
    let yoe: u64 = yy % 400;
    let mp: u64 = if m > 2 {
        m - 3
    } else {
        m + 9
    };
    let doy: u64 = (153 * mp + 2) / 5 + d - 1;
    let doe: u64 = yoe * 365 + yoe / 4 - yoe / 100 + doy;
    assert(yoe >= 369 || era >= 5);
    era * 146_097 + doe - 719_468
}

/// `v` moved into the range from `low` to `high`.
pub open spec fn clamped(v: int, low: int, high: int) -> int {
    if v < low {
        low
    } else if v > high {
        high
    } else {
        v
    }
}

fn clamp(v: u64, low: u64, high: u64) -> (r: u64)
    requires
        low <= high,
    ensures
        r == clamped(v as int, low as int, high as int),
{
    if v < low {
        low
    } else if v > high {
        high
    } else {
        v
    }
}

/// The number of data bytes of a register.
pub open spec fn register_len(register: u8) -> usize {
    match register {
        1 => 1,
        2 => 7,
        3 => 3,
        4 => 2,
        _ => 0,
    }
}

impl Rtc {
    pub open spec fn initial() -> Rtc {
        Rtc {
            unix: EPOCH_2000,
            sub_cycles: 0,
            status: STATUS_24HOUR,
            alarm: filled(0),
            sck: false,
            cs: false,
            phase: Phase::Command,
            shift: 0,
            bits: 0,
            register: 0,
            buf: filled(0),
            len: 0,
            pos: 0,
            sio_out: false,
        }
    }

    /// A transfer stays inside the buffer, and a command inside its byte.
    pub open spec fn wf(self) -> bool {
        &&& self.len <= 8
        &&& self.bits < 8
        &&& self.pos <= 64
        &&& self.phase == Phase::Read || self.phase == Phase::Write ==> self.pos < 64
    }

    pub fn new() -> (r: Rtc)
        ensures
            r == Rtc::initial(),
            r.wf(),
    {
        Rtc {
            unix: EPOCH_2000,
            sub_cycles: 0,
            status: STATUS_24HOUR,
            alarm: [0; 2],
            sck: false,
            cs: false,
            phase: Phase::Command,
            shift: 0,
            bits: 0,
            register: 0,
            buf: [0; 8],
            len: 0,
            pos: 0,
            sio_out: false,
        }
    }

    /// Whether the transfer state is one that pins can be driven from; a state
    /// loaded from untrusted bytes may not be.
    pub fn is_valid(&self) -> (r: bool)
        ensures
            r == self.wf(),
    {
        self.len <= 8 && self.bits < 8 && self.pos <= 64 && (self.pos < 64 || (self.phase
            != Phase::Read && self.phase != Phase::Write))
    }

    /// Seconds since the Unix epoch as the clock currently reads.
    pub fn unix_time(&self) -> (r: u64)
        ensures
            r == self.unix,
    {
        self.unix
    }

    /// Set the clock (frontends seed it from the host wall clock).
    pub fn set_unix_time(&mut self, unix: u64)
        ensures
            *final(self) == (Rtc { unix, sub_cycles: 0, ..*old(self) }),
    {
        self.unix = unix;
        self.sub_cycles = 0;
    }

    /// The clock `cycles` CPU cycles on.
    pub open spec fn after_cycles(self, cycles: u32) -> Rtc {
        let total = self.sub_cycles + cycles;
        Rtc {
            unix: u64_specs::wrapping_add(self.unix, (total / CYCLES_PER_SECOND as int) as u64),
            sub_cycles: (total % CYCLES_PER_SECOND as int) as u32,
            ..self
        }
    }

    /// Advance the clock by emulated CPU cycles.
    pub fn advance(&mut self, cycles: u32)
        requires
            old(self).sub_cycles + cycles <= u32::MAX,
        ensures
            *final(self) == old(self).after_cycles(cycles),
    {
        let total: u32 = self.sub_cycles + cycles;
        self.sub_cycles = total % CYCLES_PER_SECOND;
        self.unix = self.unix.wrapping_add((total / CYCLES_PER_SECOND) as u64);
    }

    /// The hour byte: in 12-hour mode bit 7 marks the afternoon.
    pub open spec fn hour_byte(self, hour: int) -> u8 {
        if self.status & STATUS_24HOUR != 0 {
            bcd(hour)
        } else if hour >= 12 {
            bcd(hour % 12) | 0x80
        } else {
            bcd(hour % 12)
        }
    }

    /// The seven BCD date/time bytes: yy mm dd weekday hh mm ss.
    pub open spec fn date_time(self) -> [u8; 7] {
        let days = self.unix as int / 86_400;
        let secs = self.unix as int % 86_400;
        let (y, m, d) = civil(days);
        [
            bcd(y % 100),
            bcd(m),
            bcd(d),
            // 1970-01-01 was a Thursday; the chip counts Sunday as 0.
            ((days + 4) % 7) as u8,
            self.hour_byte(secs / 3600),
            bcd(secs % 3600 / 60),
            bcd(secs % 60),
        ]
    }

    fn date_time_bytes(&self) -> (r: [u8; 7])
        ensures
            r == self.date_time(),
    {
        let days: u64 = self.unix / 86_400;
        let secs: u64 = self.unix % 86_400;
        let (y, m, d) = civil_from_days(days);
        let hour24: u64 = secs / 3600;
        let hour: u8 = if self.status & STATUS_24HOUR != 0 {
            to_bcd(hour24)
        } else if hour24 >= 12 {
            to_bcd(hour24 % 12) | 0x80
        } else {
            to_bcd(hour24 % 12)
        };
        let r: [u8; 7] = [
            to_bcd(y % 100),
            to_bcd(m),
            to_bcd(d),
            ((days + 4) % 7) as u8,
            hour,
            to_bcd(secs % 3600 / 60),
            to_bcd(secs % 60),
        ];
        assert(r =~= self.date_time());
        r
    }

    /// The seconds of the day that three time bytes name.
    pub open spec fn seconds_of(self, h: u8, m: u8, s: u8) -> int {
        let hour = bcd_value((h % 64) as u8);
        let hour24 = if self.status & STATUS_24HOUR == 0 && h & 0x80 != 0 {
            hour % 12 + 12
        } else {
            hour
        };
        hour24 * 3600 + bcd_value(m) * 60 + bcd_value(s)
    }

    /// The clock set to a time on day `days`.
    pub open spec fn set_to(self, days: int, h: u8, m: u8, s: u8) -> Rtc {
        Rtc {
            unix: u64_specs::wrapping_add((days * 86_400) as u64, self.seconds_of(h, m, s) as u64),
            sub_cycles: 0,
            ..self
        }
    }

    /// The clock set to the date and time in the seven bytes `b`.
    pub open spec fn dated(self, b: [u8; 7]) -> Rtc {
        self.set_to(
            day_number(
                2000 + bcd_value(b[0]),
                clamped(bcd_value(b[1]), 1, 12),
                clamped(bcd_value(b[2]), 1, 31),
            ),
            b[4],
            b[5],
            b[6],
        )
    }

    fn set_date_time(&mut self, b: &[u8; 7])
        ensures
            *final(self) == old(self).dated(*b),
    {
        let y: u64 = 2000 + from_bcd(b[0]);
        let m: u64 = clamp(from_bcd(b[1]), 1, 12);
        let d: u64 = clamp(from_bcd(b[2]), 1, 31);
        let days: u64 = days_from_civil(y, m, d);
        assert(days <= 100_000);
        self.set_time_of_day(b[4], b[5], b[6], days);
    }

    fn set_time_of_day(&mut self, h: u8, m: u8, s: u8, days: u64)
        requires
            days <= u64::MAX / 86_400,
        ensures
            *final(self) == old(self).set_to(days as int, h, m, s),
    {
        let mut hour: u64 = from_bcd(h % 64);
        if self.status & STATUS_24HOUR == 0 && h & 0x80 != 0 {
            hour = hour % 12 + 12;
        }
        let secs: u64 = hour * 3600 + from_bcd(m) * 60 + from_bcd(s);
        self.unix = (days * 86_400).wrapping_add(secs);
        self.sub_cycles = 0;
    }

    /// The chip after its select pin took the level `cs`: every change aborts
    /// the transfer.
    pub open spec fn selected(self, cs: bool) -> Rtc {
        if cs != self.cs {
            Rtc { cs, phase: Phase::Command, shift: 0, bits: 0, pos: 0, sio_out: false, ..self }
        } else {
            self
        }
    }

    /// The chip after a rising clock edge with the level `sio` on the data pin.
    pub open spec fn clocked(self, sio: bool) -> Rtc {
        match self.phase {
            Phase::Command => {
                let shift = ((self.shift % 128) * 2 + (if sio {
                    1int
                } else {
                    0
                })) as u8;
                if self.bits == 7 {
                    Rtc { shift, bits: 0, ..self }.commanded(shift)
                } else {
                    Rtc { shift, bits: (self.bits + 1) as u8, ..self }
                }
            },
            Phase::Read => {
                let byte = self.buf[self.pos as int / 8];
                Rtc {
                    sio_out: (byte >> ((self.pos % 8) as u8)) & 1 != 0,
                    pos: (self.pos + 1) as usize,
                    phase: if self.pos + 1 >= self.len * 8 {
                        Phase::Done
                    } else {
                        Phase::Read
                    },
                    ..self
                }
            },
            Phase::Write => {
                let byte = self.buf[self.pos as int / 8];
                let r = Rtc {
                    buf: if sio {
                        put(self.buf, self.pos as int / 8, byte | (1u8 << ((self.pos % 8) as u8)))
                    } else {
                        self.buf
                    },
                    pos: (self.pos + 1) as usize,
                    ..self
                };
                if r.pos >= r.len * 8 {
                    Rtc { phase: Phase::Done, ..r.written() }
                } else {
                    r
                }
            },
            Phase::Done => self,
        }
    }

    /// The chip after the pins were driven.
    pub open spec fn after_pins(self, pins: u8) -> Rtc {
        let sck = pins & 1 != 0;
        let s = self.selected(pins & 4 != 0);
        let r = Rtc { sck, ..s };
        if pins & 4 != 0 && sck && !self.sck {
            r.clocked(pins & 2 != 0)
        } else {
            r
        }
    }

    /// Drive the GPIO pins from the GBA side: bit 0 = SCK, bit 1 = SIO, bit 2
    /// = CS. Only the levels of pins configured as outputs are meaningful.
    pub fn write_pins(&mut self, pins: u8)
        requires
            old(self).wf(),
        ensures
            *final(self) == old(self).after_pins(pins),
            final(self).wf(),
    {
        let sck = pins & 1 != 0;
        let cs = pins & 4 != 0;
        if cs != self.cs {
            self.cs = cs;
            // A new transfer starts on every CS rise; CS low aborts.
            self.phase = Phase::Command;
            self.shift = 0;
            self.bits = 0;
            self.pos = 0;
            self.sio_out = false;
        }
        let rising = sck && !self.sck;
        self.sck = sck;
        if !cs || !rising {
            return;
        }
        self.clock(pins & 2 != 0);
    }

    fn clock(&mut self, sio: bool)
        requires
            old(self).wf(),
        ensures
            *final(self) == old(self).clocked(sio),
            final(self).wf(),
    {
        match self.phase {
            Phase::Command => {
                self.shift = self.shift % 128 * 2 + (if sio {
                    1
                } else {
                    0
                });
                if self.bits == 7 {
                    self.bits = 0;
                    self.start_command(self.shift);
                } else {
                    self.bits = self.bits + 1;
                }
            },
            Phase::Read => {
                let byte: usize = self.pos / 8;
                self.sio_out = (self.buf[byte] >> ((self.pos % 8) as u8)) & 1 != 0;
                self.pos = self.pos + 1;
                if self.pos >= self.len * 8 {
                    self.phase = Phase::Done;
                }
            },
            Phase::Write => {
                let byte: usize = self.pos / 8;
                if sio {
                    self.buf[byte] = self.buf[byte] | (1u8 << ((self.pos % 8) as u8));
                }
                self.pos = self.pos + 1;
                if self.pos >= self.len * 8 {
                    self.finish_write();
                    self.phase = Phase::Done;
                }
            },
            Phase::Done => {},
        }
    }

    /// The bytes that a read of the register sends.
    pub open spec fn reply(self, register: u8) -> [u8; 8] {
        let dt = self.date_time();
        match register {
            1 => put(filled(0), 0, self.status),
            2 => [dt[0], dt[1], dt[2], dt[3], dt[4], dt[5], dt[6], 0],
            3 => put(put(put(filled(0), 0, dt[4]), 1, dt[5]), 2, dt[6]),
            _ => put(put(filled(0), 0, self.alarm[0]), 1, self.alarm[1]),
        }
    }

    /// The chip after the command byte `cmd`.
    pub open spec fn commanded(self, cmd: u8) -> Rtc {
        let register = (cmd / 2 % 8) as u8;
        let r = Rtc {
            register,
            len: register_len(register),
            buf: filled(0),
            pos: 0,
            ..self
        };
        if cmd & 0xF0 != 0x60 {
            Rtc { phase: Phase::Done, ..self }
        } else if register == 0 {
            // Reset: 2000-01-01 00:00:00, 24-hour mode, flags clear.
            Rtc {
                unix: EPOCH_2000,
                sub_cycles: 0,
                status: STATUS_24HOUR,
                alarm: filled(0),
                phase: Phase::Done,
                ..r
            }
        } else if r.len == 0 {
            Rtc { phase: Phase::Done, ..r }
        } else if cmd % 2 != 0 {
            Rtc { buf: self.reply(register), phase: Phase::Read, ..r }
        } else {
            Rtc { phase: Phase::Write, ..r }
        }
    }

    fn start_command(&mut self, cmd: u8)
        requires
            old(self).wf(),
        ensures
            *final(self) == old(self).commanded(cmd),
            final(self).wf(),
    {
        if cmd & 0xF0 != 0x60 {
            self.phase = Phase::Done;
            return;
        }
        self.register = cmd / 2 % 8;
        self.len = match self.register {
            1 => 1,
            2 => 7,
            3 => 3,
            4 => 2,
            _ => 0,
        };
        self.buf = [0; 8];
        self.pos = 0;
        if self.register == 0 {
            self.unix = EPOCH_2000;
            self.sub_cycles = 0;
            self.status = STATUS_24HOUR;
            self.alarm = [0; 2];
            self.phase = Phase::Done;
            return;
        }
        if self.len == 0 {
            self.phase = Phase::Done;
            return;
        }
        if cmd % 2 != 0 {
            let dt: [u8; 7] = self.date_time_bytes();
            match self.register {
                1 => {
                    self.buf[0] = self.status;
                },
                2 => {
                    self.buf = [dt[0], dt[1], dt[2], dt[3], dt[4], dt[5], dt[6], 0];
                },
                3 => {
                    self.buf[0] = dt[4];
                    self.buf[1] = dt[5];
                    self.buf[2] = dt[6];
                },
                _ => {
                    self.buf[0] = self.alarm[0];
                    self.buf[1] = self.alarm[1];
                },
            }
            assert(self.buf =~= old(self).reply(self.register));
            self.phase = Phase::Read;
        } else {
            self.phase = Phase::Write;
        }
    }

    /// The chip after the last data bit of a write: the register takes the
    /// bytes of the buffer.
    pub open spec fn written(self) -> Rtc {
        let b = self.buf;
        match self.register {
            // Only the mode/interrupt bits are writable; a write also
            // acknowledges the power-failure flag.
            1 => Rtc { status: (b[0] & 0x6A) | (self.status & 0x15), ..self },
            2 => self.dated([b[0], b[1], b[2], b[3], b[4], b[5], b[6]]),
            3 => self.set_to(self.unix as int / 86_400, b[0], b[1], b[2]),
            4 => Rtc { alarm: [b[0], b[1]], ..self },
            _ => self,
        }
    }

    fn finish_write(&mut self)
        ensures
            *final(self) == old(self).written(),
    {
        let b: [u8; 8] = self.buf;
        match self.register {
            1 => {
                self.status = (b[0] & 0x6A) | (self.status & 0x15);
            },
            2 => {
                let date: [u8; 7] = [b[0], b[1], b[2], b[3], b[4], b[5], b[6]];
                self.set_date_time(&date);
            },
            3 => {
                let days: u64 = self.unix / 86_400;
                self.set_time_of_day(b[0], b[1], b[2], days);
            },
            4 => {
                self.alarm = [b[0], b[1]];
            },
            _ => {},
        }
    }

    /// Level the chip drives on SIO (valid while the GBA reads the pin).
    pub fn sio_out(&self) -> (r: bool)
        ensures
            r == self.sio_out,
    {
        self.sio_out
    }

    /// The pin levels in one byte.
    pub open spec fn pin_byte(self) -> u8 {
        (self.sck as u8 + self.cs as u8 * 2 + self.sio_out as u8 * 4) as u8
    }

    pub open spec fn phase_code(self) -> u8 {
        match self.phase {
            Phase::Command => 0,
            Phase::Read => 1,
            Phase::Write => 2,
            Phase::Done => 3,
        }
    }

    /// The clock and the transfer as bytes.
    pub open spec fn encoded(self) -> [u8; 32] {
        let u = be_bytes(self.unix);
        let b = self.buf;
        [
            u[7], u[6], u[5], u[4], u[3], u[2], u[1], u[0],
            (self.sub_cycles % 256) as u8,
            (self.sub_cycles / 0x100 % 256) as u8,
            (self.sub_cycles / 0x1_0000 % 256) as u8,
            (self.sub_cycles / 0x100_0000 % 256) as u8,
            self.status,
            self.alarm[0],
            self.alarm[1],
            self.pin_byte(),
            self.phase_code(),
            self.shift,
            self.bits,
            self.register,
            b[0], b[1], b[2], b[3], b[4], b[5], b[6], b[7],
            (self.len % 256) as u8,
            (self.pos % 256) as u8,
            0,
            0,
        ]
    }

    /// Transient protocol state and clock for save states.
    pub fn save_state(&self) -> (r: [u8; 32])
        ensures
            r == self.encoded(),
    {
        let u: [u8; 8] = to_be(self.unix);
        let b: [u8; 8] = self.buf;
        let phase: u8 = match self.phase {
            Phase::Command => 0,
            Phase::Read => 1,
            Phase::Write => 2,
            Phase::Done => 3,
        };
        let r: [u8; 32] = [
            u[7], u[6], u[5], u[4], u[3], u[2], u[1], u[0],
            (self.sub_cycles % 256) as u8,
            (self.sub_cycles / 0x100 % 256) as u8,
            (self.sub_cycles / 0x1_0000 % 256) as u8,
            (self.sub_cycles / 0x100_0000 % 256) as u8,
            self.status,
            self.alarm[0],
            self.alarm[1],
            self.sck as u8 + self.cs as u8 * 2 + self.sio_out as u8 * 4,
            phase,
            self.shift,
            self.bits,
            self.register,
            b[0], b[1], b[2], b[3], b[4], b[5], b[6], b[7],
            (self.len % 256) as u8,
            (self.pos % 256) as u8,
            0,
            0,
        ];
        assert(r =~= self.encoded());
        r
    }

    /// The chip that the bytes `b` describe.
    pub open spec fn decoded(b: [u8; 32]) -> Rtc {
        Rtc {
            unix: from_be(seq![b[7], b[6], b[5], b[4], b[3], b[2], b[1], b[0]]),
            sub_cycles: (b[8] + b[9] * 0x100 + b[10] * 0x1_0000 + b[11] * 0x100_0000) as u32,
            status: b[12],
            alarm: [b[13], b[14]],
            sck: b[15] % 2 != 0,
            cs: b[15] / 2 % 2 != 0,
            sio_out: b[15] / 4 % 2 != 0,
            phase: match b[16] {
                1 => Phase::Read,
                2 => Phase::Write,
                3 => Phase::Done,
                _ => Phase::Command,
            },
            shift: b[17],
            bits: b[18],
            register: b[19],
            buf: [b[20], b[21], b[22], b[23], b[24], b[25], b[26], b[27]],
            len: if b[28] < 8 {
                b[28] as usize
            } else {
                8
            },
            pos: if b[29] < 64 {
                b[29] as usize
            } else {
                64
            },
        }
    }

    pub fn load_state(&mut self, b: &[u8; 32])
        ensures
            *final(self) == Rtc::decoded(*b),
    {
        let high: u64 = ((b[7] as u64 * 256 + b[6] as u64) * 256 + b[5] as u64) * 256 + b[4] as u64;
        self.unix = (((high * 256 + b[3] as u64) * 256 + b[2] as u64) * 256 + b[1] as u64) * 256
            + b[0] as u64;
        self.sub_cycles =
        b[8] as u32 + b[9] as u32 * 0x100 + b[10] as u32 * 0x1_0000 + b[11] as u32 * 0x100_0000;
        self.status = b[12];
        self.alarm = [b[13], b[14]];
        self.sck = b[15] % 2 != 0;
        self.cs = b[15] / 2 % 2 != 0;
        self.sio_out = b[15] / 4 % 2 != 0;
        self.phase = match b[16] {
            1 => Phase::Read,
            2 => Phase::Write,
            3 => Phase::Done,
            _ => Phase::Command,
        };
        self.shift = b[17];
        self.bits = b[18];
        self.register = b[19];
        self.buf = [b[20], b[21], b[22], b[23], b[24], b[25], b[26], b[27]];
        self.len = if b[28] < 8 {
            b[28] as usize
        } else {
            8
        };
        self.pos = if b[29] < 64 {
            b[29] as usize
        } else {
            64
        };
    }
}

impl Default for Rtc {
    fn default() -> (r: Rtc)
        ensures
            r == Rtc::initial(),
            r.wf(),
    {
        Rtc::new()
    }
}

/// A saved clock comes back as it was, transfer and all.
pub proof fn law_rtc_state_round_trip(r: Rtc)
    requires
        r.wf(),
    ensures
        Rtc::decoded(r.encoded()) == r,
{
    lemma_be_round_trip(r.unix);
    let b = r.encoded();
    let u = seq![b[7], b[6], b[5], b[4], b[3], b[2], b[1], b[0]];
    assert(u =~= be_bytes(r.unix));
    let d = Rtc::decoded(b);
    assert(d.alarm =~= r.alarm);
    assert(d.buf =~= r.buf);
}

/// Whether `b` holds two decimal digits.
pub open spec fn is_bcd(b: u8) -> bool {
    b / 16 <= 9 && b % 16 <= 9
}

/// A date and time written in 24-hour mode read back, with the weekday that
/// belongs to the date.
pub proof fn law_date_time_reads_back(r: Rtc, b: [u8; 7])
    requires
        r.status & STATUS_24HOUR != 0,
        forall|i: int| 0 <= i < 7 ==> is_bcd(#[trigger] b[i]),
        valid_date(2000 + bcd_value(b[0]), bcd_value(b[1]), bcd_value(b[2])),
        bcd_value(b[4]) < 24,
        bcd_value(b[5]) < 60,
        bcd_value(b[6]) < 60,
    ensures
        ({
            let t = r.dated(b).date_time();
            t[0] == b[0] && t[1] == b[1] && t[2] == b[2] && t[4] == b[4] && t[5] == b[5] && t[6]
                == b[6]
        }),
{
    lemma_bcd(b[0]);
    lemma_bcd(b[1]);
    lemma_bcd(b[2]);
    lemma_bcd(b[4]);
    lemma_bcd(b[5]);
    lemma_bcd(b[6]);
    let y = 2000 + bcd_value(b[0]);
    let m = bcd_value(b[1]);
    let d = bcd_value(b[2]);
    let days = day_number(y, m, d);
    assert(0 <= days <= 100_000) by {
        lemma_century(y, m, d);
    }
    assert(civil(days) == (y, m, d)) by {
        law_day_number_of_a_date(y, m, d);
    }
    lemma_seconds(days, bcd_value(b[4]), bcd_value(b[5]), bcd_value(b[6]));
    let n = r.dated(b);
    assert(b[4] % 64 == b[4]);
    assert(n.unix == days * 86_400 + bcd_value(b[4]) * 3600 + bcd_value(b[5]) * 60 + bcd_value(b[6]));
    assert(y % 100 == bcd_value(b[0]));
}

proof fn lemma_bcd(b: u8)
    requires
        is_bcd(b),
    ensures
        bcd(bcd_value(b)) == b,
        0 <= bcd_value(b) <= 99,
{
}

/// The dates that two year digits can name lie within 2000 to 2099.
proof fn lemma_century(y: int, m: int, d: int)
    requires
        2000 <= y <= 2099,
        1 <= m <= 12,
        1 <= d <= 31,
    ensures
        0 <= day_number(y, m, d) <= 100_000,
{
}

/// Hours, minutes and seconds come back from the seconds of a day.
proof fn lemma_seconds(days: int, h: int, m: int, s: int)
    requires
        0 <= h < 24,
        0 <= m < 60,
        0 <= s < 60,
    ensures
        ({
            let unix = days * 86_400 + h * 3600 + m * 60 + s;
            let secs = unix % 86_400;
            unix / 86_400 == days && secs / 3600 == h && secs % 3600 / 60 == m && secs % 60 == s
        }),
{
    let secs = h * 3600 + m * 60 + s;
    assert(0 <= secs < 86_400);
    assert((days * 86_400 + secs) / 86_400 == days);
    assert(secs / 3600 == h);
    assert(secs % 3600 == m * 60 + s);
}

/// The clock runs at one second per [`CYCLES_PER_SECOND`] cycles, however the
/// cycles are split.
pub proof fn law_clock_advances_compose(r: Rtc, a: u32, b: u32)
    requires
        r.sub_cycles + a + b <= u32::MAX,
    ensures
        r.after_cycles(a).after_cycles(b) == r.after_cycles((a + b) as u32),
{
}

} // verus!
