//! GBA DMA channels (DMA0-3).
//!
//! Four DMA channels at I/O offsets 0xB0..0xDE. Each has a 32-bit source,
//! 32-bit destination, 16-bit transfer count, and a 16-bit control word
//! selecting the start timing, transfer unit (16/32-bit), and source/destination
//! address adjustment. Channels trigger on immediate, VBlank, or HBlank timing
//! (and special game-pak transfers via DMA3).
//!
//! [`Dma::run`] is called by the system root at the appropriate points in the
//! frame with the bus to perform any pending transfers.

use crate::bits::{filled, put};
use crate::gba::bus::Bus;
use vstd::prelude::*;
use vstd::wrapping::u32_specs;

verus! {

/// Base I/O offset of each DMA channel.
pub const BASE: [usize; 4] = [0xB0, 0xBC, 0xC8, 0xD4];

/// Control-word bit flags (CNT_H).
pub const EN: u16 = 0x8000;
pub const IRQ: u16 = 0x4000;
pub const REPEAT: u16 = 0x2000;

/// The interrupt flag of each channel (bits 4-7).
pub const FLAGS: [u16; 4] = [0x10, 0x20, 0x40, 0x80];

/// Start-timing values.
#[derive(Clone, Copy, PartialEq, Eq, Structural, Debug)]
pub enum Timing {
    Immediate,
    VBlank,
    HBlank,
    Special,
}

#[derive(Clone, Copy, PartialEq, Eq, Structural, Debug)]
pub struct Channel {
    pub src: u32,
    pub dst: u32,
    pub count: u16,
    pub control: u16,
    pub enabled: bool,
    /// Set once the transfer has been performed for a frame/event (used to
    /// implement repeat).
    pub done: bool,
}

impl Channel {
    pub open spec fn initial() -> Channel {
        Channel { src: 0, dst: 0, count: 0, control: 0, enabled: false, done: false }
    }

    fn new() -> (r: Channel)
        ensures
            r == Channel::initial(),
    {
        Channel { src: 0, dst: 0, count: 0, control: 0, enabled: false, done: false }
    }

    /// The start timing: control bits 11 and 12.
    pub open spec fn starts_at(self) -> Timing {
        let t = self.control / 0x800 % 4;
        if t == 1 {
            Timing::VBlank
        } else if t == 2 {
            Timing::HBlank
        } else if t == 3 {
            Timing::Special
        } else {
            Timing::Immediate
        }
    }

    pub fn timing(&self) -> (r: Timing)
        ensures
            r == self.starts_at(),
    {
        match self.control / 0x800 % 4 {
            1 => Timing::VBlank,
            2 => Timing::HBlank,
            3 => Timing::Special,
            _ => Timing::Immediate,
        }
    }

    /// Whether words are moved: control bits 9 and 10 hold 1.
    pub open spec fn words(self) -> bool {
        self.control / 0x200 % 4 == 1
    }

    pub fn unit_32(&self) -> (r: bool)
        ensures
            r == self.words(),
    {
        self.control / 0x200 % 4 == 1
    }

    /// The adjustment of the destination: control bits 5 and 6.
    pub open spec fn dst_mode(self) -> u8 {
        (self.control / 0x20 % 4) as u8
    }

    pub fn dst_adjust(&self) -> (r: u8)
        ensures
            r == self.dst_mode(),
    {
        (self.control / 0x20 % 4) as u8
    }

    /// The adjustment of the source: control bits 7 and 8.
    pub open spec fn src_mode(self) -> u8 {
        (self.control / 0x80 % 4) as u8
    }

    pub fn src_adjust(&self) -> (r: u8)
        ensures
            r == self.src_mode(),
    {
        (self.control / 0x80 % 4) as u8
    }

    pub fn irq_enable(&self) -> (r: bool)
        ensures
            r == (self.control & IRQ != 0),
    {
        self.control & IRQ != 0
    }

    pub fn repeat(&self) -> (r: bool)
        ensures
            r == (self.control & REPEAT != 0),
    {
        self.control & REPEAT != 0
    }

    /// Whether the channel moves data when `timing` comes. Special transfers
    /// are not run here.
    pub open spec fn fires(self, timing: Timing) -> bool {
        self.enabled && !self.done && self.starts_at() == timing && timing != Timing::Special
    }

    pub fn is_due(&self, timing: Timing) -> (r: bool)
        ensures
            r == self.fires(timing),
    {
        self.enabled && !self.done && self.timing() == timing && timing != Timing::Special
    }

    /// The channel after a transfer that ended at `src` and `dst`: without
    /// repeat it switches itself off.
    pub open spec fn finished(self, src: u32, dst: u32) -> Channel {
        let on = self.enabled && self.control & REPEAT != 0;
        Channel { src, dst, enabled: on, done: !on, ..self }
    }

    pub fn finish(&self, src: u32, dst: u32) -> (r: Channel)
        ensures
            r == self.finished(src, dst),
    {
        let on = self.enabled && self.repeat();
        Channel { src, dst, enabled: on, done: !on, ..*self }
    }

    /// The bytes of one unit.
    pub open spec fn unit(self) -> u32 {
        if self.words() {
            4
        } else {
            2
        }
    }
}

/// The address after one unit.
pub open spec fn adjusted(addr: u32, unit: u32, mode: u8) -> u32 {
    if mode == 1 {
        u32_specs::wrapping_sub(addr, unit)
    } else if mode == 2 {
        addr
    } else {
        u32_specs::wrapping_add(addr, unit)
    }
}

/// Address adjustment applied to a source/destination pointer after a transfer.
pub fn adjust(addr: u32, unit: u32, mode: u8) -> (r: u32)
    ensures
        r == adjusted(addr, unit, mode),
{
    match mode {
        1 => addr.wrapping_sub(unit),
        2 => addr,
        _ => addr.wrapping_add(unit),
    }
}

/// The four GBA DMA channels.
#[derive(Clone, Copy, PartialEq, Eq, Debug)]
pub struct Dma {
    pub chans: [Channel; 4],
    /// Pending DMA IRQ flags (bits 4-7).
    pub flags: u16,
}

impl Dma {
    pub open spec fn initial() -> Dma {
        Dma { chans: filled(Channel::initial()), flags: 0 }
    }

    pub fn new() -> (r: Dma)
        ensures
            r == Dma::initial(),
    {
        Dma { chans: [Channel::new(); 4], flags: 0 }
    }

    /// The channel that an I/O offset belongs to: each has twelve bytes.
    pub open spec fn channel_at(offset: int) -> Option<int> {
        if 0xB0 <= offset < 0xBC {
            Some(0)
        } else if 0xBC <= offset < 0xC8 {
            Some(1)
        } else if 0xC8 <= offset < 0xD4 {
            Some(2)
        } else if 0xD4 <= offset < 0xE0 {
            Some(3)
        } else {
            None
        }
    }

    fn chan_index(offset: usize) -> (r: Option<(usize, usize)>)
        ensures
            match r {
                Some((i, sub)) => i < 4 && Dma::channel_at(offset as int) == Some(i as int) && sub
                    == offset - BASE[i as int],
                None => Dma::channel_at(offset as int) is None,
            },
    {
        let mut i: usize = 0;
        while i < 4
            invariant
                i <= 4,
                i >= 1 ==> !(0xB0 <= offset < 0xBC),
                i >= 2 ==> !(0xBC <= offset < 0xC8),
                i >= 3 ==> !(0xC8 <= offset < 0xD4),
                i >= 4 ==> !(0xD4 <= offset < 0xE0),
            decreases 4 - i,
        {
            let base: usize = BASE[i];
            if offset >= base && offset < base + 0xC {
                return Some((i, offset - base));
            }
            i = i + 1;
        }
        None
    }

    /// The channel after `value` was written to its register `sub`.
    pub open spec fn channel_written(ch: Channel, sub: int, value: u16) -> Channel {
        if sub == 0 {
            Channel { src: (ch.src / 0x1_0000 * 0x1_0000 + value) as u32, ..ch }
        } else if sub == 2 {
            Channel { src: (ch.src % 0x1_0000 + value * 0x1_0000) as u32, ..ch }
        } else if sub == 4 {
            Channel { dst: (ch.dst / 0x1_0000 * 0x1_0000 + value) as u32, ..ch }
        } else if sub == 6 {
            Channel { dst: (ch.dst % 0x1_0000 + value * 0x1_0000) as u32, ..ch }
        } else if sub == 8 {
            let n = value % 0x4000;
            Channel {
                count: if n == 0 {
                    0x4000
                } else {
                    n as u16
                },
                ..ch
            }
        } else if sub == 0xA {
            Channel {
                control: value,
                enabled: value & EN != 0,
                done: ch.done && value & EN == 0,
                ..ch
            }
        } else {
            ch
        }
    }

    pub open spec fn after_write16(self, offset: int, value: u16) -> Dma {
        match Dma::channel_at(offset) {
            Some(i) => Dma {
                chans: put(
                    self.chans,
                    i,
                    Dma::channel_written(self.chans[i], offset - BASE[i], value),
                ),
                ..self
            },
            None => self,
        }
    }

    /// Write a 16-bit register in the DMA region.
    pub fn write16(&mut self, offset: usize, value: u16)
        ensures
            *final(self) == old(self).after_write16(offset as int, value),
    {
        let (i, sub) = match Dma::chan_index(offset) {
            Some(found) => found,
            None => return,
        };
        let mut ch: Channel = self.chans[i];
        match sub {
            0 => {
                ch.src = ch.src / 0x1_0000 * 0x1_0000 + value as u32;
            },
            2 => {
                ch.src = ch.src % 0x1_0000 + value as u32 * 0x1_0000;
            },
            4 => {
                ch.dst = ch.dst / 0x1_0000 * 0x1_0000 + value as u32;
            },
            6 => {
                ch.dst = ch.dst % 0x1_0000 + value as u32 * 0x1_0000;
            },
            8 => {
                ch.count = value % 0x4000;
                if ch.count == 0 {
                    ch.count = 0x4000;
                }
            },
            0xA => {
                ch.control = value;
                if value & EN != 0 {
                    ch.enabled = true;
                    ch.done = false;
                } else {
                    ch.enabled = false;
                }
            },
            _ => {},
        }
        self.chans[i] = ch;
    }

    /// Pending DMA IRQ flags (bits 4-7).
    pub fn irq_flags(&self) -> (r: u16)
        ensures
            r == self.flags,
    {
        self.flags
    }

    pub open spec fn cleared(self, mask: u16) -> Dma {
        Dma { flags: self.flags & !(mask & 0x00F0), ..self }
    }

    /// Clear pending DMA IRQ flags (on IF write).
    pub fn clear_irq(&mut self, mask: u16)
        ensures
            *final(self) == old(self).cleared(mask),
    {
        self.flags = self.flags & !(mask & 0x00F0);
    }

    /// The channels and the bus after channel `i` had its turn.
    pub open spec fn after_channel(self, bus: Bus, i: int, timing: Timing) -> (Dma, Bus) {
        let ch = self.chans[i];
        if ch.fires(timing) {
            let (b, s, d) = bus.after_transfer(ch, ch.count as nat);
            (
                Dma {
                    chans: put(self.chans, i, ch.finished(s, d)),
                    flags: if ch.control & IRQ != 0 {
                        self.flags | FLAGS[i]
                    } else {
                        self.flags
                    },
                },
                b,
            )
        } else {
            (self, bus)
        }
    }

    /// The channels and the bus after the first `n` channels had their turn.
    pub open spec fn after_channels(self, bus: Bus, n: nat, timing: Timing) -> (Dma, Bus)
        decreases n,
    {
        if n == 0 {
            (self, bus)
        } else {
            let (dma, b) = self.after_channels(bus, (n - 1) as nat, timing);
            dma.after_channel(b, n - 1, timing)
        }
    }

    /// Run any enabled channel whose start timing matches `timing`, on a bus
    /// beside the channels.
    pub fn run(&mut self, bus: &mut Bus, timing: Timing)
        requires
            old(bus).wf(),
        ensures
            final(bus).wf(),
            (*final(self), *final(bus)) == old(self).after_channels(*old(bus), 4, timing),
    {
        let mut i: usize = 0;
        while i < 4
            invariant
                i <= 4,
                bus.wf(),
                (*self, *bus) == old(self).after_channels(*old(bus), i as nat, timing),
            decreases 4 - i,
        {
            let ch: Channel = self.chans[i];
            if ch.is_due(timing) {
                let (s, d) = bus.transfer(&ch);
                if ch.irq_enable() {
                    self.flags = self.flags | FLAGS[i];
                }
                self.chans[i] = ch.finish(s, d);
            }
            i = i + 1;
        }
    }
}

impl Default for Dma {
    fn default() -> (r: Dma)
        ensures
            r == Dma::initial(),
    {
        Dma::new()
    }
}

} // verus!
