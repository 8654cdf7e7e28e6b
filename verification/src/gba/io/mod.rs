//! GBA I/O register model.
//!
//! Provides the registers a game reads and writes on startup and during play:
//! the keypad, the interrupt enable/flag/master registers and the
//! display-control reads. Other registers are stored as raw bytes.

use crate::bits::{filled, put};
use vstd::prelude::*;

pub mod irq;
pub mod key;

verus! {

/// Interrupt flag bit for the keypad.
pub const IRQ_KEYPAD: u16 = 0x4000;

/// I/O offset of `KEYINPUT` within the 0x04000000 region.
pub const KEYINPUT: usize = 0x130;
/// I/O offset of `KEYCNT`.
pub const KEYCNT: usize = 0x132;
/// I/O offsets of IE / IF / IME.
pub const IE: usize = 0x200;
pub const IF: usize = 0x202;
pub const IME: usize = 0x208;
/// I/O offset of `DISPSTAT`; bits 0-2 are read-only status flags.
pub const DISPSTAT: usize = 0x04;
pub const DISPSTAT_WRITABLE: u16 = 0xFF38;
/// I/O offset of `VCOUNT`.
pub const VCOUNT: usize = 0x06;
/// I/O offsets of `POSTFLG` and `HALTCNT`.
pub const POSTFLG: usize = 0x300;
pub const HALTCNT: usize = 0x301;

/// The raw bytes of the whole I/O window.
pub type Regs = [u8; 0x400];

/// The halfword at `off`, little-endian.
pub open spec fn half_at(regs: Regs, off: int) -> u16 {
    (regs[off] + regs[off + 1] * 256) as u16
}

/// The bytes with the halfword `v` stored at `off`.
pub open spec fn with_half(regs: Regs, off: int, v: u16) -> Regs {
    put(put(regs, off, (v % 256) as u8), off + 1, (v / 256) as u8)
}

pub(crate) fn get_half(regs: &Regs, off: usize) -> (r: u16)
    requires
        off < 0x3FF,
    ensures
        r == half_at(*regs, off as int),
{
    regs[off] as u16 + regs[off + 1] as u16 * 256
}

fn set_half(regs: &mut Regs, off: usize, v: u16)
    requires
        off < 0x3FF,
    ensures
        *final(regs) == with_half(*old(regs), off as int, v),
{
    regs[off] = (v % 256) as u8;
    regs[off + 1] = (v / 256) as u8;
}

/// The I/O registers of a GBA.
#[derive(Clone, Copy, PartialEq, Eq, Debug)]
pub struct Io {
    /// Raw bytes for the whole 0x04000000..0x040003FF window. Registers with
    /// special behaviour are mirrored into fields below and patched on access.
    pub regs: [u8; 0x400],
    /// Keypad state, bits 0-9 active low (0 = pressed).
    pub keypad: u16,
    /// Keypad interrupt control.
    pub keycnt: u16,
    /// Interrupt enable / flag / master.
    pub ie: u16,
    pub iflags: u16,
    pub ime: bool,
    /// Latched VCOUNT (driven by the PPU).
    pub vcount: u16,
    /// Set by a write to HALTCNT (0x04000301); the system root reads and
    /// clears it to halt the CPU.
    pub halt_requested: bool,
}

impl Io {
    /// Power-on register values (GBATEK): forced blank, identity affine
    /// matrices, SOUNDBIAS mid-level, RCNT general-purpose.
    pub open spec fn initial() -> Io {
        let r0 = with_half(filled(0), 0x000, 0x0080);
        let r1 = with_half(r0, 0x020, 0x0100);
        let r2 = with_half(r1, 0x026, 0x0100);
        let r3 = with_half(r2, 0x030, 0x0100);
        let r4 = with_half(r3, 0x036, 0x0100);
        let r5 = with_half(r4, 0x088, 0x0200);
        Io {
            regs: with_half(r5, 0x134, 0x8000),
            keypad: key::MASK,
            keycnt: 0,
            ie: 0,
            iflags: 0,
            ime: false,
            vcount: 0,
            halt_requested: false,
        }
    }

    pub fn new() -> (r: Io)
        ensures
            r == Io::initial(),
    {
        let mut regs: [u8; 0x400] = [0; 0x400];
        set_half(&mut regs, 0x000, 0x0080);
        set_half(&mut regs, 0x020, 0x0100);
        set_half(&mut regs, 0x026, 0x0100);
        set_half(&mut regs, 0x030, 0x0100);
        set_half(&mut regs, 0x036, 0x0100);
        set_half(&mut regs, 0x088, 0x0200);
        set_half(&mut regs, 0x134, 0x8000);
        Io {
            regs,
            keypad: key::MASK,
            keycnt: 0,
            ie: 0,
            iflags: 0,
            ime: false,
            vcount: 0,
            halt_requested: false,
        }
    }

    /// Whether the keypad condition holds: with KEYCNT bit 14 set, any (or
    /// with bit 15 all) of the watched keys is down.
    pub open spec fn key_hit(self) -> bool {
        let watched = self.keycnt & key::MASK;
        let pressed = !self.keypad & key::MASK & watched;
        self.keycnt & 0x4000 != 0 && watched != 0 && (if self.keycnt & 0x8000 != 0 {
            pressed == watched
        } else {
            pressed != 0
        })
    }

    /// The keypad interrupt raised where its condition holds.
    pub open spec fn key_checked(self) -> Io {
        if self.key_hit() {
            Io { iflags: self.iflags | IRQ_KEYPAD, ..self }
        } else {
            self
        }
    }

    pub open spec fn after_press(self, k: u16) -> Io {
        Io { keypad: self.keypad & !(k & key::MASK), ..self }.key_checked()
    }

    pub open spec fn after_release(self, k: u16) -> Io {
        Io { keypad: self.keypad | (k & key::MASK), ..self }.key_checked()
    }

    /// A key was pressed (bit `k`, a `key` constant).
    pub fn press(&mut self, k: u16)
        ensures
            *final(self) == old(self).after_press(k),
    {
        self.keypad = self.keypad & !(k & key::MASK);
        self.update_keypad_irq();
    }

    /// A key was released.
    pub fn release(&mut self, k: u16)
        ensures
            *final(self) == old(self).after_release(k),
    {
        self.keypad = self.keypad | (k & key::MASK);
        self.update_keypad_irq();
    }

    fn update_keypad_irq(&mut self)
        ensures
            *final(self) == old(self).key_checked(),
    {
        if self.keycnt & 0x4000 == 0 {
            return;
        }
        let watched: u16 = self.keycnt & key::MASK;
        if watched == 0 {
            return;
        }
        let pressed: u16 = !self.keypad & key::MASK & watched;
        let hit = if self.keycnt & 0x8000 != 0 {
            pressed == watched
        } else {
            pressed != 0
        };
        if hit {
            self.iflags = self.iflags | IRQ_KEYPAD;
        }
    }

    /// What the register at `offset` reads.
    pub open spec fn half(self, offset: int) -> u16 {
        if offset == KEYINPUT {
            self.keypad | 0xFC00
        } else if offset == KEYCNT {
            self.keycnt
        } else if offset == IE {
            self.ie
        } else if offset == IF {
            self.iflags
        } else if offset == IME {
            if self.ime {
                1
            } else {
                0
            }
        } else if offset == VCOUNT {
            self.vcount
        } else {
            half_at(self.regs, offset)
        }
    }

    /// Read a 16-bit I/O register (offset within the 0x04000000 region).
    pub fn read16(&self, offset: usize) -> (r: u16)
        requires
            offset < 0x3FF,
        ensures
            r == self.half(offset as int),
    {
        match offset {
            KEYINPUT => self.keypad | 0xFC00,
            KEYCNT => self.keycnt,
            IE => self.ie,
            IF => self.iflags,
            IME => {
                if self.ime {
                    1
                } else {
                    0
                }
            },
            VCOUNT => self.vcount,
            _ => get_half(&self.regs, offset),
        }
    }

    /// The registers after a 16-bit write: KEYINPUT and VCOUNT are read-only,
    /// DISPSTAT keeps its status bits, and a 1 written to IF clears it.
    pub open spec fn after_write16(self, offset: int, value: u16) -> Io {
        if offset == KEYINPUT || offset == VCOUNT {
            self
        } else if offset == DISPSTAT {
            let cur = half_at(self.regs, offset);
            let v = (cur & !DISPSTAT_WRITABLE) | (value & DISPSTAT_WRITABLE);
            Io { regs: with_half(self.regs, offset, v), ..self }
        } else if offset == KEYCNT {
            Io { keycnt: value, regs: with_half(self.regs, offset, value), ..self }
        } else if offset == IE {
            Io { ie: value, regs: with_half(self.regs, offset, value), ..self }
        } else if offset == IF {
            Io { iflags: self.iflags & !value, regs: with_half(self.regs, offset, 0), ..self }
        } else if offset == IME {
            Io {
                ime: value & 1 != 0,
                regs: with_half(
                    self.regs,
                    offset,
                    if value & 1 != 0 {
                        1
                    } else {
                        0
                    },
                ),
                ..self
            }
        } else if offset == POSTFLG {
            Io { halt_requested: true, regs: with_half(self.regs, offset, value), ..self }
        } else {
            Io { regs: with_half(self.regs, offset, value), ..self }
        }
    }

    /// Write a 16-bit I/O register.
    pub fn write16(&mut self, offset: usize, value: u16)
        requires
            offset < 0x3FF,
        ensures
            *final(self) == old(self).after_write16(offset as int, value),
    {
        match offset {
            KEYINPUT | VCOUNT => {},
            DISPSTAT => {
                let cur: u16 = get_half(&self.regs, offset);
                let v: u16 = (cur & !DISPSTAT_WRITABLE) | (value & DISPSTAT_WRITABLE);
                set_half(&mut self.regs, offset, v);
            },
            KEYCNT => {
                self.keycnt = value;
                set_half(&mut self.regs, offset, value);
            },
            IE => {
                self.ie = value;
                set_half(&mut self.regs, offset, value);
            },
            // IF is cleared by writing 1s.
            IF => {
                self.iflags = self.iflags & !value;
                set_half(&mut self.regs, offset, 0);
            },
            IME => {
                self.ime = value & 1 != 0;
                let stored: u16 = if self.ime {
                    1
                } else {
                    0
                };
                set_half(&mut self.regs, offset, stored);
            },
            POSTFLG => {
                self.halt_requested = true;
                set_half(&mut self.regs, offset, value);
            },
            _ => set_half(&mut self.regs, offset, value),
        }
    }

    /// The registers after a byte store; HALTCNT requests a halt.
    pub open spec fn after_write8(self, offset: int, value: u8) -> Io {
        Io {
            regs: put(self.regs, offset, value),
            halt_requested: self.halt_requested || offset == HALTCNT,
            ..self
        }
    }

    /// A raw byte store.
    pub fn write8(&mut self, offset: usize, value: u8)
        requires
            offset < 0x400,
        ensures
            *final(self) == old(self).after_write8(offset as int, value),
    {
        self.regs[offset] = value;
        if offset == HALTCNT {
            self.halt_requested = true;
        }
    }

    /// Set the latched VCOUNT (called by the PPU each scanline).
    pub fn set_vcount(&mut self, v: u16)
        ensures
            *final(self) == (Io { vcount: v, ..*old(self) }),
    {
        self.vcount = v;
    }

    /// Latched VCOUNT.
    pub fn vcount(&self) -> (r: u16)
        ensures
            r == self.vcount,
    {
        self.vcount
    }

    /// Interrupts that will be taken by the CPU: IF & IE, gated by IME.
    pub open spec fn pending(self) -> u16 {
        if self.ime {
            self.iflags & self.ie
        } else {
            0
        }
    }

    /// Interrupts that will be taken by the CPU: IF & IE, gated by IME.
    pub fn pending_irq(&self) -> (r: u16)
        ensures
            r == self.pending(),
    {
        if self.ime {
            self.iflags & self.ie
        } else {
            0
        }
    }

    /// Interrupts that end a HALT: IF & IE regardless of IME.
    pub fn wake_irq(&self) -> (r: u16)
        ensures
            r == self.iflags & self.ie,
    {
        self.iflags & self.ie
    }

    /// Clear a pending interrupt flag (writing 1 to IF clears it).
    pub fn acknowledge(&mut self, flags: u16)
        ensures
            *final(self) == (Io { iflags: old(self).iflags & !flags, ..*old(self) }),
    {
        self.iflags = self.iflags & !flags;
    }

    /// Set an interrupt flag.
    pub fn raise_irq(&mut self, flags: u16)
        ensures
            *final(self) == (Io { iflags: old(self).iflags | flags, ..*old(self) }),
    {
        self.iflags = self.iflags | flags;
    }

    /// Raw IF value.
    pub fn iflags(&self) -> (r: u16)
        ensures
            r == self.iflags,
    {
        self.iflags
    }

    /// IE register value.
    pub fn ie(&self) -> (r: u16)
        ensures
            r == self.ie,
    {
        self.ie
    }

    /// Whether the master interrupt enable is set.
    pub fn ime(&self) -> (r: bool)
        ensures
            r == self.ime,
    {
        self.ime
    }
}

/// Plain snapshot of the IO registers for save states.
#[derive(Clone, Copy, PartialEq, Eq, Debug)]
pub struct IoSave {
    pub regs: [u8; 0x400],
    pub keypad: u16,
    pub keycnt: u16,
    pub ie: u16,
    pub iflags: u16,
    pub ime: bool,
    pub vcount: u16,
}

impl Io {
    pub open spec fn saved(self) -> IoSave {
        IoSave {
            regs: self.regs,
            keypad: self.keypad,
            keycnt: self.keycnt,
            ie: self.ie,
            iflags: self.iflags,
            ime: self.ime,
            vcount: self.vcount,
        }
    }

    pub fn snapshot(&self) -> (r: IoSave)
        ensures
            r == self.saved(),
    {
        IoSave {
            regs: self.regs,
            keypad: self.keypad,
            keycnt: self.keycnt,
            ie: self.ie,
            iflags: self.iflags,
            ime: self.ime,
            vcount: self.vcount,
        }
    }

    /// The registers of a snapshot; a request to halt stays as it is.
    pub open spec fn restored(self, s: IoSave) -> Io {
        Io {
            regs: s.regs,
            keypad: s.keypad,
            keycnt: s.keycnt,
            ie: s.ie,
            iflags: s.iflags,
            ime: s.ime,
            vcount: s.vcount,
            halt_requested: self.halt_requested,
        }
    }

    pub fn restore(&mut self, s: IoSave)
        ensures
            *final(self) == old(self).restored(s),
    {
        self.regs = s.regs;
        self.keypad = s.keypad;
        self.keycnt = s.keycnt;
        self.ie = s.ie;
        self.iflags = s.iflags;
        self.ime = s.ime;
        self.vcount = s.vcount;
    }
}

impl Default for Io {
    fn default() -> (r: Io)
        ensures
            r == Io::initial(),
    {
        Io::new()
    }
}

/// A raised interrupt stays until it is acknowledged, and acknowledging it
/// clears it and no other.
pub proof fn law_acknowledge_clears(io: Io, flags: u16, other: u16)
    requires
        flags & other == 0,
    ensures
        io.after_write16(IF as int, flags).iflags & flags == 0,
        io.after_write16(IF as int, flags).iflags & other == io.iflags & other,
{
    let f = io.iflags;
    assert((f & !flags) & flags == 0 && (f & !flags) & other == f & other) by (bit_vector)
        requires
            flags & other == 0,
    ;
}

/// Nothing is taken while IME is clear, or while IE enables nothing.
pub proof fn law_nothing_pending_while_masked(io: Io)
    ensures
        !io.ime ==> io.pending() == 0,
        io.ie == 0 ==> io.pending() == 0,
{
    crate::bits::and_le_u16(io.iflags, 0);
}

} // verus!
