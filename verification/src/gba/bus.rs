//! GBA memory bus: address space, ROM, and wait-state timing.
//!
//! [`Bus`] implements the [`crate::gba::cpu::Bus`] trait the CPU decoders call.
//! It owns the full address space (BIOS, EWRAM, IWRAM, I/O, PALRAM, VRAM, OAM,
//! cartridge ROM and SRAM) and accounts for memory wait states.
//!
//! The CPU accumulates its *internal* per-instruction cycle count; the bus adds
//! the *external* wait-state cycles for each memory access into its own counter
//! ([`Bus::cycles`], modulo 2^32), which the system root sums with the CPU count
//! after each instruction. The wait-state model is intentionally simplified
//! (fixed per-region values).

use crate::bits::put;
use crate::gba::cpu::Bus as CpuBus;
use crate::gba::dma::{adjust, adjusted, Channel, Dma, Timing, FLAGS, IRQ};
use crate::gba::io::{Io, IF};
use crate::gba::rtc::Rtc;
use crate::gba::timer::Timers;
use vstd::prelude::*;
use vstd::wrapping::u32_specs;

pub use crate::emu::mem::Mem;
pub use crate::gba::save::{SaveCartridge, SaveType};

verus! {

/// BIOS size (16 KB).
pub const BIOS_SIZE: usize = 0x4000;
/// EWRAM size (256 KB).
pub const EWRAM_SIZE: usize = 0x40000;
/// IWRAM size (32 KB).
pub const IWRAM_SIZE: usize = 0x8000;
/// PALRAM size (1 KB).
pub const PALRAM_SIZE: usize = 0x400;
/// VRAM size (96 KB).
pub const VRAM_SIZE: usize = 0x18000;
/// OAM size (1 KB).
pub const OAM_SIZE: usize = 0x400;
/// SRAM size (64 KB).
pub const SRAM_SIZE: usize = 0x10000;

/// The 32 MB window through which the cartridge ROM is seen.
pub const ROM_WINDOW: u32 = 0x200_0000;

/// The memory regions the bus decodes an address into.
#[derive(Clone, Copy, PartialEq, Eq, Structural, Debug)]
pub enum Region {
    Bios,
    Ewram,
    Iwram,
    Io,
    Palram,
    Vram,
    Oam,
    Rom,
    Sram,
}

impl Region {
    /// The region that holds `addr`.
    pub open spec fn at(addr: u32) -> Option<Region> {
        let page = addr / 0x100_0000;
        if addr < 0x4000 {
            Some(Region::Bios)
        } else if page == 2 {
            Some(Region::Ewram)
        } else if page == 3 {
            Some(Region::Iwram)
        } else if page == 4 {
            Some(Region::Io)
        } else if page == 5 {
            Some(Region::Palram)
        } else if page == 6 {
            Some(Region::Vram)
        } else if page == 7 {
            Some(Region::Oam)
        } else if 8 <= page <= 0xD {
            Some(Region::Rom)
        } else if page == 0xE {
            Some(Region::Sram)
        } else {
            None
        }
    }

    pub fn of(addr: u32) -> (r: Option<Region>)
        ensures
            r == Region::at(addr),
    {
        if addr < 0x4000 {
            return Some(Region::Bios);
        }
        match addr / 0x100_0000 {
            2 => Some(Region::Ewram),
            3 => Some(Region::Iwram),
            4 => Some(Region::Io),
            5 => Some(Region::Palram),
            6 => Some(Region::Vram),
            7 => Some(Region::Oam),
            8 | 9 | 0xA | 0xB | 0xC | 0xD => Some(Region::Rom),
            0xE => Some(Region::Sram),
            _ => None,
        }
    }

    /// Wait-state cycles of an access `width` bits wide.
    pub open spec fn wait(self, width: u32) -> u32 {
        match self {
            Region::Ewram => 2,
            Region::Iwram => if width == 8 {
                1
            } else {
                0
            },
            Region::Vram | Region::Palram => 1,
            Region::Oam => 2,
            Region::Rom => if width == 32 {
                2
            } else {
                1
            },
            Region::Bios | Region::Sram => 1,
            Region::Io => 0,
        }
    }
}

/// A GBA memory bus.
pub struct Bus {
    /// Optional BIOS image (executed when present; else the region reads as 0).
    pub bios: Vec<u8>,
    pub ewram: Mem<u8, 0x40000>,
    pub iwram: Mem<u8, 0x8000>,
    pub palram: Mem<u8, 0x400>,
    pub vram: Mem<u8, 0x18000>,
    pub oam: Mem<u8, 0x400>,
    /// Battery-backed save cartridge (SRAM/FLASH/EEPROM).
    pub save: SaveCartridge,
    /// Cartridge ROM.
    pub rom: Vec<u8>,
    /// I/O registers.
    pub io: Io,
    /// DMA channels.
    pub dma: Dma,
    /// Timers.
    pub timers: Timers,
    /// Real-time clock (serial I/O).
    pub rtc: Rtc,
    /// Wait-state cycles added by accesses during the current instruction.
    pub cycles: u32,
    /// If `true`, the previous access was a sequential ROM access.
    pub last_seq: bool,
}

/// Element `i` of `m` and the one behind it, little-endian.
pub open spec fn half_of<const N: usize>(m: Mem<u8, N>, i: int) -> u32 {
    (m.at(i) + m.at(i + 1) * 256) as u32
}

/// The region with the halfword `v` stored at `i`.
pub open spec fn with_half<const N: usize>(m: Mem<u8, N>, i: int, v: u32) -> Mem<u8, N> {
    m.with(i, (v % 256) as u8).with(i + 1, (v / 256 % 256) as u8)
}

fn get_half<const N: usize>(m: &Mem<u8, N>, i: usize) -> (r: u32)
    requires
        i + 1 < N,
    ensures
        r == half_of(*m, i as int),
{
    m.get(i) as u32 + m.get(i + 1) as u32 * 256
}

fn set_half<const N: usize>(m: &mut Mem<u8, N>, i: usize, v: u32)
    requires
        i + 1 < N,
    ensures
        *final(m) == with_half(*old(m), i as int, v),
{
    m.set(i, (v % 256) as u8);
    m.set(i + 1, (v / 256 % 256) as u8);
}

/// The halfword of an address in one of the small memories.
pub open spec fn even(addr: u32, size: u32) -> int {
    addr as int % size as int / 2 * 2
}

/// Where `addr` falls in VRAM: its bits that an offset below the 96 KB has.
pub open spec fn vram_at(addr: u32) -> int {
    (addr & 0x17FFF) as int
}

pub fn vram_index(addr: u32) -> (r: usize)
    ensures
        r == vram_at(addr),
        r < 0x1_8000,
{
    proof {
        crate::bits::and_le_u32(addr, 0x17FFF);
    }
    (addr & 0x17FFF) as usize
}

/// The timers after a write to their registers.
pub open spec fn timers_written(t: Timers, off: int, value: u16) -> Timers {
    if 0x100 <= off < 0x110 && off % 4 == 0 {
        t.after_cnt_l((off - 0x100) / 4, value)
    } else if 0x100 <= off < 0x110 && off % 4 == 2 {
        t.after_cnt_h((off - 0x100) / 4, value)
    } else {
        t
    }
}

impl Bus {
    /// There is a ROM to read, and the devices are well-formed.
    pub open spec fn wf(self) -> bool {
        &&& self.rom@.len() > 0
        &&& self.save.wf()
        &&& self.timers.wf()
        &&& self.rtc.wf()
    }

    /// A bus at power-on; nothing but the ROM is set up.
    pub open spec fn is_initial(self, rom: Seq<u8>) -> bool {
        &&& self.bios@ == Seq::<u8>::empty()
        &&& self.ewram == Mem::<u8, 0x40000>::all(0)
        &&& self.iwram == Mem::<u8, 0x8000>::all(0)
        &&& self.palram == Mem::<u8, 0x400>::all(0)
        &&& self.vram == Mem::<u8, 0x18000>::all(0)
        &&& self.oam == Mem::<u8, 0x400>::all(0)
        &&& self.save == SaveCartridge::initial()
        &&& self.rom@ == rom
        &&& self.io == Io::initial()
        &&& self.dma == Dma::initial()
        &&& self.timers == Timers::initial()
        &&& self.rtc == Rtc::initial()
        &&& self.cycles == 0
        &&& !self.last_seq
    }

    pub fn new(rom: Vec<u8>) -> (r: Bus)
        ensures
            r.is_initial(rom@),
            rom@.len() > 0 ==> r.wf(),
    {
        Bus {
            bios: Vec::new(),
            ewram: Mem::zeroed(),
            iwram: Mem::zeroed(),
            palram: Mem::zeroed(),
            vram: Mem::zeroed(),
            oam: Mem::zeroed(),
            save: SaveCartridge::new(),
            rom,
            io: Io::new(),
            dma: Dma::new(),
            timers: Timers::new(),
            rtc: Rtc::new(),
            cycles: 0,
            last_seq: false,
        }
    }

    /// Whether the bus can serve accesses; a machine restored from untrusted
    /// bytes, or one without a ROM, may not.
    pub fn is_valid(&self) -> (r: bool)
        ensures
            r == self.wf(),
    {
        self.rom.len() > 0 && self.save.flash_bank() <= 1 && self.timers.is_valid()
            && self.rtc.is_valid()
    }

    /// Install a BIOS dump (optional; enables BIOS execution and SWI traps).
    pub fn set_bios(&mut self, bios: Vec<u8>)
        ensures
            *final(self) == (Bus { bios, ..*old(self) }),
    {
        self.bios = bios;
    }

    /// Whether a full 16 KB BIOS image is loaded (as opposed to the small
    /// IRQ-return stub the skip-BIOS boot installs).
    pub fn has_real_bios(&self) -> (r: bool)
        ensures
            r == (self.bios@.len() >= 0x4000),
    {
        self.bios.len() >= 0x4000
    }

    /// Wait-state cycles accumulated during the current instruction.
    pub fn cycles(&self) -> (r: u32)
        ensures
            r == self.cycles,
    {
        self.cycles
    }

    /// Reset the per-instruction wait-state counter.
    pub fn reset_cycles(&mut self)
        ensures
            *final(self) == (Bus { cycles: 0, last_seq: false, ..*old(self) }),
    {
        self.cycles = 0;
        self.last_seq = false;
    }

    /// Begin a new instruction: reset the wait-state counter.
    pub fn begin_step(&mut self)
        ensures
            *final(self) == (Bus { cycles: 0, last_seq: false, ..*old(self) }),
    {
        self.reset_cycles();
    }

    /// Number of wait-state cycles for an access to `region`.
    fn wait_for(&self, region: Region, width: u32) -> (r: u32)
        ensures
            r == region.wait(width),
    {
        match region {
            Region::Ewram => 2,
            Region::Iwram => {
                if width == 8 {
                    1
                } else {
                    0
                }
            },
            Region::Vram | Region::Palram => 1,
            Region::Oam => 2,
            Region::Rom => {
                // Simplified cartridge timing (no prefetch): a steady 1-cycle
                // sequential cost per 16-bit unit.
                if width == 32 {
                    2
                } else {
                    1
                }
            },
            Region::Bios | Region::Sram => 1,
            Region::Io => 0,
        }
    }

    /// The bus with the wait states of an access counted.
    pub open spec fn waited(self, addr: u32, width: u32) -> Bus {
        match Region::at(addr) {
            Some(region) => Bus {
                cycles: u32_specs::wrapping_add(self.cycles, region.wait(width)),
                last_seq: false,
                ..self
            },
            None => self,
        }
    }

    fn wait(&mut self, region: Region, width: u32)
        ensures
            *final(self) == (Bus {
                cycles: u32_specs::wrapping_add(old(self).cycles, region.wait(width)),
                last_seq: false,
                ..*old(self)
            }),
    {
        let cycles: u32 = self.wait_for(region, width);
        self.cycles = self.cycles.wrapping_add(cycles);
        self.last_seq = false;
    }

    /// The BIOS byte at `i`; beyond the image it reads as 0.
    pub open spec fn bios_byte(self, i: int) -> u8 {
        if i < self.bios@.len() {
            self.bios@[i]
        } else {
            0
        }
    }

    fn get_bios(&self, i: usize) -> (r: u8)
        ensures
            r == self.bios_byte(i as int),
    {
        if i < self.bios.len() {
            self.bios[i]
        } else {
            0
        }
    }

    /// The ROM byte at `i`; a ROM is repeated over its window.
    pub open spec fn rom_byte(self, i: int) -> u8 {
        self.rom@[i % self.rom@.len() as int]
    }

    /// The byte seen at `addr`.
    pub open spec fn byte(self, addr: u32) -> u8 {
        match Region::at(addr) {
            None => 0,
            Some(Region::Bios) => self.bios_byte(addr as int),
            Some(Region::Ewram) => self.ewram.at(addr as int % 0x40000),
            Some(Region::Iwram) => self.iwram.at(addr as int % 0x8000),
            Some(Region::Io) => self.io.regs[addr as int % 0x400],
            Some(Region::Palram) => self.palram.at(addr as int % 0x400),
            Some(Region::Vram) => self.vram.at(vram_at(addr)),
            Some(Region::Oam) => self.oam.at(addr as int % 0x400),
            Some(Region::Rom) => self.rom_byte((addr % ROM_WINDOW) as int),
            Some(Region::Sram) => self.save.byte(addr as int % 0x20000),
        }
    }

    /// Read a byte across the memory map, adding wait states.
    pub fn read8(&mut self, addr: u32) -> (r: u32)
        requires
            old(self).wf(),
        ensures
            *final(self) == old(self).waited(addr, 8),
            r == old(self).byte(addr),
            final(self).wf(),
    {
        let region: Region = match Region::of(addr) {
            Some(region) => region,
            None => return 0,
        };
        self.wait(region, 8);
        let a: usize = addr as usize;
        let b: u8 = match region {
            Region::Bios => self.get_bios(a),
            Region::Ewram => self.ewram.get(a % 0x40000),
            Region::Iwram => self.iwram.get(a % 0x8000),
            Region::Io => self.io.regs[a % 0x400],
            Region::Palram => self.palram.get(a % 0x400),
            Region::Vram => {
                self.vram.get(vram_index(addr))
            },
            Region::Oam => self.oam.get(a % 0x400),
            Region::Rom => self.rom[(addr % ROM_WINDOW) as usize % self.rom.len()],
            Region::Sram => self.save.read8(a % 0x20000),
        };
        b as u32
    }

    /// The halfword seen at `addr`, whose lowest bit is ignored.
    pub open spec fn half(self, addr: u32) -> u32 {
        match Region::at(addr) {
            None => 0,
            Some(Region::Bios) => {
                let i = addr as int / 2 * 2;
                (self.bios_byte(i) + self.bios_byte(i + 1) * 256) as u32
            },
            Some(Region::Ewram) => half_of(self.ewram, even(addr, 0x40000)),
            Some(Region::Iwram) => half_of(self.iwram, even(addr, 0x8000)),
            Some(Region::Io) => {
                let off = even(addr, 0x400);
                if off == 0x120 {
                    // RTC serial data: bit 0 is the RTC output pin.
                    (self.io.half(off) & 0xFFFE) as u32 | (self.rtc.sio_out as u32)
                } else {
                    self.io.half(off) as u32
                }
            },
            Some(Region::Palram) => half_of(self.palram, even(addr, 0x400)),
            Some(Region::Vram) => half_of(self.vram, vram_at(addr) / 2 * 2),
            Some(Region::Oam) => half_of(self.oam, even(addr, 0x400)),
            Some(Region::Rom) => {
                let i = even(addr, ROM_WINDOW) % self.rom@.len() as int;
                (self.rom_byte(i) + self.rom_byte(i + 1) * 256) as u32
            },
            Some(Region::Sram) => self.save.half(even(addr, 0x20000)) as u32,
        }
    }

    fn rom_half(&self, i: usize) -> (r: u32)
        requires
            self.rom@.len() > 0,
            i < 0x200_0000,
        ensures
            r == ({
                let j = i as int % self.rom@.len() as int;
                (self.rom_byte(j) + self.rom_byte(j + 1) * 256) as u32
            }),
    {
        let n: usize = self.rom.len();
        let j: usize = i % n;
        assert(j as int % n as int == j) by {
            vstd::arithmetic::div_mod::lemma_small_mod(j as nat, n as nat);
        }
        let k: usize = (j + 1) % n;
        self.rom[j] as u32 + self.rom[k] as u32 * 256
    }

    /// Read a 16-bit value across the memory map.
    pub fn read16(&mut self, addr: u32) -> (r: u32)
        requires
            old(self).wf(),
        ensures
            *final(self) == old(self).waited(addr, 16),
            r == old(self).half(addr),
            final(self).wf(),
            r <= 0xFFFF,
    {
        let region: Region = match Region::of(addr) {
            Some(region) => region,
            None => return 0,
        };
        self.wait(region, 16);
        let a: usize = addr as usize;
        match region {
            Region::Bios => {
                let i: usize = a / 2 * 2;
                self.get_bios(i) as u32 + self.get_bios(i + 1) as u32 * 256
            },
            Region::Ewram => get_half(&self.ewram, a % 0x40000 / 2 * 2),
            Region::Iwram => get_half(&self.iwram, a % 0x8000 / 2 * 2),
            Region::Io => {
                let off: usize = a % 0x400 / 2 * 2;
                let v: u16 = self.io.read16(off);
                if off == 0x120 {
                    let bit: u32 = self.rtc.sio_out() as u32;
                    proof {
                        lemma_pin_bit(v, bit);
                    }
                    return (v & 0xFFFE) as u32 | bit;
                }
                v as u32
            },
            Region::Palram => get_half(&self.palram, a % 0x400 / 2 * 2),
            Region::Vram => {
                get_half(&self.vram, vram_index(addr) / 2 * 2)
            },
            Region::Oam => get_half(&self.oam, a % 0x400 / 2 * 2),
            Region::Rom => self.rom_half((addr % ROM_WINDOW / 2 * 2) as usize),
            Region::Sram => self.save.read16(a % 0x20000 / 2 * 2) as u32,
        }
    }

    /// The bus after a halfword was read, and the halfword.
    pub open spec fn loaded16(self, addr: u32) -> (Bus, u32) {
        (self.waited(addr, 16), self.half(addr))
    }

    /// The bus after a word was read as two halfwords, and the word.
    pub open spec fn loaded32(self, addr: u32) -> (Bus, u32) {
        let (b1, lo) = self.loaded16(addr);
        let (b2, hi) = b1.loaded16(u32_specs::wrapping_add(addr, 2));
        (b2, (lo + hi * 0x1_0000) as u32)
    }

    /// Read a 32-bit value across the memory map.
    pub fn read32(&mut self, addr: u32) -> (r: u32)
        requires
            old(self).wf(),
        ensures
            (*final(self), r) == old(self).loaded32(addr),
            final(self).wf(),
    {
        let lo: u32 = self.read16(addr);
        let hi: u32 = self.read16(addr.wrapping_add(2));
        lo + hi * 0x1_0000
    }

    /// The bus after a byte was written at `addr`.
    #[verifier::opaque]
    pub open spec fn stored8(self, addr: u32, value: u32) -> Bus {
        let b = self.waited(addr, 8);
        let v = value as u8;
        match Region::at(addr) {
            Some(Region::Ewram) => Bus { ewram: self.ewram.with(addr as int % 0x40000, v), ..b },
            Some(Region::Iwram) => Bus { iwram: self.iwram.with(addr as int % 0x8000, v), ..b },
            Some(Region::Io) => Bus { io: self.io.after_write8(addr as int % 0x400, v), ..b },
            Some(Region::Palram) => Bus { palram: self.palram.with(addr as int % 0x400, v), ..b },
            Some(Region::Vram) => Bus { vram: self.vram.with(vram_at(addr), v), ..b },
            Some(Region::Oam) => Bus { oam: self.oam.with(addr as int % 0x400, v), ..b },
            Some(Region::Sram) => Bus { save: self.save.after_write8(addr as int % 0x20000, v), ..b },
            _ => b,
        }
    }

    /// Write a byte across the memory map.
    pub fn write8(&mut self, addr: u32, value: u32)
        requires
            old(self).wf(),
        ensures
            *final(self) == old(self).stored8(addr, value),
            final(self).wf(),
    {
        reveal(Bus::stored8);
        let region: Region = match Region::of(addr) {
            Some(region) => region,
            None => return,
        };
        self.wait(region, 8);
        let a: usize = addr as usize;
        let v: u8 = value as u8;
        match region {
            Region::Ewram => self.ewram.set(a % 0x40000, v),
            Region::Iwram => self.iwram.set(a % 0x8000, v),
            Region::Io => self.io.write8(a % 0x400, v),
            Region::Palram => self.palram.set(a % 0x400, v),
            Region::Vram => {
                self.vram.set(vram_index(addr), v)
            },
            Region::Oam => self.oam.set(a % 0x400, v),
            Region::Sram => self.save.write8(a % 0x20000, v),
            Region::Rom | Region::Bios => {},
        }
    }

    /// The bus after a write to the I/O register at `off`, which the DMA
    /// channels, the timers and the clock see too. A write to IF acknowledges
    /// their interrupts.
    pub open spec fn io_stored(self, off: int, v: u16) -> Bus {
        let io = self.io.after_write16(off, v);
        if 0xB0 <= off <= 0xDF {
            Bus { io, dma: self.dma.after_write16(off, v), ..self }
        } else if 0x100 <= off <= 0x110 {
            Bus { io, timers: timers_written(self.timers, off, v), ..self }
        } else if off == 0x120 || off == 0x122 {
            Bus { io, rtc: self.rtc.after_pins((v % 256) as u8), ..self }
        } else if off == IF {
            Bus { io, timers: self.timers.cleared(v >> 3), dma: self.dma.cleared(v >> 4), ..self }
        } else {
            Bus { io, ..self }
        }
    }

    fn store_io(&mut self, off: usize, v: u16)
        requires
            old(self).wf(),
            off < 0x3FF,
        ensures
            *final(self) == old(self).io_stored(off as int, v),
            final(self).wf(),
    {
        self.io.write16(off, v);
        if 0xB0 <= off && off <= 0xDF {
            self.dma.write16(off, v);
        } else if 0x100 <= off && off <= 0x110 {
            self.write_timer(off, v);
        } else if off == 0x120 || off == 0x122 {
            self.rtc.write_pins((v % 256) as u8);
        } else if off == IF {
            self.timers.clear_irq(v >> 3);
            self.dma.clear_irq(v >> 4);
        }
    }

    /// The bus after a halfword was written at `addr`, whose lowest bit is
    /// ignored.
    #[verifier::opaque]
    pub open spec fn stored16(self, addr: u32, value: u32) -> Bus {
        let b = self.waited(addr, 16);
        match Region::at(addr) {
            Some(Region::Ewram) => Bus {
                ewram: with_half(self.ewram, even(addr, 0x40000), value),
                ..b
            },
            Some(Region::Iwram) => Bus {
                iwram: with_half(self.iwram, even(addr, 0x8000), value),
                ..b
            },
            Some(Region::Io) => b.io_stored(even(addr, 0x400), value as u16),
            Some(Region::Palram) => Bus {
                palram: with_half(self.palram, even(addr, 0x400), value),
                ..b
            },
            Some(Region::Vram) => Bus {
                vram: with_half(self.vram, vram_at(addr) / 2 * 2, value),
                ..b
            },
            Some(Region::Oam) => Bus { oam: with_half(self.oam, even(addr, 0x400), value), ..b },
            Some(Region::Sram) => Bus {
                save: self.save.after_write16(even(addr, 0x20000), value as u16),
                ..b
            },
            _ => b,
        }
    }

    /// Write a 16-bit value across the memory map.
    pub fn write16(&mut self, addr: u32, value: u32)
        requires
            old(self).wf(),
        ensures
            *final(self) == old(self).stored16(addr, value),
            final(self).wf(),
    {
        reveal(Bus::stored16);
        let region: Region = match Region::of(addr) {
            Some(region) => region,
            None => return,
        };
        self.wait(region, 16);
        let a: usize = addr as usize;
        match region {
            Region::Ewram => set_half(&mut self.ewram, a % 0x40000 / 2 * 2, value),
            Region::Iwram => set_half(&mut self.iwram, a % 0x8000 / 2 * 2, value),
            Region::Io => self.store_io(a % 0x400 / 2 * 2, value as u16),
            Region::Palram => set_half(&mut self.palram, a % 0x400 / 2 * 2, value),
            Region::Vram => {
                set_half(&mut self.vram, vram_index(addr) / 2 * 2, value)
            },
            Region::Oam => set_half(&mut self.oam, a % 0x400 / 2 * 2, value),
            Region::Sram => self.save.write16(a % 0x20000 / 2 * 2, value as u16),
            Region::Rom | Region::Bios => {},
        }
    }

    /// The bus after a word was written as two halfwords.
    pub open spec fn stored32(self, addr: u32, value: u32) -> Bus {
        self.stored16(addr, value).stored16(u32_specs::wrapping_add(addr, 2), value / 0x1_0000)
    }

    /// Write a 32-bit value across the memory map.
    pub fn write32(&mut self, addr: u32, value: u32)
        requires
            old(self).wf(),
        ensures
            *final(self) == old(self).stored32(addr, value),
            final(self).wf(),
    {
        self.write16(addr, value);
        self.write16(addr.wrapping_add(2), value / 0x1_0000);
    }

    /// Press keys (bits of the keypad register).
    pub fn press(&mut self, k: u16)
        ensures
            *final(self) == (Bus { io: old(self).io.after_press(k), ..*old(self) }),
    {
        self.io.press(k);
    }

    /// Release keys.
    pub fn release(&mut self, k: u16)
        ensures
            *final(self) == (Bus { io: old(self).io.after_release(k), ..*old(self) }),
    {
        self.io.release(k);
    }

    /// Forward a timer register write.
    fn write_timer(&mut self, offset: usize, value: u16)
        ensures
            *final(self) == (Bus {
                timers: timers_written(old(self).timers, offset as int, value),
                ..*old(self)
            }),
            old(self).timers.wf() ==> final(self).timers.wf(),
    {
        match offset {
            0x100 => self.timers.write_cnt_l(0, value),
            0x102 => self.timers.write_cnt_h(0, value),
            0x104 => self.timers.write_cnt_l(1, value),
            0x106 => self.timers.write_cnt_h(1, value),
            0x108 => self.timers.write_cnt_l(2, value),
            0x10A => self.timers.write_cnt_h(2, value),
            0x10C => self.timers.write_cnt_l(3, value),
            0x10E => self.timers.write_cnt_h(3, value),
            _ => {},
        }
    }

    /// The bus with the timer and DMA interrupts passed on to the IF register:
    /// the timers to bits 3-6, the DMA channels to bits 8-11.
    pub open spec fn dev_irq_synced(self) -> Bus {
        Bus {
            io: Io {
                iflags: self.io.iflags | (self.timers.flags << 3) | (self.dma.flags << 4),
                ..self.io
            },
            ..self
        }
    }

    /// Raise timer/DMA overflow IRQs into the IO flags.
    pub fn sync_dev_irq(&mut self)
        ensures
            *final(self) == old(self).dev_irq_synced(),
            old(self).wf() ==> final(self).wf(),
    {
        self.io.raise_irq(self.timers.irq_flags() << 3);
        self.io.raise_irq(self.dma.irq_flags() << 4);
    }

    /// The bus after `n` units of the transfer of `ch`, and the two addresses.
    pub open spec fn after_transfer(self, ch: Channel, n: nat) -> (Bus, u32, u32)
        decreases n,
    {
        if n == 0 {
            (self, ch.src, ch.dst)
        } else {
            let (b, s, d) = self.after_transfer(ch, (n - 1) as nat);
            let moved = if ch.words() {
                let (b1, v) = b.loaded32(s);
                b1.stored32(d, v)
            } else {
                let (b1, v) = b.loaded16(s);
                b1.stored16(d, v)
            };
            (moved, adjusted(s, ch.unit(), ch.src_mode()), adjusted(d, ch.unit(), ch.dst_mode()))
        }
    }

    /// Move the units of a channel; returns the addresses it ends at.
    pub fn transfer(&mut self, ch: &Channel) -> (r: (u32, u32))
        requires
            old(self).wf(),
        ensures
            final(self).wf(),
            (*final(self), r.0, r.1) == old(self).after_transfer(*ch, ch.count as nat),
    {
        let words = ch.unit_32();
        let unit: u32 = if words {
            4
        } else {
            2
        };
        let sa: u8 = ch.src_adjust();
        let da: u8 = ch.dst_adjust();
        let mut s: u32 = ch.src;
        let mut d: u32 = ch.dst;
        let mut n: u16 = 0;
        while n < ch.count
            invariant
                n <= ch.count,
                words == ch.words(),
                unit == ch.unit(),
                sa == ch.src_mode(),
                da == ch.dst_mode(),
                self.wf(),
                (*self, s, d) == old(self).after_transfer(*ch, n as nat),
            decreases ch.count - n,
        {
            if words {
                let v: u32 = self.read32(s);
                self.write32(d, v);
            } else {
                let v: u32 = self.read16(s);
                self.write16(d, v);
            }
            s = adjust(s, unit, sa);
            d = adjust(d, unit, da);
            n = n + 1;
        }
        (s, d)
    }

    /// The bus after the first `n` of the channels `chans` had their turn, and
    /// the interrupt flags so far.
    pub open spec fn after_channels(
        self,
        chans: [Channel; 4],
        n: nat,
        timing: Timing,
    ) -> (Bus, u16)
        decreases n,
    {
        if n == 0 {
            (self, self.dma.flags)
        } else {
            let (b, flags) = self.after_channels(chans, (n - 1) as nat, timing);
            let ch = chans[n - 1];
            if ch.fires(timing) {
                let (moved, s, d) = b.after_transfer(ch, ch.count as nat);
                (
                    Bus {
                        dma: Dma {
                            chans: put(moved.dma.chans, n - 1, ch.finished(s, d)),
                            ..moved.dma
                        },
                        ..moved
                    },
                    if ch.control & IRQ != 0 {
                        flags | FLAGS[n - 1]
                    } else {
                        flags
                    },
                )
            } else {
                (b, flags)
            }
        }
    }

    /// The bus after every channel due at `timing` ran.
    #[verifier::opaque]
    pub open spec fn after_dma(self, timing: Timing) -> Bus {
        let (b, flags) = self.after_channels(self.dma.chans, 4, timing);
        Bus { dma: Dma { flags, ..b.dma }, ..b }
    }

    /// Run any enabled DMA channel whose start timing matches `timing`.
    pub fn run_dma(&mut self, timing: Timing)
        requires
            old(self).wf(),
        ensures
            final(self).wf(),
            *final(self) == old(self).after_dma(timing),
    {
        reveal(Bus::after_dma);
        let chans: [Channel; 4] = self.dma.chans;
        let mut flags: u16 = self.dma.flags;
        let mut i: usize = 0;
        while i < 4
            invariant
                i <= 4,
                self.wf(),
                chans == old(self).dma.chans,
                (*self, flags) == old(self).after_channels(chans, i as nat, timing),
            decreases 4 - i,
        {
            let ch: Channel = chans[i];
            if ch.is_due(timing) {
                let (s, d) = self.transfer(&ch);
                if ch.irq_enable() {
                    flags = flags | FLAGS[i];
                }
                self.dma.chans[i] = ch.finish(s, d);
            }
            i = i + 1;
        }
        self.dma.flags = flags;
    }

    /// Pending interrupt flags (IF & IE), whether or not IME lets the CPU take
    /// them.
    pub fn pending_irq(&self) -> (r: u16)
        ensures
            r == self.io.iflags & self.io.ie,
    {
        self.io.wake_irq()
    }

    /// Interrupts that end a HALT: IF & IE regardless of IME.
    pub fn wake_irq(&self) -> (r: u16)
        ensures
            r == self.io.iflags & self.io.ie,
    {
        self.io.wake_irq()
    }
}

proof fn lemma_pin_bit(v: u16, bit: u32)
    requires
        bit <= 1,
    ensures
        ((v & 0xFFFE) as u32 | bit) <= 0xFFFF,
{
    assert(((v & 0xFFFE) as u32 | bit) <= 0xFFFF) by (bit_vector)
        requires
            bit <= 1,
    ;
}

impl CpuBus for Bus {
    open spec fn ready(self) -> bool {
        self.wf()
    }

    open spec fn after_read8(self, addr: u32) -> (Bus, u32) {
        (self.waited(addr, 8), self.byte(addr) as u32)
    }

    open spec fn after_read16(self, addr: u32) -> (Bus, u32) {
        self.loaded16(addr)
    }

    open spec fn after_read32(self, addr: u32) -> (Bus, u32) {
        self.loaded32(addr)
    }

    open spec fn after_write8(self, addr: u32, value: u32) -> Bus {
        self.stored8(addr, value)
    }

    open spec fn after_write16(self, addr: u32, value: u32) -> Bus {
        self.stored16(addr, value)
    }

    open spec fn after_write32(self, addr: u32, value: u32) -> Bus {
        self.stored32(addr, value)
    }

    fn read8(&mut self, addr: u32) -> (r: u32) {
        Bus::read8(self, addr)
    }

    fn read16(&mut self, addr: u32) -> (r: u32) {
        Bus::read16(self, addr)
    }

    fn read32(&mut self, addr: u32) -> (r: u32) {
        Bus::read32(self, addr)
    }

    fn write8(&mut self, addr: u32, value: u32) {
        Bus::write8(self, addr, value)
    }

    fn write16(&mut self, addr: u32, value: u32) {
        Bus::write16(self, addr, value)
    }

    fn write32(&mut self, addr: u32, value: u32) {
        Bus::write32(self, addr, value)
    }
}

} // verus!
