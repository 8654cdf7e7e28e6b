//! Cartridges: the header, the memory bank controllers, battery RAM and the
//! real-time clock.

use crate::bits::{filled, put};
use vstd::prelude::*;

verus! {

#[derive(Clone, Copy, PartialEq, Eq, Structural, Debug)]
pub enum MbcType {
    RomOnly,
    Mbc1,
    Mbc2,
    Mbc3,
    Mbc5,
    Other,
}

impl MbcType {
    /// The controller a cartridge-type code of the header stands for.
    pub open spec fn of_code(code: u8) -> MbcType {
        if code == 0x00 {
            MbcType::RomOnly
        } else if 0x01 <= code <= 0x03 {
            MbcType::Mbc1
        } else if 0x05 <= code <= 0x06 {
            MbcType::Mbc2
        } else if 0x0F <= code <= 0x13 {
            MbcType::Mbc3
        } else if 0x19 <= code <= 0x1E {
            MbcType::Mbc5
        } else {
            MbcType::Other
        }
    }

    pub open spec fn label(self) -> Seq<char> {
        match self {
            MbcType::RomOnly => "ROM only"@,
            MbcType::Mbc1 => "MBC1"@,
            MbcType::Mbc2 => "MBC2"@,
            MbcType::Mbc3 => "MBC3"@,
            MbcType::Mbc5 => "MBC5"@,
            MbcType::Other => "Unknown"@,
        }
    }

    /// The controller's name.
    pub fn name(&self) -> (r: &'static str)
        ensures
            r@ == self.label(),
    {
        match self {
            MbcType::RomOnly => "ROM only",
            MbcType::Mbc1 => "MBC1",
            MbcType::Mbc2 => "MBC2",
            MbcType::Mbc3 => "MBC3",
            MbcType::Mbc5 => "MBC5",
            MbcType::Other => "Unknown",
        }
    }
}

/// T-cycles per second of the MBC3 clock (4.19 MHz).
pub const CYCLES_PER_SECOND: u32 = 4_194_304;

pub struct Cartridge {
    pub title: String,
    pub mbc: MbcType,
    /// The CGB flag of the header (bit 7: the game supports the CGB).
    pub cgb_flag: u8,
    pub rom: Vec<u8>,
    pub ram: Vec<u8>,
    pub num_rom_banks: usize,
    pub num_ram_banks: usize,
    pub rom_bank: usize,
    pub ram_bank: usize,
    pub bank_mode: bool,
    pub ram_enabled: bool,
    pub has_battery: bool,
    pub has_rtc: bool,
    pub rtc_selected: bool,
    pub rtc_register: u8,
    /// Seconds, minutes, hours, low byte of the day, and the flags that hold
    /// the day's ninth bit (bit 0), halt (bit 6) and day carry (bit 7).
    pub rtc: [u8; 5],
    pub rtc_latched: [u8; 5],
    pub rtc_latch: u8,
    pub rtc_cycles: u32,
    /// Whether battery-backed state changed since it was last asked.
    pub sram_dirty: bool,
}

/// A cartridge's state as a value.
#[verifier::ext_equal]
pub struct CartState {
    pub title: Seq<char>,
    pub mbc: MbcType,
    pub cgb_flag: u8,
    pub rom: Seq<u8>,
    pub ram: Seq<u8>,
    pub num_rom_banks: usize,
    pub num_ram_banks: usize,
    pub rom_bank: usize,
    pub ram_bank: usize,
    pub bank_mode: bool,
    pub ram_enabled: bool,
    pub has_battery: bool,
    pub has_rtc: bool,
    pub rtc_selected: bool,
    pub rtc_register: u8,
    pub rtc: [u8; 5],
    pub rtc_latched: [u8; 5],
    pub rtc_latch: u8,
    pub rtc_cycles: u32,
    pub sram_dirty: bool,
}

impl Clone for Cartridge {
    fn clone(&self) -> (r: Cartridge)
        ensures
            r@ == self@,
    {
        let mut rom: Vec<u8> = Vec::new();
        rom.extend_from_slice(self.rom.as_slice());
        let mut ram: Vec<u8> = Vec::new();
        ram.extend_from_slice(self.ram.as_slice());
        let r = Cartridge {
            title: self.title.clone(),
            mbc: self.mbc,
            cgb_flag: self.cgb_flag,
            rom,
            ram,
            num_rom_banks: self.num_rom_banks,
            num_ram_banks: self.num_ram_banks,
            rom_bank: self.rom_bank,
            ram_bank: self.ram_bank,
            bank_mode: self.bank_mode,
            ram_enabled: self.ram_enabled,
            has_battery: self.has_battery,
            has_rtc: self.has_rtc,
            rtc_selected: self.rtc_selected,
            rtc_register: self.rtc_register,
            rtc: self.rtc,
            rtc_latched: self.rtc_latched,
            rtc_latch: self.rtc_latch,
            rtc_cycles: self.rtc_cycles,
            sram_dirty: self.sram_dirty,
        };
        assert(r@ =~= self@);
        r
    }
}

impl View for Cartridge {
    type V = CartState;

    open spec fn view(&self) -> CartState {
        CartState {
            title: self.title@,
            mbc: self.mbc,
            cgb_flag: self.cgb_flag,
            rom: self.rom@,
            ram: self.ram@,
            num_rom_banks: self.num_rom_banks,
            num_ram_banks: self.num_ram_banks,
            rom_bank: self.rom_bank,
            ram_bank: self.ram_bank,
            bank_mode: self.bank_mode,
            ram_enabled: self.ram_enabled,
            has_battery: self.has_battery,
            has_rtc: self.has_rtc,
            rtc_selected: self.rtc_selected,
            rtc_register: self.rtc_register,
            rtc: self.rtc,
            rtc_latched: self.rtc_latched,
            rtc_latch: self.rtc_latch,
            rtc_cycles: self.rtc_cycles,
            sram_dirty: self.sram_dirty,
        }
    }
}

/// The number of 16 KiB ROM banks a header code stands for.
pub open spec fn rom_banks(code: u8) -> usize {
    if code == 0x01 {
        4
    } else if code == 0x02 {
        8
    } else if code == 0x03 {
        16
    } else if code == 0x04 {
        32
    } else if code == 0x05 {
        64
    } else if code == 0x06 {
        128
    } else if code == 0x07 {
        256
    } else if code == 0x52 {
        72
    } else if code == 0x53 {
        80
    } else if code == 0x54 {
        96
    } else {
        2
    }
}

/// The number of 8 KiB RAM banks a header code stands for.
pub open spec fn ram_banks(code: u8) -> usize {
    if code == 0x02 {
        1
    } else if code == 0x03 {
        4
    } else if code == 0x04 {
        16
    } else if code == 0x05 {
        8
    } else {
        0
    }
}

/// The bytes of RAM of a cartridge: an MBC2 has 512 half-bytes of its own, any
/// other part what the header says.
pub open spec fn ram_size(mbc: MbcType, code: u8) -> nat {
    if mbc == MbcType::Mbc2 {
        512
    } else {
        (ram_banks(code) * 0x2000) as nat
    }
}

/// Whether a cartridge-type code names a part with a battery.
pub open spec fn code_has_battery(code: u8) -> bool {
    code == 0x03 || code == 0x06 || code == 0x09 || code == 0x0D || code == 0x0F || code == 0x10
        || code == 0x13 || code == 0x1B || code == 0x1E
}

/// Length of the title: up to the first zero byte, fifteen bytes at most.
pub open spec fn title_len(data: Seq<u8>, from: nat) -> nat
    decreases 15 - from,
{
    if from >= 15 || data[0x134 + from as int] == 0 {
        from
    } else {
        title_len(data, from + 1)
    }
}

/// The title as the header spells it, one character per byte.
pub open spec fn title_of(data: Seq<u8>) -> Seq<char> {
    Seq::new(title_len(data, 0), |i: int| data[0x134 + i] as char)
}

/// The clock registers one second on: seconds, minutes and hours carry at 60,
/// 60 and 24, and a day counter of nine bits leaves its carry in bit 7.
pub open spec fn rtc_second(rtc: [u8; 5]) -> [u8; 5] {
    let s = vstd::wrapping::u8_specs::wrapping_add(rtc[0], 1);
    if s < 60 {
        put(rtc, 0, s)
    } else {
        let m = vstd::wrapping::u8_specs::wrapping_add(rtc[1], 1);
        if m < 60 {
            put(put(rtc, 0, 0), 1, m)
        } else {
            let h = vstd::wrapping::u8_specs::wrapping_add(rtc[2], 1);
            if h < 24 {
                put(put(put(rtc, 0, 0), 1, 0), 2, h)
            } else {
                rtc_day(put(put(put(rtc, 0, 0), 1, 0), 2, 0))
            }
        }
    }
}

/// The clock registers with the day counter one on.
pub open spec fn rtc_day(rtc: [u8; 5]) -> [u8; 5] {
    let day = (((rtc[4] & 0x01) as u16 * 256) as u16 | rtc[3] as u16) + 1;
    let flags = if day > 0x1FF {
        rtc[4] | 0x80
    } else {
        rtc[4]
    };
    let day = if day > 0x1FF {
        0u16
    } else {
        day as u16
    };
    put(put(rtc, 3, (day & 0xFF) as u8), 4, (flags & 0xFE) | ((day >> 8) & 1) as u8)
}

/// The clock registers `n` seconds on.
pub open spec fn rtc_seconds(rtc: [u8; 5], n: nat) -> [u8; 5]
    decreases n,
{
    if n == 0 {
        rtc
    } else {
        rtc_second(rtc_seconds(rtc, (n - 1) as nat))
    }
}

impl CartState {
    /// What every cartridge in use satisfies: a full first ROM bank, a valid
    /// clock register selection, bank numbers of real parts and a clock
    /// remainder below one second.
    pub open spec fn wf(self) -> bool {
        &&& self.rom.len() >= 0x4000
        &&& self.rtc_register < 5
        &&& self.num_rom_banks <= 256
        &&& self.num_ram_banks <= 16
        &&& self.ram_bank < 16
        &&& self.rom_bank <= 0xFFFF_FFFF
        &&& self.rtc_cycles < CYCLES_PER_SECOND
    }

    /// A freshly inserted cartridge with the ROM `data`.
    pub open spec fn loaded(data: Seq<u8>) -> CartState {
        CartState {
            title: title_of(data),
            mbc: MbcType::of_code(data[0x147]),
            cgb_flag: data[0x143],
            rom: data,
            ram: Seq::new(ram_size(MbcType::of_code(data[0x147]), data[0x149]), |i: int| 0u8),
            num_rom_banks: rom_banks(data[0x148]),
            num_ram_banks: ram_banks(data[0x149]),
            rom_bank: 1,
            ram_bank: 0,
            bank_mode: false,
            ram_enabled: false,
            has_battery: code_has_battery(data[0x147]),
            has_rtc: data[0x147] == 0x0F || data[0x147] == 0x10,
            rtc_selected: false,
            rtc_register: 0,
            rtc: filled(0),
            rtc_latched: filled(0),
            rtc_latch: 0,
            rtc_cycles: 0,
            sram_dirty: false,
        }
    }

    /// Whether the header asks for a CGB.
    pub open spec fn is_cgb(self) -> bool {
        self.cgb_flag & 0x80 != 0
    }

    /// The ROM bank count, at least one.
    pub open spec fn rom_modulus(self) -> usize {
        if self.num_rom_banks >= 1 {
            self.num_rom_banks
        } else {
            1
        }
    }

    /// The RAM bank count, at least one.
    pub open spec fn ram_modulus(self) -> usize {
        if self.num_ram_banks >= 1 {
            self.num_ram_banks
        } else {
            1
        }
    }

    /// The byte the ROM area shows at `addr` (below 0x8000).
    pub open spec fn rom_byte(self, addr: u16) -> u8 {
        if addr < 0x4000 {
            self.rom[addr as int]
        } else {
            let offset = (self.rom_bank % self.rom_modulus()) * 0x4000 + (addr - 0x4000);
            if offset < self.rom.len() {
                self.rom[offset]
            } else {
                0xFF
            }
        }
    }

    /// The offset into RAM that `addr` (0xA000-0xBFFF) selects. An MBC2 repeats
    /// its RAM over the area.
    pub open spec fn ram_offset(self, addr: u16) -> int {
        let bank = if self.mbc == MbcType::Mbc3 || self.mbc == MbcType::Mbc5 || (self.mbc
            == MbcType::Mbc1 && self.bank_mode) {
            self.ram_bank
        } else {
            0
        };
        if self.mbc == MbcType::Mbc2 {
            (addr - 0xA000) % 512
        } else {
            bank * 0x2000 + (addr - 0xA000)
        }
    }

    /// A byte as the data lines show it: those of an MBC2 are four bits wide.
    pub open spec fn shown(self, value: u8) -> u8 {
        if self.mbc == MbcType::Mbc2 {
            value | 0xF0
        } else {
            value
        }
    }

    /// Whether the RAM area answers at all.
    pub open spec fn ram_open(self) -> bool {
        self.ram_enabled && self.ram.len() > 0
    }

    /// Whether the RAM area shows a clock register.
    pub open spec fn clock_open(self) -> bool {
        self.mbc == MbcType::Mbc3 && self.rtc_selected
    }

    /// The byte the RAM area shows at `addr`.
    pub open spec fn ram_byte(self, addr: u16) -> u8 {
        if !self.ram_open() {
            0xFF
        } else if self.clock_open() {
            self.rtc_latched[self.rtc_register as int]
        } else if self.ram_offset(addr) < self.ram.len() {
            self.shown(self.ram[self.ram_offset(addr)])
        } else {
            0xFF
        }
    }

    /// The state after a write of `value` to the RAM area.
    pub open spec fn after_write_ram(self, addr: u16, value: u8) -> CartState {
        if !self.ram_open() {
            self
        } else if self.clock_open() {
            CartState {
                rtc: put(self.rtc, self.rtc_register as int, value),
                sram_dirty: true,
                ..self
            }
        } else if self.ram_offset(addr) < self.ram.len() {
            CartState {
                ram: self.ram.update(self.ram_offset(addr), value),
                sram_dirty: true,
                ..self
            }
        } else {
            self
        }
    }

    /// The state after an MBC1 register write.
    pub open spec fn after_mbc1(self, addr: u16, value: u8) -> CartState {
        if addr < 0x2000 {
            CartState { ram_enabled: (value & 0x0F) == 0x0A, ..self }
        } else if addr < 0x4000 {
            let low = (value & 0x1F) as usize;
            let bank = if low == 0 {
                1usize
            } else {
                low
            };
            let rom_bank = if self.bank_mode {
                ((self.rom_bank & 0x60) | (bank & 0x1F)) & 0x7F
            } else {
                ((self.rom_bank & 0xE0) | bank) & 0x7F
            };
            CartState { rom_bank: rom_bank % self.rom_modulus(), ..self }
        } else if addr < 0x6000 {
            if self.bank_mode {
                CartState { ram_bank: (value & 0x03) as usize % self.ram_modulus(), ..self }
            } else {
                let rom_bank = ((self.rom_bank & 0x1F) | ((value & 0x03) as usize) << 5) & 0x7F;
                CartState { rom_bank: rom_bank % self.rom_modulus(), ..self }
            }
        } else if addr < 0x8000 {
            CartState { bank_mode: value & 0x01 != 0, ..self }
        } else {
            self
        }
    }

    /// The state after an MBC2 register write: address bit 8 tells the RAM
    /// enable from the ROM bank.
    pub open spec fn after_mbc2(self, addr: u16, value: u8) -> CartState {
        if addr >= 0x4000 {
            self
        } else if addr & 0x100 == 0 {
            CartState { ram_enabled: (value & 0x0F) == 0x0A, ..self }
        } else {
            let bank = if value & 0x0F == 0 {
                1usize
            } else {
                (value & 0x0F) as usize
            };
            CartState { rom_bank: bank % self.rom_modulus(), ..self }
        }
    }

    /// The state after an MBC5 register write: nine bits of ROM bank, in which
    /// 0 is a bank like any other, and four of RAM bank.
    pub open spec fn after_mbc5(self, addr: u16, value: u8) -> CartState {
        if addr < 0x2000 {
            CartState { ram_enabled: (value & 0x0F) == 0x0A, ..self }
        } else if addr < 0x3000 {
            let bank = (self.rom_bank / 256 % 2 * 256 + value) as usize;
            CartState { rom_bank: bank % self.rom_modulus(), ..self }
        } else if addr < 0x4000 {
            let bank = (value % 2 * 256 + self.rom_bank % 256) as usize;
            CartState { rom_bank: bank % self.rom_modulus(), ..self }
        } else if addr < 0x6000 {
            CartState { ram_bank: (value % 16) as usize % self.ram_modulus(), ..self }
        } else {
            self
        }
    }

    /// The state after an MBC3 register write.
    pub open spec fn after_mbc3(self, addr: u16, value: u8) -> CartState {
        if addr < 0x2000 {
            CartState { ram_enabled: (value & 0x0F) == 0x0A, ..self }
        } else if addr < 0x4000 {
            let bank = if value == 0 {
                1usize
            } else {
                value as usize
            };
            CartState { rom_bank: bank % self.rom_modulus(), ..self }
        } else if addr < 0x6000 {
            if value <= 0x03 {
                CartState {
                    rtc_selected: false,
                    ram_bank: value as usize % self.ram_modulus(),
                    ..self
                }
            } else if 0x08 <= value <= 0x0C {
                CartState { rtc_selected: true, rtc_register: (value - 0x08) as u8, ..self }
            } else {
                self
            }
        } else if addr < 0x8000 {
            CartState {
                rtc_latched: if value == 0x00 && self.rtc_latch == 0x01 {
                    self.rtc
                } else {
                    self.rtc_latched
                },
                rtc_latch: value,
                ..self
            }
        } else {
            self
        }
    }

    /// The state after a write to the ROM area: the controller's registers.
    pub open spec fn after_write(self, addr: u16, value: u8) -> CartState {
        match self.mbc {
            MbcType::Mbc1 => self.after_mbc1(addr, value),
            MbcType::Mbc2 => self.after_mbc2(addr, value),
            MbcType::Mbc3 => self.after_mbc3(addr, value),
            MbcType::Mbc5 => self.after_mbc5(addr, value),
            _ => self,
        }
    }

    /// The state `cycles` T-cycles on: only the MBC3 clock runs.
    pub open spec fn after_rtc_tick(self, cycles: u32) -> CartState {
        if self.mbc == MbcType::Mbc3 {
            let total = self.rtc_cycles + cycles;
            CartState {
                rtc_cycles: (total % CYCLES_PER_SECOND as int) as u32,
                rtc: rtc_seconds(self.rtc, (total / CYCLES_PER_SECOND as int) as nat),
                ..self
            }
        } else {
            self
        }
    }
}

impl Cartridge {
    /// Read the header of the ROM `data`.
    pub fn load(data: &[u8]) -> (r: Result<Cartridge, String>)
        ensures
            match r {
                Ok(cart) => data@.len() >= 0x150 && cart@ == CartState::loaded(data@) && (
                data@.len() >= 0x4000 ==> cart@.wf()),
                Err(e) => data@.len() < 0x150 && e@
                    == "ROM too small to contain a cartridge header"@,
            },
    {
        if data.len() < 0x150 {
            return Err("ROM too small to contain a cartridge header".to_owned());
        }
        let mut title = String::new();
        let mut i: usize = 0;
        while i < 15 && data[0x134 + i] != 0
            invariant
                data@.len() >= 0x150,
                i <= 15,
                title@ =~= Seq::new(i as nat, |k: int| data@[0x134 + k] as char),
                title_len(data@, i as nat) == title_len(data@, 0),
            decreases 15 - i,
        {
            title.push(data[0x134 + i] as char);
            i = i + 1;
        }
        let mbc_code: u8 = data[0x147];
        let mbc = match mbc_code {
            0x00 => MbcType::RomOnly,
            0x01..=0x03 => MbcType::Mbc1,
            0x05..=0x06 => MbcType::Mbc2,
            0x0F..=0x13 => MbcType::Mbc3,
            0x19..=0x1E => MbcType::Mbc5,
            _ => MbcType::Other,
        };
        let num_rom_banks: usize = match data[0x148] {
            0x01 => 4,
            0x02 => 8,
            0x03 => 16,
            0x04 => 32,
            0x05 => 64,
            0x06 => 128,
            0x07 => 256,
            0x52 => 72,
            0x53 => 80,
            0x54 => 96,
            _ => 2,
        };
        let num_ram_banks: usize = match data[0x149] {
            0x02 => 1,
            0x03 => 4,
            0x04 => 16,
            0x05 => 8,
            _ => 0,
        };
        let has_battery = matches!(
            mbc_code,
            0x03 | 0x06 | 0x09 | 0x0D | 0x0F | 0x10 | 0x13 | 0x1B | 0x1E
        );
        let mut rom: Vec<u8> = Vec::new();
        rom.extend_from_slice(data);
        let ram_bytes: usize = if mbc == MbcType::Mbc2 {
            512
        } else {
            num_ram_banks * 0x2000
        };
        let ram: Vec<u8> = vec![0; ram_bytes];
        let cart = Cartridge {
            title,
            mbc,
            cgb_flag: data[0x143],
            rom,
            ram,
            num_rom_banks,
            num_ram_banks,
            rom_bank: 1,
            ram_bank: 0,
            bank_mode: false,
            ram_enabled: false,
            has_battery,
            has_rtc: mbc_code == 0x0F || mbc_code == 0x10,
            rtc_selected: false,
            rtc_register: 0,
            rtc: [0; 5],
            rtc_latched: [0; 5],
            rtc_latch: 0,
            rtc_cycles: 0,
            sram_dirty: false,
        };
        assert(cart@ =~= CartState::loaded(data@));
        Ok(cart)
    }

    /// Whether the state is sound; one restored from untrusted bytes may not be.
    pub fn is_valid(&self) -> (r: bool)
        ensures
            r == self@.wf(),
    {
        self.rom.len() >= 0x4000 && self.rtc_register < 5 && self.num_rom_banks <= 256
            && self.num_ram_banks <= 16 && self.ram_bank < 16 && self.rom_bank <= 0xFFFF_FFFF
            && self.rtc_cycles < CYCLES_PER_SECOND
    }

    pub fn has_battery(&self) -> (r: bool)
        ensures
            r == self@.has_battery,
    {
        self.has_battery
    }

    /// Whether the header asks for a CGB.
    pub fn is_cgb(&self) -> (r: bool)
        ensures
            r == self@.is_cgb(),
    {
        self.cgb_flag & 0x80 != 0
    }

    /// Advance the clock by one second.
    fn rtc_advance(&mut self)
        ensures
            final(self)@ == (CartState { rtc: rtc_second(old(self).rtc), ..old(self)@ }),
    {
        broadcast use crate::bits::group_masks;

        let s: u8 = self.rtc[0].wrapping_add(1);
        self.rtc[0] = s;
        if s >= 60 {
            self.rtc[0] = 0;
            let m: u8 = self.rtc[1].wrapping_add(1);
            self.rtc[1] = m;
            if m >= 60 {
                self.rtc[1] = 0;
                let h: u8 = self.rtc[2].wrapping_add(1);
                self.rtc[2] = h;
                if h >= 24 {
                    self.rtc[2] = 0;
                    let low: u8 = self.rtc[3];
                    let high: u16 = (self.rtc[4] & 0x01) as u16 * 256;
                    assert(high <= 256 ==> high | low as u16 <= 0x1FF) by (bit_vector)
                        requires high == 0 || high == 256;
                    let mut day: u16 = (high | low as u16) + 1;
                    // The day counter spans nine bits across two registers.
                    if day > 0x1FF {
                        day = 0;
                        self.rtc[4] = self.rtc[4] | 0x80;
                    }
                    self.rtc[3] = (day & 0xFF) as u8;
                    self.rtc[4] = (self.rtc[4] & 0xFE) | ((day >> 8) & 1) as u8;
                }
            }
        }
        assert(self.rtc =~= rtc_second(old(self).rtc));
    }

    /// Advance the MBC3 real-time clock by `cycles` T-cycles (4.19 MHz).
    pub fn rtc_tick(&mut self, cycles: u32)
        requires
            old(self)@.mbc == MbcType::Mbc3 ==> old(self)@.rtc_cycles + cycles <= u32::MAX,
        ensures
            final(self)@ == old(self)@.after_rtc_tick(cycles),
    {
        if self.mbc != MbcType::Mbc3 {
            return;
        }
        let ghost total = (self.rtc_cycles + cycles) as int;
        let ghost mut n: nat = 0;
        self.rtc_cycles = self.rtc_cycles + cycles;
        while self.rtc_cycles >= CYCLES_PER_SECOND
            invariant
                self@ == (CartState {
                    rtc_cycles: self.rtc_cycles,
                    rtc: rtc_seconds(old(self).rtc, n),
                    ..old(self)@
                }),
                self.rtc_cycles + n * CYCLES_PER_SECOND == total,
            decreases self.rtc_cycles,
        {
            self.rtc_cycles = self.rtc_cycles - CYCLES_PER_SECOND;
            self.rtc_advance();
            proof {
                n = n + 1;
            }
        }
        proof {
            assert(total / CYCLES_PER_SECOND as int == n && total % CYCLES_PER_SECOND as int
                == self.rtc_cycles) by (nonlinear_arith)
                requires
                    self.rtc_cycles + n * CYCLES_PER_SECOND == total,
                    0 <= self.rtc_cycles < CYCLES_PER_SECOND,
                    CYCLES_PER_SECOND == 4_194_304,
            ;
        }
    }

    pub fn ram_bytes(&self) -> (r: usize)
        ensures
            r == self@.ram.len(),
    {
        self.ram.len()
    }

    /// The byte at `addr` in the ROM area (0x0000-0x7FFF).
    pub fn read(&self, addr: u16) -> (r: u8)
        requires
            addr < 0x8000,
            addr < 0x4000 ==> addr < self@.rom.len(),
            self@.num_rom_banks <= 256,
        ensures
            r == self@.rom_byte(addr),
    {
        if addr < 0x4000 {
            self.rom[addr as usize]
        } else {
            let banks: usize = if self.num_rom_banks >= 1 {
                self.num_rom_banks
            } else {
                1
            };
            let bank: usize = self.rom_bank % banks;
            let offset: usize = bank * 0x4000 + (addr as usize - 0x4000);
            if offset < self.rom.len() {
                self.rom[offset]
            } else {
                0xFF
            }
        }
    }

    /// The byte at `addr` in the RAM area (0xA000-0xBFFF).
    pub fn read_ram(&self, addr: u16) -> (r: u8)
        requires
            0xA000 <= addr < 0xC000,
            self@.rtc_register < 5,
            self@.ram_bank < 16,
        ensures
            r == self@.ram_byte(addr),
    {
        if !self.ram_enabled || self.ram.len() == 0 {
            return 0xFF;
        }
        if self.mbc == MbcType::Mbc3 && self.rtc_selected {
            return self.rtc_latched[self.rtc_register as usize];
        }
        let offset: usize = self.offset_of(addr);
        if offset < self.ram.len() {
            if self.mbc == MbcType::Mbc2 {
                self.ram[offset] | 0xF0
            } else {
                self.ram[offset]
            }
        } else {
            0xFF
        }
    }

    fn offset_of(&self, addr: u16) -> (r: usize)
        requires
            0xA000 <= addr < 0xC000,
            self@.ram_bank < 16,
        ensures
            r == self@.ram_offset(addr),
    {
        let bank: usize = match self.mbc {
            MbcType::Mbc1 => {
                if self.bank_mode {
                    self.ram_bank
                } else {
                    0
                }
            },
            MbcType::Mbc2 => return (addr as usize - 0xA000) % 512,
            MbcType::Mbc3 | MbcType::Mbc5 => self.ram_bank,
            _ => 0,
        };
        bank * 0x2000 + (addr as usize - 0xA000)
    }

    /// Write a controller register (0x0000-0x7FFF).
    pub fn write(&mut self, addr: u16, value: u8)
        ensures
            final(self)@ == old(self)@.after_write(addr, value),
    {
        match self.mbc {
            MbcType::Mbc1 => self.write_mbc1(addr, value),
            MbcType::Mbc2 => self.write_mbc2(addr, value),
            MbcType::Mbc3 => self.write_mbc3(addr, value),
            MbcType::Mbc5 => self.write_mbc5(addr, value),
            _ => {},
        }
    }

    fn rom_bank_modulus(&self) -> (r: usize)
        ensures
            r == self@.rom_modulus(),
    {
        if self.num_rom_banks >= 1 {
            self.num_rom_banks
        } else {
            1
        }
    }

    fn ram_bank_modulus(&self) -> (r: usize)
        ensures
            r == self@.ram_modulus(),
    {
        if self.num_ram_banks >= 1 {
            self.num_ram_banks
        } else {
            1
        }
    }

    fn write_mbc1(&mut self, addr: u16, value: u8)
        ensures
            final(self)@ == old(self)@.after_mbc1(addr, value),
    {
        match addr {
            0x0000..=0x1FFF => self.ram_enabled = (value & 0x0F) == 0x0A,
            0x2000..=0x3FFF => {
                let mut bank: usize = (value & 0x1F) as usize;
                if bank == 0 {
                    bank = 1;
                }
                let selected: usize = if self.bank_mode {
                    ((self.rom_bank & 0x60) | (bank & 0x1F)) & 0x7F
                } else {
                    ((self.rom_bank & 0xE0) | bank) & 0x7F
                };
                self.rom_bank = selected % self.rom_bank_modulus();
            },
            0x4000..=0x5FFF => {
                if self.bank_mode {
                    self.ram_bank = (value & 0x03) as usize % self.ram_bank_modulus();
                } else {
                    let selected: usize = ((self.rom_bank & 0x1F) | ((value & 0x03) as usize) << 5)
                        & 0x7F;
                    self.rom_bank = selected % self.rom_bank_modulus();
                }
            },
            0x6000..=0x7FFF => self.bank_mode = value & 0x01 != 0,
            _ => {},
        }
    }

    fn write_mbc3(&mut self, addr: u16, value: u8)
        ensures
            final(self)@ == old(self)@.after_mbc3(addr, value),
    {
        match addr {
            0x0000..=0x1FFF => self.ram_enabled = (value & 0x0F) == 0x0A,
            0x2000..=0x3FFF => {
                let mut bank: usize = value as usize;
                if bank == 0 {
                    bank = 1;
                }
                self.rom_bank = bank % self.rom_bank_modulus();
            },
            0x4000..=0x5FFF => {
                if value <= 0x03 {
                    self.rtc_selected = false;
                    self.ram_bank = value as usize % self.ram_bank_modulus();
                } else if 0x08 <= value && value <= 0x0C {
                    self.rtc_selected = true;
                    self.rtc_register = value - 0x08;
                }
            },
            0x6000..=0x7FFF => {
                if value == 0x00 && self.rtc_latch == 0x01 {
                    self.rtc_latched = self.rtc;
                }
                self.rtc_latch = value;
            },
            _ => {},
        }
    }

    fn write_mbc2(&mut self, addr: u16, value: u8)
        ensures
            final(self)@ == old(self)@.after_mbc2(addr, value),
    {
        if addr >= 0x4000 {
            return;
        }
        if addr & 0x100 == 0 {
            self.ram_enabled = (value & 0x0F) == 0x0A;
        } else {
            let bank: usize = if value & 0x0F == 0 {
                1
            } else {
                (value & 0x0F) as usize
            };
            self.rom_bank = bank % self.rom_bank_modulus();
        }
    }

    fn write_mbc5(&mut self, addr: u16, value: u8)
        ensures
            final(self)@ == old(self)@.after_mbc5(addr, value),
    {
        match addr {
            0x0000..=0x1FFF => self.ram_enabled = (value & 0x0F) == 0x0A,
            0x2000..=0x2FFF => {
                let bank: usize = self.rom_bank / 256 % 2 * 256 + value as usize;
                self.rom_bank = bank % self.rom_bank_modulus();
            },
            0x3000..=0x3FFF => {
                let bank: usize = (value % 2) as usize * 256 + self.rom_bank % 256;
                self.rom_bank = bank % self.rom_bank_modulus();
            },
            0x4000..=0x5FFF => {
                self.ram_bank = (value % 16) as usize % self.ram_bank_modulus();
            },
            _ => {},
        }
    }

    /// Write `value` at `addr` in the RAM area (0xA000-0xBFFF).
    pub fn write_ram(&mut self, addr: u16, value: u8)
        requires
            0xA000 <= addr < 0xC000,
            old(self)@.rtc_register < 5,
            old(self)@.ram_bank < 16,
        ensures
            final(self)@ == old(self)@.after_write_ram(addr, value),
    {
        if !self.ram_enabled || self.ram.len() == 0 {
            return;
        }
        if self.mbc == MbcType::Mbc3 && self.rtc_selected {
            self.rtc[self.rtc_register as usize] = value;
            self.sram_dirty = true;
            return;
        }
        let offset: usize = self.offset_of(addr);
        if offset < self.ram.len() {
            self.ram[offset] = value;
            self.sram_dirty = true;
        }
    }

    /// Whether battery-backed state (RAM or the clock) was written since the
    /// last call.
    pub fn sram_changed(&mut self) -> (r: bool)
        ensures
            r == old(self)@.sram_dirty,
            final(self)@ == (CartState { sram_dirty: false, ..old(self)@ }),
    {
        let changed = self.sram_dirty;
        self.sram_dirty = false;
        changed
    }

    /// The clock registers, or nothing without a clock.
    pub fn rtc_data(&self) -> (r: Vec<u8>)
        ensures
            r@ == if self@.has_rtc {
                self@.rtc@
            } else {
                Seq::empty()
            },
    {
        let mut out: Vec<u8> = Vec::new();
        if self.has_rtc {
            let mut i: usize = 0;
            while i < 5
                invariant
                    i <= 5,
                    out@ =~= self.rtc@.take(i as int),
                decreases 5 - i,
            {
                out.push(self.rtc[i]);
                i = i + 1;
            }
        }
        out
    }

    /// Set the clock registers from the bytes of `rtc_data`; anything shorter
    /// is ignored.
    pub fn load_rtc(&mut self, data: &[u8])
        ensures
            final(self)@ == if old(self)@.has_rtc && data@.len() >= 5 {
                CartState { rtc: final(self)@.rtc, ..old(self)@ }
            } else {
                old(self)@
            },
            old(self)@.has_rtc && data@.len() >= 5 ==> final(self)@.rtc@ == data@.take(5),
    {
        if self.has_rtc && data.len() >= 5 {
            self.rtc = [data[0], data[1], data[2], data[3], data[4]];
            assert(self.rtc@ =~= data@.take(5));
        }
    }
}

/// No access through the cartridge's registers breaks its invariant.
pub proof fn law_cartridge_stays_well_formed(cart: CartState, addr: u16, value: u8, cycles: u32)
    requires
        cart.wf(),
    ensures
        cart.after_write(addr, value).wf(),
        cart.after_write_ram(addr, value).wf(),
        cart.after_rtc_tick(cycles).wf(),
{
    broadcast use crate::bits::group_masks;

}

/// A write to open battery RAM reads back, as far as its data lines go, and
/// touches no other byte.
pub proof fn law_ram_write_reads_back(cart: CartState, addr: u16, other: u16, value: u8)
    requires
        0xA000 <= addr < 0xC000,
        0xA000 <= other < 0xC000,
        cart.ram_open(),
        !cart.clock_open(),
        cart.ram_offset(addr) < cart.ram.len(),
    ensures
        cart.after_write_ram(addr, value).ram_byte(addr) == cart.shown(value),
        cart.mbc != MbcType::Mbc2 ==> cart.shown(value) == value,
        cart.ram_offset(other) != cart.ram_offset(addr) ==> cart.after_write_ram(addr, value).ram_byte(other) == cart.ram_byte(other),
{
}

/// While RAM is disabled (or absent) the RAM area reads 0xFF and ignores
/// writes.
pub proof fn law_closed_ram(cart: CartState, addr: u16, value: u8)
    requires
        !cart.ram_open(),
    ensures
        cart.ram_byte(addr) == 0xFF,
        cart.after_write_ram(addr, value) == cart,
{
}

/// With a clock register selected the RAM area shows its latched copy. Time
/// and writes to the register leave the copy alone; it takes the live values
/// only where 0 is written to the latch after 1.
pub proof fn law_clock_is_latched(cart: CartState, addr: u16, value: u8, cycles: u32)
    ensures
        cart.ram_open() && cart.clock_open() ==> cart.ram_byte(addr)
            == cart.rtc_latched[cart.rtc_register as int],
        cart.after_rtc_tick(cycles).rtc_latched == cart.rtc_latched,
        cart.after_write_ram(addr, value).rtc_latched == cart.rtc_latched,
        cart.mbc == MbcType::Mbc3 ==> cart.after_write(addr, value).rtc_latched == if 0x6000 <= addr
            < 0x8000 && value == 0 && cart.rtc_latch == 1 {
            cart.rtc
        } else {
            cart.rtc_latched
        },
        cart.mbc == MbcType::Mbc3 && 0x6000 <= addr < 0x8000 ==> cart.after_write(
            addr,
            value,
        ).rtc_latch == value,
        !(0x6000 <= addr < 0x8000) ==> cart.after_write(addr, value).rtc_latch == cart.rtc_latch,
{
}

} // verus!
