//! GBA battery-backed save memory: SRAM, FLASH (64K/128K), and EEPROM.
//!
//! The save cartridge lives at `0x0E000000` and is auto-detected from the first
//! access: a write to the FLASH command addresses (`0x5555`/`0x2AAA`) selects
//! FLASH, otherwise the region behaves as plain SRAM. FLASH implements the
//! standard command interface (program, sector erase, ID and bank select for
//! 128K parts). EEPROM uses a separate serial protocol and is not implemented
//! here (it reads as 0xFF).

use crate::emu::mem::{lemma_overlaid, Mem};
use vstd::prelude::*;
use vstd::slice::slice_subrange;

verus! {

/// Maximum FLASH capacity (128 KB).
pub const FLASH_SIZE: usize = 0x20000;
/// SRAM capacity (64 KB).
pub const SRAM_SIZE: usize = 0x10000;

#[derive(Clone, Copy, PartialEq, Eq, Structural, Debug)]
pub enum SaveType {
    Absent,
    Sram,
    Flash,
    Eeprom,
}

/// Where a FLASH command sequence stands.
#[derive(Clone, Copy, PartialEq, Eq, Structural, Debug)]
pub enum Cmd {
    Idle,
    Aa,
    A55,
    Program,
    Erase1,
    Erase2,
    Erase3,
    Bank,
}

/// The battery-backed save cartridge.
pub struct SaveCartridge {
    pub kind: SaveType,
    /// Detected automatically on first access.
    pub detected: bool,
    pub flash: Mem<u8, 0x20000>,
    pub sram: Mem<u8, 0x10000>,
    pub bank: usize,
    pub cmd: Cmd,
    pub id_mode: bool,
    /// Dirty flag, cleared by the system after a save flush.
    pub dirty: bool,
}

impl SaveCartridge {
    pub open spec fn initial() -> SaveCartridge {
        SaveCartridge {
            kind: SaveType::Absent,
            detected: false,
            flash: Mem::<u8, 0x20000>::all(0xFF),
            sram: Mem::<u8, 0x10000>::all(0),
            bank: 0,
            cmd: Cmd::Idle,
            id_mode: false,
            dirty: false,
        }
    }

    /// There are two FLASH banks.
    pub open spec fn wf(self) -> bool {
        self.bank <= 1
    }

    pub fn new() -> (r: SaveCartridge)
        ensures
            r == SaveCartridge::initial(),
            r.wf(),
    {
        SaveCartridge {
            kind: SaveType::Absent,
            detected: false,
            flash: Mem::filled(0xFF),
            sram: Mem::zeroed(),
            bank: 0,
            cmd: Cmd::Idle,
            id_mode: false,
            dirty: false,
        }
    }

    /// Whether a battery-backed cartridge is present.
    pub fn battery_backed(&self) -> (r: bool)
        ensures
            r == (self.kind != SaveType::Absent),
    {
        self.kind != SaveType::Absent
    }

    /// The bytes that the cartridge keeps.
    pub open spec fn bytes(self) -> Seq<u8> {
        match self.kind {
            SaveType::Flash => self.flash.0@,
            SaveType::Sram => self.sram.0@,
            _ => Seq::empty(),
        }
    }

    /// The save region as raw bytes (FLASH or SRAM).
    pub fn raw(&self) -> (r: &[u8])
        ensures
            r@ == self.bytes(),
    {
        match self.kind {
            SaveType::Flash => self.flash.as_slice(),
            SaveType::Sram => self.sram.as_slice(),
            _ => {
                let none = slice_subrange(self.sram.as_slice(), 0, 0);
                assert(none@ =~= Seq::<u8>::empty());
                none
            },
        }
    }

    /// The type of a cartridge whose save file has `n` bytes.
    pub open spec fn kind_for(n: nat) -> SaveType {
        if n > 0x10000 {
            SaveType::Flash
        } else if n > 0 {
            SaveType::Sram
        } else {
            SaveType::Absent
        }
    }

    /// The cartridge with `data` laid over its memory; what is too long for
    /// the memory is cut off.
    pub open spec fn after_load(self, data: Seq<u8>) -> SaveCartridge {
        let kind = if self.kind == SaveType::Absent {
            SaveCartridge::kind_for(data.len())
        } else {
            self.kind
        };
        SaveCartridge {
            kind,
            detected: self.detected || self.kind == SaveType::Absent,
            flash: if kind == SaveType::Flash {
                self.flash.overlaid(
                    0,
                    data.take(
                        if data.len() < FLASH_SIZE {
                            data.len() as int
                        } else {
                            FLASH_SIZE as int
                        },
                    ),
                )
            } else {
                self.flash
            },
            sram: if kind == SaveType::Sram {
                self.sram.overlaid(
                    0,
                    data.take(
                        if data.len() < SRAM_SIZE {
                            data.len() as int
                        } else {
                            SRAM_SIZE as int
                        },
                    ),
                )
            } else {
                self.sram
            },
            dirty: false,
            ..self
        }
    }

    /// Load raw save bytes into the active region, detecting the type from the
    /// payload length if it has not been set yet.
    pub fn load(&mut self, data: &[u8])
        ensures
            *final(self) == old(self).after_load(data@),
            old(self).wf() ==> final(self).wf(),
    {
        let len: usize = data.len();
        if self.kind == SaveType::Absent {
            self.detected = true;
            self.kind = if len > SRAM_SIZE {
                SaveType::Flash
            } else if len > 0 {
                SaveType::Sram
            } else {
                SaveType::Absent
            };
        }
        match self.kind {
            SaveType::Flash => {
                let n: usize = if len < FLASH_SIZE {
                    len
                } else {
                    FLASH_SIZE
                };
                self.flash.copy_from(0, data, n);
            },
            SaveType::Sram => {
                let n: usize = if len < SRAM_SIZE {
                    len
                } else {
                    SRAM_SIZE
                };
                self.sram.copy_from(0, data, n);
            },
            _ => {},
        }
        self.dirty = false;
    }

    /// Read the dirty flag and clear it.
    pub fn take_dirty(&mut self) -> (r: bool)
        ensures
            r == old(self).dirty,
            *final(self) == (SaveCartridge { dirty: false, ..*old(self) }),
    {
        let d = self.dirty;
        self.dirty = false;
        d
    }

    /// The detected save type.
    pub fn kind(&self) -> (r: SaveType)
        ensures
            r == self.kind,
    {
        self.kind
    }

    /// Set the save type and mark it detected (used by save-state restore).
    pub fn set_kind(&mut self, kind: SaveType)
        ensures
            *final(self) == (SaveCartridge { kind, detected: true, ..*old(self) }),
    {
        self.kind = kind;
        self.detected = true;
    }

    /// The active FLASH bank index.
    pub fn flash_bank(&self) -> (r: usize)
        ensures
            r == self.bank,
    {
        self.bank
    }

    pub fn set_flash_bank(&mut self, bank: usize)
        ensures
            *final(self) == (SaveCartridge { bank: bank % 2, ..*old(self) }),
            final(self).wf(),
    {
        self.bank = bank % 2;
    }

    /// The cartridge with its type settled by a write to `a`, if it is the
    /// first.
    pub open spec fn detected_by(self, a: int) -> SaveCartridge {
        if self.detected {
            self
        } else {
            SaveCartridge {
                detected: true,
                kind: if a == 0x5555 || a == 0x2AAA {
                    SaveType::Flash
                } else {
                    SaveType::Sram
                },
                ..self
            }
        }
    }

    fn detect_write(&mut self, a: usize)
        ensures
            *final(self) == old(self).detected_by(a as int),
    {
        if self.detected {
            return;
        }
        self.detected = true;
        self.kind = if a == 0x5555 || a == 0x2AAA {
            SaveType::Flash
        } else {
            SaveType::Sram
        };
    }

    /// The byte that the region shows at `addr`: in ID mode a FLASH shows its
    /// maker and device codes.
    pub open spec fn byte(self, addr: int) -> u8 {
        let a = addr % 0x10000;
        match self.kind {
            SaveType::Flash => if self.id_mode {
                if a == 0 {
                    0xC2
                } else if a == 1 {
                    0x09
                } else {
                    0xFF
                }
            } else {
                self.flash.at(self.bank * 0x10000 + a)
            },
            SaveType::Sram => self.sram.at(a),
            _ => 0xFF,
        }
    }

    pub open spec fn half(self, addr: int) -> u16 {
        (self.byte(addr) + self.byte(addr + 1) * 256) as u16
    }

    /// Read a byte from the save region.
    pub fn read8(&self, addr: usize) -> (r: u8)
        requires
            self.wf(),
        ensures
            r == self.byte(addr as int),
    {
        let a: usize = addr % 0x10000;
        match self.kind {
            SaveType::Flash => {
                if self.id_mode {
                    match a {
                        0x0000 => 0xC2,  // manufacturer
                        0x0001 => 0x09,  // device: 128K (also used for 64K detection)
                        _ => 0xFF,
                    }
                } else {
                    self.flash.get(self.bank * 0x10000 + a)
                }
            },
            SaveType::Sram => self.sram.get(a),
            _ => 0xFF,
        }
    }

    /// Read a 16-bit value from the save region.
    pub fn read16(&self, addr: usize) -> (r: u16)
        requires
            self.wf(),
            addr < usize::MAX,
        ensures
            r == self.half(addr as int),
    {
        self.read8(addr) as u16 + self.read8(addr + 1) as u16 * 256
    }

    /// The cartridge after a byte was written at `addr`.
    pub open spec fn after_write8(self, addr: int, value: u8) -> SaveCartridge {
        let a = addr % 0x10000;
        let s = self.detected_by(a);
        match s.kind {
            SaveType::Flash => s.after_flash_write(a, value),
            SaveType::Sram => SaveCartridge { sram: s.sram.with(a, value), dirty: true, ..s },
            _ => s,
        }
    }

    pub open spec fn after_write16(self, addr: int, value: u16) -> SaveCartridge {
        self.after_write8(addr, (value % 256) as u8).after_write8(addr + 1, (value / 256) as u8)
    }

    /// Write a byte to the save region.
    pub fn write8(&mut self, addr: usize, value: u8)
        requires
            old(self).wf(),
        ensures
            *final(self) == old(self).after_write8(addr as int, value),
            final(self).wf(),
    {
        let a: usize = addr % 0x10000;
        self.detect_write(a);
        match self.kind {
            SaveType::Flash => self.flash_write(a, value),
            SaveType::Sram => {
                self.sram.set(a, value);
                self.dirty = true;
            },
            _ => {},
        }
    }

    /// Write a 16-bit value to the save region.
    pub fn write16(&mut self, addr: usize, value: u16)
        requires
            old(self).wf(),
            addr < usize::MAX,
        ensures
            *final(self) == old(self).after_write16(addr as int, value),
            final(self).wf(),
    {
        self.write8(addr, (value % 256) as u8);
        self.write8(addr + 1, (value / 256) as u8);
    }

    /// The state that a command at 0x5555 leads to after the two unlock
    /// cycles.
    pub open spec fn commanded(self, value: u8) -> SaveCartridge {
        match value {
            0x90 => SaveCartridge { id_mode: true, cmd: Cmd::Idle, ..self },
            0xA0 => SaveCartridge { cmd: Cmd::Program, ..self },
            0x80 => SaveCartridge { cmd: Cmd::Erase1, ..self },
            0xF0 => SaveCartridge { id_mode: false, cmd: Cmd::Idle, ..self },
            0xB0 => SaveCartridge { cmd: Cmd::Bank, ..self },
            _ => SaveCartridge { cmd: Cmd::Idle, ..self },
        }
    }

    /// The selected bank erased: every byte reads 0xFF.
    pub open spec fn erased(self) -> SaveCartridge {
        SaveCartridge {
            flash: self.flash.overlaid(self.bank * 0x10000, Seq::new(0x10000, |i: int| 0xFFu8)),
            dirty: true,
            ..self
        }
    }

    /// One write cycle of the FLASH command interface.
    pub open spec fn after_flash_write(self, a: int, value: u8) -> SaveCartridge {
        let first_unlock = a == 0x5555 && value == 0xAA;
        let second_unlock = a == 0x2AAA && value == 0x55;
        match self.cmd {
            Cmd::Idle => if first_unlock {
                SaveCartridge { cmd: Cmd::Aa, ..self }
            } else {
                self
            },
            Cmd::Aa => SaveCartridge {
                cmd: if second_unlock {
                    Cmd::A55
                } else {
                    Cmd::Idle
                },
                ..self
            },
            Cmd::A55 => if a == 0x5555 {
                self.commanded(value)
            } else {
                SaveCartridge { cmd: Cmd::Idle, ..self }
            },
            Cmd::Program => SaveCartridge {
                flash: self.flash.with(self.bank * 0x10000 + a, value),
                dirty: true,
                cmd: Cmd::Idle,
                ..self
            },
            Cmd::Erase1 => SaveCartridge {
                cmd: if first_unlock {
                    Cmd::Erase2
                } else {
                    Cmd::Idle
                },
                ..self
            },
            Cmd::Erase2 => SaveCartridge {
                cmd: if second_unlock {
                    Cmd::Erase3
                } else {
                    Cmd::Idle
                },
                ..self
            },
            Cmd::Erase3 => {
                let s = if a == 0x5555 && (value == 0x10 || value == 0x30) {
                    self.erased()
                } else {
                    self
                };
                SaveCartridge { cmd: Cmd::Idle, ..s }
            },
            Cmd::Bank => SaveCartridge {
                bank: (value % 2) as usize,
                cmd: Cmd::Idle,
                ..self
            },
        }
    }

    fn command(&mut self, value: u8)
        ensures
            *final(self) == old(self).commanded(value),
    {
        match value {
            0x90 => {
                self.id_mode = true;
                self.cmd = Cmd::Idle;
            },
            0xA0 => {
                self.cmd = Cmd::Program;
            },
            0x80 => {
                self.cmd = Cmd::Erase1;
            },
            0xF0 => {
                self.id_mode = false;
                self.cmd = Cmd::Idle;
            },
            0xB0 => {
                self.cmd = Cmd::Bank;
            },
            _ => {
                self.cmd = Cmd::Idle;
            },
        }
    }

    fn flash_write(&mut self, a: usize, value: u8)
        requires
            old(self).wf(),
            a < 0x10000,
        ensures
            *final(self) == old(self).after_flash_write(a as int, value),
            final(self).wf(),
    {
        match self.cmd {
            Cmd::Idle => {
                if a == 0x5555 && value == 0xAA {
                    self.cmd = Cmd::Aa;
                }
            },
            Cmd::Aa => {
                self.cmd = if a == 0x2AAA && value == 0x55 {
                    Cmd::A55
                } else {
                    Cmd::Idle
                };
            },
            Cmd::A55 => {
                if a == 0x5555 {
                    self.command(value);
                } else {
                    self.cmd = Cmd::Idle;
                }
            },
            Cmd::Program => {
                let idx: usize = self.bank * 0x10000 + a;
                self.flash.set(idx, value);
                self.dirty = true;
                self.cmd = Cmd::Idle;
            },
            Cmd::Erase1 => {
                self.cmd = if a == 0x5555 && value == 0xAA {
                    Cmd::Erase2
                } else {
                    Cmd::Idle
                };
            },
            Cmd::Erase2 => {
                self.cmd = if a == 0x2AAA && value == 0x55 {
                    Cmd::Erase3
                } else {
                    Cmd::Idle
                };
            },
            Cmd::Erase3 => {
                if a == 0x5555 && (value == 0x10 || value == 0x30) {
                    // Sector erase; for simplicity erase the whole selected bank.
                    let base: usize = self.bank * 0x10000;
                    self.flash.fill(base, 0x10000, 0xFF);
                    self.dirty = true;
                }
                self.cmd = Cmd::Idle;
            },
            Cmd::Bank => {
                self.bank = (value % 2) as usize;
                self.cmd = Cmd::Idle;
            },
        }
    }

    /// The cartridge after the two unlock cycles and command `c`.
    pub open spec fn after_command(self, c: u8) -> SaveCartridge {
        self.after_write8(0x5555, 0xAA).after_write8(0x2AAA, 0x55).after_write8(0x5555, c)
    }
}

impl Default for SaveCartridge {
    fn default() -> (r: SaveCartridge)
        ensures
            r == SaveCartridge::initial(),
            r.wf(),
    {
        SaveCartridge::new()
    }
}

/// A byte written to SRAM reads back, and every other byte stays.
pub proof fn law_sram_reads_back(s: SaveCartridge, addr: int, value: u8, other: int)
    requires
        s.kind == SaveType::Sram,
        s.detected,
        addr >= 0,
        other >= 0,
    ensures
        s.after_write8(addr, value).byte(addr) == value,
        addr % 0x10000 != other % 0x10000 ==> s.after_write8(addr, value).byte(other) == s.byte(
            other,
        ),
{
}

/// A byte programmed into FLASH through the command sequence reads back, and
/// every other byte stays.
pub proof fn law_flash_program_reads_back(s: SaveCartridge, addr: int, value: u8, other: int)
    requires
        s.wf(),
        s.kind == SaveType::Flash || !s.detected,
        s.cmd == Cmd::Idle,
        !s.id_mode,
        addr >= 0,
        other >= 0,
    ensures
        ({
            let after = s.after_command(0xA0).after_write8(addr, value);
            &&& after.kind == SaveType::Flash
            &&& after.byte(addr) == value
            &&& s.kind == SaveType::Flash && addr % 0x10000 != other % 0x10000 ==> after.byte(other)
                == s.byte(other)
            &&& after.dirty
            &&& after.cmd == Cmd::Idle
        }),
{
}

/// An erase sets the selected FLASH bank to 0xFF and leaves the other bank
/// as it is.
pub proof fn law_flash_erase(s: SaveCartridge, addr: int)
    requires
        s.wf(),
        s.kind == SaveType::Flash,
        s.detected,
        s.cmd == Cmd::Idle,
        !s.id_mode,
        addr >= 0,
    ensures
        ({
            let after = s.after_command(0x80).after_write8(0x5555, 0xAA).after_write8(
                0x2AAA,
                0x55,
            ).after_write8(0x5555, 0x30);
            &&& after.byte(addr) == 0xFF
            &&& forall|i: int|
                0 <= i < 0x10000 ==> #[trigger] after.flash.at((1 - s.bank) * 0x10000 + i)
                    == s.flash.at((1 - s.bank) * 0x10000 + i)
        }),
{
    lemma_overlaid(s.flash, s.bank * 0x10000, Seq::new(0x10000, |i: int| 0xFFu8));
}

/// Selecting a FLASH bank changes which half of the memory is seen, and no
/// byte of it.
pub proof fn law_flash_bank_select(s: SaveCartridge, value: u8, addr: int)
    requires
        s.wf(),
        s.kind == SaveType::Flash,
        s.detected,
        s.cmd == Cmd::Idle,
        !s.id_mode,
        addr >= 0,
    ensures
        ({
            let after = s.after_command(0xB0).after_write8(addr, value);
            &&& after == (SaveCartridge { bank: (value % 2) as usize, ..s })
            &&& after.wf()
        }),
{
}

/// What was loaded from a save file is what the cartridge keeps, where the
/// file has the size of the memory.
pub proof fn law_load_keeps_the_file(s: SaveCartridge, data: Seq<u8>)
    requires
        s.kind == SaveType::Flash && data.len() == FLASH_SIZE || s.kind == SaveType::Sram
            && data.len() == SRAM_SIZE,
    ensures
        s.after_load(data).bytes() == data,
{
    let after = s.after_load(data);
    assert(data.take(data.len() as int) =~= data);
    if s.kind == SaveType::Flash {
        lemma_overlaid(s.flash, 0, data);
        assert forall|i: int| 0 <= i < FLASH_SIZE implies after.flash.0@[i] == data[i] by {
            assert(after.flash.at(i) == data[i]);
        }
    } else {
        lemma_overlaid(s.sram, 0, data);
        assert forall|i: int| 0 <= i < SRAM_SIZE implies after.sram.0@[i] == data[i] by {
            assert(after.sram.at(i) == data[i]);
        }
    }
    assert(after.bytes() =~= data);
}

} // verus!
