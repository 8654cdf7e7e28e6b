//! GBA serial EEPROM save memory (512 byte / 8 KB parts).
//!
//! The EEPROM sits on the cartridge bus at `0x0D000000..=0x0DFFFFFF` and is
//! accessed one bit at a time, normally through DMA3 with 16-bit units where
//! only bit 0 of each halfword matters (GBATEK, "GBA Cart Backup EEPROM").
//!
//! Requests start with two command bits: `11` = read, `10` = write. A read
//! request carries the block address (6 bits for the 512 B part, 14 bits for
//! the 8 KB part, of which only the low 10 select one of 1024 blocks) and a
//! stop bit; the reply is 4 dummy bits followed by the 64 data bits of the
//! block, MSB first. A write request carries the address, 64 data bits and a
//! stop bit. The bus width is not encoded anywhere in the ROM, so it is
//! inferred from the length of the first DMA transfer: 9/73 halfwords for the
//! 512 B part, 17/81 for the 8 KB part.

use crate::bits::{be_bytes, from_be, lemma_be_round_trip, to_be};
use crate::emu::mem::{lemma_overlaid, Mem};
use vstd::arithmetic::div_mod::{lemma_mod_breakdown, lemma_small_mod};
use vstd::arithmetic::power2::{lemma_pow2_pos, lemma_pow2_unfold, pow2};
use vstd::bits::lemma_u64_shr_is_div;
use vstd::prelude::*;
use vstd::slice::slice_subrange;

verus! {

/// Capacity of the largest supported part.
pub const EEPROM_SIZE: usize = 8192;

/// Length of the serialised transient state (see `save_state_sm`).
pub const STATE_LEN: usize = 20;

/// Where the serial protocol stands.
#[derive(Clone, Copy, PartialEq, Eq, Structural, Debug)]
pub enum State {
    Idle,
    Command,
    ReadAddress,
    WriteAddress,
    WriteData,
    WriteFinalize,
    ReadDummy,
    ReadData,
}

impl State {
    pub open spec fn code(self) -> u8 {
        match self {
            State::Idle => 0,
            State::Command => 1,
            State::ReadAddress => 2,
            State::WriteAddress => 3,
            State::WriteData => 4,
            State::WriteFinalize => 5,
            State::ReadDummy => 6,
            State::ReadData => 7,
        }
    }

    pub open spec fn of_code(v: u8) -> State {
        match v {
            1 => State::Command,
            2 => State::ReadAddress,
            3 => State::WriteAddress,
            4 => State::WriteData,
            5 => State::WriteFinalize,
            6 => State::ReadDummy,
            7 => State::ReadData,
            _ => State::Idle,
        }
    }

    fn to_u8(self) -> (r: u8)
        ensures
            r == self.code(),
    {
        match self {
            State::Idle => 0,
            State::Command => 1,
            State::ReadAddress => 2,
            State::WriteAddress => 3,
            State::WriteData => 4,
            State::WriteFinalize => 5,
            State::ReadDummy => 6,
            State::ReadData => 7,
        }
    }

    fn from_u8(v: u8) -> (r: State)
        ensures
            r == State::of_code(v),
    {
        match v {
            1 => State::Command,
            2 => State::ReadAddress,
            3 => State::WriteAddress,
            4 => State::WriteData,
            5 => State::WriteFinalize,
            6 => State::ReadDummy,
            7 => State::ReadData,
            _ => State::Idle,
        }
    }
}

/// A shift register of 64 bits with one more bit shifted in from below.
pub open spec fn shifted_in(acc: u64, bit: u8) -> u64 {
    ((acc * 2 + bit) % 0x1_0000_0000_0000_0000) as u64
}

fn shift_in(acc: u64, bit: u8) -> (r: u64)
    requires
        bit <= 1,
    ensures
        r == shifted_in(acc, bit),
{
    let kept: u64 = if acc >= 0x8000_0000_0000_0000 {
        acc - 0x8000_0000_0000_0000
    } else {
        acc
    };
    kept * 2 + bit as u64
}

pub struct Eeprom {
    pub data: Mem<u8, 8192>,
    /// True for the 8 KB part (14-bit addresses); false for 512 B (6-bit).
    pub size_8k: bool,
    /// Whether the part size has been established (from a save file, a save
    /// state or the first DMA transfer).
    pub size_known: bool,
    pub state: State,
    pub cmd: u8,
    /// The bit counters of the protocol count modulo 256.
    pub cmd_bits: u8,
    pub address: u64,
    pub addr_bits: u8,
    pub data_buffer: u64,
    pub data_bits: u8,
    pub read_bits: u8,
    /// Set when a block was programmed since the last save flush.
    pub dirty: bool,
}

pub open spec fn counted(bits: u8) -> u8 {
    vstd::wrapping::u8_specs::wrapping_add(bits, 1)
}

impl Eeprom {
    pub open spec fn initial() -> Eeprom {
        Eeprom {
            data: Mem::<u8, 8192>::all(0xFF),
            size_8k: true,
            size_known: false,
            state: State::Idle,
            cmd: 0,
            cmd_bits: 0,
            address: 0,
            addr_bits: 0,
            data_buffer: 0,
            data_bits: 0,
            read_bits: 0,
            dirty: false,
        }
    }

    /// A reply has at most 64 bits.
    pub open spec fn wf(self) -> bool {
        self.state == State::ReadData ==> self.read_bits < 64
    }

    pub fn new() -> (r: Eeprom)
        ensures
            r == Eeprom::initial(),
            r.wf(),
    {
        Eeprom {
            data: Mem::filled(0xFF),
            size_8k: true,
            size_known: false,
            state: State::Idle,
            cmd: 0,
            cmd_bits: 0,
            address: 0,
            addr_bits: 0,
            data_buffer: 0,
            data_bits: 0,
            read_bits: 0,
            dirty: false,
        }
    }

    /// Whether the protocol state is one that bits can be clocked through; a
    /// state loaded from untrusted bytes may not be.
    pub fn is_valid(&self) -> (r: bool)
        ensures
            r == self.wf(),
    {
        self.state != State::ReadData || self.read_bits < 64
    }

    /// Whether the 8 KB part is selected.
    pub fn is_8k(&self) -> (r: bool)
        ensures
            r == self.size_8k,
    {
        self.size_8k
    }

    pub open spec fn capacity(self) -> usize {
        if self.size_8k {
            8192
        } else {
            512
        }
    }

    /// Capacity of the selected part in bytes.
    pub fn size(&self) -> (r: usize)
        ensures
            r == self.capacity(),
    {
        if self.size_8k {
            EEPROM_SIZE
        } else {
            512
        }
    }

    /// The backing bytes of the selected part.
    pub fn raw(&self) -> (r: &[u8])
        ensures
            r@ == self.data.0@.take(self.capacity() as int),
    {
        let r = slice_subrange(self.data.as_slice(), 0, self.size());
        assert(r@ =~= self.data.0@.take(self.capacity() as int));
        r
    }

    /// The part with a save file loaded; a longer file is cut off.
    pub open spec fn after_load(self, file: Seq<u8>) -> Eeprom {
        let n = if file.len() < EEPROM_SIZE {
            file.len() as int
        } else {
            EEPROM_SIZE as int
        };
        Eeprom {
            data: self.data.overlaid(0, file.take(n)),
            size_8k: if file.len() > 0 {
                file.len() > 512
            } else {
                self.size_8k
            },
            size_known: self.size_known || file.len() > 0,
            ..self
        }
    }

    /// Load a save file; a 512-byte file selects the small part.
    pub fn load(&mut self, data: &[u8])
        ensures
            *final(self) == old(self).after_load(data@),
            old(self).wf() ==> final(self).wf(),
    {
        let len: usize = data.len();
        let n: usize = if len < EEPROM_SIZE {
            len
        } else {
            EEPROM_SIZE
        };
        self.data.copy_from(0, data, n);
        if len > 0 {
            self.size_8k = len > 512;
            self.size_known = true;
        }
    }

    /// The part with its size settled by a DMA transfer of `count` halfwords.
    pub open spec fn sized_by(self, count: u32) -> Eeprom {
        if self.size_known {
            self
        } else if count == 9 || count == 73 {
            Eeprom { size_8k: false, size_known: true, ..self }
        } else if count == 17 || count == 81 {
            Eeprom { size_8k: true, size_known: true, ..self }
        } else {
            self
        }
    }

    /// Infer the part size from the halfword count of a DMA transfer to the
    /// EEPROM region: 9 (read request) or 73 (write) for the 512 B part, 17
    /// or 81 for the 8 KB part. Only the first transfer decides.
    pub fn set_size_from_dma_count(&mut self, count: u32)
        ensures
            *final(self) == old(self).sized_by(count),
            old(self).wf() ==> final(self).wf(),
    {
        if self.size_known {
            return;
        }
        match count {
            9 | 73 => {
                self.size_8k = false;
                self.size_known = true;
            },
            17 | 81 => {
                self.size_8k = true;
                self.size_known = true;
            },
            _ => {},
        }
    }

    /// The number of address bits of a request.
    pub open spec fn address_width(self) -> u8 {
        if self.size_8k {
            14
        } else {
            6
        }
    }

    fn addr_bits_needed(&self) -> (r: u8)
        ensures
            r == self.address_width(),
    {
        if self.size_8k {
            14
        } else {
            6
        }
    }

    /// The selected block's byte offset; the 8 KB part ignores the top four
    /// address bits.
    pub open spec fn offset(self) -> int {
        if self.size_8k {
            (self.address % 1024) * 8
        } else {
            (self.address % 64) * 8
        }
    }

    fn block_offset(&self) -> (r: usize)
        ensures
            r == self.offset(),
            r + 8 <= 8192,
    {
        if self.size_8k {
            (self.address % 1024) as usize * 8
        } else {
            (self.address % 64) as usize * 8
        }
    }

    /// The 64 data bits of the block at `off`.
    pub open spec fn block(self, off: int) -> u64 {
        from_be(Seq::new(8, |k: int| self.data.at(off + k)))
    }

    /// The part after one bit was clocked in.
    pub open spec fn after_bit(self, bit: u8) -> Eeprom {
        match self.state {
            State::Idle => Eeprom { cmd: bit, cmd_bits: 1, state: State::Command, ..self },
            State::Command => {
                let cmd = (self.cmd % 128 * 2 + bit) as u8;
                let e = Eeprom { cmd, cmd_bits: counted(self.cmd_bits), ..self };
                if e.cmd_bits == 2 {
                    Eeprom {
                        address: 0,
                        addr_bits: 0,
                        state: if cmd == 0b11 {
                            State::ReadAddress
                        } else if cmd == 0b10 {
                            State::WriteAddress
                        } else {
                            State::Idle
                        },
                        ..e
                    }
                } else {
                    e
                }
            },
            State::ReadAddress => {
                let e = Eeprom {
                    address: shifted_in(self.address, bit),
                    addr_bits: counted(self.addr_bits),
                    ..self
                };
                if e.addr_bits == self.address_width() {
                    Eeprom { state: State::ReadDummy, read_bits: 0, ..e }
                } else {
                    e
                }
            },
            State::WriteAddress => {
                let e = Eeprom {
                    address: shifted_in(self.address, bit),
                    addr_bits: counted(self.addr_bits),
                    ..self
                };
                if e.addr_bits == self.address_width() {
                    Eeprom { state: State::WriteData, data_buffer: 0, data_bits: 0, ..e }
                } else {
                    e
                }
            },
            State::WriteData => {
                let e = Eeprom {
                    data_buffer: shifted_in(self.data_buffer, bit),
                    data_bits: counted(self.data_bits),
                    ..self
                };
                if e.data_bits == 64 {
                    Eeprom { state: State::WriteFinalize, ..e }
                } else {
                    e
                }
            },
            State::WriteFinalize => Eeprom {
                data: self.data.overlaid(self.offset(), be_bytes(self.data_buffer)),
                dirty: true,
                state: State::Idle,
                ..self
            },
            State::ReadDummy | State::ReadData => self,
        }
    }

    /// Clock one bit in from the cartridge bus (bit 0 of a halfword write).
    pub fn write_bit(&mut self, bit: u8)
        requires
            old(self).wf(),
        ensures
            *final(self) == old(self).after_bit((bit % 2) as u8),
            final(self).wf(),
    {
        let bit: u8 = bit % 2;
        match self.state {
            State::Idle => {
                self.cmd = bit;
                self.cmd_bits = 1;
                self.state = State::Command;
            },
            State::Command => {
                self.cmd = self.cmd % 128 * 2 + bit;
                self.cmd_bits = self.cmd_bits.wrapping_add(1);
                if self.cmd_bits == 2 {
                    self.address = 0;
                    self.addr_bits = 0;
                    self.state = match self.cmd {
                        0b11 => State::ReadAddress,
                        0b10 => State::WriteAddress,
                        _ => State::Idle,
                    };
                }
            },
            State::ReadAddress => {
                self.address = shift_in(self.address, bit);
                self.addr_bits = self.addr_bits.wrapping_add(1);
                if self.addr_bits == self.addr_bits_needed() {
                    self.state = State::ReadDummy;
                    self.read_bits = 0;
                }
            },
            State::WriteAddress => {
                self.address = shift_in(self.address, bit);
                self.addr_bits = self.addr_bits.wrapping_add(1);
                if self.addr_bits == self.addr_bits_needed() {
                    self.state = State::WriteData;
                    self.data_buffer = 0;
                    self.data_bits = 0;
                }
            },
            State::WriteData => {
                self.data_buffer = shift_in(self.data_buffer, bit);
                self.data_bits = self.data_bits.wrapping_add(1);
                if self.data_bits == 64 {
                    self.state = State::WriteFinalize;
                }
            },
            State::WriteFinalize => {
                // The stop bit commits the block.
                let off: usize = self.block_offset();
                let bytes: [u8; 8] = to_be(self.data_buffer);
                self.data.copy_from(off, bytes.as_slice(), 8);
                assert(bytes@.take(8) =~= bytes@);
                self.dirty = true;
                self.state = State::Idle;
            },
            // The stop bit of a read request and any stray writes during the
            // reply are ignored.
            State::ReadDummy | State::ReadData => {},
        }
    }

    /// The part after one bit was clocked out, and the bit.
    pub open spec fn bit_out(self) -> (Eeprom, u8) {
        match self.state {
            State::ReadDummy => {
                let e = Eeprom { read_bits: counted(self.read_bits), ..self };
                if e.read_bits >= 4 {
                    (
                        Eeprom {
                            state: State::ReadData,
                            read_bits: 0,
                            data_buffer: self.block(self.offset()),
                            ..e
                        },
                        0,
                    )
                } else {
                    (e, 0)
                }
            },
            State::ReadData => {
                let bit = (self.data_buffer as nat / pow2((63 - self.read_bits) as nat) % 2) as u8;
                let e = Eeprom { read_bits: counted(self.read_bits), ..self };
                if e.read_bits == 64 {
                    (Eeprom { state: State::Idle, ..e }, bit)
                } else {
                    (e, bit)
                }
            },
            _ => (self, 1),
        }
    }

    /// Clock one bit out to the cartridge bus (bit 0 of a halfword read).
    /// Outside a read reply the line idles high, which games poll to detect
    /// the end of a write.
    pub fn read_bit(&mut self) -> (r: u8)
        requires
            old(self).wf(),
        ensures
            (*final(self), r) == old(self).bit_out(),
            final(self).wf(),
    {
        match self.state {
            State::ReadDummy => {
                self.read_bits = self.read_bits.wrapping_add(1);
                if self.read_bits >= 4 {
                    self.state = State::ReadData;
                    self.read_bits = 0;
                    let off: usize = self.block_offset();
                    self.data_buffer = self.load_block(off);
                }
                0
            },
            State::ReadData => {
                let n: u64 = 63 - self.read_bits as u64;
                proof {
                    lemma_u64_shr_is_div(self.data_buffer, n);
                }
                let bit: u8 = ((self.data_buffer >> n) % 2) as u8;
                self.read_bits = self.read_bits.wrapping_add(1);
                if self.read_bits == 64 {
                    self.state = State::Idle;
                }
                bit
            },
            _ => 1,
        }
    }

    fn load_block(&self, off: usize) -> (r: u64)
        requires
            off + 8 <= 8192,
        ensures
            r == self.block(off as int),
    {
        let mut v: u64 = self.data.get(off) as u64;
        v = v * 256 + self.data.get(off + 1) as u64;
        v = v * 256 + self.data.get(off + 2) as u64;
        v = v * 256 + self.data.get(off + 3) as u64;
        v = v * 256 + self.data.get(off + 4) as u64;
        v = v * 256 + self.data.get(off + 5) as u64;
        v = v * 256 + self.data.get(off + 6) as u64;
        v * 256 + self.data.get(off + 7) as u64
    }

    /// The transient protocol state as bytes.
    pub open spec fn encoded(self) -> [u8; 20] {
        let b = be_bytes(self.data_buffer);
        [
            self.state.code(),
            self.cmd,
            self.cmd_bits,
            self.addr_bits,
            (self.address % 256) as u8,
            (self.address / 0x100 % 256) as u8,
            (self.address / 0x1_0000 % 256) as u8,
            (self.address / 0x100_0000 % 256) as u8,
            self.data_bits,
            self.read_bits,
            self.size_8k as u8,
            self.size_known as u8,
            b[7],
            b[6],
            b[5],
            b[4],
            b[3],
            b[2],
            b[1],
            b[0],
        ]
    }

    /// Serialise the transient protocol state for save states.
    pub fn save_state_sm(&self) -> (r: [u8; 20])
        ensures
            r == self.encoded(),
    {
        let b: [u8; 8] = to_be(self.data_buffer);
        let r: [u8; 20] = [
            self.state.to_u8(),
            self.cmd,
            self.cmd_bits,
            self.addr_bits,
            (self.address % 256) as u8,
            (self.address / 0x100 % 256) as u8,
            (self.address / 0x1_0000 % 256) as u8,
            (self.address / 0x100_0000 % 256) as u8,
            self.data_bits,
            self.read_bits,
            self.size_8k as u8,
            self.size_known as u8,
            b[7],
            b[6],
            b[5],
            b[4],
            b[3],
            b[2],
            b[1],
            b[0],
        ];
        assert(r =~= self.encoded());
        r
    }

    /// The part with the protocol state that the bytes `b` describe.
    pub open spec fn decoded(self, b: [u8; 20]) -> Eeprom {
        Eeprom {
            state: State::of_code(b[0]),
            cmd: b[1],
            cmd_bits: b[2],
            addr_bits: b[3],
            address: (b[4] + b[5] * 0x100 + b[6] * 0x1_0000 + b[7] * 0x100_0000) as u64,
            data_bits: b[8],
            read_bits: b[9],
            size_8k: b[10] != 0,
            size_known: b[11] != 0,
            data_buffer: from_be(seq![b[19], b[18], b[17], b[16], b[15], b[14], b[13], b[12]]),
            ..self
        }
    }

    /// Restore the transient protocol state from a save state.
    pub fn load_state_sm(&mut self, b: &[u8; 20])
        ensures
            *final(self) == old(self).decoded(*b),
    {
        self.state = State::from_u8(b[0]);
        self.cmd = b[1];
        self.cmd_bits = b[2];
        self.addr_bits = b[3];
        self.address =
        b[4] as u64 + b[5] as u64 * 0x100 + b[6] as u64 * 0x1_0000 + b[7] as u64 * 0x100_0000;
        self.data_bits = b[8];
        self.read_bits = b[9];
        self.size_8k = b[10] != 0;
        self.size_known = b[11] != 0;
        let high: u64 = ((b[19] as u64 * 256 + b[18] as u64) * 256 + b[17] as u64) * 256
            + b[16] as u64;
        self.data_buffer =
        (((high * 256 + b[15] as u64) * 256 + b[14] as u64) * 256 + b[13] as u64) * 256
            + b[12] as u64;
    }

    /// The part after the low `n` bits of `v` were clocked in, the highest
    /// first.
    pub open spec fn clocked_in(self, v: nat, n: nat) -> Eeprom
        decreases n,
    {
        if n == 0 {
            self
        } else {
            self.after_bit((v / pow2((n - 1) as nat) % 2) as u8).clocked_in(v, (n - 1) as nat)
        }
    }

    /// The part after `n` bits were clocked out, and the number that they
    /// spell, behind the bits of `acc`.
    pub open spec fn clocked_out(self, acc: nat, n: nat) -> (Eeprom, nat)
        decreases n,
    {
        if n == 0 {
            (self, acc)
        } else {
            let (e, bit) = self.bit_out();
            e.clocked_out(acc * 2 + bit as nat, (n - 1) as nat)
        }
    }

    /// The part after a complete write request.
    pub open spec fn after_write_request(self, block: nat, value: u64) -> Eeprom {
        self.clocked_in(0b10, 2).clocked_in(block, self.address_width() as nat).clocked_in(
            value as nat,
            64,
        ).after_bit(0)
    }

    /// The part after a complete read request.
    pub open spec fn after_read_request(self, block: nat) -> Eeprom {
        self.clocked_in(0b11, 2).clocked_in(block, self.address_width() as nat).after_bit(0)
    }

    /// Where the block `block` begins.
    pub open spec fn block_start(self, block: nat) -> int {
        if self.size_8k {
            (block % 1024) as int * 8
        } else {
            (block % 64) as int * 8
        }
    }
}

impl Default for Eeprom {
    fn default() -> (r: Eeprom)
        ensures
            r == Eeprom::initial(),
            r.wf(),
    {
        Eeprom::new()
    }
}

/// The low `n` bits of `v` are bit `n - 1` and the bits below it.
proof fn lemma_top_bit(v: nat, n: nat)
    requires
        n >= 1,
    ensures
        v % pow2(n) == pow2((n - 1) as nat) * (v / pow2((n - 1) as nat) % 2) + v % pow2(
            (n - 1) as nat,
        ),
        v / pow2((n - 1) as nat) % 2 <= 1,
        pow2(n) == pow2((n - 1) as nat) * 2,
{
    let p = pow2((n - 1) as nat);
    lemma_pow2_unfold(n);
    lemma_pow2_pos((n - 1) as nat);
    lemma_mod_breakdown(v as int, p as int, 2);
}

proof fn lemma_two_bits(e: Eeprom, cmd: nat)
    requires
        e.state == State::Idle,
        cmd == 2 || cmd == 3,
    ensures
        e.clocked_in(cmd, 2) == (Eeprom {
            cmd: cmd as u8,
            cmd_bits: 2,
            address: 0,
            addr_bits: 0,
            state: if cmd == 3 {
                State::ReadAddress
            } else {
                State::WriteAddress
            },
            ..e
        }),
{
    vstd::arithmetic::power2::lemma2_to64();
    reveal_with_fuel(Eeprom::clocked_in, 3);
    assert(cmd / 2 % 2 == 1);
    assert(cmd / 1 % 2 == cmd - 2);
}

/// The address after the last `n` bits of it were clocked in.
#[verifier::spinoff_prover]
proof fn lemma_address(e: Eeprom, v: nat, n: nat)
    requires
        e.state == State::ReadAddress || e.state == State::WriteAddress,
        n >= 1,
        e.addr_bits + n == e.address_width(),
        e.address < pow2(e.addr_bits as nat),
    ensures
        e.address * pow2(n) + v % pow2(n) < pow2(e.address_width() as nat),
        e.clocked_in(v, n) == ({
            let a = Eeprom {
                address: (e.address * pow2(n) + v % pow2(n)) as u64,
                addr_bits: e.address_width(),
                ..e
            };
            if e.state == State::ReadAddress {
                Eeprom { state: State::ReadDummy, read_bits: 0, ..a }
            } else {
                Eeprom { state: State::WriteData, data_buffer: 0, data_bits: 0, ..a }
            }
        }),
    decreases n,
{
    vstd::arithmetic::power2::lemma2_to64();
    let m = (n - 1) as nat;
    lemma_top_bit(v, n);
    let bit = (v / pow2(m) % 2) as u8;
    lemma_pow2_unfold((e.addr_bits + 1) as nat);
    let next = e.after_bit(bit);
    lemma_pow2_small(e.addr_bits as nat);
    assert(shifted_in(e.address, bit) == e.address * 2 + bit);
    assert((e.address * 2 + bit) * pow2(m) + v % pow2(m) == e.address * pow2(n) + v % pow2(n))
        by (nonlinear_arith)
        requires
            pow2(n) == pow2(m) * 2,
            v % pow2(n) == pow2(m) * (bit as nat) + v % pow2(m),
    ;
    assert(e.clocked_in(v, n) == next.clocked_in(v, m));
    if m == 0 {
        assert(v % pow2(0) == 0);
        assert(next.clocked_in(v, 0) == next);
        assert(next.address == e.address * 2 + bit);
        assert(next.addr_bits == e.address_width());
    } else {
        assert(next == (Eeprom {
            address: (e.address * 2 + bit) as u64,
            addr_bits: (e.addr_bits + 1) as u8,
            ..e
        }));
        lemma_address(next, v, m);
    }
}

proof fn lemma_pow2_small(k: nat)
    requires
        k <= 14,
    ensures
        pow2(k) <= 16384,
{
    vstd::arithmetic::power2::lemma2_to64();
    if k < 14 {
        vstd::arithmetic::power2::lemma_pow2_strictly_increases(k, 14);
    }
}

/// The buffer after the last `n` of 64 data bits were clocked in.
#[verifier::spinoff_prover]
proof fn lemma_data(e: Eeprom, v: nat, n: nat)
    requires
        e.state == State::WriteData,
        1 <= n,
        e.data_bits + n == 64,
        e.data_buffer < pow2(e.data_bits as nat),
    ensures
        e.data_buffer * pow2(n) + v % pow2(n) < pow2(64),
        e.clocked_in(v, n) == (Eeprom {
            data_buffer: (e.data_buffer * pow2(n) + v % pow2(n)) as u64,
            data_bits: 64,
            state: State::WriteFinalize,
            ..e
        }),
    decreases n,
{
    vstd::arithmetic::power2::lemma2_to64();
    vstd::arithmetic::power2::lemma2_to64_rest();
    let m = (n - 1) as nat;
    lemma_top_bit(v, n);
    let bit = (v / pow2(m) % 2) as u8;
    lemma_pow2_unfold((e.data_bits + 1) as nat);
    let next = e.after_bit(bit);
    if e.data_bits + 1 < 64 {
        vstd::arithmetic::power2::lemma_pow2_strictly_increases((e.data_bits + 1) as nat, 64);
    }
    assert(shifted_in(e.data_buffer, bit) == e.data_buffer * 2 + bit);
    assert((e.data_buffer * 2 + bit) * pow2(m) + v % pow2(m) == e.data_buffer * pow2(n) + v % pow2(
        n,
    )) by (nonlinear_arith)
        requires
            pow2(n) == pow2(m) * 2,
            v % pow2(n) == pow2(m) * (bit as nat) + v % pow2(m),
    ;
    assert(e.clocked_in(v, n) == next.clocked_in(v, m));
    if m == 0 {
        assert(v % pow2(0) == 0);
        assert(next.clocked_in(v, 0) == next);
        assert(next.data_buffer == e.data_buffer * 2 + bit);
    } else {
        assert(next == (Eeprom {
            data_buffer: (e.data_buffer * 2 + bit) as u64,
            data_bits: (e.data_bits + 1) as u8,
            ..e
        }));
        lemma_data(next, v, m);
    }
}

/// The number spelled by the last `n` of 64 reply bits.
#[verifier::spinoff_prover]
proof fn lemma_reply(e: Eeprom, acc: nat, n: nat)
    requires
        e.state == State::ReadData,
        1 <= n,
        e.read_bits + n == 64,
    ensures
        e.clocked_out(acc, n).1 == acc * pow2(n) + e.data_buffer as nat % pow2(n),
        e.clocked_out(acc, n).0 == (Eeprom { read_bits: 64, state: State::Idle, ..e }),
    decreases n,
{
    vstd::arithmetic::power2::lemma2_to64();
    let m = (n - 1) as nat;
    let v = e.data_buffer as nat;
    lemma_top_bit(v, n);
    let (next, bit) = e.bit_out();
    assert(63 - e.read_bits == m);
    assert(bit == v / pow2(m) % 2);
    assert((acc * 2 + bit) * pow2(m) + v % pow2(m) == acc * pow2(n) + v % pow2(n))
        by (nonlinear_arith)
        requires
            pow2(n) == pow2(m) * 2,
            v % pow2(n) == pow2(m) * (bit as nat) + v % pow2(m),
    ;
    let shifted = acc * 2 + bit as nat;
    assert(e.clocked_out(acc, n) == next.clocked_out(shifted, m));
    assert(shifted * pow2(m) + v % pow2(m) == acc * pow2(n) + v % pow2(n));
    if m == 0 {
        assert(v % pow2(0) == 0);
        assert(next.clocked_out(shifted, 0) == (next, shifted));
        assert(shifted * pow2(0) == shifted);
    } else {
        lemma_reply(next, shifted, m);
    }
}

/// The block that a request with the address bits of `block` selects.
proof fn lemma_selected(e: Eeprom, block: nat)
    requires
        e.address == block % pow2(e.address_width() as nat),
    ensures
        e.offset() == e.block_start(block),
{
    vstd::arithmetic::power2::lemma2_to64();
    if e.size_8k {
        assert(block % 16384 % 1024 == block % 1024);
    } else {
        assert(block % 64 % 64 == block % 64);
    }
}

/// A write request stores its 64 data bits in the block it names, changes no
/// other block, and leaves the part idle.
pub proof fn law_write_request_stores(e: Eeprom, block: nat, value: u64)
    requires
        e.state == State::Idle,
    ensures
        ({
            let w = e.after_write_request(block, value);
            &&& w.state == State::Idle
            &&& w.dirty
            &&& w.size_8k == e.size_8k
            &&& w.block(e.block_start(block)) == value
            &&& forall|i: int|
                0 <= i < EEPROM_SIZE && !(e.block_start(block) <= i < e.block_start(block) + 8)
                    ==> (#[trigger] w.data.at(i)) == e.data.at(i)
        }),
{
    vstd::arithmetic::power2::lemma2_to64();
    vstd::arithmetic::power2::lemma2_to64_rest();
    let bits = e.address_width() as nat;
    lemma_two_bits(e, 2);
    let e1 = e.clocked_in(0b10, 2);
    lemma_address(e1, block, bits);
    let e2 = e1.clocked_in(block, bits);
    assert(e1.address * pow2(bits) == 0) by (nonlinear_arith)
        requires
            e1.address == 0,
    ;
    lemma_data(e2, value as nat, 64);
    let e3 = e2.clocked_in(value as nat, 64);
    assert(e2.data_buffer * pow2(64) == 0) by (nonlinear_arith)
        requires
            e2.data_buffer == 0,
    ;
    lemma_small_mod(value as nat, pow2(64));
    assert(e3.data_buffer == value);
    lemma_selected(e3, block);
    let start = e.block_start(block);
    let w = e3.after_bit(0);
    lemma_overlaid(e3.data, start, be_bytes(value));
    lemma_be_round_trip(value);
    let read = Seq::new(8, |k: int| w.data.at(start + k));
    assert forall|k: int| 0 <= k < 8 implies read[k] == be_bytes(value)[k] by {
        assert(w.data.at(start + k) == be_bytes(value)[k]);
    }
    assert(read =~= be_bytes(value));
}

/// A read request is answered by four zero bits and the 64 data bits of the
/// block it names; nothing stored changes, and the part is idle again.
pub proof fn law_read_request_replies(e: Eeprom, block: nat)
    requires
        e.state == State::Idle,
    ensures
        ({
            let (dummy, zeros) = e.after_read_request(block).clocked_out(0, 4);
            let (end, value) = dummy.clocked_out(0, 64);
            &&& zeros == 0
            &&& value == e.block(e.block_start(block))
            &&& end.state == State::Idle
            &&& end.data == e.data
        }),
{
    vstd::arithmetic::power2::lemma2_to64();
    vstd::arithmetic::power2::lemma2_to64_rest();
    let bits = e.address_width() as nat;
    lemma_two_bits(e, 3);
    let e1 = e.clocked_in(0b11, 2);
    lemma_address(e1, block, bits);
    assert(e1.address * pow2(bits) == 0) by (nonlinear_arith)
        requires
            e1.address == 0,
    ;
    let r = e.after_read_request(block);
    lemma_selected(r, block);
    reveal_with_fuel(Eeprom::clocked_out, 5);
    let (dummy, zeros) = r.clocked_out(0, 4);
    assert(dummy.state == State::ReadData && dummy.read_bits == 0);
    lemma_reply(dummy, 0, 64);
    assert(0 * pow2(64) == 0) by (nonlinear_arith);
    lemma_small_mod(dummy.data_buffer as nat, pow2(64));
}

/// What a write request stored, a read request of the same block gives back.
pub proof fn law_write_reads_back(e: Eeprom, block: nat, value: u64)
    requires
        e.state == State::Idle,
    ensures
        ({
            let (dummy, zeros) = e.after_write_request(block, value).after_read_request(
                block,
            ).clocked_out(0, 4);
            zeros == 0 && dummy.clocked_out(0, 64).1 == value
        }),
{
    law_write_request_stores(e, block, value);
    law_read_request_replies(e.after_write_request(block, value), block);
}

/// Outside a reply the line idles high.
pub proof fn law_idle_line_is_high(e: Eeprom)
    requires
        e.state != State::ReadDummy,
        e.state != State::ReadData,
    ensures
        e.bit_out() == (e, 1u8),
{
}

/// A saved protocol state comes back as it was.
pub proof fn law_protocol_state_round_trip(e: Eeprom, f: Eeprom)
    requires
        e.address <= u32::MAX,
    ensures
        f.decoded(e.encoded()) == (Eeprom { data: f.data, dirty: f.dirty, ..e }),
        e.wf() ==> f.decoded(e.encoded()).wf(),
{
    lemma_be_round_trip(e.data_buffer);
    let b = e.encoded();
    let s = seq![b[19], b[18], b[17], b[16], b[15], b[14], b[13], b[12]];
    assert(s =~= be_bytes(e.data_buffer));
}

} // verus!
