//! The decompression routines of the BIOS.
//!
//! A compressed stream begins with a word that names the compression type and
//! the size of the result. The result is collected first and stored afterwards,
//! with the access width that the destination wants.

use crate::gba::bus::Bus;
use vstd::prelude::*;
use vstd::wrapping::{u16_specs, u32_specs, u8_specs};

verus! {

/// Access width the decompressors use to store their output. The `Wram`
/// variants write bytes; the `Vram` variants write halfwords because VRAM
/// ignores byte writes; Huffman always writes words.
#[derive(Clone, Copy, PartialEq, Eq, Structural, Debug)]
pub enum Unit {
    Byte,
    Half,
    Word,
}

/// The address `off` bytes behind `base`, modulo 2^32.
#[verifier::opaque]
pub open spec fn at(base: u32, off: int) -> u32 {
    ((base + off) % 0x1_0000_0000) as u32
}

/// An address moved on.
pub proof fn lemma_at(base: u32, off: int, n: u32)
    ensures
        at(base, 0) == base,
        u32_specs::wrapping_add(at(base, off), n) == at(base, off + n),
        u32_specs::wrapping_add(base, n) == at(base, n as int),
{
    reveal(at);
}

/// The bus after a byte was read, and the byte.
pub open spec fn loaded8(bus: Bus, addr: u32) -> (Bus, u8) {
    (bus.waited(addr, 8), bus.byte(addr))
}

fn load8(bus: &mut Bus, addr: u32) -> (r: u8)
    requires
        old(bus).wf(),
    ensures
        final(bus).wf(),
        (*final(bus), r) == loaded8(*old(bus), addr),
{
    bus.read8(addr) as u8
}

/// The type of a stream with the header word `header`.
pub open spec fn header_kind(header: u32) -> u32 {
    header / 16 % 16
}

/// The type-specific low nibble.
pub open spec fn header_low(header: u32) -> u32 {
    header % 16
}

/// The size of the result.
pub open spec fn header_size(header: u32) -> nat {
    (header / 256) as nat
}

/// Decode the 32-bit header shared by the decompression SWIs: bits 4-7 hold
/// the compression type, bits 8-31 the decompressed size. Returns the low
/// nibble (type-specific) and the size.
fn unpack_header(bus: &mut Bus, src: u32, kind: u32) -> (r: Option<(u32, usize)>)
    requires
        old(bus).wf(),
    ensures
        final(bus).wf(),
        *final(bus) == old(bus).loaded32(src).0,
        match r {
            Some((low, size)) => {
                let header = old(bus).loaded32(src).1;
                header_kind(header) == kind && low == header_low(header) && size == header_size(
                    header,
                ) && size < 0x100_0000
            },
            None => header_kind(old(bus).loaded32(src).1) != kind,
        },
{
    let header: u32 = bus.read32(src);
    if header / 16 % 16 != kind {
        return None;
    }
    Some((header % 16, (header / 256) as usize))
}

/// Byte `i` of `data`, 0 behind its end.
pub open spec fn padded(data: Seq<u8>, i: int) -> u8 {
    if i < data.len() {
        data[i]
    } else {
        0
    }
}

fn get_padded(data: &Vec<u8>, i: usize) -> (r: u8)
    ensures
        r == padded(data@, i as int),
{
    if i < data.len() {
        data[i]
    } else {
        0
    }
}

/// The bus after unit `k` of `data` was stored behind `dst`.
pub open spec fn stored_unit(bus: Bus, dst: u32, data: Seq<u8>, unit: Unit, k: int) -> Bus {
    match unit {
        Unit::Byte => bus.stored8(at(dst, k), padded(data, k) as u32),
        Unit::Half => bus.stored16(
            at(dst, k * 2),
            (padded(data, k * 2) + padded(data, k * 2 + 1) * 256) as u32,
        ),
        Unit::Word => bus.stored32(
            at(dst, k * 4),
            (padded(data, k * 4) + padded(data, k * 4 + 1) * 256 + padded(data, k * 4 + 2)
                * 0x1_0000 + padded(data, k * 4 + 3) * 0x100_0000) as u32,
        ),
    }
}

/// The bus after `n` units of `data` were stored from `dst` on.
pub open spec fn stored_out(bus: Bus, dst: u32, data: Seq<u8>, unit: Unit, n: nat) -> Bus
    decreases n,
{
    if n == 0 {
        bus
    } else {
        stored_unit(stored_out(bus, dst, data, unit, (n - 1) as nat), dst, data, unit, n - 1)
    }
}

/// The number of units that `len` bytes fill, the last one padded.
pub open spec fn units(len: int, unit: Unit) -> nat {
    (match unit {
        Unit::Byte => len,
        Unit::Half => (len + 1) / 2,
        Unit::Word => (len + 3) / 4,
    }) as nat
}

/// The bus after all of `data` was stored.
pub open spec fn written_out(bus: Bus, dst: u32, data: Seq<u8>, unit: Unit) -> Bus {
    stored_out(bus, dst, data, unit, units(data.len() as int, unit))
}

/// The bytes of one unit.
pub open spec fn unit_width(unit: Unit) -> u32 {
    match unit {
        Unit::Byte => 1,
        Unit::Half => 2,
        Unit::Word => 4,
    }
}

/// Store unit `k` of `data` at `d`.
fn write_unit(bus: &mut Bus, d: u32, data: &Vec<u8>, unit: Unit, k: usize, dst: Ghost<u32>)
    requires
        old(bus).wf(),
        k < 0x100_0000,
        d == at(dst@, k * unit_width(unit)),
    ensures
        final(bus).wf(),
        *final(bus) == stored_unit(*old(bus), dst@, data@, unit, k as int),
{
    match unit {
        Unit::Byte => {
            bus.write8(d, get_padded(data, k) as u32);
        },
        Unit::Half => {
            let lo: u32 = get_padded(data, k * 2) as u32;
            let hi: u32 = get_padded(data, k * 2 + 1) as u32;
            bus.write16(d, lo + hi * 256);
        },
        Unit::Word => {
            let b0: u32 = get_padded(data, k * 4) as u32;
            let b1: u32 = get_padded(data, k * 4 + 1) as u32;
            let b2: u32 = get_padded(data, k * 4 + 2) as u32;
            let b3: u32 = get_padded(data, k * 4 + 3) as u32;
            bus.write32(d, b0 + b1 * 256 + b2 * 0x1_0000 + b3 * 0x100_0000);
        },
    }
}

/// Store decompressed bytes with the given access width, zero-padding the
/// final unit.
fn write_out(bus: &mut Bus, dst: u32, data: &Vec<u8>, unit: Unit)
    requires
        old(bus).wf(),
        data@.len() <= 0x100_0000,
    ensures
        final(bus).wf(),
        *final(bus) == written_out(*old(bus), dst, data@, unit),
{
    let len: usize = data.len();
    let n: usize = match unit {
        Unit::Byte => len,
        Unit::Half => (len + 1) / 2,
        Unit::Word => (len + 3) / 4,
    };
    let width: u32 = match unit {
        Unit::Byte => 1,
        Unit::Half => 2,
        Unit::Word => 4,
    };
    let mut d: u32 = dst;
    let mut k: usize = 0;
    proof {
        lemma_at(dst, 0, 0);
    }
    while k < n
        invariant
            k <= n,
            n == units(data@.len() as int, unit),
            n <= 0x100_0000,
            width == unit_width(unit),
            d == at(dst, k * width),
            bus.wf(),
            *bus == stored_out(*old(bus), dst, data@, unit, k as nat),
        decreases n - k,
    {
        write_unit(bus, d, data, unit, k, Ghost(dst));
        proof {
            lemma_at(dst, k * width, width);
            assert((k + 1) * width == k * width + width) by (nonlinear_arith);
        }
        d = d.wrapping_add(width);
        k = k + 1;
    }
}

/// A stream that is being unpacked: the bus it is read from, the address of
/// the next byte, and the result so far.
pub struct Unpacking {
    pub bus: Bus,
    pub src: u32,
    pub out: Seq<u8>,
}

impl Unpacking {
    /// One byte taken from the stream.
    pub open spec fn taken(self) -> (Unpacking, u8) {
        let (bus, b) = loaded8(self.bus, self.src);
        (Unpacking { bus, src: u32_specs::wrapping_add(self.src, 1), ..self }, b)
    }

    /// One byte of the stream passed on to the result.
    pub open spec fn literal(self) -> Unpacking {
        let (u, b) = self.taken();
        Unpacking { out: u.out.push(b), ..u }
    }

    /// `n` bytes of the stream passed on.
    pub open spec fn literals(self, n: nat) -> Unpacking
        decreases n,
    {
        if n == 0 {
            self
        } else {
            self.literals((n - 1) as nat).literal()
        }
    }

    /// A back-reference: of up to `len` bytes that begin `disp` bytes back,
    /// as many as still fit into `size`. `None` where it reaches back beyond
    /// the start.
    pub open spec fn reference(self, size: nat) -> (Unpacking, bool) {
        let (u1, first) = self.taken();
        let (u2, second) = u1.taken();
        let disp = first % 16 * 256 + second + 1;
        let len = (first / 16 + 3) as nat;
        if disp > self.out.len() {
            (u2, false)
        } else {
            (Unpacking { out: repeated(u2.out, disp, len, size), ..u2 }, true)
        }
    }

    /// The items of flag byte `flags` from bit `i` (0 is the highest) on.
    pub open spec fn items(self, flags: u8, i: int, size: nat) -> (Unpacking, bool)
        decreases 8 - i,
    {
        if i >= 8 || self.out.len() >= size {
            (self, true)
        } else if flags as int / power(7 - i) % 2 == 0 {
            self.literal().items(flags, i + 1, size)
        } else {
            let (u, ok) = self.reference(size);
            if ok {
                u.items(flags, i + 1, size)
            } else {
                (u, false)
            }
        }
    }

    /// The flag bytes, each with its items, up to `size` bytes of result; no
    /// more than `fuel` of them.
    pub open spec fn lz_blocks(self, size: nat, fuel: nat) -> (Unpacking, bool)
        decreases fuel,
    {
        if self.out.len() >= size || fuel == 0 {
            (self, true)
        } else {
            let (u, flags) = self.taken();
            let (v, ok) = u.items(flags, 0, size);
            if ok {
                v.lz_blocks(size, (fuel - 1) as nat)
            } else {
                (v, false)
            }
        }
    }

    /// One run or literal stretch, cut off at `size` bytes of result.
    pub open spec fn stretch(self, size: nat) -> Unpacking {
        let (u, flag) = self.taken();
        let room = size - self.out.len();
        if flag >= 128 {
            let n = flag % 128 + 3;
            let (v, b) = u.taken();
            Unpacking {
                out: v.out + Seq::new(
                    (if n < room {
                        n as int
                    } else {
                        room
                    }) as nat,
                    |i: int| b,
                ),
                ..v
            }
        } else {
            let n = flag % 128 + 1;
            u.literals(
                (if n < room {
                    n as int
                } else {
                    room
                }) as nat,
            )
        }
    }

    /// Runs and stretches up to `size` bytes of result; no more than `fuel`.
    pub open spec fn stretches(self, size: nat, fuel: nat) -> Unpacking
        decreases fuel,
    {
        if self.out.len() >= size || fuel == 0 {
            self
        } else {
            self.stretch(size).stretches(size, (fuel - 1) as nat)
        }
    }

    /// `n` running sums of byte deltas.
    pub open spec fn sums(self, n: nat) -> (Unpacking, u8)
        decreases n,
    {
        if n == 0 {
            (self, 0)
        } else {
            let (u, acc) = self.sums((n - 1) as nat);
            let (v, b) = u.taken();
            let sum = u8_specs::wrapping_add(acc, b);
            (Unpacking { out: v.out.push(sum), ..v }, sum)
        }
    }
}

/// 2 to the power `n`, for the bits of a byte.
pub open spec fn power(n: int) -> int {
    if n == 0 {
        1
    } else if n == 1 {
        2
    } else if n == 2 {
        4
    } else if n == 3 {
        8
    } else if n == 4 {
        16
    } else if n == 5 {
        32
    } else if n == 6 {
        64
    } else {
        128
    }
}

/// `out` followed by `len` bytes, each the one `disp` back, but no longer than
/// `size`.
pub open spec fn repeated(out: Seq<u8>, disp: int, len: nat, size: nat) -> Seq<u8>
    decreases len,
{
    if len == 0 || out.len() >= size {
        out
    } else {
        repeated(out.push(out[out.len() - disp]), disp, (len - 1) as nat, size)
    }
}

fn take(bus: &mut Bus, src: &mut u32, out: Ghost<Seq<u8>>) -> (r: u8)
    requires
        old(bus).wf(),
    ensures
        final(bus).wf(),
        (Unpacking { bus: *final(bus), src: *final(src), out: out@ }, r) == (Unpacking {
            bus: *old(bus),
            src: *old(src),
            out: out@,
        }).taken(),
{
    let b: u8 = load8(bus, *src);
    *src = src.wrapping_add(1);
    b
}

fn push_literal(bus: &mut Bus, src: &mut u32, out: &mut Vec<u8>)
    requires
        old(bus).wf(),
    ensures
        final(bus).wf(),
        (Unpacking { bus: *final(bus), src: *final(src), out: final(out)@ }) == (Unpacking {
            bus: *old(bus),
            src: *old(src),
            out: old(out)@,
        }).literal(),
        final(out)@.len() == old(out)@.len() + 1,
{
    let b: u8 = take(bus, src, Ghost(out@));
    out.push(b);
}

/// A longer result than before, and none longer than `size`.
proof fn lemma_repeated(out: Seq<u8>, disp: int, len: nat, size: nat)
    requires
        out.len() <= size,
    ensures
        out.len() <= repeated(out, disp, len, size).len() <= size,
        len > 0 && out.len() < size ==> repeated(out, disp, len, size).len() > out.len(),
    decreases len,
{
    if len > 0 && out.len() < size {
        lemma_repeated(out.push(out[out.len() - disp]), disp, (len - 1) as nat, size);
    }
}

fn push_reference(bus: &mut Bus, src: &mut u32, out: &mut Vec<u8>, size: usize) -> (r: bool)
    requires
        old(bus).wf(),
        old(out)@.len() < size < 0x100_0000,
    ensures
        final(bus).wf(),
        (Unpacking { bus: *final(bus), src: *final(src), out: final(out)@ }, r) == (Unpacking {
            bus: *old(bus),
            src: *old(src),
            out: old(out)@,
        }).reference(size as nat),
        old(out)@.len() <= final(out)@.len() <= size,
        r ==> final(out)@.len() > old(out)@.len(),
{
    let first: u8 = take(bus, src, Ghost(out@));
    let second: u8 = take(bus, src, Ghost(out@));
    let disp: usize = (first % 16) as usize * 256 + second as usize + 1;
    let len: usize = (first / 16) as usize + 3;
    if disp > out.len() {
        return false;
    }
    proof {
        lemma_repeated(out@, disp as int, len as nat, size as nat);
    }
    let mut k: usize = 0;
    while k < len && out.len() < size
        invariant
            k <= len,
            1 <= disp <= out@.len() <= size,
            size < 0x100_0000,
            repeated(out@, disp as int, (len - k) as nat, size as nat) == repeated(
                old(out)@,
                disp as int,
                len as nat,
                size as nat,
            ),
        decreases len - k,
    {
        let b: u8 = out[out.len() - disp];
        out.push(b);
        k = k + 1;
    }
    true
}

/// The highest bit first: whether item `i` of a flag byte is a reference.
fn flag_bit(flags: u8, i: usize) -> (r: bool)
    requires
        i < 8,
    ensures
        r == (flags as int / power(7 - i) % 2 != 0),
{
    match i {
        0 => flags / 128 % 2 != 0,
        1 => flags / 64 % 2 != 0,
        2 => flags / 32 % 2 != 0,
        3 => flags / 16 % 2 != 0,
        4 => flags / 8 % 2 != 0,
        5 => flags / 4 % 2 != 0,
        6 => flags / 2 % 2 != 0,
        _ => flags % 2 != 0,
    }
}

fn push_items(bus: &mut Bus, src: &mut u32, out: &mut Vec<u8>, flags: u8, size: usize) -> (r: bool)
    requires
        old(bus).wf(),
        old(out)@.len() < size < 0x100_0000,
    ensures
        final(bus).wf(),
        (Unpacking { bus: *final(bus), src: *final(src), out: final(out)@ }, r) == (Unpacking {
            bus: *old(bus),
            src: *old(src),
            out: old(out)@,
        }).items(flags, 0, size as nat),
        final(out)@.len() <= size,
        r ==> final(out)@.len() > old(out)@.len(),
{
    let ghost start = Unpacking { bus: *bus, src: *src, out: out@ };
    let mut i: usize = 0;
    while i < 8 && out.len() < size
        invariant
            i <= 8,
            bus.wf(),
            out@.len() <= size < 0x100_0000,
            old(out)@.len() < size,
            i > 0 ==> out@.len() > old(out)@.len(),
            i == 0 ==> out@ == old(out)@,
            start == (Unpacking { bus: *old(bus), src: *old(src), out: old(out)@ }),
            (Unpacking { bus: *bus, src: *src, out: out@ }).items(flags, i as int, size as nat)
                == start.items(flags, 0, size as nat),
        decreases 8 - i,
    {
        let ghost now = Unpacking { bus: *bus, src: *src, out: out@ };
        assert(now.items(flags, i as int, size as nat) == if flags as int / power(7 - i) % 2 == 0 {
            now.literal().items(flags, i + 1, size as nat)
        } else {
            let (u, ok) = now.reference(size as nat);
            if ok {
                u.items(flags, i + 1, size as nat)
            } else {
                (u, false)
            }
        });
        if !flag_bit(flags, i) {
            push_literal(bus, src, out);
        } else {
            if !push_reference(bus, src, out, size) {
                return false;
            }
        }
        i = i + 1;
    }
    true
}

/// What the LZ77 routine does to the bus, and whether it succeeds.
pub open spec fn lz77_result(bus: Bus, src: u32, dst: u32, unit: Unit) -> (Bus, bool) {
    let (b, header) = bus.loaded32(src);
    if header_kind(header) != 1 {
        (b, false)
    } else {
        let size = header_size(header);
        let start = Unpacking { bus: b, src: u32_specs::wrapping_add(src, 4), out: Seq::empty() };
        let (u, ok) = start.lz_blocks(size, size);
        if ok {
            (written_out(u.bus, dst, u.out, unit), true)
        } else {
            (u.bus, false)
        }
    }
}

/// 0x11/0x12 LZ77UnComp: flag byte (MSB first) selects literal bytes or
/// (disp+1, len+3) back-references.
pub fn lz77(bus: &mut Bus, source: u32, dst: u32, unit: Unit) -> (r: bool)
    requires
        old(bus).wf(),
    ensures
        final(bus).wf(),
        (*final(bus), r) == lz77_result(*old(bus), source, dst, unit),
{
    let size: usize = match unpack_header(bus, source, 1) {
        Some((_, size)) => size,
        None => return false,
    };
    let mut src: u32 = source.wrapping_add(4);
    let mut out: Vec<u8> = Vec::with_capacity(size);
    let ghost start = Unpacking { bus: *bus, src, out: out@ };
    let ghost mut fuel: nat = size as nat;
    while out.len() < size
        invariant
            bus.wf(),
            out@.len() <= size < 0x100_0000,
            fuel + out@.len() >= size,
            (Unpacking { bus: *bus, src, out: out@ }).lz_blocks(size as nat, fuel)
                == start.lz_blocks(size as nat, size as nat),
            start == (Unpacking {
                bus: old(bus).loaded32(source).0,
                src: u32_specs::wrapping_add(source, 4),
                out: Seq::empty(),
            }),
            header_kind(old(bus).loaded32(source).1) == 1,
            size == header_size(old(bus).loaded32(source).1),
        decreases size - out@.len(),
    {
        let flags: u8 = take(bus, &mut src, Ghost(out@));
        if !push_items(bus, &mut src, &mut out, flags, size) {
            return false;
        }
        proof {
            fuel = (fuel - 1) as nat;
        }
    }
    write_out(bus, dst, &out, unit);
    true
}

/// What the run-length routine does to the bus, and whether it succeeds.
pub open spec fn rl_result(bus: Bus, src: u32, dst: u32, unit: Unit) -> (Bus, bool) {
    let (b, header) = bus.loaded32(src);
    if header_kind(header) != 3 {
        (b, false)
    } else {
        let size = header_size(header);
        let start = Unpacking { bus: b, src: u32_specs::wrapping_add(src, 4), out: Seq::empty() };
        let u = start.stretches(size, size);
        (written_out(u.bus, dst, u.out, unit), true)
    }
}

fn push_run(out: &mut Vec<u8>, byte: u8, n: usize)
    ensures
        final(out)@ == old(out)@ + Seq::new(n as nat, |i: int| byte),
{
    let mut k: usize = 0;
    while k < n
        invariant
            k <= n,
            out@ == old(out)@ + Seq::new(k as nat, |i: int| byte),
        decreases n - k,
    {
        out.push(byte);
        k = k + 1;
        assert(out@ =~= old(out)@ + Seq::new(k as nat, |i: int| byte));
    }
    assert(out@ =~= old(out)@ + Seq::new(n as nat, |i: int| byte));
}

fn push_stretch(bus: &mut Bus, src: &mut u32, out: &mut Vec<u8>, size: usize)
    requires
        old(bus).wf(),
        old(out)@.len() < size < 0x100_0000,
    ensures
        final(bus).wf(),
        (Unpacking { bus: *final(bus), src: *final(src), out: final(out)@ }) == (Unpacking {
            bus: *old(bus),
            src: *old(src),
            out: old(out)@,
        }).stretch(size as nat),
        old(out)@.len() < final(out)@.len() <= size,
{
    let flag: u8 = take(bus, src, Ghost(out@));
    let room: usize = size - out.len();
    if flag >= 128 {
        let n: usize = (flag % 128) as usize + 3;
        let byte: u8 = take(bus, src, Ghost(out@));
        push_run(
            out,
            byte,
            if n < room {
                n
            } else {
                room
            },
        );
    } else {
        let len: usize = (flag % 128) as usize + 1;
        let n: usize = if len < room {
            len
        } else {
            room
        };
        let ghost start = Unpacking { bus: *bus, src: *src, out: out@ };
        let mut k: usize = 0;
        while k < n
            invariant
                k <= n,
                bus.wf(),
                out@.len() == old(out)@.len() + k,
                (Unpacking { bus: *bus, src: *src, out: out@ }) == start.literals(k as nat),
            decreases n - k,
        {
            push_literal(bus, src, out);
            k = k + 1;
        }
    }
}

/// 0x14/0x15 RLUnComp: flag byte bit 7 = run of (n+3) copies, else (n+1)
/// literal bytes.
pub fn rl(bus: &mut Bus, source: u32, dst: u32, unit: Unit) -> (r: bool)
    requires
        old(bus).wf(),
    ensures
        final(bus).wf(),
        (*final(bus), r) == rl_result(*old(bus), source, dst, unit),
{
    let size: usize = match unpack_header(bus, source, 3) {
        Some((_, size)) => size,
        None => return false,
    };
    let mut src: u32 = source.wrapping_add(4);
    let mut out: Vec<u8> = Vec::with_capacity(size);
    let ghost start = Unpacking { bus: *bus, src, out: out@ };
    let ghost mut fuel: nat = size as nat;
    while out.len() < size
        invariant
            bus.wf(),
            out@.len() <= size < 0x100_0000,
            fuel + out@.len() >= size,
            (Unpacking { bus: *bus, src, out: out@ }).stretches(size as nat, fuel)
                == start.stretches(size as nat, size as nat),
        decreases size - out@.len(),
    {
        push_stretch(bus, &mut src, &mut out, size);
        proof {
            fuel = (fuel - 1) as nat;
        }
    }
    write_out(bus, dst, &out, unit);
    true
}

/// What the byte delta filter does to the bus, and whether it succeeds.
pub open spec fn diff8_result(bus: Bus, src: u32, dst: u32, unit: Unit) -> (Bus, bool) {
    let (b, header) = bus.loaded32(src);
    if header_kind(header) != 8 || header_low(header) != 1 {
        (b, false)
    } else {
        let start = Unpacking { bus: b, src: u32_specs::wrapping_add(src, 4), out: Seq::empty() };
        let (u, _) = start.sums(header_size(header));
        (written_out(u.bus, dst, u.out, unit), true)
    }
}

/// 0x16/0x17 Diff8bitUnFilter: running sum of byte deltas.
pub fn diff8(bus: &mut Bus, source: u32, dst: u32, unit: Unit) -> (r: bool)
    requires
        old(bus).wf(),
    ensures
        final(bus).wf(),
        (*final(bus), r) == diff8_result(*old(bus), source, dst, unit),
{
    let size: usize = match unpack_header(bus, source, 8) {
        Some((width, size)) => {
            if width != 1 {
                return false;
            }
            size
        },
        None => return false,
    };
    let mut src: u32 = source.wrapping_add(4);
    let mut out: Vec<u8> = Vec::with_capacity(size);
    let mut acc: u8 = 0;
    let ghost start = Unpacking { bus: *bus, src, out: out@ };
    let mut k: usize = 0;
    while k < size
        invariant
            k <= size < 0x100_0000,
            bus.wf(),
            out@.len() == k,
            (Unpacking { bus: *bus, src, out: out@ }, acc) == start.sums(k as nat),
        decreases size - k,
    {
        let delta: u8 = take(bus, &mut src, Ghost(out@));
        acc = acc.wrapping_add(delta);
        out.push(acc);
        k = k + 1;
    }
    write_out(bus, dst, &out, unit);
    true
}

/// The bus after `n` running sums of halfword deltas were stored, and the last
/// sum.
pub open spec fn half_sums(bus: Bus, src: u32, dst: u32, n: nat) -> (Bus, u16)
    decreases n,
{
    if n == 0 {
        (bus, 0)
    } else {
        let (b, acc) = half_sums(bus, src, dst, (n - 1) as nat);
        let (b1, delta) = b.loaded16(at(src, (n - 1) * 2));
        let sum = u16_specs::wrapping_add(acc, delta as u16);
        (b1.stored16(at(dst, (n - 1) * 2), sum as u32), sum)
    }
}

/// What the halfword delta filter does to the bus, and whether it succeeds.
pub open spec fn diff16_result(bus: Bus, src: u32, dst: u32) -> (Bus, bool) {
    let (b, header) = bus.loaded32(src);
    if header_kind(header) != 8 || header_low(header) != 2 {
        (b, false)
    } else {
        (half_sums(b, at(src, 4), dst, header_size(header) / 2).0, true)
    }
}

/// 0x18 Diff16bitUnFilter: running sum of halfword deltas.
pub fn diff16(bus: &mut Bus, source: u32, dest: u32) -> (r: bool)
    requires
        old(bus).wf(),
    ensures
        final(bus).wf(),
        (*final(bus), r) == diff16_result(*old(bus), source, dest),
{
    let size: usize = match unpack_header(bus, source, 8) {
        Some((width, size)) => {
            if width != 2 {
                return false;
            }
            size
        },
        None => return false,
    };
    let mut src: u32 = source.wrapping_add(4);
    let mut dst: u32 = dest;
    let mut acc: u16 = 0;
    let n: usize = size / 2;
    let ghost start = *bus;
    let ghost first = src;
    proof {
        lemma_at(source, 0, 4);
        lemma_at(first, 0, 0);
        lemma_at(dest, 0, 0);
    }
    let mut k: usize = 0;
    while k < n
        invariant
            k <= n < 0x100_0000,
            bus.wf(),
            src == at(first, k * 2),
            dst == at(dest, k * 2),
            (*bus, acc) == half_sums(start, first, dest, k as nat),
        decreases n - k,
    {
        let delta: u32 = bus.read16(src);
        acc = acc.wrapping_add(delta as u16);
        proof {
            lemma_at(first, k * 2, 2);
            lemma_at(dest, k * 2, 2);
        }
        src = src.wrapping_add(2);
        bus.write16(dst, acc as u32);
        dst = dst.wrapping_add(2);
        k = k + 1;
    }
    true
}

/// The state of the Huffman routine between two bits of its stream.
pub struct Huffman {
    pub bus: Bus,
    /// The result so far.
    pub out: Seq<u8>,
    /// The bits of the current word that are left, and how many.
    pub word: u32,
    pub remaining: u32,
    /// The address of the next word.
    pub data: u32,
    /// The low half of a byte that still lacks its high half.
    pub low: Option<u8>,
    /// The node that the walk has reached; `None` between two symbols.
    pub node: Option<u32>,
}

impl Huffman {
    /// The next word fetched, where the last one is used up.
    pub open spec fn refilled(self) -> Huffman {
        if self.remaining == 0 {
            let (bus, word) = self.bus.loaded32(self.data);
            Huffman {
                bus,
                word,
                remaining: 32,
                data: u32_specs::wrapping_add(self.data, 4),
                ..self
            }
        } else {
            self
        }
    }

    /// A symbol added to the result: whole bytes, or halves, the low one
    /// first.
    pub open spec fn with_symbol(self, bits: u32, value: u8) -> Huffman {
        if bits == 8 {
            Huffman { out: self.out.push(value), node: None, ..self }
        } else {
            match self.low {
                Some(lo) => Huffman {
                    out: self.out.push((lo + value % 16 * 16) as u8),
                    low: None,
                    node: None,
                    ..self
                },
                None => Huffman { low: Some((value % 16) as u8), node: None, ..self },
            }
        }
    }

    /// One bit taken: a step down the tree, and a symbol where it ends at a
    /// leaf. Children live at the next even address plus the offset; the right
    /// child (bit 1) follows the left.
    pub open spec fn stepped(self, bits: u32, root: u32) -> Huffman {
        let h = self.refilled();
        let node = match h.node {
            Some(node) => node,
            None => root,
        };
        let bit = h.word / 0x8000_0000;
        let (bus, desc) = loaded8(h.bus, node);
        let next = Huffman {
            bus,
            word: (h.word % 0x8000_0000 * 2) as u32,
            remaining: (h.remaining - 1) as u32,
            ..h
        };
        let child = at((node / 2 * 2) as u32, (desc % 64 + 1) * 2 + bit);
        let leaf = if bit == 1 {
            desc / 64 % 2 == 1
        } else {
            desc / 128 == 1
        };
        if leaf {
            let (bus2, value) = loaded8(next.bus, child);
            Huffman { bus: bus2, ..next }.with_symbol(bits, value)
        } else {
            Huffman { node: Some(child), ..next }
        }
    }

    /// Bits taken until the result has `size` bytes, but no more than `fuel`.
    pub open spec fn run(self, bits: u32, root: u32, size: nat, fuel: nat) -> (Huffman, bool)
        decreases fuel,
    {
        if self.node is None && self.out.len() >= size {
            (self, true)
        } else if fuel == 0 {
            (self, false)
        } else {
            self.stepped(bits, root).run(bits, root, size, (fuel - 1) as nat)
        }
    }
}

/// What the Huffman routine does to the bus, and whether it succeeds. A stream
/// that has not ended after 2^64 - 1 bits is given up.
pub open spec fn huff_result(bus: Bus, src: u32, dst: u32) -> (Bus, bool) {
    let (b, header) = bus.loaded32(src);
    let bits = header_low(header);
    if header_kind(header) != 2 || (bits != 4 && bits != 8) {
        (b, false)
    } else {
        let (b1, tree_size) = loaded8(b, u32_specs::wrapping_add(src, 4));
        let start = Huffman {
            bus: b1,
            out: Seq::empty(),
            word: 0,
            remaining: 0,
            data: at(src, 4 + (tree_size + 1) * 2),
            low: None,
            node: None,
        };
        let (h, ok) = start.run(
            bits,
            u32_specs::wrapping_add(src, 5),
            header_size(header),
            u64::MAX as nat,
        );
        if ok {
            let out = match h.low {
                Some(lo) => h.out.push(lo),
                None => h.out,
            };
            (written_out(h.bus, dst, out, Unit::Word), true)
        } else {
            (h.bus, false)
        }
    }
}

/// The registers of the Huffman routine.
struct Walk {
    word: u32,
    remaining: u32,
    data: u32,
    low: Option<u8>,
    node: Option<u32>,
}

impl Walk {
    spec fn state(self, bus: Bus, out: Seq<u8>) -> Huffman {
        Huffman {
            bus,
            out,
            word: self.word,
            remaining: self.remaining,
            data: self.data,
            low: self.low,
            node: self.node,
        }
    }

    fn refill(&mut self, bus: &mut Bus, out: Ghost<Seq<u8>>)
        requires
            old(bus).wf(),
            old(self).remaining <= 32,
        ensures
            final(bus).wf(),
            1 <= final(self).remaining <= 32,
            final(self).state(*final(bus), out@) == old(self).state(*old(bus), out@).refilled(),
    {
        if self.remaining == 0 {
            self.word = bus.read32(self.data);
            self.data = self.data.wrapping_add(4);
            self.remaining = 32;
        }
    }

    fn symbol(&mut self, bus: Ghost<Bus>, out: &mut Vec<u8>, bits: u32, value: u8)
        requires
            old(self).low is Some ==> old(self).low->0 < 16,
        ensures
            final(self).state(bus@, final(out)@) == old(self).state(bus@, old(out)@).with_symbol(
                bits,
                value,
            ),
            final(self).low is Some ==> final(self).low->0 < 16,
            old(out)@.len() <= final(out)@.len() <= old(out)@.len() + 1,
            final(self).remaining == old(self).remaining,
    {
        self.node = None;
        if bits == 8 {
            out.push(value);
        } else {
            match self.low {
                Some(lo) => {
                    out.push(lo + value % 16 * 16);
                    self.low = None;
                },
                None => {
                    self.low = Some(value % 16);
                },
            }
        }
    }

    fn step(&mut self, bus: &mut Bus, out: &mut Vec<u8>, bits: u32, root: u32)
        requires
            old(bus).wf(),
            old(self).remaining <= 32,
            old(self).low is Some ==> old(self).low->0 < 16,
        ensures
            final(bus).wf(),
            final(self).remaining <= 32,
            final(self).low is Some ==> final(self).low->0 < 16,
            final(self).state(*final(bus), final(out)@) == old(self).state(
                *old(bus),
                old(out)@,
            ).stepped(bits, root),
            old(out)@.len() <= final(out)@.len() <= old(out)@.len() + 1,
            final(self).node is Some ==> final(out)@ == old(out)@,
    {
        self.refill(bus, Ghost(out@));
        let node: u32 = match self.node {
            Some(node) => node,
            None => root,
        };
        let bit: u32 = self.word / 0x8000_0000;
        self.word = self.word % 0x8000_0000 * 2;
        self.remaining = self.remaining - 1;
        let desc: u8 = load8(bus, node);
        let offset: u32 = (desc as u32 % 64 + 1) * 2 + bit;
        let child: u32 = (node / 2 * 2).wrapping_add(offset);
        proof {
            lemma_at((node / 2 * 2) as u32, 0, offset);
        }
        let leaf = if bit == 1 {
            desc / 64 % 2 == 1
        } else {
            desc / 128 == 1
        };
        if leaf {
            let value: u8 = load8(bus, child);
            self.symbol(Ghost(*bus), out, bits, value);
        } else {
            self.node = Some(child);
        }
    }
}

/// 0x13 HuffUnComp: 4- or 8-bit symbols encoded with the BIOS Huffman tree
/// (node = offset to the child pair, bits 7/6 flag data children).
pub fn huff(bus: &mut Bus, src: u32, dst: u32) -> (r: bool)
    requires
        old(bus).wf(),
    ensures
        final(bus).wf(),
        (*final(bus), r) == huff_result(*old(bus), src, dst),
{
    let (bits, size) = match unpack_header(bus, src, 2) {
        Some(header) => header,
        None => return false,
    };
    if bits != 4 && bits != 8 {
        return false;
    }
    let tree_size: u8 = load8(bus, src.wrapping_add(4));
    let root: u32 = src.wrapping_add(5);
    let mut out: Vec<u8> = Vec::with_capacity(size);
    let mut walk = Walk {
        word: 0,
        remaining: 0,
        data: src.wrapping_add(4 + (tree_size as u32 + 1) * 2),
        low: None,
        node: None,
    };
    proof {
        lemma_at(src, 0, (4 + (tree_size as u32 + 1) * 2) as u32);
    }
    let ghost start = walk.state(*bus, out@);
    let mut fuel: u64 = u64::MAX;
    while walk.node.is_some() || out.len() < size
        invariant
            bus.wf(),
            walk.remaining <= 32,
            walk.low is Some ==> walk.low->0 < 16,
            out@.len() <= size < 0x100_0000,
            walk.node is Some ==> out@.len() < size,
            walk.state(*bus, out@).run(bits, root, size as nat, fuel as nat) == start.run(
                bits,
                root,
                size as nat,
                u64::MAX as nat,
            ),
            start.run(bits, root, size as nat, u64::MAX as nat) == start.run(
                header_low(old(bus).loaded32(src).1),
                u32_specs::wrapping_add(src, 5),
                header_size(old(bus).loaded32(src).1),
                u64::MAX as nat,
            ),
            start == (Huffman {
                bus: loaded8(old(bus).loaded32(src).0, u32_specs::wrapping_add(src, 4)).0,
                out: Seq::empty(),
                word: 0,
                remaining: 0,
                data: at(
                    src,
                    4 + (loaded8(
                        old(bus).loaded32(src).0,
                        u32_specs::wrapping_add(src, 4),
                    ).1 + 1) * 2,
                ),
                low: None,
                node: None,
            }),
            header_kind(old(bus).loaded32(src).1) == 2,
            header_low(old(bus).loaded32(src).1) == 4 || header_low(old(bus).loaded32(src).1) == 8,
        decreases fuel,
    {
        if fuel == 0 {
            return false;
        }
        walk.step(bus, &mut out, bits, root);
        fuel = fuel - 1;
    }
    match walk.low {
        Some(lo) => out.push(lo),
        None => {},
    }
    write_out(bus, dst, &out, Unit::Word);
    true
}

/// A longer result, and none longer than `size`, after each item.
proof fn lemma_items(u: Unpacking, flags: u8, i: int, size: nat)
    requires
        0 <= i <= 8,
        u.out.len() <= size,
    ensures
        u.out.len() <= u.items(flags, i, size).0.out.len() <= size,
        i < 8 && u.out.len() < size && u.items(flags, i, size).1 ==> u.items(
            flags,
            i,
            size,
        ).0.out.len() > u.out.len(),
    decreases 8 - i,
{
    if i < 8 && u.out.len() < size {
        if flags as int / power(7 - i) % 2 == 0 {
            lemma_items(u.literal(), flags, i + 1, size);
        } else {
            let (v, ok) = u.reference(size);
            let (u1, first) = u.taken();
            let (u2, second) = u1.taken();
            lemma_repeated(
                u2.out,
                first % 16 * 256 + second + 1,
                (first / 16 + 3) as nat,
                size,
            );
            if ok {
                lemma_items(v, flags, i + 1, size);
            }
        }
    }
}

/// An LZ77 stream that unpacks gives exactly the bytes that its header
/// promises.
pub proof fn law_lz77_size(u: Unpacking, size: nat, fuel: nat)
    requires
        u.out.len() <= size,
        u.out.len() + fuel >= size,
        u.lz_blocks(size, fuel).1,
    ensures
        u.lz_blocks(size, fuel).0.out.len() == size,
    decreases fuel,
{
    if u.out.len() < size && fuel > 0 {
        let (v, flags) = u.taken();
        lemma_items(v, flags, 0, size);
        let (w, ok) = v.items(flags, 0, size);
        law_lz77_size(w, size, (fuel - 1) as nat);
    }
}

proof fn lemma_literals(u: Unpacking, n: nat)
    ensures
        u.literals(n).out.len() == u.out.len() + n,
    decreases n,
{
    if n > 0 {
        lemma_literals(u, (n - 1) as nat);
    }
}

/// A run-length stream gives exactly the bytes that its header promises.
pub proof fn law_rl_size(u: Unpacking, size: nat, fuel: nat)
    requires
        u.out.len() <= size,
        u.out.len() + fuel >= size,
    ensures
        u.stretches(size, fuel).out.len() == size,
    decreases fuel,
{
    if u.out.len() < size && fuel > 0 {
        let (v, flag) = u.taken();
        let room = size - u.out.len();
        let n = flag % 128 + 1;
        lemma_literals(
            v,
            (if n < room {
                n as int
            } else {
                room
            }) as nat,
        );
        law_rl_size(u.stretch(size), size, (fuel - 1) as nat);
    }
}

/// The difference between neighbours of an unfiltered stream is the delta that
/// was read for them.
pub proof fn law_diff8_inverts_deltas(u: Unpacking, n: nat)
    ensures
        ({
            let (v, acc) = u.sums(n);
            let (w, next) = u.sums(n + 1);
            &&& v.out.len() == u.out.len() + n
            &&& w.out == v.out.push(next)
            &&& u8_specs::wrapping_sub(next, acc) == v.taken().1
        }),
    decreases n,
{
    if n > 0 {
        law_diff8_inverts_deltas(u, (n - 1) as nat);
    }
}

} // verus!
