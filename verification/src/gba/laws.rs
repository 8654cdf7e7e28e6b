//! What holds of the machine as a whole.

use crate::gba::bios::zeroed;
use crate::gba::bus::{even, half_of, vram_at, with_half, Bus, Mem, Region, ROM_WINDOW};
use crate::gba::dma::{Channel, FLAGS as DMA_FLAGS};
use crate::gba::io::{irq, IF};
use crate::gba::machine::{line_events, GbaState};
use crate::gba::timer::IRQ as TIMER_FLAGS;
use vstd::prelude::*;
use vstd::wrapping::{u32_specs, u64_specs};

verus! {

/// Whether `addr` lies in a memory that takes every write as it is.
pub open spec fn is_ram(addr: u32) -> bool {
    match Region::at(addr) {
        Some(Region::Ewram) => true,
        Some(Region::Iwram) => true,
        Some(Region::Palram) => true,
        Some(Region::Vram) => true,
        Some(Region::Oam) => true,
        _ => false,
    }
}

/// A byte written to RAM reads back.
pub proof fn law_byte_reads_back(b: Bus, addr: u32, value: u32)
    requires
        is_ram(addr),
    ensures
        b.stored8(addr, value).byte(addr) == value as u8,
{
    reveal(Bus::stored8);
    crate::bits::and_le_u32(addr, 0x17FFF);
}

/// A halfword stored in a memory reads back, and another one stays.
pub proof fn lemma_cell<const N: usize>(m: Mem<u8, N>, i: int, v: u32, j: int)
    requires
        0 <= i,
        i + 1 < N,
        0 <= j,
        j + 1 < N,
        i % 2 == 0,
        j % 2 == 0,
    ensures
        half_of(with_half(m, i, v), i) == v % 0x1_0000,
        i != j ==> half_of(with_half(m, i, v), j) == half_of(m, j),
{
    let w = with_half(m, i, v);
    assert(w.at(i) == v % 256);
    assert(w.at(i + 1) == v / 256 % 256);
    assert(v % 256 + v / 256 % 256 * 256 == v % 0x1_0000);
    if i != j {
        assert(w.at(j) == m.at(j));
        assert(w.at(j + 1) == m.at(j + 1));
    }
}

/// What a halfword store does to the memory it falls on.
pub proof fn lemma_stored16(b: Bus, addr: u32, value: u32)
    ensures
        Region::at(addr) == Some(Region::Ewram) ==> b.stored16(addr, value) == (Bus {
            ewram: with_half(b.ewram, even(addr, 0x40000), value),
            ..b.waited(addr, 16)
        }),
        Region::at(addr) == Some(Region::Iwram) ==> b.stored16(addr, value) == (Bus {
            iwram: with_half(b.iwram, even(addr, 0x8000), value),
            ..b.waited(addr, 16)
        }),
        Region::at(addr) == Some(Region::Palram) ==> b.stored16(addr, value) == (Bus {
            palram: with_half(b.palram, even(addr, 0x400), value),
            ..b.waited(addr, 16)
        }),
        Region::at(addr) == Some(Region::Vram) ==> b.stored16(addr, value) == (Bus {
            vram: with_half(b.vram, vram_at(addr) / 2 * 2, value),
            ..b.waited(addr, 16)
        }),
        Region::at(addr) == Some(Region::Oam) ==> b.stored16(addr, value) == (Bus {
            oam: with_half(b.oam, even(addr, 0x400), value),
            ..b.waited(addr, 16)
        }),
{
    reveal(Bus::stored16);
}

/// A halfword written to RAM reads back.
pub proof fn law_half_reads_back(b: Bus, addr: u32, value: u32)
    requires
        is_ram(addr),
    ensures
        b.stored16(addr, value).half(addr) == value % 0x1_0000,
{
    lemma_stored16(b, addr, value);
    lemma_neighbours(addr);
    match Region::at(addr)->0 {
        Region::Ewram => lemma_cell(b.ewram, even(addr, 0x40000), value, 0),
        Region::Iwram => lemma_cell(b.iwram, even(addr, 0x8000), value, 0),
        Region::Palram => lemma_cell(b.palram, even(addr, 0x400), value, 0),
        Region::Vram => lemma_cell(b.vram, vram_at(addr) / 2 * 2, value, 0),
        _ => lemma_cell(b.oam, even(addr, 0x400), value, 0),
    }
}

/// Two neighbouring halfwords of VRAM are different cells.
proof fn lemma_neighbours(addr: u32)
    ensures
        0 <= vram_at(addr) / 2 * 2 <= 0x17FFE,
        addr <= 0xFFFF_FFFD ==> vram_at((addr + 2) as u32) / 2 * 2 != vram_at(addr) / 2 * 2,
        addr <= 0xFFFF_FFFD ==> 0 <= vram_at((addr + 2) as u32) / 2 * 2 <= 0x17FFE,
{
    crate::bits::and_le_u32(addr, 0x17FFF);
    if addr <= 0xFFFF_FFFD {
        let n = (addr + 2) as u32;
        assert((n & 0x17FFF) / 2 != (addr & 0x17FFF) / 2 && n & 0x17FFF <= 0x17FFF) by (bit_vector)
            requires
                n == (addr + 2) as u32,
        ;
    }
}

/// A halfword store changes the memory it falls on and no other.
proof fn lemma_memories(b: Bus, addr: u32, value: u32)
    ensures
        ({
            let r = b.stored16(addr, value);
            let at = Region::at(addr);
            &&& r.ewram == if at == Some(Region::Ewram) {
                with_half(b.ewram, even(addr, 0x40000), value)
            } else {
                b.ewram
            }
            &&& r.iwram == if at == Some(Region::Iwram) {
                with_half(b.iwram, even(addr, 0x8000), value)
            } else {
                b.iwram
            }
            &&& r.palram == if at == Some(Region::Palram) {
                with_half(b.palram, even(addr, 0x400), value)
            } else {
                b.palram
            }
            &&& r.vram == if at == Some(Region::Vram) {
                with_half(b.vram, vram_at(addr) / 2 * 2, value)
            } else {
                b.vram
            }
            &&& r.oam == if at == Some(Region::Oam) {
                with_half(b.oam, even(addr, 0x400), value)
            } else {
                b.oam
            }
        }),
{
    reveal(Bus::stored16);
}

/// A halfword of RAM is not touched by a write to its neighbour.
proof fn lemma_neighbour_stays(b: Bus, addr: u32, value: u32)
    requires
        is_ram(addr),
        is_ram((addr + 2) as u32),
    ensures
        b.stored16((addr + 2) as u32, value).half(addr) == b.half(addr),
{
    let next = (addr + 2) as u32;
    lemma_memories(b, next, value);
    let r = b.stored16(next, value);
    match Region::at(addr)->0 {
        Region::Ewram => {
            assert(even(next, 0x40000) != even(addr, 0x40000));
            lemma_cell(b.ewram, even(next, 0x40000), value, even(addr, 0x40000));
            assert(half_of(r.ewram, even(addr, 0x40000)) == half_of(b.ewram, even(addr, 0x40000)));
        },
        Region::Iwram => {
            assert(even(next, 0x8000) != even(addr, 0x8000));
            lemma_cell(b.iwram, even(next, 0x8000), value, even(addr, 0x8000));
            assert(half_of(r.iwram, even(addr, 0x8000)) == half_of(b.iwram, even(addr, 0x8000)));
        },
        Region::Palram => {
            assert(even(next, 0x400) != even(addr, 0x400));
            lemma_cell(b.palram, even(next, 0x400), value, even(addr, 0x400));
            assert(half_of(r.palram, even(addr, 0x400)) == half_of(b.palram, even(addr, 0x400)));
        },
        Region::Vram => {
            lemma_neighbours(addr);
            let (i, j) = (vram_at(next) / 2 * 2, vram_at(addr) / 2 * 2);
            lemma_cell(b.vram, i, value, j);
            assert(half_of(r.vram, j) == half_of(b.vram, j));
        },
        _ => {
            assert(even(next, 0x400) != even(addr, 0x400));
            lemma_cell(b.oam, even(next, 0x400), value, even(addr, 0x400));
            assert(half_of(r.oam, even(addr, 0x400)) == half_of(b.oam, even(addr, 0x400)));
        },
    }
}

/// A word written to RAM reads back.
pub proof fn law_word_reads_back(b: Bus, addr: u32, value: u32)
    requires
        is_ram(addr),
        is_ram((addr + 2) as u32),
    ensures
        b.stored32(addr, value).loaded32(addr).1 == value,
{
    let next = (addr + 2) as u32;
    assert(u32_specs::wrapping_add(addr, 2) == next);
    let b1 = b.stored16(addr, value);
    let b2 = b1.stored16(next, value / 0x1_0000);
    law_half_reads_back(b, addr, value);
    lemma_neighbour_stays(b1, addr, value / 0x1_0000);
    law_half_reads_back(b1, next, value / 0x1_0000);
    let b3 = b2.waited(addr, 16);
    assert(b3.half(next) == b2.half(next));
}

/// No write changes the cartridge ROM or the BIOS.
pub proof fn law_writes_keep_rom(b: Bus, addr: u32, value: u32)
    ensures
        b.stored8(addr, value).rom == b.rom,
        b.stored16(addr, value).rom == b.rom,
        b.stored32(addr, value).rom == b.rom,
        b.stored8(addr, value).bios == b.bios,
        b.stored16(addr, value).bios == b.bios,
        b.stored32(addr, value).bios == b.bios,
{
    reveal(Bus::stored8);
    reveal(Bus::stored16);
}

/// EWRAM is mirrored every 256 KB of its region, IWRAM every 32 KB.
pub proof fn law_work_ram_mirrors(b: Bus, addr: u32)
    requires
        0x0200_0000 <= addr < 0x0400_0000,
    ensures
        addr + 0x40000 < 0x0300_0000 ==> b.byte((addr + 0x40000) as u32) == b.byte(addr),
        0x0300_0000 <= addr && addr + 0x8000 < 0x0400_0000 ==> b.byte((addr + 0x8000) as u32)
            == b.byte(addr),
{
}

/// A cartridge ROM is repeated over its window, and the window over its region.
pub proof fn law_rom_mirrors(b: Bus, addr: u32)
    requires
        b.wf(),
        0x0800_0000 <= addr < 0x0C00_0000,
    ensures
        b.byte((addr + ROM_WINDOW) as u32) == b.byte(addr),
        addr - 0x0800_0000 < b.rom@.len() && addr < 0x0A00_0000 ==> b.byte(addr) == b.rom@[addr
            - 0x0800_0000],
{
    let mirror = (addr + ROM_WINDOW) as u32;
    assert(Region::at(addr) == Some(Region::Rom) && Region::at(mirror) == Some(Region::Rom));
    assert(mirror % ROM_WINDOW == addr % ROM_WINDOW) by {
        vstd::arithmetic::div_mod::lemma_mod_multiples_vanish(1, addr as int, ROM_WINDOW as int);
    }
    if addr - 0x0800_0000 < b.rom@.len() && addr < 0x0A00_0000 {
        let i = addr - 0x0800_0000;
        assert(addr % ROM_WINDOW == i);
        vstd::arithmetic::div_mod::lemma_small_mod(i as nat, b.rom@.len());
    }
}

/// Reading changes nothing but the count of wait states.
pub proof fn law_reads_only_wait(b: Bus, addr: u32, width: u32)
    ensures
        b.waited(addr, width) == (Bus {
            cycles: b.waited(addr, width).cycles,
            last_seq: b.waited(addr, width).last_seq,
            ..b
        }),
{
}

/// A transfer of halfwords from EWRAM to IWRAM, both counting upwards, copies
/// them.
pub proof fn law_dma_copies(b: Bus, ch: Channel, n: nat, k: int)
    requires
        !ch.words(),
        ch.src_mode() == 0,
        ch.dst_mode() == 0,
        ch.src % 2 == 0,
        ch.dst % 2 == 0,
        0x0200_0000 <= ch.src,
        ch.src + n * 2 <= 0x0204_0000,
        0x0300_0000 <= ch.dst,
        ch.dst + n * 2 <= 0x0300_8000,
        0 <= k < n,
    ensures
        b.after_transfer(ch, n).0.half((ch.dst + k * 2) as u32) == b.half((ch.src + k * 2) as u32),
{
    lemma_dma(b, ch, n);
    let s = (ch.src + k * 2) as u32;
    let d = (ch.dst + k * 2) as u32;
    assert(even(s, 0x40000) == ch.src - 0x0200_0000 + k * 2);
    assert(even(d, 0x8000) == ch.dst - 0x0300_0000 + k * 2);
    let after = b.after_transfer(ch, n).0;
    assert(after.half(d) == half_of(after.iwram, ch.dst - 0x0300_0000 + k * 2));
    assert(b.half(s) == half_of(b.ewram, ch.src - 0x0200_0000 + k * 2));
}

proof fn lemma_dma(b: Bus, ch: Channel, n: nat)
    requires
        !ch.words(),
        ch.src_mode() == 0,
        ch.dst_mode() == 0,
        ch.src % 2 == 0,
        ch.dst % 2 == 0,
        0x0200_0000 <= ch.src,
        ch.src + n * 2 <= 0x0204_0000,
        0x0300_0000 <= ch.dst,
        ch.dst + n * 2 <= 0x0300_8000,
    ensures
        ({
            let (after, s, d) = b.after_transfer(ch, n);
            &&& s == ch.src + n * 2
            &&& d == ch.dst + n * 2
            &&& after.ewram == b.ewram
            &&& forall|k: int|
                0 <= k < n ==> #[trigger] half_of(after.iwram, ch.dst - 0x0300_0000 + k * 2)
                    == half_of(b.ewram, ch.src - 0x0200_0000 + k * 2)
        }),
    decreases n,
{
    if n > 0 {
        let m = (n - 1) as nat;
        lemma_dma(b, ch, m);
        let (before, s, d) = b.after_transfer(ch, m);
        let v = before.half(s);
        let i = ch.dst - 0x0300_0000 + m * 2;
        assert(even(s, 0x40000) == ch.src - 0x0200_0000 + m * 2);
        assert(even(d, 0x8000) == i);
        assert(v == half_of(b.ewram, ch.src - 0x0200_0000 + m * 2));
        let read = before.waited(s, 16);
        lemma_stored16(read, d, v);
        let after = read.stored16(d, v);
        assert(b.after_transfer(ch, n).0 == after);
        assert(after.iwram == with_half(before.iwram, i, v));
        assert forall|k: int| 0 <= k < n implies #[trigger] half_of(
            after.iwram,
            ch.dst - 0x0300_0000 + k * 2,
        ) == half_of(b.ewram, ch.src - 0x0200_0000 + k * 2) by {
            lemma_cell(before.iwram, i, v, ch.dst - 0x0300_0000 + k * 2);
        }
    }
}

/// A word of EWRAM set to 0: its four bytes, and no others.
proof fn lemma_word_zeroed(b: Bus, m: nat)
    requires
        m < 0x10000,
    ensures
        ({
            let after = b.stored32((0x0200_0000 + m * 4) as u32, 0);
            forall|i: int|
                0 <= i < 0x40000 ==> #[trigger] after.ewram.at(i) == if m * 4 <= i < m * 4 + 4 {
                    0
                } else {
                    b.ewram.at(i)
                }
        }),
{
    let addr = (0x0200_0000 + m * 4) as u32;
    let next = u32_specs::wrapping_add(addr, 2);
    let k = (m * 4) as int;
    lemma_ewram_half(b, addr, k);
    lemma_ewram_half(b.stored16(addr, 0), next, k + 2);
    lemma_zeros(b.ewram, k);
}

proof fn lemma_ewram_half(b: Bus, addr: u32, k: int)
    requires
        addr == 0x0200_0000 + k,
        0 <= k < 0x40000,
        k % 2 == 0,
    ensures
        b.stored16(addr, 0).ewram == with_half(b.ewram, k, 0),
{
    lemma_memories(b, addr, 0);
    assert(even(addr, 0x40000) == k);
}

proof fn lemma_zeros(e: Mem<u8, 0x40000>, k: int)
    requires
        0 <= k,
        k + 3 < 0x40000,
    ensures
        forall|i: int|
            0 <= i < 0x40000 ==> #[trigger] with_half(with_half(e, k, 0), k + 2, 0).at(i) == if k
                <= i < k + 4 {
                0
            } else {
                e.at(i)
            },
{
}

/// What RegisterRamReset clears of EWRAM reads as 0.
pub proof fn law_ram_reset_clears(b: Bus, n: nat, i: int)
    requires
        n <= 0x10000,
        0 <= i < n * 4,
    ensures
        zeroed(b, 0x0200_0000, n).ewram.at(i) == 0,
    decreases n,
{
    let m = (n - 1) as nat;
    let before = zeroed(b, 0x0200_0000, m);
    lemma_word_zeroed(before, m);
    assert(zeroed(b, 0x0200_0000, n) == before.stored32((0x0200_0000 + m * 4) as u32, 0));
    if i < m * 4 {
        law_ram_reset_clears(b, m, i);
    }
}

/// A line tick moves on to the next line, and changes neither the CPU nor the
/// sound.
pub proof fn law_line_ticks(s: GbaState)
    ensures
        ({
            let t = s.line_ticked();
            &&& t.line == if s.line >= 227 {
                0
            } else {
                s.line + 1
            }
            &&& t.frame_count == if s.line >= 227 {
                u64_specs::wrapping_add(s.frame_count, 1)
            } else {
                s.frame_count
            }
            &&& t.cpu == s.cpu
            &&& t.sound == s.sound
        }),
{
    reveal(GbaState::line_ticked);
}

/// A frame has 228 lines: after as many the same line is drawn again, and one
/// more frame has been counted.
pub proof fn law_frame_has_228_lines(s: GbaState)
    requires
        s.line < 228,
        s.frame_count < u64::MAX,
    ensures
        s.lines_ticked(228).line == s.line,
        s.lines_ticked(228).frame_count == s.frame_count + 1,
{
    lemma_lines(s, 228);
}

proof fn lemma_lines(s: GbaState, n: nat)
    requires
        s.line < 228,
        n <= 228,
        s.frame_count < u64::MAX,
    ensures
        s.lines_ticked(n).line == (s.line + n) % 228,
        s.lines_ticked(n).frame_count == s.frame_count + (s.line + n) / 228,
    decreases n,
{
    if n > 0 {
        lemma_lines(s, (n - 1) as nat);
        law_line_ticks(s.lines_ticked((n - 1) as nat));
    }
}

/// Every line ends with HBlank flagged in DISPSTAT, and with VBlank flagged on
/// the lines from 160 to 226 only.
pub proof fn law_dispstat_flags(s: GbaState)
    requires
        s.line < 228,
    ensures
        ({
            let t = s.line_ticked();
            &&& t.bus.io.regs[4] & 2 != 0
            &&& (t.bus.io.regs[4] & 1 != 0) == (160 <= t.line < 227)
        }),
{
    reveal(GbaState::line_ticked);
    let t = s.line_ticked();
    let y = t.line;
    let bus = Bus { io: crate::gba::io::Io { vcount: y as u16, ..s.bus.io }, ..s.bus };
    let enables = (bus.io.regs[4] / 8 % 8) as u8;
    let e = line_events(bus, y, enables, bus.io.regs[5]).io.regs[4];
    let v: u8 = if 160 <= y < 227 {
        1
    } else {
        0
    };
    assert((v | 2 | (e & 0x38)) & 2 != 0 && ((v | 2 | (e & 0x38)) & 1 != 0) == (v == 1))
        by (bit_vector)
        requires
            v == 0 || v == 1,
    ;
}

/// An interrupt that was acknowledged by a write to IF is not raised again by
/// the device that raised it.
pub proof fn law_acknowledged_interrupts_stay_clear(b: Bus, flags: u16)
    requires
        b.timers.flags <= 0xF,
        b.dma.flags & 0xFF0F == 0,
    ensures
        b.io_stored(IF as int, flags).dev_irq_synced().io.iflags & flags == 0,
{
    let (f, t, d) = (b.io.iflags, b.timers.flags, b.dma.flags);
    assert(((f & !flags) | ((t & !((flags >> 3) & 0x0F)) << 3) | ((d & !((flags >> 4) & 0x00F0))
        << 4)) & flags == 0) by (bit_vector)
        requires
            t <= 0xF,
            d & 0xFF0F == 0,
    ;
}

/// Each device raises the flag of its source: timer `i` and DMA channel `i`.
pub proof fn law_interrupt_sources(b: Bus, i: int)
    requires
        0 <= i < 4,
    ensures
        b.timers.flags & TIMER_FLAGS[i] != 0 ==> b.dev_irq_synced().io.iflags & (seq![
            irq::TIMER0,
            irq::TIMER1,
            irq::TIMER2,
            irq::TIMER3,
        ])[i] != 0,
        b.dma.flags & DMA_FLAGS[i] != 0 ==> b.dev_irq_synced().io.iflags & (seq![
            irq::DMA0,
            irq::DMA1,
            irq::DMA2,
            irq::DMA3,
        ])[i] != 0,
{
    let (f, t, d) = (b.io.iflags, b.timers.flags, b.dma.flags);
    let all = f | (t << 3) | (d << 4);
    assert((t & 1 != 0 ==> all & 0x08 != 0) && (t & 2 != 0 ==> all & 0x10 != 0) && (t & 4 != 0
        ==> all & 0x20 != 0) && (t & 8 != 0 ==> all & 0x40 != 0) && (d & 0x10 != 0 ==> all & 0x100
        != 0) && (d & 0x20 != 0 ==> all & 0x200 != 0) && (d & 0x40 != 0 ==> all & 0x400 != 0) && (d
        & 0x80 != 0 ==> all & 0x800 != 0)) by (bit_vector)
        requires
            all == f | (t << 3) | (d << 4),
    ;
}

} // verus!
