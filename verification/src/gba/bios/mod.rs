//! Software-implemented BIOS SWI handlers.
//!
//! Real GBA games call BIOS routines via `SWI #n` (e.g. `CpuSet` for the boot
//! header copy, `VBlankIntrWait` for frame sync). With no BIOS dump these calls
//! would jump to the zeroed vector at `0x00000008` and hang, so we emulate the
//! routines directly. Unimplemented SWIs are recorded by the system root and
//! otherwise act as a return.
//!
//! The angle of ArcTan2 is the one result that is not computed here: the
//! system root hands the coordinates to the frontend, which answers them.

use crate::gba::bus::{Bus, EWRAM_SIZE, IWRAM_SIZE, OAM_SIZE, PALRAM_SIZE, VRAM_SIZE};
use crate::gba::cpu::{core_of, Core, Cpu};
use crate::gba::io::irq::VBLANK;
use crate::gba::io::{Io, IME};
use vstd::prelude::*;

pub mod unpack;

use crate::gba::bios::unpack::{
    at, diff16, diff16_result, diff8, diff8_result, huff, huff_result, lemma_at, lz77, lz77_result,
    rl, rl_result, Unit,
};

verus! {

/// BIOS internal IF mirror at the top of IWRAM. The game's IRQ handler ORs the
/// serviced flags into it and IntrWait/VBlankIntrWait poll it (GBATEK, "BIOS
/// Interrupt Functions").
pub const BIOS_IF_ADDR: u32 = 0x0300_7FF8;

/// The two's-complement value of a register.
pub open spec fn signed(v: u32) -> int {
    if v >= 0x8000_0000 {
        v - 0x1_0000_0000
    } else {
        v as int
    }
}

/// The magnitude of a register.
pub open spec fn magnitude(v: u32) -> int {
    if v >= 0x8000_0000 {
        0x1_0000_0000 - v
    } else {
        v as int
    }
}

/// The quotient rounded towards zero, and the remainder, which has the sign of
/// the numerator; both 0 for a denominator of 0.
pub open spec fn divided(num: u32, den: u32) -> (int, int) {
    if den == 0 {
        (0, 0)
    } else {
        let q = magnitude(num) / magnitude(den);
        let r = magnitude(num) % magnitude(den);
        (
            if (num >= 0x8000_0000) != (den >= 0x8000_0000) {
                -q
            } else {
                q
            },
            if num >= 0x8000_0000 {
                -r
            } else {
                r
            },
        )
    }
}

/// A number as a register holds it.
pub open spec fn register(v: int) -> u32 {
    (v % 0x1_0000_0000) as u32
}

fn size_of(v: u32) -> (r: u32)
    ensures
        r == magnitude(v),
{
    if v >= 0x8000_0000 {
        (0xFFFF_FFFF - v) + 1
    } else {
        v
    }
}

fn with_sign(v: u32, negative: bool) -> (r: u32)
    ensures
        r == register(
            if negative {
                -(v as int)
            } else {
                v as int
            },
        ),
{
    if negative && v != 0 {
        (0xFFFF_FFFF - v) + 1
    } else {
        v
    }
}

/// The quotient and remainder registers, and the magnitude of the quotient.
fn divide(num: u32, den: u32) -> (r: (u32, u32, u32))
    ensures
        r.0 == register(divided(num, den).0),
        r.1 == register(divided(num, den).1),
        r.2 == if divided(num, den).0 < 0 {
            -divided(num, den).0
        } else {
            divided(num, den).0
        },
{
    if den == 0 {
        return (0, 0, 0);
    }
    let n: u32 = size_of(num);
    let d: u32 = size_of(den);
    let q: u32 = n / d;
    let r: u32 = n % d;
    assert(q <= 0x8000_0000) by {
        assert(n / d <= n) by (nonlinear_arith)
            requires
                d >= 1,
        ;
    }
    (
        with_sign(q, (num >= 0x8000_0000) != (den >= 0x8000_0000)),
        with_sign(r, num >= 0x8000_0000),
        q,
    )
}

/// A quotient and remainder fit the division they belong to.
pub proof fn law_division(num: u32, den: u32)
    requires
        den != 0,
    ensures
        ({
            let (q, r) = divided(num, den);
            &&& signed(num) == q * signed(den) + r
            &&& r < 0 ==> signed(num) < 0
            &&& -magnitude(den) < r < magnitude(den)
        }),
{
    let n = magnitude(num);
    let d = magnitude(den);
    vstd::arithmetic::div_mod::lemma_fundamental_div_mod(n, d);
    let q = n / d;
    let r = n % d;
    assert(d * q == q * d) by (nonlinear_arith);
    assert((-q) * (-d) == q * d) by (nonlinear_arith);
    assert((-q) * d == -(q * d)) by (nonlinear_arith);
    assert(q * (-d) == -(q * d)) by (nonlinear_arith);
}

pub open spec fn is_root(r: u32, v: u32) -> bool {
    r * r <= v < (r + 1) * (r + 1)
}

/// The square root of `v`, rounded down.
pub open spec fn root(v: u32) -> u32 {
    choose|r: u32| is_root(r, v)
}

proof fn lemma_root(r: u32, v: u32)
    requires
        is_root(r, v),
    ensures
        root(v) == r,
{
    let s = root(v);
    assert(is_root(s, v));
    assert(s == r) by (nonlinear_arith)
        requires
            r * r <= v < (r + 1) * (r + 1),
            s * s <= v < (s + 1) * (s + 1),
            s >= 0,
            r >= 0,
    ;
}

fn square_root(v: u32) -> (r: u32)
    ensures
        r == root(v),
        is_root(r, v),
{
    let mut low: u64 = 0;
    let mut high: u64 = 0x1_0000;
    while high - low > 1
        invariant
            low < high <= 0x1_0000,
            low * low <= v < high * high,
        decreases high - low,
    {
        let mid: u64 = (low + high) / 2;
        assert(mid * mid <= 0x1_0000 * 0x1_0000) by (nonlinear_arith)
            requires
                mid <= 0x1_0000,
        ;
        if mid * mid <= v as u64 {
            low = mid;
        } else {
            high = mid;
        }
    }
    proof {
        assert(high == low + 1);
        lemma_root(low as u32, v);
    }
    low as u32
}

/// The bus after `n` words from `base` on were set to 0.
pub open spec fn zeroed(bus: Bus, base: u32, n: nat) -> Bus
    decreases n,
{
    if n == 0 {
        bus
    } else {
        zeroed(bus, base, (n - 1) as nat).stored32((base + (n - 1) * 4) as u32, 0)
    }
}

fn zero(bus: &mut Bus, base: u32, len: usize)
    requires
        old(bus).wf(),
        len <= 0x10_0000,
        base <= 0x1000_0000,
    ensures
        final(bus).wf(),
        *final(bus) == zeroed(*old(bus), base, ((len + 3) / 4) as nat),
{
    let n: u32 = ((len + 3) / 4) as u32;
    let mut k: u32 = 0;
    while k < n
        invariant
            k <= n <= 0x10_0000,
            base <= 0x1000_0000,
            bus.wf(),
            *bus == zeroed(*old(bus), base, k as nat),
        decreases n - k,
    {
        bus.write32(base + k * 4, 0);
        k = k + 1;
    }
}

/// The bus with the region that flag `bit` selects set to 0.
pub open spec fn region_reset(bus: Bus, flags: u32, bit: u32, base: u32, len: usize) -> Bus {
    if flags & bit != 0 {
        zeroed(bus, base, (len / 4) as nat)
    } else {
        bus
    }
}

/// The bus after RegisterRamReset.
pub open spec fn ram_reset(bus: Bus, flags: u32) -> Bus {
    let b1 = region_reset(bus, flags, 0x01, 0x0200_0000, EWRAM_SIZE);
    let b2 = region_reset(b1, flags, 0x02, 0x0300_0000, IWRAM_SIZE);
    let b3 = region_reset(b2, flags, 0x04, 0x0500_0000, PALRAM_SIZE);
    let b4 = region_reset(b3, flags, 0x08, 0x0600_0000, VRAM_SIZE);
    region_reset(b4, flags, 0x10, 0x0700_0000, OAM_SIZE)
}

/// 0x01 RegisterRamReset: r0 bit flags select regions to zero.
fn register_ram_reset(bus: &mut Bus, flags: u32)
    requires
        old(bus).wf(),
    ensures
        final(bus).wf(),
        *final(bus) == ram_reset(*old(bus), flags),
{
    if flags & 0x01 != 0 {
        zero(bus, 0x0200_0000, EWRAM_SIZE);
    }
    if flags & 0x02 != 0 {
        zero(bus, 0x0300_0000, IWRAM_SIZE);
    }
    if flags & 0x04 != 0 {
        zero(bus, 0x0500_0000, PALRAM_SIZE);
    }
    if flags & 0x08 != 0 {
        zero(bus, 0x0600_0000, VRAM_SIZE);
    }
    if flags & 0x10 != 0 {
        zero(bus, 0x0700_0000, OAM_SIZE);
    }
}

/// The machine after VBlankIntrWait: the VBlank flag and its mirror are clear,
/// interrupts are enabled, and the CPU waits for the next VBlank.
pub open spec fn waiting_for_vblank(m: Core<Bus>) -> Core<Bus> {
    let (b1, cur) = m.bus.loaded32(BIOS_IF_ADDR);
    let b2 = b1.stored32(BIOS_IF_ADDR, cur & !1u32);
    let io = b2.io.after_write16(IME as int, 1);
    Core {
        cpu: Cpu { bios_wait: Some(VBLANK), bios_wait_pc: m.cpu.pc, ..m.cpu },
        bus: Bus { io: Io { iflags: io.iflags & !VBLANK, ..io }, ..b2 },
    }
}

/// 0x05 VBlankIntrWait: clear the VBlank flag and wait until the next one.
fn vblank_intr_wait(cpu: &mut Cpu, bus: &mut Bus)
    requires
        old(bus).wf(),
    ensures
        final(bus).wf(),
        core_of(*final(cpu), *final(bus)) == waiting_for_vblank(core_of(*old(cpu), *old(bus))),
{
    let cur: u32 = bus.read32(BIOS_IF_ADDR);
    bus.write32(BIOS_IF_ADDR, cur & !1u32);
    bus.io.write16(IME, 1);
    bus.io.acknowledge(VBLANK);
    cpu.begin_bios_wait(VBLANK);
}

/// The bus after `n` words were copied.
pub open spec fn words_copied(bus: Bus, src: u32, dst: u32, n: nat) -> Bus
    decreases n,
{
    if n == 0 {
        bus
    } else {
        let (b, v) = words_copied(bus, src, dst, (n - 1) as nat).loaded32(at(src, (n - 1) * 4));
        b.stored32(at(dst, (n - 1) * 4), v)
    }
}

fn copy_words(bus: &mut Bus, source: u32, dest: u32, n: u32)
    requires
        old(bus).wf(),
        n <= 0x8000,
    ensures
        final(bus).wf(),
        *final(bus) == words_copied(*old(bus), source, dest, n as nat),
{
    proof {
        lemma_at(source, 0, 0);
        lemma_at(dest, 0, 0);
    }
    let mut src: u32 = source;
    let mut dst: u32 = dest;
    let mut k: u32 = 0;
    while k < n
        invariant
            k <= n <= 0x8000,
            src == at(source, k * 4),
            dst == at(dest, k * 4),
            bus.wf(),
            *bus == words_copied(*old(bus), source, dest, k as nat),
        decreases n - k,
    {
        let v: u32 = bus.read32(src);
        bus.write32(dst, v);
        proof {
            lemma_at(source, k * 4, 4);
            lemma_at(dest, k * 4, 4);
        }
        src = src.wrapping_add(4);
        dst = dst.wrapping_add(4);
        k = k + 1;
    }
}

/// The bus after `n` halfwords were copied.
pub open spec fn halves_copied(bus: Bus, src: u32, dst: u32, n: nat) -> Bus
    decreases n,
{
    if n == 0 {
        bus
    } else {
        let (b, v) = halves_copied(bus, src, dst, (n - 1) as nat).loaded16(at(src, (n - 1) * 2));
        b.stored16(at(dst, (n - 1) * 2), v)
    }
}

fn copy_halves(bus: &mut Bus, source: u32, dest: u32, n: u32)
    requires
        old(bus).wf(),
        n <= 0x1_0000,
    ensures
        final(bus).wf(),
        *final(bus) == halves_copied(*old(bus), source, dest, n as nat),
{
    proof {
        lemma_at(source, 0, 0);
        lemma_at(dest, 0, 0);
    }
    let mut src: u32 = source;
    let mut dst: u32 = dest;
    let mut k: u32 = 0;
    while k < n
        invariant
            k <= n <= 0x1_0000,
            src == at(source, k * 2),
            dst == at(dest, k * 2),
            bus.wf(),
            *bus == halves_copied(*old(bus), source, dest, k as nat),
        decreases n - k,
    {
        let v: u32 = bus.read16(src);
        bus.write16(dst, v);
        proof {
            lemma_at(source, k * 2, 2);
            lemma_at(dest, k * 2, 2);
        }
        src = src.wrapping_add(2);
        dst = dst.wrapping_add(2);
        k = k + 1;
    }
}

/// The bus after `n` words were set to `v`.
pub open spec fn words_filled(bus: Bus, dst: u32, v: u32, n: nat) -> Bus
    decreases n,
{
    if n == 0 {
        bus
    } else {
        words_filled(bus, dst, v, (n - 1) as nat).stored32(at(dst, (n - 1) * 4), v)
    }
}

fn fill_words(bus: &mut Bus, dest: u32, v: u32, n: u32)
    requires
        old(bus).wf(),
        n <= 0x8000,
    ensures
        final(bus).wf(),
        *final(bus) == words_filled(*old(bus), dest, v, n as nat),
{
    proof {
        lemma_at(dest, 0, 0);
    }
    let mut dst: u32 = dest;
    let mut k: u32 = 0;
    while k < n
        invariant
            k <= n <= 0x8000,
            dst == at(dest, k * 4),
            bus.wf(),
            *bus == words_filled(*old(bus), dest, v, k as nat),
        decreases n - k,
    {
        bus.write32(dst, v);
        proof {
            lemma_at(dest, k * 4, 4);
        }
        dst = dst.wrapping_add(4);
        k = k + 1;
    }
}

/// The number of units in a control word, at most `limit`.
pub open spec fn unit_count(ctrl: u32, limit: u32) -> nat {
    (if ctrl % 0x20_0000 < limit {
        ctrl % 0x20_0000
    } else {
        limit
    }) as nat
}

fn count_of(ctrl: u32, limit: u32) -> (r: u32)
    ensures
        r == unit_count(ctrl, limit),
        r <= limit,
{
    let n: u32 = ctrl % 0x20_0000;
    if n < limit {
        n
    } else {
        limit
    }
}

/// What CpuSet does to the bus.
pub open spec fn cpu_set_result(bus: Bus, src: u32, dst: u32, ctrl: u32) -> Bus {
    if ctrl & 0x0400_0000 != 0 {
        words_copied(bus, src, dst, unit_count(ctrl, 0x8000))
    } else {
        halves_copied(bus, src, dst, unit_count(ctrl, 0x1_0000))
    }
}

/// 0x0B CpuSet: copy r0[src] -> r1[dst]. r2 bit 26 selects 32-bit mode.
fn cpu_set(bus: &mut Bus, src: u32, dst: u32, ctrl: u32)
    requires
        old(bus).wf(),
    ensures
        final(bus).wf(),
        *final(bus) == cpu_set_result(*old(bus), src, dst, ctrl),
{
    if ctrl & 0x0400_0000 != 0 {
        copy_words(bus, src, dst, count_of(ctrl, 0x8000));
    } else {
        copy_halves(bus, src, dst, count_of(ctrl, 0x1_0000));
    }
}

/// What CpuFastSet does to the bus.
pub open spec fn cpu_fast_set_result(bus: Bus, src: u32, dst: u32, ctrl: u32) -> Bus {
    let n = unit_count(ctrl, 0x8000);
    if ctrl & 0x0100_0000 != 0 {
        let (b, v) = bus.loaded32(src);
        words_filled(b, dst, v, n)
    } else {
        words_copied(bus, src, dst, n)
    }
}

/// 0x0C CpuFastSet: 32-bit copy r0[r1]; r2 bit 24 enables 32-bit fill.
fn cpu_fast_set(bus: &mut Bus, src: u32, dst: u32, ctrl: u32)
    requires
        old(bus).wf(),
    ensures
        final(bus).wf(),
        *final(bus) == cpu_fast_set_result(*old(bus), src, dst, ctrl),
{
    let n: u32 = count_of(ctrl, 0x8000);
    if ctrl & 0x0100_0000 != 0 {
        let v: u32 = bus.read32(src);
        fill_words(bus, dst, v, n);
    } else {
        copy_words(bus, src, dst, n);
    }
}

/// The CPU after a division: r0 = quotient, r1 = remainder, and r3 =
/// |quotient| where `with_magnitude`.
pub open spec fn after_division(cpu: Cpu, num: u32, den: u32, with_magnitude: bool) -> Cpu {
    let (q, r) = divided(num, den);
    let c = cpu.with_value(0, register(q)).with_value(1, register(r));
    if with_magnitude {
        c.with_value(
            3,
            (if q < 0 {
                -q
            } else {
                q
            }) as u32,
        )
    } else {
        c
    }
}

/// 0x06 Div: r0/r1 -> r0 = quotient, r1 = remainder, r3 = |quotient|.
fn div(cpu: &mut Cpu)
    ensures
        *final(cpu) == after_division(*old(cpu), old(cpu).regs[0], old(cpu).regs[1], true),
{
    let num: u32 = cpu.reg_raw(0);
    let den: u32 = cpu.reg_raw(1);
    let (q, r, size) = divide(num, den);
    cpu.set_reg(0, q);
    cpu.set_reg(1, r);
    cpu.set_reg(3, size);
}

/// 0x07 DivARM: r1/r2 -> r0 = quotient, r1 = remainder.
fn div_arm(cpu: &mut Cpu)
    ensures
        *final(cpu) == after_division(*old(cpu), old(cpu).regs[1], old(cpu).regs[2], false),
{
    let num: u32 = cpu.reg_raw(1);
    let den: u32 = cpu.reg_raw(2);
    let (q, r, _) = divide(num, den);
    cpu.set_reg(0, q);
    cpu.set_reg(1, r);
}

/// Whether the CPU asks for the angle of coordinates that have one.
pub open spec fn wants_angle(cpu: Cpu, num: u32) -> bool {
    num == 0x0A && (cpu.regs[0] != 0 || cpu.regs[1] != 0)
}

/// The machine after the BIOS routine `num`, and whether it was handled. An
/// ArcTan2 of coordinates other than the origin leaves r0 to the answer.
pub open spec fn ran(m: Core<Bus>, num: u32) -> (Core<Bus>, bool) {
    let (r0, r1, r2) = (m.cpu.regs[0], m.cpu.regs[1], m.cpu.regs[2]);
    match num {
        0x01 => (Core { bus: ram_reset(m.bus, r0), ..m }, true),
        0x02 => (Core { cpu: Cpu { halted: true, ..m.cpu }, ..m }, true),
        0x05 => (waiting_for_vblank(m), true),
        0x06 => (Core { cpu: after_division(m.cpu, r0, r1, true), ..m }, true),
        0x07 => (Core { cpu: after_division(m.cpu, r1, r2, false), ..m }, true),
        0x08 => (Core { cpu: m.cpu.with_value(0, root(r0)), ..m }, true),
        0x0A => if wants_angle(m.cpu, num) {
            (m, true)
        } else {
            (Core { cpu: m.cpu.with_value(0, 0), ..m }, true)
        },
        0x0B => (Core { bus: cpu_set_result(m.bus, r0, r1, r2), ..m }, true),
        0x0C => (Core { bus: cpu_fast_set_result(m.bus, r0, r1, r2), ..m }, true),
        // Games only check that the checksum is non-zero.
        0x0D => (Core { cpu: m.cpu.with_value(0, 0x1234_5678), ..m }, true),
        _ => {
            let (bus, ok) = unpacked(m.bus, r0, r1, num);
            (Core { bus, ..m }, ok)
        },
    }
}

/// The bus after the decompression routine `num`, and whether it was handled.
pub open spec fn unpacked(bus: Bus, src: u32, dst: u32, num: u32) -> (Bus, bool) {
    match num {
        0x11 => lz77_result(bus, src, dst, Unit::Byte),
        0x12 => lz77_result(bus, src, dst, Unit::Half),
        0x13 => huff_result(bus, src, dst),
        0x14 => rl_result(bus, src, dst, Unit::Byte),
        0x15 => rl_result(bus, src, dst, Unit::Half),
        0x16 => diff8_result(bus, src, dst, Unit::Byte),
        0x17 => diff8_result(bus, src, dst, Unit::Half),
        0x18 => diff16_result(bus, src, dst),
        _ => (bus, false),
    }
}

fn run_unpack(bus: &mut Bus, src: u32, dst: u32, num: u32) -> (r: bool)
    requires
        old(bus).wf(),
    ensures
        final(bus).wf(),
        (*final(bus), r) == unpacked(*old(bus), src, dst, num),
{
    match num {
        0x11 => lz77(bus, src, dst, Unit::Byte),
        0x12 => lz77(bus, src, dst, Unit::Half),
        0x13 => huff(bus, src, dst),
        0x14 => rl(bus, src, dst, Unit::Byte),
        0x15 => rl(bus, src, dst, Unit::Half),
        0x16 => diff8(bus, src, dst, Unit::Byte),
        0x17 => diff8(bus, src, dst, Unit::Half),
        0x18 => diff16(bus, src, dst),
        _ => false,
    }
}

/// Run a BIOS SWI. Returns `true` if handled, `false` if the routine is not
/// implemented; the caller records it and continues at the next instruction.
pub fn run(cpu: &mut Cpu, bus: &mut Bus, num: u32) -> (r: bool)
    requires
        old(bus).wf(),
    ensures
        final(bus).wf(),
        (core_of(*final(cpu), *final(bus)), r) == ran(core_of(*old(cpu), *old(bus)), num),
{
    let r0: u32 = cpu.reg_raw(0);
    let r1: u32 = cpu.reg_raw(1);
    let r2: u32 = cpu.reg_raw(2);
    match num {
        0x01 => {
            register_ram_reset(bus, r0);
            true
        },
        0x02 => {
            cpu.halted = true;
            true
        },
        0x05 => {
            vblank_intr_wait(cpu, bus);
            true
        },
        0x06 => {
            div(cpu);
            true
        },
        0x07 => {
            div_arm(cpu);
            true
        },
        0x08 => {
            cpu.set_reg(0, square_root(r0));
            true
        },
        0x0A => {
            if r0 == 0 && r1 == 0 {
                cpu.set_reg(0, 0);
            }
            true
        },
        0x0B => {
            cpu_set(bus, r0, r1, r2);
            true
        },
        0x0C => {
            cpu_fast_set(bus, r0, r1, r2);
            true
        },
        0x0D => {
            cpu.set_reg(0, 0x1234_5678);
            true
        },
        _ => run_unpack(bus, r0, r1, num),
    }
}

} // verus!
