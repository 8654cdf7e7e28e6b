//! The way into an interrupt handler and back.

use crate::gba::bus::{even, half_of, with_half, Bus, Mem};
use crate::gba::cpu::arm;
use crate::gba::cpu::isa;
use crate::gba::cpu::{bank_of, mode, Core, Cpu};
use crate::gba::laws::{lemma_cell, lemma_stored16};
use crate::gba::machine::{pushed, stub_image, GbaState, IRQ_RETURN_STUB};
use vstd::prelude::*;
use vstd::wrapping::u32_specs;

verus! {

/// `ldmfd sp!, {r0-r3, r12, lr}`.
pub const POP_FRAME: u32 = 0xE8BD_500F;

/// `subs pc, lr, #4`.
pub const RESUME: u32 = 0xE25E_F004;

/// The word at offset `i` of IWRAM.
pub open spec fn word_at(m: Mem<u8, 0x8000>, i: int) -> u32 {
    (half_of(m, i) + half_of(m, i + 2) * 0x1_0000) as u32
}

/// Whether `addr` is the address of a word of IWRAM.
pub open spec fn in_iwram(addr: u32) -> bool {
    0x0300_0000 <= addr <= 0x0300_7FFC && addr % 4 == 0
}

proof fn lemma_load(b: Bus, addr: u32)
    requires
        in_iwram(addr),
    ensures
        b.loaded32(addr).1 == word_at(b.iwram, addr - 0x0300_0000),
        b.loaded32(addr).0.iwram == b.iwram,
        b.loaded32(addr).0.bios == b.bios,
{
    let next = u32_specs::wrapping_add(addr, 2);
    assert(even(addr, 0x8000) == addr - 0x0300_0000);
    assert(even(next, 0x8000) == addr - 0x0300_0000 + 2);
}

proof fn lemma_store(b: Bus, addr: u32, v: u32, j: int)
    requires
        in_iwram(addr),
        0 <= j <= 0x7FFC,
        j % 4 == 0,
    ensures
        word_at(b.stored32(addr, v).iwram, j) == if j == addr - 0x0300_0000 {
            v
        } else {
            word_at(b.iwram, j)
        },
        b.stored32(addr, v).bios == b.bios,
{
    let i = addr - 0x0300_0000;
    let next = u32_specs::wrapping_add(addr, 2);
    assert(even(addr, 0x8000) == i);
    assert(even(next, 0x8000) == i + 2);
    lemma_stored16(b, addr, v);
    let b1 = b.stored16(addr, v);
    assert(b1.iwram == with_half(b.iwram, i, v));
    lemma_stored16(b1, next, v / 0x1_0000);
    assert(b.stored32(addr, v).iwram == with_half(b1.iwram, i + 2, v / 0x1_0000));
    lemma_cell(b.iwram, i, v, j);
    lemma_cell(b.iwram, i, v, j + 2);
    lemma_cell(b1.iwram, i + 2, v / 0x1_0000, j);
    lemma_cell(b1.iwram, i + 2, v / 0x1_0000, j + 2);
}

/// The word at place `k` of the frame pushed at `sp`.
pub open spec fn frame_word(m: Mem<u8, 0x8000>, sp: u32, k: int) -> u32 {
    word_at(m, sp - 0x0300_0000 + 4 * k)
}

/// Whether `after` is `before` with the word at `i` set to `v`.
spec fn word_set(before: Mem<u8, 0x8000>, i: int, v: u32, after: Mem<u8, 0x8000>) -> bool {
    forall|j: int|
        0 <= j <= 0x7FFC && j % 4 == 0 ==> #[trigger] word_at(after, j) == if j == i {
            v
        } else {
            word_at(before, j)
        }
}

proof fn lemma_word_set(b: Bus, addr: u32, v: u32)
    requires
        in_iwram(addr),
    ensures
        word_set(b.iwram, addr - 0x0300_0000, v, b.stored32(addr, v).iwram),
{
    assert forall|j: int| 0 <= j <= 0x7FFC && j % 4 == 0 implies #[trigger] word_at(
        b.stored32(addr, v).iwram,
        j,
    ) == if j == addr - 0x0300_0000 {
        v
    } else {
        word_at(b.iwram, j)
    } by {
        lemma_store(b, addr, v, j);
    }
}

/// Six words set one behind the other are all there afterwards.
proof fn lemma_six(
    m0: Mem<u8, 0x8000>,
    m1: Mem<u8, 0x8000>,
    m2: Mem<u8, 0x8000>,
    m3: Mem<u8, 0x8000>,
    m4: Mem<u8, 0x8000>,
    m5: Mem<u8, 0x8000>,
    m6: Mem<u8, 0x8000>,
    i: int,
    r: [u32; 16],
)
    requires
        0 <= i <= 0x7FE8,
        i % 4 == 0,
        word_set(m0, i, r[0], m1),
        word_set(m1, i + 4, r[1], m2),
        word_set(m2, i + 8, r[2], m3),
        word_set(m3, i + 12, r[3], m4),
        word_set(m4, i + 16, r[12], m5),
        word_set(m5, i + 20, r[14], m6),
    ensures
        word_at(m6, i) == r[0],
        word_at(m6, i + 4) == r[1],
        word_at(m6, i + 8) == r[2],
        word_at(m6, i + 12) == r[3],
        word_at(m6, i + 16) == r[12],
        word_at(m6, i + 20) == r[14],
{
}

proof fn lemma_pushed(b: Bus, sp: u32, r: [u32; 16])
    requires
        in_iwram(sp),
        sp <= 0x0300_7FE8,
    ensures
        ({
            let m = pushed(b, sp, r).iwram;
            &&& frame_word(m, sp, 0) == r[0]
            &&& frame_word(m, sp, 1) == r[1]
            &&& frame_word(m, sp, 2) == r[2]
            &&& frame_word(m, sp, 3) == r[3]
            &&& frame_word(m, sp, 4) == r[12]
            &&& frame_word(m, sp, 5) == r[14]
        }),
{
    let b1 = b.stored32(sp, r[0]);
    let b2 = b1.stored32(u32_specs::wrapping_add(sp, 4), r[1]);
    let b3 = b2.stored32(u32_specs::wrapping_add(sp, 8), r[2]);
    let b4 = b3.stored32(u32_specs::wrapping_add(sp, 12), r[3]);
    let b5 = b4.stored32(u32_specs::wrapping_add(sp, 16), r[12]);
    let b6 = b5.stored32(u32_specs::wrapping_add(sp, 20), r[14]);
    lemma_word_set(b, sp, r[0]);
    lemma_word_set(b1, (sp + 4) as u32, r[1]);
    lemma_word_set(b2, (sp + 8) as u32, r[2]);
    lemma_word_set(b3, (sp + 12) as u32, r[3]);
    lemma_word_set(b4, (sp + 16) as u32, r[12]);
    lemma_word_set(b5, (sp + 20) as u32, r[14]);
    lemma_six(
        b.iwram,
        b1.iwram,
        b2.iwram,
        b3.iwram,
        b4.iwram,
        b5.iwram,
        b6.iwram,
        sp - 0x0300_0000,
        r,
    );
}

proof fn lemma_stub(b: Bus)
    requires
        b.bios@ == stub_image(),
    ensures
        b.loaded32(0x20).1 == POP_FRAME,
        b.loaded32(0x24).1 == RESUME,
        b.loaded32(0x20).0.iwram == b.iwram,
        b.loaded32(0x24).0.iwram == b.iwram,
        b.loaded32(0x20).0.bios == b.bios,
{
    assert(b.bios_byte(0x20) == 0x0F && b.bios_byte(0x21) == 0x50);
    assert(b.bios_byte(0x22) == 0xBD && b.bios_byte(0x23) == 0xE8);
    assert(b.bios_byte(0x24) == 0x04 && b.bios_byte(0x25) == 0xF0);
    assert(b.bios_byte(0x26) == 0x5E && b.bios_byte(0x27) == 0xE2);
    assert(b.half(0x20) == 0x500F);
    assert(b.half(0x22) == 0xE8BD);
    assert(b.half(0x24) == 0xF004);
    assert(b.half(0x26) == 0xE25E);
    let b1 = b.loaded16(0x20).0;
    assert(b1.half(0x22) == 0xE8BD);
    let b2 = b.loaded16(0x24).0;
    assert(b2.half(0x26) == 0xE25E);
}

/// A block load from IWRAM that leaves r15 alone.
proof fn lemma_block(m: Core<Bus>, addr: u32, list: u32, n: nat)
    requires
        n <= 15,
        in_iwram(addr),
        addr + 4 * arm::count_listed(list, n) <= 0x0300_8000,
    ensures
        ({
            let l = arm::block_loaded(m, addr, list, false, n);
            &&& l.addr == addr + 4 * arm::count_listed(list, n)
            &&& l.pc is None
            &&& l.m.bus.iwram == m.bus.iwram
            &&& l.m.bus.bios == m.bus.bios
            &&& l.m.cpu == (Cpu { regs: l.m.cpu.regs, ..m.cpu })
            &&& forall|r: int|
                0 <= r < 16 ==> #[trigger] l.m.cpu.regs[r] == if r < n && arm::listed(
                    list,
                    r as nat,
                ) {
                    frame_word(m.bus.iwram, addr, arm::count_listed(list, r as nat) as int)
                } else {
                    m.cpu.regs[r]
                }
        }),
    decreases n,
{
    if n > 0 {
        let p = (n - 1) as nat;
        lemma_block(m, addr, list, p);
        let l = arm::block_loaded(m, addr, list, false, p);
        if arm::listed(list, p) {
            lemma_load(l.m.bus, l.addr);
        }
    }
}

/// The registers that `POP_FRAME` lists, and their places in the frame.
proof fn lemma_list()
    ensures
        arm::count_listed(0x500F, 16) == 6,
        arm::count_listed(0x500F, 15) == 6,
        arm::count_listed(0x500F, 14) == 5,
        arm::count_listed(0x500F, 12) == 4,
        arm::count_listed(0x500F, 3) == 3,
        arm::count_listed(0x500F, 2) == 2,
        arm::count_listed(0x500F, 1) == 1,
        arm::count_listed(0x500F, 0) == 0,
        forall|r: int|
            0 <= r < 16 ==> #[trigger] arm::listed(0x500F, r as nat) == (r < 4 || r == 12 || r
                == 14),
{
    assert(0x500Fu32 & (1u32 << 0u32) != 0 && 0x500Fu32 & (1u32 << 1u32) != 0 && 0x500Fu32 & (1u32
        << 2u32) != 0 && 0x500Fu32 & (1u32 << 3u32) != 0 && 0x500Fu32 & (1u32 << 4u32) == 0
        && 0x500Fu32 & (1u32 << 5u32) == 0 && 0x500Fu32 & (1u32 << 6u32) == 0 && 0x500Fu32 & (1u32
        << 7u32) == 0 && 0x500Fu32 & (1u32 << 8u32) == 0 && 0x500Fu32 & (1u32 << 9u32) == 0
        && 0x500Fu32 & (1u32 << 10u32) == 0 && 0x500Fu32 & (1u32 << 11u32) == 0 && 0x500Fu32 & (1u32
        << 12u32) != 0 && 0x500Fu32 & (1u32 << 13u32) == 0 && 0x500Fu32 & (1u32 << 14u32) != 0
        && 0x500Fu32 & (1u32 << 15u32) == 0) by (bit_vector);
    reveal_with_fuel(arm::count_listed, 17);
}

proof fn lemma_pop_frame(m: Core<Bus>)
    requires
        in_iwram(m.cpu.regs[13]),
        m.cpu.regs[13] <= 0x0300_7FE8,
    ensures
        ({
            let r = arm::executed(m, POP_FRAME);
            let sp = m.cpu.regs[13];
            &&& r.bus.bios == m.bus.bios
            &&& r.cpu == (Cpu { regs: r.cpu.regs, cycles: r.cpu.cycles, ..m.cpu })
            &&& r.cpu.regs[0] == frame_word(m.bus.iwram, sp, 0)
            &&& r.cpu.regs[1] == frame_word(m.bus.iwram, sp, 1)
            &&& r.cpu.regs[2] == frame_word(m.bus.iwram, sp, 2)
            &&& r.cpu.regs[3] == frame_word(m.bus.iwram, sp, 3)
            &&& r.cpu.regs[12] == frame_word(m.bus.iwram, sp, 4)
            &&& r.cpu.regs[14] == frame_word(m.bus.iwram, sp, 5)
            &&& r.cpu.regs[13] == sp + 24
            &&& r.cpu.regs[15] == m.cpu.regs[15]
            &&& forall|i: int| 4 <= i < 12 ==> r.cpu.regs[i] == m.cpu.regs[i]
        }),
{
    let inst = POP_FRAME;
    let sp = m.cpu.regs[13];
    assert(inst >> 28 == 0xE && inst & 0x0FFF_FFF0 != 0x012F_FF10 && inst & 0x0FBF_0FF0
        != 0x010F_0000 && inst & 0x0FB0_FFF0 != 0x0120_F000 && inst & 0x0FB0_F000 != 0x0320_F000
        && inst & 0x0C00_0000 != 0 && inst & 0x0C00_0000 != 0x0400_0000 && inst & 0x0E00_0000
        == 0x0800_0000 && inst & 0x0040_0000 == 0 && inst & 0x0010_0000 != 0 && (inst >> 16) & 0xF
        == 13 && inst & 0xFFFF == 0x500F && inst & 0x0100_0000 == 0 && inst & 0x0080_0000 != 0
        && inst & 0x0020_0000 != 0) by (bit_vector)
        requires
            inst == 0xE8BD_500F,
    ;
    assert(arm::executed(m, inst) == arm::block_transferred(m, inst)) by {
        reveal(arm::dispatched);
    }
    reveal(arm::block_transferred);
    lemma_list();
    lemma_block(m, sp, 0x500F, 15);
    let l = arm::block_loaded(m, sp, 0x500F, false, 15);
    assert(arm::block_loaded(m, sp, 0x500F, false, 16) == l);
    assert(l.m.cpu.regs[13] == sp);
}

proof fn lemma_resume(m: Core<Bus>)
    requires
        m.cpu.mode_bits() == mode::IRQ,
    ensures
        ({
            let r = arm::executed(m, RESUME);
            let spsr = m.cpu.spsr_of(mode::IRQ);
            let back = m.cpu.with_cpsr(spsr).branched(u32_specs::wrapping_sub(m.cpu.regs[14], 4));
            r.cpu == (Cpu { cycles: r.cpu.cycles, ..back })
        }),
{
    let inst = RESUME;
    assert(inst >> 28 == 0xE && inst & 0x0FFF_FFF0 != 0x012F_FF10 && inst & 0x0FBF_0FF0
        != 0x010F_0000 && inst & 0x0FB0_FFF0 != 0x0120_F000 && inst & 0x0FB0_F000 != 0x0320_F000
        && inst & 0x0C00_0000 == 0 && inst & 0x0FB0_00F0 != 0x0100_0090 && inst & 0x0F80_00F0
        != 0x0080_0090 && inst & 0x0FC0_00F0 != 0x0000_0090 && inst & 0x0E00_0090 != 0x0000_0090
        && (inst >> 21) & 0xF == 2 && inst & 0x0010_0000 != 0 && (inst >> 16) & 0xF == 14 && (inst
        >> 12) & 0xF == 15 && inst & 0x0200_0000 != 0 && inst & 0xFF == 4 && (inst >> 8) & 0xF
        == 0) by (bit_vector)
        requires
            inst == 0xE25E_F004,
    ;
    assert(arm::executed(m, inst) == m.with_cpu(arm::data_processed(m.cpu, inst))) by {
        reveal(arm::dispatched);
        reveal(arm::family_executed);
    }
    reveal(arm::data_processed);
    reveal(arm::dp_written);
    reveal(arm::operand2);
    reveal(arm::operation);
    let (result, c, v) = arm::difference_flags(m.cpu.regs[14], 4);
    let f = arm::flagged(m.cpu.cpsr, result, c, v);
    lemma_flagged(m.cpu.cpsr, result, c, v);
    let set = Cpu { cpsr: f, ..m.cpu };
    assert(arm::executed(m, inst).cpu == arm::dp_written(set, 15, true, result).with_cycles(1));
    assert(set.with_cpsr(set.spsr_of(mode::IRQ)) == m.cpu.with_cpsr(m.cpu.spsr_of(mode::IRQ))) by {
        reveal(Cpu::in_mode);
    }
}

/// The condition flags are no part of the mode.
proof fn lemma_flagged(cpsr: u32, result: u32, c: bool, v: bool)
    ensures
        arm::flagged(cpsr, result, c, v) & 0x1F == cpsr & 0x1F,
{
    isa::lemma_flagged(cpsr, result, c, v);
}

/// Whether `h` is where a handler entered from `s` ends with `bx lr`: at the
/// return stub, with its stack as it found it. The handler may have changed
/// r0-r3, r12, r14, the flags and any memory but its stack frame and the stub.
pub open spec fn handler_done(s: GbaState, h: Core<Bus>) -> bool {
    let t = s.in_handler();
    let sp = t.cpu.regs[13];
    &&& h.cpu.pc == IRQ_RETURN_STUB
    &&& h.cpu.mode_bits() == mode::IRQ
    &&& !h.cpu.thumb()
    &&& !h.cpu.halted
    &&& forall|r: int| 4 <= r < 12 ==> h.cpu.regs[r] == t.cpu.regs[r]
    &&& h.cpu.regs[13] == sp
    &&& h.cpu.regs[15] == t.cpu.regs[15]
    &&& h.cpu.fiq_r8_12 == t.cpu.fiq_r8_12
    &&& h.cpu.sp == t.cpu.sp
    &&& h.cpu.lr == t.cpu.lr
    &&& h.cpu.spsr == t.cpu.spsr
    &&& h.bus.bios@ == stub_image()
    &&& forall|k: int|
        0 <= k < 6 ==> #[trigger] frame_word(h.bus.iwram, sp, k) == frame_word(t.bus.iwram, sp, k)
}

/// The frame that the entry pushes, and the registers it leaves.
proof fn lemma_entry(s: GbaState)
    requires
        !s.cpu.has_bios,
        s.cpu.mode_bits() != mode::IRQ,
        in_iwram(s.cpu.sp[4]),
        s.cpu.sp[4] >= 0x0300_0018,
    ensures
        ({
            let t = s.in_handler();
            let c = s.cpu.in_mode(mode::IRQ);
            let sp = (s.cpu.sp[4] - 24) as u32;
            &&& t.cpu.regs[13] == sp
            &&& forall|r: int| 4 <= r < 12 ==> t.cpu.regs[r] == c.regs[r]
            &&& t.cpu.regs[15] == c.regs[15]
            &&& t.cpu.fiq_r8_12 == c.fiq_r8_12
            &&& t.cpu.sp == c.sp
            &&& forall|i: int| 0 <= i < 6 && i != 4 ==> t.cpu.lr[i] == c.lr[i]
            &&& t.cpu.spsr[4] == s.cpu.cpsr
            &&& frame_word(t.bus.iwram, sp, 0) == c.regs[0]
            &&& frame_word(t.bus.iwram, sp, 1) == c.regs[1]
            &&& frame_word(t.bus.iwram, sp, 2) == c.regs[2]
            &&& frame_word(t.bus.iwram, sp, 3) == c.regs[3]
            &&& frame_word(t.bus.iwram, sp, 4) == c.regs[12]
            &&& frame_word(t.bus.iwram, sp, 5) == u32_specs::wrapping_add(s.cpu.pc, 4)
        }),
{
    reveal(GbaState::in_handler);
    reveal(Cpu::excepted);
    let c = s.cpu.in_mode(mode::IRQ);
    assert(c.regs[13] == s.cpu.sp[4] && c.has_bios == s.cpu.has_bios && c.cpsr == s.cpu.cpsr) by {
        reveal(Cpu::in_mode);
    }
    let taken = s.cpu.excepted(
        crate::gba::cpu::VECTOR_IRQ,
        mode::IRQ,
        u32_specs::wrapping_add(s.cpu.pc, 4),
        false,
    );
    let sp = (s.cpu.sp[4] - 24) as u32;
    let b = s.bus.loaded32(crate::gba::machine::IRQ_HANDLER_ADDR).0;
    lemma_pushed(b, sp, taken.regs);
}

/// What an interrupt interrupted goes on where it was when the handler is
/// done: the stub pops the frame that the entry pushed, and every register,
/// the CPSR and PC are as they were.
pub proof fn law_return_stub_resumes(s: GbaState, h: Core<Bus>)
    requires
        !s.cpu.has_bios,
        s.cpu.mode_bits() != mode::IRQ,
        s.cpu.branched(s.cpu.pc).pc == s.cpu.pc,
        in_iwram(s.cpu.sp[4]),
        s.cpu.sp[4] >= 0x0300_0018,
        handler_done(s, h),
    ensures
        ({
            let r = h.executed().executed().cpu;
            &&& r.regs == s.cpu.regs
            &&& r.cpsr == s.cpu.cpsr
            &&& r.pc == s.cpu.pc
        }),
{
    lemma_entry(s);
    let t = s.in_handler();
    let c = s.cpu.in_mode(mode::IRQ);
    let sp = t.cpu.regs[13];
    // The first instruction of the stub.
    lemma_stub(h.bus);
    let c1 = Cpu { cycles: 0, pc: 0x24, ..h.cpu }.with_cycles(1);
    let m1 = Core { cpu: c1, bus: h.bus.loaded32(0x20).0 };
    assert(h.executed() == arm::executed(m1, POP_FRAME));
    lemma_pop_frame(m1);
    let m2 = h.executed();
    // The second.
    lemma_stub(m2.bus);
    let c3 = Cpu { cycles: 0, pc: 0x28, ..m2.cpu }.with_cycles(1);
    let m3 = Core { cpu: c3, bus: m2.bus.loaded32(0x24).0 };
    assert(m2.executed() == arm::executed(m3, RESUME));
    lemma_resume(m3);
    assert(m3.cpu.regs[14] == u32_specs::wrapping_add(s.cpu.pc, 4));
    assert(u32_specs::wrapping_sub(m3.cpu.regs[14], 4) == s.cpu.pc);
    assert(m3.cpu.spsr_of(mode::IRQ) == s.cpu.cpsr);
    let back = m3.cpu.with_cpsr(s.cpu.cpsr);
    assert forall|i: int| 0 <= i < 16 implies back.regs[i] == s.cpu.regs[i] by {
        reveal(Cpu::in_mode);
        let k = bank_of(s.cpu.mode_bits());
        assert(0 <= k < 6 && k != 4);
        assert(c.sp[k] == s.cpu.regs[13] && c.lr[k] == s.cpu.regs[14]);
        if i < 8 || i == 15 {
            assert(back.regs[i] == m3.cpu.regs[i]);
            assert(c.regs[i] == s.cpu.regs[i]);
        } else if i < 13 {
            if s.cpu.mode_bits() == mode::FIQ {
                assert(back.regs[i] == m3.cpu.fiq_r8_12[i - 8]);
            } else {
                assert(back.regs[i] == m3.cpu.regs[i]);
                assert(c.regs[i] == s.cpu.regs[i]);
            }
        }
    }
    assert(back.regs =~= s.cpu.regs);
}

} // verus!
