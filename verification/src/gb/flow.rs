//! Where the instructions go: jumps, calls, returns, the stack, loads through
//! memory, and interrupts.

use crate::bits::{bit8, lemma_bits8, lemma_byte_fields};
use crate::gb::cpu::{displaced, rotated, with_flag, Cpu, Machine};
use crate::gb::flags::{lemma_read_flag, lemma_read_flags};
use crate::gb::isa::{
    carry_set, flags_are, lemma_block0, lemma_block3, lemma_fetch, lemma_pair_left, lemma_tick,
    lemma_turns, next_byte, next_word, pair, pair_left, past_byte, past_word, turns,
};
use vstd::prelude::*;

verus! {

/// Whether condition `y` holds: NZ, Z, NC, C.
pub open spec fn holds(c: Cpu, y: int) -> bool {
    if y == 0 {
        c.f & 0x80 == 0
    } else if y == 1 {
        c.f & 0x80 != 0
    } else if y == 2 {
        c.f & 0x10 == 0
    } else {
        c.f & 0x10 != 0
    }
}

/// A byte as a signed number.
pub open spec fn signed(n: u8) -> int {
    if n >= 128 {
        n - 256
    } else {
        n as int
    }
}

/// Nothing but PC and the time spent differ.
pub open spec fn only_pc(c: Cpu, r: Cpu) -> bool {
    r == (Cpu { pc: r.pc, ticked: r.ticked, ..c })
}

/// JP a16 (0xC3), JP cc,a16 (0xC2, 0xCA, 0xD2, 0xDA): PC is the word after the
/// opcode if the condition holds, and otherwise past it. JP HL (0xE9) goes to HL.
#[verifier::rlimit(60)]
pub proof fn law_jump(m: Machine, y: u8)
    requires
        y < 4,
    ensures
        m.exec(0xC3).cpu.pc == next_word(m),
        only_pc(m.cpu, m.exec(0xC3).cpu),
        ({
            let r = m.exec((0xC2 + 8 * y) as u8).cpu;
            &&& only_pc(m.cpu, r)
            &&& r.pc == if holds(m.cpu, y as int) {
                next_word(m)
            } else {
                (m.cpu.pc + 2) % 0x1_0000
            }
        }),
        m.exec(0xE9).cpu.pc == pair(m.cpu, 2),
        only_pc(m.cpu, m.exec(0xE9).cpu),
{
    lemma_block3(m, 0, 3);
    lemma_block3(m, y, 2);
    lemma_block3(m, 5, 1);
    lemma_fetch(m);
    lemma_pair_left(m.cpu, 2, 0, 0, 0, 0);
    assert(m.exec_block3_low(0, 3) == m.jp(true) && m.exec_block3_low(y, 2) == m.jp(
        m.cpu.condition(y),
    )) by {
        reveal(Machine::exec_block3_low);
    }
    assert(m.exec_block3_low(5, 1) == m.with_cpu(Cpu { pc: m.cpu.pair(2), ..m.cpu })) by {
        reveal(Machine::exec_block3_low);
    }
    reveal(Machine::jp);
    let t = past_word(m);
    lemma_tick(t.with_cpu(Cpu { pc: m.fetch16().1, ..t.cpu }));
}

/// JR r8 (0x18) and JR cc,r8 (0x20, 0x28, 0x30, 0x38): PC is the signed byte after
/// the opcode away from the instruction that follows, if the condition holds.
#[verifier::rlimit(60)]
pub proof fn law_relative_jump(m: Machine, y: u8)
    requires
        y < 4,
    ensures
        m.exec(0x18).cpu.pc == (m.cpu.pc + 1 + signed(next_byte(m))) % 0x1_0000,
        only_pc(m.cpu, m.exec(0x18).cpu),
        ({
            let r = m.exec((0x20 + 8 * y) as u8).cpu;
            &&& only_pc(m.cpu, r)
            &&& r.pc == (m.cpu.pc + 1 + if holds(m.cpu, y as int) {
                signed(next_byte(m))
            } else {
                0
            }) % 0x1_0000
        }),
{
    lemma_block0(m, 3, 0);
    lemma_block0(m, (4 + y) as u8, 0);
    lemma_fetch(m);
    assert(m.exec_block0(3, 0) == m.jr(true) && m.exec_block0((4 + y) as u8, 0) == m.jr(
        m.cpu.condition((4 + y) as u8),
    )) by {
        reveal(Machine::exec_block0);
    }
    reveal(Machine::jr);
    lemma_tick(past_byte(m));
}

proof fn lemma_write(m: Machine, addr: u16, v: u8)
    ensures
        m.write(addr, v).cpu == (Cpu { ticked: m.write(addr, v).cpu.ticked, ..m.cpu }),
{
    lemma_tick(m);
}

/// A word is pushed after an idle M-cycle: its high byte below SP, then its low
/// byte below that.
pub open spec fn pushed_bus(m: Machine, v: int) -> crate::gb::bus::BusState {
    let t = m.tick();
    let (a, b) = ((m.cpu.sp + 0xFFFF) % 0x1_0000, (m.cpu.sp + 0xFFFE) % 0x1_0000);
    t.write(a as u16, (v / 256) as u8).write(b as u16, (v % 256) as u8).bus
}

/// What time does to the machine around the CPU does not depend on the CPU.
proof fn lemma_same_bus(m: Machine, n: Machine)
    requires
        m.bus == n.bus,
    ensures
        m.tick().bus == n.tick().bus,
        forall|addr: u16, v: u8| #[trigger] m.write(addr, v).bus == n.write(addr, v).bus,
{
    reveal(Machine::tick);
}

proof fn lemma_push_byte(m: Machine, v: u8, at: u16)
    requires
        at == (m.cpu.sp + 0xFFFF) % 0x1_0000,
    ensures
        m.push8(v).bus == m.write(at, v).bus,
        m.push8(v).cpu == (Cpu { sp: at, ticked: m.push8(v).cpu.ticked, ..m.cpu }),
{
    let n = m.with_cpu(Cpu { sp: at, ..m.cpu });
    assert(vstd::wrapping::u16_specs::wrapping_sub(m.cpu.sp, 1) == at);
    lemma_write(n, at, v);
    lemma_same_bus(m, n);
}

#[verifier::rlimit(60)]
proof fn lemma_push(m: Machine, v: u16)
    ensures
        m.push16(v).bus == pushed_bus(m, v as int),
        m.push16(v).cpu == (Cpu {
            sp: ((m.cpu.sp + 0xFFFE) % 0x1_0000) as u16,
            ticked: m.push16(v).cpu.ticked,
            ..m.cpu
        }),
{
    reveal(Machine::push16);
    let t = m.tick();
    lemma_tick(m);
    let a = ((m.cpu.sp + 0xFFFF) % 0x1_0000) as u16;
    let b = ((m.cpu.sp + 0xFFFE) % 0x1_0000) as u16;
    let hi = (v / 256) as u8;
    lemma_push_byte(t, hi, a);
    let p = t.push8(hi);
    lemma_push_byte(p, (v % 256) as u8, b);
    lemma_same_bus(p, t.write(a, hi));
}

/// The word on the stack, low byte first, read in two M-cycles.
pub open spec fn stack_word(m: Machine) -> int {
    m.tick().bus.byte(m.cpu.sp) + 256 * m.tick().tick().bus.byte(
        ((m.cpu.sp + 1) % 0x1_0000) as u16,
    )
}

proof fn lemma_pop(m: Machine)
    ensures
        m.pop16().1 == stack_word(m),
        m.pop16().0.cpu == (Cpu {
            sp: ((m.cpu.sp + 2) % 0x1_0000) as u16,
            ticked: m.pop16().0.cpu.ticked,
            ..m.cpu
        }),
{
    lemma_tick(m);
    let (n, lo) = m.pop8();
    lemma_tick(n);
    lemma_same_bus(n, m.tick());
}

/// CALL a16 (0xCD) and CALL cc,a16 (0xC4, 0xCC, 0xD4, 0xDC): if the condition holds
/// the address of the instruction that follows is pushed and PC is the word after
/// the opcode; otherwise PC moves past it.
#[verifier::rlimit(60)]
pub proof fn law_call(m: Machine, y: u8)
    requires
        y < 4,
    ensures
        ({
            let r = m.exec(0xCD);
            let n = past_word(m);
            &&& r.cpu.pc == next_word(m)
            &&& r.cpu.sp == (m.cpu.sp + 0xFFFE) % 0x1_0000
            &&& only_pc(Cpu { sp: r.cpu.sp, ..m.cpu }, r.cpu)
            &&& r.bus == pushed_bus(n, (m.cpu.pc + 2) % 0x1_0000)
        }),
        m.exec((0xC4 + 8 * y) as u8) == if holds(m.cpu, y as int) {
            m.exec(0xCD)
        } else {
            past_word(m)
        },
{
    lemma_block3(m, 1, 5);
    lemma_block3(m, y, 4);
    lemma_fetch(m);
    assert(m.exec_block3_high(1, 5) == m.call(true) && m.exec_block3_high(y, 4) == m.call(
        m.cpu.condition(y),
    )) by {
        reveal(Machine::exec_block3_high);
    }
    reveal(Machine::call);
    let n = past_word(m);
    lemma_push(n, n.cpu.pc);
}

/// RET (0xC9), RETI (0xD9) and RET cc (0xC0, 0xC8, 0xD0, 0xD8): PC is the word on
/// the stack, and SP moves past it; RETI enables interrupts. RET cc first spends
/// an M-cycle, and then returns if the condition holds.
#[verifier::rlimit(60)]
pub proof fn law_return(m: Machine, y: u8)
    requires
        y < 4,
    ensures
        ({
            let r = m.exec(0xC9).cpu;
            &&& r.pc == stack_word(m)
            &&& r.sp == (m.cpu.sp + 2) % 0x1_0000
            &&& only_pc(Cpu { sp: r.sp, ..m.cpu }, r)
        }),
        ({
            let (r, i) = (m.exec(0xC9), m.exec(0xD9));
            i.bus == r.bus && i.cpu == (Cpu { ime: true, ..r.cpu })
        }),
        m.exec((0xC0 + 8 * y) as u8) == if holds(m.cpu, y as int) {
            m.tick().exec(0xC9)
        } else {
            m.tick()
        },
{
    lemma_block3(m, 1, 1);
    lemma_block3(m, 3, 1);
    lemma_block3(m.tick(), 1, 1);
    lemma_block3(m, y, 0);
    lemma_pop(m);
    assert(m.exec_block3_low(1, 1) == m.ret() && m.exec_block3_low(3, 1) == m.reti()
        && m.tick().exec_block3_low(1, 1) == m.tick().ret() && m.exec_block3_low(y, 0) == m.ret_cc(
        m.cpu.condition(y),
    )) by {
        reveal(Machine::exec_block3_low);
    }
    reveal(Machine::ret);
    let (n, v) = m.pop16();
    lemma_tick(n.with_cpu(Cpu { pc: v, ..n.cpu }));
}

/// RST (0xC7, 0xCF and so on to 0xFF): the address of the instruction that follows
/// is pushed, and PC is 0x00, 0x08 and so on to 0x38.
pub proof fn law_restart(m: Machine, y: u8)
    requires
        y < 8,
    ensures
        ({
            let r = m.exec((0xC7 + 8 * y) as u8);
            &&& r.cpu.pc == 8 * y
            &&& r.cpu.sp == (m.cpu.sp + 0xFFFE) % 0x1_0000
            &&& only_pc(Cpu { sp: r.cpu.sp, ..m.cpu }, r.cpu)
            &&& r.bus == pushed_bus(m, m.cpu.pc as int)
        }),
{
    lemma_block3(m, y, 7);
    assert(m.exec_block3_high(y, 7) == m.rst((y * 8) as u16)) by {
        reveal(Machine::exec_block3_high);
    }
    reveal(Machine::rst);
    lemma_push(m, m.cpu.pc);
}

/// The word that PUSH takes from pair `p`: BC, DE, HL, AF.
pub open spec fn stack_pair(c: Cpu, p: u8) -> int {
    if p == 3 {
        c.a * 256 + c.f
    } else {
        pair(c, p)
    }
}

/// PUSH rr (0xC5, 0xD5, 0xE5, 0xF5): the pair's word goes on the stack.
pub proof fn law_push(m: Machine, p: u8)
    requires
        p < 4,
    ensures
        ({
            let r = m.exec((0xC5 + 16 * p) as u8);
            &&& r.bus == pushed_bus(m, stack_pair(m.cpu, p))
            &&& r.cpu.sp == (m.cpu.sp + 0xFFFE) % 0x1_0000
            &&& r.cpu == (Cpu { sp: r.cpu.sp, ticked: r.cpu.ticked, ..m.cpu })
        }),
{
    let y = (2 * p) as u8;
    lemma_block3(m, y, 5);
    assert(m.exec_block3_high(y, 5) == m.push_pair(p)) by {
        reveal(Machine::exec_block3_high);
    }
    lemma_pair_left(m.cpu, p, 0, 0, 0, 0);
    lemma_push(m, m.cpu.stack_pair(p));
}

/// POP rr (0xC1, 0xD1, 0xE1, 0xF1): the pair holds the word that was on the stack,
/// of F the upper half alone, and SP moves past it.
pub proof fn law_pop(m: Machine, p: u8)
    requires
        p < 4,
    ensures
        ({
            let r = m.exec((0xC1 + 16 * p) as u8).cpu;
            let v = stack_word(m);
            &&& r.sp == (m.cpu.sp + 2) % 0x1_0000
            &&& r.pc == m.cpu.pc
            &&& p < 3 ==> pair_left(Cpu { sp: r.sp, ..m.cpu }, p, v, r) && r.f == m.cpu.f
            &&& p == 3 ==> r == (Cpu {
                a: (v / 256) as u8,
                f: (v % 256 / 16 * 16) as u8,
                sp: r.sp,
                ticked: r.ticked,
                ..m.cpu
            })
        }),
{
    let y = (2 * p) as u8;
    lemma_block3(m, y, 1);
    assert(m.exec_block3_low(y, 1) == m.pop_pair(p)) by {
        reveal(Machine::exec_block3_low);
    }
    reveal(Machine::pop_pair);
    lemma_pop(m);
    let (n, v) = m.pop16();
    let c = Cpu { sp: n.cpu.sp, ..m.cpu };
    if p < 3 {
        lemma_pair_left(c, p, v, n.cpu.ticked, m.cpu.f, m.cpu.pc);
        assert(n.cpu.with_pair(p, v) == (Cpu {
            ticked: n.cpu.ticked,
            f: m.cpu.f,
            pc: m.cpu.pc,
            ..c.with_pair(p, v)
        }));
    }
}

/// LD SP,HL (0xF9).
pub proof fn law_load_sp(m: Machine)
    ensures
        ({
            let r = m.exec(0xF9);
            &&& r.cpu.sp == pair(m.cpu, 2)
            &&& r.cpu == (Cpu { sp: r.cpu.sp, ticked: r.cpu.ticked, ..m.cpu })
            &&& r.bus == m.tick().bus
        }),
{
    lemma_block3(m, 7, 1);
    assert(m.exec_block3_low(7, 1) == m.ld_sp_hl()) by {
        reveal(Machine::exec_block3_low);
    }
    lemma_pair_left(m.cpu, 2, 0, 0, 0, 0);
    let n = m.with_cpu(Cpu { sp: m.cpu.pair(2), ..m.cpu });
    lemma_tick(n);
    lemma_same_bus(m, n);
}

/// ADD SP,r8 (0xE8) and LD HL,SP+r8 (0xF8): SP or HL is the signed byte after the
/// opcode away from SP. Z and N are clear; H and C tell the carries of the low
/// bytes' sum.
#[verifier::rlimit(60)]
pub proof fn law_stack_address(m: Machine)
    ensures
        ({
            let r = m.exec(0xE8).cpu;
            let n = next_byte(m);
            &&& r.sp == (m.cpu.sp + signed(n)) % 0x1_0000
            &&& r.pc == (m.cpu.pc + 1) % 0x1_0000
            &&& flags_are(
                r,
                false,
                false,
                m.cpu.sp % 16 + n % 16 >= 16,
                m.cpu.sp % 256 + n >= 256,
            )
            &&& r == (Cpu { sp: r.sp, f: r.f, pc: r.pc, ticked: r.ticked, ..m.cpu })
        }),
        ({
            let r = m.exec(0xF8).cpu;
            let n = next_byte(m);
            &&& pair_left(m.cpu, 2, (m.cpu.sp + signed(n)) % 0x1_0000, r)
            &&& r.pc == (m.cpu.pc + 1) % 0x1_0000
            &&& r.f == m.exec(0xE8).cpu.f
        }),
{
    lemma_block3(m, 5, 0);
    lemma_block3(m, 7, 0);
    assert(m.exec_block3_low(5, 0) == m.add_sp() && m.exec_block3_low(7, 0) == m.ld_hl_sp()) by {
        reveal(Machine::exec_block3_low);
    }
    reveal(Machine::add_sp);
    reveal(Machine::ld_hl_sp);
    lemma_fetch(m);
    let (p, n) = m.fetch8();
    lemma_tick(p);
    lemma_tick(p.tick());
    let t = p.tick().cpu;
    lemma_read_flags(m.cpu.f, false, false, t.sp % 16 + n % 16 > 15, t.sp % 256 + n > 255);
    let w = displaced(t.sp, n);
    assert(w == (m.cpu.sp + signed(n)) % 0x1_0000);
    lemma_pair_left(m.cpu, 2, w, t.ticked, t.sp_flags(n), t.pc);
    assert(m.exec(0xF8).cpu == (Cpu {
        ticked: t.ticked,
        f: t.sp_flags(n),
        pc: t.pc,
        ..m.cpu.with_pair(2, w)
    }));
}

/// The address that a load through a pair uses: BC, DE, and HL twice.
pub open spec fn through(c: Cpu, p: u8) -> int {
    pair(
        c,
        if p < 2 {
            p
        } else {
            2
        },
    )
}

/// LD A,(rr) (0x0A, 0x1A, 0x2A, 0x3A): A holds the byte at BC, DE or HL; the last
/// two then move HL one up and one down.
#[verifier::rlimit(60)]
pub proof fn law_load_through(m: Machine, p: u8)
    requires
        p < 4,
    ensures
        ({
            let r = m.exec((0x0A + 16 * p) as u8);
            &&& r.cpu.a == m.tick().bus.byte(through(m.cpu, p) as u16)
            &&& p < 2 ==> r.cpu == (Cpu { a: r.cpu.a, ticked: r.cpu.ticked, ..m.cpu })
            &&& p >= 2 ==> pair_left(
                Cpu { a: r.cpu.a, ..m.cpu },
                2,
                (pair(m.cpu, 2) + if p == 2 { 1int } else { 0xFFFF }) % 0x1_0000,
                r.cpu,
            ) && r.cpu.f == m.cpu.f && r.cpu.pc == m.cpu.pc
            &&& r.bus == m.tick().bus
        }),
{
    let y = (2 * p + 1) as u8;
    lemma_block0(m, y, 2);
    assert(m.exec_block0(y, 2) == m.ld_a_indirect(p)) by {
        reveal(Machine::exec_block0);
    }
    reveal(Machine::ld_a_indirect);
    lemma_tick(m);
    lemma_pair_left(m.cpu, 0, 0, 0, 0, 0);
    lemma_pair_left(m.cpu, 1, 0, 0, 0, 0);
    lemma_pair_left(m.cpu, 2, 0, 0, 0, 0);
    let a = m.tick().bus.byte(through(m.cpu, p) as u16);
    let c = Cpu { a, ..m.cpu };
    lemma_stepped(c, p, m.tick().cpu.ticked);
}

/// HL one up or down.
proof fn lemma_stepped(c: Cpu, p: u8, t: u32)
    requires
        p < 4,
    ensures
        p >= 2 ==> ({
            let w = ((pair(c, 2) + if p == 2 { 1int } else { 0xFFFF }) % 0x1_0000) as u16;
            &&& pair_left(c, 2, w as int, Cpu { ticked: t, ..c.with_pair(2, w) })
            &&& p == 2 ==> vstd::wrapping::u16_specs::wrapping_add(c.pair(2), 1) == w
            &&& p == 3 ==> vstd::wrapping::u16_specs::wrapping_sub(c.pair(2), 1) == w
        }),
{
    let w = ((pair(c, 2) + if p == 2 {
        1int
    } else {
        0xFFFF
    }) % 0x1_0000) as u16;
    lemma_pair_left(c, 2, w, t, c.f, c.pc);
    assert((Cpu { ticked: t, ..c.with_pair(2, w) }) == (Cpu {
        ticked: t,
        f: c.f,
        pc: c.pc,
        ..c.with_pair(2, w)
    }));
}

/// LD (rr),A (0x02, 0x12, 0x22, 0x32): A goes to memory at BC, DE or HL; the last
/// two then move HL one up and one down.
#[verifier::rlimit(60)]
pub proof fn law_store_through(m: Machine, p: u8)
    requires
        p < 4,
    ensures
        ({
            let r = m.exec((0x02 + 16 * p) as u8);
            &&& r.bus == m.write(through(m.cpu, p) as u16, m.cpu.a).bus
            &&& p < 2 ==> r.cpu == (Cpu { ticked: r.cpu.ticked, ..m.cpu })
            &&& p >= 2 ==> pair_left(
                m.cpu,
                2,
                (pair(m.cpu, 2) + if p == 2 { 1int } else { 0xFFFF }) % 0x1_0000,
                r.cpu,
            ) && r.cpu.f == m.cpu.f && r.cpu.pc == m.cpu.pc
        }),
{
    let y = (2 * p) as u8;
    lemma_block0(m, y, 2);
    assert(m.exec_block0(y, 2) == m.ld_indirect_a(p)) by {
        reveal(Machine::exec_block0);
    }
    reveal(Machine::ld_indirect_a);
    lemma_pair_left(m.cpu, 0, 0, 0, 0, 0);
    lemma_pair_left(m.cpu, 1, 0, 0, 0, 0);
    lemma_pair_left(m.cpu, 2, 0, 0, 0, 0);
    let at = through(m.cpu, p) as u16;
    lemma_write(m, at, m.cpu.a);
    lemma_stepped(m.cpu, p, m.write(at, m.cpu.a).cpu.ticked);
}

/// The addresses of the loads with an address of their own: 0xFF00 and the byte
/// after the opcode, 0xFF00 and C, or the word after the opcode.
pub open spec fn far(m: Machine, kind: u8) -> int {
    if kind == 0 {
        0xFF00 + next_byte(m)
    } else if kind == 1 {
        0xFF00 + m.cpu.c
    } else {
        next_word(m)
    }
}

/// The machine once such an address is known.
pub open spec fn past_far(m: Machine, kind: u8) -> Machine {
    if kind == 0 {
        past_byte(m)
    } else if kind == 1 {
        m
    } else {
        past_word(m)
    }
}

proof fn lemma_far(m: Machine, kind: u8)
    requires
        kind < 3,
    ensures
        m.far_address(kind).0 == past_far(m, kind),
        m.far_address(kind).1 == far(m, kind),
        past_far(m, kind).cpu == (Cpu {
            pc: past_far(m, kind).cpu.pc,
            ticked: past_far(m, kind).cpu.ticked,
            ..m.cpu
        }),
{
    lemma_fetch(m);
}

/// The opcode of a load with an address of its own, to memory or to A.
pub open spec fn far_opcode(kind: u8, to_a: bool) -> u8 {
    if kind == 0 {
        if to_a {
            0xF0
        } else {
            0xE0
        }
    } else if kind == 1 {
        if to_a {
            0xF2
        } else {
            0xE2
        }
    } else if to_a {
        0xFA
    } else {
        0xEA
    }
}

/// LDH (a8),A, LD (C),A and LD (a16),A (0xE0, 0xE2, 0xEA) write A to their address,
/// and LDH A,(a8), LD A,(C) and LD A,(a16) (0xF0, 0xF2, 0xFA) read it from there.
#[verifier::rlimit(60)]
pub proof fn law_far_loads(m: Machine, kind: u8)
    requires
        kind < 3,
    ensures
        ({
            let r = m.exec(far_opcode(kind, false));
            let n = past_far(m, kind);
            &&& r.bus == n.write(far(m, kind) as u16, m.cpu.a).bus
            &&& r.cpu == (Cpu { ticked: r.cpu.ticked, ..n.cpu })
        }),
        ({
            let r = m.exec(far_opcode(kind, true));
            let n = past_far(m, kind);
            &&& r.cpu == (Cpu {
                a: n.tick().bus.byte(far(m, kind) as u16),
                ticked: r.cpu.ticked,
                ..n.cpu
            })
            &&& r.bus == n.tick().bus
        }),
{
    let z: u8 = if kind == 0 {
        0
    } else {
        2
    };
    let y: u8 = if kind == 2 {
        5
    } else {
        4
    };
    lemma_block3(m, y, z);
    lemma_block3(m, (y + 2) as u8, z);
    assert(m.exec_block3_low(y, z) == m.ld_far_a(kind) && m.exec_block3_low((y + 2) as u8, z)
        == m.ld_a_far(kind)) by {
        reveal(Machine::exec_block3_low);
    }
    reveal(Machine::ld_far_a);
    reveal(Machine::ld_a_far);
    lemma_far(m, kind);
    let n = past_far(m, kind);
    lemma_write(n, far(m, kind) as u16, m.cpu.a);
    lemma_tick(n);
}

/// LD (a16),SP (0x08): the low byte of SP goes to the address after the opcode and
/// the high byte to the next one.
pub proof fn law_store_sp(m: Machine)
    ensures
        ({
            let r = m.exec(0x08);
            let n = past_word(m);
            let (a, b) = (next_word(m), (next_word(m) + 1) % 0x1_0000);
            &&& r.bus == n.write(a as u16, (m.cpu.sp % 256) as u8).write(
                b as u16,
                (m.cpu.sp / 256) as u8,
            ).bus
            &&& r.cpu == (Cpu { ticked: r.cpu.ticked, ..n.cpu })
        }),
{
    lemma_block0(m, 1, 0);
    assert(m.exec_block0(1, 0) == m.ld_a16_sp()) by {
        reveal(Machine::exec_block0);
    }
    reveal(Machine::ld_a16_sp);
    lemma_fetch(m);
    let n = past_word(m);
    let a = m.fetch16().1;
    let lo = (m.cpu.sp % 256) as u8;
    lemma_write(n, a, lo);
    lemma_write(n.write(a, lo), ((a + 1) % 0x1_0000) as u16, (m.cpu.sp / 256) as u8);
}

/// RLCA, RRCA, RLA and RRA (0x07, 0x0F, 0x17, 0x1F) turn A as the prefixed
/// instructions do, but always clear Z.
pub proof fn law_rotate_accumulator(m: Machine, y: u8)
    requires
        y < 4,
    ensures
        exists|k: bool| #[trigger]
            turns(y, m.cpu.a, carry_set(m.cpu), m.exec((8 * y + 7) as u8).cpu.a, k) && flags_are(
                m.exec((8 * y + 7) as u8).cpu,
                false,
                false,
                false,
                k,
            ),
        ({
            let r = m.exec((8 * y + 7) as u8);
            r.bus == m.bus && r.cpu == (Cpu { a: r.cpu.a, f: r.cpu.f, ..m.cpu })
        }),
{
    lemma_block0(m, y, 7);
    assert(m.exec_block0(y, 7) == m.with_cpu(m.cpu.after_acc(y))) by {
        reveal(Machine::exec_block0);
    }
    reveal(Cpu::after_acc);
    let (v, k) = rotated(y, m.cpu.a, m.cpu.flag_c());
    lemma_turns(y, m.cpu.a, m.cpu.flag_c());
    lemma_read_flags(m.cpu.f, false, false, false, k);
    assert(turns(y, m.cpu.a, carry_set(m.cpu), m.exec((8 * y + 7) as u8).cpu.a, k));
}

/// CPL (0x2F) inverts every bit of A and sets N and H.
pub proof fn law_complement(m: Machine)
    ensures
        ({
            let r = m.exec(0x2F);
            &&& forall|i: int| 0 <= i < 8 ==> #[trigger] bit8(r.cpu.a, i) == !bit8(m.cpu.a, i)
            &&& flags_are(r.cpu, m.cpu.f & 0x80 != 0, true, true, m.cpu.f & 0x10 != 0)
            &&& r.bus == m.bus
            &&& r.cpu == (Cpu { a: r.cpu.a, f: r.cpu.f, ..m.cpu })
        }),
{
    lemma_block0(m, 5, 7);
    assert(m.exec_block0(5, 7) == m.with_cpu(m.cpu.after_acc(5))) by {
        reveal(Machine::exec_block0);
    }
    reveal(Cpu::after_acc);
    lemma_bits8(m.cpu.a, 0, 0);
    lemma_read_flag(m.cpu.f, 0x40, true);
    lemma_read_flag(with_flag(m.cpu.f, 0x40, true), 0x20, true);
}

/// SCF (0x37) sets C and CCF (0x3F) inverts it; both clear N and H and keep Z.
pub proof fn law_carry_flag(m: Machine)
    ensures
        ({
            let r = m.exec(0x37);
            &&& flags_are(r.cpu, m.cpu.f & 0x80 != 0, false, false, true)
            &&& r.bus == m.bus
            &&& r.cpu == (Cpu { f: r.cpu.f, ..m.cpu })
        }),
        ({
            let r = m.exec(0x3F);
            &&& flags_are(r.cpu, m.cpu.f & 0x80 != 0, false, false, m.cpu.f & 0x10 == 0)
            &&& r.bus == m.bus
            &&& r.cpu == (Cpu { f: r.cpu.f, ..m.cpu })
        }),
{
    lemma_block0(m, 6, 7);
    lemma_block0(m, 7, 7);
    assert(m.exec_block0(6, 7) == m.with_cpu(m.cpu.after_acc(6)) && m.exec_block0(7, 7)
        == m.with_cpu(m.cpu.after_acc(7))) by {
        reveal(Machine::exec_block0);
    }
    reveal(Cpu::after_acc);
    let c = !m.cpu.flag_c();
    let (f, g) = (with_flag(m.cpu.f, 0x10, true), with_flag(m.cpu.f, 0x10, c));
    lemma_read_flag(m.cpu.f, 0x10, true);
    lemma_read_flag(f, 0x40, false);
    lemma_read_flag(with_flag(f, 0x40, false), 0x20, false);
    lemma_read_flag(m.cpu.f, 0x10, c);
    lemma_read_flag(g, 0x40, false);
    lemma_read_flag(with_flag(g, 0x40, false), 0x20, false);
}

/// NOP does nothing; DI (0xF3) disables interrupts at once, EI (0xFB) after the
/// next instruction; HALT (0x76) waits unless an interrupt is due that is not
/// enabled; STOP (0x10) takes a byte and stops.
#[verifier::rlimit(60)]
pub proof fn law_control(m: Machine)
    ensures
        m.exec(0x00) == m,
        m.exec(0xF3) == m.with_cpu(Cpu { ime: false, ei_pending: false, ..m.cpu }),
        m.exec(0xFB) == m.with_cpu(Cpu { ei_pending: true, ..m.cpu }),
        m.cpu.ime || m.cpu.ei_pending ==> m.exec(0x76) == m.with_cpu(
            Cpu { halted: true, ..m.cpu },
        ),
        m.exec(0x76).cpu.halted || m.exec(0x76).cpu.halt_bug,
        ({
            let n = past_byte(m);
            m.exec(0x10) == n.with_cpu(Cpu { stopped: true, ..n.cpu })
        }),
{
    lemma_block0(m, 0, 0);
    lemma_block0(m, 2, 0);
    lemma_block3(m, 6, 3);
    lemma_block3(m, 7, 3);
    lemma_fetch(m);
    assert(m.exec(0x76) == m.halt()) by {
        reveal(Machine::exec);
    }
    reveal(Machine::exec_block0);
    reveal(Machine::exec_block3_low);
    reveal(Machine::stop);
}

/// Of the interrupts that are requested and enabled, the one with the lowest bit
/// is served: PC is its vector, 0x40 for VBlank and eight more for each bit, and
/// its request alone is cleared.
#[verifier::rlimit(60)]
pub proof fn law_interrupt_priority(m: Machine, pending: u8, n: u8)
    requires
        n < 5,
        bit8(pending, n as int),
        forall|i: int| 0 <= i < n ==> !#[trigger] bit8(pending, i),
    ensures
        ({
            let r = m.vectored(pending);
            &&& r.cpu.pc == 0x40 + 8 * n
            &&& forall|i: int|
                0 <= i < 8 ==> #[trigger] bit8(r.bus.io[0x0F], i) == (i != n && bit8(
                    m.bus.io[0x0F],
                    i,
                ))
            &&& forall|k: int| 0 <= k < 0x80 && k != 0x0F ==> r.bus.io[k] == m.bus.io[k]
        }),
{
    reveal(bit8);
    lemma_byte_fields(pending, 0);
    assert(pending != 0);
    if n == 0 {
        assert(bit8(pending, 0));
    } else {
        assert(!bit8(pending, 0));
    }
    if n > 1 {
        assert(!bit8(pending, 1));
    }
    if n > 2 {
        assert(!bit8(pending, 2));
    }
    if n > 3 {
        assert(!bit8(pending, 3));
    }
    assert(Machine::first_pending(pending) == n);
    lemma_bits8(m.bus.io[0x0F], 0, n);
}

} // verus!
