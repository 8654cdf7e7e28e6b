//! What the Thumb instructions do, told by the values they read and leave.

use crate::bits::put;
use crate::gba::cpu::arm;
use crate::gba::cpu::isa::{
    carries, carry_in, flags_are, lemma_fields, lemma_flagged, lemma_operation, makes, overflows,
    reads,
};
use crate::gba::cpu::thumb;
use crate::gba::cpu::transfers::{
    later, law_shifter, lemma_exchanged, lemma_sets, sets, shifts, times,
};
use crate::gba::cpu::{Bus, Core, Cpu};
use vstd::prelude::*;

verus! {

/// The fields of a Thumb instruction by shifts and masks, and by division.
proof fn lemma_thumb_fields(x: u32)
    by (bit_vector)
    requires
        x < 0x1_0000,
    ensures
        (x >> 11) & 0x1F == x / 0x800,
        (x >> 3) & 7 == x / 8 % 8,
        x & 7 == x % 8,
        (x >> 6) & 7 == x / 64 % 8,
        (x >> 6) & 0x1F == x / 64 % 32,
        (x >> 11) & 3 == x / 0x800 % 4,
        (x >> 8) & 7 == x / 256 % 8,
        (x >> 8) & 3 == x / 256 % 4,
        (x >> 6) & 0xF == x / 64 % 16,
        (x >> 8) & 0xF == x / 256 % 16,
        x & 0xFF == x % 256,
        (x & 0xFF) << 2 == 4 * (x % 256),
        (x & 0x7F) << 2 == 4 * (x % 128),
        ((x >> 6) & 0x1F) << 2 == 4 * (x / 64 % 32),
        ((x >> 6) & 0x1F) << 1 == 2 * (x / 64 % 32),
        (x & 0x7FF) << 1 == 2 * (x % 0x800),
        (x & 0x40 != 0) == (x / 0x40 % 2 == 1),
        (x & 0x80 != 0) == (x / 0x80 % 2 == 1),
        (x & 0xC0 != 0) == (x / 0x40 % 4 != 0),
        (x & 0x100 != 0) == (x / 0x100 % 2 == 1),
        (x & 0x200 != 0) == (x / 0x200 % 2 == 1),
        (x & 0x400 != 0) == (x / 0x400 % 2 == 1),
        (x & 0x800 != 0) == (x / 0x800 % 2 == 1),
        (x & 0xFF00 == 0xDF00) == (x / 0x100 == 0xDF),
        x & 0x400 != 0 ==> ((x & 0x7FF) | 0xFFFF_F800) << 1 == 0xFFFF_F000 + 2 * (x % 0x800),
        x & 0x400 != 0 ==> ((x & 0x7FF) | 0xFFFF_F800) << 12 == 0xFF80_0000 + 0x1000 * (x % 0x800),
        x & 0x400 == 0 ==> (x & 0x7FF) << 12 == 0x1000 * (x % 0x800),
        x < 128 ==> x << 1 == 2 * x,
        128 <= x && x < 256 ==> ((x + 0xFFFF_FF00) as u32) << 1 == 2 * x + 0xFFFF_FE00,

{
}

/// Whether `r` is `c` with the flags N and Z of `v`, C and V as given and, if
/// `writes`, `v` in register `rd`.
#[verifier::opaque]
pub open spec fn computed(c: Cpu, writes: bool, rd: int, v: u32, k: bool, o: bool, r: Cpu) -> bool {
    &&& flags_are(r.cpsr, v >= 0x8000_0000, v == 0, k, o)
    &&& r.cpsr & 0x0FFF_FFFF == c.cpsr & 0x0FFF_FFFF
    &&& r == (Cpu {
        regs: if writes {
            put(c.regs, rd, v)
        } else {
            c.regs
        },
        cpsr: r.cpsr,
        cycles: r.cycles,
        ..c
    })
}

proof fn lemma_computed(c: Cpu, writes: bool, rd: u32, v: u32, k: bool, o: bool)
    requires
        rd < 15,
    ensures
        computed(
            c,
            writes,
            rd as int,
            v,
            k,
            o,
            thumb::with_flags(
                if writes {
                    c.with_value(rd, v)
                } else {
                    c
                },
                v,
                k,
                o,
            ).with_cycles(1),
        ),
{
    reveal(computed);
    lemma_flagged(c.cpsr, v, k, o);
}

/// Whether V is set.
pub open spec fn overflow_set(c: Cpu) -> bool {
    c.cpsr & 0x1000_0000 != 0
}

/// Whether C is set.
pub open spec fn carry_set(c: Cpu) -> bool {
    c.cpsr & 0x2000_0000 != 0
}

/// LSL, LSR and ASR by five bits of the instruction: the shifter's result and
/// carry; V stays.
#[verifier::rlimit(60)]
pub proof fn law_thumb_shift<B: Bus>(m: Core<B>, inst: u32)
    requires
        inst / 0x800 < 3,
    ensures
        exists|v: u32, k: bool| #[trigger]
            shifts(
                reads(m.cpu, inst as int / 8 % 8),
                inst / 0x800,
                (inst / 64 % 32) as u32,
                carry_set(m.cpu),
                v,
                k,
            ) && computed(
                m.cpu,
                true,
                inst as int % 8,
                v,
                k,
                overflow_set(m.cpu),
                thumb::executed(m, inst).cpu,
            ),
        thumb::executed(m, inst).bus == m.bus,
{
    lemma_thumb_fields(inst);
    assert(thumb::executed(m, inst) == m.with_cpu(thumb::shift_executed(m.cpu, inst))) by {
        reveal(thumb::executed);
    }
    lemma_shift_executed(m.cpu, inst);
    let a = reads(m.cpu, inst as int / 8 % 8);
    let (v, k) = arm::shifted(
        a,
        inst / 0x800,
        (inst / 64 % 32) as u32,
        carry_set(m.cpu),
    );
    assert(inst / 0x800 % 4 == inst / 0x800);
    law_shifter(a, inst / 0x800, (inst / 64 % 32) as u32, carry_set(m.cpu));
    lemma_computed(m.cpu, true, inst % 8, v, k, overflow_set(m.cpu));
}

proof fn lemma_shift_executed(c: Cpu, inst: u32)
    ensures
        ({
            let (v, k) = arm::shifted(
                c.value((inst >> 3) & 7),
                (inst >> 11) & 3,
                (inst >> 6) & 0x1F,
                c.carry(),
            );
            thumb::shift_executed(c, inst) == thumb::with_flags(
                c.with_value(inst & 7, v),
                v,
                k,
                c.overflow(),
            ).with_cycles(1)
        }),
{
    reveal(thumb::shift_executed);
}

/// Whether `r` is `c` after the sum (`op` 4) or difference (2) of `a` and `b`, with
/// its flags and, if `writes`, in register `rd`.
#[verifier::opaque]
pub open spec fn sums(c: Cpu, op: int, a: u32, b: u32, writes: bool, rd: int, r: Cpu) -> bool {
    exists|v: u32| #[trigger]
        makes(op, a, b, 0, v) && computed(
            c,
            writes,
            rd,
            v,
            carries(op, a, b, 0, false),
            overflows(op, a, b, 0),
            r,
        )
}

/// The sums and differences as operations of data processing.
proof fn lemma_pair(op: u32, a: u32, b: u32)
    requires
        op == 2 || op == 4,
    ensures
        ({
            let (v, k, o) = arm::operation(op, a, b, false, false);
            &&& makes(op as int, a, b, 0, v)
            &&& k == carries(op as int, a, b, 0, false)
            &&& o == overflows(op as int, a, b, 0)
            &&& op == 2 ==> arm::operation(op, a, b, false, false) == arm::difference_flags(a, b)
            &&& op == 4 ==> arm::operation(op, a, b, false, false) == arm::sum_flags(a, b)
        }),
{
    lemma_operation(op, a, b, false, false, 0);
    reveal(arm::operation);
}

/// What a sum or difference is with its flags.
spec fn pair_flags(minus: bool, a: u32, b: u32) -> (u32, bool, bool) {
    if minus {
        arm::difference_flags(a, b)
    } else {
        arm::sum_flags(a, b)
    }
}

proof fn lemma_sums(c: Cpu, minus: bool, a: u32, b: u32, writes: bool, rd: u32)
    requires
        rd < 15,
    ensures
        ({
            let (v, k, o) = pair_flags(minus, a, b);
            sums(
                c,
                if minus {
                    2
                } else {
                    4
                },
                a,
                b,
                writes,
                rd as int,
                thumb::with_flags(
                    if writes {
                        c.with_value(rd, v)
                    } else {
                        c
                    },
                    v,
                    k,
                    o,
                ).with_cycles(1),
            )
        }),
{
    let op: u32 = if minus {
        2
    } else {
        4
    };
    lemma_pair(op, a, b);
    let (v, k, o) = pair_flags(minus, a, b);
    lemma_computed(c, writes, rd, v, k, o);
    assert(makes(op as int, a, b, 0, v));
    reveal(sums);
}

proof fn lemma_add_sub_executed(c: Cpu, inst: u32)
    ensures
        ({
            let b = if inst & 0x400 != 0 {
                (inst >> 6) & 7
            } else {
                c.value((inst >> 6) & 7)
            };
            let (v, k, o) = pair_flags(inst & 0x200 != 0, c.value((inst >> 3) & 7), b);
            thumb::add_sub_executed(c, inst) == thumb::with_flags(
                c.with_value(inst & 7, v),
                v,
                k,
                o,
            ).with_cycles(1)
        }),
{
    reveal(thumb::add_sub_executed);
}

/// ADD and SUB of a register and a register or three bits of the instruction.
#[verifier::rlimit(60)]
pub proof fn law_thumb_add_sub<B: Bus>(m: Core<B>, inst: u32)
    requires
        inst / 0x800 == 3,
    ensures
        sums(
            m.cpu,
            if inst / 0x200 % 2 == 1 {
                2
            } else {
                4
            },
            reads(m.cpu, inst as int / 8 % 8),
            if inst / 0x400 % 2 == 1 {
                (inst / 64 % 8) as u32
            } else {
                reads(m.cpu, inst as int / 64 % 8)
            },
            true,
            inst as int % 8,
            thumb::executed(m, inst).cpu,
        ),
        thumb::executed(m, inst).bus == m.bus,
{
    assert((inst >> 3) & 7 == inst / 8 % 8 && inst & 7 == inst % 8 && (inst >> 6) & 7 == inst / 64
        % 8 && (inst & 0x400 != 0) == (inst / 0x400 % 2 == 1) && (inst & 0x200 != 0) == (inst
        / 0x200 % 2 == 1) && (inst >> 11) & 0x1F == 3) by {
        lemma_thumb_fields(inst);
    }
    assert(thumb::executed(m, inst) == m.with_cpu(thumb::add_sub_executed(m.cpu, inst))) by {
        reveal(thumb::executed);
    }
    lemma_add_sub_executed(m.cpu, inst);
    let a = m.cpu.value((inst >> 3) & 7);
    let b = if inst & 0x400 != 0 {
        (inst >> 6) & 7
    } else {
        m.cpu.value((inst >> 6) & 7)
    };
    lemma_sums(m.cpu, inst & 0x200 != 0, a, b, true, inst & 7);
}

proof fn lemma_immediate_executed(c: Cpu, inst: u32, which: u32, rd: u32, b: u32)
    requires
        which == (inst >> 11) & 3,
        rd == (inst >> 8) & 7,
        b == inst & 0xFF,
    ensures
        which == 0 ==> thumb::immediate_executed(c, inst) == thumb::with_flags(
            c.with_value(rd, b),
            b,
            c.carry(),
            c.overflow(),
        ).with_cycles(1),
        which != 0 ==> ({
            let (v, k, o) = pair_flags(which != 2, c.value(rd), b);
            thumb::immediate_executed(c, inst) == thumb::with_flags(
                if which != 1 {
                    c.with_value(rd, v)
                } else {
                    c
                },
                v,
                k,
                o,
            ).with_cycles(1)
        }),
{
    reveal(thumb::immediate_executed);
}

/// MOV, CMP, ADD and SUB of a register and eight bits of the instruction. MOV
/// keeps C and V, and CMP writes nothing.
#[verifier::rlimit(60)]
pub proof fn law_thumb_immediate<B: Bus>(m: Core<B>, inst: u32)
    requires
        4 <= inst / 0x800 < 8,
    ensures
        ({
            let which = inst / 0x800 - 4;
            let rd = inst as int / 256 % 8;
            let b = (inst % 256) as u32;
            let r = thumb::executed(m, inst).cpu;
            if which == 0 {
                computed(m.cpu, true, rd, b, carry_set(m.cpu), overflow_set(m.cpu), r)
            } else {
                sums(
                    m.cpu,
                    if which == 2 {
                        4
                    } else {
                        2
                    },
                    reads(m.cpu, rd),
                    b,
                    which != 1,
                    rd,
                    r,
                )
            }
        }),
        thumb::executed(m, inst).bus == m.bus,
{
    let which = (inst / 0x800 - 4) as u32;
    let rd = (inst >> 8) & 7;
    let b = inst & 0xFF;
    assert(rd == inst / 256 % 8 && b == inst % 256 && (inst >> 11) & 3 == which && 4 <= (inst >> 11)
        & 0x1F < 8) by {
        lemma_thumb_fields(inst);
        assert(inst / 0x800 % 4 == which);
    }
    assert(thumb::executed(m, inst) == m.with_cpu(thumb::immediate_executed(m.cpu, inst))) by {
        reveal(thumb::executed);
    }
    lemma_immediate_executed(m.cpu, inst, which, rd, b);
    if which == 0 {
        lemma_computed(m.cpu, true, rd, b, carry_set(m.cpu), overflow_set(m.cpu));
    } else {
        lemma_sums(m.cpu, which != 2, m.cpu.value(rd), b, which != 1, rd);
    }
}

/// Whether the operation `op` of two low registers makes `v` with the carry `k`
/// and the overflow `o`: AND, EOR, LSL, LSR, ASR, ADC, SBC, ROR, TST, NEG, CMP,
/// CMN, ORR, MUL, BIC, MVN. The logical ones and MUL keep C and V, the shifts V.
#[verifier::opaque]
pub open spec fn alu_makes(op: int, c: Cpu, a: u32, b: u32, v: u32, k: bool, o: bool) -> bool {
    let n = (b % 256) as u32;
    if op == 2 || op == 3 || op == 4 {
        shifts(a, (op - 2) as u32, n, carry_set(c), v, k) && o == overflow_set(c)
    } else if op == 7 {
        shifts(a, 3, n, carry_set(c), v, k) && o == overflow_set(c)
    } else if op == 5 || op == 6 {
        &&& makes(op, a, b, carry_in(c), v)
        &&& k == carries(op, a, b, carry_in(c), false)
        &&& o == overflows(op, a, b, carry_in(c))
    } else if op == 9 {
        makes(2, 0, b, 0, v) && k == (b == 0) && o == overflows(2, 0, b, 0)
    } else if op == 10 {
        makes(2, a, b, 0, v) && k == (a >= b) && o == overflows(2, a, b, 0)
    } else if op == 11 {
        makes(4, a, b, 0, v) && k == carries(4, a, b, 0, false) && o == overflows(4, a, b, 0)
    } else if op == 13 {
        v == times(a, b) % 0x1_0000_0000 && k == carry_set(c) && o == overflow_set(c)
    } else {
        makes(op, a, b, 0, v) && k == carry_set(c) && o == overflow_set(c)
    }
}

proof fn lemma_alu_logical(op: u32, c: Cpu, a: u32, b: u32)
    requires
        op == 0 || op == 1 || op == 8 || op == 12 || op == 14 || op == 15,
    ensures
        ({
            let (v, k, o) = thumb::alu_result(op, a, b, c.carry(), c.overflow());
            alu_makes(op as int, c, a, b, v, k, o)
        }),
{
    reveal(thumb::alu_result);
    reveal(alu_makes);
    lemma_operation(op, a, b, false, false, 0);
    reveal(arm::operation);
}

proof fn lemma_alu_arithmetic(op: u32, c: Cpu, a: u32, b: u32)
    requires
        op == 5 || op == 6 || op == 9 || op == 10 || op == 11 || op == 13,
    ensures
        ({
            let (v, k, o) = thumb::alu_result(op, a, b, c.carry(), c.overflow());
            alu_makes(op as int, c, a, b, v, k, o)
        }),
{
    reveal(thumb::alu_result);
    reveal(alu_makes);
    if op == 5 || op == 6 {
        lemma_operation(op, a, b, false, c.carry(), carry_in(c));
        reveal(arm::operation);
    } else if op == 9 {
        lemma_pair(2, 0, b);
    } else if op == 10 {
        lemma_pair(2, a, b);
    } else if op == 11 {
        lemma_pair(4, a, b);
    } else {
        reveal(times);
    }
}

proof fn lemma_alu_shift(op: u32, c: Cpu, a: u32, b: u32)
    requires
        2 <= op <= 4 || op == 7,
    ensures
        ({
            let (v, k, o) = thumb::alu_result(op, a, b, c.carry(), c.overflow());
            alu_makes(op as int, c, a, b, v, k, o)
        }),
{
    lemma_fields(b);
    let t: u32 = if op == 7 {
        3
    } else {
        (op - 2) as u32
    };
    law_shifter(a, t, (b % 256) as u32, c.carry());
    reveal(thumb::alu_result);
    reveal(alu_makes);
}

/// The operations of two low registers leave what their relations say in the
/// first, but for TST, CMP and CMN, which set the flags alone.
#[verifier::rlimit(60)]
pub proof fn law_thumb_alu<B: Bus>(m: Core<B>, inst: u32)
    requires
        inst / 0x400 == 0x10,
    ensures
        ({
            let op = inst as int / 64 % 16;
            let a = reads(m.cpu, inst as int % 8);
            let b = reads(m.cpu, inst as int / 8 % 8);
            exists|v: u32, k: bool, o: bool| #[trigger]
                alu_makes(op, m.cpu, a, b, v, k, o) && computed(
                    m.cpu,
                    op != 8 && op != 10 && op != 11,
                    inst as int % 8,
                    v,
                    k,
                    o,
                    thumb::executed(m, inst).cpu,
                )
        }),
        thumb::executed(m, inst).bus == m.bus,
{
    lemma_thumb_fields(inst);
    assert(inst / 0x800 == 8 && inst / 0x400 % 2 == 0);
    assert(thumb::executed(m, inst) == m.with_cpu(thumb::alu_executed(m.cpu, inst))) by {
        reveal(thumb::executed);
    }
    let op = (inst / 64 % 16) as u32;
    let a = reads(m.cpu, inst as int % 8);
    let b = reads(m.cpu, inst as int / 8 % 8);
    if op == 0 || op == 1 || op == 8 || op == 12 || op == 14 || op == 15 {
        lemma_alu_logical(op, m.cpu, a, b);
    } else if 2 <= op <= 4 || op == 7 {
        lemma_alu_shift(op, m.cpu, a, b);
    } else {
        lemma_alu_arithmetic(op, m.cpu, a, b);
    }
    let (v, k, o) = thumb::alu_result(op, a, b, m.cpu.carry(), m.cpu.overflow());
    lemma_computed(m.cpu, op != 8 && op != 10 && op != 11, (inst % 8) as u32, v, k, o);
    reveal(thumb::alu_executed);
    assert(alu_makes(op as int, m.cpu, a, b, v, k, o));
}

proof fn lemma_hi_executed(c: Cpu, inst: u32, dst: u32, src: u32)
    requires
        inst & 0xC0 != 0,
        src == ((inst >> 3) & 7) + (if inst & 0x40 != 0 {
            8int
        } else {
            0
        }),
        dst == (inst & 7) + (if inst & 0x80 != 0 {
            8int
        } else {
            0
        }),
    ensures
        ({
            let op = (inst >> 8) & 3;
            let a = c.value(dst);
            let b = c.value(src);
            let (v, k, o) = pair_flags(true, a, b);
            thumb::hi_executed(c, inst) == if op == 3 {
                c.exchanged(b).with_cycles(3)
            } else if op == 0 {
                c.with_value(dst, pair_flags(false, a, b).0).with_cycles(1)
            } else if op == 1 {
                thumb::with_flags(c, v, k, o).with_cycles(1)
            } else {
                c.with_value(dst, b).with_cycles(1)
            }
        }),
{
    reveal(thumb::hi_executed);
}

/// Whether `r` is `c` after ADD (`op` 0), CMP, MOV or BX with a high register: ADD
/// and MOV leave the flags, and BX goes to the register's value in the state that
/// its bit 0 selects.
#[verifier::opaque]
pub open spec fn high_done(c: Cpu, op: int, dst: int, b: u32, r: Cpu) -> bool {
    let a = reads(c, dst);
    if op == 0 {
        later(sets(c, dst, (a + b) % 0x1_0000_0000), r)
    } else if op == 1 {
        sums(c, 2, a, b, false, 0, r)
    } else if op == 2 {
        later(sets(c, dst, b as int), r)
    } else {
        &&& (r.cpsr & 0x20 != 0) == (b % 2 == 1)
        &&& r.pc == if b % 2 == 1 {
            b / 2 * 2
        } else {
            b / 4 * 4
        }
        &&& r.regs == c.regs
    }
}

proof fn lemma_high_done(c: Cpu, op: u32, dst: u32, b: u32)
    requires
        op < 4,
        dst < 16,
    ensures
        ({
            let a = c.value(dst);
            let (v, k, o) = pair_flags(true, a, b);
            high_done(
                c,
                op as int,
                dst as int,
                b,
                if op == 3 {
                    c.exchanged(b).with_cycles(3)
                } else if op == 0 {
                    c.with_value(dst, pair_flags(false, a, b).0).with_cycles(1)
                } else if op == 1 {
                    thumb::with_flags(c, v, k, o).with_cycles(1)
                } else {
                    c.with_value(dst, b).with_cycles(1)
                },
            )
        }),
{
    reveal(high_done);
    let a = c.value(dst);
    if op == 0 {
        lemma_sets(c, dst, pair_flags(false, a, b).0);
    } else if op == 1 {
        lemma_sets(c, dst, 0);
        lemma_sums(c, true, a, b, false, 0);
    } else if op == 2 {
        lemma_sets(c, dst, b);
    } else {
        lemma_exchanged(c, b);
    }
}

/// ADD, CMP, MOV and BX with a high register.
#[verifier::rlimit(60)]
pub proof fn law_thumb_high<B: Bus>(m: Core<B>, inst: u32)
    requires
        inst / 0x400 == 0x11,
        inst / 0x40 % 4 != 0,
    ensures
        high_done(
            m.cpu,
            inst as int / 256 % 4,
            inst as int % 8 + 8 * (inst / 128 % 2),
            reads(m.cpu, inst as int / 8 % 16),
            thumb::executed(m, inst).cpu,
        ),
        thumb::executed(m, inst).bus == m.bus,
{
    let src = (inst / 8 % 16) as u32;
    let dst = (inst % 8 + 8 * (inst / 128 % 2)) as u32;
    assert((inst >> 11) & 0x1F == 8 && inst & 0x400 != 0 && inst & 0xC0 != 0 && (inst >> 3) & 7
        == inst / 8 % 8 && inst & 7 == inst % 8 && (inst >> 8) & 3 == inst / 256 % 4 && (inst & 0x40
        != 0) == (inst / 0x40 % 2 == 1) && (inst & 0x80 != 0) == (inst / 0x80 % 2 == 1)) by {
        lemma_thumb_fields(inst);
    }
    assert(src == inst / 8 % 8 + 8 * (inst / 0x40 % 2)) by {
        assert(inst / 8 / 8 == inst / 0x40);
    }
    assert(thumb::executed(m, inst) == m.with_cpu(thumb::hi_executed(m.cpu, inst))) by {
        reveal(thumb::executed);
    }
    lemma_hi_executed(m.cpu, inst, dst, src);
    lemma_high_done(m.cpu, (inst >> 8) & 3, dst, m.cpu.value(src));
    lemma_sets(m.cpu, src, 0);
}

/// Whether `r` is `m` after register `rd` was stored at `at`, or loaded from
/// there: a word, a halfword or a byte.
#[verifier::opaque]
pub open spec fn moves<B: Bus>(
    m: Core<B>,
    load: bool,
    at: int,
    rd: int,
    width: int,
    r: Core<B>,
) -> bool {
    let (bus, v) = if width == 4 {
        m.bus.after_read32(at as u32)
    } else if width == 2 {
        m.bus.after_read16(at as u32)
    } else {
        m.bus.after_read8(at as u32)
    };
    &&& load ==> r.bus == bus && later(
        Cpu { regs: put(m.cpu.regs, rd, v), ..m.cpu },
        r.cpu,
    )
    &&& !load ==> later(m.cpu, r.cpu) && r.bus == if width == 4 {
        m.bus.after_write32(at as u32, m.cpu.regs[rd])
    } else if width == 2 {
        m.bus.after_write16(at as u32, m.cpu.regs[rd])
    } else {
        m.bus.after_write8(at as u32, m.cpu.regs[rd])
    }
}

proof fn lemma_moves<B: Bus>(m: Core<B>, load: bool, at: u32, rd: u32, width: u32)
    requires
        rd < 15,
        width == 1 || width == 2 || width == 4,
    ensures
        moves(
            m,
            load,
            at as int,
            rd as int,
            width as int,
            thumb::transferred(m, load, at, rd, width),
        ),
{
    reveal(moves);
}

/// LDR from the words after the instruction: eight bits of it count words from
/// r15, rounded down to a word.
#[verifier::rlimit(60)]
pub proof fn law_thumb_literal<B: Bus>(m: Core<B>, inst: u32)
    requires
        inst / 0x800 == 9,
    ensures
        moves(
            m,
            true,
            ((m.cpu.pc + 2) % 0x1_0000_0000 / 4 * 4 + 4 * (inst % 256)) % 0x1_0000_0000,
            inst as int / 256 % 8,
            4,
            thumb::executed(m, inst),
        ),
{
    assert((inst >> 11) & 0x1F == 9 && (inst >> 8) & 7 == inst / 256 % 8 && (inst & 0xFF) << 2 == 4
        * (inst % 256)) by {
        lemma_thumb_fields(inst);
    }
    assert(thumb::executed(m, inst) == thumb::imm_transferred(m, inst, 9)) by {
        reveal(thumb::executed);
    }
    let pc = vstd::wrapping::u32_specs::wrapping_add(m.cpu.pc, 2);
    assert(pc & !3u32 == pc / 4 * 4) by {
        lemma_fields(pc);
    }
    let at = vstd::wrapping::u32_specs::wrapping_add(
        thumb::aligned_pc(m.cpu),
        (inst & 0xFF) << 2,
    );
    assert(at == ((m.cpu.pc + 2) % 0x1_0000_0000 / 4 * 4 + 4 * (inst % 256)) % 0x1_0000_0000);
    let rd = (inst >> 8) & 7;
    assert(thumb::imm_transferred(m, inst, 9) == thumb::transferred(m, true, at, rd, 4)) by {
        reveal(thumb::imm_transferred);
    }
    lemma_moves(m, true, at, rd, 4);
}

/// The width and the address of a transfer with an offset of `n` from `base`, or of
/// `w` words from the stack pointer.
pub open spec fn place_of(top: u32, base: u32, n: int, sp: u32, w: int) -> (int, int) {
    if top < 14 {
        (4, (base + 4 * n) % 0x1_0000_0000)
    } else if top < 16 {
        (1, (base + n) % 0x1_0000_0000)
    } else if top < 18 {
        (2, (base + 2 * n) % 0x1_0000_0000)
    } else {
        (4, (sp + 4 * w) % 0x1_0000_0000)
    }
}

/// The width and the address of a transfer with an offset.
pub open spec fn offset_place(c: Cpu, inst: u32) -> (int, int) {
    place_of(
        inst / 0x800,
        c.regs[inst as int / 8 % 8],
        inst as int / 64 % 32,
        c.regs[13],
        inst as int % 256,
    )
}

#[verifier::rlimit(60)]
proof fn lemma_imm_transferred<B: Bus>(
    m: Core<B>,
    inst: u32,
    top: u32,
    rd: u32,
    base: u32,
    n: int,
    w: int,
)
    requires
        12 <= top < 20,
        base == m.cpu.value((inst >> 3) & 7),
        (inst >> 6) & 0x1F == n,
        ((inst >> 6) & 0x1F) << 2 == 4 * n,
        ((inst >> 6) & 0x1F) << 1 == 2 * n,
        (inst & 0xFF) << 2 == 4 * w,
        (inst & 0x800 != 0) == (top % 2 == 1),
        rd == if top < 18 {
            inst & 7
        } else {
            (inst >> 8) & 7
        },
    ensures
        thumb::imm_transferred(m, inst, top) == thumb::transferred(
            m,
            top % 2 == 1,
            place_of(top, base, n, m.cpu.regs[13], w).1 as u32,
            rd,
            place_of(top, base, n, m.cpu.regs[13], w).0 as u32,
        ),
{
    reveal(thumb::imm_transferred);
    if top < 14 {
        assert(vstd::wrapping::u32_specs::wrapping_add(base, ((inst >> 6) & 0x1F) << 2) == (base + 4
            * n) % 0x1_0000_0000);
    } else if top < 16 {
        assert(vstd::wrapping::u32_specs::wrapping_add(base, (inst >> 6) & 0x1F) == (base + n)
            % 0x1_0000_0000);
    } else if top < 18 {
        assert(vstd::wrapping::u32_specs::wrapping_add(base, ((inst >> 6) & 0x1F) << 1) == (base + 2
            * n) % 0x1_0000_0000);
    } else {
        assert(vstd::wrapping::u32_specs::wrapping_add(m.cpu.regs[13], (inst & 0xFF) << 2) == (
        m.cpu.regs[13] + 4 * w) % 0x1_0000_0000);
    }
}

/// STR, LDR, STRB, LDRB, STRH and LDRH with five bits of the instruction, which
/// count words, bytes or halfwords from a register; STR and LDR with eight bits,
/// which count words from the stack pointer.
#[verifier::rlimit(60)]
pub proof fn law_thumb_offset<B: Bus>(m: Core<B>, inst: u32)
    requires
        12 <= inst / 0x800 < 20,
    ensures
        moves(
            m,
            inst / 0x800 % 2 == 1,
            offset_place(m.cpu, inst).1,
            if inst / 0x800 < 18 {
                inst as int % 8
            } else {
                inst as int / 256 % 8
            },
            offset_place(m.cpu, inst).0,
            thumb::executed(m, inst),
        ),
{
    let top = inst / 0x800;
    let rd = if top < 18 {
        inst & 7
    } else {
        (inst >> 8) & 7
    };
    assert((inst >> 11) & 0x1F == top && rd == if top < 18 {
        inst % 8
    } else {
        inst / 256 % 8
    }) by {
        lemma_thumb_fields(inst);
    }
    assert(thumb::executed(m, inst) == thumb::imm_transferred(m, inst, top)) by {
        reveal(thumb::executed);
    }
    assert(thumb::imm_transferred(m, inst, top) == thumb::transferred(
        m,
        top % 2 == 1,
        offset_place(m.cpu, inst).1 as u32,
        rd,
        offset_place(m.cpu, inst).0 as u32,
    )) by {
        lemma_thumb_fields(inst);
        lemma_imm_transferred(
            m,
            inst,
            top,
            rd,
            m.cpu.regs[inst as int / 8 % 8],
            inst as int / 64 % 32,
            inst as int % 256,
        );
    }
    lemma_moves(
        m,
        top % 2 == 1,
        offset_place(m.cpu, inst).1 as u32,
        rd,
        offset_place(m.cpu, inst).0 as u32,
    );
}

proof fn lemma_which(inst: u32)
    ensures
        ({
            let which = inst / 0x200 % 8;
            &&& (inst / 0x800 % 2 == 1) == (which >= 4)
            &&& (inst / 0x400 % 2 == 1) == (which % 4 >= 2)
            &&& (inst / 0x200 % 2 == 1) == (which % 2 == 1)
        }),
{
    let n = inst / 0x200;
    assert(inst / 0x400 == n / 2 && inst / 0x800 == n / 4);
}

/// Whether `r` is `m` after the transfer number `which` between register `rd` and
/// memory at `at`: STR, STRH, STRB, LDRSB, LDR, LDRH, LDRB, LDRSH.
#[verifier::opaque]
pub open spec fn indexed_done<B: Bus>(m: Core<B>, which: int, at: int, rd: int, r: Core<B>) -> bool {
    if which == 0 || which == 2 || which == 4 || which == 6 {
        moves(
            m,
            which >= 4,
            at,
            rd,
            if which % 4 == 2 {
                1
            } else {
                4
            },
            r,
        )
    } else if which == 1 {
        moves(m, false, at, rd, 2, r)
    } else {
        let sh: u32 = if which == 5 {
            1
        } else if which == 3 {
            2
        } else {
            3
        };
        let (bus, v) = arm::half_loaded(m.bus, at as u32, sh);
        r.bus == bus && later(Cpu { regs: put(m.cpu.regs, rd, v), ..m.cpu }, r.cpu)
    }
}

#[verifier::rlimit(60)]
proof fn lemma_indexed_done<B: Bus>(m: Core<B>, inst: u32, which: int, at: u32, rd: u32)
    requires
        0 <= which < 8,
        (inst & 0x800 != 0) == (which >= 4),
        (inst & 0x400 != 0) == (which % 4 >= 2),
        (inst & 0x200 != 0) == (which % 2 == 1),
        rd == inst & 7,
        rd < 8,
        at == vstd::wrapping::u32_specs::wrapping_add(
            m.cpu.value((inst >> 3) & 7),
            m.cpu.value((inst >> 6) & 7),
        ),
    ensures
        indexed_done(m, which, at as int, rd as int, thumb::reg_transferred(m, inst)),
{
    reveal(thumb::reg_transferred);
    reveal(indexed_done);
    lemma_moves(
        m,
        which >= 4,
        at,
        rd,
        if which % 4 == 2 {
            1
        } else {
            4
        },
    );
    lemma_moves(m, false, at, rd, 2);
}

/// STR, STRB, LDR and LDRB with the sum of two registers as their address, and
/// beside them STRH, LDRH, LDRSB and LDRSH.
#[verifier::rlimit(60)]
pub proof fn law_thumb_indexed<B: Bus>(m: Core<B>, inst: u32)
    requires
        inst / 0x800 == 10 || inst / 0x800 == 11,
    ensures
        indexed_done(
            m,
            inst as int / 0x200 % 8,
            (m.cpu.regs[inst as int / 8 % 8] + m.cpu.regs[inst as int / 64 % 8]) % 0x1_0000_0000,
            inst as int % 8,
            thumb::executed(m, inst),
        ),
{
    let which = inst as int / 0x200 % 8;
    assert(((inst >> 11) & 0x1F == 10 || (inst >> 11) & 0x1F == 11) && (inst >> 3) & 7 == inst / 8
        % 8 && (inst >> 6) & 7 == inst / 64 % 8 && inst & 7 == inst % 8 && (inst & 0x800 != 0) == (
    which >= 4) && (inst & 0x400 != 0) == (which % 4 >= 2) && (inst & 0x200 != 0) == (which % 2
        == 1)) by {
        lemma_thumb_fields(inst);
        lemma_which(inst);
    }
    assert(thumb::executed(m, inst) == thumb::reg_transferred(m, inst)) by {
        reveal(thumb::executed);
    }
    let at = vstd::wrapping::u32_specs::wrapping_add(
        m.cpu.value((inst >> 3) & 7),
        m.cpu.value((inst >> 6) & 7),
    );
    lemma_indexed_done(m, inst, which, at, inst & 7);
}

/// ADD of a word count to r15, rounded down to a word, or to the stack pointer.
#[verifier::rlimit(60)]
pub proof fn law_thumb_address<B: Bus>(m: Core<B>, inst: u32)
    requires
        20 <= inst / 0x800 < 22,
    ensures
        ({
            let base = if inst / 0x800 == 21 {
                m.cpu.regs[13] as int
            } else {
                (m.cpu.pc + 2) % 0x1_0000_0000 / 4 * 4
            };
            let v = (base + 4 * (inst % 256)) % 0x1_0000_0000;
            later(
                Cpu { regs: put(m.cpu.regs, inst as int / 256 % 8, v as u32), ..m.cpu },
                thumb::executed(m, inst).cpu,
            )
        }),
        thumb::executed(m, inst).bus == m.bus,
{
    assert(20 <= (inst >> 11) & 0x1F < 22 && (inst >> 8) & 7 == inst / 256 % 8 && (inst & 0xFF) << 2
        == 4 * (inst % 256) && (inst & 0x800 != 0) == (inst / 0x800 == 21)) by {
        lemma_thumb_fields(inst);
    }
    assert(thumb::executed(m, inst) == m.with_cpu(thumb::address_executed(m.cpu, inst))) by {
        reveal(thumb::executed);
    }
    let pc = vstd::wrapping::u32_specs::wrapping_add(m.cpu.pc, 2);
    assert(pc & !3u32 == pc / 4 * 4) by {
        lemma_fields(pc);
    }
    reveal(thumb::address_executed);
}

/// The stack pointer moved up, or with bit 7 down, by a word count.
#[verifier::rlimit(60)]
pub proof fn law_thumb_stack<B: Bus>(m: Core<B>, inst: u32)
    requires
        inst / 0x400 == 44,
    ensures
        ({
            let n = 4 * (inst as int % 128);
            let v = (m.cpu.regs[13] + (if inst / 128 % 2 == 1 {
                -n
            } else {
                n
            })) % 0x1_0000_0000;
            later(
                Cpu { regs: put(m.cpu.regs, 13, v as u32), ..m.cpu },
                thumb::executed(m, inst).cpu,
            )
        }),
        thumb::executed(m, inst).bus == m.bus,
{
    assert((inst >> 11) & 0x1F == 22 && inst & 0x400 == 0 && (inst & 0x7F) << 2 == 4 * (inst % 128)
        && (inst & 0x80 != 0) == (inst / 0x80 % 2 == 1)) by {
        lemma_thumb_fields(inst);
    }
    assert(thumb::executed(m, inst) == m.with_cpu(thumb::sp_executed(m.cpu, inst))) by {
        reveal(thumb::executed);
    }
    reveal(thumb::sp_executed);
}

/// The signed eight bits of a branch with a condition.
pub open spec fn way8(inst: u32) -> int {
    if inst % 256 >= 128 {
        inst as int % 256 - 256
    } else {
        inst as int % 256
    }
}

/// The signed eleven bits of a branch.
pub open spec fn way11(inst: u32) -> int {
    if inst % 0x800 >= 0x400 {
        inst as int % 0x800 - 0x800
    } else {
        inst as int % 0x800
    }
}

#[verifier::rlimit(60)]
proof fn lemma_way8(inst: u32)
    requires
        inst < 0x1_0000,
    ensures
        arm::extended8(inst & 0xFF) << 1 == (2 * way8(inst)) % 0x1_0000_0000,
{
    let n = inst & 0xFF;
    assert(n == inst % 256) by {
        lemma_thumb_fields(inst);
    }
    if n >= 128 {
        assert(((n + 0xFFFF_FF00) as u32) << 1 == 2 * n + 0xFFFF_FE00) by {
            lemma_thumb_fields(n);
        }
    } else {
        assert(n << 1 == 2 * n) by {
            lemma_thumb_fields(n);
        }
    }
}

#[verifier::rlimit(60)]
proof fn lemma_way11(inst: u32)
    requires
        inst < 0x1_0000,
    ensures
        thumb::offset11(inst) << 1 == (2 * way11(inst)) % 0x1_0000_0000,
        thumb::offset11(inst) << 12 == (0x1000 * way11(inst)) % 0x1_0000_0000,
{
    let k = inst % 0x800;
    assert((inst & 0x400 != 0) == (k >= 0x400)) by {
        lemma_thumb_fields(inst);
        assert((inst / 0x400 % 2 == 1) == (k >= 0x400));
    }
    if k >= 0x400 {
        assert(((inst & 0x7FF) | 0xFFFF_F800) << 1 == 0xFFFF_F000 + 2 * k && ((inst & 0x7FF)
            | 0xFFFF_F800) << 12 == 0xFF80_0000 + 0x1000 * k) by {
            lemma_thumb_fields(inst);
        }
    } else {
        assert((inst & 0x7FF) << 1 == 2 * k && (inst & 0x7FF) << 12 == 0x1000 * k) by {
            lemma_thumb_fields(inst);
        }
    }
}

proof fn lemma_reached(pc: u32, way: int, step: u32)
    requires
        step == way % 0x1_0000_0000,
    ensures
        vstd::wrapping::u32_specs::wrapping_add(
            vstd::wrapping::u32_specs::wrapping_add(pc, 2),
            step,
        ) == (pc + 2 + way) % 0x1_0000_0000,
{
}

/// B with a condition goes twice the signed eight bits of the instruction from
/// r15 if the condition holds.
#[verifier::rlimit(60)]
pub proof fn law_thumb_branch_if<B: Bus>(m: Core<B>, inst: u32)
    requires
        m.cpu.cpsr & 0x20 != 0,
        inst / 0x800 == 26 || inst / 0x800 == 27,
        inst / 0x100 != 0xDF,
    ensures
        later(
            if arm::condition(m.cpu.cpsr, (inst / 256 % 16) as u32) {
                sets(m.cpu, 15, (m.cpu.pc + 2 + 2 * way8(inst)) % 0x1_0000_0000)
            } else {
                m.cpu
            },
            thumb::executed(m, inst).cpu,
        ),
        thumb::executed(m, inst).bus == m.bus,
{
    assert(26 <= (inst >> 11) & 0x1F < 28 && inst & 0xFF00 != 0xDF00 && (inst >> 8) & 0xF == inst
        / 256 % 16) by {
        lemma_thumb_fields(inst);
    }
    assert(thumb::executed(m, inst) == m.with_cpu(thumb::cond_branched(m.cpu, inst))) by {
        reveal(thumb::executed);
    }
    let step = arm::extended8(inst & 0xFF) << 1;
    assert(step == (2 * way8(inst)) % 0x1_0000_0000) by {
        lemma_way8(inst);
    }
    let to = vstd::wrapping::u32_specs::wrapping_add(m.cpu.value(15), step);
    lemma_reached(m.cpu.pc, 2 * way8(inst), step);
    lemma_sets(m.cpu, 15, to);
    assert(thumb::cond_branched(m.cpu, inst) == if arm::condition(m.cpu.cpsr, (inst >> 8) & 0xF) {
        m.cpu.branched(to).with_cycles(2)
    } else {
        m.cpu.with_cycles(1)
    }) by {
        reveal(thumb::cond_branched);
    }
}

/// B goes twice the signed eleven bits of the instruction from r15.
#[verifier::rlimit(60)]
pub proof fn law_thumb_branch<B: Bus>(m: Core<B>, inst: u32)
    requires
        m.cpu.cpsr & 0x20 != 0,
        inst / 0x800 == 28,
    ensures
        later(
            sets(m.cpu, 15, (m.cpu.pc + 2 + 2 * way11(inst)) % 0x1_0000_0000),
            thumb::executed(m, inst).cpu,
        ),
        thumb::executed(m, inst).bus == m.bus,
{
    assert((inst >> 11) & 0x1F == 28) by {
        lemma_thumb_fields(inst);
    }
    assert(thumb::executed(m, inst) == m.with_cpu(thumb::jumped(m.cpu, inst))) by {
        reveal(thumb::executed);
    }
    let step = thumb::offset11(inst) << 1;
    assert(step == (2 * way11(inst)) % 0x1_0000_0000) by {
        lemma_way11(inst);
    }
    let to = vstd::wrapping::u32_specs::wrapping_add(m.cpu.value(15), step);
    lemma_reached(m.cpu.pc, 2 * way11(inst), step);
    lemma_sets(m.cpu, 15, to);
}

/// The first half of BL leaves r15 and the upper half of the way in r14; it goes
/// nowhere.
pub proof fn law_thumb_link_begins<B: Bus>(m: Core<B>, inst: u32)
    requires
        inst / 0x800 == 30,
    ensures
        later(
            Cpu {
                regs: put(
                    m.cpu.regs,
                    14,
                    ((m.cpu.pc + 2 + 0x1000 * way11(inst)) % 0x1_0000_0000) as u32,
                ),
                ..m.cpu
            },
            thumb::executed(m, inst).cpu,
        ),
        thumb::executed(m, inst).bus == m.bus,
{
    assert((inst >> 11) & 0x1F == 30) by {
        lemma_thumb_fields(inst);
    }
    assert(thumb::executed(m, inst) == m.with_cpu(thumb::link_begun(m.cpu, inst))) by {
        reveal(thumb::executed);
    }
    let step = thumb::offset11(inst) << 12;
    assert(step == (0x1000 * way11(inst)) % 0x1_0000_0000) by {
        lemma_way11(inst);
    }
    lemma_reached(m.cpu.pc, 0x1000 * way11(inst), step);
}

/// The second half of BL goes on from r14 by the lower half of the way, and leaves
/// in r14 the address of the instruction after it, with bit 0 set. After the first
/// half this goes twice the signed 22 bits of both from its r15.
pub proof fn law_thumb_link_ends<B: Bus>(m: Core<B>, inst: u32)
    requires
        m.cpu.cpsr & 0x20 != 0,
        inst / 0x800 == 31,
        m.cpu.pc % 2 == 0,
    ensures
        later(
            sets(
                Cpu { regs: put(m.cpu.regs, 14, (m.cpu.pc + 1) as u32), ..m.cpu },
                15,
                (m.cpu.regs[14] + 2 * (inst % 0x800)) % 0x1_0000_0000,
            ),
            thumb::executed(m, inst).cpu,
        ),
        thumb::executed(m, inst).bus == m.bus,
{
    assert((inst >> 11) & 0x1F == 31) by {
        lemma_thumb_fields(inst);
    }
    assert(thumb::executed(m, inst) == m.with_cpu(thumb::link_taken(m.cpu, inst))) by {
        reveal(thumb::executed);
    }
    assert((inst & 0x7FF) << 1 == 2 * (inst % 0x800)) by {
        lemma_thumb_fields(inst);
    }
    lemma_odd(m.cpu.pc);
    let to = vstd::wrapping::u32_specs::wrapping_add(m.cpu.value(14), (inst & 0x7FF) << 1);
    lemma_sets(m.cpu.with_value(14, m.cpu.pc | 1), 15, to);
}

proof fn lemma_odd(pc: u32)
    requires
        pc % 2 == 0,
    ensures
        pc | 1 == pc + 1,
{
    assert(pc | 1 == pc + 1) by (bit_vector)
        requires
            pc % 2 == 0,
    ;
}

/// How many registers a PUSH or POP moves: the low ones listed, and one more with
/// bit 8.
pub open spec fn stack_count(inst: u32) -> nat {
    arm::count_listed((inst % 256) as u32, 8) + if inst / 0x100 % 2 == 1 {
        1nat
    } else {
        0
    }
}

proof fn lemma_count(list: u32, n: nat)
    ensures
        arm::count_listed(list, n) <= n,
    decreases n,
{
    if n > 0 {
        lemma_count(list, (n - 1) as nat);
    }
}

proof fn lemma_stack_size(inst: u32)
    requires
        inst & 0xFF == inst % 256,
        (inst & 0x100 != 0) == (inst / 0x100 % 2 == 1),
    ensures
        thumb::stack_size(inst) == 4 * stack_count(inst),
{
    lemma_count((inst % 256) as u32, 8);
}

/// PUSH: the stack pointer goes down by the words that are pushed, and the listed
/// registers, then r14 with bit 8, lie upwards from it.
pub proof fn law_thumb_push<B: Bus>(m: Core<B>, inst: u32)
    requires
        inst / 0x800 == 22,
        inst / 0x400 % 2 == 1,
    ensures
        ({
            let r = thumb::executed(m, inst);
            let sp = ((m.cpu.regs[13] - 4 * stack_count(inst)) % 0x1_0000_0000) as u32;
            let (bus, at) = arm::block_stored(m, sp, (inst % 256) as u32, false, 8);
            &&& later(Cpu { regs: put(m.cpu.regs, 13, sp), ..m.cpu }, r.cpu)
            &&& r.bus == if inst / 0x100 % 2 == 1 {
                bus.after_write32(at, m.cpu.regs[14])
            } else {
                bus
            }
        }),
{
    assert((inst >> 11) & 0x1F == 22 && inst & 0x400 != 0 && inst & 0xFF == inst % 256 && (inst
        & 0x100 != 0) == (inst / 0x100 % 2 == 1)) by {
        lemma_thumb_fields(inst);
    }
    assert(thumb::executed(m, inst) == thumb::pushed(m, inst)) by {
        reveal(thumb::executed);
    }
    lemma_stack_size(inst);
    reveal(thumb::pushed);
}

/// POP: the listed registers are loaded upwards from the stack pointer, then PC with
/// bit 8, and the stack pointer goes up by the words that were popped.
#[verifier::rlimit(60)]
pub proof fn law_thumb_pop<B: Bus>(m: Core<B>, inst: u32)
    requires
        inst / 0x800 == 23,
        inst / 0x400 % 2 == 1,
    ensures
        ({
            let r = thumb::executed(m, inst);
            let l = arm::block_loaded(m, m.cpu.regs[13], (inst % 256) as u32, false, 8);
            let sp = ((m.cpu.regs[13] + 4 * stack_count(inst)) % 0x1_0000_0000) as u32;
            let c = Cpu { regs: put(l.m.cpu.regs, 13, sp), ..l.m.cpu };
            if inst / 0x100 % 2 == 1 {
                let (bus, v) = l.m.bus.after_read32(l.addr);
                r.bus == bus && later(sets(c, 15, v as int), r.cpu)
            } else {
                r.bus == l.m.bus && later(c, r.cpu)
            }
        }),
{
    assert((inst >> 11) & 0x1F == 23 && inst & 0x400 != 0 && inst & 0xFF == inst % 256 && (inst
        & 0x100 != 0) == (inst / 0x100 % 2 == 1)) by {
        lemma_thumb_fields(inst);
    }
    assert(thumb::executed(m, inst) == thumb::popped(m, inst)) by {
        reveal(thumb::executed);
    }
    lemma_stack_size(inst);
    reveal(thumb::popped);
    let l = arm::block_loaded(m, m.cpu.regs[13], (inst % 256) as u32, false, 8);
    let sp = ((m.cpu.regs[13] + 4 * stack_count(inst)) % 0x1_0000_0000) as u32;
    lemma_sets(l.m.cpu.with_value(13, sp), 15, l.m.bus.after_read32(l.addr).1);
}

/// STMIA and LDMIA: the listed registers are stored or loaded upwards from the
/// base register, which is left past them, unless it was loaded.
#[verifier::rlimit(60)]
pub proof fn law_thumb_multiple<B: Bus>(m: Core<B>, inst: u32)
    requires
        inst / 0x800 == 24 || inst / 0x800 == 25,
    ensures
        ({
            let r = thumb::executed(m, inst);
            let list = (inst % 256) as u32;
            let rb = inst as int / 256 % 8;
            let base = m.cpu.regs[rb];
            let end = ((base + 4 * arm::count_listed(list, 8)) % 0x1_0000_0000) as u32;
            if inst / 0x800 == 25 {
                let l = arm::block_loaded(m, base, list, false, 8).m;
                r.bus == l.bus && later(
                    if arm::listed(list, rb as nat) {
                        l.cpu
                    } else {
                        Cpu { regs: put(l.cpu.regs, rb, end), ..l.cpu }
                    },
                    r.cpu,
                )
            } else {
                r.bus == arm::block_stored(m, base, list, false, 8).0 && later(
                    Cpu { regs: put(m.cpu.regs, rb, end), ..m.cpu },
                    r.cpu,
                )
            }
        }),
{
    assert(24 <= (inst >> 11) & 0x1F < 26 && (inst >> 8) & 7 == inst / 256 % 8 && inst & 0xFF == inst
        % 256 && (inst & 0x800 != 0) == (inst / 0x800 == 25)) by {
        lemma_thumb_fields(inst);
    }
    assert(thumb::executed(m, inst) == thumb::multiple_transferred(m, inst)) by {
        reveal(thumb::executed);
    }
    lemma_count((inst % 256) as u32, 8);
    reveal(thumb::multiple_transferred);
}

} // verus!
