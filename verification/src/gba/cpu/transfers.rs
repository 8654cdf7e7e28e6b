//! What the ARM instructions beside data processing do: the shifter, the
//! conditions, products, loads and stores, branches and the status registers.

use crate::bits::{bit32, put};
use crate::gba::cpu::arm;
use crate::gba::cpu::isa::{
    beyond, flags_are, lemma_classes, lemma_difference, lemma_fields, lemma_flagged, reads, signed,
};
use crate::gba::cpu::{flag, Bus, Core, Cpu};
use vstd::prelude::*;

verus! {

/// Shifts and rotations by `n` at bit `i`, and the bits that fall out. `j` is `n`
/// above `i` or below it, `l` is `32 - n` below it.
proof fn lemma_shift_bits(v: u32, n: u32, q: u32, p: u32, i: u32, j: u32, l: u32)
    by (bit_vector)
    requires
        0 < n < 32,
        n + q == 32,
        p + 1 == n,
        i < 32,
        j < 32,
        l < 32,
    ensures
        j + n == i ==> ((v << n) >> i) & 1 == (v >> j) & 1,
        i < n ==> ((v << n) >> i) & 1 == 0,
        i + n == j ==> ((v >> n) >> i) & 1 == (v >> j) & 1,
        i >= q ==> ((v >> n) >> i) & 1 == 0,
        i + n == j ==> (((v >> n) | (v << q)) >> i) & 1 == (v >> j) & 1,
        l + q == i ==> (((v >> n) | (v << q)) >> i) & 1 == (v >> l) & 1,
        i + n == j ==> (((v >> n) | !(((1u32 << q) - 1) as u32)) >> i) & 1 == (v >> j) & 1,
        i >= q ==> (((v >> n) | !(((1u32 << q) - 1) as u32)) >> i) & 1 == 1,
        i < 31 && j == i + 1 ==> (((v >> 1) | 0x8000_0000) >> i) & 1 == (v >> j) & 1,
        i < 31 && j == i + 1 ==> (((v >> 1) | 0) >> i) & 1 == (v >> j) & 1,
        (((v >> 1) | 0x8000_0000) >> 31) & 1 == 1,
        (((v >> 1) | 0) >> 31) & 1 == 0,
        (v & (1u32 << q) != 0) == ((v >> q) & 1 == 1),
        (v & (1u32 << p) != 0) == ((v >> p) & 1 == 1),
        (v & 1 != 0) == ((v >> 0) & 1 == 1),
        (v >> 31 != 0) == ((v >> 31) & 1 == 1),
        (v & 0x8000_0000 != 0) == ((v >> 31) & 1 == 1),
        (0u32 >> i) & 1 == 0,
        (0xFFFF_FFFFu32 >> i) & 1 == 1,
{
}

/// What the shifter makes of `v` for the type `t` and amount `n`: LSL, LSR, ASR,
/// ROR, bit by bit, and the carry, which is the last bit that fell out. An
/// amount of 0 leaves LSL's operand and the carry `c`, means 32 for LSR and ASR,
/// and turns ROR into a rotation by one through the carry.
#[verifier::opaque]
pub open spec fn shifts(v: u32, t: u32, n: u32, c: bool, r: u32, k: bool) -> bool {
    if t == 0 {
        &&& forall|i: u32|
            i < 32 ==> #[trigger] bit32(r, i) == (i >= n && bit32(v, (i - n) as u32))
        &&& k == if n == 0 {
            c
        } else {
            n <= 32 && bit32(v, (32 - n) as u32)
        }
    } else if t == 1 {
        let m = if n == 0 {
            32
        } else {
            n as int
        };
        &&& forall|i: u32|
            i < 32 ==> #[trigger] bit32(r, i) == (i + m < 32 && bit32(v, (i + m) as u32))
        &&& k == (m <= 32 && bit32(v, (m - 1) as u32))
    } else if t == 2 {
        let m = if n == 0 || n > 32 {
            32
        } else {
            n as int
        };
        &&& forall|i: u32|
            i < 32 ==> #[trigger] bit32(r, i) == bit32(
                v,
                if i + m < 32 {
                    (i + m) as u32
                } else {
                    31
                },
            )
        &&& k == bit32(v, (m - 1) as u32)
    } else if n == 0 {
        &&& forall|i: u32| i < 31 ==> #[trigger] bit32(r, i) == bit32(v, (i + 1) as u32)
        &&& bit32(r, 31) == c
        &&& k == bit32(v, 0)
    } else {
        &&& forall|i: u32| i < 32 ==> #[trigger] bit32(r, i) == bit32(v, ((i + n) % 32) as u32)
        &&& k == bit32(v, ((n + 31) % 32) as u32)
    }
}

/// One bit of a shift by 1 to 31.
proof fn lemma_shifted_bit(v: u32, n: u32, i: u32)
    requires
        0 < n < 32,
        i < 32,
    ensures
        bit32(v << n, i) == (i >= n && bit32(v, (i - n) as u32)),
        bit32(v >> n, i) == (i + n < 32 && bit32(v, (i + n) as u32)),
        bit32((v >> n) | (v << ((32 - n) as u32)), i) == bit32(v, ((i + n) % 32) as u32),
        bit32((v >> n) | !(((1u32 << ((32 - n) as u32)) - 1) as u32), i) == (i + n >= 32 || bit32(
            v,
            (i + n) as u32,
        )),
        (v & (1u32 << ((32 - n) as u32)) != 0) == bit32(v, (32 - n) as u32),
        (v & (1u32 << ((n - 1) as u32)) != 0) == bit32(v, (n - 1) as u32),
        i < 31 ==> bit32((v >> 1) | 0x8000_0000, i) == bit32(v, (i + 1) as u32),
        i < 31 ==> bit32((v >> 1) | 0, i) == bit32(v, (i + 1) as u32),
        bit32((v >> 1) | 0x8000_0000, 31),
        !bit32((v >> 1) | 0, 31),
        (v & 1 != 0) == bit32(v, 0),
        (v >> 31 != 0) == bit32(v, 31),
        (v & 0x8000_0000 != 0) == bit32(v, 31),
        !bit32(0, i),
        bit32(0xFFFF_FFFF, i),
{
    reveal(bit32);
    let (q, p) = ((32 - n) as u32, (n - 1) as u32);
    if i >= n {
        lemma_shift_bits(v, n, q, p, i, (i - n) as u32, 0);
    }
    if i + n < 32 {
        lemma_shift_bits(v, n, q, p, i, (i + n) as u32, 0);
        assert((i + n) % 32 == i + n);
    } else {
        lemma_shift_bits(v, n, q, p, i, 0, (i - q) as u32);
        assert((i + n) % 32 == i - q);
    }
    lemma_shift_bits(v, n, q, p, i, if i < 31 { (i + 1) as u32 } else { 0 }, 0);
}

proof fn lemma_lsl(v: u32, n: u32, c: bool)
    ensures
        shifts(v, 0, n, c, arm::shifted(v, 0, n, c).0, arm::shifted(v, 0, n, c).1),
{
    reveal(shifts);
    let (r, k) = arm::shifted(v, 0, n, c);
    lemma_shifted_bit(v, if 0 < n < 32 { n } else { 1 }, 0);
    assert forall|i: u32| i < 32 implies #[trigger] bit32(r, i) == (i >= n && bit32(
        v,
        (i - n) as u32,
    )) by {
        lemma_shifted_bit(v, if 0 < n < 32 { n } else { 1 }, i);
    }
}

proof fn lemma_lsr(v: u32, n: u32, c: bool)
    ensures
        shifts(v, 1, n, c, arm::shifted(v, 1, n, c).0, arm::shifted(v, 1, n, c).1),
{
    reveal(shifts);
    let (r, k) = arm::shifted(v, 1, n, c);
    let m = if n == 0 {
        32
    } else {
        n as int
    };
    lemma_shifted_bit(v, if 0 < n < 32 { n } else { 1 }, 0);
    assert forall|i: u32| i < 32 implies #[trigger] bit32(r, i) == (i + m < 32 && bit32(
        v,
        (i + m) as u32,
    )) by {
        lemma_shifted_bit(v, if 0 < n < 32 { n } else { 1 }, i);
    }
}

proof fn lemma_asr(v: u32, n: u32, c: bool)
    ensures
        shifts(v, 2, n, c, arm::shifted(v, 2, n, c).0, arm::shifted(v, 2, n, c).1),
{
    reveal(shifts);
    let (r, k) = arm::shifted(v, 2, n, c);
    let m = if n == 0 || n > 32 {
        32
    } else {
        n as int
    };
    lemma_shifted_bit(v, if 0 < n < 32 { n } else { 1 }, 0);
    assert forall|i: u32| i < 32 implies #[trigger] bit32(r, i) == bit32(
        v,
        if i + m < 32 {
            (i + m) as u32
        } else {
            31
        },
    ) by {
        lemma_shifted_bit(v, if 0 < n < 32 { n } else { 1 }, i);
    }
}

proof fn lemma_ror(v: u32, n: u32, c: bool)
    ensures
        shifts(v, 3, n, c, arm::shifted(v, 3, n, c).0, arm::shifted(v, 3, n, c).1),
{
    reveal(shifts);
    let (r, k) = arm::shifted(v, 3, n, c);
    let m = n % 32;
    lemma_shifted_bit(v, if m > 0 { m } else { 1 }, 0);
    if n == 0 {
        assert forall|i: u32| i < 31 implies #[trigger] bit32(r, i) == bit32(v, (i + 1) as u32) by {
            lemma_shifted_bit(v, 1, i);
        }
    } else {
        assert((n + 31) % 32 == if m == 0 {
            31
        } else {
            m - 1
        });
        assert forall|i: u32| i < 32 implies #[trigger] bit32(r, i) == bit32(
            v,
            ((i + n) % 32) as u32,
        ) by {
            assert((i + n) % 32 == (i + m) % 32);
            lemma_shifted_bit(v, if m > 0 { m } else { 1 }, i);
        }
    }
}

/// The shifter shifts: each bit of its result is a bit of its operand or the
/// filling, and its carry is the last bit that fell out.
pub proof fn law_shifter(v: u32, t: u32, n: u32, c: bool)
    requires
        t < 4,
    ensures
        shifts(v, t, n, c, arm::shifted(v, t, n, c).0, arm::shifted(v, t, n, c).1),
{
    if t == 0 {
        lemma_lsl(v, n, c);
    } else if t == 1 {
        lemma_lsr(v, n, c);
    } else if t == 2 {
        lemma_asr(v, n, c);
    } else {
        lemma_ror(v, n, c);
    }
}

/// The second operand of data processing: with bit 25 the low byte turned right
/// by twice the field above it, the carry staying where that is 0 and otherwise
/// the top bit of the byte turned by two less; without it a
/// register through the shifter, by five bits of the instruction or, with bit 4,
/// by the low byte of a register.
#[verifier::rlimit(60)]
pub proof fn law_second_operand(c: Cpu, inst: u32)
    ensures
        ({
            let (b, k) = arm::operand2(c, inst);
            let carry = c.cpsr & 0x2000_0000 != 0;
            let turn = inst / 0x100 % 16;
            let amount = if inst / 0x10 % 2 == 1 {
                reads(c, inst as int / 0x100 % 16) % 256
            } else {
                inst / 0x80 % 32
            };
            if inst / 0x200_0000 % 2 == 1 {
                &&& turn == 0 ==> b == inst % 256 && k == carry
                &&& turn > 0 ==> k == bit32(inst % 256, ((29 + 2 * turn) % 32) as u32)
                &&& turn > 0 ==> forall|i: u32|
                    i < 32 ==> #[trigger] bit32(b, i) == bit32(
                        inst % 256,
                        ((i + 2 * turn) % 32) as u32,
                    )
            } else {
                shifts(reads(c, inst as int % 16), inst / 0x20 % 4, amount as u32, carry, b, k)
            }
        }),
{
    if inst / 0x200_0000 % 2 == 1 {
        lemma_immediate_operand(c, inst);
    } else {
        lemma_register_operand(c, inst);
    }
}

proof fn lemma_immediate_operand(c: Cpu, inst: u32)
    requires
        inst / 0x200_0000 % 2 == 1,
    ensures
        ({
            let (b, k) = arm::operand2(c, inst);
            let turn = inst / 0x100 % 16;
            &&& turn == 0 ==> b == inst % 256 && k == (c.cpsr & 0x2000_0000 != 0)
            &&& turn > 0 ==> k == bit32(inst % 256, ((29 + 2 * turn) % 32) as u32)
            &&& turn > 0 ==> forall|i: u32|
                i < 32 ==> #[trigger] bit32(b, i) == bit32(
                    inst % 256,
                    ((i + 2 * turn) % 32) as u32,
                )
        }),
{
    let turn = inst / 0x100 % 16;
    let b = arm::operand2(c, inst).0;
    assert((inst >> 8) & 0xF == turn && inst & 0xFF == inst % 256 && inst & 0x0200_0000 != 0) by {
        lemma_fields(inst);
    }
    reveal(arm::operand2);
    if turn > 0 {
        let before = arm::immediate(inst % 256, (turn - 1) as u32);
        lemma_shifted_bit(before, 1, 31);
        if turn > 1 {
            lemma_shifted_bit(inst % 256, (2 * (turn - 1)) as u32, 31);
            assert((31 + 2 * (turn - 1)) % 32 == (29 + 2 * turn) % 32);
        } else {
            assert((29 + 2 * turn) % 32 == 31);
        }
        assert forall|i: u32| i < 32 implies #[trigger] bit32(b, i) == bit32(
            inst % 256,
            ((i + 2 * turn) % 32) as u32,
        ) by {
            lemma_shifted_bit(inst % 256, (2 * turn) as u32, i);
        }
    }
}

proof fn lemma_register_operand(c: Cpu, inst: u32)
    requires
        inst / 0x200_0000 % 2 == 0,
    ensures
        ({
            let (b, k) = arm::operand2(c, inst);
            let amount = if inst / 0x10 % 2 == 1 {
                reads(c, inst as int / 0x100 % 16) % 256
            } else {
                inst / 0x80 % 32
            };
            shifts(
                reads(c, inst as int % 16),
                inst / 0x20 % 4,
                amount as u32,
                c.cpsr & 0x2000_0000 != 0,
                b,
                k,
            )
        }),
{
    let by = reads(c, inst as int / 0x100 % 16);
    let amount = if inst / 0x10 % 2 == 1 {
        by % 256
    } else {
        inst / 0x80 % 32
    };
    assert((inst >> 8) & 0xF == inst / 0x100 % 16 && inst & 0x0200_0000 == 0 && inst & 0xF == inst
        % 16 && (inst >> 5) & 3 == inst / 0x20 % 4 && (inst >> 7) & 0x1F == inst / 0x80 % 32 && (inst
        & 0x10 != 0) == (inst / 0x10 % 2 == 1)) by {
        lemma_fields(inst);
    }
    assert(by & 0xFF == by % 256) by {
        lemma_fields(by);
    }
    reveal(arm::operand2);
    law_shifter(
        reads(c, inst as int % 16),
        (inst / 0x20 % 4) as u32,
        amount as u32,
        c.cpsr & 0x2000_0000 != 0,
    );
}

/// After a comparison of `a` with `b` the conditions tell how they compare: EQ,
/// NE, unsigned CS, CC, HI, LS, signed GE, LT, GT, LE. MI, PL, VS and VC tell the
/// sign and the overflow of the difference, and the last condition always holds.
pub proof fn law_conditions(cpsr: u32, a: u32, b: u32)
    ensures
        ({
            let (r, c, v) = arm::difference_flags(a, b);
            let f = arm::flagged(cpsr, r, c, v);
            &&& arm::condition(f, 0) == (a == b)
            &&& arm::condition(f, 1) == (a != b)
            &&& arm::condition(f, 2) == (a >= b)
            &&& arm::condition(f, 3) == (a < b)
            &&& arm::condition(f, 4) == ((a - b) % 0x1_0000_0000 >= 0x8000_0000)
            &&& arm::condition(f, 5) == ((a - b) % 0x1_0000_0000 < 0x8000_0000)
            &&& arm::condition(f, 6) == beyond(signed(a) - signed(b))
            &&& arm::condition(f, 7) == !beyond(signed(a) - signed(b))
            &&& arm::condition(f, 8) == (a > b)
            &&& arm::condition(f, 9) == (a <= b)
            &&& arm::condition(f, 10) == (signed(a) >= signed(b))
            &&& arm::condition(f, 11) == (signed(a) < signed(b))
            &&& arm::condition(f, 12) == (signed(a) > signed(b))
            &&& arm::condition(f, 13) == (signed(a) <= signed(b))
            &&& arm::condition(f, 14)
        }),
{
    let (r, c, v) = arm::difference_flags(a, b);
    lemma_difference(a, b);
    lemma_flagged(cpsr, r, c, v);
}

proof fn lemma_condition_field(inst: u32)
    ensures
        inst >> 28 == inst / 0x1000_0000,
{
    lemma_fields(inst);
}

/// The fields that transfers use.
proof fn lemma_transfer_fields(inst: u32)
    ensures
        (inst >> 16) & 0xF == inst / 0x1_0000 % 16,
        (inst >> 12) & 0xF == inst / 0x1000 % 16,
        inst & 0xF == inst % 16,
        inst & 0xFFF == inst % 0x1000,
        (inst >> 7) & 0x1F == inst / 0x80 % 32,
        (inst >> 5) & 3 == inst / 0x20 % 4,
        (inst & 0x10_0000 != 0) == (inst / 0x10_0000 % 2 == 1),
        (inst & 0x20_0000 != 0) == (inst / 0x20_0000 % 2 == 1),
        (inst & 0x40_0000 != 0) == (inst / 0x40_0000 % 2 == 1),
        (inst & 0x80_0000 != 0) == (inst / 0x80_0000 % 2 == 1),
        (inst & 0x100_0000 != 0) == (inst / 0x100_0000 % 2 == 1),
        (inst & 0x200_0000 != 0) == (inst / 0x200_0000 % 2 == 1),
{
    lemma_fields(inst);
}

/// The fields that products use.
proof fn lemma_product_fields(inst: u32)
    ensures
        (inst >> 16) & 0xF == inst / 0x1_0000 % 16,
        (inst >> 12) & 0xF == inst / 0x1000 % 16,
        (inst >> 8) & 0xF == inst / 0x100 % 16,
        inst & 0xF == inst % 16,
        (inst & 0x10_0000 != 0) == (inst / 0x10_0000 % 2 == 1),
        (inst & 0x20_0000 != 0) == (inst / 0x20_0000 % 2 == 1),
        (inst & 0x40_0000 != 0) == (inst / 0x40_0000 % 2 == 1),
{
    lemma_fields(inst);
}

/// An instruction whose condition does not hold does nothing.
pub proof fn law_condition_fails<B: Bus>(m: Core<B>, inst: u32)
    requires
        !arm::condition(m.cpu.cpsr, inst / 0x1000_0000),
    ensures
        arm::executed(m, inst) == m,
{
    lemma_fields(inst);
}

/// The CPU with register `n` set; r15 is a jump, aligned as the state demands.
pub open spec fn sets(c: Cpu, n: int, v: int) -> Cpu {
    if n == 15 {
        Cpu {
            pc: (if c.cpsr & 0x20 != 0 {
                v / 2 * 2
            } else {
                v / 4 * 4
            }) as u32,
            ..c
        }
    } else {
        Cpu { regs: put(c.regs, n, v as u32), ..c }
    }
}

/// The CPU with some cycles more.
pub open spec fn later(c: Cpu, r: Cpu) -> bool {
    r == (Cpu { cycles: r.cycles, ..c })
}

pub proof fn lemma_sets(c: Cpu, n: u32, v: u32)
    ensures
        c.with_value(n, v) == sets(c, n as int, v as int),
        c.branched(v) == sets(c, 15, v as int),
        c.value(n) == reads(c, n as int),
{
    lemma_fields(v);
}

/// The product of two words.
#[verifier::opaque]
pub open spec fn times(a: u32, b: u32) -> int {
    a * b
}

/// Whether `r` is `c` with `v` in register `rd`, and, if `set`, the flags N and Z
/// of it; C and V stay.
#[verifier::opaque]
pub open spec fn multiplies(c: Cpu, rd: int, v: int, set: bool, r: Cpu) -> bool {
    &&& later(Cpu { cpsr: r.cpsr, ..sets(c, rd, v) }, r)
    &&& !set ==> r.cpsr == c.cpsr
    &&& set ==> flags_are(
        r.cpsr,
        v >= 0x8000_0000,
        v == 0,
        c.cpsr & 0x2000_0000 != 0,
        c.cpsr & 0x1000_0000 != 0,
    ) && r.cpsr & 0x0FFF_FFFF == c.cpsr & 0x0FFF_FFFF
}

proof fn lemma_multiplies(c: Cpu, rd: u32, v: u32, set: bool)
    requires
        rd < 15,
    ensures
        multiplies(
            c,
            rd as int,
            v as int,
            set,
            (if set {
                Cpu { cpsr: arm::flagged(c.cpsr, v, c.carry(), c.overflow()), ..c }
            } else {
                c
            }).with_value(rd, v).with_cycles(1),
        ),
{
    reveal(multiplies);
    lemma_flagged(c.cpsr, v, c.carry(), c.overflow());
}

/// The sum that MUL and MLA make.
pub open spec fn product_sum(a: u32, b: u32, accumulate: bool, acc: u32) -> int {
    (times(a, b) + (if accumulate {
        acc as int
    } else {
        0
    })) % 0x1_0000_0000
}

proof fn lemma_product_sum(a: u32, b: u32, accumulate: bool, acc: u32)
    ensures
        ({
            let product = vstd::wrapping::u32_specs::wrapping_mul(a, b);
            product_sum(a, b, accumulate, acc) == if accumulate {
                vstd::wrapping::u32_specs::wrapping_add(product, acc)
            } else {
                product
            }
        }),
{
    let product = vstd::wrapping::u32_specs::wrapping_mul(a, b);
    assert(product == times(a, b) % 0x1_0000_0000) by {
        reveal(times);
    }
    lemma_sum_mod(times(a, b), acc as int);
}

/// MUL and MLA: the destination holds the product of two registers, for MLA and
/// a third one, modulo 2^32. With bit 20 the flags N and Z tell of it, C and V
/// stay.
#[verifier::rlimit(60)]
pub proof fn law_multiply<B: Bus>(m: Core<B>, inst: u32)
    requires
        arm::condition(m.cpu.cpsr, inst / 0x1000_0000),
        inst / 0x40_0000 % 64 == 0,
        inst / 0x10 % 16 == 9,
        inst / 0x1_0000 % 16 != 15,
    ensures
        multiplies(
            m.cpu,
            inst as int / 0x1_0000 % 16,
            product_sum(
                reads(m.cpu, inst as int % 16),
                reads(m.cpu, inst as int / 0x100 % 16),
                inst / 0x20_0000 % 2 == 1,
                reads(m.cpu, inst as int / 0x1000 % 16),
            ),
            inst / 0x10_0000 % 2 == 1,
            arm::executed(m, inst).cpu,
        ),
        arm::executed(m, inst).bus == m.bus,
{
    lemma_multiply_dispatch(m, inst);
    lemma_product_fields(inst);
    let c = m.cpu;
    let a = reads(c, inst as int % 16);
    let b = reads(c, inst as int / 0x100 % 16);
    let acc = reads(c, inst as int / 0x1000 % 16);
    lemma_product_sum(a, b, inst / 0x20_0000 % 2 == 1, acc);
    let v = product_sum(a, b, inst / 0x20_0000 % 2 == 1, acc) as u32;
    let rd = (inst / 0x1_0000 % 16) as u32;
    lemma_multiplies(c, rd, v, inst / 0x10_0000 % 2 == 1);
    lemma_multiplied(c, inst, a, b, acc, rd);
}

/// The instruction with its registers read.
proof fn lemma_multiplied(c: Cpu, inst: u32, a: u32, b: u32, acc: u32, rd: u32)
    requires
        a == c.value(inst & 0xF),
        b == c.value((inst >> 8) & 0xF),
        acc == c.value((inst >> 12) & 0xF),
        rd == (inst >> 16) & 0xF,
    ensures
        ({
            let product = vstd::wrapping::u32_specs::wrapping_mul(a, b);
            let v = if inst & 0x20_0000 != 0 {
                vstd::wrapping::u32_specs::wrapping_add(product, acc)
            } else {
                product
            };
            arm::multiplied(c, inst) == (if inst & 0x10_0000 != 0 {
                Cpu { cpsr: arm::flagged(c.cpsr, v, c.carry(), c.overflow()), ..c }
            } else {
                c
            }).with_value(rd, v).with_cycles(1)
        }),
{
    reveal(arm::multiplied);
}

proof fn lemma_sum_mod(x: int, y: int)
    ensures
        (x % 0x1_0000_0000 + y) % 0x1_0000_0000 == (x + y) % 0x1_0000_0000,
{
}

#[verifier::rlimit(60)]
proof fn lemma_multiply_dispatch<B: Bus>(m: Core<B>, inst: u32)
    requires
        arm::condition(m.cpu.cpsr, inst / 0x1000_0000),
        inst / 0x40_0000 % 64 == 0,
        inst / 0x10 % 16 == 9,
    ensures
        arm::executed(m, inst) == m.with_cpu(arm::multiplied(m.cpu, inst)),
{
    lemma_condition_field(inst);
    assert(inst / 0x80_0000 % 32 == 0 && inst / 0x200_0000 % 8 == 0) by {
        assert(inst / 0x40_0000 / 2 == inst / 0x80_0000);
        assert(inst / 0x40_0000 / 8 == inst / 0x200_0000);
    }
    lemma_classes(inst);
    reveal(arm::dispatched);
    reveal(arm::family_executed);
}

/// UMULL, UMLAL, SMULL and SMLAL: the two destinations hold the 64 bits of the
/// product, of unsigned words or with bit 22 of signed ones, with bit 21 added to
/// what they held. N and Z tell of the 64 bits.
#[verifier::rlimit(60)]
pub proof fn law_long_multiply<B: Bus>(m: Core<B>, inst: u32)
    requires
        arm::condition(m.cpu.cpsr, inst / 0x1000_0000),
        inst / 0x80_0000 % 32 == 1,
        inst / 0x10 % 16 == 9,
        inst / 0x1_0000 % 16 != 15,
        inst / 0x1000 % 16 != 15,
    ensures
        ({
            let c = m.cpu;
            let r = arm::executed(m, inst).cpu;
            let (hi, lo) = (inst as int / 0x1_0000 % 16, inst as int / 0x1000 % 16);
            let (a, b) = (reads(c, inst as int % 16), reads(c, inst as int / 0x100 % 16));
            let product = if inst / 0x40_0000 % 2 == 1 {
                signed(a) * signed(b)
            } else {
                a * b
            };
            let held = if inst / 0x20_0000 % 2 == 1 {
                reads(c, hi) * 0x1_0000_0000 + reads(c, lo)
            } else {
                0
            };
            let v = (product + held) % 0x1_0000_0000_0000_0000;
            &&& r.regs[hi] == v / 0x1_0000_0000
            &&& lo != hi ==> r.regs[lo] == v % 0x1_0000_0000
            &&& forall|n: int|
                0 <= n < 16 && n != hi && n != lo ==> #[trigger] r.regs[n] == c.regs[n]
            &&& r.pc == c.pc
            &&& inst / 0x10_0000 % 2 == 0 ==> r.cpsr == c.cpsr
            &&& inst / 0x10_0000 % 2 == 1 ==> (r.cpsr & 0x8000_0000 != 0) == (v
                >= 0x8000_0000_0000_0000) && (r.cpsr & 0x4000_0000 != 0) == (v == 0)
        }),
        arm::executed(m, inst).bus == m.bus,
{
    lemma_long_dispatch(m, inst);
    lemma_product_fields(inst);
    reveal(arm::long_multiplied);
    let c = m.cpu;
    let (a, b) = (reads(c, inst as int % 16), reads(c, inst as int / 0x100 % 16));
    let (hi, lo) = (inst / 0x1_0000 % 16, inst / 0x1000 % 16);
    let is_signed = inst & 0x0040_0000 != 0;
    let product = arm::long_product(a, b, is_signed);
    let held = if inst / 0x20_0000 % 2 == 1 {
        reads(c, hi as int) * 0x1_0000_0000 + reads(c, lo as int)
    } else {
        0
    };
    let whole = if is_signed {
        signed(a) * signed(b)
    } else {
        a * b
    };
    lemma_sum_mod_long(whole, held);
    lemma_long_range(a, b);
    let result = (product + held) % 0x1_0000_0000_0000_0000;
    lemma_long_flags(c.cpsr, result);
}

proof fn lemma_sum_mod_long(x: int, y: int)
    ensures
        (x % 0x1_0000_0000_0000_0000 + y) % 0x1_0000_0000_0000_0000 == (x + y)
            % 0x1_0000_0000_0000_0000,
{
}

proof fn lemma_long_range(a: u32, b: u32)
    ensures
        arm::signed(a) == signed(a),
        arm::signed(b) == signed(b),
{
}

/// The flags that a long product sets.
proof fn lemma_long_flags(cpsr: u32, result: int)
    requires
        0 <= result < 0x1_0000_0000_0000_0000,
    ensures
        ({
            let hi = (result / 0x1_0000_0000) as u32;
            let f0 = cpsr & !crate::gba::cpu::field::FLAGS;
            let f1 = if hi & 0x8000_0000 != 0 {
                f0 | flag::N
            } else {
                f0
            };
            let f = if result == 0 {
                f1 | flag::Z
            } else {
                f1
            };
            &&& (f & 0x8000_0000 != 0) == (result >= 0x8000_0000_0000_0000)
            &&& (f & 0x4000_0000 != 0) == (result == 0)
        }),
{
    let hi = (result / 0x1_0000_0000) as u32;
    lemma_fields(hi);
    let f0 = cpsr & !crate::gba::cpu::field::FLAGS;
    let f1 = if hi & 0x8000_0000 != 0 {
        f0 | flag::N
    } else {
        f0
    };
    crate::gba::cpu::isa::lemma_signs_and_flags(0, 0, 0, cpsr);
    crate::gba::cpu::isa::lemma_signs_and_flags(0, 0, 0, f0);
    crate::gba::cpu::isa::lemma_signs_and_flags(0, 0, 0, f1);
}

#[verifier::rlimit(60)]
proof fn lemma_long_dispatch<B: Bus>(m: Core<B>, inst: u32)
    requires
        arm::condition(m.cpu.cpsr, inst / 0x1000_0000),
        inst / 0x80_0000 % 32 == 1,
        inst / 0x10 % 16 == 9,
    ensures
        arm::executed(m, inst) == m.with_cpu(arm::long_multiplied(m.cpu, inst)),
{
    lemma_condition_field(inst);
    assert(inst / 0x200_0000 % 8 == 0) by {
        assert(inst / 0x80_0000 / 4 == inst / 0x200_0000);
    }
    lemma_classes(inst);
    reveal(arm::dispatched);
    reveal(arm::family_executed);
}

/// `base` moved by `offset`, up with bit 23 and down without.
pub open spec fn moved(inst: u32, base: u32, offset: int) -> int {
    (if inst / 0x80_0000 % 2 == 1 {
        base + offset
    } else {
        base - offset
    }) % 0x1_0000_0000
}

/// What moves the base of a transfer: twelve bits of the instruction, or with bit
/// 25 a register shifted by five bits of it.
#[verifier::opaque]
pub open spec fn transfer_offset(c: Cpu, inst: u32) -> u32 {
    if inst / 0x200_0000 % 2 == 1 {
        arm::shifted(
            reads(c, inst as int % 16),
            (inst / 0x20 % 4) as u32,
            (inst / 0x80 % 32) as u32,
            c.cpsr & 0x2000_0000 != 0,
        ).0
    } else {
        (inst % 0x1000) as u32
    }
}

proof fn lemma_transfer_offset(c: Cpu, inst: u32)
    ensures
        arm::single_offset(c, inst) == transfer_offset(c, inst),
{
    lemma_transfer_fields(inst);
    reveal(arm::single_offset);
    reveal(transfer_offset);
}

/// Whether `r` is `m` after a transfer between register `rd` and memory at `at`,
/// of a word or a byte, with `end` left in register `rn` if `back`; not where that
/// is r15 or was just loaded.
#[verifier::opaque]
pub open spec fn transfers<B: Bus>(
    m: Core<B>,
    load: bool,
    byte: bool,
    at: u32,
    rd: int,
    back: bool,
    rn: int,
    end: int,
    r: Core<B>,
) -> bool {
    let (bus, v) = if byte {
        m.bus.after_read8(at)
    } else {
        m.bus.after_read32(at)
    };
    let loaded = if load {
        sets(m.cpu, rd, v as int)
    } else {
        m.cpu
    };
    &&& later(
        if back && rn != 15 && !(load && rn == rd) {
            sets(loaded, rn, end)
        } else {
            loaded
        },
        r.cpu,
    )
    &&& r.bus == if load {
        bus
    } else if byte {
        m.bus.after_write8(at, reads(m.cpu, rd))
    } else {
        m.bus.after_write32(at, reads(m.cpu, rd))
    }
}

/// A transfer with its fields at hand.
spec fn transfer_made<B: Bus>(
    m: Core<B>,
    load: bool,
    byte: bool,
    at: u32,
    rd: u32,
    back: bool,
    rn: u32,
    end: u32,
) -> Core<B> {
    let done = if load {
        let (bus, value) = if byte {
            m.bus.after_read8(at)
        } else {
            m.bus.after_read32(at)
        };
        Core { bus, cpu: m.cpu.with_value(rd, value) }
    } else {
        Core {
            bus: if byte {
                m.bus.after_write8(at, m.cpu.value(rd))
            } else {
                m.bus.after_write32(at, m.cpu.value(rd))
            },
            cpu: m.cpu,
        }
    };
    let cpu = if back && rn != 15 && !(load && rn == rd) {
        done.cpu.with_value(rn, end)
    } else {
        done.cpu
    };
    Core { cpu: cpu.with_cycles(1), ..done }
}

proof fn lemma_transfers<B: Bus>(
    m: Core<B>,
    load: bool,
    byte: bool,
    at: u32,
    rd: u32,
    back: bool,
    rn: u32,
    end: u32,
)
    ensures
        transfers(
            m,
            load,
            byte,
            at,
            rd as int,
            back,
            rn as int,
            end as int,
            transfer_made(m, load, byte, at, rd, back, rn, end),
        ),
{
    reveal(transfers);
    lemma_all_sets();
}

#[verifier::rlimit(60)]
proof fn lemma_single_transferred<B: Bus>(m: Core<B>, inst: u32)
    ensures
        ({
            let base = m.cpu.value((inst >> 16) & 0xF);
            let end = arm::indexed(inst, base, arm::single_offset(m.cpu, inst));
            arm::single_transferred(m, inst) == transfer_made(
                m,
                inst & 0x10_0000 != 0,
                inst & 0x40_0000 != 0,
                if inst & 0x100_0000 != 0 {
                    end
                } else {
                    base
                },
                (inst >> 12) & 0xF,
                inst & 0x20_0000 != 0,
                (inst >> 16) & 0xF,
                end,
            )
        }),
{
    reveal(arm::single_transferred);
}

proof fn lemma_moved(inst: u32, base: u32, offset: u32)
    ensures
        arm::indexed(inst, base, offset) == moved(inst, base, offset as int),
{
    lemma_transfer_fields(inst);
}

/// LDR, LDRB, STR and STRB: bit 20 loads, bit 22 takes a byte. The address is the
/// base register moved by twelve bits of the instruction, or with bit 25 by a
/// shifted register; without bit 24 it is the base itself. Bit 21 leaves the
/// moved base in its register, unless that is r15 or was just loaded.
#[verifier::rlimit(60)]
pub proof fn law_transfer<B: Bus>(m: Core<B>, inst: u32)
    requires
        arm::condition(m.cpu.cpsr, inst / 0x1000_0000),
        inst / 0x400_0000 % 4 == 1,
    ensures
        ({
            let base = reads(m.cpu, inst as int / 0x1_0000 % 16);
            let end = moved(inst, base, transfer_offset(m.cpu, inst) as int);
            transfers(
                m,
                inst / 0x10_0000 % 2 == 1,
                inst / 0x40_0000 % 2 == 1,
                (if inst / 0x100_0000 % 2 == 1 {
                    end
                } else {
                    base as int
                }) as u32,
                inst as int / 0x1000 % 16,
                inst / 0x20_0000 % 2 == 1,
                inst as int / 0x1_0000 % 16,
                end,
                arm::executed(m, inst),
            )
        }),
{
    lemma_transfer_dispatch(m, inst);
    let rn = (inst >> 16) & 0xF;
    assert(rn == inst as int / 0x1_0000 % 16 && (inst >> 12) & 0xF == inst as int / 0x1000 % 16 && (
    inst & 0x10_0000 != 0) == (inst / 0x10_0000 % 2 == 1) && (inst & 0x20_0000 != 0) == (inst
        / 0x20_0000 % 2 == 1) && (inst & 0x40_0000 != 0) == (inst / 0x40_0000 % 2 == 1) && (inst
        & 0x100_0000 != 0) == (inst / 0x100_0000 % 2 == 1)) by {
        lemma_transfer_fields(inst);
    }
    let base = m.cpu.value(rn);
    assert(base == reads(m.cpu, inst as int / 0x1_0000 % 16)) by {
        lemma_sets(m.cpu, rn, 0);
    }
    lemma_transfer_offset(m.cpu, inst);
    lemma_moved(inst, base, transfer_offset(m.cpu, inst));
    let end = arm::indexed(inst, base, arm::single_offset(m.cpu, inst));
    lemma_single_transferred(m, inst);
    lemma_transfers(
        m,
        inst & 0x10_0000 != 0,
        inst & 0x40_0000 != 0,
        if inst & 0x100_0000 != 0 {
            end
        } else {
            base
        },
        (inst >> 12) & 0xF,
        inst & 0x20_0000 != 0,
        rn,
        end,
    );
}

#[verifier::rlimit(60)]
proof fn lemma_transfer_dispatch<B: Bus>(m: Core<B>, inst: u32)
    requires
        arm::condition(m.cpu.cpsr, inst / 0x1000_0000),
        inst / 0x400_0000 % 4 == 1,
    ensures
        arm::executed(m, inst) == arm::single_transferred(m, inst),
{
    lemma_condition_field(inst);
    lemma_classes(inst);
    reveal(arm::dispatched);
}

proof fn lemma_all_sets()
    ensures
        forall|c: Cpu, n: u32, v: u32| #[trigger] c.with_value(n, v) == sets(c, n as int, v as int),
{
    assert forall|c: Cpu, n: u32, v: u32| #[trigger] c.with_value(n, v) == sets(
        c,
        n as int,
        v as int,
    ) by {
        lemma_sets(c, n, v);
    }
}

/// B and BL: PC is four times the signed 24 bits of the instruction away from
/// r15; BL leaves the address of the instruction that follows in r14.
#[verifier::rlimit(60)]
pub proof fn law_branch<B: Bus>(m: Core<B>, inst: u32)
    requires
        arm::condition(m.cpu.cpsr, inst / 0x1000_0000),
        inst / 0x200_0000 % 8 == 5,
        m.cpu.cpsr & 0x20 == 0,
    ensures
        ({
            let r = arm::executed(m, inst);
            let off = inst as int % 0x100_0000;
            let way = if off >= 0x80_0000 {
                4 * (off - 0x100_0000)
            } else {
                4 * off
            };
            let to = (m.cpu.pc + 4 + way) % 0x1_0000_0000;
            let c = if inst / 0x100_0000 % 2 == 1 {
                Cpu { regs: put(m.cpu.regs, 14, m.cpu.pc), ..m.cpu }
            } else {
                m.cpu
            };
            later(sets(c, 15, to), r.cpu) && r.bus == m.bus
        }),
{
    assert(arm::executed(m, inst) == m.with_cpu(arm::branch_taken(m.cpu, inst))) by {
        lemma_condition_field(inst);
        assert(inst / 0x400_0000 % 4 == 2) by {
            assert(inst / 0x200_0000 / 2 == inst / 0x400_0000);
        }
        lemma_classes(inst);
        reveal(arm::dispatched);
    }
    lemma_fields(inst);
    lemma_branch_offset(inst);
    reveal(arm::branch_taken);
    let off = inst as int % 0x100_0000;
    let to = vstd::wrapping::u32_specs::wrapping_add(m.cpu.value(15), arm::branch_offset(inst));
    let way = if off >= 0x80_0000 {
        4 * (off - 0x100_0000)
    } else {
        4 * off
    };
    assert(to == (m.cpu.pc + 4 + way) % 0x1_0000_0000);
    lemma_sets(m.cpu, 14, m.cpu.pc);
    lemma_sets(m.cpu.with_value(14, m.cpu.pc), 15, to);
    lemma_sets(m.cpu, 15, to);
}

proof fn lemma_branch_offset(inst: u32)
    ensures
        arm::branch_offset(inst) == if inst % 0x100_0000 >= 0x80_0000 {
            4 * (inst % 0x100_0000) + 0xFC00_0000
        } else {
            4 * (inst % 0x100_0000)
        },
        ((inst >> 4) & 0xF0) | (inst & 0xF) == 16 * (inst / 0x100 % 16) + inst % 16,
{
    assert(inst & 0x00FF_FFFF == inst % 0x100_0000 && ((inst & 0x00FF_FFFF) & 0x0080_0000 != 0) == (
    inst % 0x100_0000 >= 0x80_0000) && (inst % 0x100_0000 >= 0x80_0000 ==> ((inst & 0x00FF_FFFF)
        | 0xFF00_0000) << 2 == 4 * (inst % 0x100_0000) + 0xFC00_0000) && (inst % 0x100_0000
        < 0x80_0000 ==> (inst & 0x00FF_FFFF) << 2 == 4 * (inst % 0x100_0000)) && ((inst >> 4) & 0xF0)
        | (inst & 0xF) == 16 * (inst / 0x100 % 16) + inst % 16) by (bit_vector);
}

/// BX: the state is Thumb where bit 0 of the register is set and ARM where not,
/// and PC the register's value, aligned for that state.
#[verifier::rlimit(60)]
pub proof fn law_exchange<B: Bus>(m: Core<B>, inst: u32)
    requires
        arm::condition(m.cpu.cpsr, inst / 0x1000_0000),
        inst / 16 % 0x100_0000 == 0x12_FFF1,
    ensures
        ({
            let r = arm::executed(m, inst);
            let v = reads(m.cpu, inst as int % 16);
            &&& (r.cpu.cpsr & 0x20 != 0) == (v % 2 == 1)
            &&& r.cpu.cpsr & !0x20u32 == m.cpu.cpsr & !0x20u32
            &&& r.cpu.pc == if v % 2 == 1 {
                v / 2 * 2
            } else {
                v / 4 * 4
            }
            &&& r.cpu == (Cpu {
                cpsr: r.cpu.cpsr,
                pc: r.cpu.pc,
                cycles: r.cpu.cycles,
                ..m.cpu
            })
            &&& r.bus == m.bus
        }),
{
    lemma_fields(inst);
    lemma_classes(inst);
    reveal(arm::dispatched);
    lemma_exchanged(m.cpu, reads(m.cpu, inst as int % 16));
}

pub proof fn lemma_exchanged(c: Cpu, v: u32)
    ensures
        ({
            let r = c.exchanged(v);
            &&& (r.cpsr & 0x20 != 0) == (v % 2 == 1)
            &&& r.cpsr & !0x20u32 == c.cpsr & !0x20u32
            &&& r.pc == if v % 2 == 1 {
                v / 2 * 2
            } else {
                v / 4 * 4
            }
            &&& r == (Cpu { cpsr: r.cpsr, pc: r.pc, ..c })
        }),
{
    lemma_fields(v);
    let f = c.cpsr;
    assert((f | 0x20) & 0x20 != 0 && (f & !0x20u32) & 0x20 == 0 && (f | 0x20) & !0x20u32 == f
        & !0x20u32 && (f & !0x20u32) & !0x20u32 == f & !0x20u32) by (bit_vector);
}

/// Whether `v` is the low `bits` of `w` with the sign repeated above them.
pub open spec fn sign_extends(w: u32, unit: int, v: u32) -> bool {
    &&& v as int % unit == w as int % unit
    &&& if w as int % unit >= unit / 2 {
        v >= 0x1_0000_0000 - unit / 2
    } else {
        v < unit / 2
    }
}

/// What a halfword or signed load finds at `at`: with `sh` 1 a halfword, with 2 a
/// signed byte, with 3 a signed halfword.
pub proof fn law_half_loads<B: Bus>(bus: B, at: u32)
    ensures
        arm::half_loaded(bus, at, 1) == bus.after_read16(at),
        arm::half_loaded(bus, at, 2).0 == bus.after_read8(at).0,
        sign_extends(bus.after_read8(at).1, 0x100, arm::half_loaded(bus, at, 2).1),
        arm::half_loaded(bus, at, 3).0 == bus.after_read16(at).0,
        sign_extends(bus.after_read16(at).1, 0x1_0000, arm::half_loaded(bus, at, 3).1),
{
}

/// Whether `r` is `m` after a transfer between register `rd` and the halfword or
/// signed byte at `at`, with `end` left in register `rn` if `back`.
#[verifier::opaque]
pub open spec fn half_transfers<B: Bus>(
    m: Core<B>,
    load: bool,
    sh: u32,
    at: u32,
    rd: int,
    back: bool,
    rn: int,
    end: int,
    r: Core<B>,
) -> bool {
    let (bus, v) = arm::half_loaded(m.bus, at, sh);
    let loaded = if load {
        sets(m.cpu, rd, v as int)
    } else {
        m.cpu
    };
    &&& later(
        if back && rn != 15 && !(load && rn == rd) {
            sets(loaded, rn, end)
        } else {
            loaded
        },
        r.cpu,
    )
    &&& r.bus == if load {
        bus
    } else if sh == 1 {
        m.bus.after_write16(at, reads(m.cpu, rd))
    } else {
        m.bus
    }
}

spec fn half_made<B: Bus>(
    m: Core<B>,
    load: bool,
    sh: u32,
    at: u32,
    rd: u32,
    back: bool,
    rn: u32,
    end: u32,
) -> Core<B> {
    let done = if load {
        let (bus, value) = arm::half_loaded(m.bus, at, sh);
        Core { bus, cpu: m.cpu.with_value(rd, value) }
    } else if sh == 1 {
        Core { bus: m.bus.after_write16(at, m.cpu.value(rd)), cpu: m.cpu }
    } else {
        m
    };
    let cpu = if back && rn != 15 && !(load && rn == rd) {
        done.cpu.with_value(rn, end)
    } else {
        done.cpu
    };
    Core { cpu: cpu.with_cycles(1), ..done }
}

proof fn lemma_half_transfers<B: Bus>(
    m: Core<B>,
    load: bool,
    sh: u32,
    at: u32,
    rd: u32,
    back: bool,
    rn: u32,
    end: u32,
)
    ensures
        half_transfers(
            m,
            load,
            sh,
            at,
            rd as int,
            back,
            rn as int,
            end as int,
            half_made(m, load, sh, at, rd, back, rn, end),
        ),
{
    reveal(half_transfers);
    lemma_all_sets();
}

#[verifier::rlimit(60)]
proof fn lemma_half_transferred<B: Bus>(m: Core<B>, inst: u32)
    ensures
        ({
            let base = m.cpu.value((inst >> 16) & 0xF);
            let end = arm::indexed(inst, base, arm::half_offset(m.cpu, inst));
            let pre = inst & 0x100_0000 != 0;
            arm::half_transferred(m, inst) == half_made(
                m,
                inst & 0x10_0000 != 0,
                (inst >> 5) & 3,
                if pre {
                    end
                } else {
                    base
                },
                (inst >> 12) & 0xF,
                !pre || inst & 0x20_0000 != 0,
                (inst >> 16) & 0xF,
                end,
            )
        }),
{
    reveal(arm::half_transferred);
}

/// What moves the base of a halfword transfer: with bit 22 eight bits of the
/// instruction, otherwise a register.
pub open spec fn half_way(c: Cpu, inst: u32) -> u32 {
    if inst / 0x40_0000 % 2 == 1 {
        (16 * (inst / 0x100 % 16) + inst % 16) as u32
    } else {
        reads(c, inst as int % 16)
    }
}

proof fn lemma_half_way(c: Cpu, inst: u32)
    ensures
        arm::half_offset(c, inst) == half_way(c, inst),
{
    lemma_transfer_fields(inst);
    lemma_branch_offset(inst);
}

/// LDRH, STRH, LDRSB and LDRSH: as the transfers of words, but a base that is not
/// moved before the transfer is always moved after it.
#[verifier::rlimit(60)]
pub proof fn law_half_transfer<B: Bus>(m: Core<B>, inst: u32)
    requires
        arm::condition(m.cpu.cpsr, inst / 0x1000_0000),
        inst / 0x200_0000 % 8 == 0,
        inst / 0x80 % 2 == 1,
        inst / 0x10 % 2 == 1,
        inst / 0x20 % 4 != 0,
    ensures
        ({
            let base = reads(m.cpu, inst as int / 0x1_0000 % 16);
            let end = moved(inst, base, half_way(m.cpu, inst) as int);
            let pre = inst / 0x100_0000 % 2 == 1;
            half_transfers(
                m,
                inst / 0x10_0000 % 2 == 1,
                (inst / 0x20 % 4) as u32,
                (if pre {
                    end
                } else {
                    base as int
                }) as u32,
                inst as int / 0x1000 % 16,
                !pre || inst / 0x20_0000 % 2 == 1,
                inst as int / 0x1_0000 % 16,
                end,
                arm::executed(m, inst),
            )
        }),
{
    assert(arm::executed(m, inst) == arm::half_transferred(m, inst)) by {
        lemma_condition_field(inst);
        lemma_classes(inst);
        reveal(arm::dispatched);
        reveal(arm::family_executed);
    }
    lemma_transfer_fields(inst);
    lemma_half_way(m.cpu, inst);
    let base = m.cpu.value((inst >> 16) & 0xF);
    lemma_moved(inst, base, half_way(m.cpu, inst));
    let end = arm::indexed(inst, base, arm::half_offset(m.cpu, inst));
    let pre = inst & 0x100_0000 != 0;
    lemma_half_transferred(m, inst);
    lemma_half_transfers(
        m,
        inst & 0x10_0000 != 0,
        (inst >> 5) & 3,
        if pre {
            end
        } else {
            base
        },
        (inst >> 12) & 0xF,
        !pre || inst & 0x20_0000 != 0,
        (inst >> 16) & 0xF,
        end,
    );
}

/// Whether `r` is `m` after register `rd` was given what memory at `at` held, and
/// memory `new`.
#[verifier::opaque]
pub open spec fn swaps<B: Bus>(
    m: Core<B>,
    byte: bool,
    at: u32,
    new: u32,
    rd: int,
    r: Core<B>,
) -> bool {
    let (bus, v) = if byte {
        m.bus.after_read8(at)
    } else {
        m.bus.after_read32(at)
    };
    &&& later(sets(m.cpu, rd, v as int), r.cpu)
    &&& r.bus == if byte {
        bus.after_write8(at, new)
    } else {
        bus.after_write32(at, new)
    }
}

proof fn lemma_swapped<B: Bus>(m: Core<B>, inst: u32)
    ensures
        swaps(
            m,
            inst & 0x40_0000 != 0,
            m.cpu.value((inst >> 16) & 0xF),
            m.cpu.value(inst & 0xF),
            ((inst >> 12) & 0xF) as int,
            arm::swapped(m, inst),
        ),
{
    reveal(arm::swapped);
    reveal(swaps);
    lemma_all_sets();
}

proof fn lemma_swap_class(inst: u32)
    requires
        inst / 0x80_0000 % 32 == 2,
        inst / 0x10_0000 % 4 == 0,
        inst / 0x10 % 16 == 9,
    ensures
        inst & 0x0FFF_FFF0 != 0x012F_FF10,
        inst & 0x0FBF_0FF0 != 0x010F_0000,
        inst & 0x0FB0_FFF0 != 0x0120_F000,
        inst & 0x0FB0_F000 != 0x0320_F000,
        inst & 0x0C00_0000 == 0,
        inst & 0x0FB0_00F0 == 0x0100_0090,
{
    assert(inst / 0x200_0000 % 8 == 0) by {
        assert(inst / 0x80_0000 / 4 == inst / 0x200_0000);
    }
    lemma_classes(inst);
}

#[verifier::rlimit(60)]
proof fn lemma_swap_dispatch<B: Bus>(m: Core<B>, inst: u32)
    requires
        arm::condition(m.cpu.cpsr, inst / 0x1000_0000),
        inst / 0x80_0000 % 32 == 2,
        inst / 0x10_0000 % 4 == 0,
        inst / 0x10 % 16 == 9,
    ensures
        arm::executed(m, inst) == arm::swapped(m, inst),
{
    lemma_condition_field(inst);
    lemma_swap_class(inst);
    reveal(arm::dispatched);
    reveal(arm::family_executed);
}

/// SWP and SWPB: the destination holds what memory held, and memory the second
/// register.
#[verifier::rlimit(60)]
pub proof fn law_swap<B: Bus>(m: Core<B>, inst: u32)
    requires
        arm::condition(m.cpu.cpsr, inst / 0x1000_0000),
        inst / 0x80_0000 % 32 == 2,
        inst / 0x10_0000 % 4 == 0,
        inst / 0x10 % 16 == 9,
    ensures
        swaps(
            m,
            inst / 0x40_0000 % 2 == 1,
            reads(m.cpu, inst as int / 0x1_0000 % 16),
            reads(m.cpu, inst as int % 16),
            inst as int / 0x1000 % 16,
            arm::executed(m, inst),
        ),
{
    lemma_swap_dispatch(m, inst);
    lemma_transfer_fields(inst);
    lemma_swapped(m, inst);
}

/// Where a block of `n` words starts and where the base ends: upwards from the
/// base or from four past it, or downwards, so that the last word is at the base
/// or four below it. The words always lie upwards from the start.
pub proof fn law_block_place(inst: u32, base: u32, n: nat)
    requires
        n <= 16,
    ensures
        ({
            let up = inst / 0x80_0000 % 2 == 1;
            let pre = inst / 0x100_0000 % 2 == 1;
            let way: int = if up {
                if pre {
                    4
                } else {
                    0
                }
            } else if pre {
                -4 * n
            } else {
                4 - 4 * n
            };
            &&& arm::block_start(inst, base, n) == (base + way) % 0x1_0000_0000
            &&& arm::indexed(inst, base, (4 * n) as u32) == moved(inst, base, (4 * n) as int)
        }),
{
    lemma_transfer_fields(inst);
}

/// The registers of a block lie in memory in their order, the lowest first: the
/// word of register `r` is as many words from the start as registers below `r`
/// are listed, and nothing is read or written for one that is not listed.
pub proof fn law_block_order<B: Bus>(m: Core<B>, start: u32, list: u32, user: bool, r: nat)
    requires
        r < 16,
    ensures
        ({
            let at = ((start + 4 * arm::count_listed(list, r)) % 0x1_0000_0000) as u32;
            let before = arm::block_stored(m, start, list, user, r).0;
            let after = arm::block_stored(m, start, list, user, r + 1).0;
            after == if arm::listed(list, r) {
                before.after_write32(at, arm::block_value(m.cpu, r as u32, user))
            } else {
                before
            }
        }),
        ({
            let at = ((start + 4 * arm::count_listed(list, r)) % 0x1_0000_0000) as u32;
            let before = arm::block_loaded(m, start, list, user, r);
            let after = arm::block_loaded(m, start, list, user, r + 1);
            let (bus, v) = before.m.bus.after_read32(at);
            if arm::listed(list, r) {
                &&& after.m.bus == bus
                &&& r < 15 && !user ==> after.m.cpu == sets(before.m.cpu, r as int, v as int)
                    && after.pc == before.pc
                &&& r == 15 ==> after.pc == Some(v) && after.m.cpu == before.m.cpu
            } else {
                after == before
            }
        }),
{
    lemma_block_at(m, start, list, user, r);
    lemma_all_sets();
}

proof fn lemma_block_at<B: Bus>(m: Core<B>, start: u32, list: u32, user: bool, r: nat)
    ensures
        arm::block_stored(m, start, list, user, r).1 == (start + 4 * arm::count_listed(list, r))
            % 0x1_0000_0000,
        arm::block_loaded(m, start, list, user, r).addr == (start + 4 * arm::count_listed(list, r))
            % 0x1_0000_0000,
    decreases r,
{
    if r > 0 {
        let q = (r - 1) as nat;
        lemma_block_at(m, start, list, user, q);
        lemma_sum_mod(start + 4 * arm::count_listed(list, q), 4);
    }
}

/// The list of a block is its low sixteen bits, one for each register.
pub proof fn law_block_list(list: u32, r: nat)
    requires
        r < 16,
    ensures
        arm::listed(list, r) == bit32(list, r as u32),
        arm::count_listed(list, r + 1) == arm::count_listed(list, r) + if bit32(list, r as u32) {
            1nat
        } else {
            0
        },
        arm::count_listed(list, 0) == 0,
{
    lemma_shifted_bit(list, (r + 1) as u32, 0);
}

/// Whether `r` is `m` after the block of the registers in `list` was stored from
/// `start` on, or loaded from there, with `end` left in register `rn` if `back`,
/// unless the block loaded it.
#[verifier::opaque]
pub open spec fn block_moves<B: Bus>(
    m: Core<B>,
    load: bool,
    s: bool,
    list: u32,
    start: u32,
    back: bool,
    rn: int,
    end: u32,
    r: Core<B>,
) -> bool {
    let keeps = rn == 15 && arm::listed(list, 15) || load && arm::listed(list, rn as nat);
    let l = arm::block_loaded(m, start, list, s && !arm::listed(list, 15), 16);
    let done = if load {
        arm::block_jumped(l.m.cpu, s, l.pc)
    } else {
        m.cpu
    };
    &&& r.bus == if load {
        l.m.bus
    } else {
        arm::block_stored(m, start, list, s, 16).0
    }
    &&& later(
        if back && !keeps {
            sets(done, rn, end as int)
        } else {
            done
        },
        r.cpu,
    )
}

#[verifier::rlimit(60)]
proof fn lemma_block_transferred<B: Bus>(m: Core<B>, inst: u32)
    ensures
        ({
            let rn = (inst >> 16) & 0xF;
            let list = inst & 0xFFFF;
            let n = arm::count_listed(list, 16);
            block_moves(
                m,
                inst & 0x10_0000 != 0,
                inst & 0x40_0000 != 0,
                list,
                arm::block_start(inst, m.cpu.value(rn), n),
                inst & 0x20_0000 != 0,
                rn as int,
                arm::indexed(inst, m.cpu.value(rn), (4 * n) as u32),
                arm::block_transferred(m, inst),
            )
        }),
{
    reveal(arm::block_transferred);
    reveal(block_moves);
    lemma_all_sets();
}

#[verifier::rlimit(60)]
proof fn lemma_block_dispatch<B: Bus>(m: Core<B>, inst: u32)
    requires
        arm::condition(m.cpu.cpsr, inst / 0x1000_0000),
        inst / 0x200_0000 % 8 == 4,
    ensures
        arm::executed(m, inst) == arm::block_transferred(m, inst),
        inst & 0xFFFF == inst % 0x1_0000,
{
    lemma_fields(inst);
    assert(inst / 0x400_0000 % 4 == 2) by {
        assert(inst / 0x200_0000 / 2 == inst / 0x400_0000);
    }
    lemma_classes(inst);
    reveal(arm::dispatched);
}

/// A block transfer stores, or with bit 20 loads, the listed registers, and with
/// bit 21 leaves the end of the block in the base register, unless the block
/// loaded it. With bit 22 it is the user's registers that are meant, or, where
/// r15 is loaded, that the CPSR is restored with it.
#[verifier::rlimit(60)]
pub proof fn law_block_transfer<B: Bus>(m: Core<B>, inst: u32)
    requires
        arm::condition(m.cpu.cpsr, inst / 0x1000_0000),
        inst / 0x200_0000 % 8 == 4,
    ensures
        ({
            let list = (inst % 0x1_0000) as u32;
            let n = arm::count_listed(list, 16);
            let base = reads(m.cpu, inst as int / 0x1_0000 % 16);
            block_moves(
                m,
                inst / 0x10_0000 % 2 == 1,
                inst / 0x40_0000 % 2 == 1,
                list,
                arm::block_start(inst, base, n),
                inst / 0x20_0000 % 2 == 1,
                inst as int / 0x1_0000 % 16,
                arm::indexed(inst, base, (4 * n) as u32),
                arm::executed(m, inst),
            )
        }),
{
    let rn = (inst >> 16) & 0xF;
    let list = inst & 0xFFFF;
    let n = arm::count_listed(list, 16);
    assert(arm::executed(m, inst) == arm::block_transferred(m, inst) && list == (inst
        % 0x1_0000) as u32) by {
        lemma_block_dispatch(m, inst);
    }
    assert(rn == inst as int / 0x1_0000 % 16 && (inst & 0x10_0000 != 0) == (inst / 0x10_0000 % 2
        == 1) && (inst & 0x40_0000 != 0) == (inst / 0x40_0000 % 2 == 1) && (inst & 0x20_0000 != 0)
        == (inst / 0x20_0000 % 2 == 1)) by {
        lemma_transfer_fields(inst);
    }
    assert(m.cpu.value(rn) == reads(m.cpu, inst as int / 0x1_0000 % 16)) by {
        lemma_sets(m.cpu, rn, 0);
    }
    lemma_block_transferred(m, inst);
}

/// MRS: the destination holds the CPSR, or with bit 22 the SPSR of the mode.
pub proof fn law_status_read<B: Bus>(m: Core<B>, inst: u32)
    requires
        arm::condition(m.cpu.cpsr, inst / 0x1000_0000),
        inst / 0x80_0000 % 32 == 2,
        inst / 0x1_0000 % 64 == 0xF,
        inst / 0x10 % 256 == 0,
    ensures
        ({
            let r = arm::executed(m, inst);
            &&& later(
                sets(
                    m.cpu,
                    inst as int / 0x1000 % 16,
                    (if inst / 0x40_0000 % 2 == 1 {
                        m.cpu.spsr_of(m.cpu.cpsr & 0x1F)
                    } else {
                        m.cpu.cpsr
                    }) as int,
                ),
                r.cpu,
            )
            &&& r.bus == m.bus
        }),
{
    lemma_read_dispatch(m, inst);
    lemma_transfer_fields(inst);
    reveal(arm::mrs_read);
    lemma_all_sets();
}

proof fn lemma_read_class(inst: u32)
    requires
        inst / 0x80_0000 % 32 == 2,
        inst / 0x1_0000 % 64 == 0xF,
        inst / 0x10 % 256 == 0,
    ensures
        inst & 0x0FFF_FFF0 != 0x012F_FF10,
        inst & 0x0FBF_0FF0 == 0x010F_0000,
{
    lemma_classes(inst);
}

#[verifier::rlimit(60)]
proof fn lemma_read_dispatch<B: Bus>(m: Core<B>, inst: u32)
    requires
        arm::condition(m.cpu.cpsr, inst / 0x1000_0000),
        inst / 0x80_0000 % 32 == 2,
        inst / 0x1_0000 % 64 == 0xF,
        inst / 0x10 % 256 == 0,
    ensures
        arm::executed(m, inst) == m.with_cpu(arm::mrs_read(m.cpu, inst)),
{
    lemma_condition_field(inst);
    lemma_read_class(inst);
    reveal(arm::dispatched);
}

/// MSR: with bit 19 the four flags are those of the value; with bit 16, outside
/// the user modes, the low byte is. Everything else stays.
pub proof fn law_status_written(c: Cpu, inst: u32, value: u32)
    requires
        inst / 0x40_0000 % 2 == 0,
    ensures
        ({
            let r = arm::msr_written(c, inst, value);
            let low = inst / 0x1_0000 % 2 == 1 && c.cpsr & 0x1F != 0x10 && c.cpsr & 0x1F != 0x1F;
            &&& r.cpsr & 0xF000_0000 == if inst / 0x8_0000 % 2 == 1 {
                value & 0xF000_0000
            } else {
                c.cpsr & 0xF000_0000
            }
            &&& r.cpsr & 0xFF == if low {
                value & 0xFF
            } else {
                c.cpsr & 0xFF
            }
            &&& r.cpsr & 0x0FFF_FF00 == c.cpsr & 0x0FFF_FF00
        }),
{
    reveal(arm::msr_written);
    lemma_transfer_fields(inst);
    let f = c.cpsr;
    let v1 = if ((inst >> 16) & 0xF) & 8 != 0 {
        (f & !0xF000_0000u32) | (value & 0xF000_0000)
    } else {
        f
    };
    lemma_status_bits(f, value, inst);
    lemma_status_bits(v1, value, inst);
}

proof fn lemma_status_bits(f: u32, v: u32, inst: u32)
    ensures
        ((f & !0xF000_0000u32) | (v & 0xF000_0000)) & 0xF000_0000 == v & 0xF000_0000,
        ((f & !0xF000_0000u32) | (v & 0xF000_0000)) & 0xFF == f & 0xFF,
        ((f & !0xF000_0000u32) | (v & 0xF000_0000)) & 0x0FFF_FF00 == f & 0x0FFF_FF00,
        ((f & !0xFFu32) | (v & 0xFF)) & 0xF000_0000 == f & 0xF000_0000,
        ((f & !0xFFu32) | (v & 0xFF)) & 0xFF == v & 0xFF,
        ((f & !0xFFu32) | (v & 0xFF)) & 0x0FFF_FF00 == f & 0x0FFF_FF00,
        (((inst >> 16) & 0xF) & 8 != 0) == (inst / 0x8_0000 % 2 == 1),
        (((inst >> 16) & 0xF) & 1 != 0) == (inst / 0x1_0000 % 2 == 1),
{
    assert(((f & !0xF000_0000u32) | (v & 0xF000_0000)) & 0xF000_0000 == v & 0xF000_0000 && ((f
        & !0xF000_0000u32) | (v & 0xF000_0000)) & 0xFF == f & 0xFF && ((f & !0xF000_0000u32) | (v
        & 0xF000_0000)) & 0x0FFF_FF00 == f & 0x0FFF_FF00 && ((f & !0xFFu32) | (v & 0xFF))
        & 0xF000_0000 == f & 0xF000_0000 && ((f & !0xFFu32) | (v & 0xFF)) & 0xFF == v & 0xFF && ((f
        & !0xFFu32) | (v & 0xFF)) & 0x0FFF_FF00 == f & 0x0FFF_FF00 && (((inst >> 16) & 0xF) & 8 != 0)
        == (inst / 0x8_0000 % 2 == 1) && (((inst >> 16) & 0xF) & 1 != 0) == (inst / 0x1_0000 % 2
        == 1)) by (bit_vector);
}

} // verus!
