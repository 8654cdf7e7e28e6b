//! What the instructions do, told by the values they read and leave.

use crate::bits::{bit32, lemma_bits32};
use crate::gba::cpu::arm;
use crate::gba::cpu::{field, flag, Bus, Core, Cpu};
use vstd::prelude::*;

verus! {

/// The fields of an instruction word by shifts and masks, and by division.
pub proof fn lemma_fields(x: u32)
    by (bit_vector)
    ensures
        x >> 28 == x / 0x1000_0000,
        (x >> 21) & 0xF == x / 0x20_0000 % 16,
        (x >> 16) & 0xF == x / 0x1_0000 % 16,
        (x >> 16) & 0xFF == x / 0x1_0000 % 256,
        (x >> 12) & 0xF == x / 0x1000 % 16,
        (x >> 8) & 0xF == x / 0x100 % 16,
        x & 0xF == x % 16,
        x & 0xFF == x % 256,
        x & 0xFFF == x % 0x1000,
        x & 0xFFFF == x % 0x1_0000,
        x & 0x00FF_FFFF == x % 0x100_0000,
        (x >> 7) & 0x1F == x / 0x80 % 32,
        (x >> 5) & 3 == x / 0x20 % 4,
        (x & 0x10 != 0) == (x / 0x10 % 2 == 1),
        (x & 0x20 != 0) == (x / 0x20 % 2 == 1),
        (x & 0x40 != 0) == (x / 0x40 % 2 == 1),
        (x & 0x10_0000 != 0) == (x / 0x10_0000 % 2 == 1),
        (x & 0x20_0000 != 0) == (x / 0x20_0000 % 2 == 1),
        (x & 0x40_0000 != 0) == (x / 0x40_0000 % 2 == 1),
        (x & 0x80_0000 != 0) == (x / 0x80_0000 % 2 == 1),
        (x & 0x100_0000 != 0) == (x / 0x100_0000 % 2 == 1),
        (x & 0x200_0000 != 0) == (x / 0x200_0000 % 2 == 1),
        x & !1u32 == x / 2 * 2,
        x & !3u32 == x / 4 * 4,
        (x & 1 != 0) == (x % 2 == 1),
        (x & 0x8000_0000 != 0) == (x >= 0x8000_0000),
        (x >> 31 != 0) == (x >= 0x8000_0000),
{
}

/// The classes of instruction words, by their fields, among the patterns that
/// the decoder tries in turn.
pub proof fn lemma_classes(x: u32)
    by (bit_vector)
    ensures
        // Data processing.
        x / 0x400_0000 % 4 == 0 && (x / 0x200_0000 % 2 == 1 || x / 0x80 % 2 == 0 || x / 0x10 % 2
            == 0) && (x / 0x20_0000 % 16 < 8 || x / 0x20_0000 % 16 > 11 || x / 0x10_0000 % 2 == 1)
            ==> x & 0x0FFF_FFF0 != 0x012F_FF10 && x & 0x0FBF_0FF0 != 0x010F_0000 && x & 0x0FB0_FFF0
            != 0x0120_F000 && x & 0x0FB0_F000 != 0x0320_F000 && x & 0x0C00_0000 == 0 && x
            & 0x0FB0_00F0 != 0x0100_0090 && x & 0x0F80_00F0 != 0x0080_0090 && x & 0x0FC0_00F0
            != 0x0000_0090 && x & 0x0E00_0090 != 0x0000_0090,
        // Multiplication, long multiplication and swap.
        x / 0x10 % 16 == 9 && x / 0x200_0000 % 8 == 0 ==> x & 0x0FFF_FFF0 != 0x012F_FF10 && x
            & 0x0FBF_0FF0 != 0x010F_0000 && x & 0x0FB0_FFF0 != 0x0120_F000 && x & 0x0FB0_F000
            != 0x0320_F000 && x & 0x0C00_0000 == 0,
        x / 0x10 % 16 == 9 ==> (x & 0x0FB0_00F0 == 0x0100_0090) == (x / 0x80_0000 % 32 == 2 && x
            / 0x10_0000 % 4 == 0),
        x / 0x10 % 16 == 9 ==> (x & 0x0F80_00F0 == 0x0080_0090) == (x / 0x80_0000 % 32 == 1),
        x / 0x10 % 16 == 9 ==> (x & 0x0FC0_00F0 == 0x0000_0090) == (x / 0x40_0000 % 64 == 0),
        // Halfword and signed transfers.
        x / 0x200_0000 % 8 == 0 && x / 0x80 % 2 == 1 && x / 0x10 % 2 == 1 && x / 0x20 % 4 != 0 ==> x
            & 0x0FFF_FFF0 != 0x012F_FF10 && x & 0x0FBF_0FF0 != 0x010F_0000 && x & 0x0FB0_FFF0
            != 0x0120_F000 && x & 0x0FB0_F000 != 0x0320_F000 && x & 0x0C00_0000 == 0 && x
            & 0x0FB0_00F0 != 0x0100_0090 && x & 0x0F80_00F0 != 0x0080_0090 && x & 0x0FC0_00F0
            != 0x0000_0090 && x & 0x0E00_0090 == 0x0000_0090,
        // Everything beyond bits 27 and 26.
        x / 0x400_0000 % 4 != 0 ==> x & 0x0FFF_FFF0 != 0x012F_FF10 && x & 0x0FBF_0FF0 != 0x010F_0000
            && x & 0x0FB0_FFF0 != 0x0120_F000 && x & 0x0FB0_F000 != 0x0320_F000 && x & 0x0C00_0000
            != 0,
        (x & 0x0C00_0000 == 0x0400_0000) == (x / 0x400_0000 % 4 == 1),
        (x & 0x0E00_0000 == 0x0800_0000) == (x / 0x200_0000 % 8 == 4),
        (x & 0x0E00_0000 == 0x0A00_0000) == (x / 0x200_0000 % 8 == 5),
        (x & 0x0E00_0000 == 0x0C00_0000) == (x / 0x200_0000 % 8 == 6),
        (x & 0x0F00_0000 == 0x0E00_0000) == (x / 0x100_0000 % 16 == 14),
        (x & 0x0F00_0000 == 0x0F00_0000) == (x / 0x100_0000 % 16 == 15),
        // The exchange and the status registers.
        x & 0x0FBF_0FF0 == 0x010F_0000 ==> x & 0x0FFF_FFF0 != 0x012F_FF10,
        (x & 0x0FFF_FFF0 == 0x012F_FF10) == (x / 16 % 0x100_0000 == 0x12_FFF1),
        (x & 0x0FBF_0FF0 == 0x010F_0000) == (x / 0x80_0000 % 32 == 2 && x / 0x1_0000 % 64 == 0xF
            && x / 16 % 256 == 0),
        (x & 0x0FB0_FFF0 == 0x0120_F000) == (x / 0x80_0000 % 32 == 2 && x / 0x10_0000 % 4 == 2 && x
            / 16 % 0x1000 == 0xF00),
        (x & 0x0FB0_F000 == 0x0320_F000) == (x / 0x80_0000 % 32 == 6 && x / 0x10_0000 % 4 == 2 && x
            / 0x1000 % 16 == 15),
{
}

/// The signs in the overflow of `a`, `b` and a result `r`, and a flag set or
/// cleared in `f`.
pub proof fn lemma_signs_and_flags(a: u32, b: u32, r: u32, f: u32)
    by (bit_vector)
    ensures
        ((a ^ r) & (b ^ r) & 0x8000_0000 != 0) == (((a >= 0x8000_0000) != (r >= 0x8000_0000)) && ((b
            >= 0x8000_0000) != (r >= 0x8000_0000))),
        ((a ^ b) & (a ^ r) & 0x8000_0000 != 0) == (((a >= 0x8000_0000) != (b >= 0x8000_0000)) && ((a
            >= 0x8000_0000) != (r >= 0x8000_0000))),
        (f & !0xF000_0000u32) & 0x8000_0000 == 0,
        (f & !0xF000_0000u32) & 0x4000_0000 == 0,
        (f & !0xF000_0000u32) & 0x2000_0000 == 0,
        (f & !0xF000_0000u32) & 0x1000_0000 == 0,
        (f & !0xF000_0000u32) & 0x0FFF_FFFF == f & 0x0FFF_FFFF,
        (f | 0x8000_0000) & 0x8000_0000 != 0,
        (f | 0x8000_0000) & 0x4000_0000 == f & 0x4000_0000,
        (f | 0x8000_0000) & 0x2000_0000 == f & 0x2000_0000,
        (f | 0x8000_0000) & 0x1000_0000 == f & 0x1000_0000,
        (f | 0x8000_0000) & 0x0FFF_FFFF == f & 0x0FFF_FFFF,
        (f | 0x4000_0000) & 0x8000_0000 == f & 0x8000_0000,
        (f | 0x4000_0000) & 0x4000_0000 != 0,
        (f | 0x4000_0000) & 0x2000_0000 == f & 0x2000_0000,
        (f | 0x4000_0000) & 0x1000_0000 == f & 0x1000_0000,
        (f | 0x4000_0000) & 0x0FFF_FFFF == f & 0x0FFF_FFFF,
        (f | 0x2000_0000) & 0x8000_0000 == f & 0x8000_0000,
        (f | 0x2000_0000) & 0x4000_0000 == f & 0x4000_0000,
        (f | 0x2000_0000) & 0x2000_0000 != 0,
        (f | 0x2000_0000) & 0x1000_0000 == f & 0x1000_0000,
        (f | 0x2000_0000) & 0x0FFF_FFFF == f & 0x0FFF_FFFF,
        (f | 0x1000_0000) & 0x8000_0000 == f & 0x8000_0000,
        (f | 0x1000_0000) & 0x4000_0000 == f & 0x4000_0000,
        (f | 0x1000_0000) & 0x2000_0000 == f & 0x2000_0000,
        (f | 0x1000_0000) & 0x1000_0000 != 0,
        (f | 0x1000_0000) & 0x0FFF_FFFF == f & 0x0FFF_FFFF,
        f & 0x1F == (f & 0x0FFF_FFFF) & 0x1F,
        f & 0x20 == (f & 0x0FFF_FFFF) & 0x20,
{
}

/// Whether the flags N, Z, C and V of `cpsr` are the given ones.
pub open spec fn flags_are(cpsr: u32, n: bool, z: bool, c: bool, v: bool) -> bool {
    &&& (cpsr & 0x8000_0000 != 0) == n
    &&& (cpsr & 0x4000_0000 != 0) == z
    &&& (cpsr & 0x2000_0000 != 0) == c
    &&& (cpsr & 0x1000_0000 != 0) == v
}

/// The flags that an operation sets read back; the rest of the CPSR stays.
#[verifier::rlimit(60)]
pub proof fn lemma_flagged(cpsr: u32, result: u32, c: bool, v: bool)
    ensures
        flags_are(
            arm::flagged(cpsr, result, c, v),
            result >= 0x8000_0000,
            result == 0,
            c,
            v,
        ),
        arm::flagged(cpsr, result, c, v) & 0x0FFF_FFFF == cpsr & 0x0FFF_FFFF,
        arm::flagged(cpsr, result, c, v) & 0x1F == cpsr & 0x1F,
        arm::flagged(cpsr, result, c, v) & 0x20 == cpsr & 0x20,
{
    lemma_fields(result);
    let f0 = cpsr & !field::FLAGS;
    let f1 = if result & 0x8000_0000 != 0 {
        f0 | flag::N
    } else {
        f0
    };
    let f2 = if result == 0 {
        f1 | flag::Z
    } else {
        f1
    };
    let f3 = if c {
        f2 | flag::C
    } else {
        f2
    };
    lemma_signs_and_flags(0, 0, 0, cpsr);
    lemma_signs_and_flags(0, 0, 0, f0);
    lemma_signs_and_flags(0, 0, 0, f1);
    lemma_signs_and_flags(0, 0, 0, f2);
    lemma_signs_and_flags(0, 0, 0, f3);
    lemma_signs_and_flags(0, 0, 0, arm::flagged(cpsr, result, c, v));
}

/// The value of a word in two's complement.
pub open spec fn signed(v: u32) -> int {
    if v >= 0x8000_0000 {
        v - 0x1_0000_0000
    } else {
        v as int
    }
}

/// Whether `n` is no value of a word in two's complement.
pub open spec fn beyond(n: int) -> bool {
    n < -0x8000_0000 || n >= 0x8000_0000
}

/// What register `n` reads: r15 is two instructions ahead of the one that
/// executes, of which PC has moved past the first.
pub open spec fn reads(c: Cpu, n: int) -> u32 {
    if n == 15 {
        ((c.pc + (if c.cpsr & 0x20 != 0 {
            2int
        } else {
            4
        })) % 0x1_0000_0000) as u32
    } else {
        c.regs[n]
    }
}

/// 1 for a set carry flag.
pub open spec fn carry_in(c: Cpu) -> int {
    if c.cpsr & 0x2000_0000 != 0 {
        1
    } else {
        0
    }
}

/// Whether `r` is what the operation `op` makes of the first operand `a`, the
/// second operand `b` and the carry `k`: AND, EOR, SUB, RSB, ADD, ADC, SBC,
/// RSC, TST, TEQ, CMP, CMN, ORR, MOV, BIC, MVN.
pub open spec fn makes(op: int, a: u32, b: u32, k: int, r: u32) -> bool {
    if op == 0 || op == 8 {
        forall|i: u32| i < 32 ==> #[trigger] bit32(r, i) == (bit32(a, i) && bit32(b, i))
    } else if op == 1 || op == 9 {
        forall|i: u32| i < 32 ==> #[trigger] bit32(r, i) == (bit32(a, i) != bit32(b, i))
    } else if op == 2 || op == 10 {
        (r + b - a) % 0x1_0000_0000 == 0
    } else if op == 3 {
        (r + a - b) % 0x1_0000_0000 == 0
    } else if op == 4 || op == 11 {
        (r - a - b) % 0x1_0000_0000 == 0
    } else if op == 5 {
        (r - a - b - k) % 0x1_0000_0000 == 0
    } else if op == 6 {
        (r + b + 1 - k - a) % 0x1_0000_0000 == 0
    } else if op == 7 {
        (r + a + 1 - k - b) % 0x1_0000_0000 == 0
    } else if op == 12 {
        forall|i: u32| i < 32 ==> #[trigger] bit32(r, i) == (bit32(a, i) || bit32(b, i))
    } else if op == 13 {
        r == b
    } else if op == 14 {
        forall|i: u32| i < 32 ==> #[trigger] bit32(r, i) == (bit32(a, i) && !bit32(b, i))
    } else {
        forall|i: u32| i < 32 ==> #[trigger] bit32(r, i) == !bit32(b, i)
    }
}

/// The carry of the operation `op`: the logical ones pass on the shifter's,
/// a sum carries out of bit 31, a difference carries unless it borrows. SBC and
/// RSC join the carries of their two steps, of which one is always set.
pub open spec fn carries(op: int, a: u32, b: u32, k: int, shifter: bool) -> bool {
    if op == 2 || op == 10 {
        a >= b
    } else if op == 3 {
        b >= a
    } else if op == 4 || op == 11 {
        a + b >= 0x1_0000_0000
    } else if op == 5 {
        a + b + k >= 0x1_0000_0000
    } else if op == 6 || op == 7 {
        true
    } else {
        shifter
    }
}

/// The overflow of the operation `op`: none of the logical ones, otherwise a
/// signed result, or one on the way to it, that no word can hold.
pub open spec fn overflows(op: int, a: u32, b: u32, k: int) -> bool {
    let (x, y) = (signed(a), signed(b));
    if op == 2 || op == 10 {
        beyond(x - y)
    } else if op == 3 {
        beyond(y - x)
    } else if op == 4 || op == 11 {
        beyond(x + y)
    } else if op == 5 {
        beyond(x + y) || beyond(x + y + k)
    } else if op == 6 {
        beyond(x - y) || beyond(x - y - (1 - k))
    } else if op == 7 {
        beyond(y - x) || beyond(y - x - (1 - k))
    } else {
        false
    }
}

pub proof fn lemma_sum(a: u32, b: u32)
    ensures
        arm::sum_flags(a, b).1 == (a + b >= 0x1_0000_0000),
        arm::sum_flags(a, b).2 == beyond(signed(a) + signed(b)),
        arm::sum_flags(a, b).0 == (a + b) % 0x1_0000_0000,
{
    lemma_signs_and_flags(a, b, arm::sum_flags(a, b).0, 0);
}

pub proof fn lemma_difference(a: u32, b: u32)
    ensures
        arm::difference_flags(a, b).1 == (a >= b),
        arm::difference_flags(a, b).2 == beyond(signed(a) - signed(b)),
        arm::difference_flags(a, b).0 == (a - b) % 0x1_0000_0000,
{
    lemma_signs_and_flags(a, b, arm::difference_flags(a, b).0, 0);
}

#[verifier::rlimit(60)]
proof fn lemma_carried(a: u32, b: u32, carry: bool)
    ensures
        ({
            let k: int = if carry {
                1
            } else {
                0
            };
            let (r, c, v) = arm::adc(a, b, carry);
            &&& r == (a + b + k) % 0x1_0000_0000
            &&& c == (a + b + k >= 0x1_0000_0000)
            &&& v == (beyond(signed(a) + signed(b)) || beyond(signed(a) + signed(b) + k))
        }),
        ({
            let k: int = if carry {
                1
            } else {
                0
            };
            let (r, c, v) = arm::sbc(a, b, carry);
            &&& r == (a - b - (1 - k)) % 0x1_0000_0000
            &&& c
            &&& v == (beyond(signed(a) - signed(b)) || beyond(signed(a) - signed(b) - (1 - k)))
        }),
{
    let k: u32 = if carry {
        1
    } else {
        0
    };
    lemma_sum(a, b);
    lemma_sum(arm::sum_flags(a, b).0, k);
    lemma_difference(a, b);
    lemma_difference(arm::difference_flags(a, b).0, (1 - k) as u32);
}

proof fn lemma_remainder(r: int, n: int)
    requires
        r == n % 0x1_0000_0000,
    ensures
        (r - n) % 0x1_0000_0000 == 0,
{
}

/// Whether the operation is a logical one.
pub open spec fn is_logical(op: int) -> bool {
    op < 2 || op == 8 || op == 9 || op >= 12
}

#[verifier::rlimit(60)]
proof fn lemma_arithmetic(op: u32, a: u32, b: u32, shifter: bool, carry: bool, k: int)
    requires
        op < 16,
        !is_logical(op as int),
        k == if carry { 1int } else { 0 },
    ensures
        ({
            let (r, c, v) = arm::operation(op, a, b, shifter, carry);
            &&& makes(op as int, a, b, k, r)
            &&& c == carries(op as int, a, b, k, shifter)
            &&& v == overflows(op as int, a, b, k)
        }),
{
    reveal(arm::operation);
    let r = arm::operation(op, a, b, shifter, carry).0 as int;
    if op == 2 || op == 10 {
        lemma_difference(a, b);
        lemma_remainder(r, a - b);
    } else if op == 3 {
        lemma_difference(b, a);
        lemma_remainder(r, b - a);
    } else if op == 4 || op == 11 {
        lemma_sum(a, b);
        lemma_remainder(r, a + b);
    } else if op == 5 {
        lemma_carried(a, b, carry);
        lemma_remainder(r, a + b + k);
    } else if op == 6 {
        lemma_carried(a, b, carry);
        lemma_remainder(r, a - b - (1 - k));
    } else {
        lemma_carried(b, a, carry);
        lemma_remainder(r, b - a - (1 - k));
    }
}

#[verifier::rlimit(60)]
proof fn lemma_logical(op: u32, a: u32, b: u32, shifter: bool, carry: bool, k: int)
    requires
        op < 16,
        is_logical(op as int),
    ensures
        ({
            let (r, c, v) = arm::operation(op, a, b, shifter, carry);
            &&& makes(op as int, a, b, k, r)
            &&& c == carries(op as int, a, b, k, shifter)
            &&& v == overflows(op as int, a, b, k)
        }),
{
    reveal(arm::operation);
    assert forall|i: u32| i < 32 implies #[trigger] bit32(a & b, i) == (bit32(a, i) && bit32(b, i)) by {
        lemma_bits32(a, b, i);
    }
    assert forall|i: u32| i < 32 implies #[trigger] bit32(a ^ b, i) == (bit32(a, i) != bit32(b, i)) by {
        lemma_bits32(a, b, i);
    }
    assert forall|i: u32| i < 32 implies #[trigger] bit32(a | b, i) == (bit32(a, i) || bit32(b, i)) by {
        lemma_bits32(a, b, i);
    }
    assert forall|i: u32| i < 32 implies #[trigger] bit32(a & !b, i) == (bit32(a, i) && !bit32(
        b,
        i,
    )) by {
        lemma_bits32(a, b, i);
    }
    assert forall|i: u32| i < 32 implies #[trigger] bit32(!b, i) == !bit32(b, i) by {
        lemma_bits32(b, b, i);
    }
}

/// The operations of data processing leave what their relations say.
pub proof fn lemma_operation(op: u32, a: u32, b: u32, shifter: bool, carry: bool, k: int)
    requires
        op < 16,
        k == if carry { 1int } else { 0 },
    ensures
        ({
            let (r, c, v) = arm::operation(op, a, b, shifter, carry);
            &&& makes(op as int, a, b, k, r)
            &&& c == carries(op as int, a, b, k, shifter)
            &&& v == overflows(op as int, a, b, k)
        }),
{
    if is_logical(op as int) {
        lemma_logical(op, a, b, shifter, carry, k);
    } else {
        lemma_arithmetic(op, a, b, shifter, carry, k);
    }
}

/// Whether `inst` is a data-processing instruction: not a multiplication, a
/// swap, a halfword transfer, an exchange or an access to a status register,
/// which share its space.
pub open spec fn is_data(inst: u32) -> bool {
    let op = inst / 0x20_0000 % 16;
    &&& inst / 0x400_0000 % 4 == 0
    &&& inst / 0x200_0000 % 2 == 1 || inst / 0x80 % 2 == 0 || inst / 0x10 % 2 == 0
    &&& 8 <= op <= 11 ==> inst / 0x10_0000 % 2 == 1
}

#[verifier::rlimit(60)]
proof fn lemma_dispatch_data<B: Bus>(m: Core<B>, inst: u32)
    requires
        is_data(inst),
    ensures
        arm::dispatched(m, inst) == m.with_cpu(arm::data_processed(m.cpu, inst)),
{
    lemma_classes(inst);
    reveal(arm::dispatched);
    reveal(arm::family_executed);
}

/// What a data-processing instruction with the result `res` leaves of `c`. The
/// comparisons set the flags alone; the others write the destination, and set
/// the flags if they ask for it.
pub open spec fn processes(c: Cpu, inst: u32, res: u32, r: Cpu) -> bool {
    let op = inst as int / 0x20_0000 % 16;
    let rd = inst as int / 0x1000 % 16;
    let a = reads(c, inst as int / 0x1_0000 % 16);
    let (b, shifter) = arm::operand2(c, inst);
    &&& makes(op, a, b, carry_in(c), res)
    &&& if inst / 0x10_0000 % 2 == 1 {
        &&& flags_are(
            r.cpsr,
            res >= 0x8000_0000,
            res == 0,
            carries(op, a, b, carry_in(c), shifter),
            overflows(op, a, b, carry_in(c)),
        )
        &&& r.cpsr & 0x0FFF_FFFF == c.cpsr & 0x0FFF_FFFF
    } else {
        r.cpsr == c.cpsr
    }
    &&& forall|n: int|
        0 <= n < 16 ==> #[trigger] r.regs[n] == if n == rd && !(8 <= op <= 11) {
            res
        } else {
            c.regs[n]
        }
    &&& r.pc == c.pc
}

/// A data-processing instruction whose condition holds and whose destination is
/// not r15 leaves in it the value that its operation is to make: AND, EOR, ORR,
/// BIC and MVN bit by bit, ADD, SUB and RSB as the sum and the differences
/// modulo 2^32, and so on. RSB is the difference the other way round: adding
/// the first operand to it gives the second one back.
#[verifier::rlimit(60)]
pub proof fn law_data_processing<B: Bus>(m: Core<B>, inst: u32)
    requires
        is_data(inst),
        arm::condition(m.cpu.cpsr, inst >> 28),
        inst / 0x1000 % 16 != 15,
    ensures
        exists|res: u32| processes(m.cpu, inst, res, arm::executed(m, inst).cpu),
        arm::executed(m, inst).bus == m.bus,
{
    lemma_dispatch_data(m, inst);
    lemma_fields(inst);
    reveal(arm::data_processed);
    reveal(arm::dp_written);
    let op = (inst >> 21) & 0xF;
    let a = reads(m.cpu, inst as int / 0x1_0000 % 16);
    let (b, shifter) = arm::operand2(m.cpu, inst);
    let (res, c, v) = arm::operation(op, a, b, shifter, m.cpu.carry());
    lemma_operation(op, a, b, shifter, m.cpu.carry(), carry_in(m.cpu));
    lemma_flagged(m.cpu.cpsr, res, c, v);
    assert(processes(m.cpu, inst, res, arm::executed(m, inst).cpu));
}

/// A data-processing instruction that writes r15 without bit 20 jumps to its
/// result, aligned to a word.
#[verifier::rlimit(60)]
pub proof fn law_data_processing_jump<B: Bus>(m: Core<B>, inst: u32)
    requires
        is_data(inst),
        arm::condition(m.cpu.cpsr, inst >> 28),
        inst / 0x1000 % 16 == 15,
        inst / 0x10_0000 % 2 == 0,
        m.cpu.cpsr & 0x20 == 0,
    ensures
        ({
            let op = inst as int / 0x20_0000 % 16;
            let a = reads(m.cpu, inst as int / 0x1_0000 % 16);
            let b = arm::operand2(m.cpu, inst).0;
            let r = arm::executed(m, inst).cpu;
            &&& exists|res: u32| #[trigger]
                makes(op, a, b, carry_in(m.cpu), res) && r.pc == res / 4 * 4
            &&& r == (Cpu { pc: r.pc, cycles: r.cycles, ..m.cpu })
        }),
{
    lemma_dispatch_data(m, inst);
    lemma_fields(inst);
    let op = (inst >> 21) & 0xF;
    let a = reads(m.cpu, inst as int / 0x1_0000 % 16);
    let (b, shifter) = arm::operand2(m.cpu, inst);
    let (res, c, v) = arm::operation(op, a, b, shifter, m.cpu.carry());
    lemma_operation(op, a, b, shifter, m.cpu.carry(), carry_in(m.cpu));
    assert(res & !3u32 == res / 4 * 4) by {
        lemma_fields(res);
    }
    reveal(arm::data_processed);
    reveal(arm::dp_written);
    assert(makes(op as int, a, b, carry_in(m.cpu), res));
}

} // verus!
