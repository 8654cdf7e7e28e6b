//! The flag register: its low four bits do not exist.

use crate::gb::bus::Model;
use crate::gb::cartridge::CartState;
use crate::gb::cpu::{with_flag, with_flags, Cpu, Machine};
use vstd::prelude::*;

verus! {

/// Whether only the four condition flags of F can be set.
pub open spec fn bare(f: u8) -> bool {
    f & 0x0F == 0
}

broadcast proof fn lemma_with_flag(f: u8, mask: u8, v: bool)
    requires
        bare(f),
        mask == 0x80 || mask == 0x40 || mask == 0x20 || mask == 0x10,
    ensures
        bare(#[trigger] with_flag(f, mask, v)),
{
    assert(((f & !mask) | mask) & 0x0F == 0 && ((f & !mask) | 0) & 0x0F == 0) by (bit_vector)
        requires
            f & 0x0F == 0,
            mask == 0x80 || mask == 0x40 || mask == 0x20 || mask == 0x10,
    ;
}

broadcast proof fn lemma_with_flags(f: u8, z: bool, n: bool, h: bool, c: bool)
    requires
        bare(f),
    ensures
        bare(#[trigger] with_flags(f, z, n, h, c)),
{
    broadcast use lemma_with_flag;

}

proof fn lemma_alu(cpu: Cpu, op: u8, v: u8)
    requires
        bare(cpu.f),
    ensures
        bare(cpu.after_alu(op, v).f),
{
    broadcast use lemma_with_flags;

    reveal(Cpu::after_alu);
}

proof fn lemma_acc(cpu: Cpu, op: u8)
    requires
        bare(cpu.f),
    ensures
        bare(cpu.after_acc(op).f),
{
    broadcast use {lemma_with_flag, lemma_with_flags};

    reveal(Cpu::after_acc);
    reveal(Cpu::after_daa);
}

proof fn lemma_high_half(v: u8)
    ensures
        ((v / 16 * 16) as u8) & 0x0F == 0,
{
    assert(((v / 16 * 16) as u8) & 0x0F == 0) by (bit_vector);
}

proof fn lemma_popped(cpu: Cpu, p: u8, v: u16)
    requires
        bare(cpu.f),
    ensures
        bare(cpu.with_stack_pair(p, v).f),
{
    lemma_high_half((v % 256) as u8);
}

/// Whatever only moves data between registers and memory keeps the flags.
proof fn lemma_moves(m: Machine, i: u8, v: u8, w: u16)
    ensures
        m.operand(i).0.cpu.f == m.cpu.f,
        m.store(i, v).cpu.f == m.cpu.f,
        m.fetch8().0.cpu.f == m.cpu.f,
        m.fetch16().0.cpu.f == m.cpu.f,
        m.tick().cpu.f == m.cpu.f,
        m.push16(w).cpu.f == m.cpu.f,
        m.pop16().0.cpu.f == m.cpu.f,
{
    reveal(Machine::tick);
    reveal(Machine::push16);
}

proof fn lemma_block0(m: Machine, y: u8, z: u8)
    requires
        bare(m.cpu.f),
        y < 8,
        z < 8,
    ensures
        bare(m.exec_block0(y, z).cpu.f),
{
    broadcast use {lemma_with_flag, lemma_with_flags};

    reveal(Machine::exec_block0);
    reveal(Machine::tick);
    lemma_moves(m, y, 0, 0);
    if z == 0 {
        reveal(Machine::ld_a16_sp);
        reveal(Machine::stop);
        reveal(Machine::jr);
    } else if z == 1 {
        reveal(Machine::ld_pair_d16);
        reveal(Machine::add_hl_pair);
        reveal(Cpu::after_add_hl);
    } else if z == 2 {
        reveal(Machine::ld_indirect_a);
        reveal(Machine::ld_a_indirect);
    } else if z == 3 {
        reveal(Machine::inc_pair);
        reveal(Machine::dec_pair);
    } else if z == 4 {
        reveal(Machine::inc_operand);
    } else if z == 5 {
        reveal(Machine::dec_operand);
    } else if z == 6 {
        reveal(Machine::ld_operand_d8);
    } else {
        lemma_acc(m.cpu, y);
    }
}

proof fn lemma_cb(m: Machine, op: u8)
    requires
        bare(m.cpu.f),
    ensures
        bare(m.exec_cb(op).cpu.f),
{
    broadcast use {lemma_with_flag, lemma_with_flags};

    reveal(Machine::tick);
    reveal(Machine::cb_rotate);
    reveal(Machine::cb_bit);
    reveal(Machine::cb_res);
    reveal(Machine::cb_set);
}

proof fn lemma_block3_low(m: Machine, y: u8, z: u8)
    requires
        bare(m.cpu.f),
        y < 8,
        z < 4,
    ensures
        bare(m.exec_block3_low(y, z).cpu.f),
{
    broadcast use {lemma_with_flag, lemma_with_flags};

    reveal(Machine::exec_block3_low);
    reveal(Machine::tick);
    lemma_moves(m, 0, 0, 0);
    if z == 0 {
        reveal(Machine::ret);
        reveal(Machine::ret_cc);
        reveal(Machine::ld_far_a);
        reveal(Machine::ld_a_far);
        reveal(Machine::add_sp);
        reveal(Machine::ld_hl_sp);
    } else if z == 1 {
        reveal(Machine::pop_pair);
        reveal(Machine::ret);
        reveal(Machine::reti);
        reveal(Machine::ld_sp_hl);
        let (n, v) = m.pop16();
        lemma_popped(n.cpu, y / 2, v);
    } else if z == 2 {
        reveal(Machine::jp);
        reveal(Machine::ld_far_a);
        reveal(Machine::ld_a_far);
    } else {
        reveal(Machine::jp);
        lemma_cb(m.fetch8().0, m.fetch8().1);
    }
}

proof fn lemma_block3_high(m: Machine, y: u8, z: u8)
    requires
        bare(m.cpu.f),
        y < 8,
        4 <= z < 8,
    ensures
        bare(m.exec_block3_high(y, z).cpu.f),
{
    reveal(Machine::exec_block3_high);
    reveal(Machine::tick);
    reveal(Machine::push16);
    reveal(Machine::call);
    reveal(Machine::push_pair);
    reveal(Machine::alu_d8);
    reveal(Machine::rst);
    let (n, v) = m.fetch8();
    lemma_alu(n.cpu, y, v);
}

/// An instruction sets none of the low four bits of F.
proof fn lemma_execute(m: Machine)
    requires
        bare(m.cpu.f),
    ensures
        bare(m.execute().cpu.f),
{
    reveal(Machine::execute);
    reveal(Machine::opcode_fetched);
    reveal(Machine::exec);
    let (n, op) = m.opcode_fetched();
    assert(n.cpu.f == m.cpu.f) by {
        reveal(Machine::tick);
    }
    let y = (op / 8) % 8;
    let z = op % 8;
    let x = op / 64;
    if x == 0 {
        lemma_block0(n, y, z);
    } else if x == 1 {
        reveal(Machine::ld_operand_operand);
        reveal(Machine::halt);
        reveal(Machine::tick);
    } else if x == 2 {
        reveal(Machine::alu_operand);
        reveal(Machine::tick);
        let (a, v) = n.operand(z);
        lemma_alu(a.cpu, y, v);
    } else if z < 4 {
        lemma_block3_low(n, y, z);
    } else {
        lemma_block3_high(n, y, z);
    }
}

/// A machine boots with the low four bits of F clear.
pub proof fn law_boot_flags(cart: CartState, model: Model)
    ensures
        bare(Machine::booted(cart, model).cpu.f),
{
    lemma_high_half(0xB0);
    lemma_high_half(0x80);
}

/// The low four bits of F stay clear, whatever the machine does.
pub proof fn law_flag_register(m: Machine)
    requires
        bare(m.cpu.f),
    ensures
        bare(m.stepped().0.cpu.f),
{
    reveal(Machine::stepped);
    reveal(Machine::tick);
    let s = m.after_stop();
    let r = s.with_cpu(Cpu { halted: false, ..s.cpu });
    lemma_execute(r);
    reveal(Machine::interrupted);
}

/// The two digits of `n`, below 100, in packed decimal.
pub open spec fn packed(n: int) -> u8 {
    (n / 10 * 16 + n % 10) as u8
}

/// A flag reads back as it was set, and the others as they were.
pub proof fn lemma_read_flag(f: u8, mask: u8, v: bool)
    requires
        mask == 0x80 || mask == 0x40 || mask == 0x20 || mask == 0x10,
    ensures
        ({
            let g = with_flag(f, mask, v);
            &&& (g & 0x80 != 0) == if mask == 0x80 { v } else { f & 0x80 != 0 }
            &&& (g & 0x40 != 0) == if mask == 0x40 { v } else { f & 0x40 != 0 }
            &&& (g & 0x20 != 0) == if mask == 0x20 { v } else { f & 0x20 != 0 }
            &&& (g & 0x10 != 0) == if mask == 0x10 { v } else { f & 0x10 != 0 }
        }),
{
    let b: u8 = if v {
        mask
    } else {
        0
    };
    let g = (f & !mask) | b;
    assert((mask == 0x80 || g & 0x80 == f & 0x80) && (mask == 0x40 || g & 0x40 == f & 0x40) && (mask
        == 0x20 || g & 0x20 == f & 0x20) && (mask == 0x10 || g & 0x10 == f & 0x10) && g & mask == b)
        by (bit_vector)
        requires
            g == (f & !mask) | b,
            b == mask || b == 0,
            mask == 0x80 || mask == 0x40 || mask == 0x20 || mask == 0x10,
    ;
}

/// The flags read back as they were set.
pub proof fn lemma_read_flags(f: u8, z: bool, n: bool, h: bool, c: bool)
    ensures
        ({
            let g = with_flags(f, z, n, h, c);
            &&& (g & 0x80 != 0) == z
            &&& (g & 0x40 != 0) == n
            &&& (g & 0x20 != 0) == h
            &&& (g & 0x10 != 0) == c
        }),
{
    let f1 = with_flag(f, 0x80, z);
    let f2 = with_flag(f1, 0x40, n);
    let f3 = with_flag(f2, 0x20, h);
    lemma_read_flag(f, 0x80, z);
    lemma_read_flag(f1, 0x40, n);
    lemma_read_flag(f2, 0x20, h);
    lemma_read_flag(f3, 0x10, c);
}

/// What DAA makes of `a` after an addition or subtraction that left the flags
/// `n`, `h` and `c`.
proof fn lemma_daa(cpu: Cpu, n: bool, h: bool, c: bool)
    requires
        cpu.flag_n() == n,
        cpu.flag_h() == h,
        cpu.flag_c() == c,
    ensures
        ({
            let low = h || (!n && cpu.a % 16 > 9);
            let high = c || (!n && cpu.a > 0x99);
            let adjust = (if low {
                6int
            } else {
                0
            }) + (if high {
                0x60int
            } else {
                0
            });
            let d = cpu.after_daa();
            &&& d.a as int == if n {
                (cpu.a - adjust) % 256
            } else {
                (cpu.a + adjust) % 256
            }
            &&& d.flag_c() == high
            &&& d.flag_z() == (d.a == 0)
            &&& !d.flag_h()
            &&& d.flag_n() == n
        }),
{
    reveal(Cpu::after_daa);
    let d = cpu.after_daa();
    let high = c || (!n && cpu.a > 0x99);
    lemma_read_flags(cpu.f, d.a == 0, n, false, high);
}

/// A packed number by its digits.
proof fn lemma_packed(n: int, t: int, u: int)
    requires
        0 <= t <= 9,
        0 <= u <= 9,
        n == t * 10 + u,
    ensures
        packed(n) as int == t * 16 + u,
        packed(n) as int % 16 == u,
        n / 10 == t,
        n % 10 == u,
{
}

/// The decimal adjustment of a sum of digits.
proof fn lemma_adjusted_sum(a: int, b: int, c: int, d: int)
    requires
        0 <= a <= 9,
        0 <= b <= 9,
        0 <= c <= 9,
        0 <= d <= 9,
    ensures
        ({
            let sum = (a * 16 + b) + (c * 16 + d);
            let s = sum % 256;
            let low = b + d > 15 || s % 16 > 9;
            let high = sum > 255 || s > 0x99;
            let adjusted = (s + (if low {
                6int
            } else {
                0
            }) + (if high {
                0x60int
            } else {
                0
            })) % 256;
            let k = if b + d >= 10 {
                1int
            } else {
                0
            };
            let u = b + d - 10 * k;
            let h = if a + c + k >= 10 {
                1int
            } else {
                0
            };
            &&& adjusted == (a + c + k - 10 * h) * 16 + u
            &&& high == (h == 1)
        }),
{
    let sum = (a * 16 + b) + (c * 16 + d);
    let s = sum % 256;
    let over = if sum > 255 {
        1int
    } else {
        0
    };
    let k = if b + d >= 10 {
        1int
    } else {
        0
    };
    let h = if a + c + k >= 10 {
        1int
    } else {
        0
    };
    assert(sum == (a + c) * 16 + (b + d));
    assert(s == sum - 256 * over);
    assert((b + d > 15 || s % 16 > 9) == (k == 1)) by {
        if b + d < 16 {
            assert(s % 16 == b + d);
        }
    }
    assert((sum > 255 || s > 0x99) == (h == 1));
    let t = (a + c + k - 10 * h) * 16 + (b + d - 10 * k);
    assert(s + 6 * k + 0x60 * h == t + 256 * (h - over));
    assert(0 <= t < 256);
}

/// The decimal adjustment of a difference of digits.
proof fn lemma_adjusted_difference(a: int, b: int, c: int, d: int)
    requires
        0 <= a <= 9,
        0 <= b <= 9,
        0 <= c <= 9,
        0 <= d <= 9,
    ensures
        ({
            let (m, v) = (a * 16 + b, c * 16 + d);
            let s = (m - v) % 256;
            let adjusted = (s - ((if b < d {
                6int
            } else {
                0
            }) + (if m < v {
                0x60int
            } else {
                0
            }))) % 256;
            let k = if b < d {
                1int
            } else {
                0
            };
            let h = if a - c - k < 0 {
                1int
            } else {
                0
            };
            &&& adjusted == (a - c - k + 10 * h) * 16 + (b - d + 10 * k)
            &&& (m < v) == (h == 1)
        }),
{
    let (m, v) = (a * 16 + b, c * 16 + d);
    let s = (m - v) % 256;
    let k = if b < d {
        1int
    } else {
        0
    };
    let h = if a - c - k < 0 {
        1int
    } else {
        0
    };
    assert(m - v == (a - c) * 16 + (b - d));
    assert((m < v) == (h == 1));
    assert(s == m - v + 256 * h);
    let t = (a - c - k + 10 * h) * 16 + (b - d + 10 * k);
    assert(s - (6 * k + 0x60 * h) == t);
    assert(0 <= t < 256);
}

/// The carries of a decimal sum, digit by digit.
proof fn lemma_digit_sum(a: int, b: int, c: int, d: int, k: int, h: int)
    requires
        0 <= a <= 9,
        0 <= b <= 9,
        0 <= c <= 9,
        0 <= d <= 9,
        k == if b + d >= 10 {
            1int
        } else {
            0
        },
        h == if a + c + k >= 10 {
            1int
        } else {
            0
        },
    ensures
        ((a * 10 + b) + (c * 10 + d)) % 100 == (a + c + k - 10 * h) * 10 + (b + d - 10 * k),
        ((a * 10 + b) + (c * 10 + d) >= 100) == (h == 1),
{
    let r = (a + c + k - 10 * h) * 10 + (b + d - 10 * k);
    assert((a * 10 + b) + (c * 10 + d) == r + 100 * h);
    assert(0 <= r < 100);
}

/// The borrows of a decimal difference, digit by digit.
proof fn lemma_digit_difference(a: int, b: int, c: int, d: int, k: int, h: int)
    requires
        0 <= a <= 9,
        0 <= b <= 9,
        0 <= c <= 9,
        0 <= d <= 9,
        k == if b < d {
            1int
        } else {
            0
        },
        h == if a - c - k < 0 {
            1int
        } else {
            0
        },
    ensures
        (100 + (a * 10 + b) - (c * 10 + d)) % 100 == (a - c - k + 10 * h) * 10 + (b - d + 10 * k),
        ((a * 10 + b) < (c * 10 + d)) == (h == 1),
{
    let r = (a - c - k + 10 * h) * 10 + (b - d + 10 * k);
    assert((a * 10 + b) - (c * 10 + d) == r - 100 * h);
    assert(0 <= r < 100);
}

/// Packed decimal numbers are added by ADD and DAA: the sum of two digits, and
/// the carry into the hundreds.
pub proof fn law_decimal_addition(cpu: Cpu, x: int, y: int)
    requires
        0 <= x < 100,
        0 <= y < 100,
        cpu.a == packed(x),
    ensures
        ({
            let d = cpu.after_add(packed(y)).after_daa();
            &&& d.a == packed((x + y) % 100)
            &&& d.flag_c() == (x + y >= 100)
            &&& d.flag_z() == (d.a == 0)
            &&& !d.flag_h()
            &&& !d.flag_n()
        }),
{
    let v = packed(y);
    let (a, b, c, d) = (x / 10, x % 10, y / 10, y % 10);
    lemma_packed(x, a, b);
    lemma_packed(y, c, d);
    let sum = cpu.a + v;
    let half = cpu.a % 16 + v % 16 > 15;
    let s = cpu.after_add(v);
    lemma_read_flags(cpu.f, sum % 256 == 0, false, half, sum > 255);
    lemma_daa(s, false, half, sum > 255);
    lemma_adjusted_sum(a, b, c, d);
    let k = if b + d >= 10 {
        1int
    } else {
        0
    };
    let h = if a + c + k >= 10 {
        1int
    } else {
        0
    };
    lemma_digit_sum(a, b, c, d, k, h);
    lemma_packed((x + y) % 100, a + c + k - 10 * h, b + d - 10 * k);
}

/// Packed decimal numbers are subtracted by SUB and DAA: the difference modulo
/// 100, and the borrow.
pub proof fn law_decimal_subtraction(cpu: Cpu, x: int, y: int)
    requires
        0 <= x < 100,
        0 <= y < 100,
        cpu.a == packed(x),
    ensures
        ({
            let d = cpu.after_sub(packed(y)).after_daa();
            &&& d.a == packed((100 + x - y) % 100)
            &&& d.flag_c() == (x < y)
            &&& d.flag_z() == (d.a == 0)
            &&& !d.flag_h()
            &&& d.flag_n()
        }),
{
    let v = packed(y);
    let (a, b, c, d) = (x / 10, x % 10, y / 10, y % 10);
    lemma_packed(x, a, b);
    lemma_packed(y, c, d);
    let half = cpu.a % 16 < v % 16;
    let s = cpu.after_sub(v);
    lemma_read_flags(cpu.f, cpu.a == v, true, half, cpu.a < v);
    lemma_daa(s, true, half, cpu.a < v);
    lemma_adjusted_difference(a, b, c, d);
    assert(s.a as int == (cpu.a - v) % 256);
    let k = if b < d {
        1int
    } else {
        0
    };
    let h = if a - c - k < 0 {
        1int
    } else {
        0
    };
    lemma_digit_difference(a, b, c, d, k, h);
    lemma_packed((100 + x - y) % 100, a - c - k + 10 * h, b - d + 10 * k);
}

} // verus!
