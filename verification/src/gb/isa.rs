//! What the instructions do, told by the values they read and leave.
use vstd::prelude::*;

use crate::bits::{bit8, lemma_bits8};
use crate::gb::cpu::{rotated, with_flag, word, Cpu, Machine};
use crate::gb::flags::{lemma_read_flag, lemma_read_flags};

verus! {

/// The register with the number `i` in an opcode: B, C, D, E, H, L and, as 7,
/// A. The number 6 stands for memory at HL; F has its place here.
pub open spec fn register(c: Cpu, i: u8) -> u8 {
    match i {
        0 => c.b,
        1 => c.c,
        2 => c.d,
        3 => c.e,
        4 => c.h,
        5 => c.l,
        6 => c.f,
        _ => c.a,
    }
}

/// The value that an instruction finds in the operand with the number `i`:
/// memory is read at the end of an M-cycle.
pub open spec fn found(m: Machine, i: u8) -> u8 {
    if i == 6 {
        m.tick().bus.byte((m.cpu.h * 256 + m.cpu.l) as u16)
    } else {
        register(m.cpu, i)
    }
}

/// Nothing but the registers A and F and the time spent differ.
pub open spec fn only_accumulator(c: Cpu, r: Cpu) -> bool {
    r == (Cpu { a: r.a, f: r.f, ticked: r.ticked, ..c })
}

/// The Z, N, H and C flags of `c`.
pub open spec fn flags_are(c: Cpu, z: bool, n: bool, h: bool, carry: bool) -> bool {
    (c.f & 0x80 != 0) == z && (c.f & 0x40 != 0) == n && (c.f & 0x20 != 0) == h && (c.f & 0x10 != 0)
        == carry
}

/// Whether the carry flag is set.
pub open spec fn carry_set(c: Cpu) -> bool {
    c.f & 0x10 != 0
}

/// 1 for a set carry flag.
pub open spec fn carry_in(c: Cpu) -> int {
    if c.f & 0x10 != 0 {
        1
    } else {
        0
    }
}

/// What holds of the CPU `r` after the arithmetic operation `y` of `c` with
/// `v`: ADD, ADC, SUB, SBC, AND, XOR, OR, CP.
///
/// The sums and differences are those of the integers, modulo 256, with the
/// carries out of bit 3 and bit 7; the logical operations go bit by bit.
#[verifier::opaque]
pub open spec fn computes(y: u8, c: Cpu, v: u8, r: Cpu) -> bool {
    let zero = r.a == 0;
    if y == 0 {
        &&& (r.a - c.a - v) % 256 == 0
        &&& flags_are(r, zero, false, c.a % 16 + v % 16 >= 16, c.a + v >= 256)
    } else if y == 1 {
        &&& (r.a - c.a - v - carry_in(c)) % 256 == 0
        &&& flags_are(
            r,
            zero,
            false,
            c.a % 16 + v % 16 + carry_in(c) >= 16,
            c.a + v + carry_in(c) >= 256,
        )
    } else if y == 2 {
        &&& (r.a + v - c.a) % 256 == 0
        &&& flags_are(r, zero, true, (c.a % 16) < v % 16, c.a < v)
    } else if y == 3 {
        &&& (r.a + v + carry_in(c) - c.a) % 256 == 0
        &&& flags_are(r, zero, true, c.a % 16 < v % 16 + carry_in(c), c.a < v + carry_in(c))
    } else if y == 4 {
        &&& forall|i: int| 0 <= i < 8 ==> #[trigger] bit8(r.a, i) == (bit8(c.a, i) && bit8(v, i))
        &&& flags_are(r, zero, false, true, false)
    } else if y == 5 {
        &&& forall|i: int| 0 <= i < 8 ==> #[trigger] bit8(r.a, i) == (bit8(c.a, i) != bit8(v, i))
        &&& flags_are(r, zero, false, false, false)
    } else if y == 6 {
        &&& forall|i: int| 0 <= i < 8 ==> #[trigger] bit8(r.a, i) == (bit8(c.a, i) || bit8(v, i))
        &&& flags_are(r, zero, false, false, false)
    } else {
        &&& r.a == c.a
        &&& flags_are(r, c.a == v, true, c.a % 16 < v % 16, c.a < v)
    }
}

#[verifier::rlimit(60)]
proof fn lemma_sums(c: Cpu, y: u8, v: u8)
    requires
        y < 2,
    ensures
        computes(y, c, v, c.after_alu(y, v)),
        only_accumulator(c, c.after_alu(y, v)),
{
    reveal(computes);
    reveal(Cpu::after_alu);
    let k: int = if y == 0 {
        0
    } else {
        carry_in(c)
    };
    let sum = c.a + v + k;
    lemma_read_flags(c.f, sum % 256 == 0, false, c.a % 16 + v % 16 + k > 15, sum > 255);
}

#[verifier::rlimit(60)]
proof fn lemma_differences(c: Cpu, y: u8, v: u8)
    requires
        y == 2 || y == 3 || y == 7,
    ensures
        computes(y, c, v, c.after_alu(y, v)),
        only_accumulator(c, c.after_alu(y, v)),
{
    reveal(computes);
    reveal(Cpu::after_alu);
    if y == 3 {
        let d = c.a - v - carry_in(c);
        lemma_read_flags(c.f, d % 256 == 0, true, c.a % 16 < v % 16 + carry_in(c), d < 0);
    } else {
        lemma_read_flags(c.f, c.a == v, true, c.a % 16 < v % 16, c.a < v);
    }
}

proof fn lemma_logic(c: Cpu, y: u8, v: u8)
    requires
        4 <= y < 7,
    ensures
        computes(y, c, v, c.after_alu(y, v)),
        only_accumulator(c, c.after_alu(y, v)),
{
    reveal(computes);
    reveal(Cpu::after_alu);
    lemma_bits8(c.a, v, 0);
    lemma_read_flags(c.f, c.after_alu(y, v).a == 0, false, y == 4, false);
}

proof fn lemma_computes(c: Cpu, y: u8, v: u8)
    requires
        y < 8,
    ensures
        computes(y, c, v, c.after_alu(y, v)),
        only_accumulator(c, c.after_alu(y, v)),
{
    if y < 2 {
        lemma_sums(c, y, v);
    } else if 4 <= y < 7 {
        lemma_logic(c, y, v);
    } else {
        lemma_differences(c, y, v);
    }
}

pub proof fn lemma_tick(m: Machine)
    ensures
        m.tick().cpu == (Cpu { ticked: m.tick().cpu.ticked, ..m.cpu }),
        forall|c: Cpu| #[trigger] m.with_cpu(c).tick().bus == m.tick().bus,
{
    reveal(Machine::tick);
}

proof fn lemma_computes_alike(y: u8, c: Cpu, d: Cpu, v: u8, r: Cpu)
    requires
        computes(y, c, v, r),
        c.a == d.a,
        c.f == d.f,
    ensures
        computes(y, d, v, r),
{
    reveal(computes);
}

proof fn lemma_with_itself(c: Cpu, y: u8)
    ensures
        y == 4 || y == 6 ==> c.after_alu(y, c.a).a == c.a,
        y == 2 || y == 5 ==> c.after_alu(y, c.a).a == 0,
{
    reveal(Cpu::after_alu);
    crate::bits::lemma_bits_same(c.a);
}

proof fn lemma_opcode(op: u8, x: u8, y: u8, z: u8)
    requires
        x < 4,
        y < 8,
        z < 8,
        op == 64 * x + 8 * y + z,
    ensures
        op / 64 == x,
        (op / 8) % 8 == y,
        op % 8 == z,
{
}

/// The instructions 0x80 to 0xBF compute with a register or memory at HL, and
/// touch nothing but A and the flags. In particular OR A leaves A, XOR A and
/// SUB A leave 0, and CP leaves A.
#[verifier::rlimit(60)]
pub proof fn law_arithmetic(m: Machine, y: u8, z: u8)
    requires
        y < 8,
        z < 8,
    ensures
        ({
            let r = m.exec((0x80 + 8 * y + z) as u8);
            &&& computes(y, m.cpu, found(m, z), r.cpu)
            &&& only_accumulator(m.cpu, r.cpu)
            &&& r.bus == if z == 6 { m.tick().bus } else { m.bus }
            &&& z == 7 && (y == 4 || y == 6) ==> r.cpu.a == m.cpu.a
            &&& z == 7 && (y == 2 || y == 5) ==> r.cpu.a == 0
        }),
{
    let op = (0x80 + 8 * y + z) as u8;
    lemma_opcode(op, 2, y, z);
    assert(m.exec(op) == m.alu_operand(y, z)) by {
        reveal(Machine::exec);
    }
    reveal(Machine::alu_operand);
    lemma_tick(m);
    let c = m.operand(z).0.cpu;
    lemma_computes(c, y, found(m, z));
    lemma_computes_alike(y, c, m.cpu, found(m, z), c.after_alu(y, found(m, z)));
    if z == 7 {
        lemma_with_itself(m.cpu, y);
    }
}

/// The instructions 0xC6, 0xCE and so on to 0xFE compute with the byte that
/// follows the opcode, and PC moves past it.
#[verifier::rlimit(60)]
pub proof fn law_arithmetic_immediate(m: Machine, y: u8)
    requires
        y < 8,
    ensures
        ({
            let r = m.exec((0xC6 + 8 * y) as u8);
            &&& computes(y, m.cpu, m.tick().bus.byte(m.cpu.pc), r.cpu)
            &&& r.cpu.pc as int == (m.cpu.pc + 1) % 0x1_0000
            &&& only_accumulator(Cpu { pc: r.cpu.pc, ..m.cpu }, r.cpu)
            &&& r.bus == m.tick().bus
        }),
{
    let op = (0xC6 + 8 * y) as u8;
    lemma_opcode(op, 3, y, 6);
    assert(m.exec(op) == m.alu_d8(y)) by {
        reveal(Machine::exec);
        reveal(Machine::exec_block3_high);
    }
    reveal(Machine::alu_d8);
    lemma_tick(m);
    let c = m.fetch8().0.cpu;
    let v = m.tick().bus.byte(m.cpu.pc);
    lemma_computes(c, y, v);
    lemma_computes_alike(y, c, m.cpu, v, c.after_alu(y, v));
}

/// Everything but the byte registers and the time spent stays.
pub open spec fn control_kept(c: Cpu, r: Cpu) -> bool {
    &&& r.sp == c.sp
    &&& r.pc == c.pc
    &&& r.ime == c.ime
    &&& r.ei_pending == c.ei_pending
    &&& r.breakpoint == c.breakpoint
    &&& r.halted == c.halted
    &&& r.stopped == c.stopped
    &&& r.halt_bug == c.halt_bug
    &&& r.timer_interrupts == c.timer_interrupts
}

/// Whether `r` is `m` with the operand `i` holding `v`, the flags left aside:
/// another register stays, and memory at HL is written in one M-cycle.
#[verifier::opaque]
pub open spec fn leaves(m: Machine, i: u8, v: u8, r: Machine) -> bool {
    &&& control_kept(m.cpu, r.cpu)
    &&& forall|j: u8| j < 8 && j != 6 && j != i ==> #[trigger] register(r.cpu, j) == register(
        m.cpu,
        j,
    )
    &&& if i == 6 {
        r.bus == m.write((m.cpu.h * 256 + m.cpu.l) as u16, v).bus
    } else {
        register(r.cpu, i) == v && r.bus == m.bus
    }
}

/// The machine after operand `i` was read: an M-cycle later for memory.
pub open spec fn after_read(m: Machine, i: u8) -> Machine {
    if i == 6 {
        m.tick()
    } else {
        m
    }
}

proof fn lemma_store(m: Machine, i: u8, v: u8)
    requires
        i < 8,
    ensures
        leaves(m, i, v, m.store(i, v)),
        i != 6 ==> m.store(i, v).cpu.ticked == m.cpu.ticked,
        m.store(i, v).cpu.f == m.cpu.f,
{
    reveal(leaves);
    lemma_tick(m);
}

/// The flags have no part in [`leaves`].
proof fn lemma_leaves_flags(m: Machine, f: u8, i: u8, v: u8, r: Machine)
    requires
        leaves(m.with_cpu(Cpu { f, ..m.cpu }), i, v, r),
    ensures
        leaves(m, i, v, r),
{
    reveal(leaves);
    lemma_tick(m);
    let n = m.with_cpu(Cpu { f, ..m.cpu });
    assert(n.tick().bus == m.tick().bus);
    assert forall|j: u8| j < 8 && j != 6 implies #[trigger] register(n.cpu, j) == register(m.cpu, j) by {}
}

proof fn lemma_operand(m: Machine, i: u8)
    requires
        i < 8,
    ensures
        m.operand(i) == (after_read(m, i), found(m, i)),
        after_read(m, i).cpu == (Cpu { ticked: after_read(m, i).cpu.ticked, ..m.cpu }),
{
    lemma_tick(m);
}

/// LD r,r' (0x40 to 0x7F, but for 0x76): the first operand holds what the second
/// did, and the flags stay.
#[verifier::rlimit(60)]
pub proof fn law_load(m: Machine, y: u8, z: u8)
    requires
        y < 8,
        z < 8,
        !(y == 6 && z == 6),
    ensures
        ({
            let r = m.exec((0x40 + 8 * y + z) as u8);
            leaves(after_read(m, z), y, found(m, z), r) && r.cpu.f == m.cpu.f
        }),
{
    let op = (0x40 + 8 * y + z) as u8;
    lemma_opcode(op, 1, y, z);
    assert(op != 0x76);
    assert(m.exec(op) == m.ld_operand_operand(y, z)) by {
        reveal(Machine::exec);
    }
    reveal(Machine::ld_operand_operand);
    lemma_operand(m, z);
    lemma_store(after_read(m, z), y, found(m, z));
}

/// The machine one M-cycle on, past the byte at PC.
pub open spec fn past_byte(m: Machine) -> Machine {
    Machine {
        cpu: Cpu { pc: ((m.cpu.pc + 1) % 0x1_0000) as u16, ..m.tick().cpu },
        bus: m.tick().bus,
    }
}

/// The byte at PC, read at the end of an M-cycle.
pub open spec fn next_byte(m: Machine) -> u8 {
    m.tick().bus.byte(m.cpu.pc)
}

/// The machine two M-cycles on, past the word at PC.
pub open spec fn past_word(m: Machine) -> Machine {
    past_byte(past_byte(m))
}

/// The word at PC: its low byte comes first.
pub open spec fn next_word(m: Machine) -> int {
    next_byte(m) + 256 * next_byte(past_byte(m))
}

pub proof fn lemma_fetch(m: Machine)
    ensures
        m.fetch8() == (past_byte(m), next_byte(m)),
        m.fetch16().0 == past_word(m),
        m.fetch16().1 == next_word(m),
        past_byte(m).cpu == (Cpu {
            ticked: past_byte(m).cpu.ticked,
            pc: ((m.cpu.pc + 1) % 0x1_0000) as u16,
            ..m.cpu
        }),
        past_word(m).cpu == (Cpu {
            ticked: past_word(m).cpu.ticked,
            pc: ((m.cpu.pc + 2) % 0x1_0000) as u16,
            ..m.cpu
        }),
{
    lemma_tick(m);
    lemma_tick(past_byte(m));
}

pub proof fn lemma_block0(m: Machine, y: u8, z: u8)
    requires
        y < 8,
        z < 8,
    ensures
        m.exec((8 * y + z) as u8) == m.exec_block0(y, z),
{
    let op = (8 * y + z) as u8;
    lemma_opcode(op, 0, y, z);
    reveal(Machine::exec);
}

pub proof fn lemma_block3(m: Machine, y: u8, z: u8)
    requires
        y < 8,
        z < 8,
    ensures
        m.exec((0xC0 + 8 * y + z) as u8) == if z < 4 {
            m.exec_block3_low(y, z)
        } else {
            m.exec_block3_high(y, z)
        },
{
    let op = (0xC0 + 8 * y + z) as u8;
    lemma_opcode(op, 3, y, z);
    reveal(Machine::exec);
}

/// LD r,d8: the operand holds the byte after the opcode.
pub proof fn law_load_immediate(m: Machine, y: u8)
    requires
        y < 8,
    ensures
        ({
            let r = m.exec((8 * y + 6) as u8);
            leaves(past_byte(m), y, next_byte(m), r) && r.cpu.f == m.cpu.f
        }),
{
    lemma_block0(m, y, 6);
    assert(m.exec_block0(y, 6) == m.ld_operand_d8(y)) by {
        reveal(Machine::exec_block0);
    }
    reveal(Machine::ld_operand_d8);
    lemma_fetch(m);
    lemma_store(past_byte(m), y, next_byte(m));
}

proof fn lemma_one_up(v: u8, w: u8)
    requires
        w == (v + 1) % 256,
    ensures
        vstd::wrapping::u8_specs::wrapping_add(v, 1) == w,
        (w == 0) == (v == 255),
        (w % 16 == 0) == (v % 16 == 15),
{
}

proof fn lemma_one_down(v: u8, w: u8)
    requires
        w == (v + 255) % 256,
    ensures
        vstd::wrapping::u8_specs::wrapping_sub(v, 1) == w,
        (w == 0) == (v == 1),
        (w % 16 == 15) == (v % 16 == 0),
{
}

/// INC r: the operand is one up modulo 256. Z tells whether it is 0, H whether
/// bit 4 was carried into; N is clear, and C stays.
#[verifier::rlimit(60)]
pub proof fn law_increment(m: Machine, y: u8)
    requires
        y < 8,
    ensures
        ({
            let r = m.exec((8 * y + 4) as u8);
            let w = ((found(m, y) + 1) % 256) as u8;
            &&& leaves(after_read(m, y), y, w, r)
            &&& flags_are(r.cpu, w == 0, false, w % 16 == 0, m.cpu.f & 0x10 != 0)
        }),
{
    lemma_block0(m, y, 4);
    assert(m.exec_block0(y, 4) == m.inc_operand(y)) by {
        reveal(Machine::exec_block0);
    }
    reveal(Machine::inc_operand);
    lemma_operand(m, y);
    let t = after_read(m, y);
    let v = found(m, y);
    let w = ((v + 1) % 256) as u8;
    lemma_one_up(v, w);
    lemma_read_flags(m.cpu.f, v == 255, false, v % 16 == 15, m.cpu.f & 0x10 != 0);
    let f = t.cpu.inc_flags(v);
    let u = t.with_cpu(Cpu { f, ..t.cpu });
    lemma_store(u, y, w);
    lemma_leaves_flags(t, f, y, w, u.store(y, w));
}

/// DEC r: the operand is one down modulo 256. Z tells whether it is 0, H whether
/// bit 4 was borrowed from; N is set, and C stays.
#[verifier::rlimit(60)]
pub proof fn law_decrement(m: Machine, y: u8)
    requires
        y < 8,
    ensures
        ({
            let r = m.exec((8 * y + 5) as u8);
            let w = ((found(m, y) + 255) % 256) as u8;
            &&& leaves(after_read(m, y), y, w, r)
            &&& flags_are(r.cpu, w == 0, true, w % 16 == 15, m.cpu.f & 0x10 != 0)
        }),
{
    lemma_block0(m, y, 5);
    assert(m.exec_block0(y, 5) == m.dec_operand(y)) by {
        reveal(Machine::exec_block0);
    }
    reveal(Machine::dec_operand);
    lemma_operand(m, y);
    let t = after_read(m, y);
    let v = found(m, y);
    let w = ((v + 255) % 256) as u8;
    lemma_one_down(v, w);
    lemma_read_flags(m.cpu.f, v == 1, true, v % 16 == 0, m.cpu.f & 0x10 != 0);
    let f = t.cpu.dec_flags(v);
    let u = t.with_cpu(Cpu { f, ..t.cpu });
    lemma_store(u, y, w);
    lemma_leaves_flags(t, f, y, w, u.store(y, w));
}

/// What a rotation or shift makes of a byte, bit by bit: RLC, RRC, RL, RR, SLA,
/// SRA, SWAP, SRL. `c` is the carry in, `k` the carry out.
#[verifier::opaque]
pub open spec fn turns(op: u8, v: u8, c: bool, r: u8, k: bool) -> bool {
    if op == 0 {
        &&& forall|i: int| 1 <= i < 8 ==> #[trigger] bit8(r, i) == bit8(v, i - 1)
        &&& bit8(r, 0) == bit8(v, 7)
        &&& k == bit8(v, 7)
    } else if op == 1 {
        &&& forall|i: int| 0 <= i < 7 ==> #[trigger] bit8(r, i) == bit8(v, i + 1)
        &&& bit8(r, 7) == bit8(v, 0)
        &&& k == bit8(v, 0)
    } else if op == 2 {
        &&& forall|i: int| 1 <= i < 8 ==> #[trigger] bit8(r, i) == bit8(v, i - 1)
        &&& bit8(r, 0) == c
        &&& k == bit8(v, 7)
    } else if op == 3 {
        &&& forall|i: int| 0 <= i < 7 ==> #[trigger] bit8(r, i) == bit8(v, i + 1)
        &&& bit8(r, 7) == c
        &&& k == bit8(v, 0)
    } else if op == 4 {
        &&& forall|i: int| 1 <= i < 8 ==> #[trigger] bit8(r, i) == bit8(v, i - 1)
        &&& !bit8(r, 0)
        &&& k == bit8(v, 7)
    } else if op == 5 {
        &&& forall|i: int| 0 <= i < 7 ==> #[trigger] bit8(r, i) == bit8(v, i + 1)
        &&& bit8(r, 7) == bit8(v, 7)
        &&& k == bit8(v, 0)
    } else if op == 6 {
        &&& forall|i: int| 0 <= i < 8 ==> #[trigger] bit8(r, i) == bit8(v, (i + 4) % 8)
        &&& !k
    } else {
        &&& forall|i: int| 0 <= i < 7 ==> #[trigger] bit8(r, i) == bit8(v, i + 1)
        &&& !bit8(r, 7)
        &&& k == bit8(v, 0)
    }
}

proof fn lemma_bits_up(v: int, low: int, r: int)
    requires
        0 <= v < 256,
        0 <= low < 2,
        r == v % 128 * 2 + low,
    ensures
        r % 2 == low,
        r / 2 % 2 == v % 2,
        r / 4 % 2 == v / 2 % 2,
        r / 8 % 2 == v / 4 % 2,
        r / 16 % 2 == v / 8 % 2,
        r / 32 % 2 == v / 16 % 2,
        r / 64 % 2 == v / 32 % 2,
        r / 128 % 2 == v / 64 % 2,
        v / 128 % 2 == if v >= 128 { 1int } else { 0 },
{
    let u = v % 128;
    let h = v / 128;
    assert(r / 2 == u);
    assert(v == 128 * h + u);
    assert(v / 2 == 64 * h + u / 2);
    assert(v / 4 == 32 * h + u / 4);
    assert(v / 8 == 16 * h + u / 8);
    assert(v / 16 == 8 * h + u / 16);
    assert(v / 32 == 4 * h + u / 32);
    assert(v / 64 == 2 * h + u / 64);
}

proof fn lemma_bits_down(v: int, top: int, r: int)
    requires
        0 <= v < 256,
        0 <= top < 2,
        r == v / 2 + top * 128,
    ensures
        r % 2 == v / 2 % 2,
        r / 2 % 2 == v / 4 % 2,
        r / 4 % 2 == v / 8 % 2,
        r / 8 % 2 == v / 16 % 2,
        r / 16 % 2 == v / 32 % 2,
        r / 32 % 2 == v / 64 % 2,
        r / 64 % 2 == v / 128 % 2,
        r / 128 % 2 == top,
{
    let u = v / 2;
    assert(r / 2 == u / 2 + 64 * top);
    assert(r / 4 == u / 4 + 32 * top);
    assert(r / 8 == u / 8 + 16 * top);
    assert(r / 16 == u / 16 + 8 * top);
    assert(r / 32 == u / 32 + 4 * top);
    assert(r / 64 == u / 64 + 2 * top);
    assert(r / 128 == top);
}

proof fn lemma_halves(n: int, h: int, l: int)
    requires
        0 <= h < 16,
        0 <= l < 16,
        n == 16 * h + l,
    ensures
        n % 2 == l % 2,
        n / 2 % 2 == l / 2 % 2,
        n / 4 % 2 == l / 4 % 2,
        n / 8 % 2 == l / 8,
        n / 16 % 2 == h % 2,
        n / 32 % 2 == h / 2 % 2,
        n / 64 % 2 == h / 4 % 2,
        n / 128 % 2 == h / 8,
{
    assert(n / 2 == 8 * h + l / 2);
    assert(n / 4 == 4 * h + l / 4);
    assert(n / 8 == 2 * h + l / 8);
    assert(n / 16 == h);
    assert(n / 32 == h / 2);
    assert(n / 64 == h / 4);
    assert(n / 128 == h / 8);
}

proof fn lemma_swapped(v: u8, r: u8)
    requires
        r == v as int % 16 * 16 + v / 16,
    ensures
        forall|i: int| 0 <= i < 8 ==> #[trigger] bit8(r, i) == bit8(v, (i + 4) % 8),
{
    reveal(bit8);
    let (h, l) = (v as int / 16, v as int % 16);
    lemma_halves(v as int, h, l);
    lemma_halves(r as int, l, h);
    assert forall|i: int| 0 <= i < 8 implies #[trigger] bit8(r, i) == bit8(v, (i + 4) % 8) by {
        assert((0 + 4) % 8 == 4 && (1 + 4) % 8 == 5 && (2 + 4) % 8 == 6 && (3 + 4) % 8 == 7);
        assert((4 + 4) % 8 == 0 && (5 + 4) % 8 == 1 && (6 + 4) % 8 == 2 && (7 + 4) % 8 == 3);
    }
}

proof fn lemma_left(v: u8, low: bool, r: u8)
    requires
        r == v as int % 128 * 2 + if low {
            1int
        } else {
            0
        },
    ensures
        forall|i: int| 1 <= i < 8 ==> #[trigger] bit8(r, i) == bit8(v, i - 1),
        bit8(r, 0) == low,
        bit8(v, 7) == (v >= 128),
{
    reveal(bit8);
    lemma_bits_up(
        v as int,
        if low {
            1
        } else {
            0
        },
        r as int,
    );
    assert(bit8(r, 1) == bit8(v, 0) && bit8(r, 2) == bit8(v, 1) && bit8(r, 3) == bit8(v, 2));
    assert(bit8(r, 4) == bit8(v, 3) && bit8(r, 5) == bit8(v, 4) && bit8(r, 6) == bit8(v, 5));
    assert(bit8(r, 7) == bit8(v, 6));
}

proof fn lemma_right(v: u8, top: bool, r: u8)
    requires
        r == v as int / 2 + if top {
            128int
        } else {
            0
        },
    ensures
        forall|i: int| 0 <= i < 7 ==> #[trigger] bit8(r, i) == bit8(v, i + 1),
        bit8(r, 7) == top,
        bit8(v, 0) == (v % 2 == 1),
        bit8(v, 7) == (v >= 128),
{
    reveal(bit8);
    lemma_bits_down(
        v as int,
        if top {
            1
        } else {
            0
        },
        r as int,
    );
    assert(bit8(r, 0) == bit8(v, 1) && bit8(r, 1) == bit8(v, 2) && bit8(r, 2) == bit8(v, 3));
    assert(bit8(r, 3) == bit8(v, 4) && bit8(r, 4) == bit8(v, 5) && bit8(r, 5) == bit8(v, 6));
    assert(bit8(r, 6) == bit8(v, 7));
    assert forall|i: int| 0 <= i < 7 implies #[trigger] bit8(r, i) == bit8(v, i + 1) by {
        if i == 0 {
        } else if i == 1 {
        } else if i == 2 {
        } else if i == 3 {
        } else if i == 4 {
        } else if i == 5 {
        } else {
            assert(i == 6);
        }
    }
}

pub proof fn lemma_turns(op: u8, v: u8, c: bool)
    requires
        op < 8,
    ensures
        turns(op, v, c, rotated(op, v, c).0, rotated(op, v, c).1),
{
    reveal(turns);
    let (r, k) = rotated(op, v, c);
    if op == 0 {
        lemma_left(v, v >= 128, r);
    } else if op == 1 {
        lemma_right(v, v % 2 == 1, r);
    } else if op == 2 {
        lemma_left(v, c, r);
    } else if op == 3 {
        lemma_right(v, c, r);
    } else if op == 4 {
        lemma_left(v, false, r);
    } else if op == 5 {
        lemma_right(v, v >= 128, r);
    } else if op == 6 {
        lemma_swapped(v, r);
    } else {
        lemma_right(v, false, r);
    }
}

/// 0xCB executes the instruction in the byte that follows it.
pub proof fn law_prefix(m: Machine)
    ensures
        m.exec(0xCB) == past_byte(m).exec_cb(next_byte(m)),
{
    lemma_block3(m, 1, 3);
    lemma_fetch(m);
    reveal(Machine::exec_block3_low);
}

/// The prefixed rotations and shifts, 0x00 to 0x3F, turn the operand's bits; Z
/// tells whether the result is 0, C the bit that fell out, and N and H are clear.
#[verifier::rlimit(60)]
pub proof fn law_rotate(m: Machine, y: u8, z: u8)
    requires
        y < 8,
        z < 8,
    ensures
        exists|w: u8, k: bool| #[trigger]
            turns(y, found(m, z), carry_set(m.cpu), w, k) && leaves(
                after_read(m, z),
                z,
                w,
                m.exec_cb((8 * y + z) as u8),
            ) && flags_are(m.exec_cb((8 * y + z) as u8).cpu, w == 0, false, false, k),
{
    let op = (8 * y + z) as u8;
    lemma_opcode(op, 0, y, z);
    reveal(Machine::cb_rotate);
    lemma_operand(m, z);
    let t = after_read(m, z);
    let (w, k) = rotated(y, found(m, z), m.cpu.f & 0x10 != 0);
    lemma_turns(y, found(m, z), m.cpu.f & 0x10 != 0);
    lemma_read_flags(m.cpu.f, w == 0, false, false, k);
    let f = crate::gb::cpu::with_flags(m.cpu.f, w == 0, false, false, k);
    let u = t.with_cpu(Cpu { f, ..t.cpu });
    lemma_store(u, z, w);
    lemma_leaves_flags(t, f, z, w, u.store(z, w));
    assert(m.exec_cb(op) == u.store(z, w));
    assert(turns(y, found(m, z), carry_set(m.cpu), w, k));
}

/// BIT n,r (0x40 to 0x7F after the prefix): Z is set where bit `n` of the operand
/// is clear, N is clear and H set; C and the operand stay.
pub proof fn law_bit_test(m: Machine, n: u8, z: u8)
    requires
        n < 8,
        z < 8,
    ensures
        ({
            let r = m.exec_cb((0x40 + 8 * n + z) as u8);
            &&& flags_are(r.cpu, !bit8(found(m, z), n as int), false, true, m.cpu.f & 0x10 != 0)
            &&& only_accumulator(m.cpu, r.cpu)
            &&& r.cpu.a == m.cpu.a
            &&& r.bus == after_read(m, z).bus
        }),
{
    let op = (0x40 + 8 * n + z) as u8;
    lemma_opcode(op, 1, n, z);
    reveal(Machine::cb_bit);
    lemma_operand(m, z);
    let v = found(m, z);
    lemma_bits8(v, v, n);
    let f1 = with_flag(m.cpu.f, 0x80, v & (1u8 << n) == 0);
    let f2 = with_flag(f1, 0x40, false);
    lemma_read_flag(m.cpu.f, 0x80, v & (1u8 << n) == 0);
    lemma_read_flag(f1, 0x40, false);
    lemma_read_flag(f2, 0x20, true);
}

/// RES n,r and SET n,r (0x80 to 0xFF after the prefix): bit `n` of the operand is
/// cleared or set, every other bit and the flags stay.
#[verifier::rlimit(60)]
pub proof fn law_bit_change(m: Machine, n: u8, z: u8, set: bool, op: u8)
    requires
        n < 8,
        z < 8,
        op == 8 * n + z + if set {
            0xC0int
        } else {
            0x80
        },
    ensures
        exists|w: u8|
            (forall|i: int|
                0 <= i < 8 ==> #[trigger] bit8(w, i) == if i == n {
                    set
                } else {
                    bit8(found(m, z), i)
                }) && #[trigger] leaves(after_read(m, z), z, w, m.exec_cb(op)),
        m.exec_cb(op).cpu.f == m.cpu.f,
{
    lemma_opcode(
        op,
        if set {
            3
        } else {
            2
        },
        n,
        z,
    );
    reveal(Machine::cb_res);
    reveal(Machine::cb_set);
    lemma_operand(m, z);
    let v = found(m, z);
    lemma_bits8(v, v, n);
    let w = if set {
        v | (1u8 << n)
    } else {
        v & !(1u8 << n)
    };
    lemma_store(after_read(m, z), z, w);
    assert(leaves(after_read(m, z), z, w, m.exec_cb(op)));
}

/// The word in a register pair: BC, DE, HL, SP.
pub open spec fn pair(c: Cpu, p: u8) -> int {
    match p {
        0 => c.b * 256 + c.c,
        1 => c.d * 256 + c.e,
        2 => c.h * 256 + c.l,
        _ => c.sp as int,
    }
}

/// Whether `r` is `c` with the pair `p` holding `v`, the flags, PC and the time
/// spent left aside.
#[verifier::opaque]
pub open spec fn pair_left(c: Cpu, p: u8, v: int, r: Cpu) -> bool {
    &&& pair(r, p) == v
    &&& r.a == c.a
    &&& forall|q: u8| q < 4 && q != p ==> #[trigger] pair(r, q) == pair(c, q)
    &&& r == (Cpu {
        f: r.f,
        pc: r.pc,
        ticked: r.ticked,
        b: r.b,
        c: r.c,
        d: r.d,
        e: r.e,
        h: r.h,
        l: r.l,
        sp: r.sp,
        ..c
    })
}

pub proof fn lemma_pair_left(c: Cpu, p: u8, v: u16, t: u32, f: u8, pc: u16)
    requires
        p < 4,
    ensures
        pair_left(c, p, v as int, Cpu { ticked: t, f, pc, ..c.with_pair(p, v) }),
        c.pair(p) == pair(c, p),
        0 <= pair(c, p) < 0x1_0000,
{
    reveal(pair_left);
    assert((v / 256) as u8 * 256 + (v % 256) as u8 == v);
}

/// LD rr,d16: the pair holds the word after the opcode; nothing else changes.
pub proof fn law_load_pair(m: Machine, p: u8)
    requires
        p < 4,
    ensures
        ({
            let r = m.exec((16 * p + 1) as u8);
            &&& pair_left(m.cpu, p, next_word(m), r.cpu)
            &&& r.cpu.f == m.cpu.f
            &&& r.cpu.pc == (m.cpu.pc + 2) % 0x1_0000
            &&& r.bus == past_word(m).bus
        }),
{
    lemma_block0(m, (2 * p) as u8, 1);
    assert(m.exec_block0((2 * p) as u8, 1) == m.ld_pair_d16(p)) by {
        reveal(Machine::exec_block0);
    }
    reveal(Machine::ld_pair_d16);
    lemma_fetch(m);
    let t = past_word(m).cpu;
    lemma_pair_left(m.cpu, p, m.fetch16().1, t.ticked, t.f, t.pc);
}

proof fn lemma_pair_ticked(m: Machine, p: u8, w: u16)
    requires
        p < 4,
    ensures
        ({
            let r = m.with_cpu(m.cpu.with_pair(p, w)).tick();
            &&& pair_left(m.cpu, p, w as int, r.cpu)
            &&& r.cpu.f == m.cpu.f
            &&& r.cpu.pc == m.cpu.pc
            &&& r.bus == m.tick().bus
        }),
{
    let u = m.with_cpu(m.cpu.with_pair(p, w));
    lemma_tick(u);
    lemma_tick(m);
    lemma_pair_left(m.cpu, p, w, u.tick().cpu.ticked, m.cpu.f, m.cpu.pc);
    assert(u.tick().cpu == (Cpu {
        ticked: u.tick().cpu.ticked,
        f: m.cpu.f,
        pc: m.cpu.pc,
        ..m.cpu.with_pair(p, w)
    }));
}

/// INC rr: the pair is one up modulo 2^16; no flag changes.
pub proof fn law_increment_pair(m: Machine, p: u8)
    requires
        p < 4,
    ensures
        ({
            let r = m.exec((16 * p + 3) as u8);
            &&& pair_left(m.cpu, p, (pair(m.cpu, p) + 1) % 0x1_0000, r.cpu)
            &&& r.cpu.f == m.cpu.f
            &&& r.cpu.pc == m.cpu.pc
            &&& r.bus == m.tick().bus
        }),
{
    lemma_block0(m, (2 * p) as u8, 3);
    assert(m.exec_block0((2 * p) as u8, 3) == m.inc_pair(p)) by {
        reveal(Machine::exec_block0);
    }
    reveal(Machine::inc_pair);
    lemma_pair_left(m.cpu, p, 0, 0, 0, 0);
    lemma_pair_ticked(m, p, ((pair(m.cpu, p) + 1) % 0x1_0000) as u16);
}

/// DEC rr: the pair is one down modulo 2^16; no flag changes.
pub proof fn law_decrement_pair(m: Machine, p: u8)
    requires
        p < 4,
    ensures
        ({
            let r = m.exec((16 * p + 11) as u8);
            &&& pair_left(m.cpu, p, (pair(m.cpu, p) + 0xFFFF) % 0x1_0000, r.cpu)
            &&& r.cpu.f == m.cpu.f
            &&& r.cpu.pc == m.cpu.pc
            &&& r.bus == m.tick().bus
        }),
{
    lemma_block0(m, (2 * p + 1) as u8, 3);
    assert(m.exec_block0((2 * p + 1) as u8, 3) == m.dec_pair(p)) by {
        reveal(Machine::exec_block0);
    }
    reveal(Machine::dec_pair);
    lemma_pair_left(m.cpu, p, 0, 0, 0, 0);
    lemma_pair_ticked(m, p, ((pair(m.cpu, p) + 0xFFFF) % 0x1_0000) as u16);
}

/// ADD HL,rr: HL is the sum modulo 2^16. C tells the carry out of bit 15, H that
/// out of bit 11; N is clear and Z stays.
#[verifier::rlimit(60)]
pub proof fn law_add_pair(m: Machine, p: u8)
    requires
        p < 4,
    ensures
        ({
            let r = m.exec((16 * p + 9) as u8);
            let (x, y) = (pair(m.cpu, 2), pair(m.cpu, p));
            &&& pair_left(m.cpu, 2, (x + y) % 0x1_0000, r.cpu)
            &&& flags_are(
                r.cpu,
                m.cpu.f & 0x80 != 0,
                false,
                x % 0x1000 + y % 0x1000 >= 0x1000,
                x + y >= 0x1_0000,
            )
            &&& r.cpu.pc == m.cpu.pc
            &&& r.bus == m.tick().bus
        }),
{
    let y = (2 * p + 1) as u8;
    lemma_block0(m, y, 1);
    assert(m.exec_block0(y, 1) == m.add_hl_pair(p)) by {
        reveal(Machine::exec_block0);
    }
    reveal(Machine::add_hl_pair);
    reveal(Cpu::after_add_hl);
    lemma_tick(m);
    let c = m.tick().cpu;
    let (hl, v) = (c.pair(2), c.pair(p));
    lemma_pair_left(m.cpu, p, 0, 0, 0, 0);
    let half = hl % 4096 + v % 4096 > 4095;
    let f1 = with_flag(c.f, 0x40, false);
    let f2 = with_flag(f1, 0x20, half);
    let f3 = with_flag(f2, 0x10, hl + v > 0xFFFF);
    lemma_read_flag(c.f, 0x40, false);
    lemma_read_flag(f1, 0x20, half);
    lemma_read_flag(f2, 0x10, hl + v > 0xFFFF);
    lemma_pair_left(m.cpu, 2, ((hl + v) % 0x1_0000) as u16, c.ticked, f3, m.cpu.pc);
    assert(m.exec((16 * p + 9) as u8).cpu == (Cpu {
        ticked: c.ticked,
        f: f3,
        pc: m.cpu.pc,
        ..m.cpu.with_pair(2, ((hl + v) % 0x1_0000) as u16)
    }));
}

} // verus!
