//! The shader unit: the instruction set vertex and geometry shaders share
//! (3dbrew, "GPU/Shader Instruction Set").
//!
//! Not implemented: `EX2`, `LG2` and `LITP`, which need an exponential and a
//! logarithm in integer arithmetic. They leave their destination alone and
//! are counted in [`Unit::unimplemented`], modulo 2^32.

use crate::bits::{filled, put};
use crate::pica::arith::{
    added, below, floor, floored, inverse, inverse_root, judge, less, multiplied, nan, negate, negative,
    plain, plus, reciprocal, reciprocal_root, tested, tidied, tidy, times, ONE, ZERO,
};
use crate::softfloat::convert::integer;
use crate::softfloat::ieee::{Env, Format, Round};
use crate::softfloat::F32;
use vstd::prelude::*;
use vstd::wrapping::{i32_specs, u32_specs};

pub use crate::pica::arith::from_float24;

verus! {

pub type Vec4 = [F32; 4];

/// Instructions a run may execute before it is cut off; a shader has at most
/// 512 and loops are bounded, so only a program that never ends gets here.
pub const STEP_LIMIT: u32 = 0x10_0000;

/// Blocks that may be nested.
pub const STACK_DEPTH: usize = 32;

/// The instructions and operand descriptors loaded into a shader unit.
#[derive(Clone, Debug)]
pub struct Program {
    pub code: Vec<u32>,
    pub operands: Vec<u32>,
}

impl Program {
    /// The instruction at `pc`.
    pub open spec fn instruction(self, pc: u32) -> Option<u32> {
        if pc < self.code@.len() {
            Some(self.code@[pc as int])
        } else {
            None
        }
    }

    /// Operand descriptor `i`; one that does not exist is 0.
    pub open spec fn operand(self, i: u32) -> u32 {
        if i < self.operands@.len() {
            self.operands@[i as int]
        } else {
            0
        }
    }

    fn get_operand(&self, i: u32) -> (r: u32)
        ensures
            r == self.operand(i),
    {
        if (i as usize) < self.operands.len() {
            self.operands[i as usize]
        } else {
            0
        }
    }
}

impl Default for Program {
    fn default() -> (r: Program)
        ensures
            r.code@ == Seq::<u32>::empty(),
            r.operands@ == Seq::<u32>::empty(),
    {
        Program { code: Vec::new(), operands: Vec::new() }
    }
}

/// What the application sets for a shader unit.
#[derive(Clone, Copy, PartialEq, Eq, Debug)]
pub struct Uniforms {
    pub float: [Vec4; 96],
    /// `x` iterations minus one, `y` the first loop counter, `z` its step.
    pub int: [[u8; 4]; 4],
    pub boolean: u16,
}

impl Uniforms {
    pub open spec fn cleared() -> Uniforms {
        Uniforms { float: filled(filled(F32(ZERO))), int: filled(filled(0)), boolean: 0 }
    }

    /// Whether the boolean uniform that bits 22-25 name is set.
    pub open spec fn flag(self, instr: u32) -> bool {
        (self.boolean >> ((instr / 0x40_0000 % 16) as u16)) & 1 != 0
    }

    fn get_flag(&self, instr: u32) -> (r: bool)
        ensures
            r == self.flag(instr),
    {
        (self.boolean >> ((instr / 0x40_0000 % 16) as u16)) & 1 != 0
    }
}

impl Default for Uniforms {
    fn default() -> (r: Uniforms)
        ensures
            r == Uniforms::cleared(),
    {
        Uniforms { float: [[F32(ZERO); 4]; 96], int: [[0; 4]; 4], boolean: 0 }
    }
}

/// What a geometry shader asked for with `SETEMIT` before an `EMIT`.
#[derive(Clone, Copy, PartialEq, Eq, Structural, Debug)]
pub struct Emit {
    pub vertex: u8,
    pub primitive: bool,
    pub winding: bool,
}

impl Default for Emit {
    fn default() -> (r: Emit)
        ensures
            r == (Emit { vertex: 0, primitive: false, winding: false }),
    {
        Emit { vertex: 0, primitive: false, winding: false }
    }
}

/// The registers of one run.
#[derive(Clone, Debug)]
pub struct Unit {
    pub inputs: [Vec4; 16],
    pub temps: [Vec4; 16],
    pub outputs: [Vec4; 16],
    pub address: [i32; 2],
    pub loop_counter: i32,
    pub cmp: [bool; 2],
    pub emit: Emit,
    /// `EMIT` instructions executed, each with the state it saw.
    pub emitted: Vec<(Emit, [Vec4; 16])>,
    /// `EX2`, `LG2` and `LITP` instructions skipped.
    pub unimplemented: u32,
}

/// A unit's registers as a value.
pub struct UnitState {
    pub inputs: [Vec4; 16],
    pub temps: [Vec4; 16],
    pub outputs: [Vec4; 16],
    pub address: [i32; 2],
    pub loop_counter: i32,
    pub cmp: [bool; 2],
    pub emit: Emit,
    pub emitted: Seq<(Emit, [Vec4; 16])>,
    pub unimplemented: u32,
}

impl View for Unit {
    type V = UnitState;

    open spec fn view(&self) -> UnitState {
        UnitState {
            inputs: self.inputs,
            temps: self.temps,
            outputs: self.outputs,
            address: self.address,
            loop_counter: self.loop_counter,
            cmp: self.cmp,
            emit: self.emit,
            emitted: self.emitted@,
            unimplemented: self.unimplemented,
        }
    }
}

impl Default for Unit {
    fn default() -> (r: Unit)
        ensures
            r@ == UnitState::cleared(),
    {
        Unit {
            inputs: [[F32(ZERO); 4]; 16],
            temps: [[F32(ZERO); 4]; 16],
            outputs: [[F32(ZERO); 4]; 16],
            address: [0; 2],
            loop_counter: 0,
            cmp: [false; 2],
            emit: Emit::default(),
            emitted: Vec::new(),
            unimplemented: 0,
        }
    }
}

/// A block being executed: where it ends, where execution goes then, and for
/// a loop how often it still repeats.
#[derive(Clone, Copy, PartialEq, Eq, Structural, Debug)]
pub struct Frame {
    pub end: u32,
    pub next: u32,
    pub repeats: u8,
    pub step: u8,
    pub start: u32,
    pub is_loop: bool,
}

/// How a run ended.
#[derive(Clone, Copy, PartialEq, Eq, Structural, Debug)]
pub enum Stop {
    End,
    /// Ran off the end of the program.
    OutOfCode,
    StepLimit,
    StackOverflow,
}

/// Component `i` of a swizzle: two bits of the selector each, `x` on top.
pub open spec fn picked(v: Vec4, selector: int, negated: bool) -> F32 {
    let c = v[selector % 4];
    if negated {
        negative(c)
    } else {
        tidied(c)
    }
}

pub open spec fn swizzled(v: Vec4, selector: u32, negated: bool) -> Vec4 {
    [
        picked(v, selector as int / 64, negated),
        picked(v, selector as int / 16, negated),
        picked(v, selector as int / 4, negated),
        picked(v, selector as int, negated),
    ]
}

fn pick(v: &Vec4, selector: u32, negated: bool) -> (r: F32)
    ensures
        r == picked(*v, selector as int, negated),
{
    let c: F32 = v[(selector % 4) as usize];
    if negated {
        negate(c)
    } else {
        tidy(c)
    }
}

fn swizzle(v: &Vec4, selector: u32, negated: bool) -> (r: Vec4)
    ensures
        r == swizzled(*v, selector, negated),
{
    let r: Vec4 = [
        pick(v, selector / 64, negated),
        pick(v, selector / 16, negated),
        pick(v, selector / 4, negated),
        pick(v, selector, negated),
    ];
    assert(r =~= swizzled(*v, selector, negated));
    r
}

/// `new` in the components that `mask` selects, `x` by its highest bit, and
/// `kept` in the others.
pub open spec fn masked(kept: Vec4, new: Vec4, mask: u32) -> Vec4 {
    [
        if mask / 8 % 2 == 1 {
            new[0]
        } else {
            kept[0]
        },
        if mask / 4 % 2 == 1 {
            new[1]
        } else {
            kept[1]
        },
        if mask / 2 % 2 == 1 {
            new[2]
        } else {
            kept[2]
        },
        if mask % 2 == 1 {
            new[3]
        } else {
            kept[3]
        },
    ]
}

fn mask_in(kept: &Vec4, new: &Vec4, mask: u32) -> (r: Vec4)
    ensures
        r == masked(*kept, *new, mask),
{
    let r: Vec4 = [
        if mask / 8 % 2 == 1 {
            new[0]
        } else {
            kept[0]
        },
        if mask / 4 % 2 == 1 {
            new[1]
        } else {
            kept[1]
        },
        if mask / 2 % 2 == 1 {
            new[2]
        } else {
            kept[2]
        },
        if mask % 2 == 1 {
            new[3]
        } else {
            kept[3]
        },
    ];
    assert(r =~= masked(*kept, *new, mask));
    r
}

/// The four components of `v` alike.
pub open spec fn splat(v: F32) -> Vec4 {
    [v, v, v, v]
}

/// The dot product of the first three components, summed from the left.
pub open spec fn dot3(a: Vec4, b: Vec4) -> F32 {
    added(
        added(added(F32(ZERO), multiplied(a[0], b[0])), multiplied(a[1], b[1])),
        multiplied(a[2], b[2]),
    )
}

fn dot_three(a: &Vec4, b: &Vec4) -> (r: F32)
    ensures
        r == dot3(*a, *b),
{
    let first: F32 = plus(F32(ZERO), times(a[0], b[0]));
    plus(plus(first, times(a[1], b[1])), times(a[2], b[2]))
}

/// One where `set`, else zero.
pub open spec fn truth(set: bool) -> F32 {
    if set {
        F32(ONE)
    } else {
        F32(ZERO)
    }
}

fn flag(set: bool) -> (r: F32)
    ensures
        r == truth(set),
{
    if set {
        F32(ONE)
    } else {
        F32(ZERO)
    }
}

/// Whether `a` is at least `b`; a NaN is not.
pub open spec fn at_least(a: F32, b: F32) -> bool {
    !below(a, b) && !nan(a) && !nan(b)
}

fn is_at_least(a: F32, b: F32) -> (r: bool)
    ensures
        r == at_least(a, b),
{
    !less(a, b) && !a.is_nan() && !b.is_nan()
}

/// The greater of two values. A NaN in the second place wins, in the first it
/// loses.
pub open spec fn greater(a: F32, b: F32) -> F32 {
    if below(b, a) {
        a
    } else {
        b
    }
}

fn max(a: F32, b: F32) -> (r: F32)
    ensures
        r == greater(a, b),
{
    if less(b, a) {
        a
    } else {
        b
    }
}

/// The lesser of two values, likewise.
pub open spec fn lesser(a: F32, b: F32) -> F32 {
    if below(a, b) {
        a
    } else {
        b
    }
}

fn min(a: F32, b: F32) -> (r: F32)
    ensures
        r == lesser(a, b),
{
    if less(a, b) {
        a
    } else {
        b
    }
}

/// The vector that an arithmetic instruction computes; `None` for one that
/// writes no register.
pub open spec fn result(opcode: u32, a: Vec4, b: Vec4) -> Option<Vec4> {
    if opcode == 0x00 {
        Some([added(a[0], b[0]), added(a[1], b[1]), added(a[2], b[2]), added(a[3], b[3])])
    } else if opcode == 0x01 {
        Some(splat(dot3(a, b)))
    } else if opcode == 0x02 {
        Some(splat(added(dot3(a, b), multiplied(a[3], b[3]))))
    } else if opcode == 0x03 || opcode == 0x18 {
        // The first source with its w taken as one.
        Some(splat(added(dot3(a, b), b[3])))
    } else if opcode == 0x04 || opcode == 0x19 {
        Some([F32(ONE), multiplied(a[1], b[1]), a[2], b[3]])
    } else if opcode == 0x08 {
        Some(
            [
                multiplied(a[0], b[0]),
                multiplied(a[1], b[1]),
                multiplied(a[2], b[2]),
                multiplied(a[3], b[3]),
            ],
        )
    } else if opcode == 0x09 || opcode == 0x1A {
        Some(
            [
                truth(at_least(a[0], b[0])),
                truth(at_least(a[1], b[1])),
                truth(at_least(a[2], b[2])),
                truth(at_least(a[3], b[3])),
            ],
        )
    } else if opcode == 0x0A || opcode == 0x1B {
        Some(
            [
                truth(below(a[0], b[0])),
                truth(below(a[1], b[1])),
                truth(below(a[2], b[2])),
                truth(below(a[3], b[3])),
            ],
        )
    } else if opcode == 0x0B {
        Some([floored(a[0]), floored(a[1]), floored(a[2]), floored(a[3])])
    } else if opcode == 0x0C {
        Some([greater(a[0], b[0]), greater(a[1], b[1]), greater(a[2], b[2]), greater(a[3], b[3])])
    } else if opcode == 0x0D {
        Some([lesser(a[0], b[0]), lesser(a[1], b[1]), lesser(a[2], b[2]), lesser(a[3], b[3])])
    } else if opcode == 0x0E {
        Some(splat(inverse(a[0])))
    } else if opcode == 0x0F {
        Some(splat(inverse_root(a[0])))
    } else if opcode == 0x13 {
        Some(a)
    } else {
        None
    }
}

fn compute(opcode: u32, a: &Vec4, b: &Vec4) -> (r: Option<Vec4>)
    ensures
        r == result(opcode, *a, *b),
{
    let v: Vec4 = match opcode {
        0x00 => [plus(a[0], b[0]), plus(a[1], b[1]), plus(a[2], b[2]), plus(a[3], b[3])],
        0x01 => {
            let d: F32 = dot_three(a, b);
            [d, d, d, d]
        },
        0x02 => {
            let d: F32 = plus(dot_three(a, b), times(a[3], b[3]));
            [d, d, d, d]
        },
        0x03 | 0x18 => {
            let d: F32 = plus(dot_three(a, b), b[3]);
            [d, d, d, d]
        },
        0x04 | 0x19 => [F32(ONE), times(a[1], b[1]), a[2], b[3]],
        0x08 => [times(a[0], b[0]), times(a[1], b[1]), times(a[2], b[2]), times(a[3], b[3])],
        0x09 | 0x1A => [
            flag(is_at_least(a[0], b[0])),
            flag(is_at_least(a[1], b[1])),
            flag(is_at_least(a[2], b[2])),
            flag(is_at_least(a[3], b[3])),
        ],
        0x0A | 0x1B => [
            flag(less(a[0], b[0])),
            flag(less(a[1], b[1])),
            flag(less(a[2], b[2])),
            flag(less(a[3], b[3])),
        ],
        0x0B => [floor(a[0]), floor(a[1]), floor(a[2]), floor(a[3])],
        0x0C => [max(a[0], b[0]), max(a[1], b[1]), max(a[2], b[2]), max(a[3], b[3])],
        0x0D => [min(a[0], b[0]), min(a[1], b[1]), min(a[2], b[2]), min(a[3], b[3])],
        0x0E => {
            let d: F32 = reciprocal(a[0]);
            [d, d, d, d]
        },
        0x0F => {
            let d: F32 = reciprocal_root(a[0]);
            [d, d, d, d]
        },
        0x13 => *a,
        _ => return None,
    };
    assert(v =~= result(opcode, *a, *b)->0);
    Some(v)
}

impl UnitState {
    pub open spec fn cleared() -> UnitState {
        UnitState {
            inputs: filled(filled(F32(ZERO))),
            temps: filled(filled(F32(ZERO))),
            outputs: filled(filled(F32(ZERO))),
            address: filled(0),
            loop_counter: 0,
            cmp: filled(false),
            emit: Emit { vertex: 0, primitive: false, winding: false },
            emitted: Seq::empty(),
            unimplemented: 0,
        }
    }

    /// The offset that a relative address adds. One that does not fit a signed
    /// byte is dropped.
    pub open spec fn offset(self, index: u32) -> int {
        let o: int = if index == 1 {
            self.address[0] as int
        } else if index == 2 {
            self.address[1] as int
        } else if index == 3 {
            self.loop_counter as int
        } else {
            0
        };
        if -128 <= o <= 127 {
            o
        } else {
            0
        }
    }

    /// The value of a source register. Only constants are addressed relatively;
    /// the sum wraps at seven bits, and past c95 everything reads as one.
    pub open spec fn source(self, uniforms: Uniforms, register: u32, index: u32) -> Vec4 {
        if register < 0x10 {
            self.inputs[register as int]
        } else if register < 0x20 {
            self.temps[register - 0x10]
        } else {
            let at = (register - 0x20 + self.offset(index)) % 128;
            if at < 96 {
                uniforms.float[at]
            } else {
                splat(F32(ONE))
            }
        }
    }

    /// The unit after a masked write to a destination register.
    pub open spec fn after_write(self, register: u32, mask: u32, value: Vec4) -> UnitState {
        if register < 0x10 {
            UnitState {
                outputs: put(
                    self.outputs,
                    register as int,
                    masked(self.outputs[register as int], value, mask),
                ),
                ..self
            }
        } else {
            let t = register as int % 16;
            UnitState { temps: put(self.temps, t, masked(self.temps[t], value, mask)), ..self }
        }
    }

    /// Whether the condition of an instruction holds: each of the two flags
    /// against its reference bit, combined as bits 22-23 say.
    pub open spec fn condition(self, instr: u32) -> bool {
        let x = self.cmp[0] == (instr / 0x200_0000 % 2 == 1);
        let y = self.cmp[1] == (instr / 0x100_0000 % 2 == 1);
        let how = instr / 0x40_0000 % 4;
        if how == 0 {
            x || y
        } else if how == 1 {
            x && y
        } else if how == 2 {
            x
        } else {
            y
        }
    }

    /// The unit after a comparison of two vectors.
    pub open spec fn compared(self, instr: u32, a: Vec4, b: Vec4) -> UnitState {
        self.with_flags(
            tested(a[0], b[0], (instr / 0x100_0000 % 8) as u32),
            tested(a[1], b[1], (instr / 0x20_0000 % 8) as u32),
        )
    }

    /// The unit with its two comparison flags set.
    pub open spec fn with_flags(self, x: bool, y: bool) -> UnitState {
        UnitState { cmp: [x, y], ..self }
    }

    /// The unit after the address registers took whole numbers.
    pub open spec fn addressed(self, a: Vec4, mask: u32) -> UnitState {
        UnitState {
            address: [
                if mask / 8 % 2 == 1 {
                    whole(a[0])
                } else {
                    self.address[0]
                },
                if mask / 4 % 2 == 1 {
                    whole(a[1])
                } else {
                    self.address[1]
                },
            ],
            ..self
        }
    }

    /// MAD and MADI: a rounded product, then the sum.
    pub open spec fn after_mad(self, p: Program, uniforms: Uniforms, instr: u32) -> UnitState {
        let d = p.operand((instr % 32) as u32);
        let inverted = instr / 0x400_0000 < 0x38;
        let index = (instr / 0x40_0000 % 4) as u32;
        let r1 = (instr / 0x2_0000 % 32) as u32;
        let (r2, r3, i2, i3) = if inverted {
            ((instr / 0x1000 % 32) as u32, (instr / 32 % 128) as u32, 0u32, index)
        } else {
            ((instr / 0x400 % 128) as u32, (instr / 32 % 32) as u32, index, 0u32)
        };
        let a = swizzled(
            self.source(uniforms, r1, 0),
            (d / 32 % 256) as u32,
            d / 16 % 2 == 1,
        );
        let b = swizzled(
            self.source(uniforms, r2, i2),
            (d / 0x4000 % 256) as u32,
            d / 0x2000 % 2 == 1,
        );
        let c = swizzled(
            self.source(uniforms, r3, i3),
            (d / 0x80_0000 % 256) as u32,
            d / 0x40_0000 % 2 == 1,
        );
        let v = [
            added(multiplied(a[0], b[0]), c[0]),
            added(multiplied(a[1], b[1]), c[1]),
            added(multiplied(a[2], b[2]), c[2]),
            added(multiplied(a[3], b[3]), c[3]),
        ];
        self.after_write((instr / 0x100_0000 % 32) as u32, (d % 16) as u32, v)
    }

    /// The two sources of an instruction of format 1, 1i, 1u or 1c.
    pub open spec fn sources(self, p: Program, uniforms: Uniforms, instr: u32) -> (Vec4, Vec4) {
        let d = p.operand((instr % 128) as u32);
        let opcode = instr / 0x400_0000;
        let inverted = 0x18 <= opcode <= 0x1B;
        let index = (instr / 0x8_0000 % 4) as u32;
        let (r1, r2, i1, i2) = if inverted {
            ((instr / 0x4000 % 32) as u32, (instr / 128 % 128) as u32, 0u32, index)
        } else {
            ((instr / 0x1000 % 128) as u32, (instr / 128 % 32) as u32, index, 0u32)
        };
        (
            swizzled(self.source(uniforms, r1, i1), (d / 32 % 256) as u32, d / 16 % 2 == 1),
            swizzled(self.source(uniforms, r2, i2), (d / 0x4000 % 256) as u32, d / 0x2000 % 2 == 1),
        )
    }

    /// The unit after an instruction that computes.
    pub open spec fn after_compute(self, p: Program, uniforms: Uniforms, instr: u32) -> UnitState {
        let mask = (p.operand((instr % 128) as u32) % 16) as u32;
        let opcode = (instr / 0x400_0000) as u32;
        let (a, b) = self.sources(p, uniforms, instr);
        if 0x05 <= opcode <= 0x07 {
            UnitState { unimplemented: u32_specs::wrapping_add(self.unimplemented, 1), ..self }
        } else if opcode == 0x12 {
            self.addressed(a, mask)
        } else if opcode == 0x2E || opcode == 0x2F {
            self.compared(instr, a, b)
        } else {
            match result(opcode, a, b) {
                Some(v) => self.after_write((instr / 0x20_0000 % 32) as u32, mask, v),
                None => self,
            }
        }
    }
}

/// The whole number that a value is cut off to.
pub open spec fn whole(v: F32) -> i32 {
    integer(Format::Single, v.word(), true, Round::Zero, plain()).0 as i32
}

fn truncate(v: F32) -> (r: i32)
    ensures
        r == whole(v),
{
    let mut env = Env::default();
    v.to_i32(Round::Zero, &mut env)
}

impl Unit {
    fn get_offset(&self, index: u32) -> (r: i64)
        ensures
            r == self@.offset(index),
            -128 <= r <= 127,
    {
        let o: i32 = match index {
            1 => self.address[0],
            2 => self.address[1],
            3 => self.loop_counter,
            _ => 0,
        };
        if -128 <= o && o <= 127 {
            o as i64
        } else {
            0
        }
    }

    fn source(&self, uniforms: &Uniforms, register: u32, index: u32) -> (r: Vec4)
        requires
            register < 128,
        ensures
            r == self@.source(*uniforms, register, index),
    {
        if register < 0x10 {
            self.inputs[register as usize]
        } else if register < 0x20 {
            self.temps[(register - 0x10) as usize]
        } else {
            let o: i64 = self.get_offset(index);
            let at: usize = ((register as i64 - 0x20 + o + 256) as u64 % 128) as usize;
            assert(at == (register - 0x20 + self@.offset(index)) % 128);
            if at < 96 {
                uniforms.float[at]
            } else {
                let one: Vec4 = [F32(ONE), F32(ONE), F32(ONE), F32(ONE)];
                assert(one =~= splat(F32(ONE)));
                one
            }
        }
    }

    fn write(&mut self, register: u32, mask: u32, value: &Vec4)
        requires
            register < 32,
        ensures
            final(self)@ == old(self)@.after_write(register, mask, *value),
    {
        if register < 0x10 {
            let i: usize = register as usize;
            let v: Vec4 = mask_in(&self.outputs[i], value, mask);
            self.outputs[i] = v;
        } else {
            let i: usize = (register % 16) as usize;
            let v: Vec4 = mask_in(&self.temps[i], value, mask);
            self.temps[i] = v;
        }
    }

    fn condition(&self, instr: u32) -> (r: bool)
        ensures
            r == self@.condition(instr),
    {
        let x = self.cmp[0] == (instr / 0x200_0000 % 2 == 1);
        let y = self.cmp[1] == (instr / 0x100_0000 % 2 == 1);
        match instr / 0x40_0000 % 4 {
            0 => x || y,
            1 => x && y,
            2 => x,
            _ => y,
        }
    }

    fn set_flags(&mut self, x: bool, y: bool)
        ensures
            final(self)@ == old(self)@.with_flags(x, y),
    {
        self.cmp = [x, y];
    }

    fn compare(&mut self, instr: u32, a: &Vec4, b: &Vec4)
        ensures
            final(self)@ == old(self)@.compared(instr, *a, *b),
    {
        let x = judge(a[0], b[0], instr / 0x100_0000 % 8);
        let y = judge(a[1], b[1], instr / 0x20_0000 % 8);
        self.set_flags(x, y);
    }

    fn set_address(&mut self, a: &Vec4, mask: u32)
        ensures
            final(self)@ == old(self)@.addressed(*a, mask),
    {
        let x: i32 = if mask / 8 % 2 == 1 {
            truncate(a[0])
        } else {
            self.address[0]
        };
        let y: i32 = if mask / 4 % 2 == 1 {
            truncate(a[1])
        } else {
            self.address[1]
        };
        self.address = [x, y];
    }

    fn run_mad(&mut self, p: &Program, uniforms: &Uniforms, instr: u32)
        ensures
            final(self)@ == old(self)@.after_mad(*p, *uniforms, instr),
    {
        let d: u32 = p.get_operand(instr % 32);
        let inverted = instr / 0x400_0000 < 0x38;
        let index: u32 = instr / 0x40_0000 % 4;
        let r1: u32 = instr / 0x2_0000 % 32;
        let (r2, r3, i2, i3): (u32, u32, u32, u32) = if inverted {
            (instr / 0x1000 % 32, instr / 32 % 128, 0, index)
        } else {
            (instr / 0x400 % 128, instr / 32 % 32, index, 0)
        };
        let a: Vec4 = swizzle(&self.source(uniforms, r1, 0), d / 32 % 256, d / 16 % 2 == 1);
        let b: Vec4 = swizzle(&self.source(uniforms, r2, i2), d / 0x4000 % 256, d / 0x2000 % 2 == 1);
        let c: Vec4 = swizzle(
            &self.source(uniforms, r3, i3),
            d / 0x80_0000 % 256,
            d / 0x40_0000 % 2 == 1,
        );
        let v: Vec4 = [
            plus(times(a[0], b[0]), c[0]),
            plus(times(a[1], b[1]), c[1]),
            plus(times(a[2], b[2]), c[2]),
            plus(times(a[3], b[3]), c[3]),
        ];
        self.write(instr / 0x100_0000 % 32, d % 16, &v);
    }

    fn get_sources(&self, p: &Program, uniforms: &Uniforms, instr: u32) -> (r: (Vec4, Vec4))
        ensures
            r == self@.sources(*p, *uniforms, instr),
    {
        let d: u32 = p.get_operand(instr % 128);
        let opcode: u32 = instr / 0x400_0000;
        let inverted = 0x18 <= opcode && opcode <= 0x1B;
        let index: u32 = instr / 0x8_0000 % 4;
        let (r1, r2, i1, i2): (u32, u32, u32, u32) = if inverted {
            (instr / 0x4000 % 32, instr / 128 % 128, 0, index)
        } else {
            (instr / 0x1000 % 128, instr / 128 % 32, index, 0)
        };
        let a: Vec4 = swizzle(&self.source(uniforms, r1, i1), d / 32 % 256, d / 16 % 2 == 1);
        let b: Vec4 = swizzle(&self.source(uniforms, r2, i2), d / 0x4000 % 256, d / 0x2000 % 2 == 1);
        (a, b)
    }

    fn run_compute(&mut self, p: &Program, uniforms: &Uniforms, instr: u32)
        ensures
            final(self)@ == old(self)@.after_compute(*p, *uniforms, instr),
    {
        let mask: u32 = p.get_operand(instr % 128) % 16;
        let opcode: u32 = instr / 0x400_0000;
        let (a, b) = self.get_sources(p, uniforms, instr);
        match opcode {
            0x05 | 0x06 | 0x07 => {
                self.unimplemented = self.unimplemented.wrapping_add(1);
            },
            0x12 => self.set_address(&a, mask),
            0x2E | 0x2F => self.compare(instr, &a, &b),
            _ => {
                if let Some(v) = compute(opcode, &a, &b) {
                    self.write(instr / 0x20_0000 % 32, mask, &v);
                }
            },
        }
    }
}

/// A run under way: the registers, the blocks that are open, and where
/// execution is.
pub struct Run {
    pub unit: UnitState,
    pub stack: Seq<Frame>,
    pub pc: u32,
}

/// The stack without the innermost loop and what is nested in it, and where
/// execution goes from there.
pub open spec fn broken(stack: Seq<Frame>) -> (Seq<Frame>, Option<u32>)
    decreases stack.len(),
{
    if stack.len() == 0 {
        (stack, None)
    } else if stack.last().is_loop {
        (stack.drop_last(), Some(stack.last().next))
    } else {
        broken(stack.drop_last())
    }
}

impl Run {
    /// Every block that ends here left, or repeated.
    pub open spec fn unwound(self) -> Run
        decreases self.stack.len(), self.stack.last().repeats,
    {
        if self.stack.len() == 0 || self.pc != self.stack.last().end {
            self
        } else {
            let f = self.stack.last();
            if f.repeats == 0 {
                Run { stack: self.stack.drop_last(), pc: f.next, ..self }.unwound()
            } else {
                let g = Frame { repeats: (f.repeats - 1) as u8, ..f };
                Run {
                    unit: UnitState {
                        loop_counter: i32_specs::wrapping_add(
                            self.unit.loop_counter,
                            f.step as i32,
                        ),
                        ..self.unit
                    },
                    stack: self.stack.drop_last().push(g),
                    pc: f.start,
                }.unwound()
            }
        }
    }

    pub open spec fn at(self, pc: u32) -> Run {
        Run { pc, ..self }
    }

    /// The following instruction.
    pub open spec fn following(self) -> u32 {
        u32_specs::wrapping_add(self.pc, 1)
    }

    /// A block entered, execution going on at `pc`.
    pub open spec fn entered(self, f: Frame, pc: u32) -> (Run, Option<Stop>) {
        let r = Run { stack: self.stack.push(f), ..self };
        if r.stack.len() <= STACK_DEPTH {
            (r.at(pc), None)
        } else {
            (r, Some(Stop::StackOverflow))
        }
    }

    /// A block that runs up to `end` and is left to `next`.
    pub open spec fn block(end: u32, next: u32) -> Frame {
        Frame { end, next, repeats: 0, step: 0, start: 0, is_loop: false }
    }

    /// A control-flow instruction.
    pub open spec fn controlled(self, uniforms: Uniforms, instr: u32) -> (Run, Option<Stop>) {
        let opcode = instr / 0x400_0000;
        let num = (instr % 256) as u32;
        let dst = (instr / 0x400 % 0x1000) as u32;
        let go = self.at(self.following());
        let condition = self.unit.condition(instr);
        if opcode == 0x22 {
            (self, Some(Stop::End))
        } else if opcode == 0x20 || opcode == 0x23 {
            if opcode == 0x20 || condition {
                let (stack, next) = broken(self.stack);
                (
                    Run {
                        stack,
                        pc: match next {
                            Some(n) => n,
                            None => self.following(),
                        },
                        ..self
                    },
                    None,
                )
            } else {
                (go, None)
            }
        } else if 0x24 <= opcode <= 0x26 {
            let taken = if opcode == 0x24 {
                true
            } else if opcode == 0x25 {
                condition
            } else {
                uniforms.flag(instr)
            };
            if taken {
                self.entered(Run::block((dst + num) as u32, self.following()), dst)
            } else {
                (go, None)
            }
        } else if opcode == 0x27 || opcode == 0x28 {
            let taken = if opcode == 0x28 {
                condition
            } else {
                uniforms.flag(instr)
            };
            if taken {
                self.entered(Run::block(dst, (dst + num) as u32), self.following())
            } else {
                (self.at(dst), None)
            }
        } else if opcode == 0x29 {
            let i = uniforms.int[instr as int / 0x40_0000 % 4];
            let end = (dst + 1) as u32;
            Run {
                unit: UnitState { loop_counter: i[1] as i32, ..self.unit },
                ..self
            }.entered(
                Frame {
                    end,
                    next: end,
                    repeats: i[0],
                    step: i[2],
                    start: self.following(),
                    is_loop: true,
                },
                self.following(),
            )
        } else if opcode == 0x2A {
            (
                Run {
                    unit: UnitState {
                        emitted: self.unit.emitted.push((self.unit.emit, self.unit.outputs)),
                        ..self.unit
                    },
                    ..go
                },
                None,
            )
        } else if opcode == 0x2B {
            (
                Run {
                    unit: UnitState {
                        emit: Emit {
                            vertex: (instr / 0x100_0000 % 4) as u8,
                            primitive: instr / 0x80_0000 % 2 == 1,
                            winding: instr / 0x40_0000 % 2 == 1,
                        },
                        ..self.unit
                    },
                    ..go
                },
                None,
            )
        } else if opcode == 0x2C {
            (
                if condition {
                    self.at(dst)
                } else {
                    go
                },
                None,
            )
        } else if opcode == 0x2D {
            // Bit 0 of the count inverts the test.
            (
                if uniforms.flag(instr) != (num % 2 == 1) {
                    self.at(dst)
                } else {
                    go
                },
                None,
            )
        } else {
            (go, None)
        }
    }

    /// One instruction, and whether the run stopped at it.
    pub open spec fn stepped(self, p: Program, uniforms: Uniforms) -> (Run, Option<Stop>) {
        let s = self.unwound();
        match p.instruction(s.pc) {
            None => (s, Some(Stop::OutOfCode)),
            Some(instr) => {
                let opcode = instr / 0x400_0000;
                if 0x20 <= opcode <= 0x2D {
                    s.controlled(uniforms, instr)
                } else if opcode >= 0x30 {
                    (
                        Run { unit: s.unit.after_mad(p, uniforms, instr), ..s }.at(s.following()),
                        None,
                    )
                } else {
                    (
                        Run { unit: s.unit.after_compute(p, uniforms, instr), ..s }.at(
                            s.following(),
                        ),
                        None,
                    )
                }
            },
        }
    }

    /// At most `n` instructions: the registers in the end, and why it ended.
    pub open spec fn ran(self, p: Program, uniforms: Uniforms, n: nat) -> (UnitState, Stop)
        decreases n,
    {
        if n == 0 {
            (self.unit, Stop::StepLimit)
        } else {
            match self.stepped(p, uniforms) {
                (s, Some(stop)) => (s.unit, stop),
                (s, None) => s.ran(p, uniforms, (n - 1) as nat),
            }
        }
    }
}

/// The machinery of a run.
struct Runner {
    stack: Vec<Frame>,
    pc: u32,
}

impl Runner {
    spec fn state(self, unit: UnitState) -> Run {
        Run { unit, stack: self.stack@, pc: self.pc }
    }

    /// Leave, or repeat, every block that ends here.
    fn unwind(&mut self, unit: &mut Unit)
        ensures
            final(self).state(final(unit)@) == old(self).state(old(unit)@).unwound(),
    {
        while self.stack.len() > 0 && self.stack[self.stack.len() - 1].end == self.pc
            invariant
                self.state(unit@).unwound() == old(self).state(old(unit)@).unwound(),
            decreases self.stack@.len(), self.stack@.last().repeats,
        {
            let top: usize = self.stack.len() - 1;
            let f: Frame = self.stack[top];
            if f.repeats == 0 {
                self.pc = f.next;
                self.stack.pop();
            } else {
                let ghost before = self.stack@;
                self.stack.set(top, Frame { repeats: f.repeats - 1, ..f });
                unit.loop_counter = unit.loop_counter.wrapping_add(f.step as i32);
                self.pc = f.start;
                assert(self.stack@ =~= before.drop_last().push(
                    Frame { repeats: (f.repeats - 1) as u8, ..f },
                ));
            }
        }
    }

    fn enter(&mut self, f: Frame, pc: u32, unit: Ghost<UnitState>) -> (r: Option<Stop>)
        ensures
            (final(self).state(unit@), r) == old(self).state(unit@).entered(f, pc),
    {
        self.stack.push(f);
        if self.stack.len() <= STACK_DEPTH {
            self.pc = pc;
            None
        } else {
            Some(Stop::StackOverflow)
        }
    }

    /// Out of the innermost loop, dropping what is nested.
    fn break_loop(&mut self, unit: Ghost<UnitState>)
        ensures
            ({
                let (stack, next) = broken(old(self).stack@);
                final(self).state(unit@) == (Run {
                    unit: unit@,
                    stack,
                    pc: match next {
                        Some(n) => n,
                        None => u32_specs::wrapping_add(old(self).pc, 1),
                    },
                })
            }),
    {
        let after: u32 = self.pc.wrapping_add(1);
        while self.stack.len() > 0
            invariant
                after == u32_specs::wrapping_add(old(self).pc, 1),
                self.pc == old(self).pc,
                broken(self.stack@) == broken(old(self).stack@),
            decreases self.stack@.len(),
        {
            let f: Frame = self.stack[self.stack.len() - 1];
            self.stack.pop();
            if f.is_loop {
                self.pc = f.next;
                return;
            }
        }
        self.pc = after;
    }

    fn call(&mut self, unit: &Unit, uniforms: &Uniforms, instr: u32) -> (r: Option<Stop>)
        requires
            0x24 <= instr / 0x400_0000 <= 0x28,
        ensures
            (final(self).state(unit@), r) == old(self).state(unit@).controlled(*uniforms, instr),
    {
        let opcode: u32 = instr / 0x400_0000;
        let num: u32 = instr % 256;
        let dst: u32 = instr / 0x400 % 0x1000;
        let after: u32 = self.pc.wrapping_add(1);
        let taken = match opcode {
            0x24 => true,
            0x25 | 0x28 => unit.condition(instr),
            _ => uniforms.get_flag(instr),
        };
        if opcode <= 0x26 {
            if taken {
                let f = Frame {
                    end: dst + num,
                    next: after,
                    repeats: 0,
                    step: 0,
                    start: 0,
                    is_loop: false,
                };
                self.enter(f, dst, Ghost(unit@))
            } else {
                self.pc = after;
                None
            }
        } else if taken {
            let f = Frame {
                end: dst,
                next: dst + num,
                repeats: 0,
                step: 0,
                start: 0,
                is_loop: false,
            };
            self.enter(f, after, Ghost(unit@))
        } else {
            self.pc = dst;
            None
        }
    }

    fn begin_loop(&mut self, unit: &mut Unit, uniforms: &Uniforms, instr: u32) -> (r: Option<Stop>)
        requires
            instr / 0x400_0000 == 0x29,
        ensures
            (final(self).state(final(unit)@), r) == old(self).state(old(unit)@).controlled(
                *uniforms,
                instr,
            ),
    {
        let dst: u32 = instr / 0x400 % 0x1000;
        let after: u32 = self.pc.wrapping_add(1);
        let i: [u8; 4] = uniforms.int[(instr / 0x40_0000 % 4) as usize];
        unit.loop_counter = i[1] as i32;
        let f = Frame {
            end: dst + 1,
            next: dst + 1,
            repeats: i[0],
            step: i[2],
            start: after,
            is_loop: true,
        };
        self.enter(f, after, Ghost(unit@))
    }

    fn control(&mut self, unit: &mut Unit, uniforms: &Uniforms, instr: u32) -> (r: Option<Stop>)
        requires
            0x20 <= instr / 0x400_0000 <= 0x2D,
        ensures
            (final(self).state(final(unit)@), r) == old(self).state(old(unit)@).controlled(
                *uniforms,
                instr,
            ),
    {
        let opcode: u32 = instr / 0x400_0000;
        let num: u32 = instr % 256;
        let dst: u32 = instr / 0x400 % 0x1000;
        let after: u32 = self.pc.wrapping_add(1);
        match opcode {
            0x22 => return Some(Stop::End),
            0x20 | 0x23 => {
                if opcode == 0x20 || unit.condition(instr) {
                    self.break_loop(Ghost(unit@));
                    return None;
                }
            },
            0x24 | 0x25 | 0x26 | 0x27 | 0x28 => return self.call(unit, uniforms, instr),
            0x29 => return self.begin_loop(unit, uniforms, instr),
            0x2A => {
                let seen = (unit.emit, unit.outputs);
                unit.emitted.push(seen);
            },
            0x2B => {
                unit.emit = Emit {
                    vertex: (instr / 0x100_0000 % 4) as u8,
                    primitive: instr / 0x80_0000 % 2 == 1,
                    winding: instr / 0x40_0000 % 2 == 1,
                };
            },
            0x2C => {
                if unit.condition(instr) {
                    self.pc = dst;
                    return None;
                }
            },
            0x2D => {
                if uniforms.get_flag(instr) != (num % 2 == 1) {
                    self.pc = dst;
                    return None;
                }
            },
            _ => {},
        }
        self.pc = after;
        None
    }

    fn step(&mut self, unit: &mut Unit, p: &Program, uniforms: &Uniforms) -> (r: Option<Stop>)
        ensures
            (final(self).state(final(unit)@), r) == old(self).state(old(unit)@).stepped(
                *p,
                *uniforms,
            ),
    {
        self.unwind(unit);
        if self.pc as usize >= p.code.len() {
            return Some(Stop::OutOfCode);
        }
        let instr: u32 = p.code[self.pc as usize];
        let opcode: u32 = instr / 0x400_0000;
        if 0x20 <= opcode && opcode <= 0x2D {
            return self.control(unit, uniforms, instr);
        }
        if opcode >= 0x30 {
            unit.run_mad(p, uniforms, instr);
        } else {
            unit.run_compute(p, uniforms, instr);
        }
        self.pc = self.pc.wrapping_add(1);
        None
    }
}

impl Unit {
    /// Run `program` from `entry` until `END`.
    pub fn run(&mut self, program: &Program, uniforms: &Uniforms, entry: u32) -> (r: Stop)
        ensures
            (final(self)@, r) == (Run { unit: old(self)@, stack: Seq::empty(), pc: entry }).ran(
                *program,
                *uniforms,
                STEP_LIMIT as nat,
            ),
    {
        let mut runner = Runner { stack: Vec::new(), pc: entry };
        let ghost start = runner.state(self@);
        assert(start.stack =~= Seq::<Frame>::empty());
        let mut n: u32 = STEP_LIMIT;
        while n > 0
            invariant
                runner.state(self@).ran(*program, *uniforms, n as nat) == start.ran(
                    *program,
                    *uniforms,
                    STEP_LIMIT as nat,
                ),
                start == (Run { unit: old(self)@, stack: Seq::empty(), pc: entry }),
            decreases n,
        {
            n = n - 1;
            match runner.step(self, program, uniforms) {
                Some(stop) => return stop,
                None => {},
            }
        }
        Stop::StepLimit
    }
}

/// A run ends at `END`, with nothing done.
pub proof fn law_end_stops(r: Run, p: Program, uniforms: Uniforms, n: nat)
    requires
        n > 0,
        r.stack.len() == 0,
        p.instruction(r.pc) is Some,
        p.instruction(r.pc)->0 / 0x400_0000 == 0x22,
    ensures
        r.ran(p, uniforms, n) == (r.unit, Stop::End),
{
}

/// A write leaves the components that its mask does not select, and every
/// other register.
pub proof fn law_writes_are_masked(
    u: UnitState,
    register: u32,
    mask: u32,
    value: Vec4,
    other: int,
)
    requires
        register < 16,
        0 <= other < 16,
    ensures
        u.after_write(register, 0, value).outputs == u.outputs,
        other != register ==> u.after_write(register, mask, value).outputs[other]
            == u.outputs[other],
        u.after_write(register, mask, value).temps == u.temps,
        u.after_write(register, 15, value).outputs[register as int] == value,
{
    assert(masked(u.outputs[register as int], value, 0) =~= u.outputs[register as int]);
    assert(u.after_write(register, 0, value).outputs =~= u.outputs);
    assert(masked(u.outputs[register as int], value, 15) =~= value);
}

/// A loop body runs once more than its count says: each time its end is
/// reached with repeats left, the counter steps and the body starts again.
pub proof fn law_loops_repeat(r: Run)
    requires
        r.stack.len() > 0,
        r.pc == r.stack.last().end,
        r.stack.last().repeats > 0,
        r.stack.last().start != r.stack.last().end,
    ensures
        ({
            let f = r.stack.last();
            let s = r.unwound();
            &&& s.pc == f.start
            &&& s.stack.len() == r.stack.len()
            &&& s.stack.last() == (Frame { repeats: (f.repeats - 1) as u8, ..f })
            &&& s.unit.loop_counter == i32_specs::wrapping_add(
                r.unit.loop_counter,
                f.step as i32,
            )
        }),
{
    let f = r.stack.last();
    let g = Frame { repeats: (f.repeats - 1) as u8, ..f };
    let s = Run {
        unit: UnitState {
            loop_counter: i32_specs::wrapping_add(r.unit.loop_counter, f.step as i32),
            ..r.unit
        },
        stack: r.stack.drop_last().push(g),
        pc: f.start,
    };
    assert(r.unwound() == s.unwound());
    assert(s.unwound() == s);
}

} // verus!
