//! The arithmetic of the shader unit.
//!
//! It is done in single precision by [`crate::softfloat`], with the PICA's
//! departures from IEEE laid on top as 3dbrew's hardware tests give them:
//! there is no negative zero, subnormals are zero, and zero times anything
//! but NaN is zero. The hardware works in its 24-bit format (one sign bit,
//! seven exponent bits, sixteen mantissa bits); what that does to rounding
//! is not modelled, as no measurements of it are published.

use crate::softfloat::convert::{integer, integral, order};
use crate::softfloat::ieee::{Env, Flags, Format, Round};
use crate::softfloat::ops::{product, quotient, square_root, sum};
use crate::softfloat::F32;
use core::cmp::Ordering;
use core::ops::Neg;
use vstd::prelude::*;

verus! {

/// The encodings of zero, one and infinity.
pub const ZERO: u32 = 0;
pub const ONE: u32 = 0x3F80_0000;
pub const INFINITY: u32 = 0x7F80_0000;

/// The environment every operation starts from.
pub open spec fn plain() -> Env {
    Env {
        round: Round::Nearest,
        flush_to_zero: false,
        default_nan: false,
        flags: Flags(0),
    }
}

/// A value in the 24-bit format as single precision.
pub open spec fn widened(raw: u32) -> F32 {
    let sign = raw / 0x80_0000 % 2;
    let exponent = raw / 0x1_0000 % 128;
    let mantissa = raw % 0x1_0000;
    if exponent == 0 {
        F32(ZERO)
    } else if exponent == 0x7F {
        F32((sign * 0x8000_0000 + 0x7F80_0000 + mantissa * 128) as u32)
    } else {
        F32((sign * 0x8000_0000 + (exponent + 64) * 0x80_0000 + mantissa * 128) as u32)
    }
}

/// A value in the 24-bit format of uniforms and fixed attributes, widened.
/// Subnormals are zero and there is no negative zero.
pub fn from_float24(raw: u32) -> (r: F32)
    ensures
        r == widened(raw),
{
    let sign: u32 = raw / 0x80_0000 % 2;
    let exponent: u32 = raw / 0x1_0000 % 128;
    let mantissa: u32 = raw % 0x1_0000;
    if exponent == 0 {
        return F32(ZERO);
    }
    if exponent == 0x7F {
        F32(sign * 0x8000_0000 + 0x7F80_0000 + mantissa * 128)
    } else {
        F32(sign * 0x8000_0000 + (exponent + 64) * 0x80_0000 + mantissa * 128)
    }
}

/// The value as the unit holds it: zeros of either sign and subnormals are
/// zero.
pub open spec fn tidied(value: F32) -> F32 {
    if value.0 / 0x80_0000 % 256 == 0 {
        F32(ZERO)
    } else {
        value
    }
}

/// Zero has one sign here, and subnormals do not exist.
pub fn tidy(value: F32) -> (r: F32)
    ensures
        r == tidied(value),
{
    if value.0 / 0x80_0000 % 256 == 0 {
        F32(ZERO)
    } else {
        value
    }
}

/// A zero of either sign.
pub open spec fn zero(value: F32) -> bool {
    value.0 % 0x8000_0000 == 0
}

/// A NaN of either sign.
pub open spec fn nan(value: F32) -> bool {
    value.0 % 0x8000_0000 > 0x7F80_0000
}

fn is_zero(value: F32) -> (r: bool)
    ensures
        r == zero(value),
{
    value.0 % 0x8000_0000 == 0
}

/// The value with the encoding `word`.
pub open spec fn single(word: u64) -> F32 {
    F32(word as u32)
}

/// The sum of two values.
pub open spec fn added(a: F32, b: F32) -> F32 {
    tidied(single(sum(Format::Single, a.word(), b.word(), false, plain()).0))
}

pub fn plus(a: F32, b: F32) -> (r: F32)
    ensures
        r == added(a, b),
{
    let mut env = Env::default();
    tidy(a.add(b, &mut env))
}

/// The product of two values; zero times infinity is zero, and only NaN
/// survives a zero.
pub open spec fn multiplied(a: F32, b: F32) -> F32 {
    if (zero(a) && !nan(b)) || (zero(b) && !nan(a)) {
        F32(ZERO)
    } else {
        tidied(single(product(Format::Single, a.word(), b.word(), plain()).0))
    }
}

pub fn times(a: F32, b: F32) -> (r: F32)
    ensures
        r == multiplied(a, b),
{
    if (is_zero(a) && !b.is_nan()) || (is_zero(b) && !a.is_nan()) {
        return F32(ZERO);
    }
    let mut env = Env::default();
    tidy(a.mul(b, &mut env))
}

/// Whether `a` is less than `b`; a NaN is not.
pub open spec fn below(a: F32, b: F32) -> bool {
    order(Format::Single, a.word(), b.word(), false, plain()).0 == Some(Ordering::Less)
}

pub fn less(a: F32, b: F32) -> (r: bool)
    ensures
        r == below(a, b),
{
    let mut env = Env::default();
    match a.compare(b, &mut env) {
        Some(Ordering::Less) => true,
        _ => false,
    }
}

/// The outcome of the comparison `kind` of two values: equal, not equal, less,
/// less or equal, greater, greater or equal, and true for the two that are
/// left. A NaN is not equal and nothing else.
pub open spec fn tested(a: F32, b: F32, kind: u32) -> bool {
    let o = order(Format::Single, a.word(), b.word(), false, plain()).0;
    if kind == 0 {
        o == Some(Ordering::Equal)
    } else if kind == 1 {
        o != Some(Ordering::Equal)
    } else if kind == 2 {
        o == Some(Ordering::Less)
    } else if kind == 3 {
        o == Some(Ordering::Less) || o == Some(Ordering::Equal)
    } else if kind == 4 {
        o == Some(Ordering::Greater)
    } else if kind == 5 {
        o == Some(Ordering::Greater) || o == Some(Ordering::Equal)
    } else {
        true
    }
}

pub fn judge(a: F32, b: F32, kind: u32) -> (r: bool)
    ensures
        r == tested(a, b, kind),
{
    let mut env = Env::default();
    let (less, equal, greater) = match a.compare(b, &mut env) {
        Some(Ordering::Less) => (true, false, false),
        Some(Ordering::Equal) => (false, true, false),
        Some(Ordering::Greater) => (false, false, true),
        None => (false, false, false),
    };
    match kind {
        0 => equal,
        1 => !equal,
        2 => less,
        3 => less || equal,
        4 => greater,
        5 => greater || equal,
        _ => true,
    }
}

/// The value with the other sign.
pub open spec fn negative(value: F32) -> F32 {
    tidied(value.negated())
}

pub fn negate(value: F32) -> (r: F32)
    ensures
        r == negative(value),
{
    tidy(value.neg())
}

/// The value rounded down to a whole number. From 2^23 up every value is whole
/// already, and infinities and NaNs pass through.
pub open spec fn floored(value: F32) -> F32 {
    if value.0 / 0x80_0000 % 256 >= 150 {
        value
    } else {
        let (n, env) = integer(Format::Single, value.word(), true, Round::Down, plain());
        tidied(single(integral(Format::Single, n, env).0))
    }
}

pub fn floor(value: F32) -> (r: F32)
    ensures
        r == floored(value),
{
    if value.0 / 0x80_0000 % 256 >= 150 {
        return value;
    }
    let mut env = Env::default();
    let whole: i32 = value.to_i32(Round::Down, &mut env);
    tidy(F32::from_i32(whole, &mut env))
}

/// One divided by the value; that of a zero is infinite.
pub open spec fn inverse(value: F32) -> F32 {
    if zero(value) {
        F32(INFINITY)
    } else {
        tidied(single(quotient(Format::Single, F32(ONE).word(), value.word(), plain()).0))
    }
}

pub fn reciprocal(value: F32) -> (r: F32)
    ensures
        r == inverse(value),
{
    if is_zero(value) {
        return F32(INFINITY);
    }
    let mut env = Env::default();
    tidy(F32(ONE).div(value, &mut env))
}

/// One divided by the square root of the value; that of a zero is infinite.
pub open spec fn inverse_root(value: F32) -> F32 {
    if zero(value) {
        F32(INFINITY)
    } else {
        let (root, env) = square_root(Format::Single, value.word(), plain());
        tidied(single(quotient(Format::Single, F32(ONE).word(), root, env).0))
    }
}

pub fn reciprocal_root(value: F32) -> (r: F32)
    ensures
        r == inverse_root(value),
{
    if is_zero(value) {
        return F32(INFINITY);
    }
    let mut env = Env::default();
    let root = value.sqrt(&mut env);
    tidy(F32(ONE).div(root, &mut env))
}

/// The unit never holds a negative zero or a subnormal.
pub proof fn law_results_are_tidy(a: F32, b: F32)
    ensures
        tidied(added(a, b)) == added(a, b),
        tidied(multiplied(a, b)) == multiplied(a, b),
        tidied(negative(a)) == negative(a),
        tidied(inverse(a)) == inverse(a),
        tidied(widened(a.0)) == widened(a.0),
{
    let raw = a.0;
    let sign = raw / 0x80_0000 % 2;
    let exponent = raw / 0x1_0000 % 128;
    let mantissa = raw % 0x1_0000;
    if exponent != 0 && exponent != 0x7F {
        let w = sign * 0x8000_0000 + (exponent + 64) * 0x80_0000 + mantissa * 128;
        assert(w / 0x80_0000 % 256 == exponent + 64);
    }
}

/// Zero times anything but a NaN is zero.
pub proof fn law_zero_absorbs(a: F32, b: F32)
    requires
        zero(a),
        !nan(b),
    ensures
        multiplied(a, b) == F32(ZERO),
        multiplied(b, a) == F32(ZERO),
{
}

} // verus!
