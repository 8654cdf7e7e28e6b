//! The two floating-point types, as their bits.

use crate::softfloat::convert::{
    compare_bits, convert, converted, from_int, integer, integral, order, to_int,
};
use crate::softfloat::ieee::{unpacked, Env, Format, Round};
use crate::softfloat::ops::{
    add_bits, div_bits, mul_bits, product, quotient, sqrt_bits, square_root, sum,
};
use core::cmp::Ordering;
use vstd::prelude::*;

verus! {

/// An IEEE-754 binary32 value, as its bits.
#[derive(Clone, Copy, PartialEq, Eq, Structural, Debug)]
pub struct F32(pub u32);

impl Default for F32 {
    fn default() -> (r: F32)
        ensures
            r == F32(0),
    {
        F32(0)
    }
}

impl F32 {
    /// The encoding in a machine word.
    pub open spec fn word(self) -> u64 {
        self.0 as u64
    }

    fn wide(self) -> (r: u64)
        ensures
            r == self.word(),
            Format::Single.holds(r),
    {
        self.0 as u64
    }

    pub fn add(self, other: F32, env: &mut Env) -> (r: F32)
        ensures
            (r.word(), *final(env)) == sum(Format::Single, self.word(), other.word(), false, *old(env)),
    {
        F32(add_bits(Format::Single, self.wide(), other.wide(), false, env) as u32)
    }

    pub fn sub(self, other: F32, env: &mut Env) -> (r: F32)
        ensures
            (r.word(), *final(env)) == sum(Format::Single, self.word(), other.word(), true, *old(env)),
    {
        F32(add_bits(Format::Single, self.wide(), other.wide(), true, env) as u32)
    }

    pub fn mul(self, other: F32, env: &mut Env) -> (r: F32)
        ensures
            (r.word(), *final(env)) == product(Format::Single, self.word(), other.word(), *old(env)),
    {
        F32(mul_bits(Format::Single, self.wide(), other.wide(), env) as u32)
    }

    pub fn div(self, other: F32, env: &mut Env) -> (r: F32)
        ensures
            (r.word(), *final(env)) == quotient(Format::Single, self.word(), other.word(), *old(env)),
    {
        F32(div_bits(Format::Single, self.wide(), other.wide(), env) as u32)
    }

    pub fn sqrt(self, env: &mut Env) -> (r: F32)
        ensures
            (r.word(), *final(env)) == square_root(Format::Single, self.word(), *old(env)),
    {
        F32(sqrt_bits(Format::Single, self.wide(), env) as u32)
    }

    /// Clear the sign bit. Never raises a flag, even for a NaN.
    pub fn abs(self) -> (r: F32)
        ensures
            r.0 == self.0 % 0x8000_0000,
    {
        F32(self.0 % 0x8000_0000)
    }

    pub fn is_nan(self) -> (r: bool)
        ensures
            r == (self.0 % 0x8000_0000 > 0x7F80_0000),
            forall|env: Env| r == (#[trigger] unpacked(Format::Single, self.word(), env)).0.nan(),
    {
        self.abs().0 > 0x7F80_0000
    }

    /// Compare, raising invalid only for a signaling NaN. `None` is
    /// unordered.
    pub fn compare(self, other: F32, env: &mut Env) -> (r: Option<Ordering>)
        ensures
            (r, *final(env)) == order(Format::Single, self.word(), other.word(), false, *old(env)),
    {
        compare_bits(Format::Single, self.wide(), other.wide(), false, env)
    }

    /// Compare, raising invalid for any NaN.
    pub fn compare_signaling(self, other: F32, env: &mut Env) -> (r: Option<Ordering>)
        ensures
            (r, *final(env)) == order(Format::Single, self.word(), other.word(), true, *old(env)),
    {
        compare_bits(Format::Single, self.wide(), other.wide(), true, env)
    }

    /// Convert to a signed integer under `round`, saturating with the
    /// invalid flag; a NaN gives zero.
    pub fn to_i32(self, round: Round, env: &mut Env) -> (r: i32)
        ensures
            r == integer(Format::Single, self.word(), true, round, *old(env)).0,
            *final(env) == integer(Format::Single, self.word(), true, round, *old(env)).1,
    {
        to_int(Format::Single, self.wide(), true, round, env) as i32
    }

    /// Convert to an unsigned integer, likewise.
    pub fn to_u32(self, round: Round, env: &mut Env) -> (r: u32)
        ensures
            r == integer(Format::Single, self.word(), false, round, *old(env)).0,
            *final(env) == integer(Format::Single, self.word(), false, round, *old(env)).1,
    {
        to_int(Format::Single, self.wide(), false, round, env) as u32
    }

    pub fn from_i32(value: i32, env: &mut Env) -> (r: F32)
        ensures
            (r.word(), *final(env)) == integral(Format::Single, value as int, *old(env)),
    {
        F32(from_int(Format::Single, value as i64, env) as u32)
    }

    pub fn from_u32(value: u32, env: &mut Env) -> (r: F32)
        ensures
            (r.word(), *final(env)) == integral(Format::Single, value as int, *old(env)),
    {
        F32(from_int(Format::Single, value as i64, env) as u32)
    }

    /// The encoding with the other sign.
    pub open spec fn negated(self) -> F32 {
        F32(
            (if self.0 >= 0x8000_0000 {
                self.0 - 0x8000_0000
            } else {
                self.0 + 0x8000_0000
            }) as u32,
        )
    }
}

/// Flips the sign bit. Never raises a flag, even for a NaN.
impl core::ops::Neg for F32 {
    type Output = F32;

    fn neg(self) -> (r: F32) {
        if self.0 >= 0x8000_0000 {
            F32(self.0 - 0x8000_0000)
        } else {
            F32(self.0 + 0x8000_0000)
        }
    }
}

impl vstd::std_specs::ops::NegSpecImpl for F32 {
    open spec fn obeys_neg_spec() -> bool {
        true
    }

    open spec fn neg_req(self) -> bool {
        true
    }

    open spec fn neg_spec(self) -> F32 {
        self.negated()
    }
}

/// An IEEE-754 binary64 value, as its bits.
#[derive(Clone, Copy, PartialEq, Eq, Structural, Debug)]
pub struct F64(pub u64);

impl Default for F64 {
    fn default() -> (r: F64)
        ensures
            r == F64(0),
    {
        F64(0)
    }
}

impl F64 {
    /// The encoding in a machine word.
    pub open spec fn word(self) -> u64 {
        self.0 as u64
    }

    fn wide(self) -> (r: u64)
        ensures
            r == self.word(),
            Format::Double.holds(r),
    {
        self.0 as u64
    }

    pub fn add(self, other: F64, env: &mut Env) -> (r: F64)
        ensures
            (r.word(), *final(env)) == sum(Format::Double, self.word(), other.word(), false, *old(env)),
    {
        F64(add_bits(Format::Double, self.wide(), other.wide(), false, env) as u64)
    }

    pub fn sub(self, other: F64, env: &mut Env) -> (r: F64)
        ensures
            (r.word(), *final(env)) == sum(Format::Double, self.word(), other.word(), true, *old(env)),
    {
        F64(add_bits(Format::Double, self.wide(), other.wide(), true, env) as u64)
    }

    pub fn mul(self, other: F64, env: &mut Env) -> (r: F64)
        ensures
            (r.word(), *final(env)) == product(Format::Double, self.word(), other.word(), *old(env)),
    {
        F64(mul_bits(Format::Double, self.wide(), other.wide(), env) as u64)
    }

    pub fn div(self, other: F64, env: &mut Env) -> (r: F64)
        ensures
            (r.word(), *final(env)) == quotient(Format::Double, self.word(), other.word(), *old(env)),
    {
        F64(div_bits(Format::Double, self.wide(), other.wide(), env) as u64)
    }

    pub fn sqrt(self, env: &mut Env) -> (r: F64)
        ensures
            (r.word(), *final(env)) == square_root(Format::Double, self.word(), *old(env)),
    {
        F64(sqrt_bits(Format::Double, self.wide(), env) as u64)
    }

    /// Clear the sign bit. Never raises a flag, even for a NaN.
    pub fn abs(self) -> (r: F64)
        ensures
            r.0 == self.0 % 0x8000_0000_0000_0000,
    {
        F64(self.0 % 0x8000_0000_0000_0000)
    }

    pub fn is_nan(self) -> (r: bool)
        ensures
            r == (self.0 % 0x8000_0000_0000_0000 > 0x7FF0_0000_0000_0000),
            forall|env: Env| r == (#[trigger] unpacked(Format::Double, self.word(), env)).0.nan(),
    {
        self.abs().0 > 0x7FF0_0000_0000_0000
    }

    /// Compare, raising invalid only for a signaling NaN. `None` is
    /// unordered.
    pub fn compare(self, other: F64, env: &mut Env) -> (r: Option<Ordering>)
        ensures
            (r, *final(env)) == order(Format::Double, self.word(), other.word(), false, *old(env)),
    {
        compare_bits(Format::Double, self.wide(), other.wide(), false, env)
    }

    /// Compare, raising invalid for any NaN.
    pub fn compare_signaling(self, other: F64, env: &mut Env) -> (r: Option<Ordering>)
        ensures
            (r, *final(env)) == order(Format::Double, self.word(), other.word(), true, *old(env)),
    {
        compare_bits(Format::Double, self.wide(), other.wide(), true, env)
    }

    /// Convert to a signed integer under `round`, saturating with the
    /// invalid flag; a NaN gives zero.
    pub fn to_i32(self, round: Round, env: &mut Env) -> (r: i32)
        ensures
            r == integer(Format::Double, self.word(), true, round, *old(env)).0,
            *final(env) == integer(Format::Double, self.word(), true, round, *old(env)).1,
    {
        to_int(Format::Double, self.wide(), true, round, env) as i32
    }

    /// Convert to an unsigned integer, likewise.
    pub fn to_u32(self, round: Round, env: &mut Env) -> (r: u32)
        ensures
            r == integer(Format::Double, self.word(), false, round, *old(env)).0,
            *final(env) == integer(Format::Double, self.word(), false, round, *old(env)).1,
    {
        to_int(Format::Double, self.wide(), false, round, env) as u32
    }

    pub fn from_i32(value: i32, env: &mut Env) -> (r: F64)
        ensures
            (r.word(), *final(env)) == integral(Format::Double, value as int, *old(env)),
    {
        F64(from_int(Format::Double, value as i64, env) as u64)
    }

    pub fn from_u32(value: u32, env: &mut Env) -> (r: F64)
        ensures
            (r.word(), *final(env)) == integral(Format::Double, value as int, *old(env)),
    {
        F64(from_int(Format::Double, value as i64, env) as u64)
    }

    /// The encoding with the other sign.
    pub open spec fn negated(self) -> F64 {
        F64(
            (if self.0 >= 0x8000_0000_0000_0000 {
                self.0 - 0x8000_0000_0000_0000
            } else {
                self.0 + 0x8000_0000_0000_0000
            }) as u64,
        )
    }
}

/// Flips the sign bit. Never raises a flag, even for a NaN.
impl core::ops::Neg for F64 {
    type Output = F64;

    fn neg(self) -> (r: F64) {
        if self.0 >= 0x8000_0000_0000_0000 {
            F64(self.0 - 0x8000_0000_0000_0000)
        } else {
            F64(self.0 + 0x8000_0000_0000_0000)
        }
    }
}

impl vstd::std_specs::ops::NegSpecImpl for F64 {
    open spec fn obeys_neg_spec() -> bool {
        true
    }

    open spec fn neg_req(self) -> bool {
        true
    }

    open spec fn neg_spec(self) -> F64 {
        self.negated()
    }
}

impl F32 {
    /// Widen; exact except that a signaling NaN is quietened and raises
    /// invalid.
    pub fn to_f64(self, env: &mut Env) -> (r: F64)
        ensures
            (r.word(), *final(env)) == converted(
                Format::Single,
                Format::Double,
                self.word(),
                *old(env),
            ),
    {
        F64(convert(Format::Single, Format::Double, self.wide(), env))
    }
}

impl F64 {
    /// Narrow, rounding under the environment.
    pub fn to_f32(self, env: &mut Env) -> (r: F32)
        ensures
            (r.word(), *final(env)) == converted(
                Format::Double,
                Format::Single,
                self.word(),
                *old(env),
            ),
    {
        F32(convert(Format::Double, Format::Single, self.wide(), env) as u32)
    }
}

/// To change the sign twice changes nothing.
pub proof fn law_negation_is_an_involution(a: F32, b: F64)
    ensures
        a.negated().negated() == a,
        b.negated().negated() == b,
{
}

} // verus!
