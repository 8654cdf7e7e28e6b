//! IEEE-754 binary32 and binary64.
//!
//! A finite number is unpacked to `sig * 2^exp` with an integer significand.
//! Every operation produces an exact (or exact-plus-sticky) result in that
//! form and hands it to [`round_pack`], the only place that rounds. What an
//! operation returns is stated of its exact result, an
//! [`Exact`](crate::softfloat::exact::Exact) number.

use crate::softfloat::exact::{
    lemma_coarser, lemma_finer, lemma_more, lemma_shift, lemma_units, lemma_width, Exact,
};
use vstd::arithmetic::power2::{
    lemma2_to64, lemma_pow2_adds, lemma_pow2_pos, lemma_pow2_strictly_increases, pow2,
};
use vstd::bits::lemma_u128_shr_is_div;
use vstd::prelude::*;

verus! {

/// Rounding modes, in FPSCR `RMode` order.
#[derive(Clone, Copy, PartialEq, Eq, Structural, Debug)]
pub enum Round {
    /// To nearest, ties to even.
    Nearest,
    /// Towards plus infinity.
    Up,
    /// Towards minus infinity.
    Down,
    /// Towards zero.
    Zero,
}

impl Default for Round {
    fn default() -> (r: Round)
        ensures
            r == Round::Nearest,
    {
        Round::Nearest
    }
}

/// Cumulative exception flags, in FPSCR bit order.
#[derive(Clone, Copy, PartialEq, Eq, Structural, Debug)]
pub struct Flags(pub u8);

impl Flags {
    pub const INVALID: u8 = 0x01;

    pub const DIV_BY_ZERO: u8 = 0x02;

    pub const OVERFLOW: u8 = 0x04;

    pub const UNDERFLOW: u8 = 0x08;

    pub const INEXACT: u8 = 0x10;

    /// A subnormal operand was replaced by zero in flush-to-zero mode.
    pub const INPUT_DENORMAL: u8 = 0x80;

    pub fn has(self, flag: u8) -> (r: bool)
        ensures
            r == (self.0 & flag != 0),
    {
        self.0 & flag != 0
    }
}

impl Default for Flags {
    fn default() -> (r: Flags)
        ensures
            r == Flags(0),
    {
        Flags(0)
    }
}

/// The floating-point environment: the controls an operation obeys and the
/// flags it accumulates.
#[derive(Clone, Copy, PartialEq, Eq, Structural, Debug)]
pub struct Env {
    pub round: Round,
    /// Replace subnormal operands and results by zero.
    pub flush_to_zero: bool,
    /// Return the default NaN instead of propagating an operand.
    pub default_nan: bool,
    pub flags: Flags,
}

impl Env {
    /// The environment with one more flag raised.
    pub open spec fn raised(self, flag: u8) -> Env {
        Env { flags: Flags(self.flags.0 | flag), ..self }
    }

    pub(crate) fn raise(&mut self, flag: u8)
        ensures
            *final(self) == old(self).raised(flag),
    {
        self.flags = Flags(self.flags.0 | flag);
    }
}

impl Default for Env {
    fn default() -> (r: Env)
        ensures
            r == (Env {
                round: Round::Nearest,
                flush_to_zero: false,
                default_nan: false,
                flags: Flags(0),
            }),
    {
        Env {
            round: Round::Nearest,
            flush_to_zero: false,
            default_nan: false,
            flags: Flags(0),
        }
    }
}

/// The two formats.
#[derive(Clone, Copy, PartialEq, Eq, Structural, Debug)]
pub enum Format {
    Single,
    Double,
}

impl Format {
    /// The fraction bits.
    pub open spec fn frac_bits(self) -> int {
        match self {
            Format::Single => 23,
            Format::Double => 52,
        }
    }

    /// `2^frac_bits`: the weight of the hidden bit.
    pub open spec fn hidden(self) -> u64 {
        match self {
            Format::Single => 0x80_0000,
            Format::Double => 0x10_0000_0000_0000,
        }
    }

    /// The biased exponent of infinities and NaNs.
    pub open spec fn exp_max(self) -> u64 {
        match self {
            Format::Single => 0xFF,
            Format::Double => 0x7FF,
        }
    }

    pub open spec fn bias(self) -> int {
        match self {
            Format::Single => 127,
            Format::Double => 1023,
        }
    }

    /// The exponent of the smallest normal number.
    pub open spec fn emin(self) -> int {
        1 - self.bias()
    }

    pub open spec fn sign_bit(self) -> u64 {
        match self {
            Format::Single => 0x8000_0000,
            Format::Double => 0x8000_0000_0000_0000,
        }
    }

    /// The bit that tells a quiet NaN from a signaling one.
    pub open spec fn quiet_bit(self) -> u64 {
        (self.hidden() / 2) as u64
    }

    /// The encoding of infinity without its sign; every finite magnitude lies
    /// below it.
    pub open spec fn infinite(self) -> u64 {
        (self.exp_max() * self.hidden()) as u64
    }

    /// The encoding of a magnitude with a sign.
    pub open spec fn signed(self, sign: bool, mag: int) -> u64 {
        (if sign {
            self.sign_bit() + mag
        } else {
            mag
        }) as u64
    }

    pub open spec fn default_nan(self) -> u64 {
        (self.infinite() + self.quiet_bit()) as u64
    }

    /// Whether `bits` is an encoding of the format.
    pub open spec fn holds(self, bits: u64) -> bool {
        bits < 2 * self.sign_bit()
    }

    pub(crate) fn frac(self) -> (r: i32)
        ensures
            r == self.frac_bits(),
    {
        match self {
            Format::Single => 23,
            Format::Double => 52,
        }
    }

    pub(crate) fn unit(self) -> (r: u64)
        ensures
            r == self.hidden(),
    {
        match self {
            Format::Single => 0x80_0000,
            Format::Double => 0x10_0000_0000_0000,
        }
    }

    pub(crate) fn top_exp(self) -> (r: u64)
        ensures
            r == self.exp_max(),
    {
        match self {
            Format::Single => 0xFF,
            Format::Double => 0x7FF,
        }
    }

    pub(crate) fn exp_bias(self) -> (r: i32)
        ensures
            r == self.bias(),
    {
        match self {
            Format::Single => 127,
            Format::Double => 1023,
        }
    }

    pub(crate) fn sign_unit(self) -> (r: u64)
        ensures
            r == self.sign_bit(),
    {
        match self {
            Format::Single => 0x8000_0000,
            Format::Double => 0x8000_0000_0000_0000,
        }
    }

    pub(crate) fn with_sign(self, sign: bool, mag: u64) -> (r: u64)
        requires
            mag < self.sign_bit(),
        ensures
            r == self.signed(sign, mag as int),
            self.holds(r),
    {
        if sign {
            self.sign_unit() + mag
        } else {
            mag
        }
    }

    pub(crate) fn infinity(self, sign: bool) -> (r: u64)
        ensures
            r == self.signed(sign, self.infinite() as int),
            self.holds(r),
    {
        let mag: u64 = match self {
            Format::Single => 0x7F80_0000,
            Format::Double => 0x7FF0_0000_0000_0000,
        };
        self.with_sign(sign, mag)
    }

    pub(crate) fn zero(self, sign: bool) -> (r: u64)
        ensures
            r == self.signed(sign, 0),
            self.holds(r),
    {
        self.with_sign(sign, 0)
    }

    pub(crate) fn nan(self) -> (r: u64)
        ensures
            r == self.default_nan(),
            self.holds(r),
    {
        match self {
            Format::Single => 0x7FC0_0000,
            Format::Double => 0x7FF8_0000_0000_0000,
        }
    }

    pub(crate) fn max_finite(self, sign: bool) -> (r: u64)
        ensures
            r == self.signed(sign, self.infinite() - 1),
            self.holds(r),
    {
        let mag: u64 = match self {
            Format::Single => 0x7F7F_FFFF,
            Format::Double => 0x7FEF_FFFF_FFFF_FFFF,
        };
        self.with_sign(sign, mag)
    }
}

/// What an encoding stands for.
#[derive(Clone, Copy, PartialEq, Eq, Structural, Debug)]
pub enum Class {
    Zero,
    Infinity,
    Nan { signaling: bool },
    /// `sig * 2^exp`, with `sig` non-zero.
    Finite { sig: u64, exp: i32 },
}

#[derive(Clone, Copy, PartialEq, Eq, Structural, Debug)]
pub struct Unpacked {
    pub sign: bool,
    pub class: Class,
    pub bits: u64,
}

impl Unpacked {
    pub open spec fn nan(self) -> bool {
        self.class is Nan
    }

    pub open spec fn signaling(self) -> bool {
        self.class == (Class::Nan { signaling: true })
    }

    /// The ranges of the unpacked parts.
    pub open spec fn wf(self, fmt: Format) -> bool {
        &&& fmt.holds(self.bits)
        &&& match self.class {
            Class::Finite { sig, exp } => 0 < sig < 2 * fmt.hidden() && -1074 <= exp <= 971,
            _ => true,
        }
    }
}

/// What the encoding `bits` stands for. In flush-to-zero mode a subnormal
/// number stands for zero, and is noted.
pub open spec fn unpacked(fmt: Format, bits: u64, env: Env) -> (Unpacked, Env) {
    let sign = bits >= fmt.sign_bit();
    let mag = bits as int % fmt.sign_bit() as int;
    let biased = mag / fmt.hidden() as int;
    let frac = mag % fmt.hidden() as int;
    let flushed = biased == 0 && frac != 0 && env.flush_to_zero;
    let class = if biased == fmt.exp_max() {
        if frac == 0 {
            Class::Infinity
        } else {
            Class::Nan { signaling: frac < fmt.quiet_bit() }
        }
    } else if biased == 0 {
        if frac == 0 || env.flush_to_zero {
            Class::Zero
        } else {
            Class::Finite { sig: frac as u64, exp: (fmt.emin() - fmt.frac_bits()) as i32 }
        }
    } else {
        Class::Finite {
            sig: (frac + fmt.hidden()) as u64,
            exp: (biased - fmt.bias() - fmt.frac_bits()) as i32,
        }
    };
    (
        Unpacked { sign, class, bits },
        if flushed {
            env.raised(Flags::INPUT_DENORMAL)
        } else {
            env
        },
    )
}

pub(crate) fn unpack(fmt: Format, bits: u64, env: &mut Env) -> (r: Unpacked)
    requires
        fmt.holds(bits),
    ensures
        (r, *final(env)) == unpacked(fmt, bits, *old(env)),
        r.wf(fmt),
        final(env).round == old(env).round,
        final(env).flush_to_zero == old(env).flush_to_zero,
        final(env).default_nan == old(env).default_nan,
{
    let sign = bits >= fmt.sign_unit();
    let mag: u64 = if sign {
        bits - fmt.sign_unit()
    } else {
        bits
    };
    assert(mag == bits as int % fmt.sign_bit() as int);
    let biased: u64 = mag / fmt.unit();
    let frac: u64 = mag % fmt.unit();
    let class = if biased == fmt.top_exp() {
        if frac == 0 {
            Class::Infinity
        } else {
            Class::Nan { signaling: frac < fmt.unit() / 2 }
        }
    } else if biased == 0 {
        if frac == 0 {
            Class::Zero
        } else if env.flush_to_zero {
            env.raise(Flags::INPUT_DENORMAL);
            Class::Zero
        } else {
            Class::Finite { sig: frac, exp: 1 - fmt.exp_bias() - fmt.frac() }
        }
    } else {
        Class::Finite {
            sig: frac + fmt.unit(),
            exp: biased as i32 - fmt.exp_bias() - fmt.frac(),
        }
    };
    Unpacked { sign, class, bits }
}

/// `2^n`.
pub(crate) fn power(n: u32) -> (r: u128)
    requires
        n < 128,
    ensures
        r == pow2(n as nat),
{
    let p: u128 = 1u128 << n;
    proof {
        let s = n as u128;
        assert(p >> s == 1 && p >= 1 && (((p - 1) as u128) >> s) == 0) by (bit_vector)
            requires
                p == 1u128 << n,
                s == n as u128,
                n < 128,
        ;
        lemma_u128_shr_is_div(p, s);
        lemma_u128_shr_is_div((p - 1) as u128, s);
        let t = pow2(n as nat) as int;
        lemma_pow2_pos(n as nat);
        assert(p as int >= t) by (nonlinear_arith)
            requires
                p as int / t == 1,
                t > 0,
        ;
        assert(p - 1 < t) by (nonlinear_arith)
            requires
                (p - 1) / t == 0,
                t > 0,
                p >= 1,
        ;
    }
    p
}

/// `pow2(128)` bounds every 128-bit word.
proof fn lemma_pow2_128()
    ensures
        pow2(128) == 0x1_0000_0000_0000_0000_0000_0000_0000_0000,
{
    lemma2_to64();
    lemma_pow2_adds(64, 64);
    assert(pow2(64) == 0x1_0000_0000_0000_0000);
    assert(0x1_0000_0000_0000_0000 * 0x1_0000_0000_0000_0000
        == 0x1_0000_0000_0000_0000_0000_0000_0000_0000);
}

/// A higher power is no smaller.
pub(crate) proof fn lemma_pow2_le(a: nat, b: nat)
    requires
        a <= b,
    ensures
        pow2(a) <= pow2(b),
{
    if a < b {
        lemma_pow2_strictly_increases(a, b);
    }
}

/// One step of the search for the width: `k` more bits taken off.
proof fn lemma_taken(sig: int, w: nat, k: nat)
    requires
        sig >= 0,
    ensures
        sig / pow2(w) as int / pow2(k) as int == sig / pow2(w + k) as int,
{
    lemma_pow2_pos(w);
    lemma_pow2_pos(k);
    lemma_pow2_adds(w, k);
    vstd::arithmetic::div_mod::lemma_div_denominator(sig, pow2(w) as int, pow2(k) as int);
}

/// The number of bits of `sig`.
pub(crate) fn bit_width(sig: u128) -> (r: u32)
    requires
        sig > 0,
    ensures
        1 <= r <= 128,
        pow2((r - 1) as nat) <= sig < pow2(r as nat),
{
    let mut v: u128 = sig;
    let mut w: u32 = 0;
    let mut k: u32 = 64;
    proof {
        lemma_pow2_128();
        lemma2_to64();
        assert(sig as int / 1 == sig);
    }
    while k > 0
        invariant
            k == 64 || k == 32 || k == 16 || k == 8 || k == 4 || k == 2 || k == 1 || k == 0,
            v >= 1,
            v as int == sig as int / pow2(w as nat) as int,
            k > 0 ==> v < pow2((2 * k) as nat) && w + 2 * k <= 128,
            k == 0 ==> v < 2 && w <= 127,
        decreases k,
    {
        let p: u128 = power(k);
        proof {
            lemma_pow2_adds(k as nat, k as nat);
            lemma_pow2_pos(k as nat);
            lemma2_to64();
            lemma_taken(sig as int, w as nat, k as nat);
        }
        if v >= p {
            let ghost before = v;
            v = v / p;
            w = w + k;
            proof {
                let q = p as int;
                assert(v as int >= 1) by (nonlinear_arith)
                    requires
                        v as int == before as int / q,
                        before as int >= q,
                        q > 0,
                ;
                assert((v as int) < q) by (nonlinear_arith)
                    requires
                        v as int == before as int / q,
                        (before as int) < q * q,
                        q > 0,
                        before >= 0,
                ;
            }
        }
        k = k / 2;
    }
    proof {
        let p = pow2(w as nat) as int;
        lemma_pow2_pos(w as nat);
        assert(p <= sig < 2 * p) by (nonlinear_arith)
            requires
                sig as int / p == 1,
                p > 0,
        ;
        vstd::arithmetic::power2::lemma_pow2_unfold((w + 1) as nat);
    }
    w + 1
}

/// Shift right; the flag is also set by every bit shifted out.
pub(crate) fn shift_right_sticky(value: u128, amount: u32, sticky: bool) -> (r: (u128, bool))
    ensures
        r.0 as int == value as int / pow2(amount as nat) as int,
        r.1 == (sticky || value as int % pow2(amount as nat) as int != 0),
{
    if amount >= 128 {
        proof {
            lemma_pow2_128();
            lemma_pow2_le(128, amount as nat);
            let p = pow2(amount as nat) as int;
            assert(value as int / p == 0 && value as int % p == value) by (nonlinear_arith)
                requires
                    0 <= value < p,
            ;
        }
        (0, sticky || value != 0)
    } else {
        let p: u128 = power(amount);
        proof {
            lemma_pow2_pos(amount as nat);
        }
        (value / p, sticky || value % p != 0)
    }
}

/// Whether the magnitude is rounded up: `half` says how the exact number
/// compares with the middle between two neighbours, and `odd` whether the
/// lower one is odd.
pub open spec fn rounds_up(round: Round, sign: bool, inexact: bool, half: int, odd: bool) -> bool {
    match round {
        Round::Nearest => half > 0 || (half == 0 && odd),
        Round::Up => inexact && !sign,
        Round::Down => inexact && sign,
        Round::Zero => false,
    }
}

/// Whether a number too large for the format becomes an infinity.
pub open spec fn overflows_to_infinity(round: Round, sign: bool) -> bool {
    match round {
        Round::Nearest => true,
        Round::Up => !sign,
        Round::Down => sign,
        Round::Zero => false,
    }
}

/// The spacing of the format's numbers around one with exponent `e`, as a power
/// of two: below the smallest normal number it no longer shrinks.
pub open spec fn quantum(fmt: Format, e: int) -> int {
    (if e < fmt.emin() {
        fmt.emin()
    } else {
        e
    }) - fmt.frac_bits()
}

/// `v` in units of the spacing, rounded to a whole number.
pub open spec fn rounded_units(v: Exact, q: int, sign: bool, round: Round) -> int {
    let k = v.units(q);
    let half = v.against(2 * k + 1, q - 1);
    if rounds_up(round, sign, v.against(k, q) != 0, half, k % 2 == 1) {
        k + 1
    } else {
        k
    }
}

/// The encoding of a rounded magnitude; from infinity on it has overflowed.
pub open spec fn encoded(fmt: Format, sign: bool, mag: int, env: Env) -> (u64, Env) {
    if mag >= fmt.infinite() {
        (
            fmt.signed(
                sign,
                if overflows_to_infinity(env.round, sign) {
                    fmt.infinite() as int
                } else {
                    fmt.infinite() - 1
                },
            ),
            env.raised(Flags::OVERFLOW | Flags::INEXACT),
        )
    } else {
        (fmt.signed(sign, mag), env)
    }
}

/// The exact number `v`, with a sign, rounded into the format under the
/// environment, and the environment with the flags that this raises. Tininess
/// is detected before rounding.
///
/// The encodings of neighbouring numbers follow each other, across exponents
/// too, so that the magnitude is a count of units above the encoding that its
/// exponent starts at.
pub open spec fn rounded(fmt: Format, sign: bool, v: Exact, env: Env) -> (u64, Env) {
    let e = v.exponent();
    let tiny = e < fmt.emin();
    if tiny && env.flush_to_zero {
        (fmt.signed(sign, 0), env.raised(Flags::UNDERFLOW))
    } else {
        let q = quantum(fmt, e);
        let inexact = v.against(v.units(q), q) != 0;
        let start = if tiny {
            0
        } else {
            (e + fmt.bias() - 1) * fmt.hidden()
        };
        let mag = start + rounded_units(v, q, sign, env.round);
        let noted = if inexact && tiny {
            env.raised(Flags::INEXACT).raised(Flags::UNDERFLOW)
        } else if inexact {
            env.raised(Flags::INEXACT)
        } else {
            env
        };
        encoded(fmt, sign, mag, noted)
    }
}

/// The hidden bit is a power of two.
pub(crate) proof fn lemma_hidden(fmt: Format)
    ensures
        fmt.hidden() == pow2(fmt.frac_bits() as nat),
        2 * fmt.hidden() == pow2((fmt.frac_bits() + 1) as nat),
{
    lemma2_to64();
    vstd::arithmetic::power2::lemma2_to64_rest();
}

/// The count of units of a number with exponent `e` needs no more bits than
/// the format has, and for a normal number no fewer.
proof fn lemma_count(fmt: Format, v: Exact, e: int, k: int)
    requires
        v.wf(),
        v.exponent() == e,
        v.against(1, e) >= 0,
        v.against(1, e + 1) < 0,
        v.floor_at(k, quantum(fmt, e)),
    ensures
        k < 2 * fmt.hidden(),
        e < fmt.emin() ==> k < fmt.hidden(),
        e >= fmt.emin() ==> k >= fmt.hidden(),
{
    let q = quantum(fmt, e);
    let f = fmt.frac_bits() as nat;
    lemma_hidden(fmt);
    if e < fmt.emin() {
        // Below the smallest normal number.
        let j = (fmt.emin() - (e + 1)) as nat;
        lemma_shift(v, 1, e + 1, j);
        lemma_pow2_pos(j);
        assert(1 * pow2(j) == pow2(j));
        if pow2(j) > 1 {
            lemma_more(v, 1, pow2(j) as int, e + 1);
        }
        assert(v.against(1, fmt.emin()) < 0);
        lemma_shift(v, 1, q, f);
        assert(1 * pow2(f) == pow2(f));
        if k > pow2(f) {
            lemma_more(v, pow2(f) as int, k, q);
        }
    } else {
        lemma_shift(v, 1, q, f);
        assert(1 * pow2(f) == pow2(f));
        if k + 1 < pow2(f) {
            lemma_more(v, k + 1, pow2(f) as int, q);
        }
        lemma_shift(v, 1, q, (f + 1) as nat);
        assert(1 * pow2((f + 1) as nat) == pow2((f + 1) as nat));
        if k > pow2((f + 1) as nat) {
            lemma_more(v, pow2((f + 1) as nat) as int, k, q);
        }
    }
}

/// The exponent of a number brackets it.
proof fn lemma_bracket(v: Exact, k: int, e: int, w: nat)
    requires
        v.wf(),
        v.floor_at(k, e),
        w >= 1,
        pow2((w - 1) as nat) <= k < pow2(w),
    ensures
        v.exponent() == e + w - 1,
        v.against(1, e + w - 1) >= 0,
        v.against(1, e + w) < 0,
{
    lemma_width(v, k, e, w);
    let j = (w - 1) as nat;
    let p = pow2(j) as int;
    lemma_pow2_pos(j);
    vstd::arithmetic::power2::lemma_pow2_unfold(w);
    assert(k / p == 1) by (nonlinear_arith)
        requires
            p <= k < 2 * p,
            p > 0,
    ;
    lemma_coarser(v, k, e, j);
    lemma_shift(v, 1, e + j, 1);
    lemma2_to64();
    assert(1 * pow2(1) == 2);
}

/// `(sig, exp, sticky)` describes the exact number `v`: `sig` units of `2^exp`,
/// plus something less than a unit when `sticky`.
pub open spec fn describes(v: Exact, sig: u128, exp: i32, sticky: bool) -> bool {
    &&& v.wf()
    &&& sig > 0
    &&& v.floor_at(sig as int, exp as int)
    &&& sticky == (v.against(sig as int, exp as int) != 0)
    &&& -6000 <= exp <= 6000
    // An inexact significand has bits to spare.
    &&& sticky ==> sig >= 0x1000_0000_0000_0000
}

/// The number at a quarter of the quantum `q`: two extra bits below the result,
/// the rounding bit and a sticky bit.
fn extend(sig: u128, exp: i32, sticky: bool, width: u32, q: i32, v: Ghost<Exact>) -> (r: (
    u128,
    bool,
))
    requires
        describes(v@, sig, exp, sticky),
        1 <= width <= 128,
        pow2((width - 1) as nat) <= sig < pow2(width as nat),
        -7000 <= q <= 7000,
        exp + width - 1 - 52 <= q || q <= 5000,
        exp + width - 1 - q <= 52,
    ensures
        v@.floor_at(r.0 as int, q - 2),
        r.1 == (v@.against(r.0 as int, q - 2) != 0),
{
    let drop: i32 = q - 2 - exp;
    if drop > 0 {
        let r = shift_right_sticky(sig, drop as u32, sticky);
        proof {
            lemma_coarser(v@, sig as int, exp as int, drop as nat);
        }
        r
    } else {
        let n: u32 = (-drop) as u32;
        proof {
            assert(!sticky) by {
                if sticky {
                    lemma2_to64();
                    vstd::arithmetic::power2::lemma2_to64_rest();
                    if width < 61 {
                        lemma_pow2_le(width as nat, 60);
                    }
                    assert(width >= 61);
                }
            }
            lemma_finer(v@, sig as int, exp as int, n as nat);
            lemma_pow2_pos(n as nat);
            let p = pow2(n as nat) as int;
            let t = pow2(width as nat) as int;
            lemma_pow2_adds(width as nat, n as nat);
            lemma_pow2_le((width + n) as nat, 64);
            lemma2_to64();
            assert(sig * p <= t * p) by (nonlinear_arith)
                requires
                    sig < t,
                    p > 0,
            ;
        }
        (sig * power(n), false)
    }
}

/// The number in units of the quantum `q`, rounded, and whether it is inexact.
fn round_units(
    extended: u128,
    rest: bool,
    sign: bool,
    round: Round,
    q: i32,
    v: Ghost<Exact>,
) -> (r: (u64, bool))
    requires
        v@.wf(),
        -7000 <= q <= 7000,
        v@.floor_at(extended as int, q - 2),
        rest == (v@.against(extended as int, q - 2) != 0),
        extended / 4 < 0x20_0000_0000_0000,
    ensures
        r.0 == rounded_units(v@, q as int, sign, round),
        v@.floor_at(extended as int / 4, q as int),
        r.1 == (v@.against(v@.units(q as int), q as int) != 0),
        r.0 == extended / 4 || r.0 == extended / 4 + 1,
{
    proof {
        lemma2_to64();
        lemma_coarser(v@, extended as int, q - 2, 2);
        lemma_coarser(v@, extended as int, q - 2, 1);
        lemma_units(v@, extended as int / 4, q as int);
    }
    let kept: u64 = (extended / 4) as u64;
    let round_bit = extended / 2 % 2 != 0;
    let low = rest || extended % 2 != 0;
    let inexact = round_bit || low;
    proof {
        let k = kept as int;
        assert(inexact == (v@.against(k, q as int) != 0));
        let h = extended as int / 2;
        if round_bit {
            assert(h == 2 * k + 1);
            assert((v@.against(h, q - 1) == 0) == !low);
        } else {
            assert(h == 2 * k);
            assert(v@.against(h + 1, q - 1) < 0);
        }
    }
    let up = match round {
        Round::Nearest => round_bit && (low || kept % 2 == 1),
        Round::Up => inexact && !sign,
        Round::Down => inexact && sign,
        Round::Zero => false,
    };
    if up {
        (kept + 1, inexact)
    } else {
        (kept, inexact)
    }
}

/// Encode a rounded count of units: that of a tiny number is its magnitude, any
/// other one lies above the encoding that the exponent `e` starts at.
fn encode(fmt: Format, sign: bool, tiny: bool, e: i32, count: u64, env: &mut Env) -> (r: u64)
    requires
        -7000 <= e <= 7000,
        tiny == (e < fmt.emin()),
        count <= 2 * fmt.hidden(),
        !tiny ==> count >= fmt.hidden(),
    ensures
        (r, *final(env)) == encoded(
            fmt,
            sign,
            (if tiny {
                0
            } else {
                (e + fmt.bias() - 1) * fmt.hidden()
            }) + count,
            *old(env),
        ),
        fmt.holds(r),
{
    let bias: i32 = fmt.exp_bias();
    if !tiny && e > bias {
        let ghost steps = e + fmt.bias() - 1;
        let ghost unit = fmt.hidden() as int;
        assert(steps * unit >= (2 * fmt.bias()) * unit) by (nonlinear_arith)
            requires
                steps >= 2 * fmt.bias(),
                unit > 0,
        ;
        assert((2 * fmt.bias()) * unit + unit == fmt.infinite());
        return overflow(fmt, sign, env);
    }
    let start: u64 = if tiny {
        0
    } else {
        let steps: u64 = (e + bias - 1) as u64;
        let unit: u64 = fmt.unit();
        assert(steps * unit <= 2046 * 0x10_0000_0000_0000) by (nonlinear_arith)
            requires
                0 <= steps <= 2046,
                0 < unit <= 0x10_0000_0000_0000,
        ;
        steps * unit
    };
    let mag: u64 = start + count;
    let infinite: u64 = fmt.infinity(false);
    if mag >= infinite {
        return overflow(fmt, sign, env);
    }
    fmt.with_sign(sign, mag)
}

/// Round `(-1)^sign * sig * 2^exp` (plus something below the last bit when
/// `sticky`) into the format.
pub(crate) fn round_pack(
    fmt: Format,
    sign: bool,
    sig: u128,
    exp: i32,
    sticky: bool,
    env: &mut Env,
    v: Ghost<Exact>,
) -> (r: u64)
    requires
        describes(v@, sig, exp, sticky),
    ensures
        (r, *final(env)) == rounded(fmt, sign, v@, *old(env)),
        fmt.holds(r),
{
    let width: u32 = bit_width(sig);
    let e: i32 = exp + width as i32 - 1;
    proof {
        lemma_bracket(v@, sig as int, exp as int, width as nat);
    }
    let emin: i32 = 1 - fmt.exp_bias();
    let tiny = e < emin;
    if tiny && env.flush_to_zero {
        env.raise(Flags::UNDERFLOW);
        return fmt.zero(sign);
    }
    let q: i32 = if tiny {
        emin - fmt.frac()
    } else {
        e - fmt.frac()
    };
    let (extended, rest) = extend(sig, exp, sticky, width, q, v);
    proof {
        lemma2_to64();
        lemma_coarser(v@, extended as int, q - 2, 2);
        lemma_count(fmt, v@, e as int, extended as int / 4);
    }
    let (count, inexact) = round_units(extended, rest, sign, env.round, q, v);
    if inexact {
        env.raise(Flags::INEXACT);
        if tiny {
            env.raise(Flags::UNDERFLOW);
        }
    }
    encode(fmt, sign, tiny, e, count, env)
}

/// A result too large for the format.
fn overflow(fmt: Format, sign: bool, env: &mut Env) -> (r: u64)
    ensures
        r == fmt.signed(
            sign,
            if overflows_to_infinity(old(env).round, sign) {
                fmt.infinite() as int
            } else {
                fmt.infinite() - 1
            },
        ),
        *final(env) == old(env).raised(Flags::OVERFLOW | Flags::INEXACT),
        fmt.holds(r),
{
    env.raise(Flags::OVERFLOW | Flags::INEXACT);
    let to_infinity = match env.round {
        Round::Nearest => true,
        Round::Up => !sign,
        Round::Down => sign,
        Round::Zero => false,
    };
    if to_infinity {
        fmt.infinity(sign)
    } else {
        fmt.max_finite(sign)
    }
}

} // verus!
