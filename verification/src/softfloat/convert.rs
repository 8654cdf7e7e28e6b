//! Comparisons and conversions of encodings.

use crate::softfloat::exact::{
    diff, lemma_coarser, lemma_finer, lemma_more, lemma_shift, lemma_units, Exact,
};
use crate::softfloat::ieee::{
    rounded, rounded_units, shift_right_sticky, unpack, unpacked, Class, Env, Flags, Format, Round,
    Unpacked,
};
use crate::softfloat::ops::{is_nan, is_signaling, lemma_dyadic_fine, round_exact, with_sign};
use core::cmp::Ordering;
use vstd::arithmetic::power2::{lemma2_to64, lemma_pow2_pos, lemma_pow2_unfold, pow2};
use vstd::prelude::*;

verus! {

/// Where a number stands among the encodings: by sign, then by magnitude.
/// Both zeros, and a flushed subnormal, stand at 0.
pub open spec fn rank(fmt: Format, u: Unpacked) -> int {
    match u.class {
        Class::Zero => 0,
        _ => with_sign(u.sign, u.bits as int % fmt.sign_bit() as int),
    }
}

fn rank_of(fmt: Format, u: &Unpacked) -> (r: i128)
    requires
        u.wf(fmt),
        u.sign == (u.bits >= fmt.sign_bit()),
    ensures
        r == rank(fmt, *u),
{
    match u.class {
        Class::Zero => 0,
        _ => {
            if u.sign {
                let mag: u64 = u.bits - fmt.sign_unit();
                assert(mag == u.bits as int % fmt.sign_bit() as int);
                -(mag as i128)
            } else {
                assert(u.bits == u.bits as int % fmt.sign_bit() as int);
                u.bits as i128
            }
        },
    }
}

/// How `x` compares with `y`.
pub open spec fn ordered(x: int, y: int) -> Ordering {
    if x < y {
        Ordering::Less
    } else if x == y {
        Ordering::Equal
    } else {
        Ordering::Greater
    }
}

/// How two encodings compare, `None` where one is a NaN; a signaling NaN, or any
/// where `signaling`, is invalid.
pub open spec fn order(fmt: Format, a: u64, b: u64, signaling: bool, env: Env) -> (
    Option<Ordering>,
    Env,
) {
    let (x, env1) = unpacked(fmt, a, env);
    let (y, env2) = unpacked(fmt, b, env1);
    if x.nan() || y.nan() {
        (
            None,
            if signaling || x.signaling() || y.signaling() {
                env2.raised(Flags::INVALID)
            } else {
                env2
            },
        )
    } else {
        (Some(ordered(rank(fmt, x), rank(fmt, y))), env2)
    }
}

pub(crate) fn compare_bits(fmt: Format, a: u64, b: u64, signaling: bool, env: &mut Env) -> (r:
    Option<Ordering>)
    requires
        fmt.holds(a),
        fmt.holds(b),
    ensures
        (r, *final(env)) == order(fmt, a, b, signaling, *old(env)),
{
    let x: Unpacked = unpack(fmt, a, env);
    let y: Unpacked = unpack(fmt, b, env);
    if is_nan(&x) || is_nan(&y) {
        if signaling || is_signaling(&x) || is_signaling(&y) {
            env.raise(Flags::INVALID);
        }
        return None;
    }
    let rx: i128 = rank_of(fmt, &x);
    let ry: i128 = rank_of(fmt, &y);
    if rx < ry {
        Some(Ordering::Less)
    } else if rx == ry {
        Some(Ordering::Equal)
    } else {
        Some(Ordering::Greater)
    }
}

/// An exact number of whole units is rounded to itself.
proof fn lemma_whole(v: Exact, k: int, sign: bool, round: Round)
    requires
        v.wf(),
        v.floor_at(k, 0),
        v.against(k, 0) == 0,
    ensures
        rounded_units(v, 0, sign, round) == k,
        v.units(0) == k,
{
    lemma_units(v, k, 0);
    lemma_shift(v, k, -1, 1);
    lemma2_to64();
    assert(k * pow2(1) == 2 * k);
    assert(v.against(2 * k, -1) == 0);
    lemma_more(v, 2 * k, 2 * k + 1, -1);
}

/// Round to an integer magnitude under `round`; the flag reports inexactness.
/// A number beyond every integer range may come out as another such number.
fn to_integer(sign: bool, sig: u64, exp: i32, round: Round) -> (r: (u128, bool))
    requires
        0 < sig < 0x20_0000_0000_0000,
        -1074 <= exp <= 971,
    ensures
        ({
            let v = Exact::dyadic(sig as int, exp as int);
            let m = rounded_units(v, 0, sign, round);
            &&& r.1 == (v.against(v.units(0), 0) != 0)
            &&& r.0 == m || (r.0 > u32::MAX && m > u32::MAX)
        }),
{
    let ghost v = Exact::dyadic(sig as int, exp as int);
    proof {
        lemma2_to64();
        let m = exp as int;
        assert(pow2((m - m) as nat) == 1);
        assert(sig as int * pow2((m - m) as nat) == sig);
        lemma_dyadic_fine(sig as int, m, m, sig as int);
    }
    if exp >= 0 {
        proof {
            lemma_finer(v, sig as int, exp as int, exp as nat);
            lemma_whole(v, sig * pow2(exp as nat), sign, round);
        }
        if exp > 64 {
            // Anything this large is out of every range.
            proof {
                vstd::arithmetic::power2::lemma_pow2_strictly_increases(64, exp as nat);
                let p = pow2(exp as nat) as int;
                assert(sig * p >= p) by (nonlinear_arith)
                    requires
                        sig >= 1,
                        p > 0,
                ;
            }
            return (0x1_0000_0000_0000_0000, false);
        }
        proof {
            if exp < 64 {
                vstd::arithmetic::power2::lemma_pow2_strictly_increases(exp as nat, 64);
            }
            lemma_pow2_pos(exp as nat);
            let p = pow2(exp as nat) as int;
            assert(sig * p <= 0x20_0000_0000_0000 * 0x1_0000_0000_0000_0000) by (nonlinear_arith)
                requires
                    0 < sig < 0x20_0000_0000_0000,
                    0 < p <= 0x1_0000_0000_0000_0000,
            ;
        }
        return (sig as u128 * crate::softfloat::ieee::power(exp as u32), false);
    }
    let drop: u32 = (-exp - 1) as u32;
    let (extended, sticky) = shift_right_sticky(sig as u128, drop, false);
    proof {
        lemma_coarser(v, sig as int, exp as int, drop as nat);
        assert(v.floor_at(extended as int, -1));
        lemma_coarser(v, extended as int, -1, 1);
        lemma_units(v, extended as int / 2, 0);
        let p = pow2(drop as nat) as int;
        lemma_pow2_pos(drop as nat);
        assert(extended <= sig) by (nonlinear_arith)
            requires
                extended as int == sig as int / p,
                p > 0,
                sig >= 0,
        ;
    }
    let kept: u128 = extended / 2;
    let round_bit = extended % 2 != 0;
    let inexact = round_bit || sticky;
    proof {
        let k = kept as int;
        if round_bit {
            assert(extended as int == 2 * k + 1);
        } else {
            assert(extended as int == 2 * k);
            assert(v.against(extended + 1, -1) < 0);
        }
    }
    let up = match round {
        Round::Nearest => round_bit && (sticky || kept % 2 != 0),
        Round::Up => inexact && !sign,
        Round::Down => inexact && sign,
        Round::Zero => false,
    };
    if up {
        (kept + 1, inexact)
    } else {
        (kept, inexact)
    }
}

/// The smallest and the largest number of an integer type.
pub open spec fn int_range(signed: bool) -> (int, int) {
    if signed {
        (-0x8000_0000, 0x7FFF_FFFF)
    } else {
        (0, 0xFFFF_FFFF)
    }
}

/// The integer that an encoding rounds to under `round`. What is beyond the
/// range saturates and is invalid; a NaN gives zero.
pub open spec fn integer(fmt: Format, a: u64, signed: bool, round: Round, env: Env) -> (int, Env) {
    let (x, env1) = unpacked(fmt, a, env);
    let (low, high) = int_range(signed);
    let saturated = if x.sign {
        low
    } else {
        high
    };
    match x.class {
        Class::Nan { .. } => (0, env1.raised(Flags::INVALID)),
        Class::Zero => (0, env1),
        Class::Infinity => (saturated, env1.raised(Flags::INVALID)),
        Class::Finite { sig, exp } => {
            let v = Exact::dyadic(sig as int, exp as int);
            let n = with_sign(x.sign, rounded_units(v, 0, x.sign, round));
            if n < low || n > high {
                (saturated, env1.raised(Flags::INVALID))
            } else if v.against(v.units(0), 0) != 0 {
                (n, env1.raised(Flags::INEXACT))
            } else {
                (n, env1)
            }
        },
    }
}

pub(crate) fn to_int(fmt: Format, a: u64, signed: bool, round: Round, env: &mut Env) -> (r: i64)
    requires
        fmt.holds(a),
    ensures
        r == integer(fmt, a, signed, round, *old(env)).0,
        *final(env) == integer(fmt, a, signed, round, *old(env)).1,
        int_range(signed).0 <= r <= int_range(signed).1,
{
    let x: Unpacked = unpack(fmt, a, env);
    let (low, high): (i64, i64) = if signed {
        (-0x8000_0000, 0x7FFF_FFFF)
    } else {
        (0, 0xFFFF_FFFF)
    };
    let saturated: i64 = if x.sign {
        low
    } else {
        high
    };
    match x.class {
        Class::Nan { .. } => {
            env.raise(Flags::INVALID);
            0
        },
        Class::Zero => 0,
        Class::Infinity => {
            env.raise(Flags::INVALID);
            saturated
        },
        Class::Finite { sig, exp } => {
            let (magnitude, inexact) = to_integer(x.sign, sig, exp, round);
            if magnitude > 0xFFFF_FFFF {
                env.raise(Flags::INVALID);
                return saturated;
            }
            let n: i64 = if x.sign {
                -(magnitude as i64)
            } else {
                magnitude as i64
            };
            if n < low || n > high {
                env.raise(Flags::INVALID);
                return saturated;
            }
            if inexact {
                env.raise(Flags::INEXACT);
            }
            n
        },
    }
}

/// The encoding of an integer.
pub open spec fn integral(fmt: Format, value: int, env: Env) -> (u64, Env) {
    if value == 0 {
        (fmt.signed(false, 0), env)
    } else if value > 0 {
        rounded(fmt, false, Exact::dyadic(value, 0), env)
    } else {
        rounded(fmt, true, Exact::dyadic(-value, 0), env)
    }
}

pub(crate) fn from_int(fmt: Format, value: i64, env: &mut Env) -> (r: u64)
    requires
        -0x8000_0000 <= value <= 0xFFFF_FFFF,
    ensures
        (r, *final(env)) == integral(fmt, value as int, *old(env)),
        fmt.holds(r),
{
    if value == 0 {
        fmt.zero(false)
    } else if value > 0 {
        round_exact(fmt, false, value as u128, 0, env)
    } else {
        round_exact(fmt, true, (-value) as u128, 0, env)
    }
}

/// An encoding of one format in another. A NaN keeps the high bits of its
/// payload, quietened.
pub open spec fn converted(from: Format, to: Format, a: u64, env: Env) -> (u64, Env) {
    let (x, env1) = unpacked(from, a, env);
    match x.class {
        Class::Nan { signaling } => {
            let noted = if signaling {
                env1.raised(Flags::INVALID)
            } else {
                env1
            };
            if env.default_nan {
                (to.default_nan(), noted)
            } else {
                let payload = a as int % from.hidden() as int;
                let frac = (payload * to.hidden() / from.hidden() as int) as u64;
                (to.signed(x.sign, to.infinite() + (frac | to.quiet_bit())), noted)
            }
        },
        Class::Zero => (to.signed(x.sign, 0), env1),
        Class::Infinity => (to.signed(x.sign, to.infinite() as int), env1),
        Class::Finite { sig, exp } => rounded(
            to,
            x.sign,
            Exact::dyadic(sig as int, exp as int),
            env1,
        ),
    }
}

pub(crate) fn convert(from: Format, to: Format, a: u64, env: &mut Env) -> (r: u64)
    requires
        from.holds(a),
        from != to,
    ensures
        (r, *final(env)) == converted(from, to, a, *old(env)),
        to.holds(r),
{
    let x: Unpacked = unpack(from, a, env);
    match x.class {
        Class::Nan { signaling } => {
            if signaling {
                env.raise(Flags::INVALID);
            }
            if env.default_nan {
                return to.nan();
            }
            // Keep the payload's high bits, as the hardware does.
            let payload: u64 = a % from.unit();
            let frac: u64 = match to {
                Format::Double => payload * 0x2000_0000,
                Format::Single => payload / 0x2000_0000,
            };
            let quiet: u64 = to.unit() / 2;
            let unit: u64 = to.unit();
            proof {
                let p = payload as int;
                if to == Format::Double {
                    assert(p * 0x10_0000_0000_0000 / 0x80_0000 == p * 0x2000_0000);
                } else {
                    assert(p * 0x80_0000 / 0x10_0000_0000_0000 == p / 0x2000_0000);
                }
                assert((frac | quiet) < 0x80_0000 || frac >= 0x80_0000 || quiet >= 0x80_0000)
                    by (bit_vector);
                assert((frac | quiet) < 0x10_0000_0000_0000 || frac >= 0x10_0000_0000_0000 || quiet
                    >= 0x10_0000_0000_0000) by (bit_vector);
            }
            let infinite: u64 = to.infinity(false);
            to.with_sign(x.sign, infinite + (frac | quiet))
        },
        Class::Zero => to.zero(x.sign),
        Class::Infinity => to.infinity(x.sign),
        Class::Finite { sig, exp } => round_exact(to, x.sign, sig as u128, exp, env),
    }
}

/// Positive numbers rank as they compare: the encodings of finite numbers are
/// in the order of their values.
pub proof fn law_rank_is_numeric(fmt: Format, a: u64, b: u64, env: Env)
    requires
        a < fmt.infinite(),
        b < fmt.infinite(),
        unpacked(fmt, a, env).0.class is Finite,
        unpacked(fmt, b, env).0.class is Finite,
    ensures
        ({
            let x = unpacked(fmt, a, env).0;
            let y = unpacked(fmt, b, env).0;
            let d = diff(
                x.class->sig as int,
                x.class->exp as int,
                y.class->sig as int,
                y.class->exp as int,
            );
            &&& rank(fmt, x) < rank(fmt, y) <==> d < 0
            &&& rank(fmt, x) == rank(fmt, y) <==> d == 0
        }),
{
    lemma_positive(fmt, a, env);
    lemma_positive(fmt, b, env);
    if a < b {
        lemma_rank_grows(fmt, a, b, env);
    } else if b < a {
        lemma_rank_grows(fmt, b, a, env);
    } else {
        let x = unpacked(fmt, a, env).0;
        assert(diff(x.class->sig as int, x.class->exp as int, x.class->sig as int, x.class->exp as int)
            == 0);
    }
}

proof fn lemma_positive(fmt: Format, a: u64, env: Env)
    requires
        a < fmt.infinite(),
        unpacked(fmt, a, env).0.class is Finite,
    ensures
        rank(fmt, unpacked(fmt, a, env).0) == a,
{
}

/// A higher encoding stands for a greater number.
proof fn lemma_rank_grows(fmt: Format, a: u64, b: u64, env: Env)
    requires
        a < b,
        b < fmt.infinite(),
        unpacked(fmt, a, env).0.class is Finite,
        unpacked(fmt, b, env).0.class is Finite,
    ensures
        ({
            let x = unpacked(fmt, a, env).0.class;
            let y = unpacked(fmt, b, env).0.class;
            &&& diff(x->sig as int, x->exp as int, y->sig as int, y->exp as int) < 0
            &&& diff(y->sig as int, y->exp as int, x->sig as int, x->exp as int) > 0
        }),
{
    let x = unpacked(fmt, a, env).0.class;
    let y = unpacked(fmt, b, env).0.class;
    let h = fmt.hidden() as int;
    let (e1, e2) = (x->exp as int, y->exp as int);
    let (s1, s2) = (x->sig as int, y->sig as int);
    lemma2_to64();
    assert(a as int / h <= b as int / h);
    if e1 == e2 {
        assert(s1 < s2);
        assert(pow2((e1 - e1) as nat) == 1);
    } else {
        assert(e1 < e2);
        let d = (e2 - e1) as nat;
        lemma_pow2_unfold(d);
        lemma_pow2_pos((d - 1) as nat);
        let p = pow2(d) as int;
        assert(p >= 2);
        assert(s2 >= h && s1 < 2 * h);
        assert(s2 * p > s1) by (nonlinear_arith)
            requires
                s2 >= h,
                s1 < 2 * h,
                p >= 2,
                h > 0,
        ;
        assert(pow2((e1 - e1) as nat) == 1);
        assert(s1 * pow2((e1 - e1) as nat) == s1);
    }
}

} // verus!
