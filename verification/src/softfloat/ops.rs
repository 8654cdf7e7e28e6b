//! The operations on encodings: each unpacks its operands, settles the special
//! cases, and rounds the exact result.

use crate::softfloat::exact::Exact;
use crate::softfloat::ieee::{
    bit_width, power, round_pack, rounded, shift_right_sticky, unpack, unpacked, Class,
    Env, Flags, Format, Round, Unpacked,
};
use vstd::arithmetic::power2::{
    lemma2_to64, lemma2_to64_rest, lemma_pow2_adds, lemma_pow2_pos, pow2,
};
use vstd::prelude::*;

verus! {

/// The NaN result of an operation with at least one NaN operand: the first
/// signaling operand, else the first quiet one, quietened; or the default
/// NaN when that mode is on.
pub open spec fn propagated(fmt: Format, a: Unpacked, b: Unpacked, env: Env) -> (u64, Env) {
    let noted = if a.signaling() || b.signaling() {
        env.raised(Flags::INVALID)
    } else {
        env
    };
    let chosen = if a.signaling() {
        a
    } else if b.signaling() {
        b
    } else if a.nan() {
        a
    } else {
        b
    };
    if env.default_nan {
        (fmt.default_nan(), noted)
    } else {
        (chosen.bits | fmt.quiet_bit(), noted)
    }
}

pub(crate) fn is_nan(u: &Unpacked) -> (r: bool)
    ensures
        r == u.nan(),
{
    match u.class {
        Class::Nan { .. } => true,
        _ => false,
    }
}

pub(crate) fn is_signaling(u: &Unpacked) -> (r: bool)
    ensures
        r == u.signaling(),
{
    match u.class {
        Class::Nan { signaling } => signaling,
        _ => false,
    }
}

fn propagate_nan(fmt: Format, a: &Unpacked, b: &Unpacked, env: &mut Env) -> (r: u64)
    requires
        a.wf(fmt),
        b.wf(fmt),
    ensures
        (r, *final(env)) == propagated(fmt, *a, *b, *old(env)),
        fmt.holds(r),
{
    let first = is_signaling(a);
    let second = is_signaling(b);
    if first || second {
        env.raise(Flags::INVALID);
    }
    if env.default_nan {
        return fmt.nan();
    }
    let bits: u64 = if first {
        a.bits
    } else if second {
        b.bits
    } else if is_nan(a) {
        a.bits
    } else {
        b.bits
    };
    let quiet: u64 = fmt.unit() / 2;
    proof {
        assert((bits | quiet) < 0x1_0000_0000 || bits >= 0x1_0000_0000 || quiet >= 0x1_0000_0000)
            by (bit_vector);
    }
    bits | quiet
}

/// The result of an invalid operation.
pub open spec fn invalid_result(fmt: Format, env: Env) -> (u64, Env) {
    (fmt.default_nan(), env.raised(Flags::INVALID))
}

fn invalid(fmt: Format, env: &mut Env) -> (r: u64)
    ensures
        (r, *final(env)) == invalid_result(fmt, *old(env)),
        fmt.holds(r),
{
    env.raise(Flags::INVALID);
    fmt.nan()
}

/// A product of a power of two is an exact count of smaller units.
pub(crate) proof fn lemma_dyadic_fine(num: int, m: int, x: int, t: int)
    requires
        num > 0,
        x <= m,
        t == num * pow2((m - x) as nat),
    ensures
        Exact::dyadic(num, m).wf(),
        Exact::dyadic(num, m).floor_at(t, x),
        Exact::dyadic(num, m).against(t, x) == 0,
        t > 0,
{
    let v = Exact::dyadic(num, m);
    lemma2_to64();
    let p = pow2((m - x) as nat) as int;
    lemma_pow2_pos((m - x) as nat);
    assert(t > 0) by (nonlinear_arith)
        requires
            t == num * p,
            num > 0,
            p > 0,
    ;
    if x < m {
        assert(pow2((x - x) as nat) == 1);
    }
    assert(v.against(t, x) == num * p - (1 * t) * 1);
    assert(v.against(t + 1, x) == num * p - (1 * (t + 1)) * 1);
}

/// A number is the quotient in larger units, with a remainder below one.
proof fn lemma_dyadic_coarse(num: int, m: int, x: int, t: int, r: int)
    requires
        num > 0,
        m < x,
        t >= 0,
        num == t * pow2((x - m) as nat) + r,
        0 <= r < pow2((x - m) as nat),
    ensures
        Exact::dyadic(num, m).wf(),
        Exact::dyadic(num, m).floor_at(t, x),
        Exact::dyadic(num, m).against(t, x) == 0 <==> r == 0,
{
    let v = Exact::dyadic(num, m);
    lemma2_to64();
    let p = pow2((x - m) as nat) as int;
    assert(v.against(t, x) == num * 1 - (1 * t) * p);
    assert(v.against(t + 1, x) == num * 1 - (1 * (t + 1)) * p);
    assert((t + 1) * p == t * p + p) by (nonlinear_arith);
}

/// `x` with a sign.
pub open spec fn with_sign(sign: bool, x: int) -> int {
    if sign {
        -x
    } else {
        x
    }
}

/// The exact sum of two finite numbers, in units of the power of two with the
/// smaller of their exponents.
pub open spec fn exact_sum(sa: bool, a: u64, ea: int, sb: bool, b: u64, eb: int) -> int {
    let m = if ea < eb {
        ea
    } else {
        eb
    };
    with_sign(sa, a * pow2((ea - m) as nat)) + with_sign(sb, b * pow2((eb - m) as nat))
}

/// The rounded sum of two finite numbers. `zero_sign` is the sign of an exact
/// zero.
pub open spec fn finite_sum(
    fmt: Format,
    sa: bool,
    a: u64,
    ea: int,
    sb: bool,
    b: u64,
    eb: int,
    zero_sign: bool,
    env: Env,
) -> (u64, Env) {
    let m = if ea < eb {
        ea
    } else {
        eb
    };
    let s = exact_sum(sa, a, ea, sb, b, eb);
    if s == 0 {
        (fmt.signed(zero_sign, 0), env)
    } else if s > 0 {
        rounded(fmt, false, Exact::dyadic(s, m), env)
    } else {
        rounded(fmt, true, Exact::dyadic(-s, m), env)
    }
}

/// The sum, or the difference, of two encodings.
pub open spec fn sum(fmt: Format, a: u64, b: u64, subtract: bool, env: Env) -> (u64, Env) {
    let (x, env1) = unpacked(fmt, a, env);
    let (y, env2) = unpacked(fmt, b, env1);
    if x.nan() || y.nan() {
        propagated(fmt, x, y, env2)
    } else {
        let sb = y.sign != subtract;
        // The sign of an exact zero sum: minus only when rounding down, unless
        // both operands agree.
        let zero_sign = if x.sign == sb {
            x.sign
        } else {
            env.round == Round::Down
        };
        match (x.class, y.class) {
            (Class::Infinity, Class::Infinity) => if x.sign == sb {
                (fmt.signed(x.sign, fmt.infinite() as int), env2)
            } else {
                invalid_result(fmt, env2)
            },
            (Class::Infinity, _) => (fmt.signed(x.sign, fmt.infinite() as int), env2),
            (_, Class::Infinity) => (fmt.signed(sb, fmt.infinite() as int), env2),
            (Class::Zero, Class::Finite { sig, exp }) => rounded(
                fmt,
                sb,
                Exact::dyadic(sig as int, exp as int),
                env2,
            ),
            (Class::Finite { sig, exp }, Class::Zero) => rounded(
                fmt,
                x.sign,
                Exact::dyadic(sig as int, exp as int),
                env2,
            ),
            (Class::Finite { sig: s1, exp: e1 }, Class::Finite { sig: s2, exp: e2 }) => finite_sum(
                fmt,
                x.sign,
                s1,
                e1 as int,
                sb,
                s2,
                e2 as int,
                zero_sign,
                env2,
            ),
            _ => (fmt.signed(zero_sign, 0), env2),
        }
    }
}

/// The distance of two operands, and the smaller one brought to the scale of
/// the larger one, 64 bits up.
proof fn lemma_aligned(h: int, l: int, d: int, big: int, small: int, rest: int, minus: bool)
    requires
        0 < h < 0x20_0000_0000_0000,
        0 < l < 0x20_0000_0000_0000,
        d >= 0,
        big == h * 0x1_0000_0000_0000_0000,
        d <= 64 ==> small == l * pow2((64 - d) as nat) && rest == 0,
        d > 64 ==> small == l / pow2((d - 64) as nat) as int && rest == l % pow2(
            (d - 64) as nat,
        ) as int,
    ensures
        ({
            let s = if minus {
                h * pow2(d as nat) - l
            } else {
                h * pow2(d as nat) + l
            };
            &&& d <= 64 ==> s * pow2((64 - d) as nat) == (if minus {
                big - small
            } else {
                big + small
            })
            &&& d > 64 ==> {
                let p = pow2((d - 64) as nat) as int;
                &&& h * pow2(d as nat) == big * p
                &&& l == small * p + rest
                &&& 0 <= rest < p
                &&& 0 <= small <= l
            }
        }),
{
    lemma2_to64();
    if d <= 64 {
        let p = pow2((64 - d) as nat) as int;
        let t = pow2(d as nat) as int;
        lemma_pow2_adds(d as nat, (64 - d) as nat);
        assert(t * p == 0x1_0000_0000_0000_0000);
        assert((h * t - l) * p == h * (t * p) - l * p) by (nonlinear_arith);
        assert((h * t + l) * p == h * (t * p) + l * p) by (nonlinear_arith);
    } else {
        let p = pow2((d - 64) as nat) as int;
        lemma_pow2_pos((d - 64) as nat);
        lemma_pow2_adds(64, (d - 64) as nat);
        assert(h * (0x1_0000_0000_0000_0000 * p) == (h * 0x1_0000_0000_0000_0000) * p)
            by (nonlinear_arith);
        vstd::arithmetic::div_mod::lemma_fundamental_div_mod(l, p);
        vstd::arithmetic::div_mod::lemma_mod_bound(l, p);
        assert(p * small == small * p) by (nonlinear_arith);
        assert(0 <= small <= l) by (nonlinear_arith)
            requires
                small == l / p,
                l > 0,
                p > 0,
        ;
    }
}

/// Add two operands of which the first has the larger exponent.
fn add_aligned(
    fmt: Format,
    hs: bool,
    h: u64,
    he: i32,
    ls: bool,
    l: u64,
    le: i32,
    zero_sign: bool,
    env: &mut Env,
) -> (r: u64)
    requires
        0 < h < 0x20_0000_0000_0000,
        0 < l < 0x20_0000_0000_0000,
        -1074 <= le <= he <= 971,
    ensures
        (r, *final(env)) == finite_sum(
            fmt,
            hs,
            h,
            he as int,
            ls,
            l,
            le as int,
            zero_sign,
            *old(env),
        ),
        fmt.holds(r),
{
    let d: u32 = (he - le) as u32;
    let exp: i32 = he - 64;
    let big: u128 = h as u128 * 0x1_0000_0000_0000_0000;
    let ghost s = if hs == ls {
        h * pow2(d as nat) + l
    } else {
        h * pow2(d as nat) - l
    };
    proof {
        lemma2_to64();
        let m = le as int;
        assert(pow2((le - m) as nat) == 1);
        assert(l * pow2((le - m) as nat) == l);
        assert(exact_sum(hs, h, he as int, ls, l, le as int) == with_sign(hs, s));
    }
    if d <= 64 {
        let n: u32 = 64 - d;
        proof {
            lemma_pow2_pos(n as nat);
            if n < 64 {
                vstd::arithmetic::power2::lemma_pow2_strictly_increases(n as nat, 64);
            }
            let p = pow2(n as nat) as int;
            assert(l * p <= 0x20_0000_0000_0000 * 0x1_0000_0000_0000_0000) by (nonlinear_arith)
                requires
                    0 < l < 0x20_0000_0000_0000,
                    0 < p <= 0x1_0000_0000_0000_0000,
            ;
        }
        let small: u128 = l as u128 * power(n);
        proof {
            lemma_aligned(h as int, l as int, d as int, big as int, small as int, 0, hs != ls);
        }
        if hs == ls {
            proof {
                lemma_dyadic_fine(s, le as int, exp as int, big + small);
            }
            round_pack(fmt, hs, big + small, exp, false, env, Ghost(Exact::dyadic(s, le as int)))
        } else if big == small {
            assert(s == 0) by {
                let p = pow2(n as nat) as int;
                assert(s == 0) by (nonlinear_arith)
                    requires
                        s * p == 0,
                        p > 0,
                ;
            }
            fmt.zero(zero_sign)
        } else if big > small {
            proof {
                let p = pow2(n as nat) as int;
                assert(s > 0) by (nonlinear_arith)
                    requires
                        s * p > 0,
                        p > 0,
                ;
                lemma_dyadic_fine(s, le as int, exp as int, big - small);
            }
            round_pack(fmt, hs, big - small, exp, false, env, Ghost(Exact::dyadic(s, le as int)))
        } else {
            proof {
                let p = pow2(n as nat) as int;
                assert(s < 0) by (nonlinear_arith)
                    requires
                        s * p < 0,
                        p > 0,
                ;
                assert((-s) * p == small - big) by (nonlinear_arith)
                    requires
                        s * p == big - small,
                ;
                lemma_dyadic_fine(-s, le as int, exp as int, small - big);
            }
            round_pack(fmt, ls, small - big, exp, false, env, Ghost(Exact::dyadic(-s, le as int)))
        }
    } else {
        let (small, sticky) = shift_right_sticky(l as u128, d - 64, false);
        proof {
            let p = pow2((d - 64) as nat) as int;
            lemma_aligned(
                h as int,
                l as int,
                d as int,
                big as int,
                small as int,
                l as int % p,
                hs != ls,
            );
            let rest = l as int % p;
            if hs == ls {
                assert((big + small) * p + rest == big * p + (small * p + rest))
                    by (nonlinear_arith);
                assert(s > 0) by (nonlinear_arith)
                    requires
                        s == big * p + l,
                        big > 0,
                        p > 0,
                        l > 0,
                ;
                lemma_dyadic_coarse(s, le as int, exp as int, big + small, rest);
            } else {
                let t = big - small - (if sticky {
                    1int
                } else {
                    0
                });
                let r = if sticky {
                    p - rest
                } else {
                    0
                };
                assert(t * p + r == big * p - (small * p + rest)) by {
                    if sticky {
                        assert((big - small - 1) * p + (p - rest) == big * p - (small * p + rest))
                            by (nonlinear_arith);
                    } else {
                        assert((big - small) * p == big * p - small * p) by (nonlinear_arith);
                    }
                }
                assert(s > 0) by (nonlinear_arith)
                    requires
                        s == t * p + r,
                        t > 0,
                        p > 0,
                        r >= 0,
                ;
                lemma_dyadic_coarse(s, le as int, exp as int, t, r);
            }
        }
        if hs == ls {
            round_pack(fmt, hs, big + small, exp, sticky, env, Ghost(Exact::dyadic(s, le as int)))
        } else {
            // The true small operand exceeds its truncation when sticky,
            // so borrow one and keep the sticky bit.
            let borrowed: u128 = if sticky {
                small + 1
            } else {
                small
            };
            round_pack(
                fmt,
                hs,
                big - borrowed,
                exp,
                sticky,
                env,
                Ghost(Exact::dyadic(s, le as int)),
            )
        }
    }
}

fn add_finite(
    fmt: Format,
    sa: bool,
    a: u64,
    ea: i32,
    sb: bool,
    b: u64,
    eb: i32,
    zero_sign: bool,
    env: &mut Env,
) -> (r: u64)
    requires
        0 < a < 0x20_0000_0000_0000,
        0 < b < 0x20_0000_0000_0000,
        -1074 <= ea <= 971,
        -1074 <= eb <= 971,
    ensures
        (r, *final(env)) == finite_sum(
            fmt,
            sa,
            a,
            ea as int,
            sb,
            b,
            eb as int,
            zero_sign,
            *old(env),
        ),
        fmt.holds(r),
{
    if ea >= eb {
        add_aligned(fmt, sa, a, ea, sb, b, eb, zero_sign, env)
    } else {
        add_aligned(fmt, sb, b, eb, sa, a, ea, zero_sign, env)
    }
}

/// Round a number that is exact already.
pub(crate) fn round_exact(fmt: Format, sign: bool, sig: u128, exp: i32, env: &mut Env) -> (r: u64)
    requires
        sig > 0,
        -6000 <= exp <= 6000,
    ensures
        (r, *final(env)) == rounded(fmt, sign, Exact::dyadic(sig as int, exp as int), *old(env)),
        fmt.holds(r),
{
    proof {
        lemma2_to64();
        let m = exp as int;
        assert(pow2((m - m) as nat) == 1);
        assert(sig as int * pow2((m - m) as nat) == sig);
        lemma_dyadic_fine(sig as int, m, m, sig as int);
    }
    round_pack(fmt, sign, sig, exp, false, env, Ghost(Exact::dyadic(sig as int, exp as int)))
}

/// Add or subtract.
pub(crate) fn add_bits(fmt: Format, a: u64, b: u64, subtract: bool, env: &mut Env) -> (r: u64)
    requires
        fmt.holds(a),
        fmt.holds(b),
    ensures
        (r, *final(env)) == sum(fmt, a, b, subtract, *old(env)),
        fmt.holds(r),
{
    let x: Unpacked = unpack(fmt, a, env);
    let y: Unpacked = unpack(fmt, b, env);
    if is_nan(&x) || is_nan(&y) {
        return propagate_nan(fmt, &x, &y, env);
    }
    let sb = y.sign != subtract;
    let zero_sign = if x.sign == sb {
        x.sign
    } else {
        env.round == Round::Down
    };
    match (x.class, y.class) {
        (Class::Infinity, Class::Infinity) => {
            if x.sign == sb {
                fmt.infinity(x.sign)
            } else {
                invalid(fmt, env)
            }
        },
        (Class::Infinity, _) => fmt.infinity(x.sign),
        (_, Class::Infinity) => fmt.infinity(sb),
        (Class::Zero, Class::Finite { sig, exp }) => round_exact(fmt, sb, sig as u128, exp, env),
        (Class::Finite { sig, exp }, Class::Zero) => round_exact(
            fmt,
            x.sign,
            sig as u128,
            exp,
            env,
        ),
        (Class::Finite { sig: s1, exp: e1 }, Class::Finite { sig: s2, exp: e2 }) => add_finite(
            fmt,
            x.sign,
            s1,
            e1,
            sb,
            s2,
            e2,
            zero_sign,
            env,
        ),
        _ => fmt.zero(zero_sign),
    }
}

/// The product of two unpacked numbers.
pub open spec fn unpacked_product(fmt: Format, x: Unpacked, y: Unpacked, env: Env) -> (u64, Env) {
    let sign = x.sign != y.sign;
    if x.nan() || y.nan() {
        propagated(fmt, x, y, env)
    } else {
        match (x.class, y.class) {
            (Class::Infinity, Class::Zero) => invalid_result(fmt, env),
            (Class::Zero, Class::Infinity) => invalid_result(fmt, env),
            (Class::Infinity, _) => (fmt.signed(sign, fmt.infinite() as int), env),
            (_, Class::Infinity) => (fmt.signed(sign, fmt.infinite() as int), env),
            (Class::Finite { sig: s1, exp: e1 }, Class::Finite { sig: s2, exp: e2 }) => rounded(
                fmt,
                sign,
                Exact::dyadic(s1 * s2, e1 + e2),
                env,
            ),
            _ => (fmt.signed(sign, 0), env),
        }
    }
}

/// The product of two encodings.
pub open spec fn product(fmt: Format, a: u64, b: u64, env: Env) -> (u64, Env) {
    let (x, env1) = unpacked(fmt, a, env);
    let (y, env2) = unpacked(fmt, b, env1);
    unpacked_product(fmt, x, y, env2)
}

/// Multiply.
pub(crate) fn mul_bits(fmt: Format, a: u64, b: u64, env: &mut Env) -> (r: u64)
    requires
        fmt.holds(a),
        fmt.holds(b),
    ensures
        (r, *final(env)) == product(fmt, a, b, *old(env)),
        fmt.holds(r),
{
    let x: Unpacked = unpack(fmt, a, env);
    let y: Unpacked = unpack(fmt, b, env);
    if is_nan(&x) || is_nan(&y) {
        return propagate_nan(fmt, &x, &y, env);
    }
    let sign = x.sign != y.sign;
    match (x.class, y.class) {
        (Class::Infinity, Class::Zero) => invalid(fmt, env),
        (Class::Zero, Class::Infinity) => invalid(fmt, env),
        (Class::Infinity, _) => fmt.infinity(sign),
        (_, Class::Infinity) => fmt.infinity(sign),
        (Class::Finite { sig: s1, exp: e1 }, Class::Finite { sig: s2, exp: e2 }) => {
            assert(0 < s1 * s2 < 0x20_0000_0000_0000 * 0x20_0000_0000_0000) by (nonlinear_arith)
                requires
                    0 < s1 < 0x20_0000_0000_0000,
                    0 < s2 < 0x20_0000_0000_0000,
            ;
            round_exact(fmt, sign, s1 as u128 * s2 as u128, e1 + e2, env)
        },
        _ => fmt.zero(sign),
    }
}

/// The quotient of two encodings.
pub open spec fn quotient(fmt: Format, a: u64, b: u64, env: Env) -> (u64, Env) {
    let (x, env1) = unpacked(fmt, a, env);
    let (y, env2) = unpacked(fmt, b, env1);
    if x.nan() || y.nan() {
        propagated(fmt, x, y, env2)
    } else {
        let sign = x.sign != y.sign;
        match (x.class, y.class) {
            (Class::Infinity, Class::Infinity) => invalid_result(fmt, env2),
            (Class::Zero, Class::Zero) => invalid_result(fmt, env2),
            (Class::Infinity, _) => (fmt.signed(sign, fmt.infinite() as int), env2),
            (_, Class::Infinity) => (fmt.signed(sign, 0), env2),
            (Class::Zero, _) => (fmt.signed(sign, 0), env2),
            (Class::Finite { sig: s1, exp: e1 }, Class::Finite { sig: s2, exp: e2 }) => rounded(
                fmt,
                sign,
                Exact { num: s1 as int, den: s2 as int, exp: e1 - e2, root: false },
                env2,
            ),
            _ => (
                fmt.signed(sign, fmt.infinite() as int),
                env2.raised(Flags::DIV_BY_ZERO),
            ),
        }
    }
}

/// The significand moved up to 127 bits, and by how much.
fn normalise(sig: u64) -> (r: (u128, u32))
    requires
        0 < sig < 0x20_0000_0000_0000,
    ensures
        r.0 as int == sig * pow2(r.1 as nat),
        0x4000_0000_0000_0000_0000_0000_0000_0000 <= r.0 < 0x8000_0000_0000_0000_0000_0000_0000_0000,
        70 <= r.1 <= 126,
{
    let w: u32 = bit_width(sig as u128);
    proof {
        lemma2_to64();
        lemma2_to64_rest();
        assert(w <= 53) by {
            if w > 53 {
                if w > 54 {
                    vstd::arithmetic::power2::lemma_pow2_strictly_increases(53, (w - 1) as nat);
                }
            }
        }
        let shift = (127 - w) as nat;
        lemma_pow2_adds((w - 1) as nat, shift);
        lemma_pow2_adds(w as nat, shift);
        lemma_pow2_adds(62, 64);
        lemma_pow2_adds(63, 64);
        assert(pow2(126) == 0x4000_0000_0000_0000_0000_0000_0000_0000);
        assert(pow2(127) == 0x8000_0000_0000_0000_0000_0000_0000_0000);
        lemma_pow2_pos(shift);
        let p = pow2(shift) as int;
        let low = pow2((w - 1) as nat) as int;
        let high = pow2(w as nat) as int;
        assert(low * p <= sig * p < high * p) by (nonlinear_arith)
            requires
                low <= sig < high,
                p > 0,
        ;
    }
    let shift: u32 = 127 - w;
    (sig as u128 * power(shift), shift)
}

fn div_finite(fmt: Format, sign: bool, s1: u64, e1: i32, s2: u64, e2: i32, env: &mut Env) -> (r:
    u64)
    requires
        0 < s1 < 0x20_0000_0000_0000,
        0 < s2 < 0x20_0000_0000_0000,
        -1074 <= e1 <= 971,
        -1074 <= e2 <= 971,
    ensures
        (r, *final(env)) == rounded(
            fmt,
            sign,
            Exact { num: s1 as int, den: s2 as int, exp: e1 - e2, root: false },
            *old(env),
        ),
        fmt.holds(r),
{
    // Normalise the dividend to 127 bits so the quotient keeps at least 74
    // bits whatever the operands.
    let (dividend, shift) = normalise(s1);
    let divisor: u128 = s2 as u128;
    let q: u128 = dividend / divisor;
    let sticky = dividend % divisor != 0;
    let exp: i32 = e1 - shift as i32 - e2;
    let ghost v = Exact { num: s1 as int, den: s2 as int, exp: e1 - e2, root: false };
    proof {
        lemma2_to64();
        let n = dividend as int;
        let d = s2 as int;
        let k = q as int;
        vstd::arithmetic::div_mod::lemma_fundamental_div_mod(n, d);
        vstd::arithmetic::div_mod::lemma_mod_bound(n, d);
        assert(pow2(0) == 1);
        assert(v.against(k, exp as int) == s1 * pow2(shift as nat) - (d * k) * 1);
        assert(v.against(k + 1, exp as int) == s1 * pow2(shift as nat) - (d * (k + 1)) * 1);
        assert(d * (k + 1) == d * k + d) by (nonlinear_arith);
        assert(k >= 0x1000_0000_0000_0000) by (nonlinear_arith)
            requires
                d * k + d > n,
                n >= 0x4000_0000_0000_0000_0000_0000_0000_0000,
                0 < d < 0x20_0000_0000_0000,
        ;
    }
    round_pack(fmt, sign, q, exp, sticky, env, Ghost(v))
}

/// Divide.
pub(crate) fn div_bits(fmt: Format, a: u64, b: u64, env: &mut Env) -> (r: u64)
    requires
        fmt.holds(a),
        fmt.holds(b),
    ensures
        (r, *final(env)) == quotient(fmt, a, b, *old(env)),
        fmt.holds(r),
{
    let x: Unpacked = unpack(fmt, a, env);
    let y: Unpacked = unpack(fmt, b, env);
    if is_nan(&x) || is_nan(&y) {
        return propagate_nan(fmt, &x, &y, env);
    }
    let sign = x.sign != y.sign;
    match (x.class, y.class) {
        (Class::Infinity, Class::Infinity) => invalid(fmt, env),
        (Class::Zero, Class::Zero) => invalid(fmt, env),
        (Class::Infinity, _) => fmt.infinity(sign),
        (_, Class::Infinity) => fmt.zero(sign),
        (Class::Zero, _) => fmt.zero(sign),
        (Class::Finite { sig: s1, exp: e1 }, Class::Finite { sig: s2, exp: e2 }) => div_finite(
            fmt,
            sign,
            s1,
            e1,
            s2,
            e2,
            env,
        ),
        _ => {
            env.raise(Flags::DIV_BY_ZERO);
            fmt.infinity(sign)
        },
    }
}

/// The square root of an encoding.
pub open spec fn square_root(fmt: Format, a: u64, env: Env) -> (u64, Env) {
    let (x, env1) = unpacked(fmt, a, env);
    match x.class {
        Class::Nan { .. } => propagated(fmt, x, x, env1),
        Class::Zero => (fmt.signed(x.sign, 0), env1),
        Class::Infinity => if x.sign {
            invalid_result(fmt, env1)
        } else {
            (fmt.signed(false, fmt.infinite() as int), env1)
        },
        Class::Finite { sig, exp } => if x.sign {
            invalid_result(fmt, env1)
        } else {
            rounded(
                fmt,
                false,
                Exact { num: sig as int, den: 1, exp: exp as int, root: true },
                env1,
            )
        },
    }
}

/// The square root of `value`, rounded down.
fn isqrt(value: u128) -> (r: u128)
    ensures
        r * r <= value,
        value < (r + 1) * (r + 1),
        r < 0x1_0000_0000_0000_0000,
{
    let mut low: u128 = 0;
    let mut high: u128 = 0x1_0000_0000_0000_0000;
    assert(value < 0x1_0000_0000_0000_0000 * 0x1_0000_0000_0000_0000);
    while high - low > 1
        invariant
            low < high <= 0x1_0000_0000_0000_0000,
            low * low <= value,
            value < high * high,
        decreases high - low,
    {
        let mid: u128 = (low + high) / 2;
        assert(mid * mid <= u128::MAX) by (nonlinear_arith)
            requires
                0 <= mid <= 0xFFFF_FFFF_FFFF_FFFF,
        ;
        if mid * mid <= value {
            low = mid;
        } else {
            high = mid;
        }
    }
    assert(high == low + 1);
    low
}

fn sqrt_finite(fmt: Format, sig: u64, exp: i32, env: &mut Env) -> (r: u64)
    requires
        0 < sig < 0x20_0000_0000_0000,
        -1074 <= exp <= 971,
    ensures
        (r, *final(env)) == rounded(
            fmt,
            false,
            Exact { num: sig as int, den: 1, exp: exp as int, root: true },
            *old(env),
        ),
        fmt.holds(r),
{
    // Scale to an even exponent with the significand near 2^126, so the root
    // has 63 bits.
    let (full, most) = normalise(sig);
    let even = ((exp - most as i32) + 4096) as u32 % 2 == 0;
    let (scaled, shift) = if even {
        (full, most)
    } else {
        (full / 2, most - 1)
    };
    proof {
        lemma_pow2_adds((most - 1) as nat, 1);
        lemma2_to64();
        if !even {
            let p = pow2((most - 1) as nat) as int;
            assert(sig * (p * 2) == (sig * p) * 2) by (nonlinear_arith);
            assert(full as int == (sig * p) * 2);
        }
        assert(scaled as int == sig * pow2(shift as nat));
    }
    let root: u128 = isqrt(scaled);
    assert(root * root <= 0xFFFF_FFFF_FFFF_FFFF * 0xFFFF_FFFF_FFFF_FFFF) by (nonlinear_arith)
        requires
            0 <= root <= 0xFFFF_FFFF_FFFF_FFFF,
    ;
    let sticky = root * root != scaled;
    let doubled: u32 = ((exp - shift as i32) + 4096) as u32;
    let half: i32 = (doubled / 2) as i32 - 2048;
    let ghost v = Exact { num: sig as int, den: 1, exp: exp as int, root: true };
    proof {
        let k = root as int;
        assert(2 * half == exp - shift);
        assert(pow2(0) == 1);
        assert(v.against(k, half as int) == sig * pow2(shift as nat) - (1 * (k * k)) * 1);
        assert(v.against(k + 1, half as int) == sig * pow2(shift as nat) - (1 * ((k + 1) * (k + 1)))
            * 1);
        assert(k >= 0x1000_0000_0000_0000) by (nonlinear_arith)
            requires
                (k + 1) * (k + 1) > 0x2000_0000_0000_0000_0000_0000_0000_0000 - 1,
                k >= 0,
        ;
    }
    round_pack(fmt, false, root, half, sticky, env, Ghost(v))
}

/// Take the square root.
pub(crate) fn sqrt_bits(fmt: Format, a: u64, env: &mut Env) -> (r: u64)
    requires
        fmt.holds(a),
    ensures
        (r, *final(env)) == square_root(fmt, a, *old(env)),
        fmt.holds(r),
{
    let x: Unpacked = unpack(fmt, a, env);
    match x.class {
        Class::Nan { .. } => propagate_nan(fmt, &x, &x, env),
        Class::Zero => fmt.zero(x.sign),
        Class::Infinity => {
            if x.sign {
                invalid(fmt, env)
            } else {
                fmt.infinity(false)
            }
        },
        Class::Finite { sig, exp } => {
            if x.sign {
                invalid(fmt, env)
            } else {
                sqrt_finite(fmt, sig, exp, env)
            }
        },
    }
}

} // verus!
