//! What holds of rounding and of the operations.

use crate::softfloat::convert::converted;
use crate::softfloat::exact::{
    diff, lemma_coarser, lemma_diff, lemma_exponent, lemma_finer, lemma_more, lemma_shift,
    lemma_units, lemma_width, Exact,
};
use crate::softfloat::ieee::{
    encoded, lemma_hidden, lemma_pow2_le, overflows_to_infinity, quantum, rounded, rounded_units, unpacked, Class, Env,
    Flags, Format, Round, Unpacked,
};
use crate::softfloat::ops::{
    finite_sum, lemma_dyadic_fine, product, quotient, sum, unpacked_product,
};
use vstd::arithmetic::div_mod::{
    lemma_div_pos_is_pos, lemma_fundamental_div_mod, lemma_mod_bound,
};
use vstd::arithmetic::power2::{
    lemma2_to64, lemma2_to64_rest, lemma_pow2_adds, lemma_pow2_pos, lemma_pow2_unfold, pow2,
};
use vstd::prelude::*;

verus! {

/// Directed rounding brackets the exact number: towards zero is the count
/// below it, one of up and down is the same, the other is the same for an
/// exact number and one more otherwise, and to nearest is one of the two.
pub proof fn law_directed_rounding_brackets(v: Exact, q: int, sign: bool)
    requires
        v.wf(),
        v.floor_at(v.units(q), q),
    ensures
        ({
            let zero = rounded_units(v, q, sign, Round::Zero);
            let nearest = rounded_units(v, q, sign, Round::Nearest);
            let towards = rounded_units(
                v,
                q,
                sign,
                if sign {
                    Round::Up
                } else {
                    Round::Down
                },
            );
            let away = rounded_units(
                v,
                q,
                sign,
                if sign {
                    Round::Down
                } else {
                    Round::Up
                },
            );
            let exact = v.against(v.units(q), q) == 0;
            &&& zero == v.units(q)
            &&& towards == zero
            &&& away == if exact {
                zero
            } else {
                zero + 1
            }
            &&& nearest == zero || nearest == away
            &&& exact ==> nearest == zero
        }),
{
    let k = v.units(q);
    if v.against(k, q) == 0 {
        lemma_shift(v, k, q - 1, 1);
        lemma2_to64();
        assert(k * pow2(1) == 2 * k);
        lemma_more(v, 2 * k, 2 * k + 1, q - 1);
    }
}

/// To nearest is no further than half a unit away, and even where the number
/// is in the middle.
pub proof fn law_nearest_is_nearest(v: Exact, q: int, sign: bool)
    requires
        v.wf(),
        v.floor_at(v.units(q), q),
    ensures
        ({
            let n = rounded_units(v, q, sign, Round::Nearest);
            &&& n >= 1 ==> v.against(2 * n - 1, q - 1) >= 0
            &&& v.against(2 * n + 1, q - 1) <= 0
            &&& v.against(2 * n + 1, q - 1) == 0 || (n >= 1 && v.against(2 * n - 1, q - 1) == 0)
                ==> n % 2 == 0
        }),
{
    let k = v.units(q);
    let n = rounded_units(v, q, sign, Round::Nearest);
    lemma2_to64();
    // The number lies from k to k + 1 units, that is from 2 k to 2 k + 2 halves.
    lemma_shift(v, k, q - 1, 1);
    lemma_shift(v, k + 1, q - 1, 1);
    assert(k * pow2(1) == 2 * k && (k + 1) * pow2(1) == 2 * k + 2);
    if n == k {
        if n >= 1 {
            lemma_more(v, 2 * k - 1, 2 * k, q - 1);
        }
    } else {
        lemma_more(v, 2 * k + 2, 2 * k + 3, q - 1);
    }
}

/// An exact result raises no flag but the one of an overflow.
pub proof fn law_exact_results_raise_nothing(fmt: Format, sign: bool, v: Exact, env: Env)
    requires
        !env.flush_to_zero,
        v.against(v.units(quantum(fmt, v.exponent())), quantum(fmt, v.exponent())) == 0,
    ensures
        rounded(fmt, sign, v, env).1 == env || rounded(fmt, sign, v, env).1 == env.raised(0x14),
{
    assert(0x04u8 | 0x10u8 == 0x14u8) by (bit_vector);
}

/// Every positive number has a width in bits.
proof fn lemma_has_width(n: nat) -> (w: nat)
    requires
        n >= 1,
    ensures
        w >= 1,
        pow2((w - 1) as nat) <= n < pow2(w),
    decreases n,
{
    lemma2_to64();
    if n == 1 {
        1
    } else {
        let w = lemma_has_width((n / 2) as nat);
        lemma_pow2_unfold((w + 1) as nat);
        lemma_pow2_unfold(w);
        (w + 1) as nat
    }
}

/// A significand that the format has bits for, with an exponent in the normal
/// range, is rounded to itself.
proof fn lemma_normal_is_exact(fmt: Format, sign: bool, sig: int, exp: int, w: nat, env: Env)
    requires
        w >= 1,
        pow2((w - 1) as nat) <= sig < pow2(w),
        w <= fmt.frac_bits() + 1,
        fmt.emin() <= exp + w - 1 <= fmt.bias(),
    ensures
        ({
            let e = exp + w - 1;
            let k = sig * pow2((fmt.frac_bits() + 1 - w) as nat);
            &&& fmt.hidden() <= k < 2 * fmt.hidden()
            &&& rounded(fmt, sign, Exact::dyadic(sig, exp), env) == encoded(
                fmt,
                sign,
                (e + fmt.bias() - 1) * fmt.hidden() + k,
                env,
            )
        }),
{
    let v = Exact::dyadic(sig, exp);
    lemma2_to64();
    lemma_pow2_pos((w - 1) as nat);
    assert(pow2((exp - exp) as nat) == 1);
    assert(sig * pow2((exp - exp) as nat) == sig);
    lemma_dyadic_fine(sig, exp, exp, sig);
    lemma_width(v, sig, exp, w);
    let e = exp + w - 1;
    let q = quantum(fmt, e);
    let j = (fmt.frac_bits() + 1 - w) as nat;
    assert(q == exp - j);
    lemma_finer(v, sig, exp, j);
    let k = sig * pow2(j);
    lemma_units(v, k, q);
    lemma_hidden(fmt);
    lemma_pow2_adds((w - 1) as nat, j);
    lemma_pow2_adds(w, j);
    lemma_pow2_pos(j);
    let p = pow2(j) as int;
    let low = pow2((w - 1) as nat) as int;
    let high = pow2(w) as int;
    assert(low * p <= sig * p < high * p) by (nonlinear_arith)
        requires
            low <= sig < high,
            p > 0,
    ;
    assert((w - 1) + j == fmt.frac_bits());
    assert(w + j == fmt.frac_bits() + 1);
    // Nothing lies above the count.
    lemma_shift(v, k, q - 1, 1);
    assert(k * pow2(1) == 2 * k);
    lemma_more(v, 2 * k, 2 * k + 1, q - 1);
    assert(rounded_units(v, q, sign, env.round) == k);
}

/// A number of the format is rounded to itself, without a flag.
pub proof fn law_representable_rounds_to_itself(fmt: Format, a: u64, env: Env)
    requires
        fmt.holds(a),
        unpacked(fmt, a, env).0.class is Finite,
    ensures
        ({
            let u = unpacked(fmt, a, env).0;
            rounded(
                fmt,
                u.sign,
                Exact::dyadic(u.class->sig as int, u.class->exp as int),
                env,
            ) == (a, env)
        }),
{
    let u = unpacked(fmt, a, env).0;
    let sig = u.class->sig as int;
    let exp = u.class->exp as int;
    let mag = a as int % fmt.sign_bit() as int;
    let biased = mag / fmt.hidden() as int;
    let frac = mag % fmt.hidden() as int;
    let h = fmt.hidden() as int;
    lemma_hidden(fmt);
    lemma2_to64();
    assert(mag == biased * h + frac) by (nonlinear_arith)
        requires
            biased == mag / h,
            frac == mag % h,
            h > 0,
    ;
    if fmt == Format::Single {
        assert(mag == a as int % 0x8000_0000);
    } else {
        assert(mag == a as int % 0x8000_0000_0000_0000);
    }
    assert(fmt.signed(u.sign, mag) == a);
    if biased == 0 {
        let v = Exact::dyadic(sig, exp);
        assert(sig == frac && mag == sig);
        assert(!env.flush_to_zero);
        assert(pow2((exp - exp) as nat) == 1);
        assert(sig * pow2((exp - exp) as nat) == sig);
        lemma_dyadic_fine(sig, exp, exp, sig);
        let w = lemma_has_width(sig as nat);
        lemma_width(v, sig, exp, w);
        assert(w <= fmt.frac_bits()) by {
            if w > fmt.frac_bits() {
                lemma_pow2_le(fmt.frac_bits() as nat, (w - 1) as nat);
            }
        }
        let q = quantum(fmt, exp + w - 1);
        assert(q == exp);
        lemma_units(v, sig, q);
        lemma_shift(v, sig, q - 1, 1);
        assert(sig * pow2(1) == 2 * sig);
        lemma_more(v, 2 * sig, 2 * sig + 1, q - 1);
        assert(rounded_units(v, q, u.sign, env.round) == sig);
        assert(sig < fmt.infinite());
    } else {
        let w = (fmt.frac_bits() + 1) as nat;
        lemma_normal_is_exact(fmt, u.sign, sig, exp, w, env);
        let e = exp + w - 1;
        assert(pow2((fmt.frac_bits() + 1 - w) as nat) == 1);
        assert(sig * 1 == sig);
        assert((e + fmt.bias() - 1) * h + sig == biased * h + frac) by (nonlinear_arith)
            requires
                e + fmt.bias() == biased,
                sig == frac + h,
        ;
        assert(mag < fmt.infinite()) by (nonlinear_arith)
            requires
                mag == biased * h + frac,
                0 <= frac < h,
                biased + 1 <= fmt.exp_max(),
                fmt.infinite() == fmt.exp_max() * h,
        ;
    }
}

/// Widening a finite number is exact: it raises no flag but that of a flushed
/// operand, and the wide number has the same value.
pub proof fn law_widening_is_exact(a: u64, env: Env)
    requires
        Format::Single.holds(a),
        unpacked(Format::Single, a, env).0.class is Finite,
    ensures
        ({
            let x = unpacked(Format::Single, a, env).0;
            let (bits, after) = converted(Format::Single, Format::Double, a, env);
            let y = unpacked(Format::Double, bits, env).0;
            &&& after == env
            &&& y.class is Finite
            &&& y.sign == x.sign
            &&& diff(
                x.class->sig as int,
                x.class->exp as int,
                y.class->sig as int,
                y.class->exp as int,
            ) == 0
        }),
{
    let x = unpacked(Format::Single, a, env).0;
    let sig = x.class->sig as int;
    let exp = x.class->exp as int;
    let w = lemma_has_width(sig as nat);
    lemma2_to64();
    lemma2_to64_rest();
    assert(w <= 24) by {
        if w > 24 {
            lemma_pow2_le(24, (w - 1) as nat);
        }
    }
    let fmt = Format::Double;
    lemma_normal_is_exact(fmt, x.sign, sig, exp, w, env);
    let e = exp + w - 1;
    let j = (53 - w) as nat;
    let k = sig * pow2(j);
    let h = fmt.hidden() as int;
    let mag = (e + 1022) * h + k;
    assert(mag < fmt.infinite()) by (nonlinear_arith)
        requires
            mag == (e + 1022) * h + k,
            k < 2 * h,
            e <= 127,
            h > 0,
            fmt.infinite() == 2047 * h,
    ;
    assert(mag >= 0) by (nonlinear_arith)
        requires
            mag == (e + 1022) * h + k,
            k >= h,
            e >= -149,
            h > 0,
    ;
    let (bits, after) = converted(Format::Single, Format::Double, a, env);
    assert(bits == fmt.signed(x.sign, mag));
    assert(bits as int % fmt.sign_bit() as int == mag);
    assert(mag / h == e + 1023 && mag % h == k - h) by (nonlinear_arith)
        requires
            mag == (e + 1022) * h + k,
            h <= k < 2 * h,
            h > 0,
    ;
    let y = unpacked(Format::Double, bits, env).0;
    assert(y.class == (Class::Finite { sig: k as u64, exp: (e + 1023 - 1023 - 52) as i32 }));
    assert(e - 52 == exp - j);
    lemma_dyadic_fine(sig, exp, exp - j, k);
    assert(Exact::dyadic(sig, exp).against(k, exp - j) == diff(sig, exp, 1 * k, exp - j));
}

/// The bits of a rounded number do not depend on the flags raised before.
pub proof fn law_flags_do_not_matter(fmt: Format, sign: bool, v: Exact, a: Env, b: Env)
    requires
        a.round == b.round,
        a.flush_to_zero == b.flush_to_zero,
    ensures
        rounded(fmt, sign, v, a).0 == rounded(fmt, sign, v, b).0,
{
}

/// The operands are the same whichever is unpacked first.
proof fn lemma_operands(fmt: Format, a: u64, b: u64, env: Env)
    ensures
        unpacked(fmt, a, unpacked(fmt, b, env).1).0 == unpacked(fmt, a, env).0,
        unpacked(fmt, a, env).1.round == env.round,
        unpacked(fmt, a, env).1.flush_to_zero == env.flush_to_zero,
        unpacked(fmt, a, env).1.default_nan == env.default_nan,
{
}

proof fn lemma_finite_product_commutes(
    fmt: Format,
    sign: bool,
    s1: u64,
    e1: i32,
    s2: u64,
    e2: i32,
    env: Env,
    other: Env,
)
    requires
        env.round == other.round,
        env.flush_to_zero == other.flush_to_zero,
    ensures
        rounded(fmt, sign, Exact::dyadic(s1 * s2, e1 + e2), env).0 == rounded(
            fmt,
            sign,
            Exact::dyadic(s2 * s1, e2 + e1),
            other,
        ).0,
{
    assert(s1 * s2 == s2 * s1) by (nonlinear_arith);
    law_flags_do_not_matter(fmt, sign, Exact::dyadic(s1 * s2, e1 + e2), env, other);
}

/// A product does not depend on the order of its operands, unless both are
/// NaNs.
pub proof fn law_product_commutes(fmt: Format, a: u64, b: u64, env: Env)
    requires
        !unpacked(fmt, a, env).0.nan() || !unpacked(fmt, b, env).0.nan(),
    ensures
        product(fmt, a, b, env).0 == product(fmt, b, a, env).0,
{
    lemma_operands(fmt, a, b, env);
    lemma_operands(fmt, b, a, env);
    let (x, env1) = unpacked(fmt, a, env);
    let (y, other1) = unpacked(fmt, b, env);
    lemma_operands(fmt, b, a, env1);
    lemma_operands(fmt, a, b, other1);
    let env2 = unpacked(fmt, b, env1).1;
    let other2 = unpacked(fmt, a, other1).1;
    lemma_unpacked_product_commutes(fmt, x, y, env2, other2);
}

proof fn lemma_unpacked_product_commutes(
    fmt: Format,
    x: Unpacked,
    y: Unpacked,
    env: Env,
    other: Env,
)
    requires
        !x.nan() || !y.nan(),
        env.round == other.round,
        env.flush_to_zero == other.flush_to_zero,
        env.default_nan == other.default_nan,
    ensures
        unpacked_product(fmt, x, y, env).0 == unpacked_product(fmt, y, x, other).0,
{
    if x.class is Finite && y.class is Finite {
        lemma_finite_product_commutes(
            fmt,
            x.sign != y.sign,
            x.class->sig,
            x.class->exp,
            y.class->sig,
            y.class->exp,
            env,
            other,
        );
    }
}

/// A sum does not depend on the order of its operands, unless both are NaNs.
pub proof fn law_sum_commutes(fmt: Format, a: u64, b: u64, env: Env)
    requires
        !unpacked(fmt, a, env).0.nan() || !unpacked(fmt, b, env).0.nan(),
    ensures
        sum(fmt, a, b, false, env).0 == sum(fmt, b, a, false, env).0,
{
    lemma_operands(fmt, a, b, env);
    lemma_operands(fmt, b, a, env);
    let (x, env1) = unpacked(fmt, a, env);
    let (y, other1) = unpacked(fmt, b, env);
    lemma_operands(fmt, b, a, env1);
    lemma_operands(fmt, a, b, other1);
    let env2 = unpacked(fmt, b, env1).1;
    let other2 = unpacked(fmt, a, other1).1;
    if x.nan() || y.nan() {
    } else if x.class is Finite && y.class is Finite {
        lemma_finite_sum_commutes(
            fmt,
            x.sign,
            x.class->sig,
            x.class->exp as int,
            y.sign,
            y.class->sig,
            y.class->exp as int,
            if x.sign == y.sign {
                x.sign
            } else {
                env.round == Round::Down
            },
            env2,
            other2,
        );
    } else if x.class is Finite && y.class is Zero {
        let v = Exact::dyadic(x.class->sig as int, x.class->exp as int);
        law_flags_do_not_matter(fmt, x.sign, v, env2, other2);
    } else if x.class is Zero && y.class is Finite {
        let v = Exact::dyadic(y.class->sig as int, y.class->exp as int);
        law_flags_do_not_matter(fmt, y.sign, v, env2, other2);
    }
}

proof fn lemma_finite_sum_commutes(
    fmt: Format,
    sa: bool,
    a: u64,
    ea: int,
    sb: bool,
    b: u64,
    eb: int,
    zero_sign: bool,
    env: Env,
    other: Env,
)
    requires
        env.round == other.round,
        env.flush_to_zero == other.flush_to_zero,
    ensures
        finite_sum(fmt, sa, a, ea, sb, b, eb, zero_sign, env).0 == finite_sum(
            fmt,
            sb,
            b,
            eb,
            sa,
            a,
            ea,
            zero_sign,
            other,
        ).0,
{
    let m = if ea < eb {
        ea
    } else {
        eb
    };
    let s = crate::softfloat::ops::exact_sum(sa, a, ea, sb, b, eb);
    assert(s == crate::softfloat::ops::exact_sum(sb, b, eb, sa, a, ea));
    law_flags_do_not_matter(fmt, false, Exact::dyadic(s, m), env, other);
    law_flags_do_not_matter(fmt, true, Exact::dyadic(-s, m), env, other);
}

/// A finite number less itself is zero, negative only when rounding down, and
/// exact.
pub proof fn law_self_difference_is_zero(fmt: Format, a: u64, env: Env)
    requires
        fmt.holds(a),
        unpacked(fmt, a, env).0.class is Finite,
    ensures
        sum(fmt, a, a, true, env) == (fmt.signed(env.round == Round::Down, 0), env),
{
    let (x, env1) = unpacked(fmt, a, env);
    assert(env1 == env);
    let s = crate::softfloat::ops::exact_sum(
        x.sign,
        x.class->sig,
        x.class->exp as int,
        !x.sign,
        x.class->sig,
        x.class->exp as int,
    );
    assert(s == 0);
}

/// The product of a number and zero is zero, and infinity times zero is
/// invalid: the default NaN.
pub proof fn law_times_zero(fmt: Format, a: u64, env: Env)
    requires
        fmt.holds(a),
    ensures
        unpacked(fmt, a, env).0.class is Finite ==> product(fmt, a, 0, env).0 == fmt.signed(
            unpacked(fmt, a, env).0.sign,
            0,
        ),
        unpacked(fmt, a, env).0.class is Infinity ==> product(fmt, a, 0, env)
            == (fmt.default_nan(), env.raised(1)),
{
}

/// Two dyadic numbers of one value compare alike with every number.
proof fn lemma_same(s1: int, x1: int, s2: int, x2: int, n: int, e: int)
    requires
        diff(s1, x1, s2, x2) == 0,
    ensures
        ({
            let a = Exact::dyadic(s1, x1).against(n, e);
            let b = Exact::dyadic(s2, x2).against(n, e);
            &&& a > 0 <==> b > 0
            &&& a == 0 <==> b == 0
            &&& a < 0 <==> b < 0
        }),
{
    let m = if x1 < x2 {
        x1
    } else {
        x2
    };
    let c = if m < e {
        m
    } else {
        e
    };
    lemma_diff(s1, x1, s2, x2, c);
    lemma_diff(s1, x1, 1 * n, e, c);
    lemma_diff(s2, x2, 1 * n, e, c);
}

/// A positive dyadic number lies from `2^e` to below `2^(e + 1)` for one `e`,
/// and has a count of units of any size.
proof fn lemma_dyadic_place(sig: int, exp: int, q: int)
    requires
        sig > 0,
    ensures
        ({
            let v = Exact::dyadic(sig, exp);
            &&& v.against(1, v.exponent()) >= 0
            &&& v.against(1, v.exponent() + 1) < 0
            &&& v.floor_at(v.units(q), q)
        }),
{
    let v = Exact::dyadic(sig, exp);
    let w = lemma_has_width(sig as nat);
    lemma2_to64();
    lemma_pow2_pos((w - 1) as nat);
    assert(pow2((exp - exp) as nat) == 1);
    assert(sig * pow2((exp - exp) as nat) == sig);
    lemma_dyadic_fine(sig, exp, exp, sig);
    let j = (w - 1) as nat;
    lemma_coarser(v, sig, exp, j);
    lemma_pow2_unfold(w);
    let p = pow2(j) as int;
    assert(sig / p == 1) by (nonlinear_arith)
        requires
            p <= sig < 2 * p,
    ;
    let e = exp + j;
    lemma_shift(v, 1, e, 1);
    assert(1 * pow2(1) == 2);
    lemma_exponent(v, e);
    lemma_floor_exists(v, q);
}

/// A quotient has a count of units of any size.
proof fn lemma_floor_exists(v: Exact, e: int)
    requires
        v.wf(),
        !v.root,
    ensures
        v.floor_at(v.units(e), e),
{
    lemma2_to64();
    if e <= v.exp {
        let p = pow2((v.exp - e) as nat) as int;
        lemma_pow2_pos((v.exp - e) as nat);
        let k = v.num * p / v.den;
        lemma_fundamental_div_mod(v.num * p, v.den);
        lemma_mod_bound(v.num * p, v.den);
        assert(v.num * p > 0) by (nonlinear_arith)
            requires
                v.num > 0,
                p > 0,
        ;
        assert(k >= 0) by {
            lemma_div_pos_is_pos(v.num * p, v.den);
        }
        assert(v.den * (k + 1) == v.den * k + v.den) by (nonlinear_arith);
        assert(pow2((e - e) as nat) == 1);
        assert((v.den * k) * 1 == v.den * k && (v.den * (k + 1)) * 1 == v.den * (k + 1));
        assert(v.against(k, e) == v.num * p - v.den * k);
        assert(v.against(k + 1, e) == v.num * p - v.den * (k + 1));
        assert(v.floor_at(k, e));
    } else {
        let p = pow2((e - v.exp) as nat) as int;
        lemma_pow2_pos((e - v.exp) as nat);
        let d = v.den * p;
        assert(d > 0) by (nonlinear_arith)
            requires
                v.den > 0,
                p > 0,
                d == v.den * p,
        ;
        let k = v.num / d;
        lemma_fundamental_div_mod(v.num, d);
        lemma_mod_bound(v.num, d);
        assert(k >= 0) by {
            lemma_div_pos_is_pos(v.num, d);
        }
        assert((v.den * k) * p == d * k && (v.den * (k + 1)) * p == d * k + d) by (nonlinear_arith)
            requires
                d == v.den * p,
        ;
        assert(pow2((v.exp - v.exp) as nat) == 1);
        assert(v.num * 1 == v.num);
        assert(v.against(k, e) == v.num - d * k);
        assert(v.against(k + 1, e) == v.num - (d * k + d));
        assert(v.floor_at(k, e));
    }
}

/// Rounding depends on the value alone.
proof fn lemma_rounded_same(fmt: Format, sign: bool, s1: int, x1: int, s2: int, x2: int, env: Env)
    requires
        s1 > 0,
        s2 > 0,
        diff(s1, x1, s2, x2) == 0,
    ensures
        rounded(fmt, sign, Exact::dyadic(s1, x1), env) == rounded(
            fmt,
            sign,
            Exact::dyadic(s2, x2),
            env,
        ),
{
    let v = Exact::dyadic(s1, x1);
    let w = Exact::dyadic(s2, x2);
    let e = v.exponent();
    let q = quantum(fmt, e);
    lemma_dyadic_place(s1, x1, q);
    lemma_same(s1, x1, s2, x2, 1, e);
    lemma_same(s1, x1, s2, x2, 1, e + 1);
    lemma_exponent(w, e);
    let k = v.units(q);
    lemma_same(s1, x1, s2, x2, k, q);
    lemma_same(s1, x1, s2, x2, k + 1, q);
    lemma_units(w, k, q);
    lemma_same(s1, x1, s2, x2, 2 * k + 1, q - 1);
    assert(rounded_units(v, q, sign, env.round) == rounded_units(w, q, sign, env.round));
}

/// Narrowing undoes widening: a number that is not a NaN comes back bit for
/// bit, and neither way raises a flag.
pub proof fn law_narrowing_undoes_widening(a: u64, env: Env)
    requires
        Format::Single.holds(a),
        !env.flush_to_zero,
        !unpacked(Format::Single, a, env).0.nan(),
    ensures
        ({
            let (wide, after) = converted(Format::Single, Format::Double, a, env);
            &&& after == env
            &&& converted(Format::Double, Format::Single, wide, env) == (a, env)
        }),
{
    let x = unpacked(Format::Single, a, env).0;
    let (wide, after) = converted(Format::Single, Format::Double, a, env);
    let mag = a as int % 0x8000_0000;
    let s = Format::Single;
    let d = Format::Double;
    match x.class {
        Class::Finite { sig, exp } => {
            law_widening_is_exact(a, env);
            law_representable_rounds_to_itself(s, a, env);
            let y = unpacked(d, wide, env).0;
            let (ys, ye) = (y.class->sig as int, y.class->exp as int);
            assert(diff(sig as int, exp as int, ys, ye) == 0);
            lemma_rounded_same(s, x.sign, sig as int, exp as int, ys, ye, env);
        },
        Class::Zero => {
            assert(mag == 0);
            assert(a == s.signed(x.sign, 0));
            let y = unpacked(d, wide, env).0;
            assert(y.class is Zero && y.sign == x.sign);
        },
        Class::Infinity => {
            assert(mag == 0x7F80_0000);
            assert(a == s.signed(x.sign, s.infinite() as int));
            let y = unpacked(d, wide, env).0;
            assert(y.class is Infinity && y.sign == x.sign);
        },
        Class::Nan { .. } => {},
    }
}

/// Whether `d` and `u` are neighbouring encodings, `d` below `u`: infinity
/// follows the largest finite number, and the least subnormal numbers follow
/// the zeros.
pub open spec fn neighbours(fmt: Format, d: u64, u: u64) -> bool {
    let s = fmt.sign_bit() as int;
    if d < s {
        u == d + 1 && u <= fmt.infinite()
    } else {
        d == u + 1 && u >= s && d - s <= fmt.infinite()
    }
}

/// Whether `a` is nearer zero than `b`: its encoding without the sign is
/// smaller.
pub open spec fn nearer_zero(fmt: Format, a: u64, b: u64) -> bool {
    (a as int % fmt.sign_bit() as int) < (b as int % fmt.sign_bit() as int)
}

/// An environment that rounds as `round` says, with nothing raised.
pub open spec fn rounding(round: Round) -> Env {
    Env { round, flush_to_zero: false, default_nan: false, flags: Flags(0) }
}

/// Whether the inexact flag is up.
pub open spec fn inexact(env: Env) -> bool {
    env.flags.0 & 0x10 != 0
}

/// The environment after a number that lies `apart` from the encodings, or is
/// `tiny`, was rounded.
spec fn noted(round: Round, apart: bool, tiny: bool) -> Env {
    if apart && tiny {
        rounding(round).raised(Flags::INEXACT).raised(Flags::UNDERFLOW)
    } else if apart {
        rounding(round).raised(Flags::INEXACT)
    } else {
        rounding(round)
    }
}

/// An encoded magnitude: it raises the inexact flag where the number lay apart
/// or overflows.
proof fn lemma_encoded(fmt: Format, sign: bool, mag: int, round: Round, apart: bool, tiny: bool)
    ensures
        ({
            let (r, after) = encoded(fmt, sign, mag, noted(round, apart, tiny));
            &&& inexact(after) == (apart || mag >= fmt.infinite())
            &&& r == fmt.signed(
                sign,
                if mag < fmt.infinite() {
                    mag
                } else if overflows_to_infinity(round, sign) {
                    fmt.infinite() as int
                } else {
                    fmt.infinite() - 1
                },
            )
        }),
{
    assert(0x04u8 | 0x10u8 == 0x14u8 && 0u8 | 0x10u8 == 0x10u8 && 0u8 | 0x14u8 == 0x14u8 && 0x10u8
        | 0x08u8 == 0x18u8 && 0x10u8 | 0x14u8 == 0x14u8 && 0x18u8 | 0x14u8 == 0x1Cu8 && 0u8 & 0x10u8
        == 0 && 0x10u8 & 0x10u8 == 0x10u8 && 0x14u8 & 0x10u8 == 0x10u8 && 0x18u8 & 0x10u8 == 0x10u8
        && 0x1Cu8 & 0x10u8 == 0x10u8) by (bit_vector);
}

/// The same magnitude, or a magnitude and the next, under the four modes.
proof fn lemma_encoded_brackets(
    fmt: Format,
    sign: bool,
    mag: int,
    next: int,
    near: int,
    apart: bool,
    tiny: bool,
)
    requires
        mag >= 0,
        next == if apart {
            mag + 1
        } else {
            mag
        },
        near == mag || near == next,
    ensures
        ({
            let (n, en) = encoded(fmt, sign, near, noted(Round::Nearest, apart, tiny));
            let (t, et) = encoded(
                fmt,
                sign,
                mag,
                noted(
                    if sign {
                        Round::Up
                    } else {
                        Round::Down
                    },
                    apart,
                    tiny,
                ),
            );
            let (a, ea) = encoded(
                fmt,
                sign,
                next,
                noted(
                    if sign {
                        Round::Down
                    } else {
                        Round::Up
                    },
                    apart,
                    tiny,
                ),
            );
            let (z, ez) = encoded(fmt, sign, mag, noted(Round::Zero, apart, tiny));
            &&& z == t
            &&& !inexact(en) ==> n == t && n == a
            &&& inexact(en) ==> nearer_zero(fmt, t, a)
            &&& inexact(en) ==> (n == t || n == a) && if sign {
                neighbours(fmt, a, t)
            } else {
                neighbours(fmt, t, a)
            }
            &&& inexact(et) == inexact(en) && inexact(ea) == inexact(en) && inexact(ez) == inexact(
                en,
            )
        }),
{
    let towards = if sign {
        Round::Up
    } else {
        Round::Down
    };
    let away = if sign {
        Round::Down
    } else {
        Round::Up
    };
    lemma_encoded(fmt, sign, near, Round::Nearest, apart, tiny);
    lemma_encoded(fmt, sign, mag, towards, apart, tiny);
    lemma_encoded(fmt, sign, next, away, apart, tiny);
    lemma_encoded(fmt, sign, mag, Round::Zero, apart, tiny);
    match fmt {
        Format::Single => {
            assert(fmt.infinite() == 0x7F80_0000);
        },
        Format::Double => {
            assert(fmt.infinite() == 0x7FF0_0000_0000_0000);
        },
    }
    assert(mag < fmt.infinite() || !overflows_to_infinity(towards, sign));
    assert(overflows_to_infinity(away, sign));
}

/// One number rounded under the four modes: alike where that is exact;
/// otherwise down and up are neighbours, to nearest is one of the two, and
/// towards zero is the one nearer zero.
proof fn lemma_rounded_brackets(fmt: Format, sign: bool, v: Exact)
    requires
        v.wf(),
        !v.root,
    ensures
        bracketed(
            fmt,
            sign,
            rounded(fmt, sign, v, rounding(Round::Nearest)),
            rounded(fmt, sign, v, rounding(Round::Up)),
            rounded(fmt, sign, v, rounding(Round::Down)),
            rounded(fmt, sign, v, rounding(Round::Zero)),
        ),
{
    let e = v.exponent();
    let q = quantum(fmt, e);
    lemma_floor_exists(v, q);
    law_directed_rounding_brackets(v, q, sign);
    let k = v.units(q);
    let tiny = e < fmt.emin();
    let start = if tiny {
        0
    } else {
        (e + fmt.bias() - 1) * fmt.hidden()
    };
    assert(start >= 0) by (nonlinear_arith)
        requires
            start == 0 || start == (e + fmt.bias() - 1) * fmt.hidden() && e + fmt.bias() - 1 >= 0,
            fmt.hidden() >= 0,
    ;
    let apart = v.against(k, q) != 0;
    let next = if apart {
        start + k + 1
    } else {
        start + k
    };
    let near = start + rounded_units(v, q, sign, Round::Nearest);
    lemma_encoded_brackets(fmt, sign, start + k, next, near, apart, tiny);
    lemma_rounded_parts(fmt, sign, v, Round::Nearest);
    lemma_rounded_parts(fmt, sign, v, Round::Up);
    lemma_rounded_parts(fmt, sign, v, Round::Down);
    lemma_rounded_parts(fmt, sign, v, Round::Zero);
}

proof fn lemma_rounded_parts(fmt: Format, sign: bool, v: Exact, round: Round)
    ensures
        ({
            let e = v.exponent();
            let q = quantum(fmt, e);
            let tiny = e < fmt.emin();
            let start = if tiny {
                0
            } else {
                (e + fmt.bias() - 1) * fmt.hidden()
            };
            rounded(fmt, sign, v, rounding(round)) == encoded(
                fmt,
                sign,
                start + rounded_units(v, q, sign, round),
                noted(round, v.against(v.units(q), q) != 0, tiny),
            )
        }),
{
}

/// How four results of one operation, rounded to nearest, up, down and towards
/// zero, lie to one another: alike where the operation is exact; otherwise the
/// ones rounded down and up are neighbours, the nearest is one of the two, and
/// the one towards zero is whichever is nearer zero.
pub open spec fn bracketed(
    fmt: Format,
    sign: bool,
    nearest: (u64, Env),
    up: (u64, Env),
    down: (u64, Env),
    zero: (u64, Env),
) -> bool {
    &&& !inexact(nearest.1) ==> up.0 == nearest.0 && down.0 == nearest.0 && zero.0 == nearest.0
    &&& inexact(nearest.1) ==> {
        &&& neighbours(fmt, down.0, up.0)
        &&& nearest.0 == down.0 || nearest.0 == up.0
        &&& zero.0 == if sign {
            up.0
        } else {
            down.0
        }
        &&& nearer_zero(
            fmt,
            zero.0,
            if sign {
                down.0
            } else {
                up.0
            },
        )
    }
    &&& inexact(up.1) == inexact(nearest.1)
    &&& inexact(down.1) == inexact(nearest.1)
    &&& inexact(zero.1) == inexact(nearest.1)
}

/// A quotient that is a number is bracketed by its directed roundings. It is
/// one unless an operand is a NaN, or both are infinite or zero.
pub proof fn law_quotient_is_bracketed(fmt: Format, a: u64, b: u64)
    requires
        fmt.holds(a),
        fmt.holds(b),
        ({
            let x = unpacked(fmt, a, rounding(Round::Nearest)).0;
            let y = unpacked(fmt, b, rounding(Round::Nearest)).0;
            &&& !x.nan() && !y.nan()
            &&& !(x.class is Infinity && y.class is Infinity)
            &&& !(x.class is Zero && y.class is Zero)
        }),
    ensures
        bracketed(
            fmt,
            (a >= fmt.sign_bit()) != (b >= fmt.sign_bit()),
            quotient(fmt, a, b, rounding(Round::Nearest)),
            quotient(fmt, a, b, rounding(Round::Up)),
            quotient(fmt, a, b, rounding(Round::Down)),
            quotient(fmt, a, b, rounding(Round::Zero)),
        ),
{
    let x = unpacked(fmt, a, rounding(Round::Nearest)).0;
    let y = unpacked(fmt, b, rounding(Round::Nearest)).0;
    lemma_quotient_parts(fmt, a, b, Round::Nearest, x, y);
    lemma_quotient_parts(fmt, a, b, Round::Up, x, y);
    lemma_quotient_parts(fmt, a, b, Round::Down, x, y);
    lemma_quotient_parts(fmt, a, b, Round::Zero, x, y);
    if x.class is Finite && y.class is Finite {
        lemma_parts_positive(fmt, a);
        lemma_parts_positive(fmt, b);
        lemma_rounded_brackets(fmt, x.sign != y.sign, ratio(x, y));
    }
}

/// The exact quotient of two finite numbers.
spec fn ratio(x: Unpacked, y: Unpacked) -> Exact {
    Exact {
        num: x.class->sig as int,
        den: y.class->sig as int,
        exp: x.class->exp - y.class->exp,
        root: false,
    }
}

proof fn lemma_parts_positive(fmt: Format, a: u64)
    requires
        fmt.holds(a),
    ensures
        ({
            let x = unpacked(fmt, a, rounding(Round::Nearest)).0;
            x.class is Finite ==> x.class->sig > 0
        }),
{
    let h = fmt.hidden() as int;
    let mag = a as int % fmt.sign_bit() as int;
    assert(0 <= mag % h < h);
}

/// What a quotient is, by the classes of its operands.
proof fn lemma_quotient_parts(fmt: Format, a: u64, b: u64, round: Round, x: Unpacked, y: Unpacked)
    requires
        x == unpacked(fmt, a, rounding(Round::Nearest)).0,
        y == unpacked(fmt, b, rounding(Round::Nearest)).0,
        !x.nan() && !y.nan(),
        !(x.class is Infinity && y.class is Infinity),
        !(x.class is Zero && y.class is Zero),
    ensures
        ({
            let (r, after) = quotient(fmt, a, b, rounding(round));
            let sign = x.sign != y.sign;
            if x.class is Finite && y.class is Finite {
                (r, after) == rounded(fmt, sign, ratio(x, y), rounding(round))
            } else {
                &&& !inexact(after)
                &&& r == fmt.signed(
                    sign,
                    if x.class is Infinity || y.class is Zero {
                        fmt.infinite() as int
                    } else {
                        0
                    },
                )
            }
        }),
{
    assert(0u8 & 0x10u8 == 0 && (0u8 | 0x02u8) & 0x10u8 == 0) by (bit_vector);
    assert(unpacked(fmt, a, rounding(round)) == (x, rounding(round)));
    assert(unpacked(fmt, b, rounding(round)) == (y, rounding(round)));
}

} // verus!
