//! Exact positive numbers and how they lie to the dyadic grid.
//!
//! The result of an operation, before it is rounded, is a positive number that
//! no machine word holds: a quotient, or the square root of one. Rounding never
//! asks for more than how such a number compares with `n * 2^e`.

use vstd::arithmetic::div_mod::{lemma_div_denominator, lemma_fundamental_div_mod, lemma_mod_bound};
use vstd::arithmetic::power2::{lemma_pow2_adds, lemma_pow2_pos, pow2};
use vstd::prelude::*;

verus! {

/// `a * 2^x - b * 2^y`, in units of the smaller of the two powers.
pub open spec fn diff(a: int, x: int, b: int, y: int) -> int {
    let m = if x < y {
        x
    } else {
        y
    };
    a * pow2((x - m) as nat) - b * pow2((y - m) as nat)
}

/// The sign of a difference does not depend on the unit it is taken in.
pub proof fn lemma_diff(a: int, x: int, b: int, y: int, c: int)
    requires
        c <= x,
        c <= y,
    ensures
        ({
            let d = a * pow2((x - c) as nat) - b * pow2((y - c) as nat);
            &&& d > 0 <==> diff(a, x, b, y) > 0
            &&& d == 0 <==> diff(a, x, b, y) == 0
            &&& d < 0 <==> diff(a, x, b, y) < 0
        }),
{
    let m = if x < y {
        x
    } else {
        y
    };
    let px = pow2((x - m) as nat) as int;
    let py = pow2((y - m) as nat) as int;
    let p = pow2((m - c) as nat) as int;
    lemma_pow2_adds((x - m) as nat, (m - c) as nat);
    lemma_pow2_adds((y - m) as nat, (m - c) as nat);
    lemma_pow2_pos((m - c) as nat);
    let d = a * pow2((x - c) as nat) - b * pow2((y - c) as nat);
    let f = a * px - b * py;
    assert(d == f * p) by (nonlinear_arith)
        requires
            d == a * (px * p) - b * (py * p),
            f == a * px - b * py,
    ;
    assert((d > 0 <==> f > 0) && (d == 0 <==> f == 0) && (d < 0 <==> f < 0)) by (nonlinear_arith)
        requires
            d == f * p,
            p > 0,
    ;
}

/// The positive number `num / den * 2^exp`, or its square root.
#[verifier::ext_equal]
pub struct Exact {
    pub num: int,
    pub den: int,
    pub exp: int,
    pub root: bool,
}

impl Exact {
    /// The number `sig * 2^exp`.
    pub open spec fn dyadic(sig: int, exp: int) -> Exact {
        Exact { num: sig, den: 1, exp, root: false }
    }

    pub open spec fn wf(self) -> bool {
        self.num > 0 && self.den > 0
    }

    /// How the number compares with `n * 2^e`: positive where it is greater,
    /// zero where the two are equal.
    pub open spec fn against(self, n: int, e: int) -> int {
        if self.root {
            diff(self.num, self.exp, self.den * (n * n), 2 * e)
        } else {
            diff(self.num, self.exp, self.den * n, e)
        }
    }

    /// Whether the number is `k` units of `2^e`, rounded down.
    pub open spec fn floor_at(self, k: int, e: int) -> bool {
        k >= 0 && self.against(k, e) >= 0 && self.against(k + 1, e) < 0
    }

    /// The exponent `e` for which the number lies from `2^e` to below
    /// `2^(e + 1)`.
    pub open spec fn exponent(self) -> int {
        choose|e: int| #[trigger] self.against(1, e) >= 0 && self.against(1, e + 1) < 0
    }

    /// The number in units of `2^e`, rounded down.
    pub open spec fn units(self, e: int) -> int {
        choose|k: int| self.floor_at(k, e)
    }
}

/// Twice as many of half the size.
pub proof fn lemma_shift(v: Exact, n: int, e: int, j: nat)
    ensures
        v.against(n * pow2(j), e) > 0 <==> v.against(n, e + j) > 0,
        v.against(n * pow2(j), e) == 0 <==> v.against(n, e + j) == 0,
        v.against(n * pow2(j), e) < 0 <==> v.against(n, e + j) < 0,
{
    let p = pow2(j) as int;
    if v.root {
        let c = if v.exp < 2 * e {
            v.exp
        } else {
            2 * e
        };
        let many = v.den * ((n * p) * (n * p));
        let few = v.den * (n * n);
        lemma_diff(v.num, v.exp, many, 2 * e, c);
        lemma_diff(v.num, v.exp, few, 2 * (e + j), c);
        let low = pow2((2 * e - c) as nat) as int;
        lemma_pow2_adds(j, j);
        lemma_pow2_adds((2 * j) as nat, (2 * e - c) as nat);
        assert((2 * j) as nat == j + j);
        assert((2 * j + (2 * e - c)) as nat == (2 * (e + j) - c) as nat);
        assert(many * low == few * ((p * p) * low)) by (nonlinear_arith)
            requires
                many == v.den * ((n * p) * (n * p)),
                few == v.den * (n * n),
        ;
    } else {
        let c = if v.exp < e {
            v.exp
        } else {
            e
        };
        let many = v.den * (n * p);
        let few = v.den * n;
        lemma_diff(v.num, v.exp, many, e, c);
        lemma_diff(v.num, v.exp, few, e + j, c);
        let low = pow2((e - c) as nat) as int;
        lemma_pow2_adds(j, (e - c) as nat);
        assert((j + (e - c)) as nat == (e + j - c) as nat);
        assert(many * low == few * (p * low)) by (nonlinear_arith)
            requires
                many == v.den * (n * p),
                few == v.den * n,
        ;
    }
}

/// Against more, the number compares less.
pub proof fn lemma_more(v: Exact, n1: int, n2: int, e: int)
    requires
        v.wf(),
        0 <= n1 < n2,
    ensures
        v.against(n1, e) > v.against(n2, e),
{
    if v.root {
        let m = if v.exp < 2 * e {
            v.exp
        } else {
            2 * e
        };
        let p = pow2((2 * e - m) as nat) as int;
        lemma_pow2_pos((2 * e - m) as nat);
        let den = v.den;
        assert((den * (n1 * n1)) * p < (den * (n2 * n2)) * p) by {
            assert(n1 * n1 < n2 * n2) by (nonlinear_arith)
                requires
                    0 <= n1 < n2,
            ;
            assert(den * (n1 * n1) < den * (n2 * n2)) by (nonlinear_arith)
                requires
                    n1 * n1 < n2 * n2,
                    den > 0,
            ;
            assert((den * (n1 * n1)) * p < (den * (n2 * n2)) * p) by (nonlinear_arith)
                requires
                    den * (n1 * n1) < den * (n2 * n2),
                    p > 0,
            ;
        }
    } else {
        let m = if v.exp < e {
            v.exp
        } else {
            e
        };
        let p = pow2((e - m) as nat) as int;
        lemma_pow2_pos((e - m) as nat);
        let den = v.den;
        assert((den * n1) * p < (den * n2) * p) by {
            assert(den * n1 < den * n2) by (nonlinear_arith)
                requires
                    n1 < n2,
                    den > 0,
            ;
            assert((den * n1) * p < (den * n2) * p) by (nonlinear_arith)
                requires
                    den * n1 < den * n2,
                    p > 0,
            ;
        }
    }
}

/// In larger units the count is the quotient, exact where nothing is left.
pub proof fn lemma_coarser(v: Exact, k: int, e: int, j: nat)
    requires
        v.wf(),
        v.floor_at(k, e),
    ensures
        v.floor_at(k / pow2(j) as int, e + j),
        v.against(k / pow2(j) as int, e + j) == 0 <==> v.against(k, e) == 0 && k % pow2(j) as int
            == 0,
{
    let p = pow2(j) as int;
    lemma_pow2_pos(j);
    let q = k / p;
    lemma_fundamental_div_mod(k, p);
    lemma_mod_bound(k, p);
    assert(q * p == p * q && (q + 1) * p == p * q + p) by (nonlinear_arith);
    assert(q >= 0) by (nonlinear_arith)
        requires
            q == k / p,
            k >= 0,
            p > 0,
    ;
    lemma_shift(v, q, e, j);
    lemma_shift(v, q + 1, e, j);
    let low = q * p;
    let high = (q + 1) * p;
    assert(0 <= low) by (nonlinear_arith)
        requires
            low == q * p,
            q >= 0,
            p > 0,
    ;
    if low < k {
        lemma_more(v, low, k, e);
    }
    if k + 1 < high {
        lemma_more(v, k + 1, high, e);
    }
}

/// An exact count stays exact in smaller units.
pub proof fn lemma_finer(v: Exact, k: int, e: int, j: nat)
    requires
        v.wf(),
        k >= 0,
        v.against(k, e) == 0,
    ensures
        v.floor_at(k * pow2(j), e - j),
        v.against(k * pow2(j), e - j) == 0,
{
    lemma_shift(v, k, e - j, j);
    lemma_pow2_pos(j);
    let many = k * pow2(j);
    assert(many >= 0) by (nonlinear_arith)
        requires
            many == k * pow2(j),
            k >= 0,
            pow2(j) > 0,
    ;
    lemma_more(v, many, many + 1, e - j);
}

/// There is one exponent.
pub proof fn lemma_exponent(v: Exact, e: int)
    requires
        v.wf(),
        v.against(1, e) >= 0,
        v.against(1, e + 1) < 0,
    ensures
        v.exponent() == e,
{
    let f = v.exponent();
    assert(v.against(1, f) >= 0 && v.against(1, f + 1) < 0);
    if f > e {
        lemma_higher(v, e + 1, f);
    }
    if f < e {
        lemma_higher(v, f + 1, e);
    }
}

/// A number below one power of two is below every higher one.
proof fn lemma_higher(v: Exact, e: int, f: int)
    requires
        v.wf(),
        e <= f,
        v.against(1, e) < 0,
    ensures
        v.against(1, f) < 0,
{
    let j = (f - e) as nat;
    lemma_shift(v, 1, e, j);
    lemma_pow2_pos(j);
    assert(1 * pow2(j) == pow2(j));
    if pow2(j) > 1 {
        lemma_more(v, 1, pow2(j) as int, e);
    }
}

/// There is one count of units.
pub proof fn lemma_units(v: Exact, k: int, e: int)
    requires
        v.wf(),
        v.floor_at(k, e),
    ensures
        v.units(e) == k,
{
    let j = v.units(e);
    assert(v.floor_at(j, e));
    if j > k {
        if j > k + 1 {
            lemma_more(v, k + 1, j, e);
        }
    }
    if j < k {
        if k > j + 1 {
            lemma_more(v, j + 1, k, e);
        }
    }
}

/// A count of `w` bits fixes the exponent.
pub proof fn lemma_width(v: Exact, k: int, e: int, w: nat)
    requires
        v.wf(),
        v.floor_at(k, e),
        w >= 1,
        pow2((w - 1) as nat) <= k < pow2(w),
    ensures
        v.exponent() == e + w - 1,
{
    let j = (w - 1) as nat;
    let p = pow2(j) as int;
    lemma_pow2_pos(j);
    vstd::arithmetic::power2::lemma_pow2_unfold(w);
    assert(pow2(w) == 2 * p);
    assert(k / p == 1) by (nonlinear_arith)
        requires
            p <= k < 2 * p,
            p > 0,
    ;
    lemma_coarser(v, k, e, j);
    let top = e + j;
    assert(v.against(1, top) >= 0 && v.against(2, top) < 0);
    lemma_shift(v, 1, top, 1);
    vstd::arithmetic::power2::lemma2_to64();
    assert(1 * pow2(1) == 2);
    lemma_exponent(v, top);
}

} // verus!
