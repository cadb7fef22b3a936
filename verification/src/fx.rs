//! The fixed-point scalar kernel.
//!
//! A scalar is an `i64` holding a multiple of `1 / 65536`. Products and
//! quotients are computed exactly in 128-bit intermediates, rounded toward
//! zero, and saturated to the `i64` range, so every operation is total.
//! Division by zero falls back to zero (a guarded branch rather than a
//! runtime fault).

use vstd::prelude::*;
use vstd::arithmetic::div_mod::lemma_div_pos_is_pos;
use vstd::arithmetic::div_mod::lemma_div_nonincreasing;
use vstd::arithmetic::div_mod::lemma_div_is_ordered;

verus! {

/// One unit: the scalar 1.0 is held as 65536.
pub const FX_ONE: i64 = 65536;

/// Clamp a mathematical integer to the `i64` range.
pub open spec fn sat64(x: int) -> int {
    if x > i64::MAX {
        i64::MAX as int
    } else if x < i64::MIN {
        i64::MIN as int
    } else {
        x
    }
}

pub open spec fn iabs(x: int) -> int {
    if x < 0 {
        -x
    } else {
        x
    }
}

/// Quotient rounded toward zero; a zero divisor yields zero.
pub open spec fn div_trunc(n: int, d: int) -> int {
    if d == 0 {
        0
    } else if (n < 0) == (d < 0) {
        iabs(n) / iabs(d)
    } else {
        -(iabs(n) / iabs(d))
    }
}

/// The exact product of two scalars, before saturation.
pub open spec fn fx_mul_val(a: int, b: int) -> int {
    div_trunc(a * b, FX_ONE as int)
}

/// The exact quotient of two scalars, before saturation.
pub open spec fn fx_div_val(a: int, b: int) -> int {
    div_trunc(a * (FX_ONE as int), b)
}

/// A truncated quotient is no larger in magnitude than `|n| / d`.
pub proof fn lemma_div_trunc_bound(n: int, bound: int, d: int)
    requires
        d >= 1,
        iabs(n) <= bound,
    ensures
        iabs(div_trunc(n, d)) <= bound / d,
        -(bound / d) <= div_trunc(n, d) <= bound / d,
{
    lemma_div_pos_is_pos(iabs(n), d);
    lemma_div_is_ordered(iabs(n), bound, d);
    lemma_div_pos_is_pos(bound, d);
}

/// Multiplying by one unit or by zero, and dividing by one unit, are exact.
pub proof fn lemma_fx_unit(a: int)
    ensures
        fx_mul_val(a, FX_ONE as int) == a,
        fx_mul_val(FX_ONE as int, a) == a,
        fx_mul_val(a, 0) == 0,
        fx_mul_val(0, a) == 0,
        fx_div_val(a, FX_ONE as int) == a,
        fx_mul_val(a, -(FX_ONE as int)) == -a,
{
    vstd::arithmetic::div_mod::lemma_div_of0(65536);
    lemma_div_trunc_neg(a * 65536, 65536);
    assert(a * (-65536) == -(a * 65536)) by (nonlinear_arith);
    if a >= 0 {
        vstd::arithmetic::div_mod::lemma_div_multiples_vanish(a, 65536);
        assert(iabs(a * 65536) == 65536 * a);
    } else {
        vstd::arithmetic::div_mod::lemma_div_multiples_vanish(-a, 65536);
        assert(iabs(a * 65536) == 65536 * (-a));
    }
}

/// Truncating division commutes with negation of the dividend.
pub proof fn lemma_div_trunc_neg(n: int, d: int)
    ensures
        div_trunc(-n, d) == -div_trunc(n, d),
{
    assert(iabs(-n) == iabs(n));
    if n == 0 {
        assert(div_trunc(0, d) == 0) by {
            if d != 0 {
                vstd::arithmetic::div_mod::lemma_div_of0(iabs(d));
            }
        }
    }
}

/// A fixed-point product is bounded by the product of the factor bounds,
/// reduced to scalar scale; and it commutes and negates exactly.
pub proof fn lemma_fx_mul_val_range(a: int, b: int, ma: int, mb: int)
    requires
        iabs(a) <= ma,
        iabs(b) <= mb,
    ensures
        iabs(fx_mul_val(a, b)) <= (ma * mb) / (FX_ONE as int),
        fx_mul_val(a, b) == fx_mul_val(b, a),
        fx_mul_val(-a, b) == -fx_mul_val(a, b),
        fx_mul_val(a, -b) == -fx_mul_val(a, b),
{
    assert(iabs(a * b) <= ma * mb) by (nonlinear_arith)
        requires
            iabs(a) <= ma,
            iabs(b) <= mb,
    ;
    lemma_div_trunc_bound(a * b, ma * mb, FX_ONE as int);
    lemma_div_trunc_neg(a * b, FX_ONE as int);
    assert(a * b == b * a) by (nonlinear_arith);
    assert((-a) * b == -(a * b)) by (nonlinear_arith);
    assert(a * (-b) == -(a * b)) by (nonlinear_arith);
}

/// Saturation never increases magnitude.
pub proof fn lemma_sat64_bound(x: int, bound: int)
    requires
        iabs(x) <= bound,
    ensures
        iabs(sat64(x)) <= bound,
        sat64(x) == x || bound >= i64::MAX,
{
}

fn sat_narrow(v: i128) -> (r: i64)
    ensures
        r as int == sat64(v as int),
{
    if v > i64::MAX as i128 {
        i64::MAX
    } else if v < i64::MIN as i128 {
        i64::MIN
    } else {
        v as i64
    }
}

fn div_trunc_i128(n: i128, d: i128) -> (q: i128)
    requires
        n > i128::MIN,
        d > i128::MIN,
    ensures
        q as int == div_trunc(n as int, d as int),
{
    if d == 0 {
        return 0;
    }
    let neg: bool = (n < 0) != (d < 0);
    let nm: u128 = if n < 0 {
        (-n) as u128
    } else {
        n as u128
    };
    let dm: u128 = if d < 0 {
        (-d) as u128
    } else {
        d as u128
    };
    let qm: u128 = nm / dm;
    proof {
        assert(nm as int == iabs(n as int));
        assert(dm as int == iabs(d as int));
        lemma_div_pos_is_pos(nm as int, dm as int);
        lemma_div_nonincreasing(nm as int, dm as int);
    }
    if neg {
        -(qm as i128)
    } else {
        qm as i128
    }
}

pub(crate) fn i64_mul_wide(a: i64, b: i64) -> (p: i128)
    ensures
        p as int == a * b,
        -0x4000_0000_0000_0000_0000_0000_0000_0000 <= p as int
            <= 0x4000_0000_0000_0000_0000_0000_0000_0000,
{
    proof {
        assert(-0x4000_0000_0000_0000_0000_0000_0000_0000 <= (a as int) * (b as int)
            <= 0x4000_0000_0000_0000_0000_0000_0000_0000) by (nonlinear_arith)
            requires
                -0x8000_0000_0000_0000 <= a as int <= 0x7fff_ffff_ffff_ffff,
                -0x8000_0000_0000_0000 <= b as int <= 0x7fff_ffff_ffff_ffff,
        ;
    }
    (a as i128) * (b as i128)
}

/// Saturating scalar addition.
pub fn fx_add(a: i64, b: i64) -> (r: i64)
    ensures
        r as int == sat64(a + b),
{
    sat_narrow(a as i128 + b as i128)
}

/// Saturating scalar subtraction.
pub fn fx_sub(a: i64, b: i64) -> (r: i64)
    ensures
        r as int == sat64(a - b),
{
    sat_narrow(a as i128 - b as i128)
}

/// Saturating scalar negation.
pub fn fx_neg(a: i64) -> (r: i64)
    ensures
        r as int == sat64(-a),
{
    sat_narrow(-(a as i128))
}

/// Saturating fixed-point multiplication: `a * b / 65536`, truncated.
pub fn fx_mul(a: i64, b: i64) -> (r: i64)
    ensures
        r as int == sat64(fx_mul_val(a as int, b as int)),
{
    let p = i64_mul_wide(a, b);
    let q = div_trunc_i128(p, FX_ONE as i128);
    sat_narrow(q)
}

/// Saturating fixed-point division: `a * 65536 / b`, truncated;
/// zero when `b` is zero.
pub fn fx_div(a: i64, b: i64) -> (r: i64)
    ensures
        r as int == sat64(fx_div_val(a as int, b as int)),
{
    proof {
        assert(-0x8000_0000_0000_0000_0000 <= (a as int) * 65536
            <= 0x8000_0000_0000_0000_0000) by (nonlinear_arith)
            requires
                -0x8000_0000_0000_0000 <= a as int <= 0x7fff_ffff_ffff_ffff,
        ;
    }
    let n = (a as i128) * (FX_ONE as i128);
    let q = div_trunc_i128(n, b as i128);
    sat_narrow(q)
}

/// The exact value of a three-term multiply-accumulate with translation
/// term `t`, before saturation.
pub open spec fn fx_mac3_val(x: int, a: int, y: int, b: int, z: int, c: int, t: int) -> int {
    fx_mul_val(x, a) + fx_mul_val(y, b) + fx_mul_val(z, c) + t
}

/// Saturating multiply-accumulate: each product is reduced to scalar scale
/// before the terms are summed.
pub fn fx_mac3(x: i64, a: i64, y: i64, b: i64, z: i64, c: i64, t: i64) -> (r: i64)
    ensures
        r as int == sat64(fx_mac3_val(x as int, a as int, y as int, b as int, z as int,
            c as int, t as int)),
{
    let p1 = i64_mul_wide(x, a);
    let t1 = div_trunc_i128(p1, FX_ONE as i128);
    let p2 = i64_mul_wide(y, b);
    let t2 = div_trunc_i128(p2, FX_ONE as i128);
    let p3 = i64_mul_wide(z, c);
    let t3 = div_trunc_i128(p3, FX_ONE as i128);
    proof {
        lemma_div_trunc_bound(p1 as int, 0x4000_0000_0000_0000_0000_0000_0000_0000,
            FX_ONE as int);
        lemma_div_trunc_bound(p2 as int, 0x4000_0000_0000_0000_0000_0000_0000_0000,
            FX_ONE as int);
        lemma_div_trunc_bound(p3 as int, 0x4000_0000_0000_0000_0000_0000_0000_0000,
            FX_ONE as int);
    }
    sat_narrow(t1 + t2 + t3 + (t as i128))
}

/// Saturating difference of two fixed-point products, computed without
/// intermediate saturation.
pub fn fx_mul_sub(a: i64, b: i64, c: i64, d: i64) -> (r: i64)
    ensures
        r as int == sat64(fx_mul_val(a as int, b as int) - fx_mul_val(c as int, d as int)),
{
    let p1 = i64_mul_wide(a, b);
    let t1 = div_trunc_i128(p1, FX_ONE as i128);
    let p2 = i64_mul_wide(c, d);
    let t2 = div_trunc_i128(p2, FX_ONE as i128);
    proof {
        lemma_div_trunc_bound(p1 as int, 0x4000_0000_0000_0000_0000_0000_0000_0000,
            FX_ONE as int);
        lemma_div_trunc_bound(p2 as int, 0x4000_0000_0000_0000_0000_0000_0000_0000,
            FX_ONE as int);
    }
    sat_narrow(t1 - t2)
}

/// Saturating division of a scalar by a wide nonnegative divisor, used when
/// the divisor is a vector norm that may exceed the scalar range.
pub(crate) fn fx_div_wide(a: i64, d: u128) -> (r: i64)
    requires
        1 <= d <= 0x1_0000_0000_0000_0000,
    ensures
        r as int == sat64(div_trunc(a * (FX_ONE as int), d as int)),
{
    proof {
        assert(-0x8000_0000_0000_0000_0000 <= (a as int) * 65536
            <= 0x8000_0000_0000_0000_0000) by (nonlinear_arith)
            requires
                -0x8000_0000_0000_0000 <= a as int <= 0x7fff_ffff_ffff_ffff,
        ;
    }
    let n = (a as i128) * (FX_ONE as i128);
    let q = div_trunc_i128(n, d as i128);
    sat_narrow(q)
}

/// A truncated quotient never exceeds the dividend in magnitude.
pub proof fn lemma_div_trunc_abs(n: int, d: int)
    ensures
        iabs(div_trunc(n, d)) <= iabs(n),
{
    if d != 0 {
        lemma_div_pos_is_pos(iabs(n), iabs(d));
        lemma_div_nonincreasing(iabs(n), iabs(d));
    }
}

/// Truncating division within the scalar width.
pub(crate) fn div_trunc_i64(n: i64, d: i64) -> (q: i64)
    requires
        d >= 1,
    ensures
        q as int == div_trunc(n as int, d as int),
{
    proof {
        lemma_div_trunc_abs(n as int, d as int);
        lemma_div_pos_is_pos(iabs(n as int), d as int);
    }
    div_trunc_i128(n as i128, d as i128) as i64
}

/// The saturated truncating quotient of a product: `a * b / d`.
pub(crate) fn mul_div_trunc_i64(a: i64, b: i64, d: i64) -> (q: i64)
    ensures
        q as int == sat64(div_trunc((a as int) * (b as int), d as int)),
{
    let p = i64_mul_wide(a, b);
    let q = div_trunc_i128(p, d as i128);
    sat_narrow(q)
}

/// The saturated truncating mean of three scalars.
pub(crate) fn avg3(a: i64, b: i64, c: i64) -> (r: i64)
    ensures
        r as int == sat64(div_trunc(a + b + c, 3)),
{
    let s = a as i128 + b as i128 + c as i128;
    sat_narrow(div_trunc_i128(s, 3))
}

/// The integer square root: the greatest `r` with `r * r <= n`.
pub open spec fn spec_isqrt(n: int) -> int
    decreases n,
{
    if n <= 0 {
        0
    } else {
        let r = spec_isqrt(n - 1);
        if (r + 1) * (r + 1) <= n {
            r + 1
        } else {
            r
        }
    }
}

pub proof fn lemma_isqrt_bounds(n: int)
    requires
        n >= 0,
    ensures
        spec_isqrt(n) >= 0,
        spec_isqrt(n) * spec_isqrt(n) <= n,
        n < (spec_isqrt(n) + 1) * (spec_isqrt(n) + 1),
    decreases n,
{
    if n > 0 {
        lemma_isqrt_bounds(n - 1);
        let r = spec_isqrt(n - 1);
        if (r + 1) * (r + 1) <= n {
            assert(n < (r + 2) * (r + 2)) by (nonlinear_arith)
                requires
                    r >= 0,
                    n - 1 < (r + 1) * (r + 1),
            ;
        }
    }
}

pub proof fn lemma_isqrt_unique(n: int, r: int)
    requires
        n >= 0,
        r >= 0,
        r * r <= n,
        n < (r + 1) * (r + 1),
    ensures
        r == spec_isqrt(n),
{
    lemma_isqrt_bounds(n);
    let s = spec_isqrt(n);
    if r < s {
        assert((r + 1) * (r + 1) <= s * s) by (nonlinear_arith)
            requires
                0 <= r,
                r + 1 <= s,
        ;
    }
    if s < r {
        assert((s + 1) * (s + 1) <= r * r) by (nonlinear_arith)
            requires
                0 <= s,
                s + 1 <= r,
        ;
    }
}

/// Binary-search integer square root over the full `u128` range.
pub(crate) fn isqrt_u128(n: u128) -> (r: u128)
    ensures
        r as int == spec_isqrt(n as int),
        (r as int) * (r as int) <= n as int,
        (n as int) < (r as int + 1) * (r as int + 1),
        r <= 0xffff_ffff_ffff_ffff,
{
    if n == 0 {
        proof {
            lemma_isqrt_unique(0, 0);
        }
        return 0;
    }
    let mut lo: u128 = 0;
    let mut hi: u128 = if n < 0xffff_ffff_ffff_ffff {
        n + 1
    } else {
        0x1_0000_0000_0000_0000
    };
    proof {
        if n < 0xffff_ffff_ffff_ffff {
            assert((n as int) < (n as int + 1) * (n as int + 1)) by (nonlinear_arith)
                requires
                    n as int >= 1,
            ;
        }
    }
    while lo + 1 < hi
        invariant
            (lo as int) * (lo as int) <= n as int,
            (n as int) < (hi as int) * (hi as int),
            lo < hi <= 0x1_0000_0000_0000_0000,
        decreases hi - lo,
    {
        let mid = lo + (hi - lo) / 2;
        proof {
            lemma_div_is_ordered(2, hi as int - lo as int, 2);
            lemma_div_nonincreasing(hi as int - lo as int, 2);
            assert((hi - lo) / 2 < hi - lo) by {
                vstd::arithmetic::div_mod::lemma_div_decreases(hi as int - lo as int, 2);
            }
            assert((mid as int) * (mid as int) <= 0xffff_ffff_ffff_fffe_0000_0000_0000_0001)
                by (nonlinear_arith)
                requires
                    0 <= mid as int <= 0xffff_ffff_ffff_ffff,
            ;
        }
        if mid * mid <= n {
            lo = mid;
        } else {
            hi = mid;
        }
    }
    proof {
        lemma_isqrt_unique(n as int, lo as int);
    }
    lo
}

} // verus!
