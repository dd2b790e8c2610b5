//! Scalar blends used by the CSG combinators.
use vstd::prelude::*;
use crate::fixed::{in_range, sat, div_floor, saturate, SCALE, LIMIT};

verus! {

pub open spec fn abs_int(v: int) -> int {
    if v < 0 {
        -v
    } else {
        v
    }
}

pub open spec fn min_int(a: int, b: int) -> int {
    if a <= b {
        a
    } else {
        b
    }
}

pub open spec fn max_int(a: int, b: int) -> int {
    if a >= b {
        a
    } else {
        b
    }
}

pub open spec fn clamp_int(v: int, lo: int, hi: int) -> int {
    if v < lo {
        lo
    } else if v > hi {
        hi
    } else {
        v
    }
}

/// Linear interpolation `(1 - t) * a + t * b`, rounded down, saturated.
pub open spec fn lerp_spec(a: int, b: int, t: int) -> int {
    sat(((SCALE - t) * a + t * b) / (SCALE as int))
}

/// The blend weight `h = clamp(1/2 + (a - b) / (2k), 0, 1)` in fixed point.
/// The offset from one half is rounded away from zero, which keeps the blend
/// on the far side of the hard minimum (or maximum) it smooths.
pub open spec fn blend_weight(a: int, b: int, k: int) -> int {
    let n = (a - b) * SCALE;
    let d = 2 * k;
    let step = (abs_int(n) + abs_int(d) - 1) / abs_int(d);
    let q = if (n >= 0) == (d > 0) {
        step
    } else {
        -step
    };
    clamp_int(SCALE / 2 + q, 0, SCALE as int)
}

/// `lerp(a, b, h) - k * h * (1 - h)` scaled by `SCALE * SCALE`, with `h` in fixed point.
pub open spec fn blend_numer(a: int, b: int, k: int, h: int) -> int {
    a * (SCALE - h) * SCALE + b * h * SCALE - k * h * (SCALE - h)
}

/// Polynomial smooth minimum with blend radius `k`.
pub open spec fn min_smooth_spec(a: int, b: int, k: int) -> int {
    sat(blend_numer(a, b, k, blend_weight(a, b, k)) / (SCALE * SCALE))
}

/// A product of bounded factors is bounded by the product of the bounds.
pub proof fn lemma_mul_bounded(x: int, y: int, bx: int, by: int)
    requires
        -bx <= x <= bx,
        -by <= y <= by,
    ensures
        -(bx * by) <= x * y <= bx * by,
{
    assert(-(bx * by) <= x * y <= bx * by) by (nonlinear_arith)
        requires
            -bx <= x <= bx,
            -by <= y <= by,
    ;
}

/// Linear interpolation between `a` and `b` by the fixed-point weight `t`.
pub fn lerp(a: i64, b: i64, t: i64) -> (r: i64)
    requires
        in_range(a as int),
        in_range(b as int),
        in_range(t as int),
    ensures
        r == lerp_spec(a as int, b as int, t as int),
{
    proof {
        lemma_mul_bounded(SCALE - t, a as int, 0x8001_0000, LIMIT as int);
        lemma_mul_bounded(t as int, b as int, LIMIT as int, LIMIT as int);
    }
    let n: i128 = (SCALE as i128 - t as i128) * a as i128 + t as i128 * b as i128;
    saturate(div_floor(n, SCALE as i128))
}

/// Subtraction of one solid from another: `max(a, -b)`.
pub fn difference(a: i64, b: i64) -> (r: i64)
    requires
        in_range(a as int),
        in_range(b as int),
    ensures
        r == max_int(a as int, -b),
{
    if a >= -b {
        a
    } else {
        -b
    }
}

/// The unrounded blend stays between the hard minimum and a quarter of the radius below it.
proof fn lemma_blend_numer_below(a: int, b: int, k: int)
    requires
        k > 0,
    ensures
        min_int(a, b) * (SCALE * SCALE) - k * (SCALE * SCALE / 4) <= blend_numer(
            a,
            b,
            k,
            blend_weight(a, b, k),
        ) <= min_int(a, b) * (SCALE * SCALE),
{
    let s = SCALE as int;
    let h = blend_weight(a, b, k);
    let bn = blend_numer(a, b, k, h);
    assert(bn == a * (s - h) * s + b * h * s - k * h * (s - h));
    let n = (a - b) * s;
    let d = 2 * k;
    let step = (abs_int(n) + d - 1) / d;
    let rem = (abs_int(n) + d - 1) % d;
    assert(step * d + rem == abs_int(n) + d - 1 && 0 <= rem < d) by {
        vstd::arithmetic::div_mod::lemma_fundamental_div_mod(abs_int(n) + d - 1, d);
    }
    assert(step * d >= abs_int(n));
    assert(step >= 0) by (nonlinear_arith)
        requires
            step * d >= abs_int(n),
            step * d + rem == abs_int(n) + d - 1,
            0 <= rem < d,
            abs_int(n) >= 0,
            d > 0,
    ;
    assert(s * s == 0x1_0000_0000);
    assert(SCALE * SCALE / 4 == 0x4000_0000);
    let x = h * (s - h);
    assert(4 * x <= s * s) by (nonlinear_arith)
        requires
            x == h * (s - h),
    ;
    assert(k * x <= k * 0x4000_0000) by (nonlinear_arith)
        requires
            x <= 0x4000_0000,
            k > 0,
    ;
    assert(k * h * (s - h) == k * x) by (nonlinear_arith)
        requires
            x == h * (s - h),
    ;
    assert(0 <= h <= s);
    assert(h * (s - h) >= 0) by (nonlinear_arith)
        requires
            0 <= h <= s,
    ;
    assert(k * (h * (s - h)) >= 0) by (nonlinear_arith)
        requires
            h * (s - h) >= 0,
            k > 0,
    ;
    assert(k * h * (s - h) == k * (h * (s - h))) by (nonlinear_arith);
    if a <= b {
        let dd = b - a;
        assert(n == -(dd * s) && dd * s >= 0) by (nonlinear_arith)
            requires
                n == (a - b) * s,
                dd == b - a,
                dd >= 0,
                s > 0,
        ;
        if n == 0 {
            assert(step * d < d);
            assert(step == 0) by (nonlinear_arith)
                requires
                    step * d < d,
                    step >= 0,
                    d > 0,
            ;
        }
        assert(h == clamp_int(s / 2 - step, 0, s));
        assert(bn - a * (s * s) == h * s * dd - k * h * (s - h)) by (nonlinear_arith)
            requires
                bn == a * (s - h) * s + b * h * s - k * h * (s - h),
                dd == b - a,
        ;
        if h > 0 {
            assert(h == s / 2 - step);
            assert(s * dd <= k * (s - h)) by (nonlinear_arith)
                requires
                    step * (2 * k) >= dd * s,
                    h == s / 2 - step,
                    h >= 1,
                    s == 65536,
                    k > 0,
                    dd >= 0,
            ;
            assert(h * s * dd <= h * (k * (s - h))) by (nonlinear_arith)
                requires
                    s * dd <= k * (s - h),
                    h > 0,
            ;
            assert(h * (k * (s - h)) == k * h * (s - h)) by (nonlinear_arith);
        } else {
            assert(h * s * dd == 0 && x == 0) by (nonlinear_arith)
                requires
                    h == 0,
                    x == h * (s - h),
            ;
        }
        assert(h * s * dd >= 0) by (nonlinear_arith)
            requires
                h >= 0,
                dd >= 0,
                s > 0,
        ;
        assert(bn <= a * (s * s));
        assert(bn >= a * (s * s) - k * 0x4000_0000);
    } else {
        let dd = a - b;
        assert(n == dd * s && dd * s > 0) by (nonlinear_arith)
            requires
                n == (a - b) * s,
                dd == a - b,
                dd > 0,
                s > 0,
        ;
        assert(h == clamp_int(s / 2 + step, 0, s));
        assert(bn - b * (s * s) == (s - h) * s * dd - k * h * (s - h)) by (nonlinear_arith)
            requires
                bn == a * (s - h) * s + b * h * s - k * h * (s - h),
                dd == a - b,
        ;
        if h < s {
            assert(h == s / 2 + step);
            assert(s * dd <= k * h) by (nonlinear_arith)
                requires
                    step * (2 * k) >= dd * s,
                    h == s / 2 + step,
                    h < s,
                    s == 65536,
                    k > 0,
                    dd >= 0,
            ;
            assert((s - h) * s * dd <= (s - h) * (k * h)) by (nonlinear_arith)
                requires
                    s * dd <= k * h,
                    s - h > 0,
            ;
            assert((s - h) * (k * h) == k * h * (s - h)) by (nonlinear_arith);
        } else {
            assert((s - h) * s * dd == 0 && x == 0) by (nonlinear_arith)
                requires
                    h == s,
                    x == h * (s - h),
            ;
        }
        assert((s - h) * s * dd >= 0) by (nonlinear_arith)
            requires
                s - h >= 0,
                dd >= 0,
                s > 0,
        ;
        assert(bn <= b * (s * s));
        assert(bn >= b * (s * s) - k * 0x4000_0000);
    }
}

/// Floor division of a value held between `m * den - e` and `m * den + e2`.
proof fn lemma_floor_between(num: int, den: int, m: int, e: int, e2: int)
    requires
        den > 0,
        e >= 0,
        e2 >= 0,
        m * den - e <= num <= m * den + e2,
    ensures
        m - e / den - 1 <= num / den <= m + e2 / den,
{
    let q = num / den;
    let r = num % den;
    vstd::arithmetic::div_mod::lemma_fundamental_div_mod(num, den);
    let f = e / den;
    let f2 = e2 / den;
    vstd::arithmetic::div_mod::lemma_fundamental_div_mod(e, den);
    vstd::arithmetic::div_mod::lemma_fundamental_div_mod(e2, den);
    assert(m - f - 1 <= q <= m + f2) by (nonlinear_arith)
        requires
            num == den * q + r,
            0 <= r < den,
            e == den * f + e % den,
            0 <= e % den < den,
            e2 == den * f2 + e2 % den,
            0 <= e2 % den < den,
            m * den - e <= num <= m * den + e2,
            den > 0,
    ;
}

/// Negating both inputs and the radius gives the same weight and the negated numerator.
proof fn lemma_blend_mirror(a: int, b: int, k: int)
    requires
        k != 0,
    ensures
        blend_weight(a, b, k) == blend_weight(-a, -b, -k),
        blend_numer(a, b, k, blend_weight(a, b, k)) == -blend_numer(
            -a,
            -b,
            -k,
            blend_weight(a, b, k),
        ),
{
    let s = SCALE as int;
    let n = (a - b) * s;
    let n2 = (-a - (-b)) * s;
    assert(n2 == -n) by (nonlinear_arith)
        requires
            n == (a - b) * s,
            n2 == (-a - (-b)) * s,
    ;
    let d = abs_int(2 * k);
    if n == 0 {
        let step = (d - 1) / d;
        vstd::arithmetic::div_mod::lemma_fundamental_div_mod(d - 1, d);
        assert(step == 0) by (nonlinear_arith)
            requires
                d - 1 == d * step + (d - 1) % d,
                0 <= (d - 1) % d < d,
                d > 0,
        ;
    }
    let h = blend_weight(a, b, k);
    assert(blend_numer(a, b, k, h) == -blend_numer(-a, -b, -k, h)) by (nonlinear_arith);
}

/// Polynomial smooth minimum of `a` and `b` with blend radius `k`.
/// A positive `k` pulls the result down by at most `k / 4` (plus rounding) below
/// the hard minimum and never above it; a negative `k` blends the maximum the
/// same way from above.
pub fn min_smooth(a: i64, b: i64, k: i64) -> (r: i64)
    requires
        in_range(a as int),
        in_range(b as int),
        in_range(k as int),
        k != 0,
    ensures
        r == min_smooth_spec(a as int, b as int, k as int),
        k > 0 ==> sat(min_int(a as int, b as int) - k / 4 - 1) <= r <= min_int(a as int, b as int),
        k < 0 ==> max_int(a as int, b as int) <= r <= sat(max_int(a as int, b as int) + (-k) / 4 + 1),
{
    let s: i128 = SCALE as i128;
    let n: i128 = (a as i128 - b as i128) * s;
    let d: i128 = 2 * k as i128;
    let an: i128 = if n < 0 {
        -n
    } else {
        n
    };
    let ad: i128 = if d < 0 {
        -d
    } else {
        d
    };
    proof {
        vstd::arithmetic::div_mod::lemma_div_nonincreasing((an + ad - 1) as int, ad as int);
        vstd::arithmetic::div_mod::lemma_div_pos_is_pos((an + ad - 1) as int, ad as int);
    }
    let step: i128 = (an + ad - 1) / ad;
    let q: i128 = if (n >= 0) == (d > 0) {
        step
    } else {
        -step
    };
    let hq: i128 = s / 2 + q;
    let h: i128 = if hq < 0 {
        0
    } else if hq > s {
        s
    } else {
        hq
    };
    assert(h == blend_weight(a as int, b as int, k as int));
    proof {
        lemma_mul_bounded(a as int, s - h, LIMIT as int, s as int);
        lemma_mul_bounded(a * (s - h), s as int, LIMIT * s, s as int);
        lemma_mul_bounded(b as int, h as int, LIMIT as int, s as int);
        lemma_mul_bounded(b * h, s as int, LIMIT * s, s as int);
        lemma_mul_bounded(k as int, h as int, LIMIT as int, s as int);
        lemma_mul_bounded(k * h, s - h, LIMIT * s, s as int);
    }
    let num: i128 = a as i128 * (s - h) * s + b as i128 * h * s - k as i128 * h * (s - h);
    assert(num == blend_numer(a as int, b as int, k as int, h as int));
    proof {
        lemma_min_smooth_bounds(a as int, b as int, k as int);
    }
    saturate(div_floor(num, s * s))
}

/// A smooth minimum with positive radius `k` never exceeds the hard minimum and
/// falls at most `k / 4` (plus rounding) below it, so it converges to the hard
/// minimum as `k` shrinks; with a negative radius it bounds the maximum from above
/// in the same way.
pub proof fn lemma_min_smooth_bounds(a: int, b: int, k: int)
    requires
        in_range(a),
        in_range(b),
        in_range(k),
        k != 0,
    ensures
        k > 0 ==> sat(min_int(a, b) - k / 4 - 1) <= min_smooth_spec(a, b, k) <= min_int(a, b),
        k < 0 ==> max_int(a, b) <= min_smooth_spec(a, b, k) <= sat(max_int(a, b) + (-k) / 4 + 1),
{
    let den = SCALE * SCALE;
    let num = blend_numer(a, b, k, blend_weight(a, b, k));
    assert(den == 0x1_0000_0000);
    if k > 0 {
        lemma_blend_numer_below(a, b, k);
        lemma_floor_between(num, den, min_int(a, b), k * 0x4000_0000, 0);
        vstd::arithmetic::div_mod::lemma_div_multiples_vanish_quotient(0x4000_0000, k, 4);
        assert(k * 0x4000_0000 == 0x4000_0000 * k);
    } else {
        lemma_blend_mirror(a, b, k);
        lemma_blend_numer_below(-a, -b, -k);
        assert(min_int(-a, -b) == -max_int(a, b));
        lemma_floor_between(num, den, max_int(a, b), 0, (-k) * 0x4000_0000);
        vstd::arithmetic::div_mod::lemma_div_multiples_vanish_quotient(0x4000_0000, -k, 4);
        assert((-k) * 0x4000_0000 == 0x4000_0000 * (-k));
    }
}

/// Smooth maximum: the smooth minimum with the radius negated.
pub fn max_smooth(a: i64, b: i64, k: i64) -> (r: i64)
    requires
        in_range(a as int),
        in_range(b as int),
        in_range(k as int),
        k != 0,
    ensures
        r == min_smooth_spec(a as int, b as int, -k),
        k > 0 ==> max_int(a as int, b as int) <= r <= sat(max_int(a as int, b as int) + k / 4 + 1),
{
    min_smooth(a, b, -k)
}

/// Smooth subtraction of `b` from `a`: the smooth maximum of `a` and `-b`.
pub fn difference_smooth(a: i64, b: i64, k: i64) -> (r: i64)
    requires
        in_range(a as int),
        in_range(b as int),
        in_range(k as int),
        k != 0,
    ensures
        r == min_smooth_spec(a as int, -b, -k),
        k > 0 ==> max_int(a as int, -b) <= r <= sat(max_int(a as int, -b) + k / 4 + 1),
{
    min_smooth(a, -b, -k)
}

} // verus!
