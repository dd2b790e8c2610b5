//! Fixed-point scalars: an `i64` holding a real number times `SCALE`.
//! Every scalar result saturates at `LIMIT` in magnitude.
use vstd::prelude::*;
use vstd::arithmetic::div_mod::lemma_fundamental_div_mod_converse;

verus! {

/// The fixed-point representation of one unit.
pub const SCALE: i64 = 65536;

/// The largest magnitude a scalar or a vector component may hold.
pub const LIMIT: i64 = 0x8000_0000;

/// A scalar is valid when its magnitude is at most `LIMIT`.
pub open spec fn in_range(v: int) -> bool {
    -LIMIT <= v <= LIMIT
}

/// Clamps an exact integer result into the valid range.
pub open spec fn sat(v: int) -> int {
    if v > LIMIT {
        LIMIT as int
    } else if v < -LIMIT {
        -LIMIT
    } else {
        v
    }
}

/// Floor division by a non-zero divisor of either sign.
pub open spec fn floor_div(n: int, d: int) -> int {
    if d > 0 {
        n / d
    } else {
        (-n) / (-d)
    }
}

/// Fixed-point product: `a * b / SCALE`, rounded down, saturated.
pub open spec fn mul_spec(a: int, b: int) -> int {
    sat((a * b) / (SCALE as int))
}

/// Fixed-point quotient: `a * SCALE / b`, rounded down, saturated.
pub open spec fn div_spec(a: int, b: int) -> int {
    sat(floor_div(a * SCALE, b))
}

/// `r` is the integer square root of `n`, rounded down.
pub open spec fn is_floor_sqrt(n: int, r: int) -> bool {
    0 <= r && r * r <= n < (r + 1) * (r + 1)
}

/// The integer square root of a non-negative `n`, rounded down.
pub open spec fn sqrt_floor(n: int) -> int {
    choose|r: int| is_floor_sqrt(n, r)
}

/// Every non-negative integer has exactly one rounded-down square root.
pub proof fn lemma_sqrt_floor(n: int, r: int)
    requires
        n >= 0,
    ensures
        is_floor_sqrt(n, sqrt_floor(n)),
        is_floor_sqrt(n, r) ==> r == sqrt_floor(n),
    decreases n,
{
    if n == 0 {
        assert(is_floor_sqrt(0, 0));
    } else {
        lemma_sqrt_floor(n - 1, 0);
        let p = sqrt_floor(n - 1);
        if (p + 1) * (p + 1) <= n {
            assert(is_floor_sqrt(n, p + 1)) by (nonlinear_arith)
                requires
                    (p + 1) * (p + 1) <= n,
                    n - 1 < (p + 1) * (p + 1),
                    p >= 0,
            ;
        } else {
            assert(is_floor_sqrt(n, p));
        }
    }
    let s = sqrt_floor(n);
    if is_floor_sqrt(n, r) {
        lemma_sqrt_unique(n, r, s);
    }
}

/// The rounded-down root of a perfect square is exact.
pub proof fn lemma_sqrt_of_square(v: int)
    requires
        v >= 0,
    ensures
        sqrt_floor(v * v) == v,
{
    assert(v * v <= v * v < (v + 1) * (v + 1)) by (nonlinear_arith)
        requires
            v >= 0,
    ;
    lemma_sqrt_floor(v * v, v);
}

proof fn lemma_sqrt_unique(n: int, r: int, s: int)
    requires
        is_floor_sqrt(n, r),
        is_floor_sqrt(n, s),
    ensures
        r == s,
{
    if r < s {
        assert((r + 1) * (r + 1) <= s * s) by (nonlinear_arith)
            requires
                0 <= r + 1 <= s,
        ;
    } else if s < r {
        assert((s + 1) * (s + 1) <= r * r) by (nonlinear_arith)
            requires
                0 <= s + 1 <= r,
        ;
    }
}

/// Clamps a wide intermediate into the valid scalar range.
pub fn saturate(v: i128) -> (r: i64)
    ensures
        r == sat(v as int),
        in_range(r as int),
{
    if v > LIMIT as i128 {
        LIMIT
    } else if v < -(LIMIT as i128) {
        -LIMIT
    } else {
        v as i64
    }
}

/// Division rounded towards negative infinity, by a positive divisor.
pub fn div_floor(n: i128, d: i128) -> (q: i128)
    requires
        d > 0,
        -0x1_0000_0000_0000_0000_0000_0000_0000 <= n <= 0x1_0000_0000_0000_0000_0000_0000_0000,
        d <= 0x1_0000_0000_0000_0000_0000_0000_0000,
    ensures
        q == n as int / d as int,
{
    if n >= 0 {
        n / d
    } else {
        let m: i128 = -n;
        let c: i128 = (m + d - 1) / d;
        proof {
            let r = (m + d - 1) % (d as int);
            assert((m + d - 1) == c * d + r) by {
                vstd::arithmetic::div_mod::lemma_fundamental_div_mod((m + d - 1) as int, d as int);
            }
            assert(n == (-c) * d + (d - 1 - r)) by (nonlinear_arith)
                requires
                    n == -m,
                    (m + d - 1) == c * d + r,
            ;
            lemma_fundamental_div_mod_converse(n as int, d as int, -c, d - 1 - r);
        }
        -c
    }
}

/// Fixed-point product of two valid scalars.
pub fn fmul(a: i64, b: i64) -> (r: i64)
    requires
        in_range(a as int),
        in_range(b as int),
    ensures
        r == mul_spec(a as int, b as int),
{
    assert(-0x4000_0000_0000_0000 <= a * b <= 0x4000_0000_0000_0000) by (nonlinear_arith)
        requires
            in_range(a as int),
            in_range(b as int),
    ;
    saturate(div_floor(a as i128 * b as i128, SCALE as i128))
}

/// Fixed-point quotient of two valid scalars, by a non-zero divisor.
pub fn fdiv(a: i64, b: i64) -> (r: i64)
    requires
        in_range(a as int),
        in_range(b as int),
        b != 0,
    ensures
        r == div_spec(a as int, b as int),
{
    let n: i128 = a as i128 * SCALE as i128;
    if b > 0 {
        saturate(div_floor(n, b as i128))
    } else {
        saturate(div_floor(-n, -(b as i128)))
    }
}

/// The integer square root of `n`, rounded down.
pub fn isqrt(n: u128) -> (r: u64)
    requires
        n < 0x1_0000_0000_0000_0000_0000,
    ensures
        is_floor_sqrt(n as int, r as int),
        r as int == sqrt_floor(n as int),
{
    let mut lo: u128 = 0;
    let mut hi: u128 = 0x100_0000_0000;
    assert(n < hi * hi) by (nonlinear_arith)
        requires
            n < 0x1_0000_0000_0000_0000_0000,
            hi == 0x100_0000_0000,
    ;
    while hi - lo > 1
        invariant
            lo < hi <= 0x100_0000_0000,
            lo * lo <= n,
            n < hi * hi,
        decreases hi - lo,
    {
        let mid: u128 = lo + (hi - lo) / 2;
        assert(mid * mid <= 0x1_0000_0000_0000_0000_0000) by (nonlinear_arith)
            requires
                mid < 0x100_0000_0000,
        ;
        if mid * mid <= n {
            lo = mid;
        } else {
            hi = mid;
        }
    }
    assert(hi == lo + 1);
    proof {
        lemma_sqrt_floor(n as int, lo as int);
    }
    lo as u64
}

} // verus!
