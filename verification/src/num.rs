//! Fixed-point scalar arithmetic.
//!
//! A coordinate is an `i64` counting millionths of a world unit
//! (`SCALE` per unit), clamped to `[-MAX_XYZ, MAX_XYZ]`.  Products are
//! taken in `i128`, so no intermediate result can overflow, and every
//! operation is specified exactly over `int`.

use vstd::prelude::*;

verus! {

/// Fixed-point units per world unit.
pub const SCALE: i64 = 1_000_000;

/// Clamp ceiling for every coordinate: 10_000 world units.
pub const MAX_XYZ: i64 = 10_000_000_000;

/// A value clamped to the safe coordinate range.
pub open spec fn clamped(v: int) -> int {
    if v > MAX_XYZ as int {
        MAX_XYZ as int
    } else if v < -(MAX_XYZ as int) {
        -(MAX_XYZ as int)
    } else {
        v
    }
}

/// A cosine-domain value clamped to `[-SCALE, SCALE]`, i.e. `[-1, 1]`
/// in world units.
pub open spec fn cut_spec(v: int) -> int {
    if v > SCALE as int {
        SCALE as int
    } else if v < -(SCALE as int) {
        -(SCALE as int)
    } else {
        v
    }
}

/// Magnitude of an integer.
pub open spec fn abs_i(v: int) -> int {
    if v >= 0 {
        v
    } else {
        -v
    }
}

/// Truncating (round-toward-zero) integer division, as the machine
/// division performs it; 0 when the divisor is 0 (callers guard).
pub open spec fn tdiv(a: int, b: int) -> int {
    if b == 0 {
        0
    } else if a == 0 {
        0
    } else if a > 0 && b > 0 {
        a / b
    } else if a < 0 && b < 0 {
        (a * -1) / (b * -1)
    } else if a < 0 {
        ((a * -1) / b) * -1
    } else {
        (a / (b * -1)) * -1
    }
}

/// Division of a nonnegative dividend by a positive divisor, rounded
/// up: the result is zero exactly when the dividend is.
pub open spec fn cdiv(a: int, b: int) -> int {
    (a + b - 1) / b
}

/// Integer square root: the greatest `r` with `r * r <= n` (0 for `n <= 0`).
pub open spec fn isqrt_spec(n: int) -> int
    decreases n,
{
    if n <= 0 {
        0
    } else {
        let r = isqrt_spec(n - 1);
        if (r + 1) * (r + 1) <= n {
            r + 1
        } else {
            r
        }
    }
}

/// `isqrt_spec(n)` is nonnegative and squares to at most `n`, while the
/// next integer squares past `n`.
pub proof fn lemma_isqrt_bounds(n: int)
    requires
        n >= 0,
    ensures
        isqrt_spec(n) >= 0,
        isqrt_spec(n) * isqrt_spec(n) <= n,
        n < (isqrt_spec(n) + 1) * (isqrt_spec(n) + 1),
    decreases n,
{
    if n == 0 {
    } else {
        lemma_isqrt_bounds(n - 1);
        let r = isqrt_spec(n - 1);
        if (r + 1) * (r + 1) <= n {
            assert(n - 1 < (r + 1) * (r + 1));
            assert(n == (r + 1) * (r + 1));
            assert(n < (r + 2) * (r + 2)) by (nonlinear_arith)
                requires
                    r >= 0,
                    n == (r + 1) * (r + 1),
            ;
        }
    }
}

/// Any `r` whose square window contains `n` is `isqrt_spec(n)`.
pub proof fn lemma_isqrt_unique(n: int, r: int)
    requires
        n >= 0,
        r >= 0,
        r * r <= n,
        n < (r + 1) * (r + 1),
    ensures
        r == isqrt_spec(n),
{
    lemma_isqrt_bounds(n);
    let s = isqrt_spec(n);
    assert(r == s) by (nonlinear_arith)
        requires
            r >= 0,
            s >= 0,
            r * r <= n,
            n < (r + 1) * (r + 1),
            s * s <= n,
            n < (s + 1) * (s + 1),
    ;
}

/// The square root never decreases when its argument grows.
pub proof fn lemma_isqrt_monotone(m: int, n: int)
    requires
        0 <= m <= n,
    ensures
        isqrt_spec(m) <= isqrt_spec(n),
{
    lemma_isqrt_bounds(m);
    lemma_isqrt_bounds(n);
    let a = isqrt_spec(m);
    let b = isqrt_spec(n);
    assert(a <= b) by (nonlinear_arith)
        requires
            a >= 0,
            b >= 0,
            a * a <= m,
            m < (a + 1) * (a + 1),
            b * b <= n,
            n < (b + 1) * (b + 1),
            m <= n,
    ;
}

/// The product of two magnitude-bounded factors is magnitude-bounded.
pub proof fn lemma_mul_bound(a: int, b: int, aa: int, bb: int)
    by (nonlinear_arith)
    requires
        -aa <= a <= aa,
        -bb <= b <= bb,
        0 <= aa,
        0 <= bb,
    ensures
        -(aa * bb) <= a * b <= aa * bb,
{
}

/// A quotient is bounded by `m` whenever the dividend is within `m`
/// multiples of the divisor.
pub proof fn lemma_tdiv_range(a: int, b: int, m: int)
    requires
        b > 0,
        0 <= m,
        -(m * b) <= a <= m * b,
    ensures
        -m <= tdiv(a, b) <= m,
{
    if a > 0 {
        vstd::arithmetic::div_mod::lemma_div_pos_is_pos(a, b);
        vstd::arithmetic::div_mod::lemma_div_is_ordered(a, m * b, b);
        vstd::arithmetic::div_mod::lemma_div_multiples_vanish(m, b);
        assert(m * b == b * m) by (nonlinear_arith);
    } else if a < 0 {
        vstd::arithmetic::div_mod::lemma_div_pos_is_pos(a * -1, b);
        vstd::arithmetic::div_mod::lemma_div_is_ordered(a * -1, m * b, b);
        vstd::arithmetic::div_mod::lemma_div_multiples_vanish(m, b);
        assert(m * b == b * m) by (nonlinear_arith);
    }
}

/// Dividing an exact multiple recovers the factor.
pub proof fn lemma_tdiv_mul_exact(k: int, b: int)
    requires
        b > 0,
    ensures
        tdiv(k * b, b) == k,
{
    vstd::arithmetic::div_mod::lemma_div_multiples_vanish(k, b);
    assert(k * b == b * k) by (nonlinear_arith);
    if k > 0 {
        assert(k * b > 0) by (nonlinear_arith)
            requires
                k > 0,
                b > 0,
        ;
    } else if k < 0 {
        assert(k * b < 0) by (nonlinear_arith)
            requires
                k < 0,
                b > 0,
        ;
        assert((k * b) * -1 == (-k) * b) by (nonlinear_arith);
        vstd::arithmetic::div_mod::lemma_div_multiples_vanish(-k, b);
        assert((-k) * b == b * (-k)) by (nonlinear_arith);
    }
}

/// A number whose square stays under `(b + 1)^2` has magnitude at most `b`.
pub proof fn lemma_sq_within(a: int, b: int)
    by (nonlinear_arith)
    requires
        0 <= b,
        a * a < (b + 1) * (b + 1),
    ensures
        -b <= a <= b,
{
}

/// Clamp a wide intermediate back into the coordinate range.
pub fn clamp_c(v: i128) -> (r: i64)
    ensures
        r as int == clamped(v as int),
{
    if v > MAX_XYZ as i128 {
        MAX_XYZ
    } else if v < -(MAX_XYZ as i128) {
        -MAX_XYZ
    } else {
        v as i64
    }
}

/// Clamp a cosine-domain intermediate to `[-SCALE, SCALE]`.
pub fn cut_c(v: i128) -> (r: i64)
    ensures
        r as int == cut_spec(v as int),
{
    if v > SCALE as i128 {
        SCALE
    } else if v < -(SCALE as i128) {
        -SCALE
    } else {
        v as i64
    }
}

/// Widening product of two coordinates; `i128` cannot overflow here.
pub fn mul_ww(a: i64, b: i64) -> (r: i128)
    ensures
        r as int == a as int * b as int,
        -0x4000_0000_0000_0000_0000_0000_0000_0000 <= r
            <= 0x4000_0000_0000_0000_0000_0000_0000_0000,
{
    proof {
        lemma_mul_bound(a as int, b as int, 0x8000_0000_0000_0000, 0x8000_0000_0000_0000);
    }
    (a as i128) * (b as i128)
}

/// Product of two wide intermediates, under ghost magnitude bounds
/// that keep it inside `i128`.
pub(crate) fn mul_gg(a: i128, b: i128, Ghost(ga): Ghost<int>, Ghost(gb): Ghost<int>) -> (r: i128)
    requires
        0 <= ga,
        0 <= gb,
        -ga <= a <= ga,
        -gb <= b <= gb,
        ga * gb < 0x8000_0000_0000_0000_0000_0000_0000_0000,
    ensures
        r as int == a as int * b as int,
{
    proof {
        lemma_mul_bound(a as int, b as int, ga, gb);
    }
    a * b
}

/// Truncating division on wide intermediates; the quotient never
/// exceeds the dividend in magnitude.
pub fn tdiv_ww(a: i128, b: i128) -> (r: i128)
    requires
        b != 0,
        a != i128::MIN,
    ensures
        r as int == tdiv(a as int, b as int),
        (a as int) >= 0 ==> -(a as int) <= r <= a as int,
        (a as int) < 0 ==> a as int <= r <= -(a as int),
{
    proof {
        lemma_tdiv_abs_le(a as int, b as int);
    }
    let q = a.checked_div(b);
    q.unwrap()
}

/// The quotient never exceeds the dividend in magnitude.
pub proof fn lemma_tdiv_abs_le(a: int, b: int)
    requires
        b != 0,
    ensures
        a >= 0 ==> -a <= tdiv(a, b) <= a,
        a < 0 ==> a <= tdiv(a, b) <= -a,
{
    if a > 0 && b > 0 {
        vstd::arithmetic::div_mod::lemma_div_pos_is_pos(a, b);
        vstd::arithmetic::div_mod::lemma_div_nonincreasing(a, b);
    } else if a < 0 && b < 0 {
        vstd::arithmetic::div_mod::lemma_div_pos_is_pos(a * -1, b * -1);
        vstd::arithmetic::div_mod::lemma_div_nonincreasing(a * -1, b * -1);
    } else if a < 0 {
        vstd::arithmetic::div_mod::lemma_div_pos_is_pos(a * -1, b);
        vstd::arithmetic::div_mod::lemma_div_nonincreasing(a * -1, b);
    } else if a > 0 {
        vstd::arithmetic::div_mod::lemma_div_pos_is_pos(a, b * -1);
        vstd::arithmetic::div_mod::lemma_div_nonincreasing(a, b * -1);
    }
}

/// Division of a wide nonnegative intermediate, rounded up; zero
/// exactly when the dividend is.
pub fn cdiv_ww(a: i128, b: i128) -> (r: i128)
    requires
        0 <= a <= 0x1000_0000_0000_0000_0000_0000_0000_0000,
        0 < b <= 0x1000_0000_0000_0000_0000_0000_0000_0000,
    ensures
        r as int == cdiv(a as int, b as int),
        0 <= r <= a,
        (r == 0) == (a == 0),
{
    proof {
        lemma_cdiv_basics(a as int, b as int);
    }
    let q = (a + b - 1).checked_div(b);
    q.unwrap()
}

/// Rounded-up division stays between zero and its dividend, vanishing
/// exactly when the dividend does.
pub proof fn lemma_cdiv_basics(a: int, b: int)
    requires
        0 <= a,
        0 < b,
    ensures
        0 <= cdiv(a, b) <= a,
        (cdiv(a, b) == 0) == (a == 0),
{
    if a == 0 {
        vstd::arithmetic::div_mod::lemma_basic_div(b - 1, b);
    } else {
        vstd::arithmetic::div_mod::lemma_div_is_ordered(b, a + b - 1, b);
        vstd::arithmetic::div_mod::lemma_div_by_self(b);
        assert(a + b - 1 <= a * b) by (nonlinear_arith)
            requires
                a >= 1,
                b >= 1,
        ;
        vstd::arithmetic::div_mod::lemma_div_is_ordered(a + b - 1, a * b, b);
        vstd::arithmetic::div_mod::lemma_div_multiples_vanish(a, b);
        assert(a * b == b * a) by (nonlinear_arith);
    }
}

/// A flat index below `w * h` splits into a row below `h` and a column
/// below `w`.
pub proof fn lemma_flat_index(i: int, w: int, h: int)
    requires
        0 <= i < w * h,
        1 <= w,
    ensures
        0 <= i / w < h,
        0 <= i % w < w,
{
    vstd::arithmetic::div_mod::lemma_fundamental_div_mod(i, w);
    vstd::arithmetic::div_mod::lemma_mod_division_less_than_divisor(i, w);
    vstd::arithmetic::div_mod::lemma_div_pos_is_pos(i, w);
    assert(i / w < h) by (nonlinear_arith)
        requires
            i == w * (i / w) + i % w,
            0 <= i % w < w,
            i < w * h,
            1 <= w,
            0 <= i / w,
    ;
}

/// Integer square root of a wide intermediate.
pub fn isqrt_ww(n: i128) -> (r: i128)
    requires
        0 <= n < 0x1000_0000_0000_0000_0000_0000_0000_0000,
    ensures
        r as int == isqrt_spec(n as int),
        0 <= r,
{
    let nn = n as u128;
    let mut lo: u128 = 0;
    let mut hi: u128 = 0x8000_0000_0000_0000;
    proof {
        assert(hi as int * hi as int > nn as int) by (nonlinear_arith)
            requires
                hi == 0x8000_0000_0000_0000u128,
                nn < 0x1000_0000_0000_0000_0000_0000_0000_0000u128,
        ;
    }
    while hi - lo > 1
        invariant
            lo < hi <= 0x8000_0000_0000_0000,
            (lo * lo) as int <= nn as int,
            (hi * hi) as int > nn as int,
        decreases hi - lo,
    {
        let mid = lo + (hi - lo) / 2;
        proof {
            lemma_mul_bound(mid as int, mid as int, 0x8000_0000_0000_0000, 0x8000_0000_0000_0000);
        }
        if mid * mid <= nn {
            lo = mid;
        } else {
            hi = mid;
        }
    }
    proof {
        assert((lo + 1) * (lo + 1) > nn) by (nonlinear_arith)
            requires
                hi == lo + 1,
                (hi * hi) as int > nn as int,
        ;
        lemma_isqrt_unique(nn as int, lo as int);
    }
    lo as i128
}

} // verus!
