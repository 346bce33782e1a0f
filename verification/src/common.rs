//! The scalar type of the engine and its fixed-point arithmetic.
//!
//! A `Real` is an `i128` holding a real value scaled by `SCALE`: the raw
//! integer `65536` stands for the real number `1.0`. Products and quotients
//! round toward negative infinity. All geometry the engine accepts keeps its
//! coordinates within `COORD_MAX`, which leaves enough headroom in an `i128`
//! that every intermediate of the intersection and shading formulas fits.

use vstd::prelude::*;

verus! {

use vstd::arithmetic::div_mod::{
    lemma_div_is_ordered, lemma_div_nonincreasing, lemma_div_pos_is_pos,
    lemma_fundamental_div_mod, lemma_fundamental_div_mod_converse_div, lemma_mod_bound,
};

/// The engine's scalar: a real number scaled by `SCALE`.
pub type Real = i128;

/// Fixed-point scale: raw value of the real number one.
pub const SCALE: i128 = 65536;

/// Largest raw magnitude allowed for a scene coordinate, radius or color
/// channel (about one million in real units).
pub const COORD_MAX: i128 = 0x10_0000_0000;

/// Largest raw product two factors handed to `fixed_mul` may form.
pub const PROD_MAX: i128 = 0x100_0000_0000_0000_0000_0000_0000_0000;

/// Largest raw magnitude a dividend handed to `div_floor` may have.
pub const DIVIDEND_MAX: i128 = 0x4000_0000_0000_0000_0000_0000_0000_0000;

/// Fixed-point product: the raw product of two scalars, rescaled, rounding
/// toward negative infinity.
pub open spec fn fmul(a: int, b: int) -> int {
    (a * b) / (SCALE as int)
}

/// `r` is the integer square root of `n`.
pub open spec fn is_sqrt_of(n: int, r: int) -> bool {
    0 <= r && r * r <= n && n < (r + 1) * (r + 1)
}

/// The integer square root (floor of the exact square root) of `n`.
pub open spec fn spec_isqrt(n: int) -> int {
    choose|r: int| is_sqrt_of(n, r)
}

/// Fixed-point exponentiation by a whole-number exponent.
pub open spec fn spec_pow_fixed(base: int, e: nat) -> int
    decreases e,
{
    if e == 0 {
        SCALE as int
    } else {
        fmul(base, spec_pow_fixed(base, (e - 1) as nat))
    }
}

/// Magnitude bound of a product from magnitude bounds of its factors.
pub proof fn lemma_mul_abs_bound(a: int, b: int, aa: int, bb: int)
    requires
        -aa <= a <= aa,
        -bb <= b <= bb,
    ensures
        -(aa * bb) <= a * b <= aa * bb,
{
    assert(-(aa * bb) <= a * b <= aa * bb) by (nonlinear_arith)
        requires
            -aa <= a <= aa,
            -bb <= b <= bb,
    ;
}

/// A floored quotient keeps the sign region of its dividend and never grows
/// in magnitude when the divisor is at least one.
pub proof fn lemma_div_floor_bounds(x: int, d: int)
    requires
        1 <= d,
    ensures
        x >= 0 ==> 0 <= x / d <= x,
        x < 0 ==> x <= x / d <= 0,
{
    if x >= 0 {
        lemma_div_pos_is_pos(x, d);
        lemma_div_nonincreasing(x, d);
    } else {
        lemma_fundamental_div_mod(x, d);
        assert(0 <= x % d < d);
        let q = x / d;
        assert(x == d * q + x % d);
        assert(q <= 0) by (nonlinear_arith)
            requires
                x < 0,
                1 <= d,
                x == d * q + x % d,
                0 <= x % d < d,
        ;
        assert(x <= q) by (nonlinear_arith)
            requires
                x < 0,
                1 <= d,
                q <= 0,
                x == d * q + x % d,
                0 <= x % d < d,
        ;
    }
}

/// Magnitude bound of a fixed-point product from bounds of its factors: the
/// coarse raw-product bound, and the rescaled bound off by at most one unit.
pub proof fn lemma_fmul_abs_bound(a: int, b: int, aa: int, bb: int)
    requires
        -aa <= a <= aa,
        -bb <= b <= bb,
    ensures
        -(aa * bb) <= fmul(a, b) <= aa * bb,
        -((aa * bb) / (SCALE as int)) - 1 <= fmul(a, b) <= (aa * bb) / (SCALE as int),
{
    let s = SCALE as int;
    let y = aa * bb;
    lemma_mul_abs_bound(a, b, aa, bb);
    lemma_div_floor_bounds(a * b, s);
    assert(0 <= y) by (nonlinear_arith)
        requires
            y == aa * bb,
            -aa <= a <= aa,
            -bb <= b <= bb,
    ;
    lemma_div_is_ordered(a * b, y, s);
    lemma_div_is_ordered(-y, a * b, s);
    lemma_fundamental_div_mod(y, s);
    lemma_mod_bound(y, s);
    lemma_fundamental_div_mod(-y, s);
    lemma_mod_bound(-y, s);
    assert((-y) / s >= -(y / s) - 1) by (nonlinear_arith)
        requires
            s == 65536,
            y == s * (y / s) + y % s,
            0 <= y % s < s,
            -y == s * ((-y) / s) + (-y) % s,
            0 <= (-y) % s < s,
    ;
}

/// A fixed-point product stays under a caller-chosen cap once the raw product
/// of the factor bounds stays under the rescaled cap.
pub proof fn lemma_fmul_cap(a: int, b: int, aa: int, bb: int, cap: int)
    requires
        -aa <= a <= aa,
        -bb <= b <= bb,
        0 <= aa,
        0 <= bb,
        aa * bb <= cap * SCALE,
    ensures
        -cap - 1 <= fmul(a, b) <= cap,
{
    lemma_fmul_abs_bound(a, b, aa, bb);
    lemma_mul_abs_bound(a, b, aa, bb);
    lemma_div_is_ordered(a * b, cap * SCALE, SCALE as int);
    lemma_div_is_ordered(-(cap * SCALE), a * b, SCALE as int);
    vstd::arithmetic::div_mod::lemma_div_multiples_vanish(cap, SCALE as int);
    vstd::arithmetic::div_mod::lemma_div_multiples_vanish(-cap, SCALE as int);
    assert(cap * SCALE == SCALE as int * cap) by (nonlinear_arith);
    assert(-(cap * SCALE) == SCALE as int * -cap) by (nonlinear_arith);
}

/// An integer square root exists for every nonnegative integer, so
/// `spec_isqrt` satisfies its defining property.
pub proof fn lemma_isqrt_exists(n: int)
    requires
        0 <= n,
    ensures
        is_sqrt_of(n, spec_isqrt(n)),
    decreases n,
{
    if n == 0 {
        assert(is_sqrt_of(0, 0));
    } else {
        lemma_isqrt_exists(n - 1);
        let r = spec_isqrt(n - 1);
        if (r + 1) * (r + 1) <= n {
            assert(n == (r + 1) * (r + 1));
            assert(is_sqrt_of(n, r + 1)) by (nonlinear_arith)
                requires
                    n == (r + 1) * (r + 1),
                    0 <= r,
            ;
        } else {
            assert(is_sqrt_of(n, r));
        }
    }
    assert(exists|r: int| is_sqrt_of(n, r));
}

/// The integer square root is unique.
pub proof fn lemma_isqrt_unique(n: int, r1: int, r2: int)
    requires
        is_sqrt_of(n, r1),
        is_sqrt_of(n, r2),
    ensures
        r1 == r2,
{
    assert(r1 == r2) by (nonlinear_arith)
        requires
            0 <= r1 && r1 * r1 <= n && n < (r1 + 1) * (r1 + 1),
            0 <= r2 && r2 * r2 <= n && n < (r2 + 1) * (r2 + 1),
    ;
}

/// Quotient of `x` by `d`, rounded toward negative infinity.
pub fn div_floor(x: i128, d: i128) -> (q: i128)
    requires
        1 <= d,
        -DIVIDEND_MAX <= x <= DIVIDEND_MAX,
    ensures
        q == x as int / d as int,
{
    proof {
        lemma_div_floor_bounds(x as int, d as int);
    }
    if x >= 0 {
        ((x as u128) / (d as u128)) as i128
    } else {
        let y: i128 = -x;
        let qy: u128 = (y as u128) / (d as u128);
        let ry: u128 = (y as u128) % (d as u128);
        proof {
            lemma_fundamental_div_mod(y as int, d as int);
            lemma_div_pos_is_pos(y as int, d as int);
            lemma_div_nonincreasing(y as int, d as int);
            if ry == 0 {
                assert(x as int == (-(qy as int)) * (d as int) + 0) by (nonlinear_arith)
                    requires
                        y as int == d as int * (qy as int) + (ry as int),
                        x as int == -(y as int),
                        ry as int == 0,
                ;
                lemma_fundamental_div_mod_converse_div(x as int, d as int, -(qy as int), 0);
            } else {
                assert(x as int == (-(qy as int) - 1) * (d as int) + (d as int - ry as int))
                    by (nonlinear_arith)
                    requires
                        y as int == d as int * (qy as int) + (ry as int),
                        x as int == -(y as int),
                ;
                lemma_fundamental_div_mod_converse_div(
                    x as int,
                    d as int,
                    -(qy as int) - 1,
                    d as int - ry as int,
                );
            }
        }
        if ry == 0 {
            -(qy as i128)
        } else {
            -(qy as i128) - 1
        }
    }
}

/// Fixed-point product of two scalars.
pub fn fixed_mul(a: i128, b: i128) -> (r: i128)
    requires
        -PROD_MAX <= a as int * b as int <= PROD_MAX,
    ensures
        r == fmul(a as int, b as int),
{
    let p: i128 = a * b;
    div_floor(p, SCALE)
}

/// Integer square root of a nonnegative scalar.
pub fn isqrt(n: i128) -> (r: i128)
    requires
        0 <= n < DIVIDEND_MAX,
    ensures
        r == spec_isqrt(n as int),
        is_sqrt_of(n as int, r as int),
{
    let nn: u128 = n as u128;
    let mut lo: u128 = 0;
    let mut hi: u128 = 0x8000_0000_0000_0000;
    proof {
        assert((nn as int) < (hi as int) * (hi as int)) by (nonlinear_arith)
            requires
                (nn as int) < DIVIDEND_MAX as int,
                DIVIDEND_MAX as int == 0x4000_0000_0000_0000_0000_0000_0000_0000,
                hi as int == 0x8000_0000_0000_0000,
        ;
    }
    while hi - lo > 1
        invariant
            lo < hi <= 0x8000_0000_0000_0000,
            (lo as int) * (lo as int) <= nn as int,
            (nn as int) < (hi as int) * (hi as int),
        decreases hi - lo,
    {
        let mid: u128 = lo + (hi - lo) / 2;
        proof {
            assert((mid as int) * (mid as int) <= 0x8000_0000_0000_0000 * 0x8000_0000_0000_0000)
                by (nonlinear_arith)
                requires
                    0 <= mid as int <= 0x8000_0000_0000_0000,
            ;
        }
        if mid * mid <= nn {
            lo = mid;
        } else {
            hi = mid;
        }
    }
    proof {
        assert(is_sqrt_of(nn as int, lo as int));
        lemma_isqrt_exists(nn as int);
        lemma_isqrt_unique(nn as int, lo as int, spec_isqrt(nn as int));
    }
    lo as i128
}

/// Fixed-point power with a whole-number exponent; the base must lie in
/// `[0, 1]` so repeated products stay there.
pub fn pow_fixed(base: i128, e: u32) -> (r: i128)
    requires
        0 <= base <= SCALE,
    ensures
        r == spec_pow_fixed(base as int, e as nat),
        0 <= r <= SCALE,
{
    let mut acc: i128 = SCALE;
    let mut i: u32 = 0;
    while i < e
        invariant
            0 <= i <= e,
            0 <= base <= SCALE,
            0 <= acc <= SCALE,
            acc == spec_pow_fixed(base as int, i as nat),
        decreases e - i,
    {
        proof {
            lemma_mul_abs_bound(base as int, acc as int, SCALE as int, SCALE as int);
            lemma_div_floor_bounds(base as int * acc as int, SCALE as int);
            lemma_div_is_ordered(base as int * acc as int, SCALE as int * SCALE as int, SCALE as int);
            assert(SCALE as int * SCALE as int / SCALE as int == SCALE as int);
        }
        acc = fixed_mul(base, acc);
        i = i + 1;
    }
    acc
}

} // verus!
