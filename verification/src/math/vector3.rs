//! Three-component vectors.
//!
//! `Vector3T` is the storage type; the engine works with `Vector3`, its
//! instantiation at the fixed-point scalar. Every executable operation is
//! specified exactly against `Vec3M`, the vector's mathematical model over
//! unbounded integers.

use vstd::prelude::*;

verus! {

use crate::common::{
    fmul, lemma_div_floor_bounds, lemma_fmul_abs_bound, lemma_isqrt_exists, lemma_mul_abs_bound,
    spec_isqrt, div_floor, isqrt, Real, DIVIDEND_MAX, PROD_MAX, SCALE,
};
use vstd::arithmetic::div_mod::{
    lemma_div_is_ordered, lemma_div_multiples_vanish, lemma_div_pos_is_pos,
};

/// Marker for scalar types the engine's vectors may carry.
pub trait Numerics {

}

impl Numerics for i128 {

}

/// A three-component vector over any scalar type.
#[derive(Clone, Copy, Debug, PartialEq, Eq, Structural)]
pub struct Vector3T<T> {
    pub x: T,
    pub y: T,
    pub z: T,
}

impl<T> Vector3T<T> {
    pub fn new(x: T, y: T, z: T) -> (v: Self)
        ensures
            v.x == x,
            v.y == y,
            v.z == z,
    {
        Self { x, y, z }
    }
}

/// The engine's vector: three fixed-point scalars.
pub type Vector3 = Vector3T<Real>;

/// Mathematical model of a `Vector3`: its components as unbounded integers.
pub ghost struct Vec3M {
    pub x: int,
    pub y: int,
    pub z: int,
}

impl Vec3M {
    /// Every component within `[-m, m]`.
    pub open spec fn bounded(self, m: int) -> bool {
        &&& -m <= self.x <= m
        &&& -m <= self.y <= m
        &&& -m <= self.z <= m
    }

    pub open spec fn plus(self, o: Vec3M) -> Vec3M {
        Vec3M { x: self.x + o.x, y: self.y + o.y, z: self.z + o.z }
    }

    pub open spec fn minus(self, o: Vec3M) -> Vec3M {
        Vec3M { x: self.x - o.x, y: self.y - o.y, z: self.z - o.z }
    }

    pub open spec fn neg(self) -> Vec3M {
        Vec3M { x: -self.x, y: -self.y, z: -self.z }
    }

    /// Each component multiplied by the fixed-point scalar `t`.
    pub open spec fn scaled(self, t: int) -> Vec3M {
        Vec3M { x: fmul(self.x, t), y: fmul(self.y, t), z: fmul(self.z, t) }
    }

    /// Fixed-point dot product.
    pub open spec fn dot(self, o: Vec3M) -> int {
        fmul(self.x, o.x) + fmul(self.y, o.y) + fmul(self.z, o.z)
    }

    /// Squared length in fixed-point units.
    pub open spec fn sq_len(self) -> int {
        self.dot(self)
    }

    /// Fixed-point length: the integer square root of the rescaled squared
    /// length.
    pub open spec fn len(self) -> int {
        spec_isqrt(self.sq_len() * SCALE)
    }

    /// The vector divided by its fixed-point length, component by component.
    pub open spec fn normalized(self) -> Vec3M {
        Vec3M {
            x: (self.x * SCALE) / self.len(),
            y: (self.y * SCALE) / self.len(),
            z: (self.z * SCALE) / self.len(),
        }
    }

    /// Componentwise fixed-point reciprocal, rounded toward zero; a zero
    /// component has reciprocal zero by convention (the cached reciprocal is
    /// reserved for slab tests and never read by the current algorithms).
    pub open spec fn recip(self) -> Vec3M {
        Vec3M { x: recip1(self.x), y: recip1(self.y), z: recip1(self.z) }
    }
}

/// Fixed-point reciprocal of one scalar, rounded toward zero.
pub open spec fn recip1(c: int) -> int {
    if c == 0 {
        0
    } else if c > 0 {
        (SCALE * SCALE) / c
    } else {
        -((SCALE * SCALE) / (-c))
    }
}

/// Largest component magnitude accepted by componentwise sums.
pub const VEC_LIMIT: i128 = 0x2000_0000_0000_0000_0000_0000_0000_0000;

/// Largest component magnitude accepted by products (dot, length, normalize).
pub const DOT_LIMIT: i128 = 0x1000_0000_0000_0000;

/// Largest component magnitude accepted as the vector argument of `scaled`.
pub const SCALED_VEC_LIMIT: i128 = 0x100_0000_0000;

/// Largest scalar magnitude accepted as the factor argument of `scaled`.
pub const SCALED_T_LIMIT: i128 = 0x1_0000_0000_0000_0000_0000;

impl Vector3T<Real> {
    /// The vector's mathematical model.
    pub open spec fn model(self) -> Vec3M {
        Vec3M { x: self.x as int, y: self.y as int, z: self.z as int }
    }

    pub fn plus(&self, o: &Vector3) -> (r: Vector3)
        requires
            self.model().bounded(VEC_LIMIT as int),
            o.model().bounded(VEC_LIMIT as int),
        ensures
            r.model() == self.model().plus(o.model()),
    {
        Vector3T { x: self.x + o.x, y: self.y + o.y, z: self.z + o.z }
    }

    pub fn minus(&self, o: &Vector3) -> (r: Vector3)
        requires
            self.model().bounded(VEC_LIMIT as int),
            o.model().bounded(VEC_LIMIT as int),
        ensures
            r.model() == self.model().minus(o.model()),
    {
        Vector3T { x: self.x - o.x, y: self.y - o.y, z: self.z - o.z }
    }

    pub fn neg(&self) -> (r: Vector3)
        requires
            self.model().bounded(VEC_LIMIT as int),
        ensures
            r.model() == self.model().neg(),
    {
        Vector3T { x: -self.x, y: -self.y, z: -self.z }
    }

    pub fn scaled(&self, t: Real) -> (r: Vector3)
        requires
            self.model().bounded(SCALED_VEC_LIMIT as int),
            -SCALED_T_LIMIT <= t <= SCALED_T_LIMIT,
        ensures
            r.model() == self.model().scaled(t as int),
    {
        proof {
            lemma_mul_abs_bound(self.x as int, t as int, SCALED_VEC_LIMIT as int, SCALED_T_LIMIT as int);
            lemma_mul_abs_bound(self.y as int, t as int, SCALED_VEC_LIMIT as int, SCALED_T_LIMIT as int);
            lemma_mul_abs_bound(self.z as int, t as int, SCALED_VEC_LIMIT as int, SCALED_T_LIMIT as int);
        }
        Vector3T {
            x: crate::common::fixed_mul(self.x, t),
            y: crate::common::fixed_mul(self.y, t),
            z: crate::common::fixed_mul(self.z, t),
        }
    }

    pub fn dot(&self, o: &Vector3) -> (r: Real)
        requires
            self.model().bounded(DOT_LIMIT as int),
            o.model().bounded(DOT_LIMIT as int),
        ensures
            r == self.model().dot(o.model()),
    {
        proof {
            lemma_mul_abs_bound(self.x as int, o.x as int, DOT_LIMIT as int, DOT_LIMIT as int);
            lemma_mul_abs_bound(self.y as int, o.y as int, DOT_LIMIT as int, DOT_LIMIT as int);
            lemma_mul_abs_bound(self.z as int, o.z as int, DOT_LIMIT as int, DOT_LIMIT as int);
            lemma_fmul_abs_bound(self.x as int, o.x as int, DOT_LIMIT as int, DOT_LIMIT as int);
            lemma_fmul_abs_bound(self.y as int, o.y as int, DOT_LIMIT as int, DOT_LIMIT as int);
            lemma_fmul_abs_bound(self.z as int, o.z as int, DOT_LIMIT as int, DOT_LIMIT as int);
        }
        let tx: i128 = crate::common::fixed_mul(self.x, o.x);
        let ty: i128 = crate::common::fixed_mul(self.y, o.y);
        let tz: i128 = crate::common::fixed_mul(self.z, o.z);
        tx + ty + tz
    }

    /// Fixed-point length of the vector.
    pub fn length(&self) -> (r: Real)
        requires
            self.model().bounded(DOT_LIMIT as int),
        ensures
            r == self.model().len(),
            is_sqrt_of_len(self.model(), r as int),
    {
        let sq: i128 = self.dot(self);
        proof {
            lemma_sq_len_nonneg(self.model());
            lemma_dot_abs_bound(self.model(), self.model(), DOT_LIMIT as int);
            assert((sq as int) * (SCALE as int) < DIVIDEND_MAX as int) by (nonlinear_arith)
                requires
                    0 <= sq as int,
                    sq as int <= 3 * ((DOT_LIMIT as int * DOT_LIMIT as int) / (SCALE as int)) + 3,
                    DOT_LIMIT as int == 0x1000_0000_0000_0000,
                    SCALE as int == 65536,
                    DIVIDEND_MAX as int == 0x4000_0000_0000_0000_0000_0000_0000_0000,
            ;
        }
        isqrt(sq * SCALE)
    }

    /// The vector scaled to fixed-point unit length (rounding toward negative
    /// infinity component by component). The squared length must be at least
    /// one raw unit; `lemma_normalized_near_unit` bounds how far the result
    /// strays from exact unit length.
    pub fn normalize(&self) -> (r: Vector3)
        requires
            self.model().bounded(DOT_LIMIT as int),
            self.model().sq_len() >= 1,
        ensures
            r.model() == self.model().normalized(),
            r.model().bounded(3 * SCALE as int),
    {
        let len: i128 = self.length();
        proof {
            lemma_len_lower(self.model());
            lemma_normalized_bounded(self.model());
            lemma_div_floor_bounds(self.x as int * SCALE as int, len as int);
            lemma_div_floor_bounds(self.y as int * SCALE as int, len as int);
            lemma_div_floor_bounds(self.z as int * SCALE as int, len as int);
            lemma_mul_abs_bound(self.x as int, SCALE as int, DOT_LIMIT as int, SCALE as int);
            lemma_mul_abs_bound(self.y as int, SCALE as int, DOT_LIMIT as int, SCALE as int);
            lemma_mul_abs_bound(self.z as int, SCALE as int, DOT_LIMIT as int, SCALE as int);
        }
        Vector3T {
            x: div_floor(self.x * SCALE, len),
            y: div_floor(self.y * SCALE, len),
            z: div_floor(self.z * SCALE, len),
        }
    }

    /// Whether every component lies within `[-m, m]`.
    pub fn bounded_by(&self, m: Real) -> (r: bool)
        requires
            0 <= m,
        ensures
            r == self.model().bounded(m as int),
    {
        -m <= self.x && self.x <= m && -m <= self.y && self.y <= m && -m <= self.z && self.z <= m
    }

    /// Componentwise fixed-point reciprocal; zero components map to zero.
    pub fn reciprocal(&self) -> (r: Vector3)
        requires
            self.model().bounded(VEC_LIMIT as int),
        ensures
            r.model() == self.model().recip(),
    {
        Vector3T {
            x: recip_exec(self.x),
            y: recip_exec(self.y),
            z: recip_exec(self.z),
        }
    }
}

fn recip_exec(c: i128) -> (r: i128)
    requires
        -VEC_LIMIT <= c <= VEC_LIMIT,
    ensures
        r == recip1(c as int),
{
    if c == 0 {
        0
    } else if c > 0 {
        div_floor(SCALE * SCALE, c)
    } else {
        proof {
            lemma_div_floor_bounds(SCALE as int * SCALE as int, -(c as int));
        }
        -div_floor(SCALE * SCALE, -c)
    }
}

/// `r` is the integer square root of the rescaled squared length of `v`.
pub open spec fn is_sqrt_of_len(v: Vec3M, r: int) -> bool {
    crate::common::is_sqrt_of(v.sq_len() * SCALE, r)
}

/// A dot product of a vector with itself is nonnegative.
pub proof fn lemma_sq_len_nonneg(v: Vec3M)
    ensures
        v.sq_len() >= 0,
{
    lemma_self_fmul_nonneg(v.x);
    lemma_self_fmul_nonneg(v.y);
    lemma_self_fmul_nonneg(v.z);
}

/// The fixed-point square of a scalar is nonnegative.
pub proof fn lemma_self_fmul_nonneg(c: int)
    ensures
        fmul(c, c) >= 0,
{
    assert(c * c >= 0) by (nonlinear_arith);
    lemma_div_pos_is_pos(c * c, SCALE as int);
}

/// Magnitude bound of a dot product from a shared component bound.
pub proof fn lemma_dot_abs_bound(a: Vec3M, b: Vec3M, m: int)
    requires
        a.bounded(m),
        b.bounded(m),
        0 <= m,
    ensures
        -3 * ((m * m) / (SCALE as int)) - 3 <= a.dot(b) <= 3 * ((m * m) / (SCALE as int)) + 3,
{
    lemma_fmul_abs_bound(a.x, b.x, m, m);
    lemma_fmul_abs_bound(a.y, b.y, m, m);
    lemma_fmul_abs_bound(a.z, b.z, m, m);
}

/// A dot product stays under three times a caller-chosen cap (plus rounding)
/// once the raw product of the component bound with itself stays under the
/// rescaled cap.
pub proof fn lemma_dot_cap(a: Vec3M, b: Vec3M, m: int, cap: int)
    requires
        a.bounded(m),
        b.bounded(m),
        0 <= m,
        m * m <= cap * SCALE,
    ensures
        -3 * cap - 3 <= a.dot(b) <= 3 * cap + 3,
{
    crate::common::lemma_fmul_cap(a.x, b.x, m, m, cap);
    crate::common::lemma_fmul_cap(a.y, b.y, m, m, cap);
    crate::common::lemma_fmul_cap(a.z, b.z, m, m, cap);
}

/// A vector of squared length at least one has fixed-point length at least
/// `SCALE / 256`.
pub proof fn lemma_len_lower(v: Vec3M)
    requires
        v.sq_len() >= 1,
    ensures
        v.len() >= 256,
{
    lemma_isqrt_exists(v.sq_len() * SCALE);
    assert(v.len() >= 256) by (nonlinear_arith)
        requires
            v.sq_len() >= 1,
            crate::common::is_sqrt_of(v.sq_len() * SCALE, v.len()),
            SCALE as int == 65536,
    ;
}

/// Normalizing a vector of squared length at least one yields components of
/// magnitude at most three (in fixed-point units).
pub proof fn lemma_normalized_bounded(v: Vec3M)
    requires
        v.bounded(DOT_LIMIT as int),
        v.sq_len() >= 1,
    ensures
        v.normalized().bounded(3 * SCALE as int),
{
    lemma_len_lower(v);
    lemma_isqrt_exists(v.sq_len() * SCALE);
    lemma_self_fmul_nonneg(v.x);
    lemma_self_fmul_nonneg(v.y);
    lemma_self_fmul_nonneg(v.z);
    lemma_normalized_component_bounded(v.x, v);
    lemma_normalized_component_bounded(v.y, v);
    lemma_normalized_component_bounded(v.z, v);
}

/// Negating a vector keeps its squared length.
pub proof fn lemma_neg_sq_len(v: Vec3M)
    ensures
        v.neg().sq_len() == v.sq_len(),
{
    assert((-v.x) * (-v.x) == v.x * v.x) by (nonlinear_arith);
    assert((-v.y) * (-v.y) == v.y * v.y) by (nonlinear_arith);
    assert((-v.z) * (-v.z) == v.z * v.z) by (nonlinear_arith);
}

/// A normalized vector has fixed-point unit length up to a small quantization
/// error: its squared length is at least `SCALE - 16` always, and at most
/// `SCALE + 16` once the input is at least one unit long (shorter inputs have
/// proportionally larger rounding error).
#[verifier::rlimit(100)]
pub proof fn lemma_normalized_near_unit(v: Vec3M)
    requires
        v.bounded(DOT_LIMIT as int),
        v.sq_len() >= 1,
    ensures
        v.normalized().sq_len() >= SCALE as int - 16,
        v.sq_len() >= SCALE as int ==> v.normalized().sq_len() <= SCALE as int + 16,
{
    let s = SCALE as int;
    let d = v.sq_len();
    let ll = v.len();
    let n = v.normalized();
    lemma_len_lower(v);
    lemma_isqrt_exists(d * s);
    // Decompose each division by the length exactly.
    let w1 = (v.x * s) % ll;
    let w2 = (v.y * s) % ll;
    let w3 = (v.z * s) % ll;
    assert(v.x * s == ll * n.x + w1 && 0 <= w1 < ll && v.y * s == ll * n.y + w2 && 0 <= w2 < ll
        && v.z * s == ll * n.z + w3 && 0 <= w3 < ll) by {
        vstd::arithmetic::div_mod::lemma_fundamental_div_mod(v.x * s, ll);
        vstd::arithmetic::div_mod::lemma_mod_bound(v.x * s, ll);
        vstd::arithmetic::div_mod::lemma_fundamental_div_mod(v.y * s, ll);
        vstd::arithmetic::div_mod::lemma_mod_bound(v.y * s, ll);
        vstd::arithmetic::div_mod::lemma_fundamental_div_mod(v.z * s, ll);
        vstd::arithmetic::div_mod::lemma_mod_bound(v.z * s, ll);
    }
    // Decompose the fixed-point squares of the input's components.
    let p1 = (v.x * v.x) % s;
    let p2 = (v.y * v.y) % s;
    let p3 = (v.z * v.z) % s;
    assert(v.x * v.x == s * fmul(v.x, v.x) + p1 && 0 <= p1 < s && v.y * v.y == s * fmul(v.y, v.y)
        + p2 && 0 <= p2 < s && v.z * v.z == s * fmul(v.z, v.z) + p3 && 0 <= p3 < s) by {
        vstd::arithmetic::div_mod::lemma_fundamental_div_mod(v.x * v.x, s);
        vstd::arithmetic::div_mod::lemma_mod_bound(v.x * v.x, s);
        vstd::arithmetic::div_mod::lemma_fundamental_div_mod(v.y * v.y, s);
        vstd::arithmetic::div_mod::lemma_mod_bound(v.y * v.y, s);
        vstd::arithmetic::div_mod::lemma_fundamental_div_mod(v.z * v.z, s);
        vstd::arithmetic::div_mod::lemma_mod_bound(v.z * v.z, s);
    }
    let sumv = v.x * v.x + v.y * v.y + v.z * v.z;
    assert(s * d <= sumv && sumv <= s * d + 3 * s - 3) by (nonlinear_arith)
        requires
            d == fmul(v.x, v.x) + fmul(v.y, v.y) + fmul(v.z, v.z),
            sumv == v.x * v.x + v.y * v.y + v.z * v.z,
            v.x * v.x == s * fmul(v.x, v.x) + p1,
            v.y * v.y == s * fmul(v.y, v.y) + p2,
            v.z * v.z == s * fmul(v.z, v.z) + p3,
            0 <= p1 < s,
            0 <= p2 < s,
            0 <= p3 < s,
            s == 65536,
    ;
    // Components cannot be much longer than the vector's length.
    assert(v.x * v.x <= sumv && v.y * v.y <= sumv && v.z * v.z <= sumv) by (nonlinear_arith)
        requires
            sumv == v.x * v.x + v.y * v.y + v.z * v.z,
    ;
    assert(-(ll + 257) <= v.x <= ll + 257 && -(ll + 257) <= v.y <= ll + 257 && -(ll + 257) <= v.z
        <= ll + 257) by (nonlinear_arith)
        requires
            v.x * v.x <= sumv,
            v.y * v.y <= sumv,
            v.z * v.z <= sumv,
            sumv <= s * d + 3 * s - 3,
            s * d < (ll + 1) * (ll + 1),
            ll >= 256,
            s == 65536,
    ;
    // Each squared normalized component against the exact quotient square.
    let sumn = n.x * n.x + n.y * n.y + n.z * n.z;
    assert((ll * n.x) * (ll * n.x) >= (v.x * s) * (v.x * s) - 2 * ll * s * (ll + 257)
        && (ll * n.x) * (ll * n.x) <= (v.x * s) * (v.x * s) + 2 * ll * s * (ll + 257) + ll * ll)
        by (nonlinear_arith)
        requires
            v.x * s == ll * n.x + w1,
            0 <= w1 < ll,
            -(ll + 257) <= v.x <= ll + 257,
            ll >= 256,
            s == 65536,
    ;
    assert((ll * n.y) * (ll * n.y) >= (v.y * s) * (v.y * s) - 2 * ll * s * (ll + 257)
        && (ll * n.y) * (ll * n.y) <= (v.y * s) * (v.y * s) + 2 * ll * s * (ll + 257) + ll * ll)
        by (nonlinear_arith)
        requires
            v.y * s == ll * n.y + w2,
            0 <= w2 < ll,
            -(ll + 257) <= v.y <= ll + 257,
            ll >= 256,
            s == 65536,
    ;
    assert((ll * n.z) * (ll * n.z) >= (v.z * s) * (v.z * s) - 2 * ll * s * (ll + 257)
        && (ll * n.z) * (ll * n.z) <= (v.z * s) * (v.z * s) + 2 * ll * s * (ll + 257) + ll * ll)
        by (nonlinear_arith)
        requires
            v.z * s == ll * n.z + w3,
            0 <= w3 < ll,
            -(ll + 257) <= v.z <= ll + 257,
            ll >= 256,
            s == 65536,
    ;
    // Sum the three components and divide by the squared length.
    assert(ll * ll * sumn == (ll * n.x) * (ll * n.x) + (ll * n.y) * (ll * n.y) + (ll * n.z) * (ll
        * n.z)) by (nonlinear_arith)
        requires
            sumn == n.x * n.x + n.y * n.y + n.z * n.z,
    ;
    assert(s * s * sumv == (v.x * s) * (v.x * s) + (v.y * s) * (v.y * s) + (v.z * s) * (v.z * s))
        by (nonlinear_arith)
        requires
            sumv == v.x * v.x + v.y * v.y + v.z * v.z,
    ;
    assert(2 * ll * s * (ll + 257) == 2 * s * (ll * ll) + 514 * s * ll) by (nonlinear_arith);
    assert(s * s * sumv >= (s * s) * (ll * ll)) by (nonlinear_arith)
        requires
            sumv >= ll * ll,
            s == 65536,
    ;
    assert(sumv >= ll * ll);
    assert(ll * ll * sumn >= (s * s) * (ll * ll) - 6 * s * (ll * ll) - 1542 * s * ll)
        by (nonlinear_arith)
        requires
            ll * ll * sumn == (ll * n.x) * (ll * n.x) + (ll * n.y) * (ll * n.y) + (ll * n.z) * (ll
                * n.z),
            (ll * n.x) * (ll * n.x) >= (v.x * s) * (v.x * s) - 2 * ll * s * (ll + 257),
            (ll * n.y) * (ll * n.y) >= (v.y * s) * (v.y * s) - 2 * ll * s * (ll + 257),
            (ll * n.z) * (ll * n.z) >= (v.z * s) * (v.z * s) - 2 * ll * s * (ll + 257),
            s * s * sumv == (v.x * s) * (v.x * s) + (v.y * s) * (v.y * s) + (v.z * s) * (v.z * s),
            s * s * sumv >= (s * s) * (ll * ll),
            2 * ll * s * (ll + 257) == 2 * s * (ll * ll) + 514 * s * ll,
    ;
    assert(ll * ll * sumn >= ll * ll * (s * s - 13 * s)) by (nonlinear_arith)
        requires
            ll * ll * sumn >= (s * s) * (ll * ll) - 6 * s * (ll * ll) - 1542 * s * ll,
            ll >= 256,
            s == 65536,
    ;
    assert(sumn >= s * s - 13 * s) by (nonlinear_arith)
        requires
            ll * ll * sumn >= ll * ll * (s * s - 13 * s),
            ll >= 256,
    ;
    // Decompose the fixed-point squares of the normalized components.
    let q1 = (n.x * n.x) % s;
    let q2 = (n.y * n.y) % s;
    let q3 = (n.z * n.z) % s;
    assert(n.x * n.x == s * fmul(n.x, n.x) + q1 && 0 <= q1 < s && n.y * n.y == s * fmul(n.y, n.y)
        + q2 && 0 <= q2 < s && n.z * n.z == s * fmul(n.z, n.z) + q3 && 0 <= q3 < s) by {
        vstd::arithmetic::div_mod::lemma_fundamental_div_mod(n.x * n.x, s);
        vstd::arithmetic::div_mod::lemma_mod_bound(n.x * n.x, s);
        vstd::arithmetic::div_mod::lemma_fundamental_div_mod(n.y * n.y, s);
        vstd::arithmetic::div_mod::lemma_mod_bound(n.y * n.y, s);
        vstd::arithmetic::div_mod::lemma_fundamental_div_mod(n.z * n.z, s);
        vstd::arithmetic::div_mod::lemma_mod_bound(n.z * n.z, s);
    }
    assert(s * n.sq_len() >= sumn - 3 * s + 3 && s * n.sq_len() <= sumn) by (nonlinear_arith)
        requires
            n.sq_len() == fmul(n.x, n.x) + fmul(n.y, n.y) + fmul(n.z, n.z),
            sumn == n.x * n.x + n.y * n.y + n.z * n.z,
            n.x * n.x == s * fmul(n.x, n.x) + q1,
            n.y * n.y == s * fmul(n.y, n.y) + q2,
            n.z * n.z == s * fmul(n.z, n.z) + q3,
            0 <= q1 < s,
            0 <= q2 < s,
            0 <= q3 < s,
            s == 65536,
    ;
    assert(n.sq_len() >= s - 16) by (nonlinear_arith)
        requires
            s * n.sq_len() >= sumn - 3 * s + 3,
            sumn >= s * s - 13 * s,
            s == 65536,
    ;
    // Upper bound, for inputs at least one unit long.
    if d >= s {
        assert(d * s >= s * s) by (nonlinear_arith)
            requires
                d >= s,
                s == 65536,
        ;
        assert(ll >= s) by (nonlinear_arith)
            requires
                d * s >= s * s,
                d * s < (ll + 1) * (ll + 1),
                ll >= 256,
                s == 65536,
        ;
        assert(s * s * sumv <= (s * s) * (s * d) + (s * s) * (3 * s - 3)) by (nonlinear_arith)
            requires
                sumv <= s * d + 3 * s - 3,
                s == 65536,
        ;
        assert((s * s) * (s * d) <= (s * s) * (ll * ll) + (s * s) * (2 * ll)) by (nonlinear_arith)
            requires
                s * d < (ll + 1) * (ll + 1),
                s == 65536,
        ;
        assert(ll * ll * sumn <= (s * s) * (ll * ll) + (s * s) * (2 * ll) + (s * s) * (3 * s - 3)
            + 6 * s * (ll * ll) + 1542 * s * ll + 3 * (ll * ll)) by (nonlinear_arith)
            requires
                ll * ll * sumn == (ll * n.x) * (ll * n.x) + (ll * n.y) * (ll * n.y) + (ll * n.z)
                    * (ll * n.z),
                (ll * n.x) * (ll * n.x) <= (v.x * s) * (v.x * s) + 2 * ll * s * (ll + 257) + ll
                    * ll,
                (ll * n.y) * (ll * n.y) <= (v.y * s) * (v.y * s) + 2 * ll * s * (ll + 257) + ll
                    * ll,
                (ll * n.z) * (ll * n.z) <= (v.z * s) * (v.z * s) + 2 * ll * s * (ll + 257) + ll
                    * ll,
                s * s * sumv == (v.x * s) * (v.x * s) + (v.y * s) * (v.y * s) + (v.z * s) * (v.z
                    * s),
                s * s * sumv <= (s * s) * (s * d) + (s * s) * (3 * s - 3),
                (s * s) * (s * d) <= (s * s) * (ll * ll) + (s * s) * (2 * ll),
                2 * ll * s * (ll + 257) == 2 * s * (ll * ll) + 514 * s * ll,
        ;
        assert(ll * ll * sumn <= ll * ll * (s * s + 12 * s)) by (nonlinear_arith)
            requires
                ll * ll * sumn <= (s * s) * (ll * ll) + (s * s) * (2 * ll) + (s * s) * (3 * s - 3)
                    + 6 * s * (ll * ll) + 1542 * s * ll + 3 * (ll * ll),
                ll >= s,
                s == 65536,
        ;
        assert(sumn <= s * s + 12 * s) by (nonlinear_arith)
            requires
                ll * ll * sumn <= ll * ll * (s * s + 12 * s),
                ll >= 256,
        ;
        assert(n.sq_len() <= s + 16) by (nonlinear_arith)
            requires
                s * n.sq_len() <= sumn,
                sumn <= s * s + 12 * s,
                s == 65536,
        ;
    }
}

/// One component of a normalized vector has magnitude at most `3 * SCALE`,
/// provided the component contributes its square to the squared length.
proof fn lemma_normalized_component_bounded(c: int, v: Vec3M)
    requires
        c == v.x || c == v.y || c == v.z,
        v.bounded(DOT_LIMIT as int),
        v.sq_len() >= 1,
    ensures
        -3 * SCALE <= (c * SCALE) / v.len() <= 3 * SCALE,
{
    let s = SCALE as int;
    let ll = v.len();
    lemma_len_lower(v);
    lemma_isqrt_exists(v.sq_len() * s);
    // The squared length dominates this component's fixed-point square.
    lemma_self_fmul_nonneg(v.x);
    lemma_self_fmul_nonneg(v.y);
    lemma_self_fmul_nonneg(v.z);
    assert(v.sq_len() >= fmul(c, c));
    assert(c * c >= 0) by (nonlinear_arith);
    assert(s * ((c * c) / s) <= c * c < s * ((c * c) / s) + s) by {
        vstd::arithmetic::div_mod::lemma_fundamental_div_mod(c * c, s);
        vstd::arithmetic::div_mod::lemma_mod_bound(c * c, s);
    }
    // fmul(c, c) > c * c / s - 1, so sq_len * s >= c * c - s.
    assert(v.sq_len() * s >= c * c - s) by (nonlinear_arith)
        requires
            v.sq_len() >= fmul(c, c),
            fmul(c, c) == (c * c) / s,
            s == 65536,
            (c * c) >= 0,
            s * ((c * c) / s) <= c * c < s * ((c * c) / s) + s,
    ;
    assert(ll * ((c * s) / ll) <= c * s < ll * ((c * s) / ll) + ll) by {
        vstd::arithmetic::div_mod::lemma_fundamental_div_mod(c * s, ll);
        vstd::arithmetic::div_mod::lemma_mod_bound(c * s, ll);
    }
    // Case split on the component's magnitude.
    if -512 <= c <= 512 {
        assert(-3 * s <= (c * s) / ll <= 3 * s) by (nonlinear_arith)
            requires
                -512 <= c <= 512,
                ll >= 256,
                s == 65536,
                ll * ((c * s) / ll) <= c * s < ll * ((c * s) / ll) + ll,
        ;
    } else {
        // Here 2 * len >= |c|: otherwise (len + 1)^2 > sq_len * s >= c^2 - s
        // forces 3 c^2 < 4 s + 4 |c| + 4, impossible for |c| > 512.
        assert(2 * ll >= c && 2 * ll >= -c) by (nonlinear_arith)
            requires
                (c > 512 || c < -512),
                ll >= 256,
                s == 65536,
                v.sq_len() * s >= c * c - s,
                crate::common::is_sqrt_of(v.sq_len() * s, ll),
        ;
        assert(-3 * s <= (c * s) / ll <= 3 * s) by (nonlinear_arith)
            requires
                2 * ll >= c,
                2 * ll >= -c,
                ll >= 256,
                s == 65536,
                ll * ((c * s) / ll) <= c * s < ll * ((c * s) / ll) + ll,
        ;
    }
}

} // verus!
