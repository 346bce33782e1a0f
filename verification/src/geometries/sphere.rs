//! The sphere primitive and its ray intersection.
//!
//! Intersection solves the standard quadratic: with `v = origin - center`,
//! `a = d.d`, `b = v.d`, `c = v.v - r^2`, the roots are
//! `(-b -/+ sqrt(b^2 - a c)) / a`. The entrance distance is the smaller root,
//! the exit distance the larger. A negative larger root means the sphere lies
//! behind the ray. When the smaller root is negative but the larger is not,
//! the origin is inside the sphere and the entrance distance is reported as
//! zero (a hit at the boundary of the forward ray).

use vstd::prelude::*;

verus! {

use crate::common::{
    fixed_mul, fmul, isqrt, div_floor, lemma_div_floor_bounds, lemma_fmul_abs_bound,
    lemma_isqrt_exists, lemma_mul_abs_bound, spec_isqrt, Real, COORD_MAX, DIVIDEND_MAX, PROD_MAX,
    SCALE,
};
use crate::geometries::geometry::Geometry;
use crate::geometries::intersectable_geometry::IntersectableGeometry;
use crate::geometries::intersection::{
    hit_ok, opt_hit_model, opt_hit_ok, HitM, Intersection, DIST_LIMIT,
};
use crate::geometries::ray::{Ray, RayM};
use crate::math::vector3::{
    lemma_dot_abs_bound, Vec3M, Vector3, DOT_LIMIT, VEC_LIMIT,
};
use vstd::arithmetic::div_mod::{lemma_div_is_ordered, lemma_div_pos_is_pos};

/// Largest component magnitude a hit position may have for the normal
/// computation to stay in range.
pub const NORMAL_POS_LIMIT: i128 = 0x800_0000_0000_0000;

/// A sphere: center, radius, and the index of its material in the scene's
/// material table. Immutable after construction.
#[derive(Clone, Copy, Debug, PartialEq, Eq, Structural)]
pub struct Sphere {
    pub center: Vector3,
    pub radius: Real,
    pub material_index: usize,
}

/// Mathematical model of a `Sphere`.
pub ghost struct SphereM {
    pub center: Vec3M,
    pub radius: int,
    pub material_index: int,
}

impl SphereM {
    /// What `Sphere::new` establishes: coordinates in the scene range and a
    /// positive radius (a zero radius is a construction-time error).
    pub open spec fn wf(self) -> bool {
        &&& self.center.bounded(COORD_MAX as int)
        &&& 1 <= self.radius <= COORD_MAX as int
        &&& 0 <= self.material_index
    }

    /// Vector from the sphere's center to the ray's origin.
    pub open spec fn oc(self, ray: RayM) -> Vec3M {
        ray.position.minus(self.center)
    }

    /// Leading quadratic coefficient: the direction's squared length.
    pub open spec fn qa(self, ray: RayM) -> int {
        ray.direction.dot(ray.direction)
    }

    /// Half the linear quadratic coefficient.
    pub open spec fn qb(self, ray: RayM) -> int {
        self.oc(ray).dot(ray.direction)
    }

    /// Constant quadratic coefficient.
    pub open spec fn qc(self, ray: RayM) -> int {
        self.oc(ray).dot(self.oc(ray)) - fmul(self.radius, self.radius)
    }

    /// Reduced discriminant `b^2 - a c`.
    pub open spec fn disc(self, ray: RayM) -> int {
        fmul(self.qb(ray), self.qb(ray)) - fmul(self.qa(ray), self.qc(ray))
    }

    /// Fixed-point square root of the discriminant.
    pub open spec fn sqrt_disc(self, ray: RayM) -> int {
        spec_isqrt(self.disc(ray) * SCALE)
    }

    /// The larger root: the distance at which the ray leaves the sphere.
    pub open spec fn exit_raw(self, ray: RayM) -> int {
        ((-self.qb(ray) + self.sqrt_disc(ray)) * SCALE) / self.qa(ray)
    }

    /// The smaller root, before clamping to the forward ray.
    pub open spec fn entrance_raw(self, ray: RayM) -> int {
        ((-self.qb(ray) - self.sqrt_disc(ray)) * SCALE) / self.qa(ray)
    }

    /// A valid forward intersection exists: real roots, and the larger one
    /// not behind the origin.
    pub open spec fn hits(self, ray: RayM) -> bool {
        self.disc(ray) >= 0 && self.exit_raw(ray) >= 0
    }

    /// The hit reported on success: entrance clamped to zero when the origin
    /// is inside the sphere, mix amount zero, no material override.
    pub open spec fn hit(self, ray: RayM) -> HitM {
        HitM {
            sphere: self,
            entrance: if self.entrance_raw(ray) < 0 {
                0
            } else {
                self.entrance_raw(ray)
            },
            exit: self.exit_raw(ray),
            mix: 0,
            material_override: None,
        }
    }

    /// The full intersection function over models.
    pub open spec fn spec_intersect(self, ray: RayM) -> Option<HitM> {
        if self.hits(ray) {
            Some(self.hit(ray))
        } else {
            None
        }
    }

    /// The outward normal at a hit position: the offset from the center,
    /// scaled to fixed-point unit length.
    pub open spec fn normal_m(self, hit_position: Vec3M) -> Vec3M {
        hit_position.minus(self.center).normalized()
    }
}

impl Sphere {
    /// The sphere's mathematical model.
    pub open spec fn model(self) -> SphereM {
        SphereM {
            center: self.center.model(),
            radius: self.radius as int,
            material_index: self.material_index as int,
        }
    }

    /// Builds a sphere. Degenerate geometry (zero radius) and out-of-range
    /// coordinates are rejected here, keeping the per-ray path total.
    pub fn new(center: Vector3, radius: Real, material_index: usize) -> (s: Sphere)
        requires
            center.model().bounded(COORD_MAX as int),
            1 <= radius <= COORD_MAX,
        ensures
            s.center == center,
            s.radius == radius,
            s.material_index == material_index,
            s.model().wf(),
    {
        Sphere { center, radius, material_index }
    }
}

/// A sphere's reported normal is a unit vector up to fixed-point
/// quantization: its squared length never falls more than 16 raw units below
/// one, and for hit positions at least one real unit from the center (every
/// surface point of a sphere of radius one or more) it exceeds one by at most
/// 16 raw units.
pub proof fn lemma_normal_near_unit(s: SphereM, hit_position: Vec3M)
    requires
        s.wf(),
        hit_position.bounded(NORMAL_POS_LIMIT as int),
        hit_position.minus(s.center).sq_len() >= 1,
    ensures
        s.normal_m(hit_position).sq_len() >= SCALE as int - 16,
        hit_position.minus(s.center).sq_len() >= SCALE as int ==> s.normal_m(
            hit_position,
        ).sq_len() <= SCALE as int + 16,
{
    crate::math::vector3::lemma_normalized_near_unit(hit_position.minus(s.center));
}

/// A ray that starts outside a sphere and points away from it misses.
/// "Outside" and "away" are read off the computed quadratic coefficients:
/// `c > 0` (origin beyond the radius) and `b >= 0` (direction not toward the
/// center). The product term `fmul(a, c) >= 1` excludes the one-raw-unit
/// grazing band where rounding can still report a boundary hit at distance
/// zero.
pub proof fn lemma_miss_when_outside_and_away(s: SphereM, ray: RayM)
    requires
        s.wf(),
        ray.wf(),
        s.qb(ray) >= 0,
        s.qc(ray) >= 1,
        fmul(s.qa(ray), s.qc(ray)) >= 1,
    ensures
        s.spec_intersect(ray) is None,
{
    let a = s.qa(ray);
    let b = s.qb(ray);
    let c = s.qc(ray);
    let disc = s.disc(ray);
    let scale = SCALE as int;
    if disc >= 0 {
        lemma_isqrt_exists(disc * scale);
        let sq = s.sqrt_disc(ray);
        // disc * SCALE <= b * b - SCALE.
        assert(scale * ((b * b) / scale) <= b * b) by {
            vstd::arithmetic::div_mod::lemma_fundamental_div_mod(b * b, scale);
            vstd::arithmetic::div_mod::lemma_mod_bound(b * b, scale);
        }
        assert(disc * scale <= b * b - scale) by (nonlinear_arith)
            requires
                disc <= (b * b) / scale - 1,
                scale * ((b * b) / scale) <= b * b,
                scale == 65536,
        ;
        assert(sq < b) by (nonlinear_arith)
            requires
                0 <= sq,
                sq * sq <= disc * scale,
                disc * scale <= b * b - scale,
                b >= 0,
                scale == 65536,
        ;
        // The exit root's numerator is at most -SCALE, so the floored
        // quotient is negative.
        let num = (-b + sq) * scale;
        assert(num <= -scale) by (nonlinear_arith)
            requires
                sq < b,
                num == (-b + sq) * scale,
                scale == 65536,
        ;
        assert(a * (num / a) + num % a == num && 0 <= num % a < a) by {
            vstd::arithmetic::div_mod::lemma_fundamental_div_mod(num, a);
            vstd::arithmetic::div_mod::lemma_mod_bound(num, a);
        }
        assert(num / a < 0) by (nonlinear_arith)
            requires
                a >= 1,
                num <= -65536,
                a * (num / a) + num % a == num,
                0 <= num % a < a,
        ;
        assert(!s.hits(ray));
    }
}

/// The two reported roots of any forward hit with both roots forward sum to
/// the projection formula `2 (center - origin) . d / |d|^2` (which equals
/// `-2 b / a`), up to one unit of floor rounding. For a ray through the
/// center, the two roots are therefore symmetric around that projection.
pub proof fn lemma_roots_symmetric(s: SphereM, ray: RayM)
    requires
        s.wf(),
        ray.wf(),
        s.hits(ray),
        s.entrance_raw(ray) >= 0,
    ensures
        (-2 * s.qb(ray) * SCALE) / s.qa(ray) - 1 <= s.hit(ray).entrance + s.hit(ray).exit,
        s.hit(ray).entrance + s.hit(ray).exit <= (-2 * s.qb(ray) * SCALE) / s.qa(ray),
{
    let a = s.qa(ray);
    let b = s.qb(ray);
    let sq = s.sqrt_disc(ray);
    let scale = SCALE as int;
    let u = (-b - sq) * scale;
    let v = (-b + sq) * scale;
    assert(u + v == -2 * b * scale) by (nonlinear_arith)
        requires
            u == (-b - sq) * scale,
            v == (-b + sq) * scale,
            scale == 65536,
    ;
    assert(a * (u / a) + u % a == u && 0 <= u % a < a) by {
        vstd::arithmetic::div_mod::lemma_fundamental_div_mod(u, a);
        vstd::arithmetic::div_mod::lemma_mod_bound(u, a);
    }
    assert(a * (v / a) + v % a == v && 0 <= v % a < a) by {
        vstd::arithmetic::div_mod::lemma_fundamental_div_mod(v, a);
        vstd::arithmetic::div_mod::lemma_mod_bound(v, a);
    }
    assert(a * ((u + v) / a) + (u + v) % a == u + v && 0 <= (u + v) % a < a) by {
        vstd::arithmetic::div_mod::lemma_fundamental_div_mod(u + v, a);
        vstd::arithmetic::div_mod::lemma_mod_bound(u + v, a);
    }
    assert((u + v) / a - 1 <= u / a + v / a && u / a + v / a <= (u + v) / a)
        by (nonlinear_arith)
        requires
            a >= 1,
            a * (u / a) + u % a == u,
            0 <= u % a < a,
            a * (v / a) + v % a == v,
            0 <= v % a < a,
            a * ((u + v) / a) + (u + v) % a == u + v,
            0 <= (u + v) % a < a,
    ;
}

impl Geometry for Sphere {
    open spec fn geo_wf(&self) -> bool {
        self.model().wf()
    }

    open spec fn material_of(&self) -> int {
        self.model().material_index
    }

    open spec fn can_normal(&self, ray: RayM, hit_position: Vec3M) -> bool {
        &&& hit_position.bounded(NORMAL_POS_LIMIT as int)
        &&& hit_position.minus(self.model().center).sq_len() >= 1
    }

    open spec fn normal_of(&self, ray: RayM, hit_position: Vec3M) -> Vec3M {
        self.model().normal_m(hit_position)
    }

    fn get_material(&self) -> (m: usize)
    {
        self.material_index
    }

    fn calculate_normal(&self, _ray: &Ray, hit_position: &Vector3) -> (n: Vector3)
    {
        hit_position.minus(&self.center).normalize()
    }
}

impl IntersectableGeometry for Sphere {
    open spec fn ig_wf(&self) -> bool {
        self.model().wf()
    }

    open spec fn model_intersect(&self, ray: RayM) -> Option<HitM> {
        self.model().spec_intersect(ray)
    }

    fn intersect(&self, ray: &Ray) -> (r: Option<Intersection>)
    {
        let ghost sm = self.model();
        let ghost rm = ray.model();
        let ghost s = SCALE as int;
        let ghost cm = COORD_MAX as int;

        let v: Vector3 = ray.position.minus(&self.center);
        proof {
            assert(v.model().bounded(2 * cm));
        }
        let a: i128 = ray.direction.dot(&ray.direction);
        let b: i128 = v.dot(&ray.direction);
        proof {
            lemma_dot_abs_bound(rm.direction, rm.direction, cm);
            lemma_dot_abs_bound(v.model(), rm.direction, 2 * cm);
            lemma_mul_abs_bound(self.radius as int, self.radius as int, cm, cm);
            lemma_fmul_abs_bound(self.radius as int, self.radius as int, cm, cm);
            lemma_dot_abs_bound(v.model(), v.model(), 2 * cm);
            assert(a as int == sm.qa(rm));
            assert(a >= 1);
        }
        proof {
            // Literal magnitude bounds for the quadratic coefficients.
            assert(-0x400_0000_0000_0000 <= a as int <= 0x400_0000_0000_0000) by (nonlinear_arith)
                requires
                    -(3 * ((cm * cm) / s) + 3) <= a as int <= 3 * ((cm * cm) / s) + 3,
                    cm == 0x10_0000_0000,
                    s == 65536,
            ;
            assert(-0x1000_0000_0000_0000 <= b as int <= 0x1000_0000_0000_0000) by (nonlinear_arith)
                requires
                    -(3 * ((2 * cm * (2 * cm)) / s) + 3) <= b as int <= 3 * ((2 * cm * (2 * cm)) / s) + 3,
                    cm == 0x10_0000_0000,
                    s == 65536,
            ;
            assert(-PROD_MAX as int <= (self.radius as int) * (self.radius as int) <= PROD_MAX as int)
                by (nonlinear_arith)
                requires
                    1 <= self.radius as int <= 0x10_0000_0000,
                    PROD_MAX as int == 0x100_0000_0000_0000_0000_0000_0000_0000,
            ;
        }
        let rr: i128 = fixed_mul(self.radius, self.radius);
        let vv: i128 = v.dot(&v);
        let c: i128 = vv - rr;
        proof {
            assert(b as int == sm.qb(rm));
            assert(c as int == sm.qc(rm));
            crate::math::vector3::lemma_sq_len_nonneg(v.model());
            // 0 <= rr <= 2^56, so |c| <= 2^61.
            assert((self.radius as int) * (self.radius as int) >= 0) by (nonlinear_arith);
            assert((self.radius as int) * (self.radius as int) <= 0x100_0000_0000_0000_0000)
                by (nonlinear_arith)
                requires
                    1 <= self.radius as int <= 0x10_0000_0000,
            ;
            lemma_div_pos_is_pos((self.radius as int) * (self.radius as int), s);
            lemma_div_is_ordered(
                (self.radius as int) * (self.radius as int),
                0x100_0000_0000_0000_0000,
                s,
            );
            assert(-0x1000_0000_0000_0000 <= vv as int <= 0x1000_0000_0000_0000) by (nonlinear_arith)
                requires
                    -(3 * ((2 * cm * (2 * cm)) / s) + 3) <= vv as int <= 3 * ((2 * cm * (2 * cm)) / s) + 3,
                    cm == 0x10_0000_0000,
                    s == 65536,
            ;
            assert(-0x2000_0000_0000_0000 <= c as int <= 0x2000_0000_0000_0000);
            // Products handed to the discriminant stay within range.
            assert(-PROD_MAX as int <= (b as int) * (b as int) <= PROD_MAX as int)
                by (nonlinear_arith)
                requires
                    -0x1000_0000_0000_0000 <= b as int <= 0x1000_0000_0000_0000,
                    PROD_MAX as int == 0x100_0000_0000_0000_0000_0000_0000_0000,
            ;
            assert(-0x80_0000_0000_0000_0000_0000_0000_0000
                <= (a as int) * (c as int)
                <= 0x80_0000_0000_0000_0000_0000_0000_0000) by (nonlinear_arith)
                requires
                    -0x400_0000_0000_0000 <= a as int <= 0x400_0000_0000_0000,
                    -0x2000_0000_0000_0000 <= c as int <= 0x2000_0000_0000_0000,
            ;
        }
        let db: i128 = fixed_mul(b, b);
        let ac: i128 = fixed_mul(a, c);
        proof {
            // Rescaled bounds: |db| <= 2^104, |ac| <= 2^103.
            assert((b as int) * (b as int) >= 0) by (nonlinear_arith);
            lemma_div_pos_is_pos((b as int) * (b as int), s);
            lemma_div_is_ordered(
                (b as int) * (b as int),
                0x100_0000_0000_0000_0000_0000_0000_0000,
                s,
            );
            lemma_div_is_ordered(
                (a as int) * (c as int),
                0x80_0000_0000_0000_0000_0000_0000_0000,
                s,
            );
            lemma_div_is_ordered(
                -0x80_0000_0000_0000_0000_0000_0000_0000,
                (a as int) * (c as int),
                s,
            );
        }
        let disc: i128 = db - ac;
        proof {
            assert(disc as int == sm.disc(rm));
            assert(-0x200_0000_0000_0000_0000_0000_0000 <= disc as int
                <= 0x200_0000_0000_0000_0000_0000_0000);
        }
        if disc < 0 {
            return None;
        }
        proof {
            assert(0 <= (disc as int) * (SCALE as int) && (disc as int) * (SCALE as int)
                < DIVIDEND_MAX as int) by (nonlinear_arith)
                requires
                    0 <= disc as int <= 0x200_0000_0000_0000_0000_0000_0000,
                    SCALE as int == 65536,
                    DIVIDEND_MAX as int == 0x4000_0000_0000_0000_0000_0000_0000_0000,
            ;
        }
        let sq: i128 = isqrt(disc * SCALE);
        proof {
            assert(sq as int == sm.sqrt_disc(rm));
            assert((sq as int) <= 0x8000_0000_0000_0000) by (nonlinear_arith)
                requires
                    0 <= sq as int,
                    (sq as int) * (sq as int) <= (disc as int) * (SCALE as int),
                    (disc as int) * (SCALE as int) < DIVIDEND_MAX as int,
                    DIVIDEND_MAX as int == 0x4000_0000_0000_0000_0000_0000_0000_0000,
            ;
        }
        let negb: i128 = -b;
        proof {
            assert(-DIST_LIMIT as int <= ((negb + sq) as int) * (SCALE as int)
                <= DIST_LIMIT as int) by (nonlinear_arith)
                requires
                    -0x1000_0000_0000_0000 <= negb as int <= 0x1000_0000_0000_0000,
                    0 <= sq as int <= 0x8000_0000_0000_0000,
                    SCALE as int == 65536,
                    DIST_LIMIT as int == 0x1_0000_0000_0000_0000_0000,
            ;
            assert(-DIST_LIMIT as int <= ((negb - sq) as int) * (SCALE as int)
                <= DIST_LIMIT as int) by (nonlinear_arith)
                requires
                    -0x1000_0000_0000_0000 <= negb as int <= 0x1000_0000_0000_0000,
                    0 <= sq as int <= 0x8000_0000_0000_0000,
                    SCALE as int == 65536,
                    DIST_LIMIT as int == 0x1_0000_0000_0000_0000_0000,
            ;
        }
        let exit_distance: i128 = div_floor((negb + sq) * SCALE, a);
        proof {
            lemma_div_floor_bounds(((negb + sq) as int) * s, a as int);
            assert(exit_distance as int == sm.exit_raw(rm));
        }
        if exit_distance < 0 {
            proof {
                assert(!sm.hits(rm));
            }
            return None;
        }
        let entrance_raw: i128 = div_floor((negb - sq) * SCALE, a);
        proof {
            lemma_div_floor_bounds(((negb - sq) as int) * s, a as int);
            assert(entrance_raw as int == sm.entrance_raw(rm));
            // The entrance root is never past the exit root.
            assert(((negb - sq) as int) * s <= ((negb + sq) as int) * s) by (nonlinear_arith)
                requires
                    0 <= sq as int,
                    s == 65536,
            ;
            lemma_div_is_ordered(((negb - sq) as int) * s, ((negb + sq) as int) * s, a as int);
        }
        let entrance_distance: i128 = if entrance_raw < 0 {
            0
        } else {
            entrance_raw
        };
        proof {
            assert(sm.hits(rm));
            assert(hit_ok(sm.hit(rm)));
        }
        Some(Intersection::new(*self, entrance_distance, exit_distance, 0, None))
    }
}

} // verus!
