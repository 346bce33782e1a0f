//! The result of a successful ray/geometry test.

use vstd::prelude::*;

verus! {

use crate::common::Real;
use crate::geometries::sphere::{Sphere, SphereM};

/// Largest raw magnitude an intersection distance can reach for well-formed
/// scenes; callers rely on it to keep later arithmetic in range.
pub const DIST_LIMIT: i128 = 0x1_0000_0000_0000_0000_0000;

/// A hit: the geometry that was struck, the signed distances along the ray at
/// which the ray enters and leaves the surface, a mix amount reserved for
/// blending overlapping surfaces (always zero for spheres), and an optional
/// material-table index overriding the geometry's own binding (always absent
/// for spheres).
#[derive(Clone, Copy, Debug, PartialEq, Eq, Structural)]
pub struct Intersection {
    pub hit_geometry: Sphere,
    pub entrance_distance: Real,
    pub exit_distance: Real,
    pub mix_amount: Real,
    pub material_index_override: Option<usize>,
}

/// Mathematical model of an `Intersection`.
pub ghost struct HitM {
    pub sphere: SphereM,
    pub entrance: int,
    pub exit: int,
    pub mix: int,
    pub material_override: Option<int>,
}

/// A hit the render path can do arithmetic on: the entrance distance is
/// nonnegative, no later than the exit, both within `DIST_LIMIT`, and the
/// struck geometry is well formed.
pub open spec fn hit_ok(h: HitM) -> bool {
    &&& 0 <= h.entrance <= h.exit <= DIST_LIMIT as int
    &&& h.sphere.wf()
}

/// Model of an optional hit.
pub open spec fn opt_hit_model(r: Option<Intersection>) -> Option<HitM> {
    match r {
        Some(i) => Some(i.model()),
        None => None,
    }
}

/// `hit_ok` lifted to optional hits.
pub open spec fn opt_hit_ok(h: Option<HitM>) -> bool {
    match h {
        Some(h) => hit_ok(h),
        None => true,
    }
}

impl Intersection {
    /// The intersection's mathematical model.
    pub open spec fn model(self) -> HitM {
        HitM {
            sphere: self.hit_geometry.model(),
            entrance: self.entrance_distance as int,
            exit: self.exit_distance as int,
            mix: self.mix_amount as int,
            material_override: match self.material_index_override {
                Some(m) => Some(m as int),
                None => None,
            },
        }
    }

    pub fn new(
        hit_geometry: Sphere,
        entrance_distance: Real,
        exit_distance: Real,
        mix_amount: Real,
        material_index_override: Option<usize>,
    ) -> (i: Intersection)
        ensures
            i.hit_geometry == hit_geometry,
            i.entrance_distance == entrance_distance,
            i.exit_distance == exit_distance,
            i.mix_amount == mix_amount,
            i.material_index_override == material_index_override,
    {
        Intersection {
            hit_geometry,
            entrance_distance,
            exit_distance,
            mix_amount,
            material_index_override,
        }
    }
}

} // verus!
