//! A node of the scene's geometry tree: either a sphere primitive or a
//! nested collection. Collections may contain collections to any depth.

use vstd::prelude::*;

verus! {

use crate::geometries::geometry_collection::GeometryCollection;
use crate::geometries::intersectable_geometry::IntersectableGeometry;
use crate::geometries::intersection::{opt_hit_model, opt_hit_ok, HitM, Intersection};
use crate::geometries::ray::{Ray, RayM};
use crate::geometries::sphere::Sphere;

/// One intersectable object of the scene tree.
pub enum Intersectable {
    Sphere(Sphere),
    Collection(GeometryCollection),
}

impl Intersectable {
    /// Every sphere and collection in the subtree is well formed.
    pub open spec fn node_wf(self) -> bool
        decreases self, 1int, 0int,
    {
        match self {
            Intersectable::Sphere(s) => s.model().wf(),
            Intersectable::Collection(c) => c.coll_wf(),
        }
    }

    /// The nearest valid forward intersection in this subtree, over models.
    pub open spec fn node_intersect(self, ray: RayM) -> Option<HitM>
        decreases self, 1int, 0int,
    {
        match self {
            Intersectable::Sphere(s) => s.model().spec_intersect(ray),
            Intersectable::Collection(c) => c.coll_intersect(ray),
        }
    }

    /// Dispatches the intersection test to the node's variant.
    pub fn intersect_node(&self, ray: &Ray) -> (r: Option<Intersection>)
        requires
            self.node_wf(),
            ray.model().wf(),
        ensures
            opt_hit_model(r) == self.node_intersect(ray.model()),
            opt_hit_ok(self.node_intersect(ray.model())),
        decreases *self, 1int,
    {
        match self {
            Intersectable::Sphere(s) => s.intersect(ray),
            Intersectable::Collection(c) => c.intersect(ray),
        }
    }
}

impl IntersectableGeometry for Intersectable {
    open spec fn ig_wf(&self) -> bool {
        self.node_wf()
    }

    open spec fn model_intersect(&self, ray: RayM) -> Option<HitM> {
        self.node_intersect(ray)
    }

    fn intersect(&self, ray: &Ray) -> (r: Option<Intersection>)
    {
        self.intersect_node(ray)
    }
}

} // verus!
