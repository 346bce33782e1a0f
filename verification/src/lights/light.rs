//! The Light capability: direction toward the light, incident color, and the
//! distance used by shadow tests.

use vstd::prelude::*;

verus! {

use crate::common::{Real, SCALE};
use crate::lights::directional_light::DirectionalLight;
use crate::lights::point_light::PointLight;
use crate::math::color3::{Color3, ColorM};
use crate::math::vector3::{
    lemma_neg_sq_len, lemma_normalized_near_unit, Vec3M, Vector3, Vector3T,
};
use crate::geometries::sphere::NORMAL_POS_LIMIT;

/// A light source, one of the two implemented variants.
#[derive(Clone, Copy, Debug, PartialEq, Eq, Structural)]
pub enum Light {
    Point(PointLight),
    Directional(DirectionalLight),
}

impl Light {
    /// What the light constructors establish.
    pub open spec fn wf(self) -> bool {
        match self {
            Light::Point(p) => p.wf(),
            Light::Directional(d) => d.wf(),
        }
    }

    /// Unit direction from `point` toward the light. A point light sitting on
    /// the queried point (within fixed-point resolution) has no direction; by
    /// convention it reports the positive z axis.
    pub open spec fn dir_from(self, point: Vec3M) -> Vec3M {
        match self {
            Light::Point(p) => {
                let d = p.position.model().minus(point);
                if d.sq_len() < 1 {
                    Vec3M { x: 0, y: 0, z: SCALE as int }
                } else {
                    d.normalized()
                }
            },
            Light::Directional(d) => d.direction.model().neg().normalized(),
        }
    }

    /// Incident color: the light's own color, independent of distance.
    pub open spec fn color_m(self) -> ColorM {
        match self {
            Light::Point(p) => p.color.model(),
            Light::Directional(d) => d.color.model(),
        }
    }

    /// Distance from `point` to the light: finite for a point light, absent
    /// (infinite) for a directional one.
    pub open spec fn dist_from(self, point: Vec3M) -> Option<int> {
        match self {
            Light::Point(p) => Some(p.position.model().minus(point).len()),
            Light::Directional(_) => None,
        }
    }

    /// Unit direction from `point` toward the light.
    pub fn get_direction_from(&self, point: &Vector3) -> (d: Vector3)
        requires
            self.wf(),
            point.model().bounded(NORMAL_POS_LIMIT as int),
        ensures
            d.model() == self.dir_from(point.model()),
            d.model().bounded(3 * SCALE as int),
            d.model().sq_len() >= 1,
    {
        match self {
            Light::Point(p) => {
                let diff = p.position.minus(point);
                let sq: Real = diff.dot(&diff);
                if sq < 1 {
                    let d = Vector3T::new(0, 0, SCALE);
                    proof {
                        assert(d.model().sq_len() == (65536 * 65536) / 65536);
                    }
                    d
                } else {
                    proof {
                        lemma_normalized_near_unit(diff.model());
                    }
                    diff.normalize()
                }
            },
            Light::Directional(dl) => {
                let nd = dl.direction.neg();
                proof {
                    lemma_neg_sq_len(dl.direction.model());
                    lemma_normalized_near_unit(nd.model());
                }
                nd.normalize()
            },
        }
    }

    /// Incident color at `point`.
    pub fn get_color_at(&self, _point: &Vector3) -> (c: Color3)
        ensures
            c.model() == self.color_m(),
    {
        match self {
            Light::Point(p) => p.color,
            Light::Directional(d) => d.color,
        }
    }

    /// Distance from `point` to the light, if finite.
    pub fn distance_from(&self, point: &Vector3) -> (r: Option<Real>)
        requires
            self.wf(),
            point.model().bounded(NORMAL_POS_LIMIT as int),
        ensures
            match r {
                Some(v) => self.dist_from(point.model()) == Some(v as int),
                None => self.dist_from(point.model()) is None,
            },
    {
        match self {
            Light::Point(p) => {
                let diff = p.position.minus(point);
                Some(diff.length())
            },
            Light::Directional(_) => None,
        }
    }
}

} // verus!
