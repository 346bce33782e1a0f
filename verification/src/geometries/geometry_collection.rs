//! The aggregate Intersectable: a linear scan over children keeping the hit
//! with the smallest entrance distance. Comparison is strictly-less, so on an
//! exact tie the first-encountered child wins; an empty collection never
//! reports a hit.

use vstd::prelude::*;

verus! {

use crate::geometries::intersectable::Intersectable;
use crate::geometries::intersectable_geometry::IntersectableGeometry;
use crate::geometries::intersection::{opt_hit_model, opt_hit_ok, HitM, Intersection};
use crate::geometries::ray::{Ray, RayM};

/// Keeps `best` unless `next` is a strictly nearer hit; a sole hit wins.
pub open spec fn closer(best: Option<HitM>, next: Option<HitM>) -> Option<HitM> {
    match best {
        None => next,
        Some(b) => match next {
            None => best,
            Some(n) => if n.entrance < b.entrance {
                next
            } else {
                best
            },
        },
    }
}

/// A collection of child intersectables, immutable after construction.
pub struct GeometryCollection {
    pub children: Vec<Intersectable>,
}

impl GeometryCollection {
    /// Every child subtree is well formed.
    pub open spec fn coll_wf(self) -> bool
        decreases self, 0int, 0int,
    {
        forall|i: int|
            0 <= i < self.children@.len() ==> (#[trigger] self.children@[i]).node_wf()
    }

    /// The nearest hit among the first `n` children, scanned left to right.
    pub open spec fn intersect_upto(self, ray: RayM, n: int) -> Option<HitM>
        decreases self, 0int, n,
        when n <= self.children@.len()
    {
        if n <= 0 {
            None
        } else {
            closer(self.intersect_upto(ray, n - 1), self.children@[n - 1].node_intersect(ray))
        }
    }

    /// The nearest hit among all children, over models.
    pub open spec fn coll_intersect(self, ray: RayM) -> Option<HitM>
        decreases self, 0int, self.children@.len() + 1,
    {
        self.intersect_upto(ray, self.children@.len() as int)
    }

    pub fn new(children: Vec<Intersectable>) -> (c: Self)
        ensures
            c.children == children,
    {
        Self { children }
    }

    /// Linear scan over the children, retaining the intersection with the
    /// smallest entrance distance; the first child wins exact ties.
    pub fn intersect(&self, ray: &Ray) -> (r: Option<Intersection>)
        requires
            self.coll_wf(),
            ray.model().wf(),
        ensures
            opt_hit_model(r) == self.coll_intersect(ray.model()),
            opt_hit_ok(self.coll_intersect(ray.model())),
        decreases *self, 0int,
    {
        let ghost rm = ray.model();
        let mut closest: Option<Intersection> = None;
        let mut i: usize = 0;
        while i < self.children.len()
            invariant
                i <= self.children@.len(),
                self.coll_wf(),
                ray.model() == rm,
                rm.wf(),
                opt_hit_model(closest) == self.intersect_upto(rm, i as int),
                opt_hit_ok(opt_hit_model(closest)),
            decreases self.children@.len() - i,
        {
            proof {
                assert(self.children@[i as int].node_wf());
            }
            let child = &self.children[i];
            let hit = child.intersect_node(ray);
            match hit {
                Some(h) => {
                    match closest {
                        Some(b) => {
                            if h.entrance_distance < b.entrance_distance {
                                closest = hit;
                            }
                        },
                        None => {
                            closest = hit;
                        },
                    }
                },
                None => {},
            }
            proof {
                assert(opt_hit_model(closest) == self.intersect_upto(rm, i as int + 1));
            }
            i = i + 1;
        }
        closest
    }
}

/// Every one of the first `k` children misses.
pub open spec fn all_miss(c: GeometryCollection, ray: RayM, k: int) -> bool {
    forall|i: int| 0 <= i < k ==> (#[trigger] c.children@[i].node_intersect(ray)) is None
}

/// `o` is a hit strictly nearer than `h`.
pub open spec fn hit_closer(o: Option<HitM>, h: HitM) -> bool {
    match o {
        Some(hi) => hi.entrance < h.entrance,
        None => false,
    }
}

/// `o` is a hit at least as near as `h`.
pub open spec fn hit_at_most(o: Option<HitM>, h: HitM) -> bool {
    match o {
        Some(hi) => hi.entrance <= h.entrance,
        None => false,
    }
}

/// None of the first `k` children reports a hit strictly nearer than `h`.
pub open spec fn no_closer(c: GeometryCollection, ray: RayM, h: HitM, k: int) -> bool {
    forall|i: int| 0 <= i < k ==> !hit_closer(#[trigger] c.children@[i].node_intersect(ray), h)
}

/// Child `j` reports exactly `h`, and no earlier child reports a hit at or
/// before `h`'s entrance distance: `j` is the first child attaining the
/// minimum.
pub open spec fn wins_at(c: GeometryCollection, ray: RayM, j: int, h: HitM, k: int) -> bool {
    &&& 0 <= j < k
    &&& c.children@[j].node_intersect(ray) == Some(h)
    &&& forall|i: int| 0 <= i < j ==> !hit_at_most(#[trigger] c.children@[i].node_intersect(ray), h)
}

/// What the scan over the first `k` children reports: a miss exactly when
/// every child misses, else the hit of the first child attaining the minimal
/// entrance distance.
pub proof fn lemma_scan_characterizes(c: GeometryCollection, ray: RayM, k: int)
    requires
        0 <= k <= c.children@.len(),
    ensures
        match c.intersect_upto(ray, k) {
            None => all_miss(c, ray, k),
            Some(h) => no_closer(c, ray, h, k) && exists|j: int| wins_at(c, ray, j, h, k),
        },
    decreases k,
{
    if k > 0 {
        lemma_scan_characterizes(c, ray, k - 1);
        let prev = c.intersect_upto(ray, k - 1);
        let cur = c.children@[k - 1].node_intersect(ray);
        match c.intersect_upto(ray, k) {
            None => {},
            Some(h) => {
                match prev {
                    None => {
                        assert(cur == Some(h));
                        assert(wins_at(c, ray, k - 1, h, k));
                    },
                    Some(b) => {
                        let jb = choose|j: int| #[trigger] wins_at(c, ray, j, b, k - 1);
                        match cur {
                            None => {
                                assert(h == b);
                                assert(wins_at(c, ray, jb, h, k));
                            },
                            Some(hc) => {
                                if hc.entrance < b.entrance {
                                    assert(h == hc);
                                    assert(wins_at(c, ray, k - 1, h, k));
                                } else {
                                    assert(h == b);
                                    assert(wins_at(c, ray, jb, h, k));
                                }
                            },
                        }
                    },
                }
            },
        }
    }
}

/// The aggregate's closest-hit law: the scan misses exactly when every child
/// misses, and a reported hit is at an entrance distance no later than any
/// child's.
pub proof fn lemma_collection_closest_hit(c: GeometryCollection, ray: RayM)
    ensures
        c.coll_intersect(ray) is None <==> all_miss(c, ray, c.children@.len() as int),
        match c.coll_intersect(ray) {
            None => true,
            Some(h) => forall|i: int|
                0 <= i < c.children@.len() ==> !hit_closer(
                    #[trigger] c.children@[i].node_intersect(ray),
                    h,
                ),
        },
{
    lemma_scan_characterizes(c, ray, c.children@.len() as int);
}

/// The aggregate's tie-break law: a reported hit is the hit of the first
/// child attaining the minimal entrance distance, so of two children with
/// identical entrance distances the earlier one wins, on every call.
pub proof fn lemma_collection_first_wins(c: GeometryCollection, ray: RayM)
    requires
        c.coll_intersect(ray) is Some,
    ensures
        exists|j: int|
            wins_at(c, ray, j, c.coll_intersect(ray)->Some_0, c.children@.len() as int),
{
    lemma_scan_characterizes(c, ray, c.children@.len() as int);
}

impl IntersectableGeometry for GeometryCollection {
    open spec fn ig_wf(&self) -> bool {
        self.coll_wf()
    }

    open spec fn model_intersect(&self, ray: RayM) -> Option<HitM> {
        self.coll_intersect(ray)
    }

    fn intersect(&self, ray: &Ray) -> (r: Option<Intersection>)
    {
        self.intersect(ray)
    }
}

} // verus!
