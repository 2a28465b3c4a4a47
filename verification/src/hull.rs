//! Convex hulls as ordered sets of half-space planes, with containment and
//! intersection queries against points, boxes and spheres, and an exact
//! whole-hull transform.

use vstd::prelude::*;
use crate::vec3::Vec3;
use crate::vec3::in_range;
use crate::vec3::lemma_mul_bound;
use crate::vec3::lemma_mul_comm;
use crate::vec3::lemma_mul_dist_add;
use crate::vec3::lemma_neg_mul;
use crate::vec3::LIMIT;
use crate::plane::Plane;
use crate::plane::plane_dist;
use crate::aabb::AABB;
use crate::aabb::aabb_holds_point;
use crate::mat4::Mat4;
use crate::mat4::translation_mat;
use crate::mat4::minor3_exec;
use crate::mat4::det4;
use crate::mat4::det_sign;
use crate::mat4::cof00;
use crate::mat4::cof01;
use crate::mat4::cof02;
use crate::mat4::cof03;
use crate::mat4::cof10;
use crate::mat4::cof11;
use crate::mat4::cof12;
use crate::mat4::cof13;
use crate::mat4::cof20;
use crate::mat4::cof21;
use crate::mat4::cof22;
use crate::mat4::cof23;
use crate::mat4::cof30;
use crate::mat4::cof31;
use crate::mat4::cof32;
use crate::mat4::cof33;

verus! {

broadcast use vstd::arithmetic::mul::group_mul_basics;

/// Result of testing a bounding volume against a hull: entirely inside,
/// definitively disjoint, or straddling at least one plane boundary.
#[derive(Clone, Copy, Debug, PartialEq, Eq, Structural)]
pub enum IntersectionState {
    Inside,
    Outside,
    Intersection,
}

/// The failures a hull transform can report: a matrix with determinant
/// zero has no inverse, so planes cannot be carried through it; and a
/// transform whose exact result would leave the fixed-point scalar range
/// cannot be stored.
#[derive(Clone, Copy, Debug, PartialEq, Eq, Structural)]
pub enum TransformError {
    Singular,
    OutOfRange,
}

/// A convex region: the intersection of the half-spaces of `planes`.  An
/// empty sequence of planes is the universal region.
#[derive(Debug)]
pub struct ConvexHull {
    pub planes: Vec<Plane>,
}

/// A point is held when no plane puts it strictly outside; a point exactly
/// on a boundary still counts as inside.
pub open spec fn hull_holds_point(planes: Seq<Plane>, p: Vec3) -> bool {
    forall|i: int| 0 <= i < planes.len() ==> plane_dist(#[trigger] planes[i], p) <= 0
}

/// The corner of `bb` nearest to being outside `pl`: per axis, `min` when
/// the normal component is non-negative, else `max`.
pub open spec fn near_corner(pl: Plane, bb: AABB) -> Vec3 {
    Vec3 {
        x: if pl.normal.x >= 0 { bb.min.x } else { bb.max.x },
        y: if pl.normal.y >= 0 { bb.min.y } else { bb.max.y },
        z: if pl.normal.z >= 0 { bb.min.z } else { bb.max.z },
    }
}

/// The corner of `bb` farthest along the normal of `pl`.
pub open spec fn far_corner(pl: Plane, bb: AABB) -> Vec3 {
    Vec3 {
        x: if pl.normal.x >= 0 { bb.max.x } else { bb.min.x },
        y: if pl.normal.y >= 0 { bb.max.y } else { bb.min.y },
        z: if pl.normal.z >= 0 { bb.max.z } else { bb.min.z },
    }
}

/// Some plane has the whole box strictly on its outside.
pub open spec fn aabb_outside(planes: Seq<Plane>, bb: AABB) -> bool {
    exists|i: int|
        0 <= i < planes.len() && plane_dist(#[trigger] planes[i], near_corner(planes[i], bb)) > 0
}

/// Some plane has the far corner of the box strictly outside.
pub open spec fn aabb_straddles(planes: Seq<Plane>, bb: AABB) -> bool {
    exists|i: int|
        0 <= i < planes.len() && plane_dist(#[trigger] planes[i], far_corner(planes[i], bb)) > 0
}

/// The exact tri-state result of the box query.
pub open spec fn aabb_state(planes: Seq<Plane>, bb: AABB) -> IntersectionState {
    if aabb_outside(planes, bb) {
        IntersectionState::Outside
    } else if aabb_straddles(planes, bb) {
        IntersectionState::Intersection
    } else {
        IntersectionState::Inside
    }
}

/// Some plane has the sphere's center farther outside than the radius.
pub open spec fn sphere_outside(planes: Seq<Plane>, c: Vec3, radius: i64) -> bool {
    exists|i: int| 0 <= i < planes.len() && plane_dist(#[trigger] planes[i], c) > radius
}

/// Some plane passes within the radius of the sphere's center.
pub open spec fn sphere_straddles(planes: Seq<Plane>, c: Vec3, radius: i64) -> bool {
    exists|i: int| 0 <= i < planes.len() && plane_dist(#[trigger] planes[i], c) > -(radius as int)
}

/// The exact tri-state result of the sphere query.
pub open spec fn sphere_state(planes: Seq<Plane>, c: Vec3, radius: i64) -> IntersectionState {
    if sphere_outside(planes, c, radius) {
        IntersectionState::Outside
    } else if sphere_straddles(planes, c, radius) {
        IntersectionState::Intersection
    } else {
        IntersectionState::Inside
    }
}

/// What one plane alone says about a sphere.
pub open spec fn sphere_plane_state(pl: Plane, c: Vec3, radius: i64) -> IntersectionState {
    if plane_dist(pl, c) > radius {
        IntersectionState::Outside
    } else if plane_dist(pl, c) > -(radius as int) {
        IntersectionState::Intersection
    } else {
        IntersectionState::Inside
    }
}

/// Row `r` of the cofactor matrix of `m` applied to the plane coefficients:
/// the inverse-transpose transform of a plane, scaled by the determinant.
pub open spec fn tplane_x(m: Mat4, pl: Plane) -> int {
    cof00(m) * pl.normal.x + cof01(m) * pl.normal.y + cof02(m) * pl.normal.z + cof03(m) * pl.d
}

pub open spec fn tplane_y(m: Mat4, pl: Plane) -> int {
    cof10(m) * pl.normal.x + cof11(m) * pl.normal.y + cof12(m) * pl.normal.z + cof13(m) * pl.d
}

pub open spec fn tplane_z(m: Mat4, pl: Plane) -> int {
    cof20(m) * pl.normal.x + cof21(m) * pl.normal.y + cof22(m) * pl.normal.z + cof23(m) * pl.d
}

pub open spec fn tplane_w(m: Mat4, pl: Plane) -> int {
    cof30(m) * pl.normal.x + cof31(m) * pl.normal.y + cof32(m) * pl.normal.z + cof33(m) * pl.d
}

/// Every plane of the sequence keeps all four transformed coefficients in
/// the admitted scalar range under `m`.
pub open spec fn transform_fits(m: Mat4, planes: Seq<Plane>) -> bool {
    forall|i: int| 0 <= i < planes.len() ==> {
        &&& in_range(tplane_x(m, #[trigger] planes[i]))
        &&& in_range(tplane_y(m, planes[i]))
        &&& in_range(tplane_z(m, planes[i]))
        &&& in_range(tplane_w(m, planes[i]))
    }
}

/// `b` is `a` carried through the point transform `m`: its coefficients are
/// the cofactor transform of `a`, re-oriented by the determinant's sign so
/// the inside half-space maps onto the inside of the image.
pub open spec fn transforms_plane(m: Mat4, a: Plane, b: Plane) -> bool {
    &&& b.normal.x as int == det_sign(m) * tplane_x(m, a)
    &&& b.normal.y as int == det_sign(m) * tplane_y(m, a)
    &&& b.normal.z as int == det_sign(m) * tplane_z(m, a)
    &&& b.d as int == det_sign(m) * tplane_w(m, a)
}

impl ConvexHull {
    /// Every stored plane has coefficients in the admitted scalar range.
    pub open spec fn wf(self) -> bool {
        forall|i: int| 0 <= i < self.planes@.len() ==> (#[trigger] self.planes@[i]).wf()
    }

    /// A hull with no planes: it holds everything.
    pub fn new() -> (r: ConvexHull)
        ensures
            r.planes@ == Seq::<Plane>::empty(),
    {
        ConvexHull { planes: Vec::new() }
    }

    /// An independent copy with the same planes.
    pub fn copy(&self) -> (r: ConvexHull)
        ensures
            r.planes@ == self.planes@,
    {
        let mut out: Vec<Plane> = Vec::new();
        let mut i: usize = 0;
        while i < self.planes.len()
            invariant
                i <= self.planes@.len(),
                out@ == self.planes@.take(i as int),
            decreases self.planes@.len() - i,
        {
            out.push(self.planes[i]);
            proof {
                assert(out@ =~= self.planes@.take(i as int + 1));
            }
            i += 1;
        }
        proof {
            assert(self.planes@.take(self.planes@.len() as int) =~= self.planes@);
        }
        ConvexHull { planes: out }
    }

    /// Removes every plane; the hull again holds everything.
    pub fn clear(&mut self)
        ensures
            final(self).planes@ == Seq::<Plane>::empty(),
    {
        self.planes = Vec::new();
    }

    /// Appends one half-space plane given as four scalars.
    pub fn push_plane(&mut self, x: i64, y: i64, z: i64, d: i64)
        requires
            in_range(x as int),
            in_range(y as int),
            in_range(z as int),
            in_range(d as int),
        ensures
            final(self).planes@ == old(self).planes@.push(
                Plane { normal: Vec3 { x, y, z }, d },
            ),
            old(self).wf() ==> final(self).wf(),
    {
        self.planes.push(Plane { normal: Vec3 { x, y, z }, d });
        proof {
            assert forall|i: int| 0 <= i < self.planes@.len() && old(self).wf() implies
                (#[trigger] self.planes@[i]).wf() by {
                if i < old(self).planes@.len() {
                    assert(old(self).planes@[i].wf());
                }
            }
        }
    }

    /// A point is kept unless some plane puts it strictly outside; a point
    /// exactly on a boundary is still inside.
    pub fn contains_point(&self, p: &Vec3) -> (r: bool)
        requires
            self.wf(),
            p.wf(),
        ensures
            r == hull_holds_point(self.planes@, *p),
    {
        let mut i: usize = 0;
        while i < self.planes.len()
            invariant
                i <= self.planes@.len(),
                self.wf(),
                p.wf(),
                forall|j: int| 0 <= j < i ==> plane_dist(#[trigger] self.planes@[j], *p) <= 0,
            decreases self.planes@.len() - i,
        {
            if self.planes[i].distance(p) > 0 {
                assert(plane_dist(self.planes@[i as int], *p) > 0);
                return false;
            }
            i += 1;
        }
        true
    }

    /// The tri-state box query, by the near/far-corner trick: per plane
    /// only the corner nearest the outside can prove `Outside`, and only
    /// the farthest corner can prove a straddle.
    pub fn intersect_aabb(&self, aabb: &AABB) -> (r: IntersectionState)
        requires
            self.wf(),
            aabb.wf(),
        ensures
            r == aabb_state(self.planes@, *aabb),
    {
        let mut intersecting = false;
        let mut i: usize = 0;
        while i < self.planes.len()
            invariant
                i <= self.planes@.len(),
                self.wf(),
                aabb.wf(),
                forall|j: int| 0 <= j < i ==> plane_dist(
                    #[trigger] self.planes@[j],
                    near_corner(self.planes@[j], *aabb),
                ) <= 0,
                intersecting == exists|j: int| 0 <= j < i && plane_dist(
                    #[trigger] self.planes@[j],
                    far_corner(self.planes@[j], *aabb),
                ) > 0,
            decreases self.planes@.len() - i,
        {
            let pl = self.planes[i];
            let nearest = Vec3 {
                x: if pl.normal.x >= 0 { aabb.min.x } else { aabb.max.x },
                y: if pl.normal.y >= 0 { aabb.min.y } else { aabb.max.y },
                z: if pl.normal.z >= 0 { aabb.min.z } else { aabb.max.z },
            };
            assert(nearest == near_corner(self.planes@[i as int], *aabb));
            if pl.distance(&nearest) > 0 {
                assert(aabb_outside(self.planes@, *aabb));
                return IntersectionState::Outside;
            }
            let farthest = Vec3 {
                x: if pl.normal.x >= 0 { aabb.max.x } else { aabb.min.x },
                y: if pl.normal.y >= 0 { aabb.max.y } else { aabb.min.y },
                z: if pl.normal.z >= 0 { aabb.max.z } else { aabb.min.z },
            };
            assert(farthest == far_corner(self.planes@[i as int], *aabb));
            if pl.distance(&farthest) > 0 {
                intersecting = true;
            }
            i += 1;
        }
        if intersecting {
            IntersectionState::Intersection
        } else {
            IntersectionState::Inside
        }
    }

    /// The tri-state sphere query: a plane farther from the center than the
    /// radius proves `Outside`; one within the radius marks a straddle.
    pub fn intersect_sphere(&self, center: &Vec3, radius: i64) -> (r: IntersectionState)
        requires
            self.wf(),
            center.wf(),
        ensures
            r == sphere_state(self.planes@, *center, radius),
    {
        let mut intersecting = false;
        let mut i: usize = 0;
        while i < self.planes.len()
            invariant
                i <= self.planes@.len(),
                self.wf(),
                center.wf(),
                forall|j: int| 0 <= j < i ==> plane_dist(#[trigger] self.planes@[j], *center)
                    <= radius,
                intersecting == exists|j: int| 0 <= j < i && plane_dist(
                    #[trigger] self.planes@[j],
                    *center,
                ) > -(radius as int),
            decreases self.planes@.len() - i,
        {
            let dist = self.planes[i].distance(center);
            if dist > radius {
                assert(sphere_outside(self.planes@, *center, radius));
                return IntersectionState::Outside;
            } else if (dist as i128) > -(radius as i128) {
                intersecting = true;
            }
            i += 1;
        }
        if intersecting {
            IntersectionState::Intersection
        } else {
            IntersectionState::Inside
        }
    }

    /// Conservative box test: true unless the box is provably disjoint,
    /// so a straddling box still counts as "contained".
    pub fn contains_aabb(&self, aabb: &AABB) -> (r: bool)
        requires
            self.wf(),
            aabb.wf(),
        ensures
            r == (aabb_state(self.planes@, *aabb) != IntersectionState::Outside),
    {
        match self.intersect_aabb(aabb) {
            IntersectionState::Outside => false,
            _ => true,
        }
    }

    /// Conservative sphere test: true unless the sphere is provably
    /// disjoint.
    pub fn contains_sphere(&self, center: &Vec3, radius: i64) -> (r: bool)
        requires
            self.wf(),
            center.wf(),
        ensures
            r == (sphere_state(self.planes@, *center, radius) != IntersectionState::Outside),
    {
        match self.intersect_sphere(center, radius) {
            IntersectionState::Outside => false,
            _ => true,
        }
    }

    /// Carries the hull through the point transform `m`.  Planes transform
    /// by the inverse transpose of `m`; multiplying by the (transposed)
    /// cofactor matrix instead gives the same planes scaled by the
    /// determinant, exactly, so only a singular matrix must be refused.
    /// A negative determinant flips every plane back to its original
    /// orientation.
    #[verifier::loop_isolation(false)]
    pub fn transform(&mut self, m: &Mat4) -> (r: Result<(), TransformError>)
        requires
            old(self).wf(),
            m.wf(),
            transform_fits(*m, old(self).planes@),
        ensures
            r is Ok <==> det4(*m) != 0,
            r is Ok ==> {
                &&& final(self).planes@.len() == old(self).planes@.len()
                &&& forall|i: int| 0 <= i < old(self).planes@.len() ==> transforms_plane(
                    *m,
                    old(self).planes@[i],
                    #[trigger] final(self).planes@[i],
                )
                &&& final(self).wf()
            },
            r is Err ==> final(self).planes@ == old(self).planes@,
    {
        let k00: i128 = minor3_exec(m.c1r1, m.c2r1, m.c3r1, m.c1r2, m.c2r2, m.c3r2, m.c1r3, m.c2r3, m.c3r3);
        let k01: i128 = -minor3_exec(m.c0r1, m.c2r1, m.c3r1, m.c0r2, m.c2r2, m.c3r2, m.c0r3, m.c2r3, m.c3r3);
        let k02: i128 = minor3_exec(m.c0r1, m.c1r1, m.c3r1, m.c0r2, m.c1r2, m.c3r2, m.c0r3, m.c1r3, m.c3r3);
        let k03: i128 = -minor3_exec(m.c0r1, m.c1r1, m.c2r1, m.c0r2, m.c1r2, m.c2r2, m.c0r3, m.c1r3, m.c2r3);
        let k10: i128 = -minor3_exec(m.c1r0, m.c2r0, m.c3r0, m.c1r2, m.c2r2, m.c3r2, m.c1r3, m.c2r3, m.c3r3);
        let k11: i128 = minor3_exec(m.c0r0, m.c2r0, m.c3r0, m.c0r2, m.c2r2, m.c3r2, m.c0r3, m.c2r3, m.c3r3);
        let k12: i128 = -minor3_exec(m.c0r0, m.c1r0, m.c3r0, m.c0r2, m.c1r2, m.c3r2, m.c0r3, m.c1r3, m.c3r3);
        let k13: i128 = minor3_exec(m.c0r0, m.c1r0, m.c2r0, m.c0r2, m.c1r2, m.c2r2, m.c0r3, m.c1r3, m.c2r3);
        let k20: i128 = minor3_exec(m.c1r0, m.c2r0, m.c3r0, m.c1r1, m.c2r1, m.c3r1, m.c1r3, m.c2r3, m.c3r3);
        let k21: i128 = -minor3_exec(m.c0r0, m.c2r0, m.c3r0, m.c0r1, m.c2r1, m.c3r1, m.c0r3, m.c2r3, m.c3r3);
        let k22: i128 = minor3_exec(m.c0r0, m.c1r0, m.c3r0, m.c0r1, m.c1r1, m.c3r1, m.c0r3, m.c1r3, m.c3r3);
        let k23: i128 = -minor3_exec(m.c0r0, m.c1r0, m.c2r0, m.c0r1, m.c1r1, m.c2r1, m.c0r3, m.c1r3, m.c2r3);
        let k30: i128 = -minor3_exec(m.c1r0, m.c2r0, m.c3r0, m.c1r1, m.c2r1, m.c3r1, m.c1r2, m.c2r2, m.c3r2);
        let k31: i128 = minor3_exec(m.c0r0, m.c2r0, m.c3r0, m.c0r1, m.c2r1, m.c3r1, m.c0r2, m.c2r2, m.c3r2);
        let k32: i128 = -minor3_exec(m.c0r0, m.c1r0, m.c3r0, m.c0r1, m.c1r1, m.c3r1, m.c0r2, m.c1r2, m.c3r2);
        let k33: i128 = minor3_exec(m.c0r0, m.c1r0, m.c2r0, m.c0r1, m.c1r1, m.c2r1, m.c0r2, m.c1r2, m.c2r2);
        proof {
            let lim: int = LIMIT as int;
            lemma_mul_bound(m.c0r0 as int, k00 as int, lim, 6 * lim * lim * lim);
            lemma_mul_bound(m.c0r1 as int, k10 as int, lim, 6 * lim * lim * lim);
            lemma_mul_bound(m.c0r2 as int, k20 as int, lim, 6 * lim * lim * lim);
            lemma_mul_bound(m.c0r3 as int, k30 as int, lim, 6 * lim * lim * lim);
        }
        let det: i128 = (m.c0r0 as i128) * k00 + (m.c0r1 as i128) * k10 + (m.c0r2 as i128) * k20
            + (m.c0r3 as i128) * k30;
        assert(det as int == det4(*m));
        if det == 0 {
            return Err(TransformError::Singular);
        }
        let neg = det < 0;
        let mut out: Vec<Plane> = Vec::new();
        let mut i: usize = 0;
        while i < self.planes.len()
            invariant
                i <= self.planes@.len(),
                out@.len() == i,
                forall|j: int| 0 <= j < i ==> transforms_plane(
                    *m,
                    self.planes@[j],
                    #[trigger] out@[j],
                ) && (#[trigger] out@[j]).wf(),
            decreases self.planes@.len() - i,
        {
            let pl = self.planes[i];
            proof {
                let lim: int = LIMIT as int;
                let kb: int = 6 * lim * lim * lim;
                lemma_mul_bound(k00 as int, pl.normal.x as int, kb, lim);
                lemma_mul_bound(k01 as int, pl.normal.y as int, kb, lim);
                lemma_mul_bound(k02 as int, pl.normal.z as int, kb, lim);
                lemma_mul_bound(k03 as int, pl.d as int, kb, lim);
                lemma_mul_bound(k10 as int, pl.normal.x as int, kb, lim);
                lemma_mul_bound(k11 as int, pl.normal.y as int, kb, lim);
                lemma_mul_bound(k12 as int, pl.normal.z as int, kb, lim);
                lemma_mul_bound(k13 as int, pl.d as int, kb, lim);
                lemma_mul_bound(k20 as int, pl.normal.x as int, kb, lim);
                lemma_mul_bound(k21 as int, pl.normal.y as int, kb, lim);
                lemma_mul_bound(k22 as int, pl.normal.z as int, kb, lim);
                lemma_mul_bound(k23 as int, pl.d as int, kb, lim);
                lemma_mul_bound(k30 as int, pl.normal.x as int, kb, lim);
                lemma_mul_bound(k31 as int, pl.normal.y as int, kb, lim);
                lemma_mul_bound(k32 as int, pl.normal.z as int, kb, lim);
                lemma_mul_bound(k33 as int, pl.d as int, kb, lim);
            }
            let tx: i128 = k00 * (pl.normal.x as i128) + k01 * (pl.normal.y as i128)
                + k02 * (pl.normal.z as i128) + k03 * (pl.d as i128);
            let ty: i128 = k10 * (pl.normal.x as i128) + k11 * (pl.normal.y as i128)
                + k12 * (pl.normal.z as i128) + k13 * (pl.d as i128);
            let tz: i128 = k20 * (pl.normal.x as i128) + k21 * (pl.normal.y as i128)
                + k22 * (pl.normal.z as i128) + k23 * (pl.d as i128);
            let tw: i128 = k30 * (pl.normal.x as i128) + k31 * (pl.normal.y as i128)
                + k32 * (pl.normal.z as i128) + k33 * (pl.d as i128);
            assert(tx as int == tplane_x(*m, self.planes@[i as int]));
            assert(ty as int == tplane_y(*m, self.planes@[i as int]));
            assert(tz as int == tplane_z(*m, self.planes@[i as int]));
            assert(tw as int == tplane_w(*m, self.planes@[i as int]));
            let sx: i128 = if neg { -tx } else { tx };
            let sy: i128 = if neg { -ty } else { ty };
            let sz: i128 = if neg { -tz } else { tz };
            let sw: i128 = if neg { -tw } else { tw };
            out.push(Plane { normal: Vec3 { x: sx as i64, y: sy as i64, z: sz as i64 }, d: sw as i64 });
            i += 1;
        }
        self.planes = out;
        Ok(())
    }

    /// Like `transform`, but first verifies at run time that every
    /// transformed coefficient stays in the scalar range, so callers that
    /// cannot establish that bound ahead of time get an error instead of a
    /// precondition.  The hull is untouched on any error.
    #[verifier::loop_isolation(false)]
    pub fn transform_checked(&mut self, m: &Mat4) -> (r: Result<(), TransformError>)
        requires
            old(self).wf(),
            m.wf(),
        ensures
            r is Ok <==> det4(*m) != 0 && transform_fits(*m, old(self).planes@),
            r is Ok ==> {
                &&& final(self).planes@.len() == old(self).planes@.len()
                &&& forall|i: int| 0 <= i < old(self).planes@.len() ==> transforms_plane(
                    *m,
                    old(self).planes@[i],
                    #[trigger] final(self).planes@[i],
                )
                &&& final(self).wf()
            },
            r is Err ==> final(self).planes@ == old(self).planes@,
            det4(*m) == 0 ==> r == Err::<(), TransformError>(TransformError::Singular),
            det4(*m) != 0 && !transform_fits(*m, old(self).planes@) ==> r == Err::<
                (),
                TransformError,
            >(TransformError::OutOfRange),
    {
        let k00: i128 = minor3_exec(m.c1r1, m.c2r1, m.c3r1, m.c1r2, m.c2r2, m.c3r2, m.c1r3, m.c2r3, m.c3r3);
        let k01: i128 = -minor3_exec(m.c0r1, m.c2r1, m.c3r1, m.c0r2, m.c2r2, m.c3r2, m.c0r3, m.c2r3, m.c3r3);
        let k02: i128 = minor3_exec(m.c0r1, m.c1r1, m.c3r1, m.c0r2, m.c1r2, m.c3r2, m.c0r3, m.c1r3, m.c3r3);
        let k03: i128 = -minor3_exec(m.c0r1, m.c1r1, m.c2r1, m.c0r2, m.c1r2, m.c2r2, m.c0r3, m.c1r3, m.c2r3);
        let k10: i128 = -minor3_exec(m.c1r0, m.c2r0, m.c3r0, m.c1r2, m.c2r2, m.c3r2, m.c1r3, m.c2r3, m.c3r3);
        let k11: i128 = minor3_exec(m.c0r0, m.c2r0, m.c3r0, m.c0r2, m.c2r2, m.c3r2, m.c0r3, m.c2r3, m.c3r3);
        let k12: i128 = -minor3_exec(m.c0r0, m.c1r0, m.c3r0, m.c0r2, m.c1r2, m.c3r2, m.c0r3, m.c1r3, m.c3r3);
        let k13: i128 = minor3_exec(m.c0r0, m.c1r0, m.c2r0, m.c0r2, m.c1r2, m.c2r2, m.c0r3, m.c1r3, m.c2r3);
        let k20: i128 = minor3_exec(m.c1r0, m.c2r0, m.c3r0, m.c1r1, m.c2r1, m.c3r1, m.c1r3, m.c2r3, m.c3r3);
        let k21: i128 = -minor3_exec(m.c0r0, m.c2r0, m.c3r0, m.c0r1, m.c2r1, m.c3r1, m.c0r3, m.c2r3, m.c3r3);
        let k22: i128 = minor3_exec(m.c0r0, m.c1r0, m.c3r0, m.c0r1, m.c1r1, m.c3r1, m.c0r3, m.c1r3, m.c3r3);
        let k23: i128 = -minor3_exec(m.c0r0, m.c1r0, m.c2r0, m.c0r1, m.c1r1, m.c2r1, m.c0r3, m.c1r3, m.c2r3);
        let k30: i128 = -minor3_exec(m.c1r0, m.c2r0, m.c3r0, m.c1r1, m.c2r1, m.c3r1, m.c1r2, m.c2r2, m.c3r2);
        let k31: i128 = minor3_exec(m.c0r0, m.c2r0, m.c3r0, m.c0r1, m.c2r1, m.c3r1, m.c0r2, m.c2r2, m.c3r2);
        let k32: i128 = -minor3_exec(m.c0r0, m.c1r0, m.c3r0, m.c0r1, m.c1r1, m.c3r1, m.c0r2, m.c1r2, m.c3r2);
        let k33: i128 = minor3_exec(m.c0r0, m.c1r0, m.c2r0, m.c0r1, m.c1r1, m.c2r1, m.c0r2, m.c1r2, m.c2r2);
        proof {
            let lim: int = LIMIT as int;
            lemma_mul_bound(m.c0r0 as int, k00 as int, lim, 6 * lim * lim * lim);
            lemma_mul_bound(m.c0r1 as int, k10 as int, lim, 6 * lim * lim * lim);
            lemma_mul_bound(m.c0r2 as int, k20 as int, lim, 6 * lim * lim * lim);
            lemma_mul_bound(m.c0r3 as int, k30 as int, lim, 6 * lim * lim * lim);
        }
        let det: i128 = (m.c0r0 as i128) * k00 + (m.c0r1 as i128) * k10 + (m.c0r2 as i128) * k20
            + (m.c0r3 as i128) * k30;
        assert(det as int == det4(*m));
        if det == 0 {
            return Err(TransformError::Singular);
        }
        let lim_lo: i128 = -(LIMIT as i128);
        let lim_hi: i128 = LIMIT as i128;
        let mut i: usize = 0;
        while i < self.planes.len()
            invariant
                i <= self.planes@.len(),
                forall|j: int| 0 <= j < i ==> {
                    &&& in_range(tplane_x(*m, #[trigger] self.planes@[j]))
                    &&& in_range(tplane_y(*m, self.planes@[j]))
                    &&& in_range(tplane_z(*m, self.planes@[j]))
                    &&& in_range(tplane_w(*m, self.planes@[j]))
                },
            decreases self.planes@.len() - i,
        {
            let pl = self.planes[i];
            proof {
                let lim: int = LIMIT as int;
                let kb: int = 6 * lim * lim * lim;
                lemma_mul_bound(k00 as int, pl.normal.x as int, kb, lim);
                lemma_mul_bound(k01 as int, pl.normal.y as int, kb, lim);
                lemma_mul_bound(k02 as int, pl.normal.z as int, kb, lim);
                lemma_mul_bound(k03 as int, pl.d as int, kb, lim);
                lemma_mul_bound(k10 as int, pl.normal.x as int, kb, lim);
                lemma_mul_bound(k11 as int, pl.normal.y as int, kb, lim);
                lemma_mul_bound(k12 as int, pl.normal.z as int, kb, lim);
                lemma_mul_bound(k13 as int, pl.d as int, kb, lim);
                lemma_mul_bound(k20 as int, pl.normal.x as int, kb, lim);
                lemma_mul_bound(k21 as int, pl.normal.y as int, kb, lim);
                lemma_mul_bound(k22 as int, pl.normal.z as int, kb, lim);
                lemma_mul_bound(k23 as int, pl.d as int, kb, lim);
                lemma_mul_bound(k30 as int, pl.normal.x as int, kb, lim);
                lemma_mul_bound(k31 as int, pl.normal.y as int, kb, lim);
                lemma_mul_bound(k32 as int, pl.normal.z as int, kb, lim);
                lemma_mul_bound(k33 as int, pl.d as int, kb, lim);
            }
            let tx: i128 = k00 * (pl.normal.x as i128) + k01 * (pl.normal.y as i128)
                + k02 * (pl.normal.z as i128) + k03 * (pl.d as i128);
            let ty: i128 = k10 * (pl.normal.x as i128) + k11 * (pl.normal.y as i128)
                + k12 * (pl.normal.z as i128) + k13 * (pl.d as i128);
            let tz: i128 = k20 * (pl.normal.x as i128) + k21 * (pl.normal.y as i128)
                + k22 * (pl.normal.z as i128) + k23 * (pl.d as i128);
            let tw: i128 = k30 * (pl.normal.x as i128) + k31 * (pl.normal.y as i128)
                + k32 * (pl.normal.z as i128) + k33 * (pl.d as i128);
            assert(tx as int == tplane_x(*m, self.planes@[i as int]));
            assert(ty as int == tplane_y(*m, self.planes@[i as int]));
            assert(tz as int == tplane_z(*m, self.planes@[i as int]));
            assert(tw as int == tplane_w(*m, self.planes@[i as int]));
            if tx < lim_lo || tx > lim_hi || ty < lim_lo || ty > lim_hi || tz < lim_lo
                || tz > lim_hi || tw < lim_lo || tw > lim_hi {
                assert(!transform_fits(*m, self.planes@));
                return Err(TransformError::OutOfRange);
            }
            i += 1;
        }
        assert(transform_fits(*m, self.planes@));
        self.transform(m)
    }

    /// Human-readable dump of every plane, for diagnostics only; nothing is
    /// promised about its shape.  Relies on std's `format!` macro with the
    /// derived `Debug` formatting.
    #[verifier::external_body]
    pub fn debug_str(&self) -> String {
        format!("{:?}", self)
    }
}

/// A hull with no planes holds every point, and both volume queries answer
/// `Inside` for every box and every sphere.
pub proof fn lemma_empty_hull(p: Vec3, bb: AABB, c: Vec3, radius: i64)
    ensures
        hull_holds_point(Seq::<Plane>::empty(), p),
        aabb_state(Seq::<Plane>::empty(), bb) == IntersectionState::Inside,
        sphere_state(Seq::<Plane>::empty(), c, radius) == IntersectionState::Inside,
{
}

/// Conservative containment: the box is "contained" exactly when the
/// tri-state query does not prove it disjoint, i.e. on `Inside` and on
/// `Intersection`, and never on `Outside`.
pub proof fn lemma_contains_aabb_conservative(planes: Seq<Plane>, bb: AABB)
    ensures
        (aabb_state(planes, bb) != IntersectionState::Outside) <==> (aabb_state(planes, bb)
            == IntersectionState::Inside || aabb_state(planes, bb)
            == IntersectionState::Intersection),
{
}

/// Conservative containment for spheres, in the same sense.
pub proof fn lemma_contains_sphere_conservative(planes: Seq<Plane>, c: Vec3, radius: i64)
    ensures
        (sphere_state(planes, c, radius) != IntersectionState::Outside) <==> (sphere_state(
            planes,
            c,
            radius,
        ) == IntersectionState::Inside || sphere_state(planes, c, radius)
            == IntersectionState::Intersection),
{
}

/// A sphere centered exactly on a plane's surface, with positive radius,
/// straddles that plane: the plane contributes `Intersection`, never
/// `Outside` and never `Inside`.
pub proof fn lemma_sphere_on_plane_straddles(pl: Plane, c: Vec3, radius: i64)
    requires
        plane_dist(pl, c) == 0,
        radius > 0,
    ensures
        sphere_plane_state(pl, c, radius) == IntersectionState::Intersection,
{
}

/// The product `n * x` over `x` in `[lo, hi]` is bracketed by the products
/// at the ends, picked by the sign of `n`.
proof fn lemma_axis_term_bounds(n: int, lo: int, hi: int, x: int)
    by (nonlinear_arith)
    requires
        lo <= x,
        x <= hi,
    ensures
        (if n >= 0 { n * lo } else { n * hi }) <= n * x,
        n * x <= (if n >= 0 { n * hi } else { n * lo }),
{
}

/// Soundness of the corner trick: over all points of a box, the near
/// corner has the smallest signed distance to a plane and the far corner
/// the largest.
pub proof fn lemma_corner_extremal(pl: Plane, bb: AABB, p: Vec3)
    requires
        aabb_holds_point(bb, p),
    ensures
        plane_dist(pl, near_corner(pl, bb)) <= plane_dist(pl, p),
        plane_dist(pl, p) <= plane_dist(pl, far_corner(pl, bb)),
{
    lemma_axis_term_bounds(pl.normal.x as int, bb.min.x as int, bb.max.x as int, p.x as int);
    lemma_axis_term_bounds(pl.normal.y as int, bb.min.y as int, bb.max.y as int, p.y as int);
    lemma_axis_term_bounds(pl.normal.z as int, bb.min.z as int, bb.max.z as int, p.z as int);
}

/// A box reported `Outside` is truly disjoint: no point of it is held by
/// the hull.
pub proof fn lemma_aabb_outside_disjoint(planes: Seq<Plane>, bb: AABB, p: Vec3)
    requires
        aabb_state(planes, bb) == IntersectionState::Outside,
        aabb_holds_point(bb, p),
    ensures
        !hull_holds_point(planes, p),
{
    let i = choose|i: int|
        0 <= i < planes.len() && plane_dist(#[trigger] planes[i], near_corner(planes[i], bb))
            > 0;
    lemma_corner_extremal(planes[i], bb, p);
    assert(plane_dist(planes[i], p) > 0);
}

/// A box reported `Inside` is truly enclosed: every point of it is held
/// by the hull.
pub proof fn lemma_aabb_inside_enclosed(planes: Seq<Plane>, bb: AABB, p: Vec3)
    requires
        aabb_state(planes, bb) == IntersectionState::Inside,
        aabb_holds_point(bb, p),
    ensures
        hull_holds_point(planes, p),
{
    assert forall|i: int| 0 <= i < planes.len() implies plane_dist(#[trigger] planes[i], p)
        <= 0 by {
        assert(plane_dist(planes[i], far_corner(planes[i], bb)) <= 0);
        lemma_corner_extremal(planes[i], bb, p);
    }
}

/// Carrying one plane through a pure translation moves its boundary with
/// the points: the translated point has the same signed distance to the
/// transformed plane as the original point had to the original plane.
pub proof fn lemma_translation_plane_dist(
    tx: i64, ty: i64, tz: i64,
    a: Plane, b: Plane,
    p: Vec3, q: Vec3,
)
    requires
        transforms_plane(translation_mat(tx, ty, tz), a, b),
        q.x as int == p.x + tx,
        q.y as int == p.y + ty,
        q.z as int == p.z + tz,
    ensures
        plane_dist(b, q) == plane_dist(a, p),
{
    lemma_translation_plane_parts(tx, ty, tz, a, b);
    lemma_mul_dist_add(a.normal.x as int, p.x as int, tx as int);
    lemma_mul_dist_add(a.normal.y as int, p.y as int, ty as int);
    lemma_mul_dist_add(a.normal.z as int, p.z as int, tz as int);
    lemma_mul_comm(a.normal.x as int, tx as int);
    lemma_mul_comm(a.normal.y as int, ty as int);
    lemma_mul_comm(a.normal.z as int, tz as int);
    lemma_neg_mul(tx as int, a.normal.x as int);
    lemma_neg_mul(ty as int, a.normal.y as int);
    lemma_neg_mul(tz as int, a.normal.z as int);
}

/// A plane carried through a pure translation keeps its normal; only the
/// offset moves, by the normal's projection onto the translation.
proof fn lemma_translation_plane_parts(tx: i64, ty: i64, tz: i64, a: Plane, b: Plane)
    requires
        transforms_plane(translation_mat(tx, ty, tz), a, b),
    ensures
        b.normal == a.normal,
        b.d as int == (-tx) * a.normal.x + (-ty) * a.normal.y + (-tz) * a.normal.z + a.d,
{
    let m = translation_mat(tx, ty, tz);
    assert(m == (Mat4 {
        c0r0: 1, c0r1: 0, c0r2: 0, c0r3: 0,
        c1r0: 0, c1r1: 1, c1r2: 0, c1r3: 0,
        c2r0: 0, c2r1: 0, c2r2: 1, c2r3: 0,
        c3r0: tx, c3r1: ty, c3r2: tz, c3r3: 1,
    }));
    assert(cof00(m) == 1);
    assert(cof01(m) == 0);
    assert(cof02(m) == 0);
    assert(cof03(m) == 0);
    assert(cof10(m) == 0);
    assert(cof11(m) == 1);
    assert(cof12(m) == 0);
    assert(cof13(m) == 0);
    assert(cof20(m) == 0);
    assert(cof21(m) == 0);
    assert(cof22(m) == 1);
    assert(cof23(m) == 0);
    assert(cof30(m) == -tx);
    assert(cof31(m) == -ty);
    assert(cof32(m) == -tz);
    assert(cof33(m) == 1);
    assert(det4(m) == 1);
    assert(b.normal.x == a.normal.x);
    assert(b.normal.y == a.normal.y);
    assert(b.normal.z == a.normal.z);
}

/// Moving a hull by a translation and moving a point the same way leaves
/// the containment answer unchanged: geometric invariance of the hull
/// transform, in the translation case.
pub proof fn lemma_translation_preserves_containment(
    tx: i64, ty: i64, tz: i64,
    planes: Seq<Plane>, tplanes: Seq<Plane>,
    p: Vec3, q: Vec3,
)
    requires
        tplanes.len() == planes.len(),
        forall|i: int| 0 <= i < planes.len() ==> transforms_plane(
            translation_mat(tx, ty, tz),
            planes[i],
            #[trigger] tplanes[i],
        ),
        q.x as int == p.x + tx,
        q.y as int == p.y + ty,
        q.z as int == p.z + tz,
    ensures
        hull_holds_point(tplanes, q) == hull_holds_point(planes, p),
{
    assert forall|i: int| 0 <= i < planes.len() implies plane_dist(#[trigger] tplanes[i], q)
        == plane_dist(planes[i], p) by {
        lemma_translation_plane_dist(tx, ty, tz, planes[i], tplanes[i], p, q);
    }
    if hull_holds_point(planes, p) {
        assert forall|i: int| 0 <= i < tplanes.len() implies plane_dist(
            #[trigger] tplanes[i],
            q,
        ) <= 0 by {
            assert(plane_dist(planes[i], p) <= 0);
        }
    }
    if hull_holds_point(tplanes, q) {
        assert forall|i: int| 0 <= i < planes.len() implies plane_dist(
            #[trigger] planes[i],
            p,
        ) <= 0 by {
            assert(plane_dist(tplanes[i], q) <= 0);
        }
    }
}

/// Moving a hull and a box by the same translation leaves the tri-state
/// box query unchanged.
pub proof fn lemma_translation_preserves_aabb_state(
    tx: i64, ty: i64, tz: i64,
    planes: Seq<Plane>, tplanes: Seq<Plane>,
    bb: AABB, tbb: AABB,
)
    requires
        tplanes.len() == planes.len(),
        forall|i: int| 0 <= i < planes.len() ==> transforms_plane(
            translation_mat(tx, ty, tz),
            planes[i],
            #[trigger] tplanes[i],
        ),
        tbb.min.x as int == bb.min.x + tx,
        tbb.min.y as int == bb.min.y + ty,
        tbb.min.z as int == bb.min.z + tz,
        tbb.max.x as int == bb.max.x + tx,
        tbb.max.y as int == bb.max.y + ty,
        tbb.max.z as int == bb.max.z + tz,
    ensures
        aabb_state(tplanes, tbb) == aabb_state(planes, bb),
{
    assert forall|i: int| 0 <= i < planes.len() implies {
        &&& plane_dist(#[trigger] tplanes[i], near_corner(tplanes[i], tbb)) == plane_dist(
            planes[i],
            near_corner(planes[i], bb),
        )
        &&& plane_dist(tplanes[i], far_corner(tplanes[i], tbb)) == plane_dist(
            planes[i],
            far_corner(planes[i], bb),
        )
    } by {
        lemma_translation_plane_parts(tx, ty, tz, planes[i], tplanes[i]);
        lemma_translation_plane_dist(
            tx, ty, tz,
            planes[i], tplanes[i],
            near_corner(planes[i], bb), near_corner(tplanes[i], tbb),
        );
        lemma_translation_plane_dist(
            tx, ty, tz,
            planes[i], tplanes[i],
            far_corner(planes[i], bb), far_corner(tplanes[i], tbb),
        );
    }
    if aabb_outside(planes, bb) {
        let i = choose|i: int|
            0 <= i < planes.len() && plane_dist(#[trigger] planes[i], near_corner(planes[i], bb))
                > 0;
        assert(plane_dist(tplanes[i], near_corner(tplanes[i], tbb)) > 0);
        assert(aabb_outside(tplanes, tbb));
    }
    if aabb_outside(tplanes, tbb) {
        let i = choose|i: int|
            0 <= i < tplanes.len() && plane_dist(
                #[trigger] tplanes[i],
                near_corner(tplanes[i], tbb),
            ) > 0;
        assert(plane_dist(planes[i], near_corner(planes[i], bb)) > 0);
        assert(aabb_outside(planes, bb));
    }
    if aabb_straddles(planes, bb) {
        let i = choose|i: int|
            0 <= i < planes.len() && plane_dist(#[trigger] planes[i], far_corner(planes[i], bb))
                > 0;
        assert(plane_dist(tplanes[i], far_corner(tplanes[i], tbb)) > 0);
        assert(aabb_straddles(tplanes, tbb));
    }
    if aabb_straddles(tplanes, tbb) {
        let i = choose|i: int|
            0 <= i < tplanes.len() && plane_dist(
                #[trigger] tplanes[i],
                far_corner(tplanes[i], tbb),
            ) > 0;
        assert(plane_dist(planes[i], far_corner(planes[i], bb)) > 0);
        assert(aabb_straddles(planes, bb));
    }
}

/// In a whole hull, a plane through the sphere's center keeps the sphere
/// query from answering `Inside`.
pub proof fn lemma_sphere_on_plane_not_inside(planes: Seq<Plane>, i: int, c: Vec3, radius: i64)
    requires
        0 <= i < planes.len(),
        plane_dist(planes[i], c) == 0,
        radius > 0,
    ensures
        sphere_state(planes, c, radius) != IntersectionState::Inside,
{
    assert(plane_dist(planes[i], c) > -(radius as int));
    assert(sphere_straddles(planes, c, radius));
}

} // verus!
