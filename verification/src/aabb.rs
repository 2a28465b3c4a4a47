//! Axis-aligned bounding boxes with exact accumulation and the
//! Graphics-Gems affine transform.

use vstd::prelude::*;
use crate::vec3::Vec3;
use crate::vec3::in_range;
use crate::vec3::lemma_mul_bound;
use crate::vec3::LIMIT;
use crate::mat4::Mat4;
use crate::mat4::identity_mat;
use crate::mat4::translation_mat;

verus! {

/// An axis-aligned box between two corner points.  `min <= max` on every
/// axis is its normal form; the `empty_aabb` sentinel deliberately violates
/// it so that any accumulated point replaces both corners.
#[derive(Clone, Copy, Debug, PartialEq, Eq, Structural)]
pub struct AABB {
    pub min: Vec3,
    pub max: Vec3,
}

/// The "nothing yet" sentinel: every coordinate of `min` is the largest
/// scalar and every coordinate of `max` the smallest, so folding any point
/// into it yields that point as both corners.
pub open spec fn empty_aabb() -> AABB {
    AABB {
        min: Vec3 { x: i64::MAX, y: i64::MAX, z: i64::MAX },
        max: Vec3 { x: i64::MIN, y: i64::MIN, z: i64::MIN },
    }
}

/// One step of bound accumulation: widen `bb` just enough to cover `p`.
pub open spec fn fold_point(bb: AABB, p: Vec3) -> AABB {
    AABB {
        min: Vec3 {
            x: if p.x < bb.min.x { p.x } else { bb.min.x },
            y: if p.y < bb.min.y { p.y } else { bb.min.y },
            z: if p.z < bb.min.z { p.z } else { bb.min.z },
        },
        max: Vec3 {
            x: if p.x > bb.max.x { p.x } else { bb.max.x },
            y: if p.y > bb.max.y { p.y } else { bb.max.y },
            z: if p.z > bb.max.z { p.z } else { bb.max.z },
        },
    }
}

/// The tight bounding box of a point sequence, starting from the empty
/// sentinel.
pub open spec fn aabb_of_points(pts: Seq<Vec3>) -> AABB
    decreases pts.len(),
{
    if pts.len() == 0 {
        empty_aabb()
    } else {
        fold_point(aabb_of_points(pts.drop_last()), pts.last())
    }
}

/// Inclusive per-axis range test; boundary points count as contained.
pub open spec fn aabb_holds_point(bb: AABB, p: Vec3) -> bool {
    &&& bb.min.x <= p.x <= bb.max.x
    &&& bb.min.y <= p.y <= bb.max.y
    &&& bb.min.z <= p.z <= bb.max.z
}

/// The smaller of `mij * lo` and `mij * hi`: the contribution of one source
/// axis to a transformed minimum.
pub open spec fn lo_term(mij: int, lo: int, hi: int) -> int {
    if mij * lo <= mij * hi {
        mij * lo
    } else {
        mij * hi
    }
}

/// The larger of `mij * lo` and `mij * hi`.
pub open spec fn hi_term(mij: int, lo: int, hi: int) -> int {
    if mij * lo <= mij * hi {
        mij * hi
    } else {
        mij * lo
    }
}

pub open spec fn tmin_x(m: Mat4, bb: AABB) -> int {
    m.c3r0 + lo_term(m.c0r0 as int, bb.min.x as int, bb.max.x as int)
        + lo_term(m.c1r0 as int, bb.min.y as int, bb.max.y as int)
        + lo_term(m.c2r0 as int, bb.min.z as int, bb.max.z as int)
}

pub open spec fn tmin_y(m: Mat4, bb: AABB) -> int {
    m.c3r1 + lo_term(m.c0r1 as int, bb.min.x as int, bb.max.x as int)
        + lo_term(m.c1r1 as int, bb.min.y as int, bb.max.y as int)
        + lo_term(m.c2r1 as int, bb.min.z as int, bb.max.z as int)
}

pub open spec fn tmin_z(m: Mat4, bb: AABB) -> int {
    m.c3r2 + lo_term(m.c0r2 as int, bb.min.x as int, bb.max.x as int)
        + lo_term(m.c1r2 as int, bb.min.y as int, bb.max.y as int)
        + lo_term(m.c2r2 as int, bb.min.z as int, bb.max.z as int)
}

pub open spec fn tmax_x(m: Mat4, bb: AABB) -> int {
    m.c3r0 + hi_term(m.c0r0 as int, bb.min.x as int, bb.max.x as int)
        + hi_term(m.c1r0 as int, bb.min.y as int, bb.max.y as int)
        + hi_term(m.c2r0 as int, bb.min.z as int, bb.max.z as int)
}

pub open spec fn tmax_y(m: Mat4, bb: AABB) -> int {
    m.c3r1 + hi_term(m.c0r1 as int, bb.min.x as int, bb.max.x as int)
        + hi_term(m.c1r1 as int, bb.min.y as int, bb.max.y as int)
        + hi_term(m.c2r1 as int, bb.min.z as int, bb.max.z as int)
}

pub open spec fn tmax_z(m: Mat4, bb: AABB) -> int {
    m.c3r2 + hi_term(m.c0r2 as int, bb.min.x as int, bb.max.x as int)
        + hi_term(m.c1r2 as int, bb.min.y as int, bb.max.y as int)
        + hi_term(m.c2r2 as int, bb.min.z as int, bb.max.z as int)
}

/// The smaller of the two products `mij * lo` and `mij * hi`, exactly.
fn lo_term_exec(mij: i64, lo: i64, hi: i64) -> (r: i128)
    requires
        in_range(mij as int),
        in_range(lo as int),
        in_range(hi as int),
    ensures
        r as int == lo_term(mij as int, lo as int, hi as int),
        -((LIMIT as int) * (LIMIT as int)) <= r as int <= (LIMIT as int) * (LIMIT as int),
{
    proof {
        let lim: int = LIMIT as int;
        lemma_mul_bound(mij as int, lo as int, lim, lim);
        lemma_mul_bound(mij as int, hi as int, lim, lim);
    }
    let a: i128 = (mij as i128) * (lo as i128);
    let b: i128 = (mij as i128) * (hi as i128);
    if a <= b {
        a
    } else {
        b
    }
}

/// The larger of the two products `mij * lo` and `mij * hi`, exactly.
fn hi_term_exec(mij: i64, lo: i64, hi: i64) -> (r: i128)
    requires
        in_range(mij as int),
        in_range(lo as int),
        in_range(hi as int),
    ensures
        r as int == hi_term(mij as int, lo as int, hi as int),
        -((LIMIT as int) * (LIMIT as int)) <= r as int <= (LIMIT as int) * (LIMIT as int),
{
    proof {
        let lim: int = LIMIT as int;
        lemma_mul_bound(mij as int, lo as int, lim, lim);
        lemma_mul_bound(mij as int, hi as int, lim, lim);
    }
    let a: i128 = (mij as i128) * (lo as i128);
    let b: i128 = (mij as i128) * (hi as i128);
    if a <= b {
        b
    } else {
        a
    }
}

impl AABB {
    /// Both corners lie in the admitted scalar range.
    pub open spec fn wf(self) -> bool {
        self.min.wf() && self.max.wf()
    }

    /// Builds a box from six corner scalars.
    pub fn from_i64(min_x: i64, min_y: i64, min_z: i64, max_x: i64, max_y: i64, max_z: i64) -> (r: AABB)
        ensures
            r == (AABB {
                min: Vec3 { x: min_x, y: min_y, z: min_z },
                max: Vec3 { x: max_x, y: max_y, z: max_z },
            }),
    {
        AABB {
            min: Vec3 { x: min_x, y: min_y, z: min_z },
            max: Vec3 { x: max_x, y: max_y, z: max_z },
        }
    }

    /// Builds a box from a 6-element buffer
    /// `[min_x, min_y, min_z, max_x, max_y, max_z]`.
    pub fn from_slice(s: &[i64]) -> (r: AABB)
        requires
            s@.len() == 6,
        ensures
            r == (AABB {
                min: Vec3 { x: s@[0], y: s@[1], z: s@[2] },
                max: Vec3 { x: s@[3], y: s@[4], z: s@[5] },
            }),
    {
        AABB {
            min: Vec3 { x: s[0], y: s[1], z: s[2] },
            max: Vec3 { x: s[3], y: s[4], z: s[5] },
        }
    }

    /// Replaces the box by the tight bounds of `points`; an empty slice
    /// leaves the empty sentinel.
    pub fn set_from_points(&mut self, points: &[Vec3])
        ensures
            *final(self) == aabb_of_points(points@),
    {
        self.min = Vec3 { x: i64::MAX, y: i64::MAX, z: i64::MAX };
        self.max = Vec3 { x: i64::MIN, y: i64::MIN, z: i64::MIN };
        let mut i: usize = 0;
        while i < points.len()
            invariant
                i <= points@.len(),
                *self == aabb_of_points(points@.take(i as int)),
            decreases points@.len() - i,
        {
            let p = points[i];
            if p.x < self.min.x {
                self.min.x = p.x;
            }
            if p.y < self.min.y {
                self.min.y = p.y;
            }
            if p.z < self.min.z {
                self.min.z = p.z;
            }
            if p.x > self.max.x {
                self.max.x = p.x;
            }
            if p.y > self.max.y {
                self.max.y = p.y;
            }
            if p.z > self.max.z {
                self.max.z = p.z;
            }
            proof {
                assert(points@.take(i as int + 1).drop_last() =~= points@.take(i as int));
                assert(points@.take(i as int + 1).last() == points@[i as int]);
            }
            i += 1;
        }
        proof {
            assert(points@.take(points@.len() as int) =~= points@);
        }
    }

    /// Inclusive containment test for a point.
    pub fn contains_point(&self, p: &Vec3) -> (r: bool)
        ensures
            r == aabb_holds_point(*self, *p),
    {
        !(p.x < self.min.x || p.x > self.max.x || p.y < self.min.y || p.y > self.max.y
            || p.z < self.min.z || p.z > self.max.z)
    }

    /// Applies an affine transform (column-major, translation in the last
    /// column) while staying axis-aligned: both new corners start at the
    /// translation, and each source axis contributes the smaller of
    /// `m * min` and `m * max` to the new minimum and the larger to the new
    /// maximum.  Exact for every affine matrix, with no need to transform
    /// all eight corners.
    pub fn transform(&mut self, m: &Mat4)
        requires
            old(self).wf(),
            m.wf(),
        ensures
            final(self).min.x as int == tmin_x(*m, *old(self)),
            final(self).min.y as int == tmin_y(*m, *old(self)),
            final(self).min.z as int == tmin_z(*m, *old(self)),
            final(self).max.x as int == tmax_x(*m, *old(self)),
            final(self).max.y as int == tmax_y(*m, *old(self)),
            final(self).max.z as int == tmax_z(*m, *old(self)),
    {
        let lo = self.min;
        let hi = self.max;
        let min_x: i128 = (m.c3r0 as i128) + lo_term_exec(m.c0r0, lo.x, hi.x)
            + lo_term_exec(m.c1r0, lo.y, hi.y) + lo_term_exec(m.c2r0, lo.z, hi.z);
        let min_y: i128 = (m.c3r1 as i128) + lo_term_exec(m.c0r1, lo.x, hi.x)
            + lo_term_exec(m.c1r1, lo.y, hi.y) + lo_term_exec(m.c2r1, lo.z, hi.z);
        let min_z: i128 = (m.c3r2 as i128) + lo_term_exec(m.c0r2, lo.x, hi.x)
            + lo_term_exec(m.c1r2, lo.y, hi.y) + lo_term_exec(m.c2r2, lo.z, hi.z);
        let max_x: i128 = (m.c3r0 as i128) + hi_term_exec(m.c0r0, lo.x, hi.x)
            + hi_term_exec(m.c1r0, lo.y, hi.y) + hi_term_exec(m.c2r0, lo.z, hi.z);
        let max_y: i128 = (m.c3r1 as i128) + hi_term_exec(m.c0r1, lo.x, hi.x)
            + hi_term_exec(m.c1r1, lo.y, hi.y) + hi_term_exec(m.c2r1, lo.z, hi.z);
        let max_z: i128 = (m.c3r2 as i128) + hi_term_exec(m.c0r2, lo.x, hi.x)
            + hi_term_exec(m.c1r2, lo.y, hi.y) + hi_term_exec(m.c2r2, lo.z, hi.z);
        self.min = Vec3 { x: min_x as i64, y: min_y as i64, z: min_z as i64 };
        self.max = Vec3 { x: max_x as i64, y: max_y as i64, z: max_z as i64 };
    }
}

impl Default for AABB {
    /// The empty sentinel box.
    fn default() -> (r: AABB)
        ensures
            r == empty_aabb(),
    {
        AABB {
            min: Vec3 { x: i64::MAX, y: i64::MAX, z: i64::MAX },
            max: Vec3 { x: i64::MIN, y: i64::MIN, z: i64::MIN },
        }
    }
}

/// Transforming a normal-form box by the identity matrix leaves both
/// corners unchanged.
pub proof fn lemma_transform_identity(bb: AABB)
    requires
        bb.min.x <= bb.max.x,
        bb.min.y <= bb.max.y,
        bb.min.z <= bb.max.z,
    ensures
        tmin_x(identity_mat(), bb) == bb.min.x,
        tmin_y(identity_mat(), bb) == bb.min.y,
        tmin_z(identity_mat(), bb) == bb.min.z,
        tmax_x(identity_mat(), bb) == bb.max.x,
        tmax_y(identity_mat(), bb) == bb.max.y,
        tmax_z(identity_mat(), bb) == bb.max.z,
{
}

/// Transforming a normal-form box by a pure translation shifts both
/// corners by the translation and keeps the extents.
pub proof fn lemma_transform_translation(bb: AABB, tx: i64, ty: i64, tz: i64)
    requires
        bb.min.x <= bb.max.x,
        bb.min.y <= bb.max.y,
        bb.min.z <= bb.max.z,
    ensures
        tmin_x(translation_mat(tx, ty, tz), bb) == bb.min.x + tx,
        tmin_y(translation_mat(tx, ty, tz), bb) == bb.min.y + ty,
        tmin_z(translation_mat(tx, ty, tz), bb) == bb.min.z + tz,
        tmax_x(translation_mat(tx, ty, tz), bb) == bb.max.x + tx,
        tmax_y(translation_mat(tx, ty, tz), bb) == bb.max.y + ty,
        tmax_z(translation_mat(tx, ty, tz), bb) == bb.max.z + tz,
        tmax_x(translation_mat(tx, ty, tz), bb) - tmin_x(translation_mat(tx, ty, tz), bb)
            == bb.max.x - bb.min.x,
        tmax_y(translation_mat(tx, ty, tz), bb) - tmin_y(translation_mat(tx, ty, tz), bb)
            == bb.max.y - bb.min.y,
        tmax_z(translation_mat(tx, ty, tz), bb) - tmin_z(translation_mat(tx, ty, tz), bb)
            == bb.max.z - bb.min.z,
{
}

} // verus!
