//! Oriented half-space planes.  A plane `(normal, d)` stands for the
//! boundary `{p : dot(normal, p) + d == 0}`; the half-space
//! `dot(normal, p) + d <= 0` is the "inside" side.

use vstd::prelude::*;
use crate::vec3::Vec3;
use crate::vec3::dot;
use crate::vec3::dist_sq;
use crate::vec3::in_range;
use crate::vec3::lemma_mul_bound;
use crate::vec3::lemma_mul_comm;
use crate::vec3::lemma_mul_dist_sub;
use crate::vec3::lemma_factor3;
use crate::vec3::lemma_factor4;
use crate::vec3::lemma_swap5;
use crate::vec3::dot_i128;
use crate::vec3::LIMIT;
use crate::mat4::Mat4;

verus! {

/// An oriented half-space boundary.  `dot(normal, p) + d` is the signed
/// distance of `p`, scaled by the length of `normal`: positive means
/// outside, non-positive inside.
#[derive(Clone, Copy, Debug, PartialEq, Eq, Structural)]
pub struct Plane {
    pub normal: Vec3,
    pub d: i64,
}

/// Signed (scaled) distance from a point to a plane.
pub open spec fn plane_dist(pl: Plane, p: Vec3) -> int {
    dot(pl.normal, p) + pl.d
}

/// `b` is `a` with both normal and offset flipped.
pub open spec fn negates(a: Plane, b: Plane) -> bool {
    &&& b.normal.x as int == -(a.normal.x as int)
    &&& b.normal.y as int == -(a.normal.y as int)
    &&& b.normal.z as int == -(a.normal.z as int)
    &&& b.d as int == -(a.d as int)
}

/// First cross-product component of the two edge vectors of a triangle.
pub open spec fn tri_normal_x(p0: Vec3, p1: Vec3, p2: Vec3) -> int {
    (p1.y - p0.y) * (p2.z - p0.z) - (p1.z - p0.z) * (p2.y - p0.y)
}

pub open spec fn tri_normal_y(p0: Vec3, p1: Vec3, p2: Vec3) -> int {
    (p1.z - p0.z) * (p2.x - p0.x) - (p1.x - p0.x) * (p2.z - p0.z)
}

pub open spec fn tri_normal_z(p0: Vec3, p1: Vec3, p2: Vec3) -> int {
    (p1.x - p0.x) * (p2.y - p0.y) - (p1.y - p0.y) * (p2.x - p0.x)
}

/// Offset that places the triangle's plane through `p0`.
pub open spec fn tri_d(p0: Vec3, p1: Vec3, p2: Vec3) -> int {
    -(tri_normal_x(p0, p1, p2) * p0.x + tri_normal_y(p0, p1, p2) * p0.y
        + tri_normal_z(p0, p1, p2) * p0.z)
}

/// Row `r` of `m` applied to the homogeneous plane coefficients
/// `(normal.x, normal.y, normal.z, d)`.
pub open spec fn transform_x(m: Mat4, pl: Plane) -> int {
    m.c0r0 * pl.normal.x + m.c1r0 * pl.normal.y + m.c2r0 * pl.normal.z + m.c3r0 * pl.d
}

pub open spec fn transform_y(m: Mat4, pl: Plane) -> int {
    m.c0r1 * pl.normal.x + m.c1r1 * pl.normal.y + m.c2r1 * pl.normal.z + m.c3r1 * pl.d
}

pub open spec fn transform_z(m: Mat4, pl: Plane) -> int {
    m.c0r2 * pl.normal.x + m.c1r2 * pl.normal.y + m.c2r2 * pl.normal.z + m.c3r2 * pl.d
}

pub open spec fn transform_w(m: Mat4, pl: Plane) -> int {
    m.c0r3 * pl.normal.x + m.c1r3 * pl.normal.y + m.c2r3 * pl.normal.z + m.c3r3 * pl.d
}

/// Where a parametric line crosses a plane, as a homogeneous point: the
/// crossing is `(x / w, y / w, z / w)`.
#[derive(Clone, Copy, Debug, PartialEq, Eq, Structural)]
pub struct LineHit {
    pub x: i128,
    pub y: i128,
    pub z: i128,
    pub w: i128,
}

impl Plane {
    /// All four coefficients lie in the admitted scalar range.
    pub open spec fn wf(self) -> bool {
        self.normal.wf() && in_range(self.d as int)
    }

    /// Signed (scaled) distance from `p` to the plane.  It is the true
    /// Euclidean distance exactly when the normal has unit length.
    pub fn distance(&self, p: &Vec3) -> (r: i64)
        requires
            self.wf(),
            p.wf(),
        ensures
            r as int == plane_dist(*self, *p),
    {
        let s: i128 = dot_i128(&self.normal, p) + (self.d as i128);
        s as i64
    }

    /// Flips which side of the plane counts as inside.
    pub fn negate(&mut self)
        requires
            old(self).wf(),
        ensures
            negates(*old(self), *final(self)),
            final(self).wf(),
    {
        self.normal.x = -self.normal.x;
        self.normal.y = -self.normal.y;
        self.normal.z = -self.normal.z;
        self.d = -self.d;
    }

    /// Sets the plane through the three points of a triangle: the normal is
    /// the cross product of the edges out of `p0` (so winding picks the
    /// orientation) and the offset places the plane on all three points.
    /// Collinear points give a zero normal; that is not rejected here.
    pub fn set_tri(&mut self, p0: &Vec3, p1: &Vec3, p2: &Vec3)
        requires
            p0.wf(),
            p1.wf(),
            p2.wf(),
            in_range(tri_normal_x(*p0, *p1, *p2)),
            in_range(tri_normal_y(*p0, *p1, *p2)),
            in_range(tri_normal_z(*p0, *p1, *p2)),
            in_range(tri_d(*p0, *p1, *p2)),
        ensures
            final(self).normal.x as int == tri_normal_x(*p0, *p1, *p2),
            final(self).normal.y as int == tri_normal_y(*p0, *p1, *p2),
            final(self).normal.z as int == tri_normal_z(*p0, *p1, *p2),
            final(self).d as int == tri_d(*p0, *p1, *p2),
            final(self).wf(),
            plane_dist(*final(self), *p0) == 0,
            plane_dist(*final(self), *p1) == 0,
            plane_dist(*final(self), *p2) == 0,
    {
        proof {
            let lim: int = LIMIT as int;
            lemma_mul_bound(p1.y - p0.y, p2.z - p0.z, 2 * lim, 2 * lim);
            lemma_mul_bound(p1.z - p0.z, p2.y - p0.y, 2 * lim, 2 * lim);
            lemma_mul_bound(p1.z - p0.z, p2.x - p0.x, 2 * lim, 2 * lim);
            lemma_mul_bound(p1.x - p0.x, p2.z - p0.z, 2 * lim, 2 * lim);
            lemma_mul_bound(p1.x - p0.x, p2.y - p0.y, 2 * lim, 2 * lim);
            lemma_mul_bound(p1.y - p0.y, p2.x - p0.x, 2 * lim, 2 * lim);
        }
        let ex: i128 = (p1.x as i128) - (p0.x as i128);
        let ey: i128 = (p1.y as i128) - (p0.y as i128);
        let ez: i128 = (p1.z as i128) - (p0.z as i128);
        let fx: i128 = (p2.x as i128) - (p0.x as i128);
        let fy: i128 = (p2.y as i128) - (p0.y as i128);
        let fz: i128 = (p2.z as i128) - (p0.z as i128);
        let nx: i128 = ey * fz - ez * fy;
        let ny: i128 = ez * fx - ex * fz;
        let nz: i128 = ex * fy - ey * fx;
        proof {
            let lim: int = LIMIT as int;
            lemma_mul_bound(nx as int, p0.x as int, lim, lim);
            lemma_mul_bound(ny as int, p0.y as int, lim, lim);
            lemma_mul_bound(nz as int, p0.z as int, lim, lim);
        }
        let dd: i128 = -(nx * (p0.x as i128) + ny * (p0.y as i128) + nz * (p0.z as i128));
        self.normal.x = nx as i64;
        self.normal.y = ny as i64;
        self.normal.z = nz as i64;
        self.d = dd as i64;
        proof {
            lemma_tri_plane_through_points(*p0, *p1, *p2);
        }
    }

    /// The point where the line `p + t * dir` crosses the plane, as a
    /// homogeneous point scaled by `w == dot(normal, dir)`.  A line parallel
    /// to the plane (`dot(normal, dir) == 0`) has no such point and is ruled
    /// out by the caller.
    pub fn intersect_line(&self, p: &Vec3, dir: &Vec3) -> (r: LineHit)
        requires
            self.wf(),
            p.wf(),
            dir.wf(),
            dot(self.normal, *dir) != 0,
        ensures
            r.w as int == dot(self.normal, *dir),
            r.w != 0,
            r.x as int == dot(self.normal, *dir) * p.x - plane_dist(*self, *p) * dir.x,
            r.y as int == dot(self.normal, *dir) * p.y - plane_dist(*self, *p) * dir.y,
            r.z as int == dot(self.normal, *dir) * p.z - plane_dist(*self, *p) * dir.z,
            (self.normal.x as int) * r.x + (self.normal.y as int) * r.y
                + (self.normal.z as int) * r.z + (self.d as int) * r.w == 0,
    {
        let den: i128 = dot_i128(&self.normal, dir);
        let num: i128 = dot_i128(&self.normal, p) + (self.d as i128);
        proof {
            let lim: int = LIMIT as int;
            lemma_mul_bound(den as int, p.x as int, 4 * lim * lim, lim);
            lemma_mul_bound(den as int, p.y as int, 4 * lim * lim, lim);
            lemma_mul_bound(den as int, p.z as int, 4 * lim * lim, lim);
            lemma_mul_bound(num as int, dir.x as int, 4 * lim * lim, lim);
            lemma_mul_bound(num as int, dir.y as int, 4 * lim * lim, lim);
            lemma_mul_bound(num as int, dir.z as int, 4 * lim * lim, lim);
        }
        let r = LineHit {
            x: den * (p.x as i128) - num * (dir.x as i128),
            y: den * (p.y as i128) - num * (dir.y as i128),
            z: den * (p.z as i128) - num * (dir.z as i128),
            w: den,
        };
        proof {
            lemma_line_hit_on_plane(*self, *p, *dir, r);
        }
        r
    }

    /// Applies `m` to the homogeneous plane coefficients.  Plane equations
    /// transform by the inverse transpose of the matrix that moves points,
    /// so `m` here is that already-computed inverse transpose.
    pub fn transform(&mut self, m: &Mat4)
        requires
            old(self).wf(),
            m.wf(),
            in_range(transform_x(*m, *old(self))),
            in_range(transform_y(*m, *old(self))),
            in_range(transform_z(*m, *old(self))),
            in_range(transform_w(*m, *old(self))),
        ensures
            final(self).normal.x as int == transform_x(*m, *old(self)),
            final(self).normal.y as int == transform_y(*m, *old(self)),
            final(self).normal.z as int == transform_z(*m, *old(self)),
            final(self).d as int == transform_w(*m, *old(self)),
            final(self).wf(),
    {
        proof {
            let lim: int = LIMIT as int;
            lemma_mul_bound(m.c0r0 as int, old(self).normal.x as int, lim, lim);
            lemma_mul_bound(m.c1r0 as int, old(self).normal.y as int, lim, lim);
            lemma_mul_bound(m.c2r0 as int, old(self).normal.z as int, lim, lim);
            lemma_mul_bound(m.c3r0 as int, old(self).d as int, lim, lim);
            lemma_mul_bound(m.c0r1 as int, old(self).normal.x as int, lim, lim);
            lemma_mul_bound(m.c1r1 as int, old(self).normal.y as int, lim, lim);
            lemma_mul_bound(m.c2r1 as int, old(self).normal.z as int, lim, lim);
            lemma_mul_bound(m.c3r1 as int, old(self).d as int, lim, lim);
            lemma_mul_bound(m.c0r2 as int, old(self).normal.x as int, lim, lim);
            lemma_mul_bound(m.c1r2 as int, old(self).normal.y as int, lim, lim);
            lemma_mul_bound(m.c2r2 as int, old(self).normal.z as int, lim, lim);
            lemma_mul_bound(m.c3r2 as int, old(self).d as int, lim, lim);
            lemma_mul_bound(m.c0r3 as int, old(self).normal.x as int, lim, lim);
            lemma_mul_bound(m.c1r3 as int, old(self).normal.y as int, lim, lim);
            lemma_mul_bound(m.c2r3 as int, old(self).normal.z as int, lim, lim);
            lemma_mul_bound(m.c3r3 as int, old(self).d as int, lim, lim);
        }
        let nx: i128 = (m.c0r0 as i128) * (self.normal.x as i128)
            + (m.c1r0 as i128) * (self.normal.y as i128)
            + (m.c2r0 as i128) * (self.normal.z as i128) + (m.c3r0 as i128) * (self.d as i128);
        let ny: i128 = (m.c0r1 as i128) * (self.normal.x as i128)
            + (m.c1r1 as i128) * (self.normal.y as i128)
            + (m.c2r1 as i128) * (self.normal.z as i128) + (m.c3r1 as i128) * (self.d as i128);
        let nz: i128 = (m.c0r2 as i128) * (self.normal.x as i128)
            + (m.c1r2 as i128) * (self.normal.y as i128)
            + (m.c2r2 as i128) * (self.normal.z as i128) + (m.c3r2 as i128) * (self.d as i128);
        let nw: i128 = (m.c0r3 as i128) * (self.normal.x as i128)
            + (m.c1r3 as i128) * (self.normal.y as i128)
            + (m.c2r3 as i128) * (self.normal.z as i128) + (m.c3r3 as i128) * (self.d as i128);
        self.normal.x = nx as i64;
        self.normal.y = ny as i64;
        self.normal.z = nz as i64;
        self.d = nw as i64;
    }
}

impl Default for Plane {
    /// The degenerate all-zero plane, whose half-space is all of space.
    fn default() -> (r: Plane)
        ensures
            r == (Plane { normal: Vec3 { x: 0, y: 0, z: 0 }, d: 0 }),
    {
        Plane { normal: Vec3 { x: 0, y: 0, z: 0 }, d: 0 }
    }
}

/// Negating a plane twice restores the original normal and offset.
pub proof fn lemma_negate_involutive(a: Plane, b: Plane, c: Plane)
    requires
        negates(a, b),
        negates(b, c),
    ensures
        c == a,
{
    assert(c.normal.x == a.normal.x);
    assert(c.normal.y == a.normal.y);
    assert(c.normal.z == a.normal.z);
    assert(c.d == a.d);
    assert(c.normal == a.normal);
}

/// The plane constructed from a triangle passes through all three of its
/// points.
pub proof fn lemma_tri_plane_through_points(p0: Vec3, p1: Vec3, p2: Vec3)
    ensures
        tri_normal_x(p0, p1, p2) * p0.x + tri_normal_y(p0, p1, p2) * p0.y
            + tri_normal_z(p0, p1, p2) * p0.z + tri_d(p0, p1, p2) == 0,
        tri_normal_x(p0, p1, p2) * p1.x + tri_normal_y(p0, p1, p2) * p1.y
            + tri_normal_z(p0, p1, p2) * p1.z + tri_d(p0, p1, p2) == 0,
        tri_normal_x(p0, p1, p2) * p2.x + tri_normal_y(p0, p1, p2) * p2.y
            + tri_normal_z(p0, p1, p2) * p2.z + tri_d(p0, p1, p2) == 0,
{
    let nx = tri_normal_x(p0, p1, p2);
    let ny = tri_normal_y(p0, p1, p2);
    let nz = tri_normal_z(p0, p1, p2);
    lemma_cross_dot_edges(
        p1.x - p0.x, p1.y - p0.y, p1.z - p0.z,
        p2.x - p0.x, p2.y - p0.y, p2.z - p0.z,
    );
    lemma_mul_dist_sub(nx, p1.x as int, p0.x as int);
    lemma_mul_dist_sub(ny, p1.y as int, p0.y as int);
    lemma_mul_dist_sub(nz, p1.z as int, p0.z as int);
    lemma_mul_dist_sub(nx, p2.x as int, p0.x as int);
    lemma_mul_dist_sub(ny, p2.y as int, p0.y as int);
    lemma_mul_dist_sub(nz, p2.z as int, p0.z as int);
}

/// The cross product of two edge vectors is perpendicular to both.
proof fn lemma_cross_dot_edges(ax: int, ay: int, az: int, bx: int, by: int, bz: int)
    by (nonlinear_arith)
    ensures
        (ay * bz - az * by) * ax + (az * bx - ax * bz) * ay + (ax * by - ay * bx) * az == 0,
        (ay * bz - az * by) * bx + (az * bx - ax * bz) * by + (ax * by - ay * bx) * bz == 0,
{
}

/// The homogeneous point returned by `intersect_line` satisfies the plane
/// equation.
proof fn lemma_line_hit_on_plane(pl: Plane, p: Vec3, dir: Vec3, r: LineHit)
    requires
        r.w as int == dot(pl.normal, dir),
        r.x as int == dot(pl.normal, dir) * p.x - plane_dist(pl, p) * dir.x,
        r.y as int == dot(pl.normal, dir) * p.y - plane_dist(pl, p) * dir.y,
        r.z as int == dot(pl.normal, dir) * p.z - plane_dist(pl, p) * dir.z,
    ensures
        (pl.normal.x as int) * r.x + (pl.normal.y as int) * r.y + (pl.normal.z as int) * r.z
            + (pl.d as int) * r.w == 0,
{
    let nx = pl.normal.x as int;
    let ny = pl.normal.y as int;
    let nz = pl.normal.z as int;
    let d = pl.d as int;
    let den = dot(pl.normal, dir);
    let t = plane_dist(pl, p);
    lemma_swap5(nx, den, p.x as int, t, dir.x as int);
    lemma_swap5(ny, den, p.y as int, t, dir.y as int);
    lemma_swap5(nz, den, p.z as int, t, dir.z as int);
    lemma_factor4(den, nx * p.x, ny * p.y, nz * p.z, d);
    lemma_factor3(t, nx * dir.x, ny * dir.y, nz * dir.z);
    lemma_mul_comm(d, den);
    lemma_mul_comm(den, t);
    assert(nx * r.x + ny * r.y + nz * r.z + d * r.w == den * t - t * den);
}

/// For a plane with unit-length normal, `distance` is the true signed
/// Euclidean distance: the foot `f` of the perpendicular from `p` lies on
/// the plane, the squared distance from `p` to `f` is the square of
/// `distance(p)`, and no point `q` of the plane is closer to `p` than `f`.
/// (A point on the plane has distance `0` by the definition of
/// `plane_dist`.)
pub proof fn lemma_distance_euclidean(pl: Plane, p: Vec3, q: Vec3, f: Vec3)
    requires
        dot(pl.normal, pl.normal) == 1,
        plane_dist(pl, q) == 0,
        f.x as int == p.x - plane_dist(pl, p) * pl.normal.x,
        f.y as int == p.y - plane_dist(pl, p) * pl.normal.y,
        f.z as int == p.z - plane_dist(pl, p) * pl.normal.z,
    ensures
        plane_dist(pl, f) == 0,
        dist_sq(p, f) == plane_dist(pl, p) * plane_dist(pl, p),
        plane_dist(pl, p) * plane_dist(pl, p) <= dist_sq(p, q),
{
    let nx = pl.normal.x as int;
    let ny = pl.normal.y as int;
    let nz = pl.normal.z as int;
    let d = pl.d as int;
    let t = plane_dist(pl, p);
    assert(nx * (p.x - t * nx) + ny * (p.y - t * ny) + nz * (p.z - t * nz) + d == 0)
        by (nonlinear_arith)
        requires
            nx * nx + ny * ny + nz * nz == 1,
            t == nx * p.x + ny * p.y + nz * p.z + d,
    ;
    assert((t * nx) * (t * nx) + (t * ny) * (t * ny) + (t * nz) * (t * nz) == t * t)
        by (nonlinear_arith)
        requires
            nx * nx + ny * ny + nz * nz == 1,
    ;
    assert(p.x - f.x == t * nx);
    assert(p.y - f.y == t * ny);
    assert(p.z - f.z == t * nz);
    assert(dist_sq(p, f) == (t * nx) * (t * nx) + (t * ny) * (t * ny) + (t * nz) * (t * nz));
    let vx = p.x - q.x;
    let vy = p.y - q.y;
    let vz = p.z - q.z;
    assert(t == nx * vx + ny * vy + nz * vz) by (nonlinear_arith)
        requires
            t == nx * p.x + ny * p.y + nz * p.z + d,
            nx * q.x + ny * q.y + nz * q.z + d == 0,
            vx == p.x - q.x,
            vy == p.y - q.y,
            vz == p.z - q.z,
    ;
    assert(t * t <= vx * vx + vy * vy + vz * vz) by (nonlinear_arith)
        requires
            nx * nx + ny * ny + nz * nz == 1,
            t == nx * vx + ny * vy + nz * vz,
    ;
}

} // verus!
