//! Three-component fixed-point vectors and the scalar range that keeps
//! every product of the geometric formulas inside `i128` arithmetic.

use vstd::prelude::*;

verus! {

/// Largest coordinate magnitude the arithmetic contracts admit.  Every
/// product formed by the geometry (dot products, cross products, matrix
/// cofactors) stays well inside `i128` when each stored scalar lies in
/// `[-LIMIT, LIMIT]`.
pub const LIMIT: i64 = 1073741824;

/// A scalar small enough for the exact arithmetic of this crate.
pub open spec fn in_range(x: int) -> bool {
    -(LIMIT as int) <= x <= LIMIT as int
}

/// A point or direction in space, with fixed-point `i64` coordinates.
#[derive(Clone, Copy, Debug, PartialEq, Eq, Structural)]
pub struct Vec3 {
    pub x: i64,
    pub y: i64,
    pub z: i64,
}

impl Vec3 {
    /// All three coordinates lie in the admitted scalar range.
    pub open spec fn wf(self) -> bool {
        in_range(self.x as int) && in_range(self.y as int) && in_range(self.z as int)
    }

    pub fn new(x: i64, y: i64, z: i64) -> (r: Vec3)
        ensures
            r == (Vec3 { x, y, z }),
    {
        Vec3 { x, y, z }
    }
}

/// Mathematical dot product of two vectors.
pub open spec fn dot(a: Vec3, b: Vec3) -> int {
    a.x * b.x + a.y * b.y + a.z * b.z
}

/// Squared Euclidean distance between two points.
pub open spec fn dist_sq(a: Vec3, b: Vec3) -> int {
    (a.x - b.x) * (a.x - b.x) + (a.y - b.y) * (a.y - b.y) + (a.z - b.z) * (a.z - b.z)
}

/// A product of scalars bounded in magnitude is bounded by the product of
/// the bounds.
pub proof fn lemma_mul_bound(a: int, b: int, am: int, bm: int)
    by (nonlinear_arith)
    requires
        -am <= a <= am,
        -bm <= b <= bm,
    ensures
        -(am * bm) <= a * b <= am * bm,
{
}

/// Multiplication commutes.
pub proof fn lemma_mul_comm(a: int, b: int)
    by (nonlinear_arith)
    ensures
        a * b == b * a,
{
}

/// Multiplication distributes over a sum.
pub proof fn lemma_mul_dist_add(a: int, b: int, c: int)
    by (nonlinear_arith)
    ensures
        a * (b + c) == a * b + a * c,
{
}

/// A negated factor negates the product.
pub proof fn lemma_neg_mul(a: int, b: int)
    by (nonlinear_arith)
    ensures
        (-a) * b == -(a * b),
{
}

/// Multiplication distributes over a difference.
pub proof fn lemma_mul_dist_sub(a: int, b: int, c: int)
    by (nonlinear_arith)
    ensures
        a * (b - c) == a * b - a * c,
{
}

/// A common factor pulls out of a three-term sum.
pub proof fn lemma_factor3(c: int, w: int, x: int, y: int)
    by (nonlinear_arith)
    ensures
        c * (w + x + y) == c * w + c * x + c * y,
{
}

/// A common factor pulls out of a four-term sum.
pub proof fn lemma_factor4(c: int, w: int, x: int, y: int, z: int)
    by (nonlinear_arith)
    ensures
        c * (w + x + y + z) == c * w + c * x + c * y + c * z,
{
}

/// Reassociation of the two products inside a difference.
pub proof fn lemma_swap5(a: int, b: int, c: int, e: int, f: int)
    by (nonlinear_arith)
    ensures
        a * (b * c - e * f) == b * (a * c) - e * (a * f),
{
}

/// Exact dot product, computed in `i128`.
pub fn dot_i128(a: &Vec3, b: &Vec3) -> (r: i128)
    requires
        a.wf(),
        b.wf(),
    ensures
        r as int == dot(*a, *b),
        -3 * (LIMIT as int) * (LIMIT as int) <= r as int <= 3 * (LIMIT as int) * (LIMIT as int),
{
    proof {
        lemma_mul_bound(a.x as int, b.x as int, LIMIT as int, LIMIT as int);
        lemma_mul_bound(a.y as int, b.y as int, LIMIT as int, LIMIT as int);
        lemma_mul_bound(a.z as int, b.z as int, LIMIT as int, LIMIT as int);
    }
    (a.x as i128) * (b.x as i128) + (a.y as i128) * (b.y as i128) + (a.z as i128) * (b.z as i128)
}

} // verus!
