//! Column-major 4x4 transform matrices over fixed-point scalars, with the
//! exact cofactor algebra used to transform planes without a division.

use vstd::prelude::*;
use crate::vec3::in_range;
use crate::vec3::lemma_mul_bound;
use crate::vec3::LIMIT;

verus! {

/// A 4x4 matrix.  Field `cCrR` holds the entry of column `C`, row `R`, so a
/// flat buffer in column-major order (translation in elements 12 to 14) maps
/// to fields in order `c0r0, c0r1, ..., c3r3`.
#[derive(Clone, Copy, Debug, PartialEq, Eq, Structural)]
pub struct Mat4 {
    pub c0r0: i64, pub c0r1: i64, pub c0r2: i64, pub c0r3: i64,
    pub c1r0: i64, pub c1r1: i64, pub c1r2: i64, pub c1r3: i64,
    pub c2r0: i64, pub c2r1: i64, pub c2r2: i64, pub c2r3: i64,
    pub c3r0: i64, pub c3r1: i64, pub c3r2: i64, pub c3r3: i64,
}

impl Mat4 {
    /// All sixteen entries lie in the admitted scalar range.
    pub open spec fn wf(self) -> bool {
        in_range(self.c0r0 as int) && in_range(self.c0r1 as int)
            && in_range(self.c0r2 as int) && in_range(self.c0r3 as int)
            && in_range(self.c1r0 as int) && in_range(self.c1r1 as int)
            && in_range(self.c1r2 as int) && in_range(self.c1r3 as int)
            && in_range(self.c2r0 as int) && in_range(self.c2r1 as int)
            && in_range(self.c2r2 as int) && in_range(self.c2r3 as int)
            && in_range(self.c3r0 as int) && in_range(self.c3r1 as int)
            && in_range(self.c3r2 as int) && in_range(self.c3r3 as int)
    }

    /// The bottom row is `(0, 0, 0, 1)`: the matrix maps points to points
    /// with no perspective component.
    pub open spec fn is_affine(self) -> bool {
        self.c0r3 == 0 && self.c1r3 == 0 && self.c2r3 == 0 && self.c3r3 == 1
    }

    /// Builds a matrix from a 16-element buffer in column-major order.
    pub fn from_slice(s: &[i64]) -> (r: Mat4)
        requires
            s@.len() == 16,
        ensures
            r == (Mat4 {
                c0r0: s@[0], c0r1: s@[1], c0r2: s@[2], c0r3: s@[3],
                c1r0: s@[4], c1r1: s@[5], c1r2: s@[6], c1r3: s@[7],
                c2r0: s@[8], c2r1: s@[9], c2r2: s@[10], c2r3: s@[11],
                c3r0: s@[12], c3r1: s@[13], c3r2: s@[14], c3r3: s@[15],
            }),
    {
        Mat4 {
            c0r0: s[0], c0r1: s[1], c0r2: s[2], c0r3: s[3],
            c1r0: s[4], c1r1: s[5], c1r2: s[6], c1r3: s[7],
            c2r0: s[8], c2r1: s[9], c2r2: s[10], c2r3: s[11],
            c3r0: s[12], c3r1: s[13], c3r2: s[14], c3r3: s[15],
        }
    }

    pub fn identity() -> (r: Mat4)
        ensures
            r == identity_mat(),
    {
        Mat4 {
            c0r0: 1, c0r1: 0, c0r2: 0, c0r3: 0,
            c1r0: 0, c1r1: 1, c1r2: 0, c1r3: 0,
            c2r0: 0, c2r1: 0, c2r2: 1, c2r3: 0,
            c3r0: 0, c3r1: 0, c3r2: 0, c3r3: 1,
        }
    }

    pub fn translation(tx: i64, ty: i64, tz: i64) -> (r: Mat4)
        ensures
            r == translation_mat(tx, ty, tz),
    {
        Mat4 {
            c0r0: 1, c0r1: 0, c0r2: 0, c0r3: 0,
            c1r0: 0, c1r1: 1, c1r2: 0, c1r3: 0,
            c2r0: 0, c2r1: 0, c2r2: 1, c2r3: 0,
            c3r0: tx, c3r1: ty, c3r2: tz, c3r3: 1,
        }
    }
}

pub open spec fn identity_mat() -> Mat4 {
    Mat4 {
        c0r0: 1, c0r1: 0, c0r2: 0, c0r3: 0,
        c1r0: 0, c1r1: 1, c1r2: 0, c1r3: 0,
        c2r0: 0, c2r1: 0, c2r2: 1, c2r3: 0,
        c3r0: 0, c3r1: 0, c3r2: 0, c3r3: 1,
    }
}

pub open spec fn translation_mat(tx: i64, ty: i64, tz: i64) -> Mat4 {
    Mat4 {
        c0r0: 1, c0r1: 0, c0r2: 0, c0r3: 0,
        c1r0: 0, c1r1: 1, c1r2: 0, c1r3: 0,
        c2r0: 0, c2r1: 0, c2r2: 1, c2r3: 0,
        c3r0: tx, c3r1: ty, c3r2: tz, c3r3: 1,
    }
}

/// Determinant of the 3x3 matrix `[[a, b, c], [d, e, f], [g, h, i]]`.
pub open spec fn minor3(
    a: int, b: int, c: int,
    d: int, e: int, f: int,
    g: int, h: int, i: int,
) -> int {
    a * (e * i - f * h) - b * (d * i - f * g) + c * (d * h - e * g)
}

pub open spec fn cof00(m: Mat4) -> int {
    minor3(m.c1r1 as int, m.c2r1 as int, m.c3r1 as int, m.c1r2 as int, m.c2r2 as int, m.c3r2 as int, m.c1r3 as int, m.c2r3 as int, m.c3r3 as int)
}

pub open spec fn cof01(m: Mat4) -> int {
    -minor3(m.c0r1 as int, m.c2r1 as int, m.c3r1 as int, m.c0r2 as int, m.c2r2 as int, m.c3r2 as int, m.c0r3 as int, m.c2r3 as int, m.c3r3 as int)
}

pub open spec fn cof02(m: Mat4) -> int {
    minor3(m.c0r1 as int, m.c1r1 as int, m.c3r1 as int, m.c0r2 as int, m.c1r2 as int, m.c3r2 as int, m.c0r3 as int, m.c1r3 as int, m.c3r3 as int)
}

pub open spec fn cof03(m: Mat4) -> int {
    -minor3(m.c0r1 as int, m.c1r1 as int, m.c2r1 as int, m.c0r2 as int, m.c1r2 as int, m.c2r2 as int, m.c0r3 as int, m.c1r3 as int, m.c2r3 as int)
}

pub open spec fn cof10(m: Mat4) -> int {
    -minor3(m.c1r0 as int, m.c2r0 as int, m.c3r0 as int, m.c1r2 as int, m.c2r2 as int, m.c3r2 as int, m.c1r3 as int, m.c2r3 as int, m.c3r3 as int)
}

pub open spec fn cof11(m: Mat4) -> int {
    minor3(m.c0r0 as int, m.c2r0 as int, m.c3r0 as int, m.c0r2 as int, m.c2r2 as int, m.c3r2 as int, m.c0r3 as int, m.c2r3 as int, m.c3r3 as int)
}

pub open spec fn cof12(m: Mat4) -> int {
    -minor3(m.c0r0 as int, m.c1r0 as int, m.c3r0 as int, m.c0r2 as int, m.c1r2 as int, m.c3r2 as int, m.c0r3 as int, m.c1r3 as int, m.c3r3 as int)
}

pub open spec fn cof13(m: Mat4) -> int {
    minor3(m.c0r0 as int, m.c1r0 as int, m.c2r0 as int, m.c0r2 as int, m.c1r2 as int, m.c2r2 as int, m.c0r3 as int, m.c1r3 as int, m.c2r3 as int)
}

pub open spec fn cof20(m: Mat4) -> int {
    minor3(m.c1r0 as int, m.c2r0 as int, m.c3r0 as int, m.c1r1 as int, m.c2r1 as int, m.c3r1 as int, m.c1r3 as int, m.c2r3 as int, m.c3r3 as int)
}

pub open spec fn cof21(m: Mat4) -> int {
    -minor3(m.c0r0 as int, m.c2r0 as int, m.c3r0 as int, m.c0r1 as int, m.c2r1 as int, m.c3r1 as int, m.c0r3 as int, m.c2r3 as int, m.c3r3 as int)
}

pub open spec fn cof22(m: Mat4) -> int {
    minor3(m.c0r0 as int, m.c1r0 as int, m.c3r0 as int, m.c0r1 as int, m.c1r1 as int, m.c3r1 as int, m.c0r3 as int, m.c1r3 as int, m.c3r3 as int)
}

pub open spec fn cof23(m: Mat4) -> int {
    -minor3(m.c0r0 as int, m.c1r0 as int, m.c2r0 as int, m.c0r1 as int, m.c1r1 as int, m.c2r1 as int, m.c0r3 as int, m.c1r3 as int, m.c2r3 as int)
}

pub open spec fn cof30(m: Mat4) -> int {
    -minor3(m.c1r0 as int, m.c2r0 as int, m.c3r0 as int, m.c1r1 as int, m.c2r1 as int, m.c3r1 as int, m.c1r2 as int, m.c2r2 as int, m.c3r2 as int)
}

pub open spec fn cof31(m: Mat4) -> int {
    minor3(m.c0r0 as int, m.c2r0 as int, m.c3r0 as int, m.c0r1 as int, m.c2r1 as int, m.c3r1 as int, m.c0r2 as int, m.c2r2 as int, m.c3r2 as int)
}

pub open spec fn cof32(m: Mat4) -> int {
    -minor3(m.c0r0 as int, m.c1r0 as int, m.c3r0 as int, m.c0r1 as int, m.c1r1 as int, m.c3r1 as int, m.c0r2 as int, m.c1r2 as int, m.c3r2 as int)
}

pub open spec fn cof33(m: Mat4) -> int {
    minor3(m.c0r0 as int, m.c1r0 as int, m.c2r0 as int, m.c0r1 as int, m.c1r1 as int, m.c2r1 as int, m.c0r2 as int, m.c1r2 as int, m.c2r2 as int)
}

/// Determinant of the matrix, by cofactor expansion along its first column.
pub open spec fn det4(m: Mat4) -> int {
    m.c0r0 * cof00(m) + m.c0r1 * cof10(m) + m.c0r2 * cof20(m) + m.c0r3 * cof30(m)
}

/// `1` when the determinant is non-negative, else `-1`: the factor that
/// restores plane orientation after a cofactor transform.
pub open spec fn det_sign(m: Mat4) -> int {
    if det4(m) < 0 {
        -1
    } else {
        1
    }
}

/// Exact 3x3 determinant of range-limited scalars, computed in `i128`.
pub fn minor3_exec(
    a: i64, b: i64, c: i64,
    d: i64, e: i64, f: i64,
    g: i64, h: i64, i: i64,
) -> (r: i128)
    requires
        in_range(a as int), in_range(b as int), in_range(c as int),
        in_range(d as int), in_range(e as int), in_range(f as int),
        in_range(g as int), in_range(h as int), in_range(i as int),
    ensures
        r as int == minor3(a as int, b as int, c as int, d as int, e as int, f as int, g as int, h as int, i as int),
        -6 * (LIMIT as int) * (LIMIT as int) * (LIMIT as int) <= r as int
            <= 6 * (LIMIT as int) * (LIMIT as int) * (LIMIT as int),
{
    proof {
        let lim: int = LIMIT as int;
        lemma_mul_bound(e as int, i as int, lim, lim);
        lemma_mul_bound(f as int, h as int, lim, lim);
        lemma_mul_bound(d as int, i as int, lim, lim);
        lemma_mul_bound(f as int, g as int, lim, lim);
        lemma_mul_bound(d as int, h as int, lim, lim);
        lemma_mul_bound(e as int, g as int, lim, lim);
        lemma_mul_bound(a as int, e as int * i as int - f as int * h as int, lim, 2 * lim * lim);
        lemma_mul_bound(b as int, d as int * i as int - f as int * g as int, lim, 2 * lim * lim);
        lemma_mul_bound(c as int, d as int * h as int - e as int * g as int, lim, 2 * lim * lim);
    }
    (a as i128) * ((e as i128) * (i as i128) - (f as i128) * (h as i128))
        - (b as i128) * ((d as i128) * (i as i128) - (f as i128) * (g as i128))
        + (c as i128) * ((d as i128) * (h as i128) - (e as i128) * (g as i128))
}

} // verus!
