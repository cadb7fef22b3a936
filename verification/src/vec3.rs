//! Three-dimensional vectors over the fixed-point scalar, with a fourth
//! affine component `w` that defaults to one unit and is carried untouched
//! by the component-wise operations.

use vstd::prelude::*;
use crate::fx::FX_ONE;
use crate::fx::sat64;
use crate::fx::div_trunc;
use crate::fx::fx_mul_val;
use crate::fx::fx_div_val;
use crate::fx::spec_isqrt;
use crate::fx::fx_add;
use crate::fx::fx_sub;
use crate::fx::fx_neg;
use crate::fx::fx_mul;
use crate::fx::fx_div;
use crate::fx::fx_mac3;
use crate::fx::fx_mul_sub;
use crate::fx::i64_mul_wide;
use crate::fx::fx_div_wide;
use crate::fx::isqrt_u128;
use crate::fx::lemma_isqrt_bounds;

verus! {

#[derive(Clone, Copy, PartialEq, Eq, Structural, Debug)]
pub struct Vec3d {
    pub x: i64,
    pub y: i64,
    pub z: i64,
    pub w: i64,
}

/// All three spatial components lie within `bound` in magnitude.
pub open spec fn vec_in_range(v: Vec3d, bound: int) -> bool {
    crate::fx::iabs(v.x as int) <= bound && crate::fx::iabs(v.y as int) <= bound
        && crate::fx::iabs(v.z as int) <= bound
}

/// The saturated dot product of the three spatial components.
pub open spec fn spec_dot(a: Vec3d, b: Vec3d) -> int {
    sat64(
        fx_mul_val(a.x as int, b.x as int) + fx_mul_val(a.y as int, b.y as int) + fx_mul_val(
            a.z as int,
            b.z as int,
        ),
    )
}

pub open spec fn spec_add(a: Vec3d, b: Vec3d) -> Vec3d {
    Vec3d {
        x: sat64(a.x + b.x) as i64,
        y: sat64(a.y + b.y) as i64,
        z: sat64(a.z + b.z) as i64,
        w: FX_ONE,
    }
}

pub open spec fn spec_sub(a: Vec3d, b: Vec3d) -> Vec3d {
    Vec3d {
        x: sat64(a.x - b.x) as i64,
        y: sat64(a.y - b.y) as i64,
        z: sat64(a.z - b.z) as i64,
        w: FX_ONE,
    }
}

pub open spec fn spec_scale(a: Vec3d, k: int) -> Vec3d {
    Vec3d {
        x: sat64(fx_mul_val(a.x as int, k)) as i64,
        y: sat64(fx_mul_val(a.y as int, k)) as i64,
        z: sat64(fx_mul_val(a.z as int, k)) as i64,
        w: FX_ONE,
    }
}

pub open spec fn spec_cross(a: Vec3d, b: Vec3d) -> Vec3d {
    Vec3d {
        x: sat64(
            fx_mul_val(a.y as int, b.z as int) - fx_mul_val(a.z as int, b.y as int),
        ) as i64,
        y: sat64(
            fx_mul_val(a.z as int, b.x as int) - fx_mul_val(a.x as int, b.z as int),
        ) as i64,
        z: sat64(
            fx_mul_val(a.x as int, b.y as int) - fx_mul_val(a.y as int, b.x as int),
        ) as i64,
        w: FX_ONE,
    }
}

/// The exact sum of squares of the spatial components.
pub open spec fn spec_norm_sq(v: Vec3d) -> int {
    (v.x as int) * (v.x as int) + (v.y as int) * (v.y as int) + (v.z as int) * (v.z as int)
}

/// The Euclidean norm, rounded down; it carries the same fixed-point scale
/// as the components.
pub open spec fn spec_norm(v: Vec3d) -> int {
    spec_isqrt(spec_norm_sq(v))
}

/// The normalized value of one component, given the whole vector's norm.
pub open spec fn spec_normed(c: int, norm: int) -> int {
    sat64(div_trunc(c * (FX_ONE as int), norm))
}

/// The unit-norm image of a vector; the zero vector is its own image.
pub open spec fn spec_normalized(v: Vec3d) -> Vec3d {
    if spec_norm_sq(v) == 0 {
        v
    } else {
        Vec3d {
            x: spec_normed(v.x as int, spec_norm(v)) as i64,
            y: spec_normed(v.y as int, spec_norm(v)) as i64,
            z: spec_normed(v.z as int, spec_norm(v)) as i64,
            w: v.w,
        }
    }
}

impl Vec3d {
    /// A vector with the given spatial components and `w` set to one unit.
    pub fn new(x: i64, y: i64, z: i64) -> (v: Vec3d)
        ensures
            v == (Vec3d { x, y, z, w: FX_ONE }),
    {
        Vec3d { x, y, z, w: FX_ONE }
    }

    pub fn dot(&self, rhs: &Vec3d) -> (r: i64)
        ensures
            r as int == spec_dot(*self, *rhs),
    {
        fx_mac3(self.x, rhs.x, self.y, rhs.y, self.z, rhs.z, 0)
    }

    pub fn cross(&self, rhs: &Vec3d) -> (v: Vec3d)
        ensures
            v == spec_cross(*self, *rhs),
    {
        Vec3d {
            x: fx_mul_sub(self.y, rhs.z, self.z, rhs.y),
            y: fx_mul_sub(self.z, rhs.x, self.x, rhs.z),
            z: fx_mul_sub(self.x, rhs.y, self.y, rhs.x),
            w: FX_ONE,
        }
    }

    pub fn add(self, rhs: Vec3d) -> (v: Vec3d)
        ensures
            v == spec_add(self, rhs),
    {
        Vec3d { x: fx_add(self.x, rhs.x), y: fx_add(self.y, rhs.y), z: fx_add(self.z, rhs.z), w: FX_ONE }
    }

    pub fn sub(self, rhs: Vec3d) -> (v: Vec3d)
        ensures
            v == spec_sub(self, rhs),
    {
        Vec3d { x: fx_sub(self.x, rhs.x), y: fx_sub(self.y, rhs.y), z: fx_sub(self.z, rhs.z), w: FX_ONE }
    }

    /// Scaling by a fixed-point factor.
    pub fn mul(self, rhs: i64) -> (v: Vec3d)
        ensures
            v == spec_scale(self, rhs as int),
    {
        Vec3d { x: fx_mul(self.x, rhs), y: fx_mul(self.y, rhs), z: fx_mul(self.z, rhs), w: FX_ONE }
    }

    /// Scale the spatial components to unit norm, rounding toward zero.
    /// The zero vector, whose direction is undefined, is left unchanged
    /// (a guarded branch in place of a division by zero).
    pub fn normalize(&mut self)
        ensures
            *final(self) == spec_normalized(*old(self)),
    {
        let sx = i64_mul_wide(self.x, self.x);
        let sy = i64_mul_wide(self.y, self.y);
        let sz = i64_mul_wide(self.z, self.z);
        proof {
            assert(sx >= 0 && sy >= 0 && sz >= 0) by (nonlinear_arith)
                requires
                    sx as int == (self.x as int) * (self.x as int),
                    sy as int == (self.y as int) * (self.y as int),
                    sz as int == (self.z as int) * (self.z as int),
            ;
        }
        let sum: u128 = sx as u128 + sy as u128 + sz as u128;
        let nrm = isqrt_u128(sum);
        if nrm == 0 {
            proof {
                lemma_isqrt_bounds(sum as int);
                assert((0 + 1) * (0 + 1) > sum as int);
                assert(spec_norm_sq(*old(self)) == sum as int);
            }
            return ;
        }
        self.x = fx_div_wide(self.x, nrm);
        self.y = fx_div_wide(self.y, nrm);
        self.z = fx_div_wide(self.z, nrm);
    }

    /// The point where the segment from `line_start` to `line_end` meets the
    /// plane through `plane_p` with normal `plane_n`, by the parametric form;
    /// a segment parallel to the plane falls back to the zero parameter.
    pub fn vector_intersect_plane(
        plane_p: &Vec3d,
        plane_n: &Vec3d,
        line_start: &Vec3d,
        line_end: &Vec3d,
    ) -> (v: Vec3d)
        ensures
            v == spec_intersect_plane(*plane_p, *plane_n, *line_start, *line_end),
    {
        let plane_d = fx_neg(plane_n.dot(plane_p));
        let ad = line_start.dot(plane_n);
        let bd = line_end.dot(plane_n);
        let t = fx_div(fx_sub(fx_neg(plane_d), ad), fx_sub(bd, ad));
        line_start.add(line_end.sub(*line_start).mul(t))
    }
}

/// The intersection parameter used by `vector_intersect_plane`.
pub open spec fn spec_intersect_t(pp: Vec3d, pn: Vec3d, ls: Vec3d, le: Vec3d) -> int {
    let plane_d = sat64(-spec_dot(pn, pp));
    let ad = spec_dot(ls, pn);
    let bd = spec_dot(le, pn);
    sat64(fx_div_val(sat64(sat64(-plane_d) - ad), sat64(bd - ad)))
}

pub open spec fn spec_intersect_plane(pp: Vec3d, pn: Vec3d, ls: Vec3d, le: Vec3d) -> Vec3d {
    spec_add(ls, spec_scale(spec_sub(le, ls), spec_intersect_t(pp, pn, ls, le)))
}

} // verus!
