//! Row-major 4x4 matrices over the fixed-point scalar, built by pure
//! factory functions so a matrix is never observed partially initialized.
//!
//! `mul_mat_vec` performs the full four-component multiply-accumulate and
//! then divides by the resulting `w` — but only when `w` is nonzero, which
//! lets the one routine serve both affine transforms (where `w` stays at
//! one unit and the divide is the identity) and perspective projection
//! (where `w` varies).

use vstd::prelude::*;
use crate::fx::FX_ONE;
use crate::fx::sat64;
use crate::fx::fx_mul_val;
use crate::fx::fx_div_val;
use crate::fx::fx_mac3_val;
use crate::fx::fx_neg;
use crate::fx::fx_sub;
use crate::fx::fx_mul;
use crate::fx::fx_div;
use crate::fx::fx_mac3;
use crate::vec3::Vec3d;
use crate::vec3::spec_normalized;
use crate::vec3::spec_sub;
use crate::vec3::spec_scale;
use crate::vec3::spec_cross;
use crate::vec3::spec_dot;
use crate::tri::Tri;

verus! {

/// Row-major coefficients: `mRC` is row `R`, column `C`.
#[derive(Clone, Copy, PartialEq, Eq, Structural, Debug)]
pub struct Matrix4x4 {
    pub m00: i64, pub m01: i64, pub m02: i64, pub m03: i64,
    pub m10: i64, pub m11: i64, pub m12: i64, pub m13: i64,
    pub m20: i64, pub m21: i64, pub m22: i64, pub m23: i64,
    pub m30: i64, pub m31: i64, pub m32: i64, pub m33: i64,
}

/// The image of a vector: a row-vector multiply-accumulate down each
/// column, then the perspective divide when the resulting `w` is nonzero.
pub open spec fn spec_mmv(m: Matrix4x4, v: Vec3d) -> Vec3d {
    let x = sat64(fx_mac3_val(v.x as int, m.m00 as int, v.y as int, m.m10 as int,
        v.z as int, m.m20 as int, m.m30 as int));
    let y = sat64(fx_mac3_val(v.x as int, m.m01 as int, v.y as int, m.m11 as int,
        v.z as int, m.m21 as int, m.m31 as int));
    let z = sat64(fx_mac3_val(v.x as int, m.m02 as int, v.y as int, m.m12 as int,
        v.z as int, m.m22 as int, m.m32 as int));
    let w = sat64(fx_mac3_val(v.x as int, m.m03 as int, v.y as int, m.m13 as int,
        v.z as int, m.m23 as int, m.m33 as int));
    if w != 0 {
        Vec3d {
            x: sat64(fx_div_val(x, w)) as i64,
            y: sat64(fx_div_val(y, w)) as i64,
            z: sat64(fx_div_val(z, w)) as i64,
            w: FX_ONE,
        }
    } else {
        Vec3d { x: x as i64, y: y as i64, z: z as i64, w: FX_ONE }
    }
}

pub open spec fn spec_rotation_x(s: i64, c: i64) -> Matrix4x4 {
    Matrix4x4 {
        m00: FX_ONE, m01: 0, m02: 0, m03: 0,
        m10: 0, m11: c, m12: s, m13: 0,
        m20: 0, m21: sat64(-s) as i64, m22: c, m23: 0,
        m30: 0, m31: 0, m32: 0, m33: FX_ONE,
    }
}

pub open spec fn spec_rotation_y(s: i64, c: i64) -> Matrix4x4 {
    Matrix4x4 {
        m00: c, m01: 0, m02: s, m03: 0,
        m10: 0, m11: FX_ONE, m12: 0, m13: 0,
        m20: sat64(-s) as i64, m21: 0, m22: c, m23: 0,
        m30: 0, m31: 0, m32: 0, m33: FX_ONE,
    }
}

pub open spec fn spec_rotation_z(s: i64, c: i64) -> Matrix4x4 {
    Matrix4x4 {
        m00: c, m01: s, m02: 0, m03: 0,
        m10: sat64(-s) as i64, m11: c, m12: 0, m13: 0,
        m20: 0, m21: 0, m22: FX_ONE, m23: 0,
        m30: 0, m31: 0, m32: 0, m33: FX_ONE,
    }
}

pub open spec fn spec_translation(x: i64, y: i64, z: i64) -> Matrix4x4 {
    Matrix4x4 {
        m00: FX_ONE, m01: 0, m02: 0, m03: 0,
        m10: 0, m11: FX_ONE, m12: 0, m13: 0,
        m20: 0, m21: 0, m22: FX_ONE, m23: 0,
        m30: x, m31: y, m32: z, m33: FX_ONE,
    }
}

pub open spec fn spec_projection(f: i64, aspect: i64, near: i64, far: i64) -> Matrix4x4 {
    Matrix4x4 {
        m00: sat64(fx_mul_val(aspect as int, f as int)) as i64, m01: 0, m02: 0, m03: 0,
        m10: 0, m11: f, m12: 0, m13: 0,
        m20: 0, m21: 0, m22: sat64(fx_div_val(far as int, sat64(far - near))) as i64,
        m23: FX_ONE,
        m30: 0, m31: 0,
        m32: sat64(fx_div_val(
            sat64(-sat64(fx_mul_val(far as int, near as int))),
            sat64(far - near),
        )) as i64,
        m33: 0,
    }
}

/// The closed-form inverse of a rotation-plus-translation matrix: the 3x3
/// part transposed, and the translation row mapped through it and negated.
pub open spec fn spec_quick_inverse(a: Matrix4x4) -> Matrix4x4 {
    Matrix4x4 {
        m00: a.m00, m01: a.m10, m02: a.m20, m03: 0,
        m10: a.m01, m11: a.m11, m12: a.m21, m13: 0,
        m20: a.m02, m21: a.m12, m22: a.m22, m23: 0,
        m30: sat64(-sat64(fx_mac3_val(a.m30 as int, a.m00 as int, a.m31 as int,
            a.m01 as int, a.m32 as int, a.m02 as int, 0))) as i64,
        m31: sat64(-sat64(fx_mac3_val(a.m30 as int, a.m10 as int, a.m31 as int,
            a.m11 as int, a.m32 as int, a.m12 as int, 0))) as i64,
        m32: sat64(-sat64(fx_mac3_val(a.m30 as int, a.m20 as int, a.m31 as int,
            a.m21 as int, a.m32 as int, a.m22 as int, 0))) as i64,
        m33: FX_ONE,
    }
}

/// The camera basis matrix: rows are the right, up and forward directions,
/// the translation row is the position.
pub open spec fn spec_point_at(pos: Vec3d, target: Vec3d, up: Vec3d) -> Matrix4x4 {
    let new_forward = spec_normalized(spec_sub(target, pos));
    let a = spec_scale(new_forward, spec_dot(up, new_forward));
    let new_up = spec_normalized(spec_sub(up, a));
    let new_right = spec_cross(new_up, new_forward);
    Matrix4x4 {
        m00: new_right.x, m01: new_right.y, m02: new_right.z, m03: 0,
        m10: new_up.x, m11: new_up.y, m12: new_up.z, m13: 0,
        m20: new_forward.x, m21: new_forward.y, m22: new_forward.z, m23: 0,
        m30: pos.x, m31: pos.y, m32: pos.z, m33: FX_ONE,
    }
}

impl Matrix4x4 {
    /// A matrix from explicit row-major coefficients.
    pub fn new(m: [[i64; 4]; 4]) -> (r: Matrix4x4)
        ensures
            r == (Matrix4x4 {
                m00: m[0][0], m01: m[0][1], m02: m[0][2], m03: m[0][3],
                m10: m[1][0], m11: m[1][1], m12: m[1][2], m13: m[1][3],
                m20: m[2][0], m21: m[2][1], m22: m[2][2], m23: m[2][3],
                m30: m[3][0], m31: m[3][1], m32: m[3][2], m33: m[3][3],
            }),
    {
        Matrix4x4 {
            m00: m[0][0], m01: m[0][1], m02: m[0][2], m03: m[0][3],
            m10: m[1][0], m11: m[1][1], m12: m[1][2], m13: m[1][3],
            m20: m[2][0], m21: m[2][1], m22: m[2][2], m23: m[2][3],
            m30: m[3][0], m31: m[3][1], m32: m[3][2], m33: m[3][3],
        }
    }

    pub fn mul_mat_vec(&self, i: &Vec3d) -> (r: Vec3d)
        ensures
            r == spec_mmv(*self, *i),
    {
        let x = fx_mac3(i.x, self.m00, i.y, self.m10, i.z, self.m20, self.m30);
        let y = fx_mac3(i.x, self.m01, i.y, self.m11, i.z, self.m21, self.m31);
        let z = fx_mac3(i.x, self.m02, i.y, self.m12, i.z, self.m22, self.m32);
        let w = fx_mac3(i.x, self.m03, i.y, self.m13, i.z, self.m23, self.m33);
        if w != 0 {
            Vec3d::new(fx_div(x, w), fx_div(y, w), fx_div(z, w))
        } else {
            Vec3d::new(x, y, z)
        }
    }

    /// The image of a triangle: each vertex transformed independently;
    /// the result carries no shade yet.
    pub fn mul_mat_tri(&self, t: &Tri) -> (r: Tri)
        ensures
            r == (Tri {
                p0: spec_mmv(*self, t.p0),
                p1: spec_mmv(*self, t.p1),
                p2: spec_mmv(*self, t.p2),
                shade: 255u8,
            }),
    {
        Tri::new(
            self.mul_mat_vec(&t.p0),
            self.mul_mat_vec(&t.p1),
            self.mul_mat_vec(&t.p2),
        )
    }

    /// Valid only for matrices composed of rotation and translation.
    pub fn quick_inverse(&self) -> (r: Matrix4x4)
        ensures
            r == spec_quick_inverse(*self),
    {
        Matrix4x4 {
            m00: self.m00, m01: self.m10, m02: self.m20, m03: 0,
            m10: self.m01, m11: self.m11, m12: self.m21, m13: 0,
            m20: self.m02, m21: self.m12, m22: self.m22, m23: 0,
            m30: fx_neg(fx_mac3(self.m30, self.m00, self.m31, self.m01, self.m32,
                self.m02, 0)),
            m31: fx_neg(fx_mac3(self.m30, self.m10, self.m31, self.m11, self.m32,
                self.m12, 0)),
            m32: fx_neg(fx_mac3(self.m30, self.m20, self.m31, self.m21, self.m32,
                self.m22, 0)),
            m33: FX_ONE,
        }
    }

    /// Rotation about the X axis, from the angle's sine and cosine.
    pub fn make_rotation_x(s: i64, c: i64) -> (r: Matrix4x4)
        ensures
            r == spec_rotation_x(s, c),
    {
        Matrix4x4 {
            m00: FX_ONE, m01: 0, m02: 0, m03: 0,
            m10: 0, m11: c, m12: s, m13: 0,
            m20: 0, m21: fx_neg(s), m22: c, m23: 0,
            m30: 0, m31: 0, m32: 0, m33: FX_ONE,
        }
    }

    /// Rotation about the Y axis, from the angle's sine and cosine.
    pub fn make_rotation_y(s: i64, c: i64) -> (r: Matrix4x4)
        ensures
            r == spec_rotation_y(s, c),
    {
        Matrix4x4 {
            m00: c, m01: 0, m02: s, m03: 0,
            m10: 0, m11: FX_ONE, m12: 0, m13: 0,
            m20: fx_neg(s), m21: 0, m22: c, m23: 0,
            m30: 0, m31: 0, m32: 0, m33: FX_ONE,
        }
    }

    /// Rotation about the Z axis, from the angle's sine and cosine.
    pub fn make_rotation_z(s: i64, c: i64) -> (r: Matrix4x4)
        ensures
            r == spec_rotation_z(s, c),
    {
        Matrix4x4 {
            m00: c, m01: s, m02: 0, m03: 0,
            m10: fx_neg(s), m11: c, m12: 0, m13: 0,
            m20: 0, m21: 0, m22: FX_ONE, m23: 0,
            m30: 0, m31: 0, m32: 0, m33: FX_ONE,
        }
    }

    /// Perspective projection from the focal factor `f` (the reciprocal of
    /// the tangent of half the field of view), aspect ratio, and the near
    /// and far plane distances.
    pub fn make_projection(f: i64, aspect: i64, near: i64, far: i64) -> (r: Matrix4x4)
        ensures
            r == spec_projection(f, aspect, near, far),
    {
        Matrix4x4 {
            m00: fx_mul(aspect, f), m01: 0, m02: 0, m03: 0,
            m10: 0, m11: f, m12: 0, m13: 0,
            m20: 0, m21: 0, m22: fx_div(far, fx_sub(far, near)), m23: FX_ONE,
            m30: 0, m31: 0,
            m32: fx_div(fx_neg(fx_mul(far, near)), fx_sub(far, near)),
            m33: 0,
        }
    }

    pub fn make_translation(x: i64, y: i64, z: i64) -> (r: Matrix4x4)
        ensures
            r == spec_translation(x, y, z),
    {
        Matrix4x4 {
            m00: FX_ONE, m01: 0, m02: 0, m03: 0,
            m10: 0, m11: FX_ONE, m12: 0, m13: 0,
            m20: 0, m21: 0, m22: FX_ONE, m23: 0,
            m30: x, m31: y, m32: z, m33: FX_ONE,
        }
    }

    /// The camera "point-at" matrix from a position, a target and an
    /// approximate up direction.
    pub fn make_point_at(pos: &Vec3d, target: &Vec3d, up: &Vec3d) -> (r: Matrix4x4)
        ensures
            r == spec_point_at(*pos, *target, *up),
    {
        let mut new_forward = target.sub(*pos);
        new_forward.normalize();

        let a = new_forward.mul(up.dot(&new_forward));
        let mut new_up = up.sub(a);
        new_up.normalize();

        let new_right = new_up.cross(&new_forward);

        Matrix4x4 {
            m00: new_right.x, m01: new_right.y, m02: new_right.z, m03: 0,
            m10: new_up.x, m11: new_up.y, m12: new_up.z, m13: 0,
            m20: new_forward.x, m21: new_forward.y, m22: new_forward.z, m23: 0,
            m30: pos.x, m31: pos.y, m32: pos.z, m33: FX_ONE,
        }
    }
}

/// Law: the Z-rotation matrix built for angle zero (sine 0, cosine one
/// unit) maps every vector with an affine `w` of one unit to itself.
pub proof fn lemma_rotation_z_zero_is_identity(v: Vec3d)
    requires
        v.w == FX_ONE,
    ensures
        spec_mmv(spec_rotation_z(0, FX_ONE), v) == v,
{
    crate::fx::lemma_fx_unit(v.x as int);
    crate::fx::lemma_fx_unit(v.y as int);
    crate::fx::lemma_fx_unit(v.z as int);
}

/// Law: a translation matrix followed by its closed-form inverse returns
/// every vector to itself, whenever the translated coordinates stay inside
/// the scalar range (outside it, saturation loses the excess).
pub proof fn lemma_translation_round_trip(dx: i64, dy: i64, dz: i64, v: Vec3d)
    requires
        v.w == FX_ONE,
        i64::MIN < dx,
        i64::MIN < dy,
        i64::MIN < dz,
        i64::MIN <= v.x + dx <= i64::MAX,
        i64::MIN <= v.y + dy <= i64::MAX,
        i64::MIN <= v.z + dz <= i64::MAX,
    ensures
        spec_mmv(
            spec_quick_inverse(spec_translation(dx, dy, dz)),
            spec_mmv(spec_translation(dx, dy, dz), v),
        ) == v,
{
    crate::fx::lemma_fx_unit(v.x as int);
    crate::fx::lemma_fx_unit(v.y as int);
    crate::fx::lemma_fx_unit(v.z as int);
    crate::fx::lemma_fx_unit(dx as int);
    crate::fx::lemma_fx_unit(dy as int);
    crate::fx::lemma_fx_unit(dz as int);
    crate::fx::lemma_fx_unit(v.x + dx);
    crate::fx::lemma_fx_unit(v.y + dy);
    crate::fx::lemma_fx_unit(v.z + dz);
}

/// Law: a quarter-turn about Z followed by its closed-form inverse also
/// returns every vector to itself exactly: with sine one unit and cosine
/// zero, no product loses a truncation step.
pub proof fn lemma_rotation_z_quarter_turn_round_trip(v: Vec3d)
    requires
        v.w == FX_ONE,
        i64::MIN < v.x,
        i64::MIN < v.y,
    ensures
        spec_mmv(
            spec_quick_inverse(spec_rotation_z(FX_ONE, 0)),
            spec_mmv(spec_rotation_z(FX_ONE, 0), v),
        ) == v,
{
    crate::fx::lemma_fx_unit(v.x as int);
    crate::fx::lemma_fx_unit(v.y as int);
    crate::fx::lemma_fx_unit(v.z as int);
    crate::fx::lemma_fx_unit(-(v.x as int));
    crate::fx::lemma_fx_unit(-(v.y as int));
}

} // verus!
