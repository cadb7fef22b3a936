//! Vector and matrix arithmetic over the fixed-point scalar.

use r3de::fx::FX_ONE;
use r3de::vec3::Vec3d;
use r3de::mat4::Matrix4x4;

const S: i64 = FX_ONE;

#[test]
fn vector_new_sets_affine_w() {
    let v = Vec3d::new(3, -4, 5);
    assert_eq!(v.x, 3);
    assert_eq!(v.y, -4);
    assert_eq!(v.z, 5);
    assert_eq!(v.w, S);
}

#[test]
fn vector_add_sub_scale() {
    let a = Vec3d::new(S, 2 * S, -3 * S);
    let b = Vec3d::new(10, 20, 30);
    let s = a.add(b);
    assert_eq!((s.x, s.y, s.z), (S + 10, 2 * S + 20, -3 * S + 30));
    let d = a.sub(b);
    assert_eq!((d.x, d.y, d.z), (S - 10, 2 * S - 20, -3 * S - 30));
    let m = a.mul(S / 2);
    assert_eq!((m.x, m.y, m.z), (S / 2, S, -3 * S / 2));
}

#[test]
fn dot_product_exact() {
    let a = Vec3d::new(S, 2 * S, 3 * S);
    assert_eq!(a.dot(&a), 917504); // 14 units: 1*1 + 2*2 + 3*3
    let b = Vec3d::new(-S, 0, S);
    assert_eq!(a.dot(&b), 2 * S); // -1 + 0 + 3
}

#[test]
fn cross_product_basis() {
    let x = Vec3d::new(S, 0, 0);
    let y = Vec3d::new(0, S, 0);
    let z = x.cross(&y);
    assert_eq!((z.x, z.y, z.z), (0, 0, S));
    let nz = y.cross(&x);
    assert_eq!((nz.x, nz.y, nz.z), (0, 0, -S));
}

#[test]
fn normalize_axis_and_diagonal() {
    let mut a = Vec3d::new(3 * S, 0, 0);
    a.normalize();
    assert_eq!((a.x, a.y, a.z), (S, 0, 0));
    let mut d = Vec3d::new(S, S, 0);
    d.normalize();
    // 1/sqrt(2) in 1/65536 steps, truncated
    assert_eq!((d.x, d.y, d.z), (46341, 46341, 0));
}

#[test]
fn normalize_zero_vector_is_guarded() {
    let mut v = Vec3d::new(0, 0, 0);
    v.normalize();
    assert_eq!((v.x, v.y, v.z), (0, 0, 0));
}

#[test]
fn rotation_z_zero_is_identity_on_vectors() {
    let m = Matrix4x4::make_rotation_z(0, S);
    for &(x, y, z) in [(12345i64, -777i64, 999999i64), (0, 0, 0), (-S, 2 * S, -3 * S)].iter() {
        let v = Vec3d::new(x, y, z);
        let r = m.mul_mat_vec(&v);
        assert_eq!((r.x, r.y, r.z, r.w), (x, y, z, S));
    }
}

#[test]
fn translation_then_inverse_returns_vector() {
    let m = Matrix4x4::make_translation(5 * S, -7 * S, 11 * S);
    let inv = m.quick_inverse();
    let v = Vec3d::new(S, 2 * S, 3 * S);
    let moved = m.mul_mat_vec(&v);
    assert_eq!((moved.x, moved.y, moved.z), (6 * S, -5 * S, 14 * S));
    let back = inv.mul_mat_vec(&moved);
    assert_eq!((back.x, back.y, back.z), (S, 2 * S, 3 * S));
}

#[test]
fn rotation_then_inverse_is_within_one_step() {
    // sine and cosine of 0.9 radians, in 1/65536 steps
    let s = 51336;
    let c = 40738;
    let m = Matrix4x4::make_rotation_z(s, c);
    let inv = m.quick_inverse();
    let v = Vec3d::new(S, 2 * S, 3 * S);
    let there = m.mul_mat_vec(&v);
    assert_eq!((there.x, there.y, there.z), (-61934, 132812, 196608));
    let back = inv.mul_mat_vec(&there);
    // truncation costs at most one scalar step per coordinate
    assert_eq!((back.x, back.y, back.z), (65536, 131071, 196608));
    assert!((back.x - v.x).abs() <= 1);
    assert!((back.y - v.y).abs() <= 1);
    assert!((back.z - v.z).abs() <= 1);
}

#[test]
fn matrix_vector_skips_divide_when_w_is_zero() {
    let m = Matrix4x4::new([[S, 0, 0, 0], [0, S, 0, 0], [0, 0, S, 0], [0, 0, 0, 0]]);
    let v = Vec3d::new(3 * S, -2 * S, S);
    let r = m.mul_mat_vec(&v);
    assert_eq!((r.x, r.y, r.z), (3 * S, -2 * S, S));
}

#[test]
fn point_at_standard_basis() {
    let pos = Vec3d::new(0, 0, 0);
    let target = Vec3d::new(0, 0, S);
    let up = Vec3d::new(0, S, 0);
    let m = Matrix4x4::make_point_at(&pos, &target, &up);
    assert_eq!((m.m00, m.m01, m.m02), (S, 0, 0));
    assert_eq!((m.m10, m.m11, m.m12), (0, S, 0));
    assert_eq!((m.m20, m.m21, m.m22), (0, 0, S));
    assert_eq!((m.m30, m.m31, m.m32, m.m33), (0, 0, 0, S));
}

#[test]
fn projection_matrix_layout() {
    let m = Matrix4x4::make_projection(S, S, 6554, 1000 * S);
    assert_eq!(m.m00, S);
    assert_eq!(m.m11, S);
    assert_eq!(m.m22, 65542); // far / (far - near), rounded toward zero
    assert_eq!(m.m23, S);
    assert_eq!(m.m32, -6554); // -far * near / (far - near)
    assert_eq!(m.m33, 0);
}

#[test]
fn rotation_y_quarter_turn_sends_x_to_z() {
    let m = Matrix4x4::make_rotation_y(S, 0);
    let v = Vec3d::new(S, 0, 0);
    let r = m.mul_mat_vec(&v);
    assert_eq!((r.x, r.y, r.z), (0, 0, S));
}

#[test]
fn rotation_x_quarter_turn_sends_y_to_z() {
    let m = Matrix4x4::make_rotation_x(S, 0);
    let v = Vec3d::new(0, S, 0);
    let r = m.mul_mat_vec(&v);
    assert_eq!((r.x, r.y, r.z), (0, 0, S));
}

#[test]
fn intersect_parallel_segment_falls_back_to_start() {
    // a segment parallel to the plane: the guarded zero denominator
    // yields the zero parameter, so the start point comes back
    let pp = Vec3d::new(0, 0, S);
    let pn = Vec3d::new(0, 0, S);
    let start = Vec3d::new(0, 0, 3 * S);
    let end = Vec3d::new(5 * S, 0, 3 * S);
    let p = Vec3d::vector_intersect_plane(&pp, &pn, &start, &end);
    assert_eq!((p.x, p.y, p.z), (0, 0, 3 * S));
}
