//! Clipping a triangle against a plane: the four classification cases.

use r3de::fx::FX_ONE;
use r3de::vec3::Vec3d;
use r3de::tri::Tri;

const S: i64 = FX_ONE;

fn near_plane_point() -> Vec3d {
    Vec3d::new(0, 0, S)
}

fn near_plane_normal() -> Vec3d {
    Vec3d::new(0, 0, S)
}

#[test]
fn clip_keeps_triangle_fully_inside() {
    let t = Tri::new(
        Vec3d::new(0, 0, 2 * S),
        Vec3d::new(S, 0, 3 * S),
        Vec3d::new(0, S, 4 * S),
    );
    let out = t.triangle_clip_against_plane(&near_plane_point(), &near_plane_normal());
    assert_eq!(out.len(), 1);
    assert_eq!(out[0], t);
}

#[test]
fn clip_keeps_triangle_touching_the_plane() {
    // distance zero counts as inside
    let t = Tri::new(
        Vec3d::new(0, 0, S),
        Vec3d::new(S, 0, S),
        Vec3d::new(0, S, 3 * S),
    );
    let out = t.triangle_clip_against_plane(&near_plane_point(), &near_plane_normal());
    assert_eq!(out.len(), 1);
    assert_eq!(out[0], t);
}

#[test]
fn clip_discards_triangle_fully_outside() {
    let t = Tri::new(
        Vec3d::new(0, 0, 0),
        Vec3d::new(S, 0, -S),
        Vec3d::new(0, S, 0),
    );
    let out = t.triangle_clip_against_plane(&near_plane_point(), &near_plane_normal());
    assert_eq!(out.len(), 0);
}

#[test]
fn clip_one_inside_yields_one_triangle_on_the_plane() {
    let t = Tri::new(
        Vec3d::new(0, 0, 2 * S),
        Vec3d::new(2 * S, 0, 0),
        Vec3d::new(0, 2 * S, 0),
    );
    let out = t.triangle_clip_against_plane(&near_plane_point(), &near_plane_normal());
    assert_eq!(out.len(), 1);
    assert_eq!(out[0].p0, t.p0);
    // both replacement vertices sit halfway along the cut edges, on z = 1
    assert_eq!(out[0].p1, Vec3d::new(S, 0, S));
    assert_eq!(out[0].p2, Vec3d::new(0, S, S));
    assert_eq!(out[0].shade, t.shade);
}

#[test]
fn clip_two_inside_yields_two_triangles_sharing_a_crossing() {
    // vertices at z = -1, 1, 2 against the plane through (0,0,1): the
    // two-inside one-outside case
    let t = Tri::new(
        Vec3d::new(0, 0, -S),
        Vec3d::new(S, 0, S),
        Vec3d::new(0, S, 2 * S),
    );
    let out = t.triangle_clip_against_plane(&near_plane_point(), &near_plane_normal());
    assert_eq!(out.len(), 2);
    // kept vertices appear in index order
    assert_eq!(out[0].p0, t.p1);
    assert_eq!(out[0].p1, t.p2);
    assert_eq!(out[1].p0, t.p2);
    // the quadrilateral's two halves share the first crossing
    assert_eq!(out[1].p1, out[0].p2);
    // the replacement vertices lie on the plane, up to one truncated
    // scalar step in the interpolation parameter
    assert_eq!(out[0].p2.z, S);
    assert!((out[1].p2.z - S).abs() <= 1);
}

#[test]
fn clip_count_follows_classification() {
    // for a spread of triangles, the output count is 0, 1 or 2 and agrees
    // with how many vertices are inside
    let zs: [i64; 5] = [-2 * S, -S, S, 2 * S, 3 * S];
    for &z0 in zs.iter() {
        for &z1 in zs.iter() {
            for &z2 in zs.iter() {
                let t = Tri::new(
                    Vec3d::new(0, 0, z0),
                    Vec3d::new(S, 0, z1),
                    Vec3d::new(0, S, z2),
                );
                let out =
                    t.triangle_clip_against_plane(&near_plane_point(), &near_plane_normal());
                let inside = [z0, z1, z2].iter().filter(|&&z| z - S >= 0).count();
                let expect = match inside {
                    0 => 0,
                    2 => 2,
                    _ => 1,
                };
                assert_eq!(out.len(), expect);
            }
        }
    }
}

#[test]
fn intersect_plane_midpoint() {
    let start = Vec3d::new(0, 0, 2 * S);
    let end = Vec3d::new(2 * S, 0, 0);
    let p = Vec3d::vector_intersect_plane(
        &near_plane_point(),
        &near_plane_normal(),
        &start,
        &end,
    );
    assert_eq!((p.x, p.y, p.z), (S, 0, S));
}
