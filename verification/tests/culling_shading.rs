//! Back-face culling and flat-shade intensity.

use r3de::fx::FX_ONE;
use r3de::vec3::Vec3d;
use r3de::tri::Tri;
use r3de::engine::shade_level;

const S: i64 = FX_ONE;

#[test]
fn winding_reversal_flips_visibility() {
    let camera = Vec3d::new(0, 0, 0);
    let t = Tri::new(
        Vec3d::new(0, 0, 8 * S),
        Vec3d::new(0, S, 8 * S),
        Vec3d::new(S, S, 8 * S),
    );
    let reversed = Tri::new(t.p0, t.p2, t.p1);
    assert!(t.visible(&camera));
    assert!(!reversed.visible(&camera));
}

#[test]
fn degenerate_triangle_is_invisible_both_ways() {
    // three collinear points: the raw normal is zero, so neither winding
    // is visible
    let camera = Vec3d::new(0, 0, 0);
    let t = Tri::new(
        Vec3d::new(0, 0, 8 * S),
        Vec3d::new(S, S, 8 * S),
        Vec3d::new(2 * S, 2 * S, 8 * S),
    );
    let reversed = Tri::new(t.p0, t.p2, t.p1);
    assert!(!t.visible(&camera));
    assert!(!reversed.visible(&camera));
}

#[test]
fn face_normal_of_flat_triangle() {
    let t = Tri::new(
        Vec3d::new(0, 0, 8 * S),
        Vec3d::new(0, S, 8 * S),
        Vec3d::new(S, S, 8 * S),
    );
    let n = t.get_normal();
    assert_eq!((n.x, n.y, n.z), (0, 0, -S));
}

#[test]
fn zero_normal_stays_zero() {
    let t = Tri::new(
        Vec3d::new(0, 0, 0),
        Vec3d::new(S, S, 0),
        Vec3d::new(2 * S, 2 * S, 0),
    );
    let n = t.get_normal();
    assert_eq!((n.x, n.y, n.z), (0, 0, 0));
}

#[test]
fn shade_scales_and_saturates() {
    assert_eq!(shade_level(S), 255); // full alignment with the light
    assert_eq!(shade_level(S / 2), 127); // half, truncated
    assert_eq!(shade_level(0), 0);
    assert_eq!(shade_level(-S), 0); // facing away saturates at black
    assert_eq!(shade_level(2 * S), 255); // out-of-range saturates at white
    assert_eq!(shade_level(-100), 0);
}
