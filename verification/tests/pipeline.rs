//! End-to-end scenarios through the whole pipeline.

use r3de::fx::FX_ONE;
use r3de::vec3::Vec3d;
use r3de::tri::Tri;
use r3de::tri::Mesh;
use r3de::mat4::Matrix4x4;
use r3de::engine::Engine;
use r3de::engine::FrameRotation;
use r3de::raster::Color;
use r3de::raster::PixelBuffer;
use r3de::engine::depth_sort;
use r3de::engine::tri_depth;

const S: i64 = FX_ONE;

fn no_rotation() -> FrameRotation {
    FrameRotation { sin_z: 0, cos_z: S, sin_x: 0, cos_x: S }
}

fn unit_triangle() -> Tri {
    Tri::new(Vec3d::new(0, 0, 0), Vec3d::new(0, S, 0), Vec3d::new(S, S, 0))
}

#[test]
fn unit_triangle_lands_inside_the_target() {
    // a unit triangle rotated by zero, pushed to z = 8, projected with a
    // 90-degree field of view at 1:1 aspect onto 700 x 700, stays inside
    let engine = Engine::new(700, 700, Vec::new());
    let rot_z = Matrix4x4::make_rotation_z(0, S);
    let rot_x = Matrix4x4::make_rotation_x(0, S);
    let translate = Matrix4x4::make_translation(0, 0, 8 * S);

    let t = unit_triangle();
    let t = rot_z.mul_mat_tri(&t);
    let t = rot_x.mul_mat_tri(&t);
    let t = translate.mul_mat_tri(&t);

    let clipped = t.triangle_clip_against_plane(&Vec3d::new(0, 0, S), &Vec3d::new(0, 0, S));
    assert_eq!(clipped.len(), 1);
    assert_eq!(clipped[0], t);

    let mut projected = engine.mat_proj.mul_mat_tri(&clipped[0]);
    engine.to_screen_space(&mut projected);

    let pixels = [
        (projected.p0.x / S, projected.p0.y / S),
        (projected.p1.x / S, projected.p1.y / S),
        (projected.p2.x / S, projected.p2.y / S),
    ];
    for &(px, py) in pixels.iter() {
        assert!(px >= 0 && px <= 700);
        assert!(py >= 0 && py <= 700);
    }
    assert_eq!(pixels[0], (350, 350));
    assert_eq!(pixels[1], (350, 393));
    assert_eq!(pixels[2], (393, 393));
}

#[test]
fn render_paints_the_visible_triangle() {
    let mesh = Mesh::new(vec![unit_triangle()]);
    let engine = Engine::new(64, 64, vec![mesh]);
    let mut buf = PixelBuffer::new(64, 64, Color::new(9, 9, 9, 9));
    engine.render(&no_rotation(), &mut buf);
    assert_eq!(buf.width(), 64);
    assert_eq!(buf.height(), 64);
    // the flat triangle faces the light head-on: its fill is full white
    let mut whites = 0;
    let mut stale_cells = 0;
    for y in 0..64 {
        for x in 0..64 {
            let c = buf.get_pixel(x, y);
            if c.r == 255 && c.g == 255 && c.b == 255 {
                whites += 1;
            }
            if c == Color::new(9, 9, 9, 9) {
                stale_cells += 1;
            }
        }
    }
    assert!(whites > 0);
    assert_eq!(stale_cells, 0); // the frame was cleared before drawing
}

#[test]
fn render_is_deterministic() {
    let rot = FrameRotation { sin_z: 23456, cos_z: 61210, sin_x: 11914, cos_x: 64444 };
    let mesh = || {
        Mesh::new(vec![
            unit_triangle(),
            Tri::new(Vec3d::new(-S, 0, 0), Vec3d::new(0, -S, 0), Vec3d::new(-S, -S, S)),
        ])
    };
    let engine_a = Engine::new(48, 48, vec![mesh()]);
    let engine_b = Engine::new(48, 48, vec![mesh()]);
    let mut buf_a = PixelBuffer::new(48, 48, Color::new(0, 0, 0, 255));
    let mut buf_b = PixelBuffer::new(48, 48, Color::new(0, 0, 0, 255));
    engine_a.render(&rot, &mut buf_a);
    engine_b.render(&rot, &mut buf_b);
    assert_eq!(buf_a.pixels(), buf_b.pixels());
}

#[test]
fn render_survives_degenerate_triangle() {
    // three collinear points: culled as degenerate, never rasterized
    let collinear = Tri::new(
        Vec3d::new(0, 0, 0),
        Vec3d::new(S, S, 0),
        Vec3d::new(2 * S, 2 * S, 0),
    );
    let engine = Engine::new(32, 32, vec![Mesh::new(vec![collinear])]);
    let mut buf = PixelBuffer::new(32, 32, Color::new(0, 0, 0, 255));
    engine.render(&no_rotation(), &mut buf);
    assert_eq!(buf.width(), 32);
    for y in 0..32 {
        for x in 0..32 {
            assert_eq!(buf.get_pixel(x, y), Color::new(0, 0, 0, 255));
        }
    }
}

#[test]
fn render_with_no_meshes_clears_the_frame() {
    let engine = Engine::new(16, 16, Vec::new());
    let mut buf = PixelBuffer::new(16, 16, Color::new(7, 7, 7, 7));
    engine.render(&no_rotation(), &mut buf);
    for y in 0..16 {
        for x in 0..16 {
            assert_eq!(buf.get_pixel(x, y), Color::new(0, 0, 0, 255));
        }
    }
}

#[test]
fn back_face_is_not_painted() {
    // the same triangle with reversed winding faces away and is culled
    let reversed = Tri::new(
        Vec3d::new(0, 0, 0),
        Vec3d::new(S, S, 0),
        Vec3d::new(0, S, 0),
    );
    let engine = Engine::new(32, 32, vec![Mesh::new(vec![reversed])]);
    let mut buf = PixelBuffer::new(32, 32, Color::new(0, 0, 0, 255));
    engine.render(&no_rotation(), &mut buf);
    for y in 0..32 {
        for x in 0..32 {
            assert_eq!(buf.get_pixel(x, y), Color::new(0, 0, 0, 255));
        }
    }
}

#[test]
fn depth_sort_orders_back_to_front() {
    let at_depth = |z: i64| {
        Tri::new(Vec3d::new(0, 0, z), Vec3d::new(S, 0, z), Vec3d::new(0, S, z + S))
    };
    let near = at_depth(2 * S);
    let far = at_depth(9 * S);
    let middle = at_depth(5 * S);
    assert_eq!(tri_depth(&near), 2 * S + S / 3); // mean of 2, 2 and 3 units
    let sorted = depth_sort(vec![near, far, middle]);
    assert_eq!(sorted.len(), 3);
    assert_eq!(sorted[0], far);
    assert_eq!(sorted[1], middle);
    assert_eq!(sorted[2], near);
}
