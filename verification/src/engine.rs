//! The render pipeline: per frame, every triangle of every mesh is rotated
//! about Z then X, translated in front of the viewpoint, clipped against
//! the near plane, culled and flat-shaded, projected to screen space,
//! depth-sorted back to front, and rasterized into a pixel buffer.
//!
//! The elapsed-time angle lives with the caller: a frame is rendered from
//! the sines and cosines the caller derived from its clock, so the same
//! rotation input always yields the same pixels.

use vstd::prelude::*;
use crate::fx::FX_ONE;
use crate::fx::sat64;
use crate::fx::div_trunc;
use crate::fx::fx_mul_val;
use crate::fx::fx_add;
use crate::fx::fx_mul;
use crate::fx::fx_div;
use crate::fx::avg3;
use crate::fx::div_trunc_i64;
use crate::vec3::Vec3d;
use crate::tri::Tri;
use crate::tri::Mesh;
use crate::mat4::Matrix4x4;
use crate::mat4::spec_projection;
use crate::mat4::spec_rotation_x;
use crate::mat4::spec_rotation_z;
use crate::mat4::spec_translation;
use crate::mat4::spec_mmv;
use crate::tri::spec_clip;
use crate::tri::spec_visible;
use crate::tri::spec_raw_normal;
use crate::vec3::spec_dot;
use crate::vec3::spec_normalized;
use crate::raster::Color;
use crate::raster::PixelBuffer;
use crate::raster::MAX_DIM;
use crate::raster::spec_filled;
use crate::raster::spec_fill_triangle;
use crate::raster::spec_triangle_edges;

verus! {

/// The near clip distance, 0.1 in scalar units (rounded to the nearest
/// representable value).
pub const NEAR_FX: i64 = 6554;

/// The far clip distance, 1000 in scalar units.
pub const FAR_FX: i64 = 65536000;

/// The focal factor of the fixed 90-degree field of view: the reciprocal
/// of the tangent of half that angle is exactly one unit.
pub const FOCAL_FX: i64 = 65536;

/// Per-frame rotation input: the sine and cosine of the Z angle, and of
/// the X angle (half the Z angle under the original schedule), in scalar
/// units.
#[derive(Clone, Copy, PartialEq, Eq, Structural, Debug)]
pub struct FrameRotation {
    pub sin_z: i64,
    pub cos_z: i64,
    pub sin_x: i64,
    pub cos_x: i64,
}

/// The fixed per-run state: the meshes, the projection matrix built once
/// at startup, the viewpoint at the origin, and the target dimensions.
pub struct Engine {
    pub meshes: Vec<Mesh>,
    pub mat_proj: Matrix4x4,
    pub v_camera: Vec3d,
    pub width: usize,
    pub height: usize,
}

/// The flat-shade intensity for a normal-light dot product: scaled to an
/// 8-bit channel and saturated into it (a deliberate choice over wrapping).
pub open spec fn spec_shade_level(d: int) -> int {
    let v = sat64(fx_mul_val(d, 255));
    if v < 0 {
        0
    } else if v > 255 {
        255
    } else {
        v
    }
}

pub fn shade_level(d: i64) -> (r: u8)
    ensures
        r as int == spec_shade_level(d as int),
{
    let v = fx_mul(d, 255);
    if v < 0 {
        0
    } else if v > 255 {
        255
    } else {
        v as u8
    }
}

/// One clip-space coordinate mapped to pixel space: shifted by one unit
/// and scaled by half the buffer dimension.
pub open spec fn spec_screen_coord(c: int, dim: int) -> int {
    sat64(fx_mul_val(sat64(c + FX_ONE), dim * 32768))
}

pub open spec fn spec_to_screen(v: Vec3d, w: int, h: int) -> Vec3d {
    Vec3d {
        x: spec_screen_coord(v.x as int, w) as i64,
        y: spec_screen_coord(v.y as int, h) as i64,
        z: v.z,
        w: v.w,
    }
}

/// The painter's-algorithm depth key: the truncated mean of the three
/// vertex depths.
pub open spec fn spec_depth(t: Tri) -> int {
    sat64(div_trunc(t.p0.z + t.p1.z + t.p2.z, 3))
}

pub fn tri_depth(t: &Tri) -> (d: i64)
    ensures
        d as int == spec_depth(*t),
{
    avg3(t.p0.z, t.p1.z, t.p2.z)
}

/// The index of the first deepest element, scanning from `k` with the
/// current best candidate `best`.
pub open spec fn spec_first_max_depth(s: Seq<Tri>, k: int, best: int) -> int
    decreases s.len() - k,
{
    if k >= s.len() {
        best
    } else {
        spec_first_max_depth(s, k + 1, if spec_depth(s[k]) > spec_depth(s[best]) {
            k
        } else {
            best
        })
    }
}

/// Scanning for the first deepest element stays within the sequence.
pub proof fn lemma_first_max_depth_in_range(s: Seq<Tri>, k: int, best: int)
    requires
        0 <= best < s.len(),
        0 <= k,
    ensures
        0 <= spec_first_max_depth(s, k, best) < s.len(),
    decreases s.len() - k,
{
    if k < s.len() {
        lemma_first_max_depth_in_range(s, k + 1, if spec_depth(s[k]) > spec_depth(s[best]) {
            k
        } else {
            best
        });
    }
}

/// Back-to-front order as a function of the input: repeatedly move the
/// first deepest remaining triangle to the front.
pub open spec fn spec_depth_sort(s: Seq<Tri>) -> Seq<Tri>
    decreases s.len(),
{
    if s.len() == 0 {
        Seq::empty()
    } else {
        let m0 = spec_first_max_depth(s, 1, 0);
        let m = if 0 <= m0 < s.len() {
            m0
        } else {
            0
        };
        seq![s[m]] + spec_depth_sort(s.remove(m))
    }
}

/// Farthest first: every element is at least as deep as those after it.
pub open spec fn spec_depth_sorted(s: Seq<Tri>) -> bool {
    forall|i: int, j: int| 0 <= i < j < s.len() ==> spec_depth(s[i]) >= spec_depth(s[j])
}

/// Sort triangles back to front by depth key. Selection by maximum gives
/// a total order even among equal keys, so the sort always terminates and
/// the output is a permutation of the input.
pub fn depth_sort(input: Vec<Tri>) -> (out: Vec<Tri>)
    ensures
        out@ == spec_depth_sort(input@),
        spec_depth_sorted(out@),
        out@.to_multiset() == input@.to_multiset(),
        out@.len() == input@.len(),
{
    broadcast use vstd::seq_lib::group_to_multiset_ensures;

    let ghost orig = input@;
    let mut v = input;
    let mut out: Vec<Tri> = Vec::new();
    while v.len() > 0
        invariant
            out@.to_multiset().add(v@.to_multiset()) == orig.to_multiset(),
            out@ + spec_depth_sort(v@) == spec_depth_sort(orig),
            spec_depth_sorted(out@),
            forall|i: int, j: int|
                0 <= i < out@.len() && 0 <= j < v@.len() ==> spec_depth(out@[i]) >= spec_depth(
                    v@[j],
                ),
        decreases v.len(),
    {
        let mut mi: usize = 0;
        let mut md = tri_depth(&v[0]);
        let mut k: usize = 1;
        while k < v.len()
            invariant
                v@.len() > 0,
                mi < v@.len(),
                1 <= k <= v@.len(),
                md as int == spec_depth(v@[mi as int]),
                forall|t: int| 0 <= t < k ==> md as int >= spec_depth(v@[t]),
                spec_first_max_depth(v@, k as int, mi as int) == spec_first_max_depth(v@, 1, 0),
            decreases v@.len() - k,
        {
            let d = tri_depth(&v[k]);
            if d > md {
                mi = k;
                md = d;
            }
            k = k + 1;
        }
        proof {
            assert(spec_first_max_depth(v@, k as int, mi as int) == mi as int);
        }
        let ghost prev_v = v@;
        let ghost prev_out = out@;
        let picked = v.remove(mi);
        out.push(picked);
        proof {
            broadcast use vstd::multiset::group_multiset_axioms;

            prev_v.to_multiset_ensures();
            prev_out.to_multiset_ensures();
            assert(0 <= mi < prev_v.len() && prev_v[mi as int] == picked);
            assert(prev_v.contains(picked));
            assert(v@ == prev_v.remove(mi as int));
            assert(out@ == prev_out.push(picked));
            assert(v@.to_multiset() =~= prev_v.to_multiset().remove(picked));
            assert(out@.to_multiset() =~= prev_out.to_multiset().insert(picked));
            assert(prev_v.to_multiset().count(picked) > 0);
            assert(out@.to_multiset().add(v@.to_multiset()) =~= orig.to_multiset());
            assert(spec_depth_sort(prev_v) == seq![picked] + spec_depth_sort(v@));
            assert(out@ + spec_depth_sort(v@) =~= prev_out + spec_depth_sort(prev_v));
            assert(out@ + spec_depth_sort(v@) == spec_depth_sort(orig));
            assert forall|i: int, j: int|
                0 <= i < out@.len() && 0 <= j < v@.len() implies spec_depth(out@[i])
                >= spec_depth(v@[j]) by {
                assert(v@[j] == prev_v[if j < mi as int {
                    j
                } else {
                    j + 1
                }]);
            }
        }
    }
    proof {
        assert(out@.to_multiset() =~= orig.to_multiset());
        assert(out@.to_multiset().len() == out@.len());
        assert(orig.to_multiset().len() == orig.len());
        assert(out@ + spec_depth_sort(v@) =~= out@);
    }
    out
}


/// A triangle's image under a matrix, vertex by vertex; the shade resets
/// to the source default.
#[verifier::opaque]
pub open spec fn spec_mmv_tri(m: Matrix4x4, t: Tri) -> Tri {
    Tri { p0: spec_mmv(m, t.p0), p1: spec_mmv(m, t.p1), p2: spec_mmv(m, t.p2), shade: 255u8 }
}

/// The near clip plane's point — which doubles as its unit normal in
/// this pipeline — as the render loop builds it.
pub open spec fn spec_near_plane_point() -> Vec3d {
    Vec3d { x: 0i64, y: 0i64, z: FX_ONE, w: FX_ONE }
}

/// The fixed directional light.
pub open spec fn spec_light() -> Vec3d {
    Vec3d { x: 0i64, y: 0i64, z: (-65536) as i64, w: FX_ONE }
}

/// A surviving clipped triangle made ready to rasterize: projected,
/// mapped to screen space, and flat-shaded from its unit normal against
/// the fixed light.
#[verifier::opaque]
pub open spec fn spec_finish_tri(proj: Matrix4x4, w: int, h: int, ct: Tri) -> Tri {
    let n = spec_normalized(spec_raw_normal(ct));
    let tp = spec_mmv_tri(proj, ct);
    Tri {
        p0: spec_to_screen(tp.p0, w, h),
        p1: spec_to_screen(tp.p1, w, h),
        p2: spec_to_screen(tp.p2, w, h),
        shade: spec_shade_level(spec_dot(n, spec_light())) as u8,
    }
}

/// The visible members of a clipped batch, finished for rasterization,
/// in their clip order.
#[verifier::opaque]
pub open spec fn spec_finish_visible(proj: Matrix4x4, cam: Vec3d, w: int, h: int, cs: Seq<
    Tri,
>) -> Seq<Tri>
    decreases cs.len(),
{
    if cs.len() == 0 {
        Seq::empty()
    } else {
        let rest = spec_finish_visible(proj, cam, w, h, cs.drop_first());
        if spec_visible(cs[0], cam) {
            seq![spec_finish_tri(proj, w, h, cs[0])] + rest
        } else {
            rest
        }
    }
}

/// What one source triangle contributes to a frame: rotated about Z then
/// X, pushed in front of the viewpoint, clipped against the near plane,
/// culled and finished.
#[verifier::opaque]
pub open spec fn spec_pipe_tri(e: Engine, rot: FrameRotation, t: Tri) -> Seq<Tri> {
    let mz = spec_rotation_z(rot.sin_z, rot.cos_z);
    let mx = spec_rotation_x(rot.sin_x, rot.cos_x);
    let mt = spec_translation(0, 0, (8 * 65536) as i64);
    let tt = spec_mmv_tri(mt, spec_mmv_tri(mx, spec_mmv_tri(mz, t)));
    spec_finish_visible(e.mat_proj, e.v_camera, e.width as int, e.height as int, spec_clip(tt,
        spec_near_plane_point(), spec_near_plane_point()))
}

/// A whole mesh's contribution, in triangle order.
#[verifier::opaque]
pub open spec fn spec_collect_frame(e: Engine, rot: FrameRotation, ts: Seq<Tri>) -> Seq<Tri>
    decreases ts.len(),
{
    if ts.len() == 0 {
        Seq::empty()
    } else {
        spec_pipe_tri(e, rot, ts[0]) + spec_collect_frame(e, rot, ts.drop_first())
    }
}

/// The cells after rasterizing one finished triangle: its interior
/// filled with its gray shade, its edges stroked in black.
#[verifier::opaque]
pub open spec fn spec_paint_tri(w: int, h: int, px: Seq<Color>, t: Tri) -> Seq<Color> {
    let x1 = div_trunc(t.p0.x as int, FX_ONE as int);
    let y1 = div_trunc(t.p0.y as int, FX_ONE as int);
    let x2 = div_trunc(t.p1.x as int, FX_ONE as int);
    let y2 = div_trunc(t.p1.y as int, FX_ONE as int);
    let x3 = div_trunc(t.p2.x as int, FX_ONE as int);
    let y3 = div_trunc(t.p2.y as int, FX_ONE as int);
    let gray = Color { r: t.shade, g: t.shade, b: t.shade, a: 255u8 };
    let black = Color { r: 0u8, g: 0u8, b: 0u8, a: 255u8 };
    spec_triangle_edges(w, h, spec_fill_triangle(w, h, px, x1, y1, x2, y2, x3, y3, gray), x1,
        y1, x2, y2, x3, y3, black)
}

/// The cells after rasterizing a batch front to back through the list
/// (the list is ordered back to front, so later, nearer triangles win
/// overlaps).
#[verifier::opaque]
pub open spec fn spec_paint_all(w: int, h: int, px: Seq<Color>, ts: Seq<Tri>) -> Seq<Color>
    decreases ts.len(),
{
    if ts.len() == 0 {
        px
    } else {
        spec_paint_all(w, h, spec_paint_tri(w, h, px, ts[0]), ts.drop_first())
    }
}

/// One frame, mesh by mesh: each mesh's visible triangles are collected,
/// depth-sorted, and painted into the `bw` by `bh` target over what is
/// already there.
#[verifier::opaque]
pub open spec fn spec_render_meshes(e: Engine, rot: FrameRotation, ms: Seq<Mesh>, bw: int,
    bh: int, px: Seq<Color>) -> Seq<Color>
    decreases ms.len(),
{
    if ms.len() == 0 {
        px
    } else {
        spec_render_meshes(e, rot, ms.drop_first(), bw, bh, spec_paint_all(bw, bh, px,
            spec_depth_sort(spec_collect_frame(e, rot, ms[0].tris@))))
    }
}

/// A whole frame over a cleared black background of the target's shape.
pub open spec fn spec_render(e: Engine, rot: FrameRotation, bw: int, bh: int, n: int) -> Seq<
    Color,
> {
    spec_render_meshes(e, rot, e.meshes@, bw, bh, spec_filled(n, Color {
        r: 0u8,
        g: 0u8,
        b: 0u8,
        a: 255u8,
    }))
}

impl Engine {
    /// The target dimensions stay within the buffer range.
    pub open spec fn wf(self) -> bool {
        1 <= self.width <= MAX_DIM && 1 <= self.height <= MAX_DIM
    }

    /// Fixed configuration from startup: the projection matrix is built
    /// once from the 90-degree field of view, the target's aspect ratio,
    /// and the near and far distances; the viewpoint is the origin.
    pub fn new(width: usize, height: usize, meshes: Vec<Mesh>) -> (e: Engine)
        requires
            1 <= width <= MAX_DIM,
            1 <= height <= MAX_DIM,
        ensures
            e.wf(),
            e.width == width,
            e.height == height,
            e.meshes == meshes,
            e.v_camera == (Vec3d { x: 0i64, y: 0i64, z: 0i64, w: FX_ONE }),
            e.mat_proj == spec_projection(
                FOCAL_FX,
                sat64(
                    crate::fx::fx_div_val((width * 0x10000) as int, (height * 0x10000) as int),
                ) as i64,
                NEAR_FX,
                FAR_FX,
            ),
    {
        let w_fx = (width as i64) * FX_ONE;
        let h_fx = (height as i64) * FX_ONE;
        let aspect = fx_div(w_fx, h_fx);
        let mat_proj = Matrix4x4::make_projection(FOCAL_FX, aspect, NEAR_FX, FAR_FX);
        Engine { meshes, mat_proj, v_camera: Vec3d::new(0, 0, 0), width, height }
    }

    /// Map a projected triangle's clip coordinates into pixel coordinates
    /// of this engine's target.
    pub fn to_screen_space(&self, tri: &mut Tri)
        requires
            self.wf(),
        ensures
            *final(tri) == (Tri {
                p0: spec_to_screen(old(tri).p0, self.width as int, self.height as int),
                p1: spec_to_screen(old(tri).p1, self.width as int, self.height as int),
                p2: spec_to_screen(old(tri).p2, self.width as int, self.height as int),
                shade: old(tri).shade,
            }),
    {
        let half_w = (self.width as i64) * 32768;
        let half_h = (self.height as i64) * 32768;
        tri.p0.x = fx_mul(fx_add(tri.p0.x, FX_ONE), half_w);
        tri.p0.y = fx_mul(fx_add(tri.p0.y, FX_ONE), half_h);
        tri.p1.x = fx_mul(fx_add(tri.p1.x, FX_ONE), half_w);
        tri.p1.y = fx_mul(fx_add(tri.p1.y, FX_ONE), half_h);
        tri.p2.x = fx_mul(fx_add(tri.p2.x, FX_ONE), half_w);
        tri.p2.y = fx_mul(fx_add(tri.p2.y, FX_ONE), half_h);
    }

    /// One source triangle's contribution to a frame, appended to the
    /// accumulator: rotated, translated, clipped, culled and finished.
    fn pipe_triangle(
        &self,
        rot: &FrameRotation,
        mat_rot_z: &Matrix4x4,
        mat_rot_x: &Matrix4x4,
        mat_trans: &Matrix4x4,
        plane_p: &Vec3d,
        plane_n: &Vec3d,
        light: &Vec3d,
        t: &Tri,
        to_raster: &mut Vec<Tri>,
    )
        requires
            self.wf(),
            *mat_rot_z == spec_rotation_z(rot.sin_z, rot.cos_z),
            *mat_rot_x == spec_rotation_x(rot.sin_x, rot.cos_x),
            *mat_trans == spec_translation(0, 0, (8 * 65536) as i64),
            *plane_p == spec_near_plane_point(),
            *plane_n == spec_near_plane_point(),
            *light == spec_light(),
        ensures
            final(to_raster)@ == old(to_raster)@ + spec_pipe_tri(*self, *rot, *t),
    {
        let tri_rot_z = mat_rot_z.mul_mat_tri(t);
        let tri_rot_x = mat_rot_x.mul_mat_tri(&tri_rot_z);
        let tri_translated = mat_trans.mul_mat_tri(&tri_rot_x);

        let clipped = tri_translated.triangle_clip_against_plane(plane_p, plane_n);
        let ghost tr0 = to_raster@;

        proof {
            assert(clipped@.skip(0) =~= clipped@);
        }
        let mut ci: usize = 0;
        while ci < clipped.len()
            invariant
                self.wf(),
                ci <= clipped@.len(),
                *light == spec_light(),
                to_raster@ + spec_finish_visible(self.mat_proj, self.v_camera,
                    self.width as int, self.height as int, clipped@.skip(ci as int)) == tr0
                    + spec_finish_visible(self.mat_proj, self.v_camera, self.width as int,
                    self.height as int, clipped@),
            decreases clipped@.len() - ci,
        {
            let ghost prev_tr = to_raster@;
            let ct = &clipped[ci];
            proof {
                reveal(spec_finish_visible);
                assert(clipped@.skip(ci as int)[0] == clipped@[ci as int]);
                assert(clipped@.skip(ci as int).drop_first() =~= clipped@.skip(ci as int + 1));
            }
            if ct.visible(&self.v_camera) {
                let normal = ct.get_normal();
                let mut tp = self.mat_proj.mul_mat_tri(ct);
                self.to_screen_space(&mut tp);
                tp.shade = shade_level(normal.dot(light));
                to_raster.push(tp);
                proof {
                    reveal(spec_finish_visible);
                    reveal(spec_finish_tri);
                    reveal(spec_mmv_tri);
                    assert(tp == spec_finish_tri(self.mat_proj, self.width as int,
                        self.height as int, clipped@[ci as int]));
                    assert(to_raster@ =~= prev_tr + seq![tp]);
                    assert(prev_tr + (seq![tp] + spec_finish_visible(self.mat_proj,
                        self.v_camera, self.width as int, self.height as int, clipped@.skip(
                        ci as int + 1))) =~= (prev_tr + seq![tp]) + spec_finish_visible(
                        self.mat_proj, self.v_camera, self.width as int, self.height as int,
                        clipped@.skip(ci as int + 1)));
                }
            }
            ci = ci + 1;
        }
        proof {
            reveal(spec_finish_visible);
            reveal(spec_pipe_tri);
            reveal(spec_mmv_tri);
            assert(clipped@.skip(clipped@.len() as int) =~= Seq::<Tri>::empty());
            assert(to_raster@ + Seq::<Tri>::empty() =~= to_raster@);
            assert(tri_translated == spec_mmv_tri(*mat_trans, spec_mmv_tri(*mat_rot_x,
                spec_mmv_tri(*mat_rot_z, *t))));
            assert(spec_finish_visible(self.mat_proj, self.v_camera, self.width as int,
                self.height as int, clipped@) == spec_pipe_tri(*self, *rot, *t));
        }
    }

    /// A whole mesh's visible, finished triangles, in triangle order.
    fn collect_mesh(
        &self,
        rot: &FrameRotation,
        mat_rot_z: &Matrix4x4,
        mat_rot_x: &Matrix4x4,
        mat_trans: &Matrix4x4,
        plane_p: &Vec3d,
        plane_n: &Vec3d,
        light: &Vec3d,
        mesh: &Mesh,
    ) -> (out: Vec<Tri>)
        requires
            self.wf(),
            *mat_rot_z == spec_rotation_z(rot.sin_z, rot.cos_z),
            *mat_rot_x == spec_rotation_x(rot.sin_x, rot.cos_x),
            *mat_trans == spec_translation(0, 0, (8 * 65536) as i64),
            *plane_p == spec_near_plane_point(),
            *plane_n == spec_near_plane_point(),
            *light == spec_light(),
        ensures
            out@ == spec_collect_frame(*self, *rot, mesh.tris@),
    {
        let ghost tsg = mesh.tris@;
        let ghost frame_total = spec_collect_frame(*self, *rot, tsg);
        let mut to_raster: Vec<Tri> = Vec::new();
        proof {
            assert(tsg.skip(0) =~= tsg);
            assert(Seq::<Tri>::empty() + spec_collect_frame(*self, *rot, tsg) =~= frame_total);
        }
        let mut ti: usize = 0;
        while ti < mesh.tris.len()
            invariant
                self.wf(),
                ti <= tsg.len(),
                tsg == mesh.tris@,
                *mat_rot_z == spec_rotation_z(rot.sin_z, rot.cos_z),
                *mat_rot_x == spec_rotation_x(rot.sin_x, rot.cos_x),
                *mat_trans == spec_translation(0, 0, (8 * 65536) as i64),
                *plane_p == spec_near_plane_point(),
                *plane_n == spec_near_plane_point(),
                *light == spec_light(),
                to_raster@ + spec_collect_frame(*self, *rot, tsg.skip(ti as int))
                    == frame_total,
            decreases tsg.len() - ti,
        {
            let ghost tr0 = to_raster@;
            self.pipe_triangle(rot, mat_rot_z, mat_rot_x, mat_trans, plane_p, plane_n, light,
                &mesh.tris[ti], &mut to_raster);
            proof {
                reveal(spec_collect_frame);
                assert(tsg.skip(ti as int)[0] == tsg[ti as int]);
                assert(tsg.skip(ti as int).drop_first() =~= tsg.skip(ti as int + 1));
                assert(tr0 + (spec_pipe_tri(*self, *rot, tsg[ti as int]) + spec_collect_frame(
                    *self, *rot, tsg.skip(ti as int + 1))) =~= (tr0 + spec_pipe_tri(*self,
                    *rot, tsg[ti as int])) + spec_collect_frame(*self, *rot, tsg.skip(
                    ti as int + 1)));
            }
            ti = ti + 1;
        }
        proof {
            reveal(spec_collect_frame);
            assert(tsg.skip(tsg.len() as int) =~= Seq::<Tri>::empty());
            assert(to_raster@ + Seq::<Tri>::empty() =~= to_raster@);
        }
        to_raster
    }

    /// Rasterize a batch in list order: each triangle's gray fill, then
    /// its black edges.
    fn paint_list(&self, sorted: &Vec<Tri>, buf: &mut PixelBuffer)
        requires
            old(buf).wf(),
        ensures
            final(buf).wf(),
            final(buf).same_shape(*old(buf)),
            final(buf)@ == spec_paint_all(old(buf).spec_width(), old(buf).spec_height(),
                old(buf)@, sorted@),
    {
        let ghost w = old(buf).spec_width();
        let ghost h = old(buf).spec_height();
        let ghost paint_total = spec_paint_all(w, h, old(buf)@, sorted@);
        proof {
            assert(sorted@.skip(0) =~= sorted@);
        }
        let mut ri: usize = 0;
        while ri < sorted.len()
            invariant
                buf.wf(),
                buf.spec_width() == w,
                buf.spec_height() == h,
                buf@.len() == old(buf)@.len(),
                ri <= sorted@.len(),
                spec_paint_all(w, h, buf@, sorted@.skip(ri as int)) == paint_total,
            decreases sorted@.len() - ri,
        {
            let ghost prev_buf = buf@;
            let tp = &sorted[ri];
            let x1 = div_trunc_i64(tp.p0.x, FX_ONE);
            let y1 = div_trunc_i64(tp.p0.y, FX_ONE);
            let x2 = div_trunc_i64(tp.p1.x, FX_ONE);
            let y2 = div_trunc_i64(tp.p1.y, FX_ONE);
            let x3 = div_trunc_i64(tp.p2.x, FX_ONE);
            let y3 = div_trunc_i64(tp.p2.y, FX_ONE);
            buf.fill_triangle(x1, y1, x2, y2, x3, y3, Color::new(tp.shade, tp.shade, tp.shade,
                255));
            buf.draw_triangle(x1, y1, x2, y2, x3, y3, Color::new(0, 0, 0, 255));
            proof {
                reveal(spec_paint_all);
                reveal(spec_paint_tri);
                assert(buf@ == spec_paint_tri(w, h, prev_buf, sorted@[ri as int]));
                assert(sorted@.skip(ri as int)[0] == sorted@[ri as int]);
                assert(sorted@.skip(ri as int).drop_first() =~= sorted@.skip(ri as int + 1));
            }
            ri = ri + 1;
        }
        proof {
            reveal(spec_paint_all);
            assert(sorted@.skip(sorted@.len() as int) =~= Seq::<Tri>::empty());
        }
    }

    /// Render one frame into `buf`: transform, clip, cull, shade, project,
    /// sort and rasterize every triangle of every mesh over a cleared
    /// background. The resulting cells are exactly the frame that
    /// `spec_render` composes from the stage specifications.
    pub fn render(&self, rot: &FrameRotation, buf: &mut PixelBuffer)
        requires
            self.wf(),
            old(buf).wf(),
        ensures
            final(buf).wf(),
            final(buf).same_shape(*old(buf)),
            final(buf)@ == spec_render(*self, *rot, old(buf).spec_width(),
                old(buf).spec_height(), old(buf)@.len() as int),
            self.meshes@.len() == 0 ==> forall|x: int, y: int|
                final(buf).in_bounds(x, y) ==> final(buf).spec_at(x, y) == (Color {
                    r: 0u8,
                    g: 0u8,
                    b: 0u8,
                    a: 255u8,
                }),
    {
        let ghost snap = *old(buf);
        let ghost w = snap.spec_width();
        let ghost h = snap.spec_height();
        let ghost target = spec_render(*self, *rot, w, h, snap@.len() as int);
        buf.clear(Color::new(0, 0, 0, 255));
        proof {
            assert(self.meshes@.skip(0) =~= self.meshes@);
        }

        let mat_rot_z = Matrix4x4::make_rotation_z(rot.sin_z, rot.cos_z);
        let mat_rot_x = Matrix4x4::make_rotation_x(rot.sin_x, rot.cos_x);
        let mat_trans = Matrix4x4::make_translation(0, 0, 8 * FX_ONE);
        let light = Vec3d::new(0, 0, -FX_ONE);
        let plane_p = Vec3d::new(0, 0, FX_ONE);
        let plane_n = Vec3d::new(0, 0, FX_ONE);

        let mut mi: usize = 0;
        while mi < self.meshes.len()
            invariant
                self.wf(),
                buf.wf(),
                buf.same_shape(snap),
                w == snap.spec_width(),
                h == snap.spec_height(),
                mi <= self.meshes@.len(),
                mat_rot_z == spec_rotation_z(rot.sin_z, rot.cos_z),
                mat_rot_x == spec_rotation_x(rot.sin_x, rot.cos_x),
                mat_trans == spec_translation(0, 0, (8 * 65536) as i64),
                plane_p == spec_near_plane_point(),
                plane_n == spec_near_plane_point(),
                light == spec_light(),
                spec_render_meshes(*self, *rot, self.meshes@.skip(mi as int), w, h, buf@)
                    == target,
                self.meshes@.len() == 0 ==> forall|x: int, y: int|
                    buf.in_bounds(x, y) ==> buf.spec_at(x, y) == (Color {
                        r: 0u8,
                        g: 0u8,
                        b: 0u8,
                        a: 255u8,
                    }),
            decreases self.meshes@.len() - mi,
        {
            let ghost mesh_base = buf@;
            let mesh = &self.meshes[mi];

            let to_raster = self.collect_mesh(rot, &mat_rot_z, &mat_rot_x, &mat_trans,
                &plane_p, &plane_n, &light, mesh);
            let sorted = depth_sort(to_raster);
            self.paint_list(&sorted, buf);

            proof {
                reveal(spec_render_meshes);
                assert(buf@ == spec_paint_all(w, h, mesh_base, spec_depth_sort(
                    spec_collect_frame(*self, *rot, self.meshes@[mi as int].tris@))));
                assert(self.meshes@.skip(mi as int)[0] == self.meshes@[mi as int]);
                assert(self.meshes@.skip(mi as int).drop_first() =~= self.meshes@.skip(
                    mi as int + 1));
            }
            mi = mi + 1;
        }
        proof {
            reveal(spec_render_meshes);
            assert(self.meshes@.skip(self.meshes@.len() as int) =~= Seq::<Mesh>::empty());
        }
    }
}

} // verus!
