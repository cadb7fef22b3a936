//! Triangles and meshes: the face normal, the back-face visibility test,
//! flat-shade intensity, and clipping against an arbitrary plane.

use vstd::prelude::*;
use crate::fx::sat64;
use crate::fx::fx_sub;
use crate::vec3::Vec3d;
use crate::vec3::spec_dot;
use crate::vec3::spec_sub;
use crate::vec3::spec_cross;
use crate::vec3::spec_normalized;
use crate::vec3::spec_intersect_plane;

verus! {

/// A triangle: three vertices in winding order and a flat-shade intensity,
/// meaningful only after the shading stage.
#[derive(Clone, Copy, PartialEq, Eq, Structural, Debug)]
pub struct Tri {
    pub p0: Vec3d,
    pub p1: Vec3d,
    pub p2: Vec3d,
    pub shade: u8,
}

/// An ordered collection of triangles, immutable once built.
pub struct Mesh {
    pub tris: Vec<Tri>,
}

impl Mesh {
    pub fn new(tris: Vec<Tri>) -> (m: Mesh)
        ensures
            m.tris@ == tris@,
    {
        Mesh { tris }
    }
}

/// The raw (unnormalized) face normal: the cross product of the two edges
/// leaving vertex 0.
pub open spec fn spec_raw_normal(t: Tri) -> Vec3d {
    spec_cross(spec_sub(t.p1, t.p0), spec_sub(t.p2, t.p0))
}

/// The dot product whose sign decides visibility from `camera`.
pub open spec fn spec_vis_dot(t: Tri, camera: Vec3d) -> int {
    spec_dot(spec_raw_normal(t), spec_sub(t.p0, camera))
}

/// A triangle is visible exactly when its raw normal points against the
/// view direction.
pub open spec fn spec_visible(t: Tri, camera: Vec3d) -> bool {
    spec_vis_dot(t, camera) < 0
}

/// The same triangle with the winding order of its vertices reversed.
pub open spec fn spec_reverse_winding(t: Tri) -> Tri {
    Tri { p0: t.p0, p1: t.p2, p2: t.p1, shade: t.shade }
}

/// Law: with the geometry and the viewpoint held fixed, reversing a
/// triangle's winding order flips its visibility verdict. It holds for
/// coordinates far enough from the saturation range, and asks that the
/// visibility dot product is not exactly zero: an exactly edge-on or
/// degenerate triangle is invisible under either winding.
pub proof fn lemma_winding_reversal_flips_visibility(t: Tri, camera: Vec3d)
    requires
        crate::vec3::vec_in_range(t.p0, 0x1000_0000),
        crate::vec3::vec_in_range(t.p1, 0x1000_0000),
        crate::vec3::vec_in_range(t.p2, 0x1000_0000),
        crate::vec3::vec_in_range(camera, 0x1000_0000),
        spec_vis_dot(t, camera) != 0,
    ensures
        spec_visible(spec_reverse_winding(t), camera) == !spec_visible(t, camera),
{
    let l1 = spec_sub(t.p1, t.p0);
    let l2 = spec_sub(t.p2, t.p0);
    let n = spec_cross(l1, l2);
    let rn = spec_cross(l2, l1);
    let view = spec_sub(t.p0, camera);

    crate::fx::lemma_fx_mul_val_range(l1.y as int, l2.z as int, 0x2000_0000, 0x2000_0000);
    crate::fx::lemma_fx_mul_val_range(l1.z as int, l2.y as int, 0x2000_0000, 0x2000_0000);
    crate::fx::lemma_fx_mul_val_range(l1.z as int, l2.x as int, 0x2000_0000, 0x2000_0000);
    crate::fx::lemma_fx_mul_val_range(l1.x as int, l2.z as int, 0x2000_0000, 0x2000_0000);
    crate::fx::lemma_fx_mul_val_range(l1.x as int, l2.y as int, 0x2000_0000, 0x2000_0000);
    crate::fx::lemma_fx_mul_val_range(l1.y as int, l2.x as int, 0x2000_0000, 0x2000_0000);

    assert(rn.x as int == -(n.x as int));
    assert(rn.y as int == -(n.y as int));
    assert(rn.z as int == -(n.z as int));

    crate::fx::lemma_fx_mul_val_range(n.x as int, view.x as int, 0x800_0000_0000, 0x2000_0000);
    crate::fx::lemma_fx_mul_val_range(n.y as int, view.y as int, 0x800_0000_0000, 0x2000_0000);
    crate::fx::lemma_fx_mul_val_range(n.z as int, view.z as int, 0x800_0000_0000, 0x2000_0000);
    crate::fx::lemma_fx_mul_val_range(rn.x as int, view.x as int, 0x800_0000_0000, 0x2000_0000);
    crate::fx::lemma_fx_mul_val_range(rn.y as int, view.y as int, 0x800_0000_0000, 0x2000_0000);
    crate::fx::lemma_fx_mul_val_range(rn.z as int, view.z as int, 0x800_0000_0000, 0x2000_0000);

    assert(spec_vis_dot(spec_reverse_winding(t), camera) == -spec_vis_dot(t, camera));
}

/// The signed distance of a point from the plane through `pp` with
/// normal `pn`, in the plane normal's scale.
pub open spec fn spec_plane_dist(pp: Vec3d, pn: Vec3d, p: Vec3d) -> int {
    sat64(spec_dot(pn, p) - spec_dot(pn, pp))
}

/// How many of the triangle's vertices lie on the inside half-space
/// (signed distance at least zero).
pub open spec fn spec_inside_count(t: Tri, pp: Vec3d, pn: Vec3d) -> int {
    (if spec_plane_dist(pp, pn, t.p0) >= 0 {
        1int
    } else {
        0int
    }) + (if spec_plane_dist(pp, pn, t.p1) >= 0 {
        1int
    } else {
        0int
    }) + (if spec_plane_dist(pp, pn, t.p2) >= 0 {
        1int
    } else {
        0int
    })
}

/// The single triangle kept when only vertex `a` is inside: `a` plus the
/// two points where the edges toward `b` and `c` cross the plane.
pub open spec fn spec_clip_corner(sh: u8, pp: Vec3d, pn: Vec3d, a: Vec3d, b: Vec3d, c: Vec3d) -> Tri {
    Tri {
        p0: a,
        p1: spec_intersect_plane(pp, pn, a, b),
        p2: spec_intersect_plane(pp, pn, a, c),
        shade: sh,
    }
}

/// The two triangles forming the quadrilateral kept when vertices `a` and
/// `b` are inside and `c` is outside; they share the crossing of edge `a c`.
pub open spec fn spec_clip_quad(sh: u8, pp: Vec3d, pn: Vec3d, a: Vec3d, b: Vec3d, c: Vec3d) -> Seq<Tri> {
    let ac = spec_intersect_plane(pp, pn, a, c);
    let bc = spec_intersect_plane(pp, pn, b, c);
    seq![
        Tri { p0: a, p1: b, p2: ac, shade: sh },
        Tri { p0: b, p1: ac, p2: bc, shade: sh },
    ]
}

/// Clipping a triangle against the plane through `pp` with normal `pn`:
/// each vertex is classified by the sign of its distance, and the triangle
/// is discarded, passed through, shrunk, or split into a quadrilateral.
/// Kept vertices appear in index order, as do the replacement crossings.
pub open spec fn spec_clip(t: Tri, pp: Vec3d, pn: Vec3d) -> Seq<Tri> {
    let i0 = spec_plane_dist(pp, pn, t.p0) >= 0;
    let i1 = spec_plane_dist(pp, pn, t.p1) >= 0;
    let i2 = spec_plane_dist(pp, pn, t.p2) >= 0;
    if i0 && i1 && i2 {
        seq![t]
    } else if !i0 && !i1 && !i2 {
        Seq::empty()
    } else if i0 && !i1 && !i2 {
        seq![spec_clip_corner(t.shade, pp, pn, t.p0, t.p1, t.p2)]
    } else if !i0 && i1 && !i2 {
        seq![spec_clip_corner(t.shade, pp, pn, t.p1, t.p0, t.p2)]
    } else if !i0 && !i1 && i2 {
        seq![spec_clip_corner(t.shade, pp, pn, t.p2, t.p0, t.p1)]
    } else if !i0 {
        spec_clip_quad(t.shade, pp, pn, t.p1, t.p2, t.p0)
    } else if !i1 {
        spec_clip_quad(t.shade, pp, pn, t.p0, t.p2, t.p1)
    } else {
        spec_clip_quad(t.shade, pp, pn, t.p0, t.p1, t.p2)
    }
}

impl Tri {
    pub fn new(p0: Vec3d, p1: Vec3d, p2: Vec3d) -> (t: Tri)
        ensures
            t == (Tri { p0, p1, p2, shade: 255u8 }),
    {
        Tri { p0, p1, p2, shade: 255 }
    }

    /// The unit face normal; degenerate triangles, whose edges are
    /// parallel, yield the zero vector unchanged by normalization.
    pub fn get_normal(&self) -> (n: Vec3d)
        ensures
            n == spec_normalized(spec_raw_normal(*self)),
    {
        let line1 = self.p1.sub(self.p0);
        let line2 = self.p2.sub(self.p0);
        let mut normal = line1.cross(&line2);
        normal.normalize();
        normal
    }

    /// Back-face culling: the sign of the raw normal's dot product with the
    /// view ray to vertex 0 decides visibility, so a degenerate triangle
    /// (zero normal) is never visible.
    pub fn visible(&self, camera: &Vec3d) -> (r: bool)
        ensures
            r == spec_visible(*self, *camera),
    {
        let line1 = self.p1.sub(self.p0);
        let line2 = self.p2.sub(self.p0);
        let normal = line1.cross(&line2);
        let view = self.p0.sub(*camera);
        normal.dot(&view) < 0
    }

    /// Clip this triangle against a plane. The result is empty when all
    /// vertices are outside, the triangle itself when all are inside, one
    /// smaller triangle when one vertex is inside, and two triangles
    /// forming a quadrilateral when two are — never more than two.
    pub fn triangle_clip_against_plane(&self, plane_p: &Vec3d, plane_n: &Vec3d) -> (out: Vec<
        Tri,
    >)
        ensures
            out@ == spec_clip(*self, *plane_p, *plane_n),
            out@.len() == (if spec_inside_count(*self, *plane_p, *plane_n) == 0 {
                0int
            } else if spec_inside_count(*self, *plane_p, *plane_n) == 2 {
                2int
            } else {
                1int
            }),
            spec_inside_count(*self, *plane_p, *plane_n) == 3 ==> out@ =~= seq![*self],
            spec_inside_count(*self, *plane_p, *plane_n) == 0 ==> out@.len() == 0,
    {
        let nd = plane_n.dot(plane_p);
        let d0 = fx_sub(plane_n.dot(&self.p0), nd);
        let d1 = fx_sub(plane_n.dot(&self.p1), nd);
        let d2 = fx_sub(plane_n.dot(&self.p2), nd);
        let i0 = d0 >= 0;
        let i1 = d1 >= 0;
        let i2 = d2 >= 0;

        let mut ret: Vec<Tri> = Vec::new();

        if i0 && i1 && i2 {
            ret.push(*self);
            proof {
                assert(ret@ =~= spec_clip(*self, *plane_p, *plane_n));
            }
        } else if !i0 && !i1 && !i2 {
            proof {
                assert(ret@ =~= spec_clip(*self, *plane_p, *plane_n));
            }
        } else if i0 && !i1 && !i2 {
            ret.push(Tri {
                p0: self.p0,
                p1: Vec3d::vector_intersect_plane(plane_p, plane_n, &self.p0, &self.p1),
                p2: Vec3d::vector_intersect_plane(plane_p, plane_n, &self.p0, &self.p2),
                shade: self.shade,
            });
            proof {
                assert(ret@ =~= spec_clip(*self, *plane_p, *plane_n));
            }
        } else if !i0 && i1 && !i2 {
            ret.push(Tri {
                p0: self.p1,
                p1: Vec3d::vector_intersect_plane(plane_p, plane_n, &self.p1, &self.p0),
                p2: Vec3d::vector_intersect_plane(plane_p, plane_n, &self.p1, &self.p2),
                shade: self.shade,
            });
            proof {
                assert(ret@ =~= spec_clip(*self, *plane_p, *plane_n));
            }
        } else if !i0 && !i1 && i2 {
            ret.push(Tri {
                p0: self.p2,
                p1: Vec3d::vector_intersect_plane(plane_p, plane_n, &self.p2, &self.p0),
                p2: Vec3d::vector_intersect_plane(plane_p, plane_n, &self.p2, &self.p1),
                shade: self.shade,
            });
            proof {
                assert(ret@ =~= spec_clip(*self, *plane_p, *plane_n));
            }
        } else if !i0 {
            let ac = Vec3d::vector_intersect_plane(plane_p, plane_n, &self.p1, &self.p0);
            let bc = Vec3d::vector_intersect_plane(plane_p, plane_n, &self.p2, &self.p0);
            ret.push(Tri { p0: self.p1, p1: self.p2, p2: ac, shade: self.shade });
            ret.push(Tri { p0: self.p2, p1: ac, p2: bc, shade: self.shade });
            proof {
                assert(ret@ =~= spec_clip(*self, *plane_p, *plane_n));
            }
        } else if !i1 {
            let ac = Vec3d::vector_intersect_plane(plane_p, plane_n, &self.p0, &self.p1);
            let bc = Vec3d::vector_intersect_plane(plane_p, plane_n, &self.p2, &self.p1);
            ret.push(Tri { p0: self.p0, p1: self.p2, p2: ac, shade: self.shade });
            ret.push(Tri { p0: self.p2, p1: ac, p2: bc, shade: self.shade });
            proof {
                assert(ret@ =~= spec_clip(*self, *plane_p, *plane_n));
            }
        } else {
            let ac = Vec3d::vector_intersect_plane(plane_p, plane_n, &self.p0, &self.p2);
            let bc = Vec3d::vector_intersect_plane(plane_p, plane_n, &self.p1, &self.p2);
            ret.push(Tri { p0: self.p0, p1: self.p1, p2: ac, shade: self.shade });
            ret.push(Tri { p0: self.p1, p1: ac, p2: bc, shade: self.shade });
            proof {
                assert(ret@ =~= spec_clip(*self, *plane_p, *plane_n));
            }
        }
        ret
    }
}

/// Law: the parametric denominator of the crossing computation is never
/// zero for an edge the clipper cuts: when the segment's start is inside
/// the plane's half-space and its end is outside, the two dot products
/// differ, so the guarded zero-divisor branch is unreachable from the
/// clipper's classification.
pub proof fn lemma_cut_edge_denominator_nonzero(pp: Vec3d, pn: Vec3d, ls: Vec3d, le: Vec3d)
    requires
        spec_plane_dist(pp, pn, ls) >= 0,
        spec_plane_dist(pp, pn, le) < 0,
    ensures
        sat64(spec_dot(le, pn) - spec_dot(ls, pn)) != 0,
        sat64(spec_dot(le, pn) - spec_dot(ls, pn)) < 0,
{
    crate::fx::lemma_fx_mul_val_range(pn.x as int, ls.x as int, crate::fx::iabs(pn.x as int),
        crate::fx::iabs(ls.x as int));
    crate::fx::lemma_fx_mul_val_range(pn.y as int, ls.y as int, crate::fx::iabs(pn.y as int),
        crate::fx::iabs(ls.y as int));
    crate::fx::lemma_fx_mul_val_range(pn.z as int, ls.z as int, crate::fx::iabs(pn.z as int),
        crate::fx::iabs(ls.z as int));
    crate::fx::lemma_fx_mul_val_range(pn.x as int, le.x as int, crate::fx::iabs(pn.x as int),
        crate::fx::iabs(le.x as int));
    crate::fx::lemma_fx_mul_val_range(pn.y as int, le.y as int, crate::fx::iabs(pn.y as int),
        crate::fx::iabs(le.y as int));
    crate::fx::lemma_fx_mul_val_range(pn.z as int, le.z as int, crate::fx::iabs(pn.z as int),
        crate::fx::iabs(le.z as int));
    assert(spec_dot(ls, pn) == spec_dot(pn, ls));
    assert(spec_dot(le, pn) == spec_dot(pn, le));
}

} // verus!
