//! The pixel buffer and the rasterization primitives: bounds-checked pixel
//! writes, horizontal runs, Bresenham lines over all eight octants, and
//! scanline triangle fills split into bottom-flat and top-flat halves.
//!
//! Every primitive accepts arbitrary coordinates — far outside the buffer,
//! negative, or degenerate — and never writes outside the buffer: the one
//! pixel writer drops out-of-bounds writes silently, and the stepping
//! arithmetic works on coordinates clamped to a finite canvas range.

use vstd::prelude::*;
use crate::fx::FX_ONE;
use crate::fx::sat64;
use crate::fx::div_trunc;
use crate::fx::div_trunc_i64;
use crate::fx::mul_div_trunc_i64;
use crate::fx::lemma_div_trunc_abs;

verus! {

/// One RGBA color cell.
#[derive(Clone, Copy, PartialEq, Eq, Structural, Debug)]
pub struct Color {
    pub r: u8,
    pub g: u8,
    pub b: u8,
    pub a: u8,
}

impl Color {
    pub fn new(r: u8, g: u8, b: u8, a: u8) -> (c: Color)
        ensures
            c == (Color { r, g, b, a }),
    {
        Color { r, g, b, a }
    }
}

/// The largest buffer dimension, in pixels.
pub const MAX_DIM: usize = 0x4000;

/// Coordinates handed to the stepping rasterizers are clamped to this
/// range, so their error terms and interpolants stay exact.
pub const COORD_LIMIT: i64 = 0x10_0000;

pub open spec fn imin(a: int, b: int) -> int {
    if a <= b {
        a
    } else {
        b
    }
}

pub open spec fn imax(a: int, b: int) -> int {
    if a <= b {
        b
    } else {
        a
    }
}

pub open spec fn spec_clamped(v: int) -> int {
    if v < -COORD_LIMIT {
        -COORD_LIMIT as int
    } else if v > COORD_LIMIT {
        COORD_LIMIT as int
    } else {
        v
    }
}

fn clamp_coord(v: i64) -> (r: i64)
    ensures
        r as int == spec_clamped(v as int),
        -COORD_LIMIT <= r <= COORD_LIMIT,
{
    if v < -COORD_LIMIT {
        -COORD_LIMIT
    } else if v > COORD_LIMIT {
        COORD_LIMIT
    } else {
        v
    }
}

/// `n` cells all holding `fill`.
pub open spec fn spec_filled(n: int, fill: Color) -> Seq<Color> {
    Seq::new(n as nat, |k: int| fill)
}

/// The cells after one bounds-checked write: the cell of an in-bounds
/// coordinate takes `c`, anything else leaves the cells untouched.
pub open spec fn spec_put(w: int, h: int, px: Seq<Color>, x: int, y: int, c: Color) -> Seq<
    Color,
> {
    if 0 <= x < w && 0 <= y < h {
        px.update(y * w + x, c)
    } else {
        px
    }
}

/// The cells after a horizontal run on row `ny` between `sx` and `ex`
/// (either order): exactly the in-bounds cells of that span take `c`.
pub open spec fn spec_hline(w: int, h: int, px: Seq<Color>, sx: int, ex: int, ny: int, c: Color) -> Seq<Color> {
    Seq::new(
        px.len(),
        |k: int|
            if k / w == ny && imin(sx, ex) <= k % w <= imax(sx, ex) {
                c
            } else {
                px[k]
            },
    )
}

/// The X-driving Bresenham walk: from the cell after `(x, y)`, step the
/// column toward `xe`, move the row by one when the error term crosses
/// zero, and write each visited cell; mirrors the executable loop step
/// for step.
pub open spec fn spec_line_x_walk(w: int, h: int, px: Seq<Color>, x: int, y: int, xe: int,
    p: int, dx: int, dy: int, dx1: int, dy1: int, c: Color) -> Seq<Color>
    decreases xe - x,
{
    if x >= xe {
        px
    } else {
        let xn = x + 1;
        if p < 0 {
            spec_line_x_walk(w, h, spec_put(w, h, px, xn, y, c), xn, y, xe, p + 2 * dy1, dx,
                dy, dx1, dy1, c)
        } else {
            let yn = if (dx < 0 && dy < 0) || (dx > 0 && dy > 0) {
                y + 1
            } else {
                y - 1
            };
            spec_line_x_walk(w, h, spec_put(w, h, px, xn, yn, c), xn, yn, xe, p + 2 * (dy1
                - dx1), dx, dy, dx1, dy1, c)
        }
    }
}

/// The Y-driving Bresenham walk, symmetric to the X-driving one.
pub open spec fn spec_line_y_walk(w: int, h: int, px: Seq<Color>, x: int, y: int, ye: int,
    p: int, dx: int, dy: int, dx1: int, dy1: int, c: Color) -> Seq<Color>
    decreases ye - y,
{
    if y >= ye {
        px
    } else {
        let yn = y + 1;
        if p <= 0 {
            spec_line_y_walk(w, h, spec_put(w, h, px, x, yn, c), x, yn, ye, p + 2 * dx1, dx,
                dy, dx1, dy1, c)
        } else {
            let xn = if (dx < 0 && dy < 0) || (dx > 0 && dy > 0) {
                x + 1
            } else {
                x - 1
            };
            spec_line_y_walk(w, h, spec_put(w, h, px, xn, yn, c), xn, yn, ye, p + 2 * (dx1
                - dy1), dx, dy, dx1, dy1, c)
        }
    }
}

/// The cells after the full Bresenham line between the clamped
/// endpoints: the walk starts at the endpoint with the smaller driving
/// coordinate and paints every visited cell that lies in bounds.
pub open spec fn spec_line(w: int, h: int, px: Seq<Color>, x1: int, y1: int, x2: int, y2: int,
    c: Color) -> Seq<Color> {
    let cx1 = spec_clamped(x1);
    let cy1 = spec_clamped(y1);
    let cx2 = spec_clamped(x2);
    let cy2 = spec_clamped(y2);
    let dx = cx2 - cx1;
    let dy = cy2 - cy1;
    let dx1 = crate::fx::iabs(dx);
    let dy1 = crate::fx::iabs(dy);
    if dy1 <= dx1 {
        if dx >= 0 {
            spec_line_x_walk(w, h, spec_put(w, h, px, cx1, cy1, c), cx1, cy1, cx2, 2 * dy1
                - dx1, dx, dy, dx1, dy1, c)
        } else {
            spec_line_x_walk(w, h, spec_put(w, h, px, cx2, cy2, c), cx2, cy2, cx1, 2 * dy1
                - dx1, dx, dy, dx1, dy1, c)
        }
    } else {
        if dy >= 0 {
            spec_line_y_walk(w, h, spec_put(w, h, px, cx1, cy1, c), cx1, cy1, cy2, 2 * dx1
                - dy1, dx, dy, dx1, dy1, c)
        } else {
            spec_line_y_walk(w, h, spec_put(w, h, px, cx2, cy2, c), cx2, cy2, cy1, 2 * dx1
                - dy1, dx, dy, dx1, dy1, c)
        }
    }
}

/// Law: a line paints the same cells whichever endpoint comes first —
/// the walk always starts from the endpoint with the smaller driving
/// coordinate, and flipping both deltas leaves the error terms and the
/// step direction unchanged.
pub proof fn lemma_line_endpoint_symmetry(w: int, h: int, px: Seq<Color>, x1: int, y1: int,
    x2: int, y2: int, c: Color)
    ensures
        spec_line(w, h, px, x1, y1, x2, y2, c) == spec_line(w, h, px, x2, y2, x1, y1, c),
{
    let cx1 = spec_clamped(x1);
    let cy1 = spec_clamped(y1);
    let cx2 = spec_clamped(x2);
    let cy2 = spec_clamped(y2);
    let dx = cx2 - cx1;
    let dy = cy2 - cy1;
    let dx1 = crate::fx::iabs(dx);
    let dy1 = crate::fx::iabs(dy);
    if dy1 <= dx1 {
        if dx >= 0 {
            lemma_line_x_walk_flip(w, h, spec_put(w, h, px, cx1, cy1, c), cx1, cy1, cx2, 2
                * dy1 - dx1, dx, dy, dx1, dy1, c);
        } else {
            lemma_line_x_walk_flip(w, h, spec_put(w, h, px, cx2, cy2, c), cx2, cy2, cx1, 2
                * dy1 - dx1, dx, dy, dx1, dy1, c);
        }
    } else {
        if dy >= 0 {
            lemma_line_y_walk_flip(w, h, spec_put(w, h, px, cx1, cy1, c), cx1, cy1, cy2, 2
                * dx1 - dy1, dx, dy, dx1, dy1, c);
        } else {
            lemma_line_y_walk_flip(w, h, spec_put(w, h, px, cx2, cy2, c), cx2, cy2, cy1, 2
                * dx1 - dy1, dx, dy, dx1, dy1, c);
        }
    }
}

/// Negating both deltas leaves the X-driving walk unchanged: the step
/// direction test only reads whether their signs agree.
proof fn lemma_line_x_walk_flip(w: int, h: int, px: Seq<Color>, x: int, y: int, xe: int,
    p: int, dx: int, dy: int, dx1: int, dy1: int, c: Color)
    ensures
        spec_line_x_walk(w, h, px, x, y, xe, p, dx, dy, dx1, dy1, c) == spec_line_x_walk(w, h,
            px, x, y, xe, p, -dx, -dy, dx1, dy1, c),
    decreases xe - x,
{
    if x < xe {
        let xn = x + 1;
        if p < 0 {
            lemma_line_x_walk_flip(w, h, spec_put(w, h, px, xn, y, c), xn, y, xe, p + 2 * dy1,
                dx, dy, dx1, dy1, c);
        } else {
            let yn = if (dx < 0 && dy < 0) || (dx > 0 && dy > 0) {
                y + 1
            } else {
                y - 1
            };
            lemma_line_x_walk_flip(w, h, spec_put(w, h, px, xn, yn, c), xn, yn, xe, p + 2 * (
            dy1 - dx1), dx, dy, dx1, dy1, c);
        }
    }
}

/// Negating both deltas leaves the Y-driving walk unchanged.
proof fn lemma_line_y_walk_flip(w: int, h: int, px: Seq<Color>, x: int, y: int, ye: int,
    p: int, dx: int, dy: int, dx1: int, dy1: int, c: Color)
    ensures
        spec_line_y_walk(w, h, px, x, y, ye, p, dx, dy, dx1, dy1, c) == spec_line_y_walk(w, h,
            px, x, y, ye, p, -dx, -dy, dx1, dy1, c),
    decreases ye - y,
{
    if y < ye {
        let yn = y + 1;
        if p <= 0 {
            lemma_line_y_walk_flip(w, h, spec_put(w, h, px, x, yn, c), x, yn, ye, p + 2 * dx1,
                dx, dy, dx1, dy1, c);
        } else {
            let xn = if (dx < 0 && dy < 0) || (dx > 0 && dy > 0) {
                x + 1
            } else {
                x - 1
            };
            lemma_line_y_walk_flip(w, h, spec_put(w, h, px, xn, yn, c), xn, yn, ye, p + 2 * (
            dx1 - dy1), dx, dy, dx1, dy1, c);
        }
    }
}

/// The cells after stroking a triangle's three edges in order.
pub open spec fn spec_triangle_edges(w: int, h: int, px: Seq<Color>, x1: int, y1: int,
    x2: int, y2: int, x3: int, y3: int, c: Color) -> Seq<Color> {
    spec_line(w, h, spec_line(w, h, spec_line(w, h, px, x1, y1, x2, y2, c), x2, y2, x3, y3, c),
        x1, y1, x3, y3, c)
}

/// The scanline walk of a bottom-flat fill: one horizontal run per row
/// from `sy` down the rows to `y2`, between the two interpolants, which
/// advance by their inverse slopes after each row.
pub open spec fn spec_bottom_flat_walk(w: int, h: int, px: Seq<Color>, sy: int, y2: int,
    cx1: int, cx2: int, s1: int, s2: int, c: Color) -> Seq<Color>
    decreases y2 + 1 - sy,
{
    if sy > y2 {
        px
    } else {
        spec_bottom_flat_walk(w, h, spec_hline(w, h, px, div_trunc(cx1, FX_ONE as int),
            div_trunc(cx2, FX_ONE as int), sy, c), sy + 1, y2, cx1 + s1, cx2 + s2, s1, s2, c)
    }
}

/// The cells after a bottom-flat fill: apex `(x1, y1)`, base row `y2`
/// (clamped); a non-positive height is the guarded no-op.
pub open spec fn spec_bottom_flat(w: int, h: int, px: Seq<Color>, x1: int, y1: int, x2: int,
    y2: int, x3: int, y3: int, c: Color) -> Seq<Color> {
    let cx1 = spec_clamped(x1);
    let cy1 = spec_clamped(y1);
    let cx2 = spec_clamped(x2);
    let cy2 = spec_clamped(y2);
    let cx3 = spec_clamped(x3);
    let cy3 = spec_clamped(y3);
    let den1 = cy2 - cy1;
    let den2 = cy3 - cy1;
    if den1 <= 0 || den2 <= 0 {
        px
    } else {
        let s1 = sat64(div_trunc((cx2 - cx1) * (FX_ONE as int), den1));
        let s2 = sat64(div_trunc((cx3 - cx1) * (FX_ONE as int), den2));
        spec_bottom_flat_walk(w, h, px, cy1, cy2, cx1 * (FX_ONE as int), cx1 * (FX_ONE as int),
            s1, s2, c)
    }
}

/// The scanline walk of a top-flat fill: one run per row from `sy`
/// upward, stopping above row `y1`, the interpolants retreating by their
/// inverse slopes after each row.
pub open spec fn spec_top_flat_walk(w: int, h: int, px: Seq<Color>, sy: int, y1: int,
    cx1: int, cx2: int, s1: int, s2: int, c: Color) -> Seq<Color>
    decreases sy - y1,
{
    if sy <= y1 {
        px
    } else {
        spec_top_flat_walk(w, h, spec_hline(w, h, px, div_trunc(cx1, FX_ONE as int), div_trunc(
            cx2, FX_ONE as int), sy, c), sy - 1, y1, cx1 - s1, cx2 - s2, s1, s2, c)
    }
}

/// The cells after a top-flat fill: base row `y1`, apex `(x3, y3)`
/// (clamped); rows are walked upward from the apex and the base row
/// itself is never drawn; a non-positive height is the guarded no-op.
pub open spec fn spec_top_flat(w: int, h: int, px: Seq<Color>, x1: int, y1: int, x2: int,
    y2: int, x3: int, y3: int, c: Color) -> Seq<Color> {
    let cx1 = spec_clamped(x1);
    let cy1 = spec_clamped(y1);
    let cx2 = spec_clamped(x2);
    let cy2 = spec_clamped(y2);
    let cx3 = spec_clamped(x3);
    let cy3 = spec_clamped(y3);
    let den1 = cy3 - cy1;
    let den2 = cy3 - cy2;
    if den1 <= 0 || den2 <= 0 {
        px
    } else {
        let s1 = sat64(div_trunc((cx3 - cx1) * (FX_ONE as int), den1));
        let s2 = sat64(div_trunc((cx3 - cx2) * (FX_ONE as int), den2));
        spec_top_flat_walk(w, h, px, cy3, cy1, cx3 * (FX_ONE as int), cx3 * (FX_ONE as int),
            s1, s2, c)
    }
}

/// The cells after a full triangle fill: the clamped vertices are sorted
/// by ascending row, and the triangle is painted as one row's spans, a
/// single flat half, or a bottom-flat and a top-flat half split at the
/// middle vertex's row.
pub open spec fn spec_fill_triangle(w: int, h: int, px: Seq<Color>, x1: int, y1: int, x2: int,
    y2: int, x3: int, y3: int, c: Color) -> Seq<Color> {
    let ax0 = spec_clamped(x1);
    let ay0 = spec_clamped(y1);
    let bx0 = spec_clamped(x2);
    let by0 = spec_clamped(y2);
    let cx0 = spec_clamped(x3);
    let cy0 = spec_clamped(y3);
    let ax1 = if ay0 > by0 { bx0 } else { ax0 };
    let ay1 = if ay0 > by0 { by0 } else { ay0 };
    let bx1 = if ay0 > by0 { ax0 } else { bx0 };
    let by1 = if ay0 > by0 { ay0 } else { by0 };
    let bx2 = if by1 > cy0 { cx0 } else { bx1 };
    let by2 = if by1 > cy0 { cy0 } else { by1 };
    let cxs = if by1 > cy0 { bx1 } else { cx0 };
    let cys = if by1 > cy0 { by1 } else { cy0 };
    let axs = if ay1 > by2 { bx2 } else { ax1 };
    let ays = if ay1 > by2 { by2 } else { ay1 };
    let bxs = if ay1 > by2 { ax1 } else { bx2 };
    let bys = if ay1 > by2 { ay1 } else { by2 };
    if ays == cys {
        spec_hline(w, h, spec_hline(w, h, px, axs, bxs, ays, c), bxs, cxs, ays, c)
    } else if bys == cys {
        spec_bottom_flat(w, h, px, axs, ays, bxs, bys, cxs, cys, c)
    } else if ays == bys {
        spec_top_flat(w, h, px, axs, ays, bxs, bys, cxs, cys, c)
    } else {
        let x4 = axs + sat64(div_trunc((bys - ays) * (cxs - axs), cys - ays));
        spec_top_flat(w, h, spec_bottom_flat(w, h, px, axs, ays, bxs, bys, x4, bys, c), bxs,
            bys, x4, bys, cxs, cys, c)
    }
}

/// A fixed-size pixel buffer: row-major color cells, top-left origin.
pub struct PixelBuffer {
    pub width: usize,
    pub height: usize,
    pub px: Vec<Color>,
}

impl View for PixelBuffer {
    type V = Seq<Color>;

    open spec fn view(&self) -> Seq<Color> {
        self.px@
    }
}

impl PixelBuffer {
    /// The cell count matches the dimensions, which stay within range.
    pub open spec fn wf(self) -> bool {
        self.px@.len() == self.width * self.height && self.width <= MAX_DIM && self.height
            <= MAX_DIM
    }

    pub open spec fn spec_width(self) -> int {
        self.width as int
    }

    pub open spec fn spec_height(self) -> int {
        self.height as int
    }

    pub open spec fn in_bounds(self, x: int, y: int) -> bool {
        0 <= x < self.width && 0 <= y < self.height
    }

    /// The cell at column `x` of row `y`.
    pub open spec fn spec_at(self, x: int, y: int) -> Color {
        self.px@[y * (self.width as int) + x]
    }

    /// The dimensions are unchanged (the cells may differ).
    pub open spec fn same_shape(self, o: PixelBuffer) -> bool {
        self.width == o.width && self.height == o.height && self.px@.len() == o.px@.len()
    }

    pub fn width(&self) -> (w: usize)
        ensures
            w as int == self.spec_width(),
    {
        self.width
    }

    pub fn height(&self) -> (h: usize)
        ensures
            h as int == self.spec_height(),
    {
        self.height
    }

    /// The backing cells, row-major, for copy-out by a presenter.
    pub fn pixels(&self) -> (v: &Vec<Color>)
        ensures
            v@ == self@,
    {
        &self.px
    }

    /// A buffer of the given dimensions with every cell set to `fill`.
    pub fn new(width: usize, height: usize, fill: Color) -> (r: PixelBuffer)
        requires
            width <= MAX_DIM,
            height <= MAX_DIM,
        ensures
            r.wf(),
            r.spec_width() == width,
            r.spec_height() == height,
            forall|x: int, y: int| r.in_bounds(x, y) ==> r.spec_at(x, y) == fill,
    {
        proof {
            assert(width * height <= 0x1000_0000) by (nonlinear_arith)
                requires
                    width <= 0x4000,
                    height <= 0x4000,
            ;
        }
        let n = width * height;
        let px = fill_cells(n, fill);
        let r = PixelBuffer { width, height, px };
        proof {
            assert forall|x: int, y: int| r.in_bounds(x, y) implies r.spec_at(x, y)
                == fill by {
                lemma_cell_index_in_range(width as int, height as int, x, y);
            }
        }
        r
    }

    /// Reset every cell to `fill`, keeping the dimensions.
    pub fn clear(&mut self, fill: Color)
        requires
            old(self).wf(),
        ensures
            final(self).wf(),
            final(self).same_shape(*old(self)),
            forall|x: int, y: int|
                final(self).in_bounds(x, y) ==> final(self).spec_at(x, y) == fill,
            final(self)@ == spec_filled(old(self)@.len() as int, fill),
    {
        proof {
            assert(self.width * self.height <= 0x1000_0000) by (nonlinear_arith)
                requires
                    self.width <= 0x4000,
                    self.height <= 0x4000,
            ;
        }
        let n = self.width * self.height;
        self.px = fill_cells(n, fill);
        proof {
            assert forall|x: int, y: int| self.in_bounds(x, y) implies self.spec_at(x, y)
                == fill by {
                lemma_cell_index_in_range(self.width as int, self.height as int, x, y);
            }
            assert(self@ =~= spec_filled(old(self)@.len() as int, fill));
        }
    }

    /// The cell at an in-range coordinate.
    pub fn get_pixel(&self, x: usize, y: usize) -> (c: Color)
        requires
            self.wf(),
            x < self.spec_width(),
            y < self.spec_height(),
        ensures
            c == self.spec_at(x as int, y as int),
    {
        proof {
            lemma_cell_index_in_range(self.width as int, self.height as int, x as int, y as int);
        }
        self.px[y * self.width + x]
    }

    /// Write one cell; coordinates outside the buffer are dropped silently,
    /// and no other cell changes.
    pub fn put_pixel(&mut self, x: i64, y: i64, color: Color)
        requires
            old(self).wf(),
        ensures
            final(self).wf(),
            final(self).same_shape(*old(self)),
            forall|xx: int, yy: int|
                old(self).in_bounds(xx, yy) ==> final(self).spec_at(xx, yy) == (if xx
                    == x as int && yy == y as int {
                    color
                } else {
                    old(self).spec_at(xx, yy)
                }),
            !old(self).in_bounds(x as int, y as int) ==> *final(self) == *old(self),
            final(self)@ == spec_put(old(self).spec_width(), old(self).spec_height(),
                old(self)@, x as int, y as int, color),
    {
        if x >= 0 && y >= 0 && x < self.width as i64 && y < self.height as i64 {
            proof {
                lemma_cell_index_in_range(self.width as int, self.height as int, x as int,
                    y as int);
            }
            let idx = (y as usize) * self.width + (x as usize);
            self.px.set(idx, color);
            proof {
                assert forall|xx: int, yy: int| old(self).in_bounds(xx, yy) implies self.spec_at(
                    xx,
                    yy,
                ) == (if xx == x as int && yy == y as int {
                    color
                } else {
                    old(self).spec_at(xx, yy)
                }) by {
                    lemma_cell_index_in_range(self.width as int, self.height as int, xx, yy);
                    if !(xx == x as int && yy == y as int) {
                        lemma_cell_index_distinct(self.width as int, self.height as int, xx, yy,
                            x as int, y as int);
                    }
                }
            }
        }
    }

    /// Fill the horizontal run between `sx` and `ex` (either order) on row
    /// `ny`: exactly the in-bounds cells of that span take `color`.
    pub fn draw_hline(&mut self, sx: i64, ex: i64, ny: i64, color: Color)
        requires
            old(self).wf(),
        ensures
            final(self).wf(),
            final(self).same_shape(*old(self)),
            forall|xx: int, yy: int|
                old(self).in_bounds(xx, yy) ==> final(self).spec_at(xx, yy) == (if yy == ny
                    && imin(sx as int, ex as int) <= xx <= imax(sx as int, ex as int) {
                    color
                } else {
                    old(self).spec_at(xx, yy)
                }),
            final(self)@ == spec_hline(old(self).spec_width(), old(self).spec_height(),
                old(self)@, sx as int, ex as int, ny as int, color),
    {
        let ghost snap = *old(self);
        let (a, b) = if sx <= ex {
            (sx, ex)
        } else {
            (ex, sx)
        };
        if ny < 0 || ny >= self.height as i64 {
            proof {
                lemma_hline_rows(snap, *self, sx as int, ex as int, ny as int, color);
            }
            return ;
        }
        let mut i: i64 = if a < 0 {
            0
        } else {
            a
        };
        let end: i64 = if b >= self.width as i64 {
            self.width as i64 - 1
        } else {
            b
        };
        while i <= end
            invariant
                self.wf(),
                self.same_shape(snap),
                0 <= ny < self.height,
                a == imin(sx as int, ex as int),
                b == imax(sx as int, ex as int),
                end == imin(b as int, self.spec_width() - 1),
                0 <= i,
                a <= i,
                forall|xx: int, yy: int|
                    snap.in_bounds(xx, yy) ==> self.spec_at(xx, yy) == (if yy == ny && a <= xx
                        <= b && xx < i {
                        color
                    } else {
                        snap.spec_at(xx, yy)
                    }),
            decreases end + 1 - i,
        {
            self.put_pixel(i, ny, color);
            i = i + 1;
        }
        proof {
            assert forall|xx: int, yy: int| snap.in_bounds(xx, yy) implies self.spec_at(xx, yy)
                == (if yy == ny && imin(a as int, b as int) <= xx <= imax(a as int, b as int) {
                color
            } else {
                snap.spec_at(xx, yy)
            }) by {}
            lemma_hline_rows(snap, *self, sx as int, ex as int, ny as int, color);
        }
    }

    /// Integer Bresenham over all eight octants, between coordinates
    /// clamped to the canvas range; out-of-bounds pixels are dropped. The
    /// result is exactly the walk that `spec_line` describes.
    pub fn draw_line(&mut self, x1: i64, y1: i64, x2: i64, y2: i64, color: Color)
        requires
            old(self).wf(),
        ensures
            final(self).wf(),
            final(self).same_shape(*old(self)),
            final(self)@ == spec_line(old(self).spec_width(), old(self).spec_height(),
                old(self)@, x1 as int, y1 as int, x2 as int, y2 as int, color),
    {
        let ghost snap = *old(self);
        let ghost w = snap.spec_width();
        let ghost h = snap.spec_height();
        let ghost target = spec_line(w, h, snap@, x1 as int, y1 as int, x2 as int, y2 as int,
            color);
        let x1 = clamp_coord(x1);
        let y1 = clamp_coord(y1);
        let x2 = clamp_coord(x2);
        let y2 = clamp_coord(y2);
        let dx = x2 - x1;
        let dy = y2 - y1;
        let dx1 = if dx < 0 {
            -dx
        } else {
            dx
        };
        let dy1 = if dy < 0 {
            -dy
        } else {
            dy
        };
        let mut px: i64 = 2 * dy1 - dx1;
        let mut py: i64 = 2 * dx1 - dy1;
        if dy1 <= dx1 {
            let (mut x, mut y, xe) = if dx >= 0 {
                (x1, y1, x2)
            } else {
                (x2, y2, x1)
            };
            self.put_pixel(x, y, color);
            while x < xe
                invariant
                    self.wf(),
                    self.same_shape(snap),
                    w == snap.spec_width(),
                    h == snap.spec_height(),
                    -COORD_LIMIT <= x <= COORD_LIMIT,
                    -COORD_LIMIT <= xe <= COORD_LIMIT,
                    x <= xe,
                    0 <= dy1 <= 0x20_0000,
                    0 <= dx1 <= 0x20_0000,
                    -0x10_0000 - (x + 0x10_0000) <= y <= 0x10_0000 + (x + 0x10_0000),
                    -0x60_0000 - (x + 0x10_0000) * 0x40_0000 <= px <= 0x60_0000 + (x + 0x10_0000)
                        * 0x40_0000,
                    spec_line_x_walk(w, h, self@, x as int, y as int, xe as int, px as int,
                        dx as int, dy as int, dx1 as int, dy1 as int, color) == target,
                decreases xe - x,
            {
                let ghost prev = self@;
                let ghost x0 = x as int;
                let ghost y0 = y as int;
                let ghost p0 = px as int;
                x = x + 1;
                if px < 0 {
                    px = px + 2 * dy1;
                } else {
                    if (dx < 0 && dy < 0) || (dx > 0 && dy > 0) {
                        y = y + 1;
                    } else {
                        y = y - 1;
                    }
                    px = px + 2 * (dy1 - dx1);
                }
                self.put_pixel(x, y, color);
                proof {
                    assert(self@ == spec_put(w, h, prev, x as int, y as int, color));
                    assert(spec_line_x_walk(w, h, prev, x0, y0, xe as int, p0, dx as int,
                        dy as int, dx1 as int, dy1 as int, color) == spec_line_x_walk(w, h,
                        self@, x as int, y as int, xe as int, px as int, dx as int, dy as int,
                        dx1 as int, dy1 as int, color));
                }
            }
            proof {
                assert(spec_line_x_walk(w, h, self@, x as int, y as int, xe as int, px as int,
                    dx as int, dy as int, dx1 as int, dy1 as int, color) == self@);
            }
        } else {
            let (mut x, mut y, ye) = if dy >= 0 {
                (x1, y1, y2)
            } else {
                (x2, y2, y1)
            };
            self.put_pixel(x, y, color);
            while y < ye
                invariant
                    self.wf(),
                    self.same_shape(snap),
                    w == snap.spec_width(),
                    h == snap.spec_height(),
                    -COORD_LIMIT <= y <= COORD_LIMIT,
                    -COORD_LIMIT <= ye <= COORD_LIMIT,
                    y <= ye,
                    0 <= dy1 <= 0x20_0000,
                    0 <= dx1 <= 0x20_0000,
                    -0x10_0000 - (y + 0x10_0000) <= x <= 0x10_0000 + (y + 0x10_0000),
                    -0x60_0000 - (y + 0x10_0000) * 0x40_0000 <= py <= 0x60_0000 + (y + 0x10_0000)
                        * 0x40_0000,
                    spec_line_y_walk(w, h, self@, x as int, y as int, ye as int, py as int,
                        dx as int, dy as int, dx1 as int, dy1 as int, color) == target,
                decreases ye - y,
            {
                let ghost prev = self@;
                let ghost x0 = x as int;
                let ghost y0 = y as int;
                let ghost p0 = py as int;
                y = y + 1;
                if py <= 0 {
                    py = py + 2 * dx1;
                } else {
                    if (dx < 0 && dy < 0) || (dx > 0 && dy > 0) {
                        x = x + 1;
                    } else {
                        x = x - 1;
                    }
                    py = py + 2 * (dx1 - dy1);
                }
                self.put_pixel(x, y, color);
                proof {
                    assert(self@ == spec_put(w, h, prev, x as int, y as int, color));
                    assert(spec_line_y_walk(w, h, prev, x0, y0, ye as int, p0, dx as int,
                        dy as int, dx1 as int, dy1 as int, color) == spec_line_y_walk(w, h,
                        self@, x as int, y as int, ye as int, py as int, dx as int, dy as int,
                        dx1 as int, dy1 as int, color));
                }
            }
            proof {
                assert(spec_line_y_walk(w, h, self@, x as int, y as int, ye as int, py as int,
                    dx as int, dy as int, dx1 as int, dy1 as int, color) == self@);
            }
        }
    }

    /// Stroke the three edges of a triangle: the three edge lines drawn
    /// in order.
    pub fn draw_triangle(
        &mut self,
        x1: i64,
        y1: i64,
        x2: i64,
        y2: i64,
        x3: i64,
        y3: i64,
        color: Color,
    )
        requires
            old(self).wf(),
        ensures
            final(self).wf(),
            final(self).same_shape(*old(self)),
            final(self)@ == spec_triangle_edges(old(self).spec_width(),
                old(self).spec_height(), old(self)@, x1 as int, y1 as int, x2 as int,
                y2 as int, x3 as int, y3 as int, color),
    {
        self.draw_line(x1, y1, x2, y2, color);
        self.draw_line(x2, y2, x3, y3, color);
        self.draw_line(x1, y1, x3, y3, color);
    }

    /// Scanline fill of a triangle whose bottom edge is flat: the apex is
    /// `(x1, y1)` and the base runs from `(x2, y2)` to `(x3, y3)` with
    /// `y2 == y3` in the intended use; an inverted or flat vertical extent
    /// is a guarded no-op instead of a division by zero. Rows outside the
    /// apex-to-base span keep their cells.
    pub fn fill_bottom_flat_triangle(
        &mut self,
        x1: i64,
        y1: i64,
        x2: i64,
        y2: i64,
        x3: i64,
        y3: i64,
        color: Color,
    )
        requires
            old(self).wf(),
        ensures
            final(self).wf(),
            final(self).same_shape(*old(self)),
            forall|xx: int, yy: int|
                old(self).in_bounds(xx, yy) && !(spec_clamped(y1 as int) <= yy <= spec_clamped(
                    y2 as int,
                )) ==> final(self).spec_at(xx, yy) == old(self).spec_at(xx, yy),
            final(self)@ == spec_bottom_flat(old(self).spec_width(), old(self).spec_height(),
                old(self)@, x1 as int, y1 as int, x2 as int, y2 as int, x3 as int, y3 as int,
                color),
    {
        let ghost snap = *old(self);
        let ghost w = snap.spec_width();
        let ghost h = snap.spec_height();
        let ghost target = spec_bottom_flat(w, h, snap@, x1 as int, y1 as int, x2 as int,
            y2 as int, x3 as int, y3 as int, color);
        let x1 = clamp_coord(x1);
        let y1 = clamp_coord(y1);
        let x2 = clamp_coord(x2);
        let y2 = clamp_coord(y2);
        let x3 = clamp_coord(x3);
        let y3 = clamp_coord(y3);
        let den1 = y2 - y1;
        let den2 = y3 - y1;
        if den1 <= 0 || den2 <= 0 {
            return ;
        }
        let invslope1 = mul_div_trunc_i64(x2 - x1, FX_ONE, den1);
        let invslope2 = mul_div_trunc_i64(x3 - x1, FX_ONE, den2);
        proof {
            lemma_slope_range(x2 as int - x1 as int, den1 as int);
            lemma_slope_range(x3 as int - x1 as int, den2 as int);
        }
        let mut curx1 = x1 * FX_ONE;
        let mut curx2 = x1 * FX_ONE;
        let mut sy = y1;
        while sy <= y2
            invariant
                self.wf(),
                self.same_shape(snap),
                w == snap.spec_width(),
                h == snap.spec_height(),
                -COORD_LIMIT <= y1 <= sy,
                sy <= y2 + 1,
                y2 <= COORD_LIMIT,
                -0x20_0000_0000 <= invslope1 <= 0x20_0000_0000,
                -0x20_0000_0000 <= invslope2 <= 0x20_0000_0000,
                -0x10_0000_0000 - (sy - y1) * 0x20_0000_0000 <= curx1 <= 0x10_0000_0000 + (
                sy - y1) * 0x20_0000_0000,
                -0x10_0000_0000 - (sy - y1) * 0x20_0000_0000 <= curx2 <= 0x10_0000_0000 + (
                sy - y1) * 0x20_0000_0000,
                forall|xx: int, yy: int|
                    snap.in_bounds(xx, yy) && !(y1 <= yy < sy) ==> self.spec_at(xx, yy)
                        == snap.spec_at(xx, yy),
                spec_bottom_flat_walk(w, h, self@, sy as int, y2 as int, curx1 as int,
                    curx2 as int, invslope1 as int, invslope2 as int, color) == target,
            decreases y2 + 1 - sy,
        {
            let ghost prev = self@;
            let ghost sy0 = sy as int;
            let sx = div_trunc_i64(curx1, FX_ONE);
            let ex = div_trunc_i64(curx2, FX_ONE);
            self.draw_hline(sx, ex, sy, color);
            proof {
                assert(self@ == spec_hline(w, h, prev, sx as int, ex as int, sy0, color));
                assert(spec_bottom_flat_walk(w, h, prev, sy0, y2 as int, curx1 as int,
                    curx2 as int, invslope1 as int, invslope2 as int, color)
                    == spec_bottom_flat_walk(w, h, self@, sy0 + 1, y2 as int, curx1
                    + invslope1, curx2 + invslope2, invslope1 as int, invslope2 as int,
                    color));
            }
            curx1 = curx1 + invslope1;
            curx2 = curx2 + invslope2;
            sy = sy + 1;
        }
        proof {
            assert(spec_bottom_flat_walk(w, h, self@, sy as int, y2 as int, curx1 as int,
                curx2 as int, invslope1 as int, invslope2 as int, color) == self@);
        }
    }

    /// Scanline fill of a triangle whose top edge is flat: the base runs
    /// from `(x1, y1)` to `(x2, y2)` with `y1 == y2` in the intended use,
    /// and the apex is `(x3, y3)`; rows are walked upward from the apex,
    /// stopping above the base row, as a guarded branch replaces any
    /// zero-height division. Only rows strictly below the base row, down
    /// to the apex row, are touched.
    pub fn fill_top_flat_triangle(
        &mut self,
        x1: i64,
        y1: i64,
        x2: i64,
        y2: i64,
        x3: i64,
        y3: i64,
        color: Color,
    )
        requires
            old(self).wf(),
        ensures
            final(self).wf(),
            final(self).same_shape(*old(self)),
            forall|xx: int, yy: int|
                old(self).in_bounds(xx, yy) && !(spec_clamped(y1 as int) < yy <= spec_clamped(
                    y3 as int,
                )) ==> final(self).spec_at(xx, yy) == old(self).spec_at(xx, yy),
            final(self)@ == spec_top_flat(old(self).spec_width(), old(self).spec_height(),
                old(self)@, x1 as int, y1 as int, x2 as int, y2 as int, x3 as int, y3 as int,
                color),
    {
        let ghost snap = *old(self);
        let ghost w = snap.spec_width();
        let ghost h = snap.spec_height();
        let ghost target = spec_top_flat(w, h, snap@, x1 as int, y1 as int, x2 as int,
            y2 as int, x3 as int, y3 as int, color);
        let x1 = clamp_coord(x1);
        let y1 = clamp_coord(y1);
        let x2 = clamp_coord(x2);
        let y2 = clamp_coord(y2);
        let x3 = clamp_coord(x3);
        let y3 = clamp_coord(y3);
        let den1 = y3 - y1;
        let den2 = y3 - y2;
        if den1 <= 0 || den2 <= 0 {
            return ;
        }
        let invslope1 = mul_div_trunc_i64(x3 - x1, FX_ONE, den1);
        let invslope2 = mul_div_trunc_i64(x3 - x2, FX_ONE, den2);
        proof {
            lemma_slope_range(x3 as int - x1 as int, den1 as int);
            lemma_slope_range(x3 as int - x2 as int, den2 as int);
        }
        let mut curx1 = x3 * FX_ONE;
        let mut curx2 = x3 * FX_ONE;
        let mut sy = y3;
        while sy > y1
            invariant
                self.wf(),
                self.same_shape(snap),
                w == snap.spec_width(),
                h == snap.spec_height(),
                -COORD_LIMIT <= y1,
                sy <= y3 <= COORD_LIMIT,
                -0x20_0000_0000 <= invslope1 <= 0x20_0000_0000,
                -0x20_0000_0000 <= invslope2 <= 0x20_0000_0000,
                -0x10_0000_0000 - (y3 - sy) * 0x20_0000_0000 <= curx1 <= 0x10_0000_0000 + (
                y3 - sy) * 0x20_0000_0000,
                -0x10_0000_0000 - (y3 - sy) * 0x20_0000_0000 <= curx2 <= 0x10_0000_0000 + (
                y3 - sy) * 0x20_0000_0000,
                y1 <= sy,
                forall|xx: int, yy: int|
                    snap.in_bounds(xx, yy) && !(sy < yy <= y3) ==> self.spec_at(xx, yy)
                        == snap.spec_at(xx, yy),
                spec_top_flat_walk(w, h, self@, sy as int, y1 as int, curx1 as int,
                    curx2 as int, invslope1 as int, invslope2 as int, color) == target,
            decreases sy - y1,
        {
            let ghost prev = self@;
            let ghost sy0 = sy as int;
            let sx = div_trunc_i64(curx1, FX_ONE);
            let ex = div_trunc_i64(curx2, FX_ONE);
            self.draw_hline(sx, ex, sy, color);
            proof {
                assert(self@ == spec_hline(w, h, prev, sx as int, ex as int, sy0, color));
                assert(spec_top_flat_walk(w, h, prev, sy0, y1 as int, curx1 as int,
                    curx2 as int, invslope1 as int, invslope2 as int, color)
                    == spec_top_flat_walk(w, h, self@, sy0 - 1, y1 as int, curx1 - invslope1,
                    curx2 - invslope2, invslope1 as int, invslope2 as int, color));
            }
            curx1 = curx1 - invslope1;
            curx2 = curx2 - invslope2;
            sy = sy - 1;
        }
        proof {
            assert(spec_top_flat_walk(w, h, self@, sy as int, y1 as int, curx1 as int,
                curx2 as int, invslope1 as int, invslope2 as int, color) == self@);
        }
    }

    /// Flat-shaded scanline fill: the vertices are sorted by ascending Y,
    /// and the triangle is filled as a bottom-flat half, a top-flat half,
    /// or both after splitting at the middle vertex's row. A triangle
    /// whose three vertices share one row degenerates to that row's span.
    /// Rows outside the triangle's vertical extent keep their cells.
    pub fn fill_triangle(
        &mut self,
        x1: i64,
        y1: i64,
        x2: i64,
        y2: i64,
        x3: i64,
        y3: i64,
        color: Color,
    )
        requires
            old(self).wf(),
        ensures
            final(self).wf(),
            final(self).same_shape(*old(self)),
            forall|xx: int, yy: int|
                old(self).in_bounds(xx, yy) && !(imin(
                    imin(spec_clamped(y1 as int), spec_clamped(y2 as int)),
                    spec_clamped(y3 as int),
                ) <= yy <= imax(
                    imax(spec_clamped(y1 as int), spec_clamped(y2 as int)),
                    spec_clamped(y3 as int),
                )) ==> final(self).spec_at(xx, yy) == old(self).spec_at(xx, yy),
            final(self)@ == spec_fill_triangle(old(self).spec_width(),
                old(self).spec_height(), old(self)@, x1 as int, y1 as int, x2 as int,
                y2 as int, x3 as int, y3 as int, color),
    {
        let mut xa = clamp_coord(x1);
        let mut ya = clamp_coord(y1);
        let mut xb = clamp_coord(x2);
        let mut yb = clamp_coord(y2);
        let mut xc = clamp_coord(x3);
        let mut yc = clamp_coord(y3);
        if ya > yb {
            let tx = xa;
            let ty = ya;
            xa = xb;
            ya = yb;
            xb = tx;
            yb = ty;
        }
        if yb > yc {
            let tx = xb;
            let ty = yb;
            xb = xc;
            yb = yc;
            xc = tx;
            yc = ty;
        }
        if ya > yb {
            let tx = xa;
            let ty = ya;
            xa = xb;
            ya = yb;
            xb = tx;
            yb = ty;
        }
        if ya == yc {
            self.draw_hline(xa, xb, ya, color);
            self.draw_hline(xb, xc, ya, color);
            return ;
        }
        if yb == yc {
            self.fill_bottom_flat_triangle(xa, ya, xb, yb, xc, yc, color);
        } else if ya == yb {
            self.fill_top_flat_triangle(xa, ya, xb, yb, xc, yc, color);
        } else {
            let q = mul_div_trunc_i64(yb - ya, xc - xa, yc - ya);
            proof {
                assert(crate::fx::iabs((yb as int - ya as int) * (xc as int - xa as int))
                    <= 0x400_0000_0000) by (nonlinear_arith)
                    requires
                        crate::fx::iabs(yb as int - ya as int) <= 0x20_0000,
                        crate::fx::iabs(xc as int - xa as int) <= 0x20_0000,
                ;
                lemma_div_trunc_abs((yb as int - ya as int) * (xc as int - xa as int),
                    yc as int - ya as int);
                crate::fx::lemma_sat64_bound(div_trunc(
                    (yb as int - ya as int) * (xc as int - xa as int),
                    yc as int - ya as int,
                ), 0x400_0000_0000);
            }
            let x4 = xa + q;
            let y4 = yb;
            self.fill_bottom_flat_triangle(xa, ya, xb, yb, x4, y4, color);
            self.fill_top_flat_triangle(xb, yb, x4, y4, xc, yc, color);
        }
    }
}

/// `n` cells all holding `fill`.
fn fill_cells(n: usize, fill: Color) -> (v: Vec<Color>)
    ensures
        v@.len() == n,
        forall|k: int| 0 <= k < n ==> v@[k] == fill,
{
    let mut v: Vec<Color> = Vec::new();
    let mut i: usize = 0;
    while i < n
        invariant
            i <= n,
            v@.len() == i,
            forall|k: int| 0 <= k < i ==> v@[k] == fill,
        decreases n - i,
    {
        v.push(fill);
        i = i + 1;
    }
    v
}

/// An interpolation slope over clamped coordinates stays within range.
proof fn lemma_slope_range(a: int, d: int)
    requires
        crate::fx::iabs(a) <= 0x20_0000,
        d >= 1,
    ensures
        crate::fx::iabs(sat64(div_trunc(a * FX_ONE, d))) <= 0x20_0000_0000,
        -0x20_0000_0000 <= sat64(div_trunc(a * FX_ONE, d)) <= 0x20_0000_0000,
{
    assert(crate::fx::iabs(a * 65536) <= 0x20_0000_0000);
    lemma_div_trunc_abs(a * 65536, d);
    crate::fx::lemma_sat64_bound(div_trunc(a * 65536, d), 0x20_0000_0000);
}

/// A row-major cell index lies inside the buffer, and the buffer's cell
/// count stays small enough for index arithmetic.
proof fn lemma_cell_index_in_range(w: int, h: int, x: int, y: int)
    requires
        0 <= x < w,
        0 <= y < h,
        w <= MAX_DIM,
        h <= MAX_DIM,
    ensures
        0 <= y * w + x < w * h,
        w * h <= 0x1000_0000,
{
    assert(y * w + x < w * h && w * h <= 0x1000_0000) by (nonlinear_arith)
        requires
            0 <= x < w,
            0 <= y < h,
            w <= 0x4000,
            h <= 0x4000,
    ;
    assert(y * w >= 0) by (nonlinear_arith)
        requires
            y >= 0,
            w >= 0,
    ;
}

/// A buffer whose cells match the horizontal-run description coordinate
/// by coordinate equals `spec_hline` of the original cells.
proof fn lemma_hline_rows(before: PixelBuffer, after: PixelBuffer, sx: int, ex: int, ny: int,
    c: Color)
    requires
        before.wf(),
        after.wf(),
        after.same_shape(before),
        forall|xx: int, yy: int|
            before.in_bounds(xx, yy) ==> #[trigger] after.spec_at(xx, yy) == (if yy == ny
                && imin(sx, ex) <= xx <= imax(sx, ex) {
                c
            } else {
                before.spec_at(xx, yy)
            }),
    ensures
        after@ == spec_hline(before.spec_width(), before.spec_height(), before@, sx, ex, ny,
            c),
{
    let w = before.spec_width();
    let h = before.spec_height();
    assert forall|k: int| 0 <= k < after@.len() implies after@[k] == spec_hline(w, h, before@,
        sx, ex, ny, c)[k] by {
        lemma_cell_coords(w, h, k);
        assert(after.spec_at(k % w, k / w) == (if k / w == ny && imin(sx, ex) <= k % w <= imax(
            sx,
            ex,
        ) {
            c
        } else {
            before.spec_at(k % w, k / w)
        }));
    }
    assert(after@ =~= spec_hline(w, h, before@, sx, ex, ny, c));
}

/// A cell index decomposes into its row and column.
proof fn lemma_cell_coords(w: int, h: int, k: int)
    requires
        0 <= k < w * h,
        0 <= w,
        0 <= h,
    ensures
        w >= 1,
        0 <= k % w < w,
        0 <= k / w < h,
        k == (k / w) * w + (k % w),
{
    assert(w >= 1 && h >= 1) by (nonlinear_arith)
        requires
            0 <= k < w * h,
            0 <= w,
            0 <= h,
    ;
    vstd::arithmetic::div_mod::lemma_fundamental_div_mod(k, w);
    vstd::arithmetic::div_mod::lemma_mod_division_less_than_divisor(k, w);
    vstd::arithmetic::div_mod::lemma_div_pos_is_pos(k, w);
    vstd::arithmetic::div_mod::lemma_multiply_divide_lt(k, w, h);
    assert(w * (k / w) == (k / w) * w) by (nonlinear_arith);
}

/// Distinct in-bounds coordinates occupy distinct cells.
proof fn lemma_cell_index_distinct(w: int, h: int, x1: int, y1: int, x2: int, y2: int)
    requires
        0 <= x1 < w,
        0 <= y1 < h,
        0 <= x2 < w,
        0 <= y2 < h,
        !(x1 == x2 && y1 == y2),
    ensures
        y1 * w + x1 != y2 * w + x2,
{
    if y1 != y2 {
        assert(y1 * w + x1 != y2 * w + x2) by (nonlinear_arith)
            requires
                0 <= x1 < w,
                0 <= x2 < w,
                y1 != y2,
        ;
    }
}

} // verus!
