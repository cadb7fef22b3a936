//! Pixel buffer primitives: bounds safety, runs, lines, and fills.

use r3de::raster::Color;
use r3de::raster::PixelBuffer;

fn black() -> Color {
    Color::new(0, 0, 0, 255)
}

fn white() -> Color {
    Color::new(255, 255, 255, 255)
}

#[test]
fn new_buffer_is_filled() {
    let buf = PixelBuffer::new(4, 3, black());
    assert_eq!(buf.width(), 4);
    assert_eq!(buf.height(), 3);
    for y in 0..3 {
        for x in 0..4 {
            assert_eq!(buf.get_pixel(x, y), black());
        }
    }
}

#[test]
fn put_pixel_writes_only_its_cell() {
    let mut buf = PixelBuffer::new(8, 8, black());
    buf.put_pixel(3, 2, white());
    for y in 0..8 {
        for x in 0..8 {
            let expect = if (x, y) == (3, 2) { white() } else { black() };
            assert_eq!(buf.get_pixel(x, y), expect);
        }
    }
}

#[test]
fn put_pixel_outside_is_dropped() {
    let mut buf = PixelBuffer::new(8, 8, black());
    let before = buf.pixels().clone();
    buf.put_pixel(-1, 0, white());
    buf.put_pixel(0, -1, white());
    buf.put_pixel(8, 0, white());
    buf.put_pixel(0, 8, white());
    buf.put_pixel(i64::MIN, i64::MAX, white());
    assert_eq!(buf.pixels(), &before);
}

#[test]
fn hline_covers_clipped_span() {
    let mut buf = PixelBuffer::new(8, 4, black());
    buf.draw_hline(-5, 3, 1, white());
    for y in 0..4 {
        for x in 0..8 {
            let expect = if y == 1 && x <= 3 { white() } else { black() };
            assert_eq!(buf.get_pixel(x, y), expect);
        }
    }
}

#[test]
fn hline_accepts_reversed_ends() {
    let mut buf = PixelBuffer::new(8, 4, black());
    buf.draw_hline(6, 2, 0, white());
    for x in 0..8 {
        let expect = if (2..=6).contains(&x) { white() } else { black() };
        assert_eq!(buf.get_pixel(x, 0), expect);
    }
}

#[test]
fn hline_off_row_changes_nothing() {
    let mut buf = PixelBuffer::new(8, 4, black());
    let before = buf.pixels().clone();
    buf.draw_hline(0, 7, -1, white());
    buf.draw_hline(0, 7, 4, white());
    assert_eq!(buf.pixels(), &before);
}

#[test]
fn line_draws_main_diagonal() {
    let mut buf = PixelBuffer::new(8, 8, black());
    buf.draw_line(0, 0, 3, 3, white());
    for k in 0..4 {
        assert_eq!(buf.get_pixel(k as usize, k as usize), white());
    }
    assert_eq!(buf.get_pixel(4, 4), black());
    assert_eq!(buf.get_pixel(1, 0), black());
}

#[test]
fn line_far_outside_buffer_is_safe() {
    let mut buf = PixelBuffer::new(16, 16, black());
    let before = buf.pixels().clone();
    buf.draw_line(-300000, -100000, 300000, -99000, white());
    assert_eq!(buf.width(), 16);
    assert_eq!(buf.height(), 16);
    // the line never enters the buffer
    let mut unchanged = true;
    for y in 0..16 {
        for x in 0..16 {
            if buf.get_pixel(x, y) != before[y * 16 + x] {
                unchanged = false;
            }
        }
    }
    assert!(unchanged);
}

#[test]
fn line_beyond_canvas_range_is_clamped_and_safe() {
    let mut buf = PixelBuffer::new(8, 8, black());
    buf.draw_line(-5000000, 0, 5000000, 0, white());
    assert_eq!(buf.width(), 8);
    // the clamped horizontal line passes through row 0 of the buffer
    assert_eq!(buf.get_pixel(0, 0), white());
}

#[test]
fn fill_bottom_flat_triangle_pixels() {
    let mut buf = PixelBuffer::new(8, 8, black());
    buf.fill_triangle(1, 1, 1, 5, 5, 5, white());
    assert_eq!(buf.get_pixel(1, 1), white());
    assert_eq!(buf.get_pixel(1, 3), white());
    assert_eq!(buf.get_pixel(5, 5), white());
    assert_eq!(buf.get_pixel(5, 1), black());
    assert_eq!(buf.get_pixel(7, 7), black());
    // rows outside the triangle's vertical extent are untouched
    for x in 0..8 {
        assert_eq!(buf.get_pixel(x, 0), black());
        assert_eq!(buf.get_pixel(x, 6), black());
        assert_eq!(buf.get_pixel(x, 7), black());
    }
}

#[test]
fn fill_triangle_far_outside_is_safe() {
    let mut buf = PixelBuffer::new(16, 16, black());
    buf.fill_triangle(-200000, -50000, 200000, 60000, 0, 70000, white());
    assert_eq!(buf.width(), 16);
    assert_eq!(buf.height(), 16);
}

#[test]
fn fill_triangle_negative_coordinates_do_not_crash() {
    let mut buf = PixelBuffer::new(8, 8, black());
    buf.fill_triangle(-10, -10, -5, -20, -1, -3, white());
    assert_eq!(buf.width(), 8);
}

#[test]
fn fill_collinear_triangle_is_safe() {
    let mut buf = PixelBuffer::new(64, 64, black());
    buf.fill_triangle(10, 10, 20, 20, 30, 30, white());
    assert_eq!(buf.width(), 64);
    assert_eq!(buf.height(), 64);
}

#[test]
fn fill_single_row_triangle_spans_the_row() {
    let mut buf = PixelBuffer::new(16, 8, black());
    buf.fill_triangle(5, 3, 9, 3, 2, 3, white());
    for x in 2..=9 {
        assert_eq!(buf.get_pixel(x, 3), white());
    }
    assert_eq!(buf.get_pixel(1, 3), black());
    assert_eq!(buf.get_pixel(10, 3), black());
}

#[test]
fn stroke_triangle_draws_vertices() {
    let mut buf = PixelBuffer::new(16, 16, black());
    buf.draw_triangle(2, 2, 12, 2, 2, 12, white());
    assert_eq!(buf.get_pixel(2, 2), white());
    assert_eq!(buf.get_pixel(12, 2), white());
    assert_eq!(buf.get_pixel(2, 12), white());
    assert_eq!(buf.get_pixel(7, 2), white()); // along the top edge
}

#[test]
fn clear_resets_every_cell() {
    let mut buf = PixelBuffer::new(8, 8, black());
    buf.put_pixel(4, 4, white());
    buf.clear(black());
    for y in 0..8 {
        for x in 0..8 {
            assert_eq!(buf.get_pixel(x, y), black());
        }
    }
}

#[test]
fn line_is_independent_of_endpoint_order() {
    let ends: [(i64, i64, i64, i64); 4] =
        [(1, 1, 6, 3), (0, 7, 7, 0), (2, 2, 2, 6), (5, 1, 0, 1)];
    for &(x1, y1, x2, y2) in ends.iter() {
        let mut fwd = PixelBuffer::new(8, 8, black());
        let mut rev = PixelBuffer::new(8, 8, black());
        fwd.draw_line(x1, y1, x2, y2, white());
        rev.draw_line(x2, y2, x1, y1, white());
        assert_eq!(fwd.pixels(), rev.pixels());
    }
}

#[test]
fn fill_is_independent_of_vertex_order() {
    let v: [(i64, i64); 3] = [(1, 1), (6, 2), (3, 6)];
    let orders: [[usize; 3]; 6] =
        [[0, 1, 2], [0, 2, 1], [1, 0, 2], [1, 2, 0], [2, 0, 1], [2, 1, 0]];
    let mut reference: Option<Vec<Color>> = None;
    for order in orders.iter() {
        let mut buf = PixelBuffer::new(8, 8, black());
        let (a, b, c) = (v[order[0]], v[order[1]], v[order[2]]);
        buf.fill_triangle(a.0, a.1, b.0, b.1, c.0, c.1, white());
        match &reference {
            None => {
                reference = Some(buf.pixels().clone());
            },
            Some(r) => {
                assert_eq!(buf.pixels(), r);
            },
        }
    }
}

#[test]
fn line_paints_one_pixel_per_driving_step() {
    // within bounds, a line paints max(|dx|, |dy|) + 1 distinct cells
    let cases: [(i64, i64, i64, i64, usize); 3] =
        [(1, 1, 6, 3, 6), (0, 7, 7, 0, 8), (2, 2, 2, 6, 5)];
    for &(x1, y1, x2, y2, expect) in cases.iter() {
        let mut buf = PixelBuffer::new(8, 8, black());
        buf.draw_line(x1, y1, x2, y2, white());
        let mut painted = 0;
        for y in 0..8 {
            for x in 0..8 {
                if buf.get_pixel(x, y) == white() {
                    painted += 1;
                }
            }
        }
        assert_eq!(painted, expect);
    }
}
