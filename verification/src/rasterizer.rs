//! A software rasterizer that scan-converts triangles into an integer depth
//! buffer and an object-id buffer.
//!
//! Vertices arrive in window coordinates as fixed-point integers: `x` and `y`
//! in `FX_ONE` units per pixel, the normalized depth `z` in `DEPTH_ONE` units
//! per unit depth (see `math`). A pixel is written only when its candidate
//! depth lies within `[0, 1]` and is strictly nearer than what the depth
//! buffer holds; ties keep the first writer.

use vstd::prelude::*;

use crate::frame::Frame;
use crate::math::{
    clamp, div_trunc, fx_round, interp, interp_fx, lemma_fx_round_int, lemma_fx_round_monotone,
    lemma_interp_between, lemma_interp_target_monotone, lemma_tdiv_bounds, round_fx, spec_clamp,
    tdiv, Vec3Fx, COORD_LIMIT, DEPTH_LIMIT, DEPTH_ONE, FX_ONE,
};

verus! {

/// Largest frame edge length the rasterizer accepts, in pixels.
pub const MAX_FRAME_DIM: usize = 0x40_0000;

/// A cell of the rasterizer: its depth word and its optional object id.
pub type Cell = (u32, Option<u32>);

/// A simple rasterizer that rasterizes pixels into a frame buffer.
pub struct Rasterizer {
    /// The width of the frame buffer.
    pub width: usize,

    /// The height of the frame buffer.
    pub height: usize,

    /// The depth buffer of the rasterizer, row-major.
    pub depth_buffer: Vec<u32>,

    /// The id buffer of the rasterizer, row-major.
    pub id_buffer: Vec<Option<u32>>,
}

/// The write discipline of a single pixel: the candidate depth wins only when
/// it lies within the valid depth range and is strictly nearer than the cell.
pub open spec fn cell_write(c: Cell, id: u32, cand: int) -> Cell {
    if 0 <= cand <= DEPTH_ONE as int && cand < c.0 as int {
        (cand as u32, Some(id))
    } else {
        c
    }
}

/// The depth slope of a scanline, per pixel column.
pub open spec fn scan_dd(x0r: int, x1r: int, d0: int, d1: int) -> int {
    if x1r > x0r {
        tdiv(d1 - d0, x1r - x0r)
    } else {
        0
    }
}

/// The candidate depth of a scanline at column `x`.
pub open spec fn scan_cand(x0r: int, d0: int, dd: int, x: int) -> int {
    d0 + (x - x0r) * dd
}

/// The effect of one scanline on the cell at column `x` of its row: columns
/// within the clamped span get a depth-tested write with the interpolated
/// candidate depth, all others keep their value.
pub open spec fn scanline_cell(
    c: Cell,
    id: u32,
    w: int,
    x0: int,
    x1: int,
    d0: int,
    d1: int,
    x: int,
) -> Cell {
    let x0r = fx_round(x0);
    let x1r = fx_round(x1);
    if x1r < 0 || x0r > w - 1 {
        c
    } else {
        let lo = if x0r < 0 {
            0
        } else {
            x0r
        };
        let hi = if x1r > w - 1 {
            w - 1
        } else {
            x1r
        };
        if lo <= x <= hi {
            cell_write(c, id, scan_cand(x0r, d0, scan_dd(x0r, x1r, d0, d1), x))
        } else {
            c
        }
    }
}

/// A vertex within the coordinate and depth ranges the rasterizer accepts.
pub open spec fn vertex_ok(p: Vec3Fx) -> bool {
    &&& -COORD_LIMIT <= p.x <= COORD_LIMIT
    &&& -COORD_LIMIT <= p.y <= COORD_LIMIT
    &&& -DEPTH_LIMIT <= p.z <= DEPTH_LIMIT
}

/// The two flat-edge endpoints sorted by x: left x, right x, left depth,
/// right depth.
pub open spec fn x_sorted_pair(a: Vec3Fx, b: Vec3Fx) -> (i64, i64, i64, i64) {
    if a.x < b.x {
        (a.x, b.x, a.z, b.z)
    } else {
        (b.x, a.x, b.z, a.z)
    }
}

/// The effect of filling a bottom-flat triangle (`p1` and `p2` level, `p0`
/// above them in scan order) on the cell at `(x, y)`: each clamped row gets
/// one scanline whose endpoints interpolate from the apex toward the x-sorted
/// flat edge at the row's clamped parameter.
pub open spec fn bottom_flat_cell(
    c: Cell,
    id: u32,
    p0: Vec3Fx,
    p1: Vec3Fx,
    p2: Vec3Fx,
    w: int,
    h: int,
    x: int,
    y: int,
) -> Cell {
    let y0 = p0.y as int;
    let y1 = p2.y as int;
    if p0.y == p1.y || y1 == y0 || y1 < 0 || y0 > (h - 1) * 256 {
        c
    } else {
        let y0m = if fx_round(y0) < 0 {
            0int
        } else {
            fx_round(y0)
        };
        let y1m = if fx_round(y1) > h - 1 {
            h - 1
        } else {
            fx_round(y1)
        };
        if y0m <= y <= y1m {
            let den = y1 - y0;
            let num = spec_clamp(y * 256 - y0, 0, den);
            let q = x_sorted_pair(p1, p2);
            scanline_cell(
                c,
                id,
                w,
                interp(p0.x as int, q.0 as int, num, den),
                interp(p0.x as int, q.1 as int, num, den),
                interp(p0.z as int, q.2 as int, num, den),
                interp(p0.z as int, q.3 as int, num, den),
                x,
            )
        } else {
            c
        }
    }
}

/// The effect of filling a top-flat triangle (`p0` and `p1` level, `p2` below
/// them in scan order) on the cell at `(x, y)`: as for the bottom-flat case,
/// with the interpolation anchored at the lower apex `p2`.
pub open spec fn top_flat_cell(
    c: Cell,
    id: u32,
    p0: Vec3Fx,
    p1: Vec3Fx,
    p2: Vec3Fx,
    w: int,
    h: int,
    x: int,
    y: int,
) -> Cell {
    let y0 = p0.y as int;
    let y1 = p2.y as int;
    if p2.y == p0.y || y1 < 0 || y0 > (h - 1) * 256 {
        c
    } else {
        let y0m = if fx_round(y0) < 0 {
            0int
        } else {
            fx_round(y0)
        };
        let y1m = if fx_round(y1) > h - 1 {
            h - 1
        } else {
            fx_round(y1)
        };
        if y0m <= y <= y1m {
            let den = y1 - y0;
            let num = spec_clamp(y1 - y * 256, 0, den);
            let q = x_sorted_pair(p0, p1);
            scanline_cell(
                c,
                id,
                w,
                interp(p2.x as int, q.0 as int, num, den),
                interp(p2.x as int, q.1 as int, num, den),
                interp(p2.z as int, q.2 as int, num, den),
                interp(p2.z as int, q.3 as int, num, den),
                x,
            )
        } else {
            c
        }
    }
}

/// The two endpoints of a degenerate (single-row) triangle sorted by x, the
/// first one kept on ties.
pub open spec fn line_sorted_pair(a: Vec3Fx, b: Vec3Fx) -> (i64, i64, i64, i64) {
    if a.x <= b.x {
        (a.x, b.x, a.z, b.z)
    } else {
        (b.x, a.x, b.z, a.z)
    }
}

/// The synthetic vertex that splits a general triangle into a bottom-flat and
/// a top-flat part: the point on the edge from `p0` to `p2` at the height of
/// `p1`.
pub open spec fn split_vertex(p0: Vec3Fx, p1: Vec3Fx, p2: Vec3Fx) -> Vec3Fx {
    let num = p1.y as int - p0.y as int;
    let den = p2.y as int - p0.y as int;
    Vec3Fx {
        x: interp(p0.x as int, p2.x as int, num, den) as i64,
        y: p1.y,
        z: interp(p0.z as int, p2.z as int, num, den) as i64,
    }
}

/// The effect of rasterizing a y-sorted triangle on the cell at `(x, y)`:
/// a single-row triangle degenerates to one scanline, a flat triangle is one
/// scan pass, and a general triangle is split at the middle vertex's height
/// into a bottom-flat pass followed by a top-flat pass.
pub open spec fn fill_triangle_cell(
    c: Cell,
    id: u32,
    p0: Vec3Fx,
    p1: Vec3Fx,
    p2: Vec3Fx,
    w: int,
    h: int,
    x: int,
    y: int,
) -> Cell {
    let r0 = fx_round(p0.y as int);
    let r1 = fx_round(p1.y as int);
    let r2 = fx_round(p2.y as int);
    if r0 == r2 {
        if r0 >= 0 && r0 < h && y == r0 {
            let q = line_sorted_pair(p0, p2);
            scanline_cell(c, id, w, q.0 as int, q.1 as int, q.2 as int, q.3 as int, x)
        } else {
            c
        }
    } else if r0 == r1 {
        top_flat_cell(c, id, p0, p1, p2, w, h, x, y)
    } else if r1 == r2 {
        bottom_flat_cell(c, id, p0, p1, p2, w, h, x, y)
    } else {
        let p3 = split_vertex(p0, p1, p2);
        top_flat_cell(bottom_flat_cell(c, id, p0, p1, p3, w, h, x, y), id, p1, p3, p2, w, h, x, y)
    }
}

/// The three vertices of a triangle sorted ascending by y, mirroring the
/// comparison order of `rasterize`.
pub open spec fn sort3_by_y(p0: Vec3Fx, p1: Vec3Fx, p2: Vec3Fx) -> (Vec3Fx, Vec3Fx, Vec3Fx) {
    if p0.y <= p1.y && p0.y <= p2.y {
        if p1.y <= p2.y {
            (p0, p1, p2)
        } else {
            (p0, p2, p1)
        }
    } else if p1.y <= p0.y && p1.y <= p2.y {
        if p0.y <= p2.y {
            (p1, p0, p2)
        } else {
            (p1, p2, p0)
        }
    } else {
        if p0.y <= p1.y {
            (p2, p0, p1)
        } else {
            (p2, p1, p0)
        }
    }
}

/// A pixel write never raises the stored depth, and any change writes the
/// given id with a strictly nearer depth.
proof fn lemma_cell_write_discipline(c: Cell, id: u32, cand: int)
    ensures
        cell_write(c, id, cand).0 <= c.0,
        cell_write(c, id, cand) != c ==> cell_write(c, id, cand).0 < c.0 && cell_write(
            c,
            id,
            cand,
        ).1 == Some(id),
{
}

/// The scanline write discipline, lifted from single pixel writes.
proof fn lemma_scanline_cell_discipline(
    c: Cell,
    id: u32,
    w: int,
    x0: int,
    x1: int,
    d0: int,
    d1: int,
    x: int,
)
    ensures
        scanline_cell(c, id, w, x0, x1, d0, d1, x).0 <= c.0,
        scanline_cell(c, id, w, x0, x1, d0, d1, x) != c ==> scanline_cell(
            c,
            id,
            w,
            x0,
            x1,
            d0,
            d1,
            x,
        ).0 < c.0 && scanline_cell(c, id, w, x0, x1, d0, d1, x).1 == Some(id),
{
    lemma_cell_write_discipline(
        c,
        id,
        scan_cand(fx_round(x0), d0, scan_dd(fx_round(x0), fx_round(x1), d0, d1), x),
    );
}

/// The bottom-flat fill discipline, lifted from the scanline discipline.
proof fn lemma_bottom_flat_cell_discipline(
    c: Cell,
    id: u32,
    p0: Vec3Fx,
    p1: Vec3Fx,
    p2: Vec3Fx,
    w: int,
    h: int,
    x: int,
    y: int,
)
    ensures
        bottom_flat_cell(c, id, p0, p1, p2, w, h, x, y).0 <= c.0,
        bottom_flat_cell(c, id, p0, p1, p2, w, h, x, y) != c ==> bottom_flat_cell(
            c,
            id,
            p0,
            p1,
            p2,
            w,
            h,
            x,
            y,
        ).0 < c.0 && bottom_flat_cell(c, id, p0, p1, p2, w, h, x, y).1 == Some(id),
{
    let y0 = p0.y as int;
    let y1 = p2.y as int;
    let den = y1 - y0;
    let num = spec_clamp(y * 256 - y0, 0, den);
    let q = x_sorted_pair(p1, p2);
    lemma_scanline_cell_discipline(
        c,
        id,
        w,
        interp(p0.x as int, q.0 as int, num, den),
        interp(p0.x as int, q.1 as int, num, den),
        interp(p0.z as int, q.2 as int, num, den),
        interp(p0.z as int, q.3 as int, num, den),
        x,
    );
}

/// The top-flat fill discipline, lifted from the scanline discipline.
proof fn lemma_top_flat_cell_discipline(
    c: Cell,
    id: u32,
    p0: Vec3Fx,
    p1: Vec3Fx,
    p2: Vec3Fx,
    w: int,
    h: int,
    x: int,
    y: int,
)
    ensures
        top_flat_cell(c, id, p0, p1, p2, w, h, x, y).0 <= c.0,
        top_flat_cell(c, id, p0, p1, p2, w, h, x, y) != c ==> top_flat_cell(
            c,
            id,
            p0,
            p1,
            p2,
            w,
            h,
            x,
            y,
        ).0 < c.0 && top_flat_cell(c, id, p0, p1, p2, w, h, x, y).1 == Some(id),
{
    let y0 = p0.y as int;
    let y1 = p2.y as int;
    let den = y1 - y0;
    let num = spec_clamp(y1 - y * 256, 0, den);
    let q = x_sorted_pair(p0, p1);
    lemma_scanline_cell_discipline(
        c,
        id,
        w,
        interp(p2.x as int, q.0 as int, num, den),
        interp(p2.x as int, q.1 as int, num, den),
        interp(p2.z as int, q.2 as int, num, den),
        interp(p2.z as int, q.3 as int, num, den),
        x,
    );
}

/// The whole-triangle write discipline: depths never rise, and every change
/// writes the triangle's id nearer than what the cell held (the monotone
/// overwrite rule).
pub proof fn lemma_fill_triangle_cell_discipline(
    c: Cell,
    id: u32,
    p0: Vec3Fx,
    p1: Vec3Fx,
    p2: Vec3Fx,
    w: int,
    h: int,
    x: int,
    y: int,
)
    ensures
        fill_triangle_cell(c, id, p0, p1, p2, w, h, x, y).0 <= c.0,
        fill_triangle_cell(c, id, p0, p1, p2, w, h, x, y) != c ==> fill_triangle_cell(
            c,
            id,
            p0,
            p1,
            p2,
            w,
            h,
            x,
            y,
        ).0 < c.0 && fill_triangle_cell(c, id, p0, p1, p2, w, h, x, y).1 == Some(id),
{
    let r0 = fx_round(p0.y as int);
    let r1 = fx_round(p1.y as int);
    let r2 = fx_round(p2.y as int);
    if r0 == r2 {
        let q = line_sorted_pair(p0, p2);
        lemma_scanline_cell_discipline(
            c,
            id,
            w,
            q.0 as int,
            q.1 as int,
            q.2 as int,
            q.3 as int,
            x,
        );
    } else if r0 == r1 {
        lemma_top_flat_cell_discipline(c, id, p0, p1, p2, w, h, x, y);
    } else if r1 == r2 {
        lemma_bottom_flat_cell_discipline(c, id, p0, p1, p2, w, h, x, y);
    } else {
        let p3 = split_vertex(p0, p1, p2);
        let mid = bottom_flat_cell(c, id, p0, p1, p3, w, h, x, y);
        lemma_bottom_flat_cell_discipline(c, id, p0, p1, p3, w, h, x, y);
        lemma_top_flat_cell_discipline(mid, id, p1, p3, p2, w, h, x, y);
    }
}

/// A row-major pixel index stays within the buffer.
proof fn lemma_row_major_index(w: int, h: int, x: int, y: int)
    requires
        0 <= x < w,
        0 <= y < h,
    ensures
        0 <= y * w + x < w * h,
{
    assert(0 <= y * w + x < w * h) by (nonlinear_arith)
        requires
            0 <= x < w,
            0 <= y < h,
    ;
}

/// Distinct pixels have distinct row-major indices.
proof fn lemma_row_major_distinct(w: int, x1: int, y1: int, x2: int, y2: int)
    requires
        0 <= x1 < w,
        0 <= x2 < w,
        0 <= y1,
        0 <= y2,
        x1 != x2 || y1 != y2,
    ensures
        y1 * w + x1 != y2 * w + x2,
{
    if y1 != y2 {
        assert(y1 * w + x1 != y2 * w + x2) by (nonlinear_arith)
            requires
                0 <= x1 < w,
                0 <= x2 < w,
                y1 != y2,
        ;
    }
}

impl Rasterizer {
    /// Well-formedness: the two buffers cover the pixel grid, the dimensions
    /// are within the supported range, an id is present exactly where a depth
    /// nearer than the farthest has been written, and no pixel carries the id
    /// word that the frame format reserves for empty pixels.
    pub open spec fn wf(self) -> bool {
        &&& self.width <= MAX_FRAME_DIM
        &&& self.height <= MAX_FRAME_DIM
        &&& self.depth_buffer@.len() == self.width * self.height
        &&& self.id_buffer@.len() == self.width * self.height
        &&& forall|i: int|
            0 <= i < self.id_buffer@.len() ==> ((#[trigger] self.id_buffer@[i]) is Some
                <==> self.depth_buffer@[i] < u32::MAX)
        &&& forall|i: int|
            0 <= i < self.id_buffer@.len() ==> (#[trigger] self.id_buffer@[i]) != Some(u32::MAX)
    }

    /// The cell at column `x` of row `y`.
    pub open spec fn cell(self, x: int, y: int) -> Cell {
        (
            self.depth_buffer@[y * (self.width as int) + x],
            self.id_buffer@[y * (self.width as int) + x],
        )
    }

    /// The dimensions of two rasterizer states agree.
    pub open spec fn same_dims(self, other: Self) -> bool {
        self.width == other.width && self.height == other.height
    }

    /// Creates and returns a new rasterizer with every depth at the farthest
    /// value and every pixel id empty.
    ///
    /// # Arguments
    /// * `width` - The width of the frame buffer.
    /// * `height` - The height of the frame buffer.
    pub fn new(width: usize, height: usize) -> (r: Self)
        requires
            width <= MAX_FRAME_DIM,
            height <= MAX_FRAME_DIM,
            width * height <= usize::MAX,
        ensures
            r.wf(),
            r.width == width,
            r.height == height,
            forall|x: int, y: int|
                0 <= x < width && 0 <= y < height ==> r.cell(x, y) == (u32::MAX, Option::<
                    u32,
                >::None),
    {
        let count = width * height;
        let depth_buffer: Vec<u32> = vec![u32::MAX; count];
        let id_buffer: Vec<Option<u32>> = vec![None; count];
        let r = Self { width, height, depth_buffer, id_buffer };
        proof {
            assert forall|x: int, y: int| 0 <= x < width && 0 <= y < height implies r.cell(x, y)
                == (u32::MAX, Option::<u32>::None) by {
                lemma_row_major_index(width as int, height as int, x, y);
            }
        }
        r
    }

    /// Clears the frame buffer: every depth back to the farthest value, every
    /// pixel id back to empty.
    pub fn clear(&mut self)
        requires
            old(self).wf(),
        ensures
            final(self).wf(),
            final(self).same_dims(*old(self)),
            forall|x: int, y: int|
                0 <= x < final(self).width && 0 <= y < final(self).height ==> final(self).cell(
                    x,
                    y,
                ) == (u32::MAX, Option::<u32>::None),
    {
        let count = self.depth_buffer.len();
        self.depth_buffer = vec![u32::MAX; count];
        self.id_buffer = vec![None; count];
        proof {
            assert forall|x: int, y: int|
                0 <= x < final(self).width && 0 <= y < final(self).height implies final(self).cell(
                x,
                y,
            ) == (u32::MAX, Option::<u32>::None) by {
                lemma_row_major_index(self.width as int, self.height as int, x, y);
            }
        }
    }

    /// Draws a single pixel with the given id and candidate depth, under the
    /// depth-test write discipline.
    ///
    /// # Arguments
    /// * `id` - The id of the pixel.
    /// * `x` - The x-coordinate of the pixel.
    /// * `y` - The y-coordinate of the pixel.
    /// * `depth` - The candidate depth value of the pixel.
    fn draw_pixel(&mut self, id: u32, x: usize, y: usize, depth: i128)
        requires
            old(self).wf(),
            x < old(self).width,
            y < old(self).height,
            id != u32::MAX,
        ensures
            final(self).wf(),
            final(self).same_dims(*old(self)),
            forall|xx: int, yy: int|
                0 <= xx < old(self).width && 0 <= yy < old(self).height ==> final(self).cell(
                    xx,
                    yy,
                ) == if xx == x as int && yy == y as int {
                    cell_write(old(self).cell(xx, yy), id, depth as int)
                } else {
                    old(self).cell(xx, yy)
                },
    {
        proof {
            lemma_row_major_index(
                self.width as int,
                self.height as int,
                x as int,
                y as int,
            );
        }
        let total = self.depth_buffer.len();
        let index = y * self.width + x;

        // Make sure the depth is within bounds.
        if depth < 0 || depth > DEPTH_ONE as i128 {
            proof {
                self.lemma_untouched_cells(*self, x as int, y as int);
            }
            return ;
        }
        let q = depth as u32;
        let current = self.depth_buffer[index];
        let ghost pre = *self;
        if q < current {
            self.depth_buffer.set(index, q);
            self.id_buffer.set(index, Some(id));
        }
        proof {
            self.lemma_untouched_cells(pre, x as int, y as int);
        }
    }

    /// Draws a single horizontal line at the y-th row from `x0` to `x1` with
    /// the given respective endpoint depths `depth0` and `depth1`.
    ///
    /// # Arguments
    /// * `id` - The id of the object to which the scanline belongs.
    /// * `y` - The row of the horizontal line.
    /// * `x0` - The left fixed-point x-value of the line.
    /// * `x1` - The right fixed-point x-value of the line.
    /// * `depth0` - The depth value of the left side of the line.
    /// * `depth1` - The depth value of the right side of the line.
    fn draw_scanline(&mut self, id: u32, y: usize, x0: i64, x1: i64, depth0: i64, depth1: i64)
        requires
            old(self).wf(),
            y < old(self).height,
            x0 <= x1,
            -COORD_LIMIT <= x0 <= COORD_LIMIT,
            -COORD_LIMIT <= x1 <= COORD_LIMIT,
            -DEPTH_LIMIT <= depth0 <= DEPTH_LIMIT,
            -DEPTH_LIMIT <= depth1 <= DEPTH_LIMIT,
            id != u32::MAX,
        ensures
            final(self).wf(),
            final(self).same_dims(*old(self)),
            forall|xx: int, yy: int|
                0 <= xx < old(self).width && 0 <= yy < old(self).height ==> final(self).cell(
                    xx,
                    yy,
                ) == if yy == y as int {
                    scanline_cell(
                        old(self).cell(xx, yy),
                        id,
                        old(self).width as int,
                        x0 as int,
                        x1 as int,
                        depth0 as int,
                        depth1 as int,
                        xx,
                    )
                } else {
                    old(self).cell(xx, yy)
                },
    {
        let w = self.width;
        let x0r = round_fx(x0);
        let x1r = round_fx(x1);
        proof {
            lemma_fx_round_monotone(x0 as int, x1 as int);
            lemma_fx_round_int(0x40_0000);
            lemma_fx_round_int(-0x40_0000);
            lemma_fx_round_monotone(-COORD_LIMIT as int, x0 as int);
            lemma_fx_round_monotone(x0 as int, COORD_LIMIT as int);
            lemma_fx_round_monotone(-COORD_LIMIT as int, x1 as int);
            lemma_fx_round_monotone(x1 as int, COORD_LIMIT as int);
        }

        // Check the special case where the line is completely out of the
        // frame.
        if x1r < 0 || w == 0 {
            return ;
        }
        let wm1: i64 = (w - 1) as i64;
        if x0r > wm1 {
            return ;
        }

        // Clamp the line to the window coordinates.
        let x0m: usize = if x0r < 0 {
            0
        } else {
            x0r as usize
        };
        let x1m: usize = if x1r > wm1 {
            w - 1
        } else {
            x1r as usize
        };
        let dd: i128 = if x1r > x0r {
            proof {
                lemma_tdiv_bounds((depth1 - depth0) as int, (x1r - x0r) as int);
            }
            div_trunc((depth1 as i128) - (depth0 as i128), (x1r - x0r) as i128)
        } else {
            0
        };

        let ghost pre = *self;
        let mut x: usize = x0m;
        while x <= x1m
            invariant
                self.wf(),
                self.same_dims(pre),
                pre.wf(),
                x0m <= x <= x1m + 1,
                x0m as int == if fx_round(x0 as int) < 0 {
                    0int
                } else {
                    fx_round(x0 as int)
                },
                x1m as int == if fx_round(x1 as int) > w as int - 1 {
                    w as int - 1
                } else {
                    fx_round(x1 as int)
                },
                x1m < w,
                w == pre.width,
                y < pre.height,
                id != u32::MAX,
                0 <= fx_round(x1 as int),
                fx_round(x0 as int) <= w as int - 1,
                -0x40_0000 <= fx_round(x0 as int) <= 0x40_0000,
                x0r as int == fx_round(x0 as int),
                -DEPTH_LIMIT <= depth0 <= DEPTH_LIMIT,
                -DEPTH_LIMIT <= depth1 <= DEPTH_LIMIT,
                -0x4_0000_0000_0000 <= dd <= 0x4_0000_0000_0000,
                dd as int == scan_dd(
                    fx_round(x0 as int),
                    fx_round(x1 as int),
                    depth0 as int,
                    depth1 as int,
                ),
                forall|xx: int, yy: int|
                    0 <= xx < pre.width && 0 <= yy < pre.height ==> #[trigger] self.cell(xx, yy)
                        == if yy == y as int && x0m <= xx < x {
                        scanline_cell(
                            pre.cell(xx, yy),
                            id,
                            pre.width as int,
                            x0 as int,
                            x1 as int,
                            depth0 as int,
                            depth1 as int,
                            xx,
                        )
                    } else {
                        pre.cell(xx, yy)
                    },
            decreases x1m + 1 - x,
        {
            let dx: i128 = ((x as i64) - x0r) as i128;
            proof {
                assert(-0x80_0000 * 0x4_0000_0000_0000 <= dx * dd <= 0x80_0000
                    * 0x4_0000_0000_0000) by (nonlinear_arith)
                    requires
                        -0x80_0000 <= dx <= 0x80_0000,
                        -0x4_0000_0000_0000 <= dd <= 0x4_0000_0000_0000,
                ;
            }
            let cand: i128 = (depth0 as i128) + dx * dd;
            self.draw_pixel(id, x, y, cand);
            x = x + 1;
        }
    }

    /// Draws a triangle with a horizontal bottom edge, i.e. `p1` and `p2` on
    /// one rounded row and `p0` not below it in scan order.
    ///
    /// # Arguments
    /// * `id` - The object id to which the triangle belongs.
    /// * `p0` - The first vertex of the triangle in window coordinates.
    /// * `p1` - The second vertex of the triangle in window coordinates.
    /// * `p2` - The third vertex of the triangle in window coordinates.
    pub fn fill_bottom_flat_triangle(&mut self, id: u32, p0: &Vec3Fx, p1: &Vec3Fx, p2: &Vec3Fx)
        requires
            old(self).wf(),
            id != u32::MAX,
            vertex_ok(*p0),
            vertex_ok(*p1),
            vertex_ok(*p2),
            fx_round(p1.y as int) == fx_round(p2.y as int),
            p0.y <= p1.y,
            p0.y <= p2.y,
        ensures
            final(self).wf(),
            final(self).same_dims(*old(self)),
            forall|xx: int, yy: int|
                0 <= xx < old(self).width && 0 <= yy < old(self).height ==> final(self).cell(
                    xx,
                    yy,
                ) == bottom_flat_cell(
                    old(self).cell(xx, yy),
                    id,
                    *p0,
                    *p1,
                    *p2,
                    old(self).width as int,
                    old(self).height as int,
                    xx,
                    yy,
                ),
    {
        // A degenerate triangle is not drawn.
        if p0.y == p1.y {
            return ;
        }
        let y0 = p0.y;
        let y1 = p2.y;
        // A level edge through the apex leaves every candidate outside the
        // valid range; nothing is drawn.
        if y1 == y0 {
            return ;
        }
        let h = self.height;
        if h == 0 {
            return ;
        }
        let max_y_fx: i64 = ((h - 1) as i64) * FX_ONE;
        // Sort out the extreme cases.
        if y1 < 0 || y0 > max_y_fx {
            return ;
        }
        let y0r = round_fx(y0);
        let y1r = round_fx(y1);
        proof {
            lemma_fx_round_monotone(y0 as int, y1 as int);
            lemma_fx_round_int(0);
            lemma_fx_round_int((h - 1) as int);
            lemma_fx_round_monotone(0, y1 as int);
            lemma_fx_round_monotone(y0 as int, (h - 1) as int * 256);
        }

        // Clamp the rows so that they fit into the current frame.
        let y0m: usize = if y0r < 0 {
            0
        } else {
            y0r as usize
        };
        let y1m: usize = if y1r > (h - 1) as i64 {
            h - 1
        } else {
            y1r as usize
        };
        let den = y1 - y0;

        // Compute the start and the end of the bottom edge.
        let (lx, rx, ld, rd) = if p1.x < p2.x {
            (p1.x, p2.x, p1.z, p2.z)
        } else {
            (p2.x, p1.x, p2.z, p1.z)
        };

        let ghost pre = *self;
        let mut y: usize = y0m;
        while y <= y1m
            invariant
                self.wf(),
                self.same_dims(pre),
                pre.wf(),
                y0m <= y <= y1m + 1,
                y1m < h,
                h == pre.height,
                h >= 1,
                id != u32::MAX,
                vertex_ok(*p0),
                vertex_ok(*p1),
                vertex_ok(*p2),
                p0.y != p1.y,
                y0 == p0.y,
                y1 == p2.y,
                y1 != y0,
                y1 >= 0,
                y0 <= (h - 1) as int * 256,
                p0.y <= p1.y,
                p0.y <= p2.y,
                den == y1 - y0,
                0 < den <= 0x1_0000_0000,
                y0m as int == if fx_round(y0 as int) < 0 {
                    0int
                } else {
                    fx_round(y0 as int)
                },
                y1m as int == if fx_round(y1 as int) > h as int - 1 {
                    h as int - 1
                } else {
                    fx_round(y1 as int)
                },
                (lx, rx, ld, rd) == x_sorted_pair(*p1, *p2),
                forall|xx: int, yy: int|
                    0 <= xx < pre.width && 0 <= yy < pre.height ==> #[trigger] self.cell(xx, yy)
                        == if y0m <= yy < y {
                        bottom_flat_cell(
                            pre.cell(xx, yy),
                            id,
                            *p0,
                            *p1,
                            *p2,
                            pre.width as int,
                            pre.height as int,
                            xx,
                            yy,
                        )
                    } else {
                        pre.cell(xx, yy)
                    },
            decreases y1m + 1 - y,
        {
            let yfx: i64 = (y as i64) * FX_ONE;
            let num = clamp(yfx - y0, 0, den);
            let x0 = interp_fx(p0.x, lx, num, den);
            let x1 = interp_fx(p0.x, rx, num, den);
            let d0 = interp_fx(p0.z, ld, num, den);
            let d1 = interp_fx(p0.z, rd, num, den);
            proof {
                lemma_interp_target_monotone(
                    p0.x as int,
                    lx as int,
                    rx as int,
                    num as int,
                    den as int,
                );
                lemma_interp_between(p0.x as int, lx as int, num as int, den as int);
                lemma_interp_between(p0.x as int, rx as int, num as int, den as int);
                lemma_interp_between(p0.z as int, ld as int, num as int, den as int);
                lemma_interp_between(p0.z as int, rd as int, num as int, den as int);
            }
            let ghost before = *self;
            self.draw_scanline(id, y, x0, x1, d0, d1);
            proof {
                assert forall|xx: int, yy: int|
                    0 <= xx < pre.width && 0 <= yy < pre.height implies #[trigger] self.cell(
                    xx,
                    yy,
                ) == if y0m <= yy < y + 1 {
                    bottom_flat_cell(
                        pre.cell(xx, yy),
                        id,
                        *p0,
                        *p1,
                        *p2,
                        pre.width as int,
                        pre.height as int,
                        xx,
                        yy,
                    )
                } else {
                    pre.cell(xx, yy)
                } by {
                    if yy == y as int {
                        assert(before.cell(xx, yy) == pre.cell(xx, yy));
                    }
                }
            }
            y = y + 1;
        }
    }

    /// Draws a triangle with a horizontal top edge, i.e. `p0` and `p1` on one
    /// rounded row and `p2` not above it in scan order.
    ///
    /// # Arguments
    /// * `id` - The object id to which the triangle belongs.
    /// * `p0` - The first vertex of the triangle in window coordinates.
    /// * `p1` - The second vertex of the triangle in window coordinates.
    /// * `p2` - The third vertex of the triangle in window coordinates.
    pub fn fill_top_flat_triangle(&mut self, id: u32, p0: &Vec3Fx, p1: &Vec3Fx, p2: &Vec3Fx)
        requires
            old(self).wf(),
            id != u32::MAX,
            vertex_ok(*p0),
            vertex_ok(*p1),
            vertex_ok(*p2),
            fx_round(p0.y as int) == fx_round(p1.y as int),
            p0.y <= p2.y,
            p1.y <= p2.y,
        ensures
            final(self).wf(),
            final(self).same_dims(*old(self)),
            forall|xx: int, yy: int|
                0 <= xx < old(self).width && 0 <= yy < old(self).height ==> final(self).cell(
                    xx,
                    yy,
                ) == top_flat_cell(
                    old(self).cell(xx, yy),
                    id,
                    *p0,
                    *p1,
                    *p2,
                    old(self).width as int,
                    old(self).height as int,
                    xx,
                    yy,
                ),
    {
        // A degenerate triangle is not drawn.
        if p2.y == p0.y {
            return ;
        }
        let y0 = p0.y;
        let y1 = p2.y;
        let h = self.height;
        if h == 0 {
            return ;
        }
        let max_y_fx: i64 = ((h - 1) as i64) * FX_ONE;
        // Sort out the extreme cases.
        if y1 < 0 || y0 > max_y_fx {
            return ;
        }
        let y0r = round_fx(y0);
        let y1r = round_fx(y1);
        proof {
            lemma_fx_round_monotone(y0 as int, y1 as int);
            lemma_fx_round_int(0);
            lemma_fx_round_int((h - 1) as int);
            lemma_fx_round_monotone(0, y1 as int);
            lemma_fx_round_monotone(y0 as int, (h - 1) as int * 256);
        }

        // Clamp the rows so that they fit into the current frame.
        let y0m: usize = if y0r < 0 {
            0
        } else {
            y0r as usize
        };
        let y1m: usize = if y1r > (h - 1) as i64 {
            h - 1
        } else {
            y1r as usize
        };
        let den = y1 - y0;

        // Compute the start and the end of the top edge.
        let (lx, rx, ld, rd) = if p0.x < p1.x {
            (p0.x, p1.x, p0.z, p1.z)
        } else {
            (p1.x, p0.x, p1.z, p0.z)
        };

        let ghost pre = *self;
        let mut y: usize = y0m;
        while y <= y1m
            invariant
                self.wf(),
                self.same_dims(pre),
                pre.wf(),
                y0m <= y <= y1m + 1,
                y1m < h,
                h == pre.height,
                h >= 1,
                id != u32::MAX,
                vertex_ok(*p0),
                vertex_ok(*p1),
                vertex_ok(*p2),
                p2.y != p0.y,
                y0 == p0.y,
                y1 == p2.y,
                y1 >= 0,
                y0 <= (h - 1) as int * 256,
                p0.y <= p2.y,
                p1.y <= p2.y,
                den == y1 - y0,
                0 < den <= 0x1_0000_0000,
                y0m as int == if fx_round(y0 as int) < 0 {
                    0int
                } else {
                    fx_round(y0 as int)
                },
                y1m as int == if fx_round(y1 as int) > h as int - 1 {
                    h as int - 1
                } else {
                    fx_round(y1 as int)
                },
                (lx, rx, ld, rd) == x_sorted_pair(*p0, *p1),
                forall|xx: int, yy: int|
                    0 <= xx < pre.width && 0 <= yy < pre.height ==> #[trigger] self.cell(xx, yy)
                        == if y0m <= yy < y {
                        top_flat_cell(
                            pre.cell(xx, yy),
                            id,
                            *p0,
                            *p1,
                            *p2,
                            pre.width as int,
                            pre.height as int,
                            xx,
                            yy,
                        )
                    } else {
                        pre.cell(xx, yy)
                    },
            decreases y1m + 1 - y,
        {
            let yfx: i64 = (y as i64) * FX_ONE;
            let num = clamp(y1 - yfx, 0, den);
            let x0 = interp_fx(p2.x, lx, num, den);
            let x1 = interp_fx(p2.x, rx, num, den);
            let d0 = interp_fx(p2.z, ld, num, den);
            let d1 = interp_fx(p2.z, rd, num, den);
            proof {
                lemma_interp_target_monotone(
                    p2.x as int,
                    lx as int,
                    rx as int,
                    num as int,
                    den as int,
                );
                lemma_interp_between(p2.x as int, lx as int, num as int, den as int);
                lemma_interp_between(p2.x as int, rx as int, num as int, den as int);
                lemma_interp_between(p2.z as int, ld as int, num as int, den as int);
                lemma_interp_between(p2.z as int, rd as int, num as int, den as int);
            }
            let ghost before = *self;
            self.draw_scanline(id, y, x0, x1, d0, d1);
            proof {
                assert forall|xx: int, yy: int|
                    0 <= xx < pre.width && 0 <= yy < pre.height implies #[trigger] self.cell(
                    xx,
                    yy,
                ) == if y0m <= yy < y + 1 {
                    top_flat_cell(
                        pre.cell(xx, yy),
                        id,
                        *p0,
                        *p1,
                        *p2,
                        pre.width as int,
                        pre.height as int,
                        xx,
                        yy,
                    )
                } else {
                    pre.cell(xx, yy)
                } by {
                    if yy == y as int {
                        assert(before.cell(xx, yy) == pre.cell(xx, yy));
                    }
                }
            }
            y = y + 1;
        }
    }

    /// Rasterizes the given triangle with the assumption that the points are
    /// sorted in ascending order with respect to their y-coordinates.
    ///
    /// # Arguments
    /// * `id` - The object id to which the triangle belongs.
    /// * `p0` - The first vertex of the triangle in window coordinates.
    /// * `p1` - The second vertex of the triangle in window coordinates.
    /// * `p2` - The third vertex of the triangle in window coordinates.
    fn fill_triangle(&mut self, id: u32, p0: &Vec3Fx, p1: &Vec3Fx, p2: &Vec3Fx)
        requires
            old(self).wf(),
            id != u32::MAX,
            vertex_ok(*p0),
            vertex_ok(*p1),
            vertex_ok(*p2),
            p0.y <= p1.y,
            p1.y <= p2.y,
        ensures
            final(self).wf(),
            final(self).same_dims(*old(self)),
            forall|xx: int, yy: int|
                0 <= xx < old(self).width && 0 <= yy < old(self).height ==> final(self).cell(
                    xx,
                    yy,
                ) == fill_triangle_cell(
                    old(self).cell(xx, yy),
                    id,
                    *p0,
                    *p1,
                    *p2,
                    old(self).width as int,
                    old(self).height as int,
                    xx,
                    yy,
                ),
    {
        let r0 = round_fx(p0.y);
        let r1 = round_fx(p1.y);
        let r2 = round_fx(p2.y);
        proof {
            lemma_fx_round_monotone(p0.y as int, p1.y as int);
            lemma_fx_round_monotone(p1.y as int, p2.y as int);
        }

        if r0 == r2 {
            // The special case where the triangle degenerates to a line.
            if r0 >= 0 && r0 < self.height as i64 {
                let y = r0 as usize;
                let (x0, x1, d0, d1) = if p0.x <= p2.x {
                    (p0.x, p2.x, p0.z, p2.z)
                } else {
                    (p2.x, p0.x, p2.z, p0.z)
                };
                self.draw_scanline(id, y, x0, x1, d0, d1);
            }
        } else if r0 == r1 {
            // The top-flat case.
            self.fill_top_flat_triangle(id, p0, p1, p2);
        } else if r1 == r2 {
            // The bottom-flat case.
            self.fill_bottom_flat_triangle(id, p0, p1, p2);
        } else {
            // The y-coordinates are in strictly ascending rounded order, so
            // the triangle splits at the middle height into a bottom-flat and
            // a top-flat part around a synthetic vertex.
            let num = p1.y - p0.y;
            let den = p2.y - p0.y;
            let x3 = interp_fx(p0.x, p2.x, num, den);
            let z3 = interp_fx(p0.z, p2.z, num, den);
            proof {
                lemma_interp_between(p0.x as int, p2.x as int, num as int, den as int);
                lemma_interp_between(p0.z as int, p2.z as int, num as int, den as int);
            }
            let p3 = Vec3Fx { x: x3, y: p1.y, z: z3 };
            self.fill_bottom_flat_triangle(id, p0, p1, &p3);
            self.fill_top_flat_triangle(id, p1, &p3, p2);
            proof {
                assert(p3 == split_vertex(*p0, *p1, *p2));
            }
        }
    }

    /// Rasterizes the triangle given in its window coordinates, under the
    /// depth-test write discipline: within one call, a cell changes only by
    /// taking the triangle's id together with a strictly nearer depth, so
    /// over any sequence of calls the depths ever written to one pixel form
    /// a strictly decreasing sequence.
    ///
    /// # Arguments
    /// * `id` - The object id to which the triangle belongs.
    /// * `p0` - The first vertex of the triangle in window coordinates.
    /// * `p1` - The second vertex of the triangle in window coordinates.
    /// * `p2` - The third vertex of the triangle in window coordinates.
    pub fn rasterize(&mut self, id: u32, p0: &Vec3Fx, p1: &Vec3Fx, p2: &Vec3Fx)
        requires
            old(self).wf(),
            id != u32::MAX,
            vertex_ok(*p0),
            vertex_ok(*p1),
            vertex_ok(*p2),
        ensures
            final(self).wf(),
            final(self).same_dims(*old(self)),
            forall|xx: int, yy: int|
                0 <= xx < old(self).width && 0 <= yy < old(self).height ==> final(self).cell(
                    xx,
                    yy,
                ) == fill_triangle_cell(
                    old(self).cell(xx, yy),
                    id,
                    sort3_by_y(*p0, *p1, *p2).0,
                    sort3_by_y(*p0, *p1, *p2).1,
                    sort3_by_y(*p0, *p1, *p2).2,
                    old(self).width as int,
                    old(self).height as int,
                    xx,
                    yy,
                ),
            forall|xx: int, yy: int|
                0 <= xx < old(self).width && 0 <= yy < old(self).height ==> (#[trigger] final(self).cell(xx, yy)).0 <= old(self).cell(xx, yy).0,
            forall|xx: int, yy: int|
                0 <= xx < old(self).width && 0 <= yy < old(self).height && final(self).cell(xx, yy)
                    != old(self).cell(xx, yy) ==> (#[trigger] final(self).cell(xx, yy)).0 < old(self).cell(xx, yy).0
                    && final(self).cell(xx, yy).1 == Some(id),
    {
        let ghost pre = *self;
        // Sort the vertices in ascending order with respect to their
        // y-coordinates.
        if p0.y <= p1.y && p0.y <= p2.y {
            if p1.y <= p2.y {
                self.fill_triangle(id, p0, p1, p2);
            } else {
                self.fill_triangle(id, p0, p2, p1);
            }
        } else if p1.y <= p0.y && p1.y <= p2.y {
            if p0.y <= p2.y {
                self.fill_triangle(id, p1, p0, p2);
            } else {
                self.fill_triangle(id, p1, p2, p0);
            }
        } else {
            if p0.y <= p1.y {
                self.fill_triangle(id, p2, p0, p1);
            } else {
                self.fill_triangle(id, p2, p1, p0);
            }
        }
        proof {
            let s = sort3_by_y(*p0, *p1, *p2);
            assert forall|xx: int, yy: int|
                0 <= xx < pre.width && 0 <= yy < pre.height implies (#[trigger] self.cell(
                xx,
                yy,
            )).0 <= pre.cell(xx, yy).0 && (self.cell(xx, yy) != pre.cell(xx, yy) ==> self.cell(
                xx,
                yy,
            ).0 < pre.cell(xx, yy).0 && self.cell(xx, yy).1 == Some(id)) by {
                lemma_fill_triangle_cell_discipline(
                    pre.cell(xx, yy),
                    id,
                    s.0,
                    s.1,
                    s.2,
                    pre.width as int,
                    pre.height as int,
                    xx,
                    yy,
                );
            }
        }
    }

    /// Returns the rasterizer's current state as a frame: the ids as they
    /// stand, and the depth words taken verbatim from the depth buffer.
    pub fn get_frame(&self) -> (r: Frame)
        requires
            self.wf(),
        ensures
            r.wf(),
            r.width == self.width,
            r.height == self.height,
            r.id_buffer@ == self.id_buffer@,
            r.depth_buffer matches Some(d) && d@ == self.depth_buffer@,
    {
        let count = self.id_buffer.len();
        let mut ids: Vec<Option<u32>> = Vec::new();
        let mut i: usize = 0;
        while i < count
            invariant
                i <= count,
                count == self.id_buffer@.len(),
                ids@.len() == i,
                forall|k: int| 0 <= k < i ==> (#[trigger] ids@[k]) == self.id_buffer@[k],
            decreases count - i,
        {
            ids.push(self.id_buffer[i]);
            i = i + 1;
        }
        let mut depths: Vec<u32> = Vec::new();
        let mut i: usize = 0;
        while i < count
            invariant
                i <= count,
                count == self.depth_buffer@.len(),
                count == self.id_buffer@.len(),
                depths@.len() == i,
                forall|k: int| 0 <= k < i ==> (#[trigger] depths@[k]) == self.depth_buffer@[k],
            decreases count - i,
        {
            depths.push(self.depth_buffer[i]);
            i = i + 1;
        }
        proof {
            assert(ids@ =~= self.id_buffer@);
            assert(depths@ =~= self.depth_buffer@);
        }
        Frame {
            width: self.width,
            height: self.height,
            id_buffer: ids,
            depth_buffer: Some(depths),
        }
    }

    /// Every cell other than the one named agrees between a state and another
    /// state whose buffers differ at most at that cell's index.
    proof fn lemma_untouched_cells(self, pre: Self, x: int, y: int)
        requires
            pre.wf(),
            self.width == pre.width,
            self.height == pre.height,
            self.depth_buffer@.len() == pre.depth_buffer@.len(),
            self.id_buffer@.len() == pre.id_buffer@.len(),
            0 <= x < pre.width,
            0 <= y < pre.height,
            forall|i: int|
                0 <= i < pre.depth_buffer@.len() && i != y * (pre.width as int) + x
                    ==> (#[trigger] self.depth_buffer@[i]) == pre.depth_buffer@[i],
            forall|i: int|
                0 <= i < pre.id_buffer@.len() && i != y * (pre.width as int) + x
                    ==> (#[trigger] self.id_buffer@[i]) == pre.id_buffer@[i],
        ensures
            forall|xx: int, yy: int|
                0 <= xx < pre.width && 0 <= yy < pre.height && !(xx == x && yy == y)
                    ==> (#[trigger] self.cell(xx, yy)) == pre.cell(xx, yy),
    {
        assert forall|xx: int, yy: int|
            0 <= xx < pre.width && 0 <= yy < pre.height && !(xx == x && yy == y) implies (
        #[trigger] self.cell(xx, yy)) == pre.cell(xx, yy) by {
            lemma_row_major_index(pre.width as int, pre.height as int, xx, yy);
            lemma_row_major_distinct(pre.width as int, xx, yy, x, y);
        }
    }
}

} // verus!
