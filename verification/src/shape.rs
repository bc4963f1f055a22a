//! Shapes and their signed-distance queries.
//!
//! A shape is a tree: circles, half-planes, capsules, rectangles and
//! triangles at the leaves, boolean combinators (union, intersection,
//! subtraction) at the inner nodes. Querying a shape at a point yields a
//! [`SdfResult`]: a signed distance (negative inside, positive outside,
//! a lower bound on the true distance to the nearest boundary) together
//! with the emissive intensity of the surface that supplied the distance.
//!
//! All coordinates and intensities are fixed-point: `SCALE` units per
//! pixel and per unit of intensity.
use vstd::prelude::*;
use crate::fixed::{
    COORD_MAX, EMISSIVE_MAX, QUERY_MAX, SCALE, SD_MAX, dist, dist_spec, div_scale,
    div_scale_spec, floor_sqrt, isqrt, lemma_floor_sqrt, mul_frac, mul_frac_spec,
};

verus! {

/// The value of one distance query: the signed distance from the query
/// point to the shape, and the emissive intensity of the surface that
/// the distance belongs to.
#[derive(Clone, Copy, Debug, PartialEq, Eq, Structural)]
pub struct SdfResult {
    /// Signed distance in fixed-point units: negative inside the shape,
    /// positive outside, never larger in magnitude than `SD_MAX` for
    /// admissible shapes and query points.
    pub sd: i64,
    /// Emissive intensity of the selected surface, in `[0, EMISSIVE_MAX]`.
    pub emissive: i64,
}

/// A circle, by centre, radius and emissive intensity.
#[derive(Clone, Copy, Debug)]
pub struct Circle {
    pub ox: i64,
    pub oy: i64,
    pub r: i64,
    pub emissive: i64,
}

impl Circle {
    pub open spec fn wf(self) -> bool {
        &&& -COORD_MAX <= self.ox <= COORD_MAX
        &&& -COORD_MAX <= self.oy <= COORD_MAX
        &&& 0 <= self.r <= COORD_MAX
        &&& 0 <= self.emissive <= EMISSIVE_MAX
    }

    /// Distance from `(x, y)` to the centre, minus the radius.
    pub open spec fn sd_spec(self, x: int, y: int) -> int {
        dist_spec(x, y, self.ox as int, self.oy as int) - self.r
    }

    pub fn new(ox: i64, oy: i64, r: i64, emissive: i64) -> (c: Circle)
        requires
            -COORD_MAX <= ox <= COORD_MAX,
            -COORD_MAX <= oy <= COORD_MAX,
            0 <= r <= COORD_MAX,
            0 <= emissive <= EMISSIVE_MAX,
        ensures
            c == (Circle { ox, oy, r, emissive }),
            c.wf(),
    {
        Circle { ox, oy, r, emissive }
    }

    pub fn sdf(&self, x: i64, y: i64) -> (res: SdfResult)
        requires
            self.wf(),
            -QUERY_MAX <= x <= QUERY_MAX,
            -QUERY_MAX <= y <= QUERY_MAX,
        ensures
            res.sd == self.sd_spec(x as int, y as int),
            res.emissive == self.emissive,
            -SD_MAX <= res.sd <= SD_MAX,
    {
        let d: i64 = dist(x, y, self.ox, self.oy);
        SdfResult { sd: d - self.r, emissive: self.emissive }
    }
}

/// A half-plane, by a point on its boundary and an outward normal.
///
/// The caller is expected to supply a normal of (fixed-point) unit
/// length, `nx * nx + ny * ny` close to `SCALE * SCALE`; with any other
/// scaling the reported distance is scaled by the same factor.
#[derive(Clone, Copy, Debug)]
pub struct Plane {
    pub px: i64,
    pub py: i64,
    pub nx: i64,
    pub ny: i64,
    pub emissive: i64,
}

impl Plane {
    pub open spec fn wf(self) -> bool {
        &&& -COORD_MAX <= self.px <= COORD_MAX
        &&& -COORD_MAX <= self.py <= COORD_MAX
        &&& -SCALE <= self.nx <= SCALE
        &&& -SCALE <= self.ny <= SCALE
        &&& 0 <= self.emissive <= EMISSIVE_MAX
    }

    /// The projection of `(x, y) - p` onto the normal, scaled back down.
    pub open spec fn sd_spec(self, x: int, y: int) -> int {
        div_scale_spec((x - self.px) * self.nx + (y - self.py) * self.ny)
    }

    pub fn new(px: i64, py: i64, nx: i64, ny: i64, emissive: i64) -> (p: Plane)
        requires
            -COORD_MAX <= px <= COORD_MAX,
            -COORD_MAX <= py <= COORD_MAX,
            -SCALE <= nx <= SCALE,
            -SCALE <= ny <= SCALE,
            0 <= emissive <= EMISSIVE_MAX,
        ensures
            p == (Plane { px, py, nx, ny, emissive }),
            p.wf(),
    {
        Plane { px, py, nx, ny, emissive }
    }

    pub fn sdf(&self, x: i64, y: i64) -> (res: SdfResult)
        requires
            self.wf(),
            -QUERY_MAX <= x <= QUERY_MAX,
            -QUERY_MAX <= y <= QUERY_MAX,
        ensures
            res.sd == self.sd_spec(x as int, y as int),
            res.emissive == self.emissive,
            -SD_MAX <= res.sd <= SD_MAX,
    {
        let vx: i64 = x - self.px;
        let vy: i64 = y - self.py;
        proof {
            assert(-0x2_8000_0000 <= vx * self.nx <= 0x2_8000_0000)
                by (nonlinear_arith)
                requires
                    -0xA0_0000 <= vx <= 0xA0_0000,
                    -1024 <= self.nx <= 1024,
            ;
            assert(-0x2_8000_0000 <= vy * self.ny <= 0x2_8000_0000)
                by (nonlinear_arith)
                requires
                    -0xA0_0000 <= vy <= 0xA0_0000,
                    -1024 <= self.ny <= 1024,
            ;
        }
        let dot: i64 = vx * self.nx + vy * self.ny;
        let sd: i64 = div_scale(dot);
        SdfResult { sd, emissive: self.emissive }
    }
}

/// Fixed-point distance from `(x, y)` to the segment from `(ax, ay)` to
/// `(bx, by)`: the query is projected onto the segment, the projection
/// parameter `t` (scaled by `SCALE`) is clamped to `[0, SCALE]`, and the
/// distance to the clamped point is taken. A zero-length segment acts as
/// a single point.
pub open spec fn seg_dist_spec(x: int, y: int, ax: int, ay: int, bx: int, by: int) -> int {
    let vx = x - ax;
    let vy = y - ay;
    let ux = bx - ax;
    let uy = by - ay;
    let uu = ux * ux + uy * uy;
    let dot = vx * ux + vy * uy;
    let t = if uu == 0 || dot <= 0 {
        0
    } else if dot >= uu {
        SCALE as int
    } else {
        (dot * (SCALE as int)) / uu
    };
    let wx = vx - mul_frac_spec(ux, t);
    let wy = vy - mul_frac_spec(uy, t);
    dist_spec(wx, wy, 0, 0)
}

/// Distance from a query point to a segment, rounded down to units.
pub fn segment_dist(x: i64, y: i64, ax: i64, ay: i64, bx: i64, by: i64) -> (r: i64)
    requires
        -QUERY_MAX <= x <= QUERY_MAX,
        -QUERY_MAX <= y <= QUERY_MAX,
        -COORD_MAX <= ax <= COORD_MAX,
        -COORD_MAX <= ay <= COORD_MAX,
        -COORD_MAX <= bx <= COORD_MAX,
        -COORD_MAX <= by <= COORD_MAX,
    ensures
        r == seg_dist_spec(x as int, y as int, ax as int, ay as int, bx as int, by as int),
        0 <= r < 4 * 0x100_0000,
{
    let vx: i64 = x - ax;
    let vy: i64 = y - ay;
    let ux: i64 = bx - ax;
    let uy: i64 = by - ay;
    proof {
        assert(0 <= ux * ux <= 0x40_0000 * 0x40_0000 && 0 <= uy * uy <= 0x40_0000 * 0x40_0000)
            by (nonlinear_arith)
            requires
                -0x40_0000 <= ux <= 0x40_0000,
                -0x40_0000 <= uy <= 0x40_0000,
        ;
        assert(-0xA0_0000 * 0x40_0000 <= vx * ux <= 0xA0_0000 * 0x40_0000)
            by (nonlinear_arith)
            requires
                -0xA0_0000 <= vx <= 0xA0_0000,
                -0x40_0000 <= ux <= 0x40_0000,
        ;
        assert(-0xA0_0000 * 0x40_0000 <= vy * uy <= 0xA0_0000 * 0x40_0000)
            by (nonlinear_arith)
            requires
                -0xA0_0000 <= vy <= 0xA0_0000,
                -0x40_0000 <= uy <= 0x40_0000,
        ;
    }
    let uu: i64 = ux * ux + uy * uy;
    let dot: i64 = vx * ux + vy * uy;
    let t: i64 = if uu == 0 || dot <= 0 {
        0
    } else if dot >= uu {
        SCALE
    } else {
        let q: u64 = ((dot as u64) * 1024) / (uu as u64);
        proof {
            let di = dot as int;
            let ui = uu as int;
            vstd::arithmetic::div_mod::lemma_div_pos_is_pos(di * 1024, ui);
            assert(di * 1024 < ui * 1024) by (nonlinear_arith)
                requires
                    0 < di < ui,
            ;
            vstd::arithmetic::div_mod::lemma_multiply_divide_lt(di * 1024, ui, 1024);
        }
        q as i64
    };
    let wx: i64 = vx - mul_frac(ux, t);
    let wy: i64 = vy - mul_frac(uy, t);
    dist(wx, wy, 0, 0)
}

/// A capsule: all points within `r` of the segment from `a` to `b`.
#[derive(Clone, Copy, Debug)]
pub struct Capsule {
    pub ax: i64,
    pub ay: i64,
    pub bx: i64,
    pub by: i64,
    pub r: i64,
    pub emissive: i64,
}

impl Capsule {
    pub open spec fn wf(self) -> bool {
        &&& -COORD_MAX <= self.ax <= COORD_MAX
        &&& -COORD_MAX <= self.ay <= COORD_MAX
        &&& -COORD_MAX <= self.bx <= COORD_MAX
        &&& -COORD_MAX <= self.by <= COORD_MAX
        &&& 0 <= self.r <= COORD_MAX
        &&& 0 <= self.emissive <= EMISSIVE_MAX
    }

    /// Distance to the spine segment, minus the radius.
    pub open spec fn sd_spec(self, x: int, y: int) -> int {
        seg_dist_spec(x, y, self.ax as int, self.ay as int, self.bx as int, self.by as int)
            - self.r
    }

    pub fn new(ax: i64, ay: i64, bx: i64, by: i64, r: i64, emissive: i64) -> (c: Capsule)
        requires
            -COORD_MAX <= ax <= COORD_MAX,
            -COORD_MAX <= ay <= COORD_MAX,
            -COORD_MAX <= bx <= COORD_MAX,
            -COORD_MAX <= by <= COORD_MAX,
            0 <= r <= COORD_MAX,
            0 <= emissive <= EMISSIVE_MAX,
        ensures
            c == (Capsule { ax, ay, bx, by, r, emissive }),
            c.wf(),
    {
        Capsule { ax, ay, bx, by, r, emissive }
    }

    pub fn sdf(&self, x: i64, y: i64) -> (res: SdfResult)
        requires
            self.wf(),
            -QUERY_MAX <= x <= QUERY_MAX,
            -QUERY_MAX <= y <= QUERY_MAX,
        ensures
            res.sd == self.sd_spec(x as int, y as int),
            res.emissive == self.emissive,
            -SD_MAX <= res.sd <= SD_MAX,
    {
        let seg: i64 = segment_dist(x, y, self.ax, self.ay, self.bx, self.by);
        SdfResult { sd: seg - self.r, emissive: self.emissive }
    }
}

/// A rectangle, by centre, rotation and half-extents.
///
/// The rotation is carried as the fixed-point cosine and sine of the
/// rotation angle (each scaled by `SCALE`), which is all the distance
/// formula reads of the angle.
#[derive(Clone, Copy, Debug)]
pub struct Rect {
    pub cx: i64,
    pub cy: i64,
    pub cos_t: i64,
    pub sin_t: i64,
    pub sx: i64,
    pub sy: i64,
    pub emissive: i64,
}

impl Rect {
    pub open spec fn wf(self) -> bool {
        &&& -COORD_MAX <= self.cx <= COORD_MAX
        &&& -COORD_MAX <= self.cy <= COORD_MAX
        &&& -SCALE <= self.cos_t <= SCALE
        &&& -SCALE <= self.sin_t <= SCALE
        &&& 0 <= self.sx <= COORD_MAX
        &&& 0 <= self.sy <= COORD_MAX
        &&& 0 <= self.emissive <= EMISSIVE_MAX
    }

    /// The query is rotated into the rectangle's local frame; `dx` and
    /// `dy` are the per-axis excesses over the half-extents, and the
    /// distance is `min(max(dx, dy), 0)` plus the length of the
    /// positive parts — the usual exact rectangle distance.
    pub open spec fn sd_spec(self, x: int, y: int) -> int {
        let rx = x - self.cx;
        let ry = y - self.cy;
        let lx = div_scale_spec(rx * self.cos_t + ry * self.sin_t);
        let ly = div_scale_spec(ry * self.cos_t - rx * self.sin_t);
        let dx = (if lx >= 0 { lx } else { -lx }) - self.sx;
        let dy = (if ly >= 0 { ly } else { -ly }) - self.sy;
        let corner = if dx >= 0 { dx } else { 0 };
        let corner_y = if dy >= 0 { dy } else { 0 };
        let inner = if dx >= dy { dx } else { dy };
        (if inner <= 0 { inner } else { 0 }) + floor_sqrt(corner * corner + corner_y * corner_y)
    }

    pub fn new(cx: i64, cy: i64, cos_t: i64, sin_t: i64, sx: i64, sy: i64, emissive: i64)
        -> (rc: Rect)
        requires
            -COORD_MAX <= cx <= COORD_MAX,
            -COORD_MAX <= cy <= COORD_MAX,
            -SCALE <= cos_t <= SCALE,
            -SCALE <= sin_t <= SCALE,
            0 <= sx <= COORD_MAX,
            0 <= sy <= COORD_MAX,
            0 <= emissive <= EMISSIVE_MAX,
        ensures
            rc == (Rect { cx, cy, cos_t, sin_t, sx, sy, emissive }),
            rc.wf(),
    {
        Rect { cx, cy, cos_t, sin_t, sx, sy, emissive }
    }

    pub fn sdf(&self, x: i64, y: i64) -> (res: SdfResult)
        requires
            self.wf(),
            -QUERY_MAX <= x <= QUERY_MAX,
            -QUERY_MAX <= y <= QUERY_MAX,
        ensures
            res.sd == self.sd_spec(x as int, y as int),
            res.emissive == self.emissive,
            -SD_MAX <= res.sd <= SD_MAX,
    {
        let rx: i64 = x - self.cx;
        let ry: i64 = y - self.cy;
        proof {
            assert(-0x2_8000_0000 <= rx * self.cos_t <= 0x2_8000_0000
                && -0x2_8000_0000 <= rx * self.sin_t <= 0x2_8000_0000)
                by (nonlinear_arith)
                requires
                    -0xA0_0000 <= rx <= 0xA0_0000,
                    -1024 <= self.cos_t <= 1024,
                    -1024 <= self.sin_t <= 1024,
            ;
            assert(-0x2_8000_0000 <= ry * self.cos_t <= 0x2_8000_0000
                && -0x2_8000_0000 <= ry * self.sin_t <= 0x2_8000_0000)
                by (nonlinear_arith)
                requires
                    -0xA0_0000 <= ry <= 0xA0_0000,
                    -1024 <= self.cos_t <= 1024,
                    -1024 <= self.sin_t <= 1024,
            ;
        }
        let lx: i64 = div_scale(rx * self.cos_t + ry * self.sin_t);
        let ly: i64 = div_scale(ry * self.cos_t - rx * self.sin_t);
        let dx: i64 = (if lx >= 0 { lx } else { -lx }) - self.sx;
        let dy: i64 = (if ly >= 0 { ly } else { -ly }) - self.sy;
        let cx2: i64 = if dx >= 0 { dx } else { 0 };
        let cy2: i64 = if dy >= 0 { dy } else { 0 };
        let inner: i64 = if dx >= dy { dx } else { dy };
        let inner0: i64 = if inner <= 0 { inner } else { 0 };
        proof {
            assert(0 <= cx2 * cx2 <= 0x140_0000 * 0x140_0000
                && 0 <= cy2 * cy2 <= 0x140_0000 * 0x140_0000)
                by (nonlinear_arith)
                requires
                    0 <= cx2 <= 0x140_0000,
                    0 <= cy2 <= 0x140_0000,
            ;
        }
        let corner2: u64 = (cx2 * cx2) as u64 + (cy2 * cy2) as u64;
        let corner: u64 = isqrt(corner2);
        proof {
            lemma_floor_sqrt(corner2 as int);
            assert(corner < 0x400_0000) by (nonlinear_arith)
                requires
                    corner >= 0,
                    corner * corner <= corner2,
                    corner2 <= 2 * ((0x140_0000 as int) * 0x140_0000),
            ;
        }
        SdfResult { sd: inner0 + (corner as i64), emissive: self.emissive }
    }
}

/// A triangle, by its three vertices.
#[derive(Clone, Copy, Debug)]
pub struct Triangle {
    pub ax: i64,
    pub ay: i64,
    pub bx: i64,
    pub by: i64,
    pub cx: i64,
    pub cy: i64,
    pub emissive: i64,
}

impl Triangle {
    pub open spec fn wf(self) -> bool {
        &&& -COORD_MAX <= self.ax <= COORD_MAX
        &&& -COORD_MAX <= self.ay <= COORD_MAX
        &&& -COORD_MAX <= self.bx <= COORD_MAX
        &&& -COORD_MAX <= self.by <= COORD_MAX
        &&& -COORD_MAX <= self.cx <= COORD_MAX
        &&& -COORD_MAX <= self.cy <= COORD_MAX
        &&& 0 <= self.emissive <= EMISSIVE_MAX
    }

    /// `(x, y)` lies strictly on the counter-clockwise side of all
    /// three edges.
    pub open spec fn inside_spec(self, x: int, y: int) -> bool {
        &&& (self.bx - self.ax) * (y - self.ay) > (self.by - self.ay) * (x - self.ax)
        &&& (self.cx - self.bx) * (y - self.by) > (self.cy - self.by) * (x - self.bx)
        &&& (self.ax - self.cx) * (y - self.cy) > (self.ay - self.cy) * (x - self.cx)
    }

    /// The least of the three distances to the edges, negated when the
    /// query point is inside the triangle.
    pub open spec fn sd_spec(self, x: int, y: int) -> int {
        let d1 = seg_dist_spec(x, y, self.ax as int, self.ay as int, self.bx as int,
            self.by as int);
        let d2 = seg_dist_spec(x, y, self.bx as int, self.by as int, self.cx as int,
            self.cy as int);
        let d3 = seg_dist_spec(x, y, self.cx as int, self.cy as int, self.ax as int,
            self.ay as int);
        let m12 = if d1 <= d2 { d1 } else { d2 };
        let m = if m12 <= d3 { m12 } else { d3 };
        if self.inside_spec(x, y) { -m } else { m }
    }

    pub fn new(ax: i64, ay: i64, bx: i64, by: i64, cx: i64, cy: i64, emissive: i64)
        -> (t: Triangle)
        requires
            -COORD_MAX <= ax <= COORD_MAX,
            -COORD_MAX <= ay <= COORD_MAX,
            -COORD_MAX <= bx <= COORD_MAX,
            -COORD_MAX <= by <= COORD_MAX,
            -COORD_MAX <= cx <= COORD_MAX,
            -COORD_MAX <= cy <= COORD_MAX,
            0 <= emissive <= EMISSIVE_MAX,
        ensures
            t == (Triangle { ax, ay, bx, by, cx, cy, emissive }),
            t.wf(),
    {
        Triangle { ax, ay, bx, by, cx, cy, emissive }
    }

    /// Distance from `(x, y)` to one edge; the segment-distance helper
    /// under its traditional name.
    pub fn segment_sdf(x: i64, y: i64, ax: i64, ay: i64, bx: i64, by: i64) -> (r: i64)
        requires
            -QUERY_MAX <= x <= QUERY_MAX,
            -QUERY_MAX <= y <= QUERY_MAX,
            -COORD_MAX <= ax <= COORD_MAX,
            -COORD_MAX <= ay <= COORD_MAX,
            -COORD_MAX <= bx <= COORD_MAX,
            -COORD_MAX <= by <= COORD_MAX,
        ensures
            r == seg_dist_spec(x as int, y as int, ax as int, ay as int, bx as int, by as int),
            0 <= r < 4 * 0x100_0000,
    {
        segment_dist(x, y, ax, ay, bx, by)
    }

    pub fn sdf(&self, x: i64, y: i64) -> (res: SdfResult)
        requires
            self.wf(),
            -QUERY_MAX <= x <= QUERY_MAX,
            -QUERY_MAX <= y <= QUERY_MAX,
        ensures
            res.sd == self.sd_spec(x as int, y as int),
            res.emissive == self.emissive,
            -SD_MAX <= res.sd <= SD_MAX,
    {
        let d1: i64 = Triangle::segment_sdf(x, y, self.ax, self.ay, self.bx, self.by);
        let d2: i64 = Triangle::segment_sdf(x, y, self.bx, self.by, self.cx, self.cy);
        let d3: i64 = Triangle::segment_sdf(x, y, self.cx, self.cy, self.ax, self.ay);
        let m12: i64 = if d1 <= d2 { d1 } else { d2 };
        let mut m: i64 = if m12 <= d3 { m12 } else { d3 };
        proof {
            assert(-0x40_0000 * 0xA0_0000 <= (self.bx - self.ax) * (y - self.ay)
                <= 0x40_0000 * 0xA0_0000)
                by (nonlinear_arith)
                requires
                    -0x40_0000 <= self.bx - self.ax <= 0x40_0000,
                    -0xA0_0000 <= y - self.ay <= 0xA0_0000,
            ;
            assert(-0x40_0000 * 0xA0_0000 <= (self.by - self.ay) * (x - self.ax)
                <= 0x40_0000 * 0xA0_0000)
                by (nonlinear_arith)
                requires
                    -0x40_0000 <= self.by - self.ay <= 0x40_0000,
                    -0xA0_0000 <= x - self.ax <= 0xA0_0000,
            ;
            assert(-0x40_0000 * 0xA0_0000 <= (self.cx - self.bx) * (y - self.by)
                <= 0x40_0000 * 0xA0_0000)
                by (nonlinear_arith)
                requires
                    -0x40_0000 <= self.cx - self.bx <= 0x40_0000,
                    -0xA0_0000 <= y - self.by <= 0xA0_0000,
            ;
            assert(-0x40_0000 * 0xA0_0000 <= (self.cy - self.by) * (x - self.bx)
                <= 0x40_0000 * 0xA0_0000)
                by (nonlinear_arith)
                requires
                    -0x40_0000 <= self.cy - self.by <= 0x40_0000,
                    -0xA0_0000 <= x - self.bx <= 0xA0_0000,
            ;
            assert(-0x40_0000 * 0xA0_0000 <= (self.ax - self.cx) * (y - self.cy)
                <= 0x40_0000 * 0xA0_0000)
                by (nonlinear_arith)
                requires
                    -0x40_0000 <= self.ax - self.cx <= 0x40_0000,
                    -0xA0_0000 <= y - self.cy <= 0xA0_0000,
            ;
            assert(-0x40_0000 * 0xA0_0000 <= (self.ay - self.cy) * (x - self.cx)
                <= 0x40_0000 * 0xA0_0000)
                by (nonlinear_arith)
                requires
                    -0x40_0000 <= self.ay - self.cy <= 0x40_0000,
                    -0xA0_0000 <= x - self.cx <= 0xA0_0000,
            ;
        }
        if (self.bx - self.ax) * (y - self.ay) > (self.by - self.ay) * (x - self.ax)
            && (self.cx - self.bx) * (y - self.by) > (self.cy - self.by) * (x - self.bx)
            && (self.ax - self.cx) * (y - self.cy) > (self.ay - self.cy) * (x - self.cx)
        {
            m = -m;
        }
        SdfResult { sd: m, emissive: self.emissive }
    }
}

/// Union of two owned shapes.
#[derive(Debug)]
pub struct UnionShape {
    pub shape1: Box<Shape>,
    pub shape2: Box<Shape>,
}

/// Intersection of two owned shapes.
#[derive(Debug)]
pub struct IntersectShape {
    pub shape1: Box<Shape>,
    pub shape2: Box<Shape>,
}

/// The first shape with the second carved out of it.
#[derive(Debug)]
pub struct SubtractShape {
    pub shape1: Box<Shape>,
    pub shape2: Box<Shape>,
}

/// A shape tree: a primitive, or a boolean combination of two subtrees.
#[derive(Debug)]
pub enum Shape {
    Circle(Circle),
    Plane(Plane),
    Capsule(Capsule),
    Rect(Rect),
    Triangle(Triangle),
    Union(UnionShape),
    Intersect(IntersectShape),
    Subtract(SubtractShape),
}

impl Shape {
    pub open spec fn wf(self) -> bool
        decreases self,
    {
        match self {
            Shape::Circle(c) => c.wf(),
            Shape::Plane(p) => p.wf(),
            Shape::Capsule(c) => c.wf(),
            Shape::Rect(r) => r.wf(),
            Shape::Triangle(t) => t.wf(),
            Shape::Union(u) => u.shape1.wf() && u.shape2.wf(),
            Shape::Intersect(i) => i.shape1.wf() && i.shape2.wf(),
            Shape::Subtract(s) => s.shape1.wf() && s.shape2.wf(),
        }
    }

    /// The signed distance of the tree at `(x, y)`: union takes the
    /// smaller child distance, intersection the larger, and subtraction
    /// the larger of the first child's distance and the negated second.
    pub open spec fn sd_at(self, x: int, y: int) -> int
        decreases self,
    {
        match self {
            Shape::Circle(c) => c.sd_spec(x, y),
            Shape::Plane(p) => p.sd_spec(x, y),
            Shape::Capsule(c) => c.sd_spec(x, y),
            Shape::Rect(r) => r.sd_spec(x, y),
            Shape::Triangle(t) => t.sd_spec(x, y),
            Shape::Union(u) => {
                let d1 = u.shape1.sd_at(x, y);
                let d2 = u.shape2.sd_at(x, y);
                if d1 < d2 { d1 } else { d2 }
            },
            Shape::Intersect(i) => {
                let d1 = i.shape1.sd_at(x, y);
                let d2 = i.shape2.sd_at(x, y);
                if d1 > d2 { d1 } else { d2 }
            },
            Shape::Subtract(s) => {
                let d1 = s.shape1.sd_at(x, y);
                let d2 = s.shape2.sd_at(x, y);
                if d1 > -d2 { d1 } else { -d2 }
            },
        }
    }

    /// The emissive intensity the tree reports at `(x, y)`: always the
    /// one belonging to the branch that supplied `sd_at`. On a tie of
    /// child distances, union and intersection report the second child;
    /// subtraction always reports the first (retained) child.
    pub open spec fn emissive_at(self, x: int, y: int) -> int
        decreases self,
    {
        match self {
            Shape::Circle(c) => c.emissive as int,
            Shape::Plane(p) => p.emissive as int,
            Shape::Capsule(c) => c.emissive as int,
            Shape::Rect(r) => r.emissive as int,
            Shape::Triangle(t) => t.emissive as int,
            Shape::Union(u) => {
                if u.shape1.sd_at(x, y) < u.shape2.sd_at(x, y) {
                    u.shape1.emissive_at(x, y)
                } else {
                    u.shape2.emissive_at(x, y)
                }
            },
            Shape::Intersect(i) => {
                if i.shape1.sd_at(x, y) > i.shape2.sd_at(x, y) {
                    i.shape1.emissive_at(x, y)
                } else {
                    i.shape2.emissive_at(x, y)
                }
            },
            Shape::Subtract(s) => s.shape1.emissive_at(x, y),
        }
    }

    /// Query the tree at `(x, y)`.
    pub fn sdf(&self, x: i64, y: i64) -> (res: SdfResult)
        requires
            self.wf(),
            -QUERY_MAX <= x <= QUERY_MAX,
            -QUERY_MAX <= y <= QUERY_MAX,
        ensures
            res.sd == self.sd_at(x as int, y as int),
            res.emissive == self.emissive_at(x as int, y as int),
            -SD_MAX <= res.sd <= SD_MAX,
            0 <= res.emissive <= EMISSIVE_MAX,
        decreases *self,
    {
        match self {
            Shape::Circle(c) => c.sdf(x, y),
            Shape::Plane(p) => p.sdf(x, y),
            Shape::Capsule(c) => c.sdf(x, y),
            Shape::Rect(r) => r.sdf(x, y),
            Shape::Triangle(t) => t.sdf(x, y),
            Shape::Union(u) => {
                let r1 = u.shape1.sdf(x, y);
                let r2 = u.shape2.sdf(x, y);
                if r1.sd < r2.sd {
                    r1
                } else {
                    r2
                }
            },
            Shape::Intersect(i) => {
                let r1 = i.shape1.sdf(x, y);
                let r2 = i.shape2.sdf(x, y);
                if r1.sd > r2.sd {
                    r1
                } else {
                    r2
                }
            },
            Shape::Subtract(s) => {
                let r1 = s.shape1.sdf(x, y);
                let r2 = s.shape2.sdf(x, y);
                let sd: i64 = if r1.sd > -r2.sd {
                    r1.sd
                } else {
                    -r2.sd
                };
                SdfResult { sd, emissive: r1.emissive }
            },
        }
    }
}

/// Combinator constructors for shape trees.
pub struct Shapes;

impl Shapes {
    /// A shape covering the points of either argument.
    pub fn union(shape1: Shape, shape2: Shape) -> (r: Shape)
        ensures
            (r matches Shape::Union(u)
                && *u.shape1 == shape1
                && *u.shape2 == shape2),
            shape1.wf() && shape2.wf() ==> r.wf(),
    {
        Shape::Union(UnionShape { shape1: Box::new(shape1), shape2: Box::new(shape2) })
    }

    /// A shape covering the points common to both arguments.
    pub fn intersect(shape1: Shape, shape2: Shape) -> (r: Shape)
        ensures
            (r matches Shape::Intersect(i)
                && *i.shape1 == shape1
                && *i.shape2 == shape2),
            shape1.wf() && shape2.wf() ==> r.wf(),
    {
        Shape::Intersect(IntersectShape { shape1: Box::new(shape1), shape2: Box::new(shape2) })
    }

    /// The first shape with the second carved out.
    pub fn subtract(shape1: Shape, shape2: Shape) -> (r: Shape)
        ensures
            (r matches Shape::Subtract(s)
                && *s.shape1 == shape1
                && *s.shape2 == shape2),
            shape1.wf() && shape2.wf() ==> r.wf(),
    {
        Shape::Subtract(SubtractShape { shape1: Box::new(shape1), shape2: Box::new(shape2) })
    }
}

/// A circle's signed distance is the distance to the centre minus the
/// radius; at the centre it is exactly minus the radius, and at distance
/// exactly the radius from the centre it is exactly zero.
pub proof fn lemma_circle_sdf(c: Circle, x: int, y: int)
    ensures
        c.sd_spec(x, y) == dist_spec(x, y, c.ox as int, c.oy as int) - c.r,
        c.sd_spec(c.ox as int, c.oy as int) == -c.r,
        dist_spec(x, y, c.ox as int, c.oy as int) == c.r ==> c.sd_spec(x, y) == 0,
{
    assert(dist_spec(c.ox as int, c.oy as int, c.ox as int, c.oy as int) == 0);
}

/// A union's distance is the minimum of its children's distances, and
/// its emissive intensity belongs to the child that supplied it: the
/// first child when its distance is strictly smaller, else the second.
pub proof fn lemma_union_sdf(u: UnionShape, x: int, y: int)
    ensures
        u.shape1.sd_at(x, y) <= u.shape2.sd_at(x, y)
            ==> Shape::Union(u).sd_at(x, y) == u.shape1.sd_at(x, y),
        u.shape2.sd_at(x, y) <= u.shape1.sd_at(x, y)
            ==> Shape::Union(u).sd_at(x, y) == u.shape2.sd_at(x, y),
        u.shape1.sd_at(x, y) < u.shape2.sd_at(x, y)
            ==> Shape::Union(u).emissive_at(x, y) == u.shape1.emissive_at(x, y),
        u.shape1.sd_at(x, y) >= u.shape2.sd_at(x, y)
            ==> Shape::Union(u).emissive_at(x, y) == u.shape2.emissive_at(x, y),
{
}

/// An intersection's distance is the maximum of its children's
/// distances, and its emissive intensity belongs to the child that
/// supplied that maximum.
pub proof fn lemma_intersect_sdf(i: IntersectShape, x: int, y: int)
    ensures
        i.shape1.sd_at(x, y) >= i.shape2.sd_at(x, y)
            ==> Shape::Intersect(i).sd_at(x, y) == i.shape1.sd_at(x, y),
        i.shape2.sd_at(x, y) >= i.shape1.sd_at(x, y)
            ==> Shape::Intersect(i).sd_at(x, y) == i.shape2.sd_at(x, y),
        i.shape1.sd_at(x, y) > i.shape2.sd_at(x, y)
            ==> Shape::Intersect(i).emissive_at(x, y) == i.shape1.emissive_at(x, y),
        i.shape1.sd_at(x, y) <= i.shape2.sd_at(x, y)
            ==> Shape::Intersect(i).emissive_at(x, y) == i.shape2.emissive_at(x, y),
{
}

/// A subtraction's distance is the maximum of the first child's
/// distance and the negated second, and its emissive intensity is
/// always the first (retained) child's — in particular at any point
/// inside the first shape and outside the second.
pub proof fn lemma_subtract_sdf(s: SubtractShape, x: int, y: int)
    ensures
        s.shape1.sd_at(x, y) >= -s.shape2.sd_at(x, y)
            ==> Shape::Subtract(s).sd_at(x, y) == s.shape1.sd_at(x, y),
        -s.shape2.sd_at(x, y) >= s.shape1.sd_at(x, y)
            ==> Shape::Subtract(s).sd_at(x, y) == -s.shape2.sd_at(x, y),
        Shape::Subtract(s).emissive_at(x, y) == s.shape1.emissive_at(x, y),
{
}

} // verus!
