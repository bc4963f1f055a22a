//! The scene and its Monte-Carlo sphere-tracing integrator.
//!
//! A scene owns a shape tree and the render configuration. Rendering
//! walks every pixel; at each pixel it draws one jittered ray per
//! angular bucket (stratified sampling), sphere-traces each ray through
//! the tree, and averages the emissive light the rays hit into one
//! greyscale byte, written to all three RGB channels.
//!
//! The jitters come from a caller-supplied random generator; every
//! function that consumes them is also callable, and fully specified,
//! on an explicit jitter sequence.
use vstd::prelude::*;
use rand::Rng;
use crate::fixed::{
    COORD_MAX, EMISSIVE_MAX, QUERY_MAX, SCALE, SD_MAX, angle_fx, angle_spec, cos_fx,
    cos_fx_spec, floor_sqrt, isqrt, lemma_floor_sqrt, mul_frac, mul_frac_spec, sin_fx,
    sin_fx_spec,
};
use crate::shape::{SdfResult, Shape};
use crate::shape::Shapes;

verus! {

/// Largest image dimension accepted, in pixels.
pub const MAX_DIM: u32 = 2048;

/// A signed distance below this threshold counts as a surface hit.
pub const EPS: i64 = 1;

/// Distance an empty scene reports: farther than any march travels.
pub const FAR: i64 = SD_MAX;

/// Rejected configuration, detected before any rendering work.
#[derive(Clone, Copy, Debug, PartialEq, Eq, Structural)]
pub enum RenderError {
    InvalidConfig,
}

#[verifier::external_type_specification]
#[verifier::external_body]
pub struct ExStdRng(rand::rngs::StdRng);

/// Relies on rand's `Rng::gen_range` over `0..bound`: for a non-empty
/// range it returns a uniformly drawn value at least 0 and below
/// `bound`. Nothing more is assumed of the draw.
#[verifier::external_body]
fn gen_below(rng: &mut rand::rngs::StdRng, bound: i64) -> (r: i64)
    requires
        bound > 0,
    ensures
        0 <= r < bound,
{
    rng.gen_range(0..bound)
}

/// A scene: image dimensions, an optional root shape, and the sampling
/// configuration. Shapes added after the first are folded into the root
/// by union, so the root is the union of everything added.
#[derive(Debug)]
pub struct Scene {
    pub width: u32,
    pub height: u32,
    pub root: Option<Shape>,
    pub sample_count: u8,
    pub max_step: usize,
}

impl Scene {
    pub open spec fn wf(self) -> bool {
        &&& 1 <= self.width <= MAX_DIM
        &&& 1 <= self.height <= MAX_DIM
        &&& 1 <= self.sample_count
        &&& 1 <= self.max_step
        &&& match self.root {
            Some(s) => s.wf(),
            None => true,
        }
    }

    /// A scene with no shapes yet and the default configuration of 64
    /// samples per pixel and 10 marching steps per sample; zero or
    /// oversized dimensions are rejected before any work.
    pub fn new(width: u32, height: u32) -> (r: Result<Scene, RenderError>)
        ensures
            1 <= width <= MAX_DIM && 1 <= height <= MAX_DIM ==> (r matches Ok(s)
                && s.width == width
                && s.height == height
                && s.sample_count == 64
                && s.max_step == 10
                && s.root is None
                && s.wf()),
            !(1 <= width <= MAX_DIM && 1 <= height <= MAX_DIM) ==> (r matches Err(e)
                && e == RenderError::InvalidConfig),
    {
        if width == 0 || width > MAX_DIM || height == 0 || height > MAX_DIM {
            Err(RenderError::InvalidConfig)
        } else {
            Ok(Scene { width, height, root: None, sample_count: 64, max_step: 10 })
        }
    }

    /// Add a shape: it becomes the root, or is unioned onto the
    /// existing root.
    pub fn add_shape(&mut self, shape: Shape)
        requires
            old(self).wf(),
            shape.wf(),
        ensures
            final(self).wf(),
            final(self).width == old(self).width,
            final(self).height == old(self).height,
            final(self).sample_count == old(self).sample_count,
            final(self).max_step == old(self).max_step,
            old(self).root is None ==> final(self).root == Some(shape),
            old(self).root matches Some(r0) ==> (final(self).root matches Some(nr)
                && nr matches Shape::Union(u)
                && *u.shape1 == r0
                && *u.shape2 == shape),
    {
        let mut prev: Option<Shape> = None;
        core::mem::swap(&mut prev, &mut self.root);
        match prev {
            None => {
                self.root = Some(shape);
            },
            Some(r0) => {
                self.root = Some(Shapes::union(r0, shape));
            },
        }
    }

    /// Set how many stratified rays each pixel draws; zero is rejected.
    pub fn set_sample_count(&mut self, n: u8) -> (r: Result<(), RenderError>)
        requires
            old(self).wf(),
        ensures
            n >= 1 ==> (r is Ok && *final(self) == (Scene { sample_count: n, ..*old(self) })),
            n == 0 ==> (r matches Err(e) && e == RenderError::InvalidConfig
                && *final(self) == *old(self)),
            final(self).wf(),
    {
        if n == 0 {
            Err(RenderError::InvalidConfig)
        } else {
            self.sample_count = n;
            Ok(())
        }
    }

    /// Set the sphere-tracing step cap per sample; zero is rejected.
    pub fn set_max_step(&mut self, n: usize) -> (r: Result<(), RenderError>)
        requires
            old(self).wf(),
        ensures
            n >= 1 ==> (r is Ok && *final(self) == (Scene { max_step: n, ..*old(self) })),
            n == 0 ==> (r matches Err(e) && e == RenderError::InvalidConfig
                && *final(self) == *old(self)),
            final(self).wf(),
    {
        if n == 0 {
            Err(RenderError::InvalidConfig)
        } else {
            self.max_step = n;
            Ok(())
        }
    }

    /// Scene-level distance query: the root's, or "far away" when the
    /// scene is empty.
    pub open spec fn sd_at(self, x: int, y: int) -> int {
        match self.root {
            Some(s) => s.sd_at(x, y),
            None => FAR as int,
        }
    }

    /// Scene-level emissive query; 0 when the scene is empty.
    pub open spec fn emissive_at(self, x: int, y: int) -> int {
        match self.root {
            Some(s) => s.emissive_at(x, y),
            None => 0,
        }
    }

    /// Query the scene's shape tree at `(x, y)`.
    pub fn sdf(&self, x: i64, y: i64) -> (res: SdfResult)
        requires
            self.wf(),
            -QUERY_MAX <= x <= QUERY_MAX,
            -QUERY_MAX <= y <= QUERY_MAX,
        ensures
            res.sd == self.sd_at(x as int, y as int),
            res.emissive == self.emissive_at(x as int, y as int),
            -SD_MAX <= res.sd <= SD_MAX,
            0 <= res.emissive <= EMISSIVE_MAX,
    {
        match &self.root {
            Some(s) => s.sdf(x, y),
            None => SdfResult { sd: FAR, emissive: 0 },
        }
    }

    /// How far a ray may travel before it counts as a miss: the image
    /// diagonal, in fixed-point units.
    pub open spec fn max_dist_spec(self) -> int {
        let w = (self.width as int) * (SCALE as int);
        let h = (self.height as int) * (SCALE as int);
        floor_sqrt(w * w + h * h)
    }

    /// The diagonal length of the image in units.
    pub fn max_dist(&self) -> (r: i64)
        requires
            self.wf(),
        ensures
            r == self.max_dist_spec(),
            0 < r < 0x40_0000,
    {
        let ws: u64 = (self.width as u64) * 1024;
        let hs: u64 = (self.height as u64) * 1024;
        proof {
            assert(ws * ws <= 0x20_0000 * 0x20_0000 && hs * hs <= 0x20_0000 * 0x20_0000
                && ws * ws >= 1024 * 1024)
                by (nonlinear_arith)
                requires
                    1024 <= ws <= 0x20_0000,
                    1024 <= hs <= 0x20_0000,
            ;
        }
        let d2: u64 = ws * ws + hs * hs;
        let r: u64 = isqrt(d2);
        proof {
            lemma_floor_sqrt(d2 as int);
            assert(r < 0x40_0000) by (nonlinear_arith)
                requires
                    r >= 0,
                    r * r <= d2,
                    d2 <= 2 * ((0x20_0000 as int) * 0x20_0000),
            ;
        }
        r as i64
    }

    /// Light gathered by one ray cast from `(x, y)` along the
    /// fixed-point direction `(dx, dy)`, having already travelled
    /// `travelled` units, with `steps` marching steps left: the
    /// emissive value at the first point whose signed distance falls
    /// below `EPS` (a hit), and 0 when the march leaves the image
    /// diagonal or runs out of steps (a miss). Each step advances by
    /// the queried signed distance, which cannot overshoot a surface.
    pub open spec fn trace_from(
        self,
        x: int,
        y: int,
        dx: int,
        dy: int,
        travelled: int,
        max_dist: int,
        steps: nat,
    ) -> int
        decreases steps,
    {
        if steps == 0 {
            0
        } else {
            let qx = x + mul_frac_spec(dx, travelled);
            let qy = y + mul_frac_spec(dy, travelled);
            let sd = self.sd_at(qx, qy);
            if sd < EPS {
                self.emissive_at(qx, qy)
            } else if travelled + sd >= max_dist {
                0
            } else {
                self.trace_from(x, y, dx, dy, travelled + sd, max_dist, (steps - 1) as nat)
            }
        }
    }

    /// A full march: from the pixel point, fresh, with the configured
    /// step budget and the image diagonal as the miss bound.
    pub open spec fn trace_spec(self, x: int, y: int, dx: int, dy: int) -> int {
        self.trace_from(x, y, dx, dy, 0, self.max_dist_spec(), self.max_step as nat)
    }

    /// Sphere-trace one ray; returns the light it gathers.
    pub fn trace(&self, x: i64, y: i64, dx: i64, dy: i64) -> (light: i64)
        requires
            self.wf(),
            -COORD_MAX <= x <= COORD_MAX,
            -COORD_MAX <= y <= COORD_MAX,
            -SCALE <= dx <= SCALE,
            -SCALE <= dy <= SCALE,
        ensures
            light == self.trace_spec(x as int, y as int, dx as int, dy as int),
            0 <= light <= EMISSIVE_MAX,
    {
        let md: i64 = self.max_dist();
        let mut travelled: i64 = 0;
        let mut step: usize = 0;
        while step < self.max_step
            invariant
                self.wf(),
                -COORD_MAX <= x <= COORD_MAX,
                -COORD_MAX <= y <= COORD_MAX,
                -SCALE <= dx <= SCALE,
                -SCALE <= dy <= SCALE,
                md == self.max_dist_spec(),
                0 < md < 0x40_0000,
                0 <= travelled < md,
                step <= self.max_step,
                self.trace_spec(x as int, y as int, dx as int, dy as int)
                    == self.trace_from(x as int, y as int, dx as int, dy as int,
                        travelled as int, md as int, (self.max_step - step) as nat),
            decreases self.max_step - step,
        {
            let ox: i64 = mul_frac(dx, travelled);
            let oy: i64 = mul_frac(dy, travelled);
            let qx: i64 = x + ox;
            let qy: i64 = y + oy;
            let res: SdfResult = self.sdf(qx, qy);
            if res.sd < EPS {
                return res.emissive;
            }
            travelled = travelled + res.sd;
            if travelled >= md {
                return 0;
            }
            step = step + 1;
        }
        0
    }

    /// Sum of the light of the first `k` stratified samples at
    /// `(x, y)`: sample `i` jitters its angular bucket by
    /// `jitters[i] / SCALE` of a bucket and marches along the resulting
    /// direction.
    pub open spec fn sample_sum(self, x: int, y: int, jitters: Seq<i64>, k: nat) -> int
        decreases k,
    {
        if k == 0 {
            0
        } else {
            let a = angle_spec((k - 1) as int, jitters[k - 1] as int, self.sample_count as int);
            self.sample_sum(x, y, jitters, (k - 1) as nat)
                + self.trace_spec(x, y, cos_fx_spec(a), sin_fx_spec(a))
        }
    }

    /// A pixel's intensity for a given jitter sequence: the mean sample
    /// light rescaled to `[0, 255]` and saturated at 255.
    pub open spec fn sample_spec(self, x: int, y: int, jitters: Seq<i64>) -> int {
        let total = self.sample_sum(x, y, jitters, self.sample_count as nat);
        let v = (total * 255) / ((self.sample_count as int) * (SCALE as int));
        if v >= 255 {
            255
        } else {
            v
        }
    }

    /// Sample the pixel at `(x, y)` with one explicit jitter per
    /// angular bucket — the deterministic core of [`Scene::sample`].
    pub fn sample_with_jitters(&self, x: i64, y: i64, jitters: &Vec<i64>) -> (v: u8)
        requires
            self.wf(),
            jitters.len() == self.sample_count,
            forall|k: int| 0 <= k < jitters.len() ==> 0 <= #[trigger] jitters[k] < SCALE,
            -COORD_MAX <= x <= COORD_MAX,
            -COORD_MAX <= y <= COORD_MAX,
        ensures
            v as int == self.sample_spec(x as int, y as int, jitters@),
    {
        let n: u8 = self.sample_count;
        let mut total: i64 = 0;
        let mut i: u8 = 0;
        while i < n
            invariant
                self.wf(),
                n == self.sample_count,
                jitters.len() == n,
                forall|k: int| 0 <= k < jitters.len() ==> 0 <= #[trigger] jitters[k] < SCALE,
                -COORD_MAX <= x <= COORD_MAX,
                -COORD_MAX <= y <= COORD_MAX,
                i <= n,
                0 <= total <= (i as int) * (EMISSIVE_MAX as int),
                total == self.sample_sum(x as int, y as int, jitters@, i as nat),
            decreases n - i,
        {
            let u: i64 = jitters[i as usize];
            let a: i64 = angle_fx(i, u, n);
            let dxv: i64 = cos_fx(a);
            let dyv: i64 = sin_fx(a);
            let c: i64 = self.trace(x, y, dxv, dyv);
            total = total + c;
            i = i + 1;
        }
        proof {
            assert(total <= 255 * (EMISSIVE_MAX as int)) by (nonlinear_arith)
                requires
                    total <= (n as int) * (EMISSIVE_MAX as int),
                    0 <= n <= 255,
                    EMISSIVE_MAX == 0x20_0000,
            ;
        }
        let num: u64 = (total as u64) * 255;
        let denom: u64 = (n as u64) * 1024;
        let q: u64 = num / denom;
        proof {
            vstd::arithmetic::div_mod::lemma_div_pos_is_pos(num as int, denom as int);
        }
        if q >= 255 {
            255
        } else {
            q as u8
        }
    }

    /// Sample the pixel at `(x, y)`, drawing the jitters from `rng`.
    /// Whatever the generator returns, the result is the stratified
    /// average for some jitter sequence in range.
    pub fn sample(&self, x: i64, y: i64, rng: &mut rand::rngs::StdRng) -> (v: u8)
        requires
            self.wf(),
            -COORD_MAX <= x <= COORD_MAX,
            -COORD_MAX <= y <= COORD_MAX,
        ensures
            exists|js: Seq<i64>|
                js.len() == self.sample_count
                    && (forall|k: int| 0 <= k < js.len() ==> 0 <= #[trigger] js[k] < SCALE)
                    && v as int == self.sample_spec(x as int, y as int, js),
    {
        let n: u8 = self.sample_count;
        let mut jitters: Vec<i64> = Vec::new();
        let mut i: u8 = 0;
        while i < n
            invariant
                jitters.len() == i <= n,
                forall|k: int| 0 <= k < jitters.len() ==> 0 <= #[trigger] jitters[k] < SCALE,
            decreases n - i,
        {
            let u: i64 = gen_below(rng, SCALE);
            jitters.push(u);
            i = i + 1;
        }
        let v: u8 = self.sample_with_jitters(x, y, &jitters);
        proof {
            let js = jitters@;
            assert(js.len() == self.sample_count
                && (forall|k: int| 0 <= k < js.len() ==> 0 <= #[trigger] js[k] < SCALE)
                && v as int == self.sample_spec(x as int, y as int, js));
        }
        v
    }

    /// Whether the pixel triple at `(px, py)` of `buf` carries one
    /// greyscale value in all three channels, and that value is the
    /// stratified sample of this scene at the pixel's point for some
    /// jitter sequence.
    pub open spec fn pixel_ok(self, buf: Seq<u8>, px: int, py: int) -> bool {
        let base = 3 * (py * self.width + px);
        &&& buf[base] == buf[base + 1]
        &&& buf[base] == buf[base + 2]
        &&& exists|js: Seq<i64>|
            js.len() == self.sample_count
                && (forall|k: int| 0 <= k < js.len() ==> 0 <= #[trigger] js[k] < SCALE)
                && buf[base] as int == self.sample_spec(
                    px * (SCALE as int),
                    py * (SCALE as int),
                    js,
                )
    }

    /// A pixel triple that is in place stays in place when the buffer
    /// only grows behind it.
    proof fn lemma_pixel_ok_frame(self, pre: Seq<u8>, post: Seq<u8>, px: int, py: int)
        requires
            self.pixel_ok(pre, px, py),
            0 <= 3 * (py * self.width + px),
            3 * (py * self.width + px) + 2 < pre.len(),
            pre.len() <= post.len(),
            forall|i: int| 0 <= i < pre.len() ==> post[i] == pre[i],
        ensures
            self.pixel_ok(post, px, py),
    {
        let base = 3 * (py * self.width + px);
        let js = choose|js: Seq<i64>|
            js.len() == self.sample_count
                && (forall|k: int| 0 <= k < js.len() ==> 0 <= #[trigger] js[k] < SCALE)
                && pre[base] as int == self.sample_spec(
                    px * (SCALE as int),
                    py * (SCALE as int),
                    js,
                );
        assert(js.len() == self.sample_count
            && (forall|k: int| 0 <= k < js.len() ==> 0 <= #[trigger] js[k] < SCALE)
            && post[base] as int == self.sample_spec(
                px * (SCALE as int),
                py * (SCALE as int),
                js,
            ));
    }

    /// Render the whole image: a row-major byte buffer, three equal
    /// RGB channels per pixel, each pixel the averaged light of its
    /// stratified samples.
    pub fn render(&self, rng: &mut rand::rngs::StdRng) -> (buf: Vec<u8>)
        requires
            self.wf(),
        ensures
            buf.len() == 3 * self.width * self.height,
            forall|px: int, py: int|
                0 <= px < self.width && 0 <= py < self.height
                    ==> self.pixel_ok(buf@, px, py),
    {
        let w: u32 = self.width;
        let h: u32 = self.height;
        let mut buf: Vec<u8> = Vec::new();
        let mut py: u32 = 0;
        while py < h
            invariant
                self.wf(),
                w == self.width,
                h == self.height,
                py <= h,
                buf.len() == 3 * (py * w),
                forall|qx: int, qy: int|
                    0 <= qx < w && 0 <= qy < py ==> self.pixel_ok(buf@, qx, qy),
            decreases h - py,
        {
            let mut px: u32 = 0;
            while px < w
                invariant
                    self.wf(),
                    w == self.width,
                    h == self.height,
                    py < h,
                    px <= w,
                    buf.len() == 3 * (py * w + px),
                    forall|qx: int, qy: int|
                        0 <= qx < w && (qy < py || (qy == py && qx < px)) && 0 <= qy
                            ==> self.pixel_ok(buf@, qx, qy),
                decreases w - px,
            {
                let xu: i64 = (px as i64) * 1024;
                let yu: i64 = (py as i64) * 1024;
                let v: u8 = self.sample(xu, yu, rng);
                let ghost pre = buf@;
                buf.push(v);
                buf.push(v);
                buf.push(v);
                proof {
                    let wi = w as int;
                    let pxi = px as int;
                    let pyi = py as int;
                    let base = 3 * (pyi * wi + pxi);
                    assert(base == pre.len());
                    assert(buf@[base] == v && buf@[base + 1] == v && buf@[base + 2] == v);
                    assert(self.pixel_ok(buf@, pxi, pyi));
                    assert forall|qx: int, qy: int|
                        0 <= qx < wi && (qy < pyi || (qy == pyi && qx < pxi + 1)) && 0 <= qy
                        implies self.pixel_ok(buf@, qx, qy) by {
                        if qy == pyi && qx == pxi {
                        } else {
                            assert(qy * wi + qx + 1 <= pyi * wi + pxi) by (nonlinear_arith)
                                requires
                                    0 <= qx < wi,
                                    0 <= qy,
                                    qy < pyi || (qy == pyi && qx < pxi),
                                    0 <= pxi,
                            ;
                            self.lemma_pixel_ok_frame(pre, buf@, qx, qy);
                        }
                    }
                }
                px = px + 1;
            }
            proof {
                assert(3 * ((py as int) * (w as int) + (w as int))
                    == 3 * (((py as int) + 1) * (w as int))) by (nonlinear_arith);
            }
            py = py + 1;
        }
        proof {
            assert(3 * ((h as int) * (w as int)) == 3 * (w as int) * (h as int))
                by (nonlinear_arith);
        }
        buf
    }
}

} // verus!
