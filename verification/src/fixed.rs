//! Fixed-point scalar arithmetic shared by the shapes and the scene:
//! the scale constant, an integer square root, Euclidean distance
//! between points, and multiplication by a scaled fraction.
use vstd::prelude::*;
use vstd::arithmetic::div_mod::{
    lemma_div_is_ordered, lemma_div_multiples_vanish, lemma_div_pos_is_pos,
    lemma_multiply_divide_lt,
};

verus! {

/// Number of fixed-point units per pixel: a coordinate of `SCALE` means
/// one pixel, `SCALE / 2` means half a pixel.
pub const SCALE: i64 = 1024;

/// Largest magnitude accepted for a shape parameter (about 2048 pixels).
pub const COORD_MAX: i64 = 0x20_0000;

/// Largest magnitude accepted for a distance-query point (about 8192 pixels).
pub const QUERY_MAX: i64 = 0x80_0000;

/// Largest magnitude accepted by [`dist`] for either endpoint.
pub const VAL_MAX: i64 = 0x100_0000;

/// Bound on every signed distance produced on admissible inputs.
pub const SD_MAX: i64 = 0x800_0000;

/// Largest emissive intensity a shape may carry (2048.0 in pixel units).
pub const EMISSIVE_MAX: i64 = 0x20_0000;

/// The largest integer whose square does not exceed `n`; 0 for negative `n`.
pub open spec fn floor_sqrt(n: int) -> int
    decreases n,
{
    if n < 1 {
        0
    } else {
        let r = floor_sqrt(n - 1);
        if (r + 1) * (r + 1) <= n {
            r + 1
        } else {
            r
        }
    }
}

/// `floor_sqrt(n)` is indeed the floor of the square root of `n`.
pub proof fn lemma_floor_sqrt(n: int)
    requires
        n >= 0,
    ensures
        floor_sqrt(n) >= 0,
        floor_sqrt(n) * floor_sqrt(n) <= n,
        n < (floor_sqrt(n) + 1) * (floor_sqrt(n) + 1),
    decreases n,
{
    if n < 1 {
    } else {
        lemma_floor_sqrt(n - 1);
        let r = floor_sqrt(n - 1);
        if (r + 1) * (r + 1) <= n {
            assert(n < (r + 2) * (r + 2)) by (nonlinear_arith)
                requires
                    r >= 0,
                    n - 1 < (r + 1) * (r + 1),
                    (r + 1) * (r + 1) <= n,
            ;
        }
    }
}

/// Any `r` with `r * r <= n < (r + 1) * (r + 1)` equals `floor_sqrt(n)`.
pub proof fn lemma_floor_sqrt_unique(n: int, r: int)
    requires
        n >= 0,
        r >= 0,
        r * r <= n,
        n < (r + 1) * (r + 1),
    ensures
        r == floor_sqrt(n),
{
    lemma_floor_sqrt(n);
    let f = floor_sqrt(n);
    if r < f {
        assert((r + 1) * (r + 1) <= f * f) by (nonlinear_arith)
            requires
                0 <= r + 1 <= f,
        ;
    }
    if f < r {
        assert((f + 1) * (f + 1) <= r * r) by (nonlinear_arith)
            requires
                0 <= f + 1 <= r,
        ;
    }
}

/// Integer square root by bisection.
pub fn isqrt(n: u64) -> (r: u64)
    ensures
        r == floor_sqrt(n as int),
        r <= 0xFFFF_FFFF,
{
    let mut lo: u64 = 0;
    let mut hi: u64 = 0xFFFF_FFFF;
    while lo < hi
        invariant
            lo <= hi <= 0xFFFF_FFFF,
            lo * lo <= n,
            n < (hi + 1) * (hi + 1),
        decreases hi - lo,
    {
        let mid: u64 = lo + (hi - lo + 1) / 2;
        proof {
            assert(mid * mid <= 0xFFFF_FFFF * 0xFFFF_FFFF) by (nonlinear_arith)
                requires
                    0 <= mid <= 0xFFFF_FFFF,
            ;
        }
        if mid * mid <= n {
            lo = mid;
        } else {
            hi = mid - 1;
        }
    }
    proof {
        lemma_floor_sqrt_unique(n as int, lo as int);
    }
    lo
}

/// Fixed-point distance between `(ax, ay)` and `(bx, by)`: the floor of
/// the true Euclidean distance in units.
pub open spec fn dist_spec(ax: int, ay: int, bx: int, by: int) -> int {
    floor_sqrt((ax - bx) * (ax - bx) + (ay - by) * (ay - by))
}

/// Distance between two points, rounded down to whole units.
pub fn dist(ax: i64, ay: i64, bx: i64, by: i64) -> (r: i64)
    requires
        -VAL_MAX <= ax <= VAL_MAX,
        -VAL_MAX <= ay <= VAL_MAX,
        -VAL_MAX <= bx <= VAL_MAX,
        -VAL_MAX <= by <= VAL_MAX,
    ensures
        r == dist_spec(ax as int, ay as int, bx as int, by as int),
        0 <= r < 4 * VAL_MAX,
{
    let dx: i64 = ax - bx;
    let dy: i64 = ay - by;
    proof {
        assert(dx * dx <= (2 * VAL_MAX) * (2 * VAL_MAX) && dx * dx >= 0)
            by (nonlinear_arith)
            requires
                -2 * VAL_MAX <= dx <= 2 * VAL_MAX,
                VAL_MAX == 0x100_0000,
        ;
        assert(dy * dy <= (2 * VAL_MAX) * (2 * VAL_MAX) && dy * dy >= 0)
            by (nonlinear_arith)
            requires
                -2 * VAL_MAX <= dy <= 2 * VAL_MAX,
                VAL_MAX == 0x100_0000,
        ;
    }
    let d2: u64 = (dx * dx) as u64 + (dy * dy) as u64;
    let r: u64 = isqrt(d2);
    proof {
        lemma_floor_sqrt(d2 as int);
        assert(r < 4 * VAL_MAX) by (nonlinear_arith)
            requires
                r >= 0,
                r * r <= d2,
                d2 <= 2 * ((2 * 0x100_0000) * (2 * 0x100_0000)),
                VAL_MAX == 0x100_0000,
        ;
    }
    r as i64
}

/// `v / SCALE`, rounded toward zero.
pub open spec fn div_scale_spec(v: int) -> int {
    if v >= 0 {
        v / (SCALE as int)
    } else {
        -((-v) / (SCALE as int))
    }
}

/// Divide a scaled product back down by `SCALE`, rounding toward zero.
pub fn div_scale(v: i64) -> (r: i64)
    requires
        i64::MIN < v,
    ensures
        r == div_scale_spec(v as int),
        v >= 0 ==> 0 <= r && 1024 * r <= v,
        v <= 0 ==> r <= 0 && v <= 1024 * r,
{
    if v >= 0 {
        let q: u64 = (v as u64) / 1024;
        proof {
            lemma_div_pos_is_pos(v as int, 1024);
            vstd::arithmetic::div_mod::lemma_remainder_lower(v as int, 1024);
        }
        q as i64
    } else {
        let m: i64 = -v;
        let q: u64 = (m as u64) / 1024;
        proof {
            lemma_div_pos_is_pos(m as int, 1024);
            vstd::arithmetic::div_mod::lemma_remainder_lower(m as int, 1024);
        }
        -(q as i64)
    }
}

/// `a` scaled by the fraction `b / SCALE`, rounded toward zero.
pub open spec fn mul_frac_spec(a: int, b: int) -> int {
    if a >= 0 {
        (a * b) / (SCALE as int)
    } else {
        -(((-a) * b) / (SCALE as int))
    }
}

/// Multiply `a` by the non-negative fixed-point factor `b / SCALE`.
pub fn mul_frac(a: i64, b: i64) -> (r: i64)
    requires
        0 <= b <= 0x40_0000,
        -0x40_0000 <= a <= 0x40_0000,
    ensures
        r == mul_frac_spec(a as int, b as int),
        b <= SCALE && a >= 0 ==> 0 <= r <= a,
        b <= SCALE && a <= 0 ==> a <= r <= 0,
        -SCALE <= a <= SCALE ==> -b <= r <= b,
    {
    let neg: bool = a < 0;
    let mag: u64 = if neg { (-a) as u64 } else { a as u64 };
    proof {
        assert(mag * (b as u64) <= 0x40_0000 * 0x40_0000) by (nonlinear_arith)
            requires
                0 <= mag <= 0x40_0000,
                0 <= b <= 0x40_0000,
        ;
    }
    let q: u64 = (mag * (b as u64)) / 1024;
    proof {
        let m = mag as int;
        let bi = b as int;
        lemma_div_pos_is_pos(m * bi, 1024);
        lemma_div_is_ordered(m * bi, (0x40_0000 as int) * 0x40_0000, 1024);
        if b <= SCALE {
            assert(m * bi <= m * 1024) by (nonlinear_arith)
                requires
                    m >= 0,
                    0 <= bi <= 1024,
            ;
            lemma_div_is_ordered(m * bi, m * 1024, 1024);
            lemma_div_multiples_vanish(m, 1024);
            assert(m * 1024 == 1024 * m);
        }
        if -SCALE <= a <= SCALE {
            assert(m * bi <= 1024 * bi) by (nonlinear_arith)
                requires
                    bi >= 0,
                    0 <= m <= 1024,
            ;
            lemma_div_is_ordered(m * bi, 1024 * bi, 1024);
            lemma_div_multiples_vanish(bi, 1024);
        }
    }
    if neg {
        -(q as i64)
    } else {
        q as i64
    }
}

/// Angle units per full turn: directions are quantised to 1/4096 turn.
pub const TURN: i64 = 4096;

/// Half a turn in angle units.
pub const HALF_TURN: i64 = 2048;

/// Rational approximation of the sine of `t / HALF_TURN` half-turns,
/// scaled by `SCALE`, for `t` in `[0, HALF_TURN]`.
pub open spec fn half_sin_spec(t: int) -> int {
    let g = t * (2048 - t);
    (16384 * g) / (20971520 - 4 * g)
}

/// Sine over a first half-turn, by the classical rational approximation
/// `16 t (H - t) / (5 H^2 - 4 t (H - t))` of `sin(pi t / H)`.
fn half_sin(t: i64) -> (r: i64)
    requires
        0 <= t <= HALF_TURN,
    ensures
        r == half_sin_spec(t as int),
        0 <= r <= SCALE,
{
    proof {
        assert(0 <= t * (2048 - t) && 4 * (t * (2048 - t)) <= 4194304)
            by (nonlinear_arith)
            requires
                0 <= t <= 2048,
        ;
    }
    let g: u64 = (t as u64) * ((2048 - t) as u64);
    let num: u64 = 16384 * g;
    let den: u64 = 20971520 - 4 * g;
    let r: u64 = num / den;
    proof {
        let gi = g as int;
        let n = num as int;
        let d = den as int;
        lemma_div_pos_is_pos(n, d);
        assert(n <= 1024 * d) by (nonlinear_arith)
            requires
                n == 16384 * gi,
                d == 20971520 - 4 * gi,
                0 <= 4 * gi <= 4194304,
        ;
        lemma_div_is_ordered(n, 1024 * d, d);
        lemma_div_multiples_vanish(1024, d);
        assert(1024 * d == d * 1024);
    }
    r as i64
}

/// Fixed-point sine of an angle in `[0, TURN)` angle units, scaled by
/// `SCALE`; the second half-turn is the negated first one.
pub open spec fn sin_fx_spec(a: int) -> int {
    if a <= 2048 {
        half_sin_spec(a)
    } else {
        -half_sin_spec(a - 2048)
    }
}

/// Fixed-point cosine: the sine a quarter-turn ahead.
pub open spec fn cos_fx_spec(a: int) -> int {
    if a + 1024 < 4096 {
        sin_fx_spec(a + 1024)
    } else {
        sin_fx_spec(a + 1024 - 4096)
    }
}

/// Sine of `a` angle units, scaled by `SCALE`.
pub fn sin_fx(a: i64) -> (r: i64)
    requires
        0 <= a < TURN,
    ensures
        r == sin_fx_spec(a as int),
        -SCALE <= r <= SCALE,
{
    if a <= 2048 {
        half_sin(a)
    } else {
        -half_sin(a - 2048)
    }
}

/// Cosine of `a` angle units, scaled by `SCALE`.
pub fn cos_fx(a: i64) -> (r: i64)
    requires
        0 <= a < TURN,
    ensures
        r == cos_fx_spec(a as int),
        -SCALE <= r <= SCALE,
{
    let shifted: i64 = if a + 1024 < 4096 {
        a + 1024
    } else {
        a + 1024 - 4096
    };
    sin_fx(shifted)
}

/// Direction angle of the stratified sample `i` of `n` with jitter
/// `u / SCALE`: the fraction `(i + u / SCALE) / n` of a full turn,
/// in angle units.
pub open spec fn angle_spec(i: int, u: int, n: int) -> int {
    (4096 * (i * 1024 + u)) / (n * 1024)
}

/// Angle of jittered sample `i` of `n`, in `[0, TURN)` angle units.
pub fn angle_fx(i: u8, u: i64, n: u8) -> (r: i64)
    requires
        i < n,
        0 <= u < SCALE,
    ensures
        r == angle_spec(i as int, u as int, n as int),
        0 <= r < TURN,
{
    let num: u64 = 4096 * ((i as u64) * 1024 + (u as u64));
    let den: u64 = (n as u64) * 1024;
    let r: u64 = num / den;
    proof {
        let ni = num as int;
        let di = den as int;
        lemma_div_pos_is_pos(ni, di);
        assert(ni < di * 4096) by (nonlinear_arith)
            requires
                ni == 4096 * ((i as int) * 1024 + u),
                di == (n as int) * 1024,
                0 <= i < (n as int),
                0 <= u < 1024,
        ;
        lemma_multiply_divide_lt(ni, di, 4096);
    }
    r as i64
}

} // verus!
