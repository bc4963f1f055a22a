//! Exact-value checks for the fixed-point scalar helpers.
use sdf_light::fixed::{angle_fx, cos_fx, dist, div_scale, isqrt, mul_frac, sin_fx};

#[test]
fn isqrt_exact() {
    assert_eq!(isqrt(0), 0);
    assert_eq!(isqrt(1), 1);
    assert_eq!(isqrt(24), 4);
    assert_eq!(isqrt(25), 5);
    assert_eq!(isqrt(26), 5);
    assert_eq!(isqrt(u64::MAX), 0xFFFF_FFFF);
}

#[test]
fn dist_exact() {
    assert_eq!(dist(3, 4, 0, 0), 5);
    assert_eq!(dist(0, 0, -3, -4), 5);
    assert_eq!(dist(7, 7, 7, 7), 0);
    // Rounded down: sqrt(2) ~ 1.41.
    assert_eq!(dist(1, 1, 0, 0), 1);
}

#[test]
fn mul_frac_rounds_toward_zero() {
    assert_eq!(mul_frac(1000, 512), 500);
    assert_eq!(mul_frac(-1000, 512), -500);
    // 3 * 512 / 1024 = 1.5, truncated symmetrically.
    assert_eq!(mul_frac(3, 512), 1);
    assert_eq!(mul_frac(-3, 512), -1);
    assert_eq!(mul_frac(4096, 0), 0);
    assert_eq!(mul_frac(4096, 1024), 4096);
}

#[test]
fn div_scale_rounds_toward_zero() {
    assert_eq!(div_scale(2048), 2);
    assert_eq!(div_scale(-2048), -2);
    assert_eq!(div_scale(1023), 0);
    assert_eq!(div_scale(-1023), 0);
}

#[test]
fn sin_cos_cardinal_points() {
    assert_eq!(sin_fx(0), 0);
    assert_eq!(sin_fx(1024), 1024);
    assert_eq!(sin_fx(2048), 0);
    assert_eq!(sin_fx(3072), -1024);
    assert_eq!(cos_fx(0), 1024);
    assert_eq!(cos_fx(1024), 0);
    assert_eq!(cos_fx(2048), -1024);
    assert_eq!(cos_fx(3072), 0);
}

#[test]
fn sin_stays_in_unit_range() {
    let mut a: i64 = 0;
    while a < 4096 {
        let s = sin_fx(a);
        let c = cos_fx(a);
        assert!(-1024 <= s && s <= 1024);
        assert!(-1024 <= c && c <= 1024);
        a += 1;
    }
}

#[test]
fn angle_buckets() {
    // First bucket, no jitter: angle 0.
    assert_eq!(angle_fx(0, 0, 64), 0);
    // Bucket 32 of 64: half a turn.
    assert_eq!(angle_fx(32, 0, 64), 2048);
    // One bucket of one sample, jitter half a bucket: half a turn.
    assert_eq!(angle_fx(0, 512, 1), 2048);
    // Bucket 1 of 64: 1/64 turn.
    assert_eq!(angle_fx(1, 0, 64), 64);
}
