//! Tests of the arithmetic helpers the pipeline is built on.
use particle_sim::math::{div_trunc, isqrt};

#[test]
fn isqrt_small_values() {
    assert_eq!(isqrt(0), 0);
    assert_eq!(isqrt(1), 1);
    assert_eq!(isqrt(3), 1);
    assert_eq!(isqrt(4), 2);
    assert_eq!(isqrt(15), 3);
    assert_eq!(isqrt(16), 4);
    assert_eq!(isqrt(400_000_000), 20_000);
}

#[test]
fn isqrt_large_values() {
    assert_eq!(isqrt(u128::MAX), (1u128 << 64) - 1);
    let big: u128 = 12_000_000_000_000_000_000_000_000;
    let r = isqrt(big);
    assert!(r * r <= big);
    assert!((r + 1) * (r + 1) > big);
}

#[test]
fn div_trunc_rounds_toward_zero() {
    assert_eq!(div_trunc(7, 2), 3);
    assert_eq!(div_trunc(-7, 2), -3);
    assert_eq!(div_trunc(0, 5), 0);
    assert_eq!(div_trunc(-1, 5), 0);
    assert_eq!(div_trunc(999_999, 1_000), 999);
    assert_eq!(div_trunc(-999_999, 1_000), -999);
}
