//! The burst-disk sampling: exact values, the radius bound, and a coarse
//! area-uniformity check of the squared distances over the whole draw grid.

use fireworks::trig::{burst_offset, isqrt};

#[test]
fn isqrt_exact_values() {
    assert_eq!(isqrt(0), 0);
    assert_eq!(isqrt(1), 1);
    assert_eq!(isqrt(3), 1);
    assert_eq!(isqrt(4), 2);
    assert_eq!(isqrt(99), 9);
    assert_eq!(isqrt(100), 10);
    assert_eq!(isqrt(1048576), 1024);
    assert_eq!(isqrt(99 * 1048576), 10188);
}

#[test]
fn burst_offset_exact_values() {
    // Angle 0: due right; radius draw 99 is just under the full radius.
    assert_eq!(burst_offset(0, 99), (9, 0));
    // Half a turn: due left; the floor pulls the negative side to -10.
    assert_eq!(burst_offset(50, 99), (-10, 0));
    // A quarter turn: straight down the y axis.
    assert_eq!(burst_offset(25, 99), (0, 9));
    // Three quarters: up the y axis.
    assert_eq!(burst_offset(75, 99), (0, -10));
    // Radius draw 0: the origin itself, whatever the angle.
    assert_eq!(burst_offset(0, 0), (0, 0));
    assert_eq!(burst_offset(37, 0), (0, 0));
    // Radius draw 1: one cell.
    assert_eq!(burst_offset(0, 1), (1, 0));
}

#[test]
fn burst_offset_stays_in_disk() {
    for a in 0..100u64 {
        for b in 0..100u64 {
            let (dx, dy) = burst_offset(a, b);
            assert!(-10 <= dx && dx <= 10, "dx out of range: {} at ({}, {})", dx, a, b);
            assert!(-10 <= dy && dy <= 10, "dy out of range: {} at ({}, {})", dy, a, b);
            assert!(dx * dx + dy * dy <= 200);
        }
    }
}

#[test]
fn burst_offset_area_uniform() {
    // Squared distance tracks the radius draw `b`, so over the uniform draw
    // grid the squared distances spread about evenly across the disk: the
    // histogram of distance^2 is roughly flat, and its mean is near the mean
    // of `b` itself.
    let mut buckets = [0i64; 4];
    let mut sum: i64 = 0;
    for a in 0..100u64 {
        for b in 0..100u64 {
            let (dx, dy) = burst_offset(a, b);
            let d2 = dx * dx + dy * dy;
            sum += d2;
            let idx = if d2 < 25 { 0 } else if d2 < 50 { 1 } else if d2 < 75 { 2 } else { 3 };
            buckets[idx] += 1;
        }
    }
    let mean = sum as f64 / 10000.0;
    assert!(30.0 <= mean && mean <= 60.0, "mean squared distance {}", mean);
    for (i, count) in buckets.iter().enumerate() {
        assert!(
            1200 <= *count && *count <= 3800,
            "bucket {} holds {} of 10000",
            i,
            count
        );
    }
}
