//! Fixed-point circle geometry for burst targets.
//!
//! A burst target is sampled in polar form from two uniform draws `a` and `b`
//! in `[0, 100)`: the angle is `a/100` of a turn and the radius is
//! `MAX_R * sqrt(b/100)` cells, so that the squared distance is uniform and
//! the targets are area-uniform over the burst disk rather than clustered at
//! its centre. All of it is integer arithmetic: cosines are scaled by 1024
//! and truncated toward zero, the radius is a 1024-scaled integer square
//! root, and a component is the floor of the product scaled back down by
//! 2^20.

use vstd::prelude::*;
use vstd::arithmetic::div_mod::lemma_fundamental_div_mod_converse_div;
use vstd::arithmetic::div_mod::lemma_div_is_ordered;

verus! {

/// Greatest burst radius, in cells.
pub const MAX_R: u16 = 10;

/// `FX_ONE` is 1024 * 1024: the scale of a product of a 1024-scaled radius
/// and a 1024-scaled cosine.
pub const FX_ONE: u64 = 1048576;

/// `1024 * cos(k/100 of a turn)`, truncated toward zero, for the first
/// quarter turn `0 <= k <= 25`.
pub open spec fn quarter_cos(k: int) -> int {
    if k <= 0 { 1024 }
    else if k == 1 { 1021 }
    else if k == 2 { 1015 }
    else if k == 3 { 1005 }
    else if k == 4 { 991 }
    else if k == 5 { 973 }
    else if k == 6 { 952 }
    else if k == 7 { 926 }
    else if k == 8 { 897 }
    else if k == 9 { 864 }
    else if k == 10 { 828 }
    else if k == 11 { 789 }
    else if k == 12 { 746 }
    else if k == 13 { 700 }
    else if k == 14 { 652 }
    else if k == 15 { 601 }
    else if k == 16 { 548 }
    else if k == 17 { 493 }
    else if k == 18 { 435 }
    else if k == 19 { 376 }
    else if k == 20 { 316 }
    else if k == 21 { 254 }
    else if k == 22 { 191 }
    else if k == 23 { 128 }
    else if k == 24 { 64 }
    else { 0 }
}

/// `1024 * cos(a/100 of a turn)`, truncated toward zero, over a whole turn,
/// by quadrant symmetry of the quarter table.
pub open spec fn fx_cos(a: int) -> int {
    if a <= 25 { quarter_cos(a) }
    else if a <= 50 { -quarter_cos(50 - a) }
    else if a <= 75 { -quarter_cos(a - 50) }
    else { quarter_cos(100 - a) }
}

/// `1024 * sin(a/100 of a turn)`: the cosine a quarter turn behind.
pub open spec fn fx_sin(a: int) -> int {
    if a >= 25 { fx_cos(a - 25) } else { fx_cos(a + 75) }
}

/// The integer square root: the greatest `r` with `r * r <= n`.
pub open spec fn isqrt_spec(n: nat) -> nat
    decreases n,
{
    if n == 0 {
        0
    } else {
        let r = isqrt_spec((n - 1) as nat);
        if (r + 1) * (r + 1) <= n { r + 1 } else { r }
    }
}

/// The 1024-scaled burst radius for a radius draw `b`: since
/// `MAX_R * sqrt(b/100) = sqrt(b)` cells, this is `floor(1024 * sqrt(b))`.
pub open spec fn rad_fix(b: int) -> int {
    isqrt_spec((b * 1048576) as nat) as int
}

/// Horizontal component of the sampled burst offset, in whole cells:
/// `floor(sqrt(b) * cos(a/100 turn))`.
pub open spec fn burst_dx(a: int, b: int) -> int {
    (rad_fix(b) * fx_cos(a)) / 1048576
}

/// Vertical component of the sampled burst offset, in whole cells:
/// `floor(sqrt(b) * sin(a/100 turn))`.
pub open spec fn burst_dy(a: int, b: int) -> int {
    (rad_fix(b) * fx_sin(a)) / 1048576
}

pub proof fn lemma_quarter_cos_bounds(k: int)
    requires
        0 <= k <= 25,
    ensures
        0 <= quarter_cos(k) <= 1024,
        quarter_cos(k) * quarter_cos(k) + quarter_cos(25 - k) * quarter_cos(25 - k) <= 1048576,
{
}

/// The scaled cosine and sine of one angle draw are a quarter-table pair in
/// absolute value, so their squares sum to at most 1024 * 1024.
pub proof fn lemma_fx_norm(a: int)
    requires
        0 <= a < 100,
    ensures
        -1024 <= fx_cos(a) <= 1024,
        -1024 <= fx_sin(a) <= 1024,
        fx_cos(a) * fx_cos(a) + fx_sin(a) * fx_sin(a) <= 1048576,
{
    let c = fx_cos(a);
    let s = fx_sin(a);
    if a <= 25 {
        lemma_quarter_cos_bounds(a);
        assert(c == quarter_cos(a));
        assert(s == quarter_cos(25 - a));
    } else if a <= 50 {
        let j = 50 - a;
        lemma_quarter_cos_bounds(j);
        assert(c == -quarter_cos(j));
        assert(s == quarter_cos(25 - j));
        assert(c * c == quarter_cos(j) * quarter_cos(j)) by (nonlinear_arith)
            requires c == -quarter_cos(j);
    } else if a <= 75 {
        let j = a - 50;
        lemma_quarter_cos_bounds(j);
        assert(c == -quarter_cos(j));
        assert(s == -quarter_cos(25 - j));
        assert(c * c == quarter_cos(j) * quarter_cos(j)) by (nonlinear_arith)
            requires c == -quarter_cos(j);
        assert(s * s == quarter_cos(25 - j) * quarter_cos(25 - j)) by (nonlinear_arith)
            requires s == -quarter_cos(25 - j);
    } else {
        let j = 100 - a;
        lemma_quarter_cos_bounds(j);
        assert(c == quarter_cos(j));
        assert(s == -quarter_cos(25 - j));
        assert(s * s == quarter_cos(25 - j) * quarter_cos(25 - j)) by (nonlinear_arith)
            requires s == -quarter_cos(25 - j);
    }
}

pub proof fn lemma_isqrt_bounds(n: nat)
    ensures
        isqrt_spec(n) * isqrt_spec(n) <= n,
        n < (isqrt_spec(n) + 1) * (isqrt_spec(n) + 1),
    decreases n,
{
    if n == 0 {
        assert(isqrt_spec(n) == 0);
        assert(n < (isqrt_spec(n) + 1) * (isqrt_spec(n) + 1)) by (nonlinear_arith)
            requires n == 0, isqrt_spec(n) == 0;
    } else {
        lemma_isqrt_bounds((n - 1) as nat);
        let r = isqrt_spec((n - 1) as nat);
        assert(isqrt_spec(n) == if (r + 1) * (r + 1) <= n { r + 1 } else { r });
        if (r + 1) * (r + 1) <= n {
            assert(n - 1 < (r + 1) * (r + 1));
            assert(n < (r + 2) * (r + 2)) by (nonlinear_arith)
                requires n <= (r + 1) * (r + 1), r >= 0;
            assert(isqrt_spec(n) + 1 == r + 2);
            assert(n < (isqrt_spec(n) + 1) * (isqrt_spec(n) + 1));
        } else {
            assert(isqrt_spec(n) == r);
            assert(n < (r + 1) * (r + 1));
        }
    }
}

pub proof fn lemma_isqrt_unique(n: nat, r: nat)
    requires
        r * r <= n,
        n < (r + 1) * (r + 1),
    ensures
        r == isqrt_spec(n),
{
    lemma_isqrt_bounds(n);
    let s = isqrt_spec(n);
    assert(r == s) by (nonlinear_arith)
        requires
            r * r <= n,
            n < (r + 1) * (r + 1),
            s * s <= n,
            n < (s + 1) * (s + 1),
            r >= 0,
            s >= 0;
}

/// Law: a sampled burst offset never leaves the burst disk. The fixed-point
/// offset vector has squared norm at most `b * 2^40`, which is strictly
/// below `MAX_R * MAX_R * 2^40`.
pub proof fn lemma_burst_in_disk(a: int, b: int)
    requires
        0 <= a < 100,
        0 <= b < 100,
    ensures
        (rad_fix(b) * fx_cos(a)) * (rad_fix(b) * fx_cos(a))
            + (rad_fix(b) * fx_sin(a)) * (rad_fix(b) * fx_sin(a))
            <= b * 0x100_0000_0000,
        b * 0x100_0000_0000 < (MAX_R as int) * (MAX_R as int) * 0x100_0000_0000,
{
    lemma_fx_norm(a);
    lemma_isqrt_bounds((b * 1048576) as nat);
    let rad = rad_fix(b);
    let c = fx_cos(a);
    let s = fx_sin(a);
    assert(rad >= 0);
    assert(rad * rad <= b * 1048576);
    assert(0 <= c * c) by (nonlinear_arith);
    assert(0 <= s * s) by (nonlinear_arith);
    assert((rad * c) * (rad * c) + (rad * s) * (rad * s) <= b * 0x100_0000_0000)
        by (nonlinear_arith)
        requires
            rad >= 0,
            rad * rad <= b * 1048576,
            c * c + s * s <= 1048576,
            0 <= c * c,
            0 <= s * s,
            b >= 0;
}

fn quarter_cos_x(k: u64) -> (c: i64)
    requires
        k <= 25,
    ensures
        c == quarter_cos(k as int),
{
    if k == 0 { 1024 }
    else if k == 1 { 1021 }
    else if k == 2 { 1015 }
    else if k == 3 { 1005 }
    else if k == 4 { 991 }
    else if k == 5 { 973 }
    else if k == 6 { 952 }
    else if k == 7 { 926 }
    else if k == 8 { 897 }
    else if k == 9 { 864 }
    else if k == 10 { 828 }
    else if k == 11 { 789 }
    else if k == 12 { 746 }
    else if k == 13 { 700 }
    else if k == 14 { 652 }
    else if k == 15 { 601 }
    else if k == 16 { 548 }
    else if k == 17 { 493 }
    else if k == 18 { 435 }
    else if k == 19 { 376 }
    else if k == 20 { 316 }
    else if k == 21 { 254 }
    else if k == 22 { 191 }
    else if k == 23 { 128 }
    else if k == 24 { 64 }
    else { 0 }
}

fn fx_cos_x(a: u64) -> (c: i64)
    requires
        a < 100,
    ensures
        c == fx_cos(a as int),
{
    if a <= 25 { quarter_cos_x(a) }
    else if a <= 50 { -quarter_cos_x(50 - a) }
    else if a <= 75 { -quarter_cos_x(a - 50) }
    else { quarter_cos_x(100 - a) }
}

fn fx_sin_x(a: u64) -> (s: i64)
    requires
        a < 100,
    ensures
        s == fx_sin(a as int),
{
    if a >= 25 { fx_cos_x(a - 25) } else { fx_cos_x(a + 75) }
}

/// The integer square root by upward search.
pub fn isqrt(n: u64) -> (r: u64)
    requires
        n < 0x4000_0000,
    ensures
        r == isqrt_spec(n as nat),
        r * r <= n < (r + 1) * (r + 1),
{
    let mut r: u64 = 0;
    loop
        invariant_except_break
            n < 0x4000_0000,
            r * r <= n,
            r <= 0x8000,
        ensures
            r * r <= n < (r + 1) * (r + 1),
        decreases 0x8000 - r,
    {
        proof {
            assert((r + 1) * (r + 1) < 0x2_0000_0000) by (nonlinear_arith)
                requires r <= 0x8000int;
        }
        let sq = (r + 1) * (r + 1);
        if sq > n {
            break;
        }
        proof {
            assert(r + 1 <= 0x8000) by (nonlinear_arith)
                requires (r + 1) * (r + 1) <= 0x4000_0000int, r >= 0;
        }
        r = r + 1;
    }
    proof {
        lemma_isqrt_unique(n as nat, r as nat);
    }
    r
}

/// One offset component: the floor of `rs * c / 2^20`, computed on
/// magnitudes so that the division rounds toward minus infinity.
fn scaled_component(rs: u64, c: i64) -> (q: i64)
    requires
        rs <= 10239,
        -1024 <= c <= 1024,
    ensures
        q == (rs * c) / 1048576,
        -(MAX_R as int) <= q <= MAX_R as int,
{
    let cabs: u64 = if c >= 0 { c as u64 } else { (-c) as u64 };
    proof {
        assert(rs * cabs <= 10239int * 1024) by (nonlinear_arith)
            requires rs <= 10239, cabs <= 1024, rs >= 0, cabs >= 0;
    }
    let mag: u64 = rs * cabs;
    let q0: u64 = mag / 1048576;
    let r0: u64 = mag % 1048576;
    proof {
        lemma_div_is_ordered(mag as int, 10239int * 1024, 1048576);
        assert(q0 <= 9);
    }
    if c >= 0 {
        assert(rs * c == mag as int) by (nonlinear_arith)
            requires c >= 0, cabs == c, mag == rs * cabs;
        q0 as i64
    } else {
        proof {
            assert(rs * c == -(mag as int)) by (nonlinear_arith)
                requires c < 0, cabs == -c, mag == rs * cabs, rs >= 0;
            assert(mag == 1048576 * q0 + r0);
        }
        if r0 == 0 {
            proof {
                lemma_fundamental_div_mod_converse_div(
                    -(mag as int), 1048576, -(q0 as int), 0);
                assert(-(mag as int) == (-(q0 as int)) * 1048576 + 0) by (nonlinear_arith)
                    requires mag == 1048576 * q0 + 0;
            }
            -(q0 as i64)
        } else {
            proof {
                assert(-(mag as int) == (-(q0 as int) - 1) * 1048576 + (1048576 - r0))
                    by (nonlinear_arith)
                    requires mag == 1048576 * q0 + r0;
                lemma_fundamental_div_mod_converse_div(
                    -(mag as int), 1048576, -(q0 as int) - 1, 1048576 - r0 as int);
            }
            -(q0 as i64) - 1
        }
    }
}

/// The whole-cell burst offset sampled from an angle draw `a` and a radius
/// draw `b`, both uniform in `[0, 100)`. Each component is at most `MAX_R`
/// in magnitude.
pub fn burst_offset(a: u64, b: u64) -> (d: (i64, i64))
    requires
        a < 100,
        b < 100,
    ensures
        d.0 == burst_dx(a as int, b as int),
        d.1 == burst_dy(a as int, b as int),
        -(MAX_R as int) <= d.0 <= MAX_R as int,
        -(MAX_R as int) <= d.1 <= MAX_R as int,
{
    let rs = isqrt(b * 1048576);
    proof {
        assert(rs <= 10239) by (nonlinear_arith)
            requires rs * rs <= 99 * 1048576int, rs >= 0;
        lemma_fx_norm(a as int);
    }
    let c = fx_cos_x(a);
    let s = fx_sin_x(a);
    let dx = scaled_component(rs, c);
    let dy = scaled_component(rs, s);
    (dx, dy)
}

} // verus!
