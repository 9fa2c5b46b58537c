//! Projector: the angular sweep of the rays and the perspective-corrected
//! column height.
//!
//! Rays sweep from `heading + fov/2` downward in exact steps of
//! `fov/samples` while the column index increases, so the leftmost column
//! belongs to the largest angle. The projected height divides the screen
//! height by the hit distance scaled by the cosine of the ray's incidence
//! against the heading, which undoes the fisheye bowing of raw distances.

use vstd::prelude::*;
use crate::rat::{Frac, rle, rlt, req};
use crate::geom::{SCALE, dir_ok, t_bounded};
use vstd::arithmetic::div_mod::lemma_fundamental_div_mod_converse;

verus! {

/// An angle or field of view in 16.24 fixed-point radians, bounded so that
/// every sweep numerator fits its word.
pub open spec fn angle_ok(a: i64) -> bool {
    -0x1000_0000_0000 <= a <= 0x1000_0000_0000
}

/// The exact `i`-th sweep angle for `n` samples:
/// `heading + fov/2 - i * fov/n`, as a rational over `2 * n * SCALE`.
pub open spec fn sweep_angle(dir: int, fov: int, n: int, i: int) -> (int, int) {
    (2 * n * dir + (n - 2 * i) * fov, 2 * n * (SCALE as int))
}

/// The exact sweep of `samples` ray angles, widest first.
pub fn sweep_angles(dir_fp: i64, fov_fp: i64, samples: u32) -> (r: Vec<Frac>)
    requires
        angle_ok(dir_fp),
        angle_ok(fov_fp),
        1 <= samples <= 4096,
    ensures
        r@.len() == samples,
        forall|i: int|
            0 <= i < samples ==> (#[trigger] r@[i]).pair() == sweep_angle(
                dir_fp as int,
                fov_fp as int,
                samples as int,
                i,
            ) && r@[i].wf(),
{
    let n: i64 = samples as i64;
    let den: i64 = 2 * n * SCALE;
    let mut r: Vec<Frac> = Vec::new();
    let mut i: u32 = 0;
    while i < samples
        invariant
            0 <= i <= samples,
            1 <= samples <= 4096,
            angle_ok(dir_fp),
            angle_ok(fov_fp),
            n == samples as i64,
            den == 2 * (samples as int) * (SCALE as int),
            r@.len() == i,
            forall|j: int|
                0 <= j < i ==> (#[trigger] r@[j]).pair() == sweep_angle(
                    dir_fp as int,
                    fov_fp as int,
                    samples as int,
                    j,
                ) && r@[j].wf(),
        decreases samples - i,
    {
        proof {
            assert(-0x2000_0000_0000_0000 <= 2 * (n as int) * (dir_fp as int)
                <= 0x2000_0000_0000_0000 && -0x2000_0000_0000_0000 <= ((n as int) - 2 * (
            i as int)) * (fov_fp as int) <= 0x2000_0000_0000_0000) by (nonlinear_arith)
                requires
                    1 <= n <= 4096,
                    0 <= i < n,
                    -0x1000_0000_0000 <= dir_fp as int <= 0x1000_0000_0000,
                    -0x1000_0000_0000 <= fov_fp as int <= 0x1000_0000_0000,
            ;
        }
        let num: i64 = 2 * n * dir_fp + (n - 2 * (i as i64)) * fov_fp;
        r.push(Frac { num, den });
        i += 1;
    }
    r
}

/// The sweep is strictly decreasing for a positive field of view: each
/// angle is strictly below the one before it.
pub proof fn lemma_sweep_strictly_decreasing(dir: int, fov: int, n: int, i: int)
    requires
        n >= 1,
        fov > 0,
        0 <= i,
        i + 1 < n,
    ensures
        rlt(sweep_angle(dir, fov, n, i + 1), sweep_angle(dir, fov, n, i)),
{
    let d = 2 * n * (SCALE as int);
    let a = sweep_angle(dir, fov, n, i + 1);
    let b = sweep_angle(dir, fov, n, i);
    assert((n - 2 * (i + 1)) * fov == (n - 2 * i) * fov - 2 * fov) by (nonlinear_arith);
    assert(a.0 == b.0 - 2 * fov);
    assert((b.0 - 2 * fov) * d < b.0 * d) by (nonlinear_arith)
        requires
            d > 0,
            fov > 0,
    ;
}

/// Consecutive sweep angles are spaced by exactly `fov / n`.
pub proof fn lemma_sweep_spacing(dir: int, fov: int, n: int, i: int)
    requires
        n >= 1,
        0 <= i,
        i + 1 < n,
    ensures
        req(
            (sweep_angle(dir, fov, n, i).0 - sweep_angle(dir, fov, n, i + 1).0, 2 * n * (
            SCALE as int)),
            (fov, n * (SCALE as int)),
        ),
{
    let s = SCALE as int;
    assert((n - 2 * (i + 1)) * fov == (n - 2 * i) * fov - 2 * fov) by (nonlinear_arith);
    assert(sweep_angle(dir, fov, n, i).0 - sweep_angle(dir, fov, n, i + 1).0 == 2 * fov);
    assert((2 * fov) * (n * s) == fov * (2 * n * s)) by (nonlinear_arith);
}

/// The raw projected height of a hit at parameter `tn / td` whose incidence
/// cosine is `cos_fp / SCALE`: the floor of
/// `screen_h / ((tn/td) * (cos_fp/SCALE))`. A non-positive divisor projects
/// behind or beside the camera: on zero the column is unbounded, on a
/// negative value it vanishes.
pub open spec fn height_raw(screen_h: int, tn: int, td: int, cos_fp: int) -> int {
    let d = tn * cos_fp;
    if d < 0 {
        0
    } else if d == 0 {
        0xffff_ffff
    } else {
        (screen_h * (SCALE as int) * td) / d
    }
}

/// `height_raw` held to a machine word.
pub open spec fn clip_u32(h: int) -> int {
    if h > 0xffff_ffff {
        0xffff_ffff
    } else {
        h
    }
}

/// Converts a hit distance and incidence cosine into the projected column
/// height in pixels. The caller clamps the result to the viewport; this
/// function never does.
pub fn distance_to_height(dist: &Frac, cos_fp: i64, screen_h: u32) -> (r: u32)
    requires
        t_bounded(*dist),
        dist.num >= 0,
        dir_ok(cos_fp),
        screen_h <= 65536,
    ensures
        r == clip_u32(height_raw(screen_h as int, dist.num as int, dist.den as int, cos_fp as int)),
{
    proof {
        crate::rat::lemma_i64_mul_fits(dist.num as int, cos_fp as int);
        crate::rat::lemma_i64_mul_fits((screen_h as int) * (SCALE as int), dist.den as int);
    }
    let d: i128 = (dist.num as i128) * (cos_fp as i128);
    if d < 0 {
        0
    } else if d == 0 {
        0xffff_ffff
    } else {
        let numerator: i128 = ((screen_h as i128) * (SCALE as i128)) * (dist.den as i128);
        let q: i128 = numerator / d;
        if q > 0xffff_ffff {
            0xffff_ffff
        } else {
            q as u32
        }
    }
}

/// A hit at distance one with zero incidence projects to exactly the screen
/// height.
pub proof fn lemma_unit_distance_full_height(screen_h: int, t: (int, int))
    requires
        screen_h >= 0,
        t.1 > 0,
        t.0 == t.1,
    ensures
        height_raw(screen_h, t.0, t.1, SCALE as int) == screen_h,
{
    let s = SCALE as int;
    assert(t.0 * s > 0) by (nonlinear_arith)
        requires
            t.0 > 0,
            s > 0,
    ;
    assert(screen_h * s * t.1 == screen_h * (t.0 * s) + 0) by (nonlinear_arith)
        requires
            t.0 == t.1,
    ;
    lemma_fundamental_div_mod_converse(screen_h * s * t.1, t.0 * s, screen_h, 0);
}

/// The exact projected height, before flooring, as a rational.
pub open spec fn height_exact(screen_h: int, t: (int, int), cos_fp: int) -> (int, int) {
    (screen_h * (SCALE as int) * t.1, t.0 * cos_fp)
}

/// For a fixed incidence, the exact projected height is strictly decreasing
/// in the hit distance: a strictly farther hit draws a strictly shorter
/// column.
pub proof fn lemma_height_decreasing_in_distance(
    screen_h: int,
    t1: (int, int),
    t2: (int, int),
    cos_fp: int,
)
    requires
        screen_h > 0,
        cos_fp > 0,
        t1.1 > 0,
        t2.1 > 0,
        t1.0 > 0,
        rlt(t1, t2),
    ensures
        height_exact(screen_h, t1, cos_fp).1 > 0,
        height_exact(screen_h, t2, cos_fp).1 > 0,
        rlt(height_exact(screen_h, t2, cos_fp), height_exact(screen_h, t1, cos_fp)),
{
    let s = SCALE as int;
    assert(t1.0 * cos_fp > 0 && t2.0 * cos_fp > 0 && (screen_h * s * t2.1) * (t1.0 * cos_fp) < (
    screen_h * s * t1.1) * (t2.0 * cos_fp)) by (nonlinear_arith)
        requires
            screen_h > 0,
            s > 0,
            cos_fp > 0,
            t1.1 > 0,
            t2.1 > 0,
            t1.0 > 0,
            t1.0 * t2.1 < t2.0 * t1.1,
    ;
}

/// The pixel height the projector computes never inverts the order of the
/// exact heights: flooring is weakly monotone, so a farther hit never draws
/// a taller column than a nearer one.
pub proof fn lemma_height_raw_monotone(
    screen_h: int,
    t1: (int, int),
    t2: (int, int),
    cos_fp: int,
)
    requires
        screen_h >= 0,
        cos_fp > 0,
        t1.1 > 0,
        t2.1 > 0,
        t1.0 > 0,
        rle(t1, t2),
    ensures
        height_raw(screen_h, t2.0, t2.1, cos_fp) <= height_raw(screen_h, t1.0, t1.1, cos_fp),
{
    let s = SCALE as int;
    let d1 = t1.0 * cos_fp;
    let d2 = t2.0 * cos_fp;
    let n1 = screen_h * s * t1.1;
    let n2 = screen_h * s * t2.1;
    assert(d1 > 0 && d2 > 0 && n1 >= 0 && n2 >= 0) by (nonlinear_arith)
        requires
            t1.0 > 0,
            cos_fp > 0,
            t1.1 > 0,
            t2.1 > 0,
            screen_h >= 0,
            s > 0,
            t1.0 * t2.1 <= t2.0 * t1.1,
            d1 == t1.0 * cos_fp,
            d2 == t2.0 * cos_fp,
            n1 == screen_h * s * t1.1,
            n2 == screen_h * s * t2.1,
    ;
    assert(n2 * d1 <= n1 * d2) by (nonlinear_arith)
        requires
            t1.0 * t2.1 <= t2.0 * t1.1,
            screen_h >= 0,
            s > 0,
            cos_fp > 0,
            d1 == t1.0 * cos_fp,
            d2 == t2.0 * cos_fp,
            n1 == screen_h * s * t1.1,
            n2 == screen_h * s * t2.1,
    ;
    let q = n1 / d1;
    vstd::arithmetic::div_mod::lemma_div_pos_is_pos(n1, d1);
    assert(n1 < d1 * (q + 1)) by {
        vstd::arithmetic::div_mod::lemma_fundamental_div_mod(n1, d1);
        vstd::arithmetic::div_mod::lemma_mod_bound(n1, d1);
        assert(d1 * (q + 1) == d1 * q + d1) by (nonlinear_arith);
    }
    assert(n2 < (q + 1) * d2) by (nonlinear_arith)
        requires
            n2 * d1 <= n1 * d2,
            n1 < d1 * (q + 1),
            d1 > 0,
            d2 > 0,
            n2 >= 0,
    ;
    assert((q + 1) * d2 - 1 == q * d2 + (d2 - 1)) by (nonlinear_arith);
    vstd::arithmetic::div_mod::lemma_div_is_ordered(n2, (q + 1) * d2 - 1, d2);
    lemma_fundamental_div_mod_converse((q + 1) * d2 - 1, d2, q, d2 - 1);
}

/// For a fixed distance, the exact projected height is strictly decreasing
/// in the incidence cosine: as the incidence angle moves away from zero its
/// cosine falls, so the column grows.
pub proof fn lemma_height_increasing_with_incidence(
    screen_h: int,
    t: (int, int),
    cos_big: int,
    cos_small: int,
)
    requires
        screen_h > 0,
        t.1 > 0,
        t.0 > 0,
        0 < cos_small < cos_big,
    ensures
        rlt(height_exact(screen_h, t, cos_big), height_exact(screen_h, t, cos_small)),
{
    let s = SCALE as int;
    assert((screen_h * s * t.1) * (t.0 * cos_small) < (screen_h * s * t.1) * (t.0 * cos_big))
        by (nonlinear_arith)
        requires
            screen_h > 0,
            s > 0,
            t.1 > 0,
            t.0 > 0,
            0 < cos_small < cos_big,
    ;
}

} // verus!
