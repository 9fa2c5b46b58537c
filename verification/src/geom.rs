//! Geometry kernel: ray against axis-aligned unit cell, by the slab method.
//!
//! Positions and direction vectors are 16.24 fixed point: a field `c` stands
//! for the real coordinate `c / SCALE`. An obstacle is the lower corner of a
//! unit-size axis-aligned square cell, held in whole cell units. The ray
//! parameter at which the ray meets a slab boundary is an exact rational, so
//! the intersection decision and the returned distance are exact.

use vstd::prelude::*;
use crate::rat::{Frac, rle, rlt, req, rnonneg};

verus! {

/// Fixed-point scale: coordinate fields count units of `1 / SCALE`.
pub const SCALE: i64 = 0x100_0000;

/// A position or direction vector, both coordinates in 16.24 fixed point.
#[derive(Clone, Copy, Debug, PartialEq, Eq, Structural)]
pub struct Point {
    pub x: i64,
    pub y: i64,
}

/// The lower corner of a unit-size axis-aligned square cell, in whole cells.
#[derive(Clone, Copy, Debug, PartialEq, Eq, Structural)]
pub struct Obstacle {
    pub x: i64,
    pub y: i64,
}

/// A position coordinate small enough for every product formed here.
pub open spec fn coord_ok(c: i64) -> bool {
    -0x1000_0000_0000 <= c <= 0x1000_0000_0000
}

pub open spec fn point_ok(p: Point) -> bool {
    coord_ok(p.x) && coord_ok(p.y)
}

/// A direction component; unit vectors keep components within one `SCALE`,
/// with slack for rounding by the host's trigonometry.
pub open spec fn dir_ok(v: i64) -> bool {
    -0x200_0000 <= v <= 0x200_0000
}

pub open spec fn vec_ok(v: Point) -> bool {
    dir_ok(v.x) && dir_ok(v.y)
}

/// A cell coordinate of the obstacle map.
pub open spec fn cell_ok(c: i64) -> bool {
    -0x10_0000 <= c <= 0x10_0000
}

pub open spec fn obstacle_ok(b: Obstacle) -> bool {
    cell_ok(b.x) && cell_ok(b.y)
}

/// A ray parameter produced by one slab division: bounded enough for the
/// cross-multiplications of every later comparison.
pub open spec fn t_bounded(t: Frac) -> bool {
    -0x4000_0000_0000 <= t.num <= 0x4000_0000_0000 && 0 < t.den <= 0x200_0000
}

/// The parameter at which the ray enters the slab `[c, c+1]` on one axis,
/// as an exact rational with positive denominator; only used when `v != 0`.
pub open spec fn slab_lo(c: int, o: int, v: int) -> (int, int) {
    if v > 0 {
        (c * (SCALE as int) - o, v)
    } else {
        (o - c * (SCALE as int) - (SCALE as int), -v)
    }
}

/// The parameter at which the ray leaves the slab `[c, c+1]` on one axis.
pub open spec fn slab_hi(c: int, o: int, v: int) -> (int, int) {
    if v > 0 {
        (c * (SCALE as int) + (SCALE as int) - o, v)
    } else {
        (o - c * (SCALE as int), -v)
    }
}

/// The fixed-point coordinate `o` lies within the slab `[c, c+1]`.
pub open spec fn in_slab(c: int, o: int) -> bool {
    c * (SCALE as int) <= o <= c * (SCALE as int) + (SCALE as int)
}

/// The larger of two rationals, keeping the first on a tie.
pub open spec fn rmax(a: (int, int), b: (int, int)) -> (int, int) {
    if rlt(a, b) {
        b
    } else {
        a
    }
}

/// The smaller of two rationals, keeping the first on a tie.
pub open spec fn rmin(a: (int, int), b: (int, int)) -> (int, int) {
    if rlt(a, b) {
        a
    } else {
        b
    }
}

/// Whether the ray from `o` along `v` meets the unit cell at `b` at a
/// non-negative parameter. An axis whose direction component is zero
/// contributes no parametric interval; instead the origin must already lie
/// within that axis's slab.
pub open spec fn hits(o: Point, v: Point, b: Obstacle) -> bool {
    if v.x == 0 && v.y == 0 {
        false
    } else if v.y == 0 {
        in_slab(b.y as int, o.y as int) && rnonneg(slab_lo(b.x as int, o.x as int, v.x as int))
    } else if v.x == 0 {
        in_slab(b.x as int, o.x as int) && rnonneg(slab_lo(b.y as int, o.y as int, v.y as int))
    } else {
        let tmin = rmax(
            slab_lo(b.x as int, o.x as int, v.x as int),
            slab_lo(b.y as int, o.y as int, v.y as int),
        );
        let tmax = rmin(
            slab_hi(b.x as int, o.x as int, v.x as int),
            slab_hi(b.y as int, o.y as int, v.y as int),
        );
        rnonneg(tmin) && rle(tmin, tmax)
    }
}

/// The entry parameter of a hit: the tightest slab entry over both axes.
/// For the unit-length directions of the data model this parameter is the
/// Euclidean distance from the origin to the hit point.
pub open spec fn hit_t(o: Point, v: Point, b: Obstacle) -> (int, int) {
    if v.y == 0 {
        slab_lo(b.x as int, o.x as int, v.x as int)
    } else if v.x == 0 {
        slab_lo(b.y as int, o.y as int, v.y as int)
    } else {
        rmax(
            slab_lo(b.x as int, o.x as int, v.x as int),
            slab_lo(b.y as int, o.y as int, v.y as int),
        )
    }
}

/// The point `origin + t * vec` lies on the boundary of the unit cell at
/// `b`. The point's coordinates are the rationals
/// `(o.a * t.1 + t.0 * v.a) / (SCALE * t.1)` in cell units, so the clauses
/// compare those numerators against the cell faces scaled by `SCALE * t.1`.
pub open spec fn on_boundary(o: Point, v: Point, b: Obstacle, t: (int, int)) -> bool {
    let s = SCALE as int;
    let pxn = o.x * t.1 + t.0 * v.x;
    let pyn = o.y * t.1 + t.0 * v.y;
    ((pxn == b.x * s * t.1 || pxn == (b.x + 1) * s * t.1) && b.y * s * t.1 <= pyn <= (b.y + 1)
        * s * t.1) || ((pyn == b.y * s * t.1 || pyn == (b.y + 1) * s * t.1) && b.x * s * t.1
        <= pxn <= (b.x + 1) * s * t.1)
}

/// A slab entry parameter puts the coordinate of its own axis exactly on a
/// cell face: the lower face along a positive direction, the upper face
/// along a negative one.
proof fn lemma_axis_on_face(c: int, o: int, v: int, t: (int, int))
    requires
        v != 0,
        t == slab_lo(c, o, v),
    ensures
        t.1 > 0,
        v > 0 ==> o * t.1 + t.0 * v == c * (SCALE as int) * t.1,
        v < 0 ==> o * t.1 + t.0 * v == (c + 1) * (SCALE as int) * t.1,
{
    let s = SCALE as int;
    if v > 0 {
        assert(o * v + (c * s - o) * v == c * s * v) by (nonlinear_arith);
    } else {
        assert(o * (-v) + (o - c * s - s) * v == (c + 1) * s * (-v)) by (nonlinear_arith);
    }
}

/// A parameter between a slab's entry and exit keeps the coordinate of that
/// axis within the slab.
proof fn lemma_axis_in_slab(c: int, o: int, v: int, t: (int, int))
    requires
        v != 0,
        t.1 > 0,
        rle(slab_lo(c, o, v), t),
        rle(t, slab_hi(c, o, v)),
    ensures
        c * (SCALE as int) * t.1 <= o * t.1 + t.0 * v <= (c + 1) * (SCALE as int) * t.1,
{
    let s = SCALE as int;
    if v > 0 {
        assert((c * s - o) * t.1 <= t.0 * v);
        assert(t.0 * v <= (c * s + s - o) * t.1);
        assert(c * s * t.1 <= o * t.1 + t.0 * v) by (nonlinear_arith)
            requires
                (c * s - o) * t.1 <= t.0 * v,
        ;
        assert(o * t.1 + t.0 * v <= (c + 1) * s * t.1) by (nonlinear_arith)
            requires
                t.0 * v <= (c * s + s - o) * t.1,
        ;
    } else {
        assert((o - c * s - s) * t.1 <= t.0 * (-v));
        assert(t.0 * (-v) <= (o - c * s) * t.1);
        assert(o * t.1 + t.0 * v <= (c + 1) * s * t.1) by (nonlinear_arith)
            requires
                (o - c * s - s) * t.1 <= t.0 * (-v),
        ;
        assert(c * s * t.1 <= o * t.1 + t.0 * v) by (nonlinear_arith)
            requires
                t.0 * (-v) <= (o - c * s) * t.1,
        ;
    }
}

/// An origin coordinate already inside a slab stays inside it after scaling
/// both slab faces by a positive denominator.
proof fn lemma_para_in_slab(c: int, o: int, t1: int)
    requires
        t1 > 0,
        in_slab(c, o),
    ensures
        c * (SCALE as int) * t1 <= o * t1 <= (c + 1) * (SCALE as int) * t1,
{
    let s = SCALE as int;
    assert(c * s * t1 <= o * t1 && o * t1 <= (c + 1) * s * t1) by (nonlinear_arith)
        requires
            t1 > 0,
            c * s <= o <= c * s + s,
    ;
}

/// Every hit lies on the cell boundary: whenever the ray meets the cell, the
/// returned parameter is non-negative and the point `origin + t * vec` lies
/// exactly on a face of the unit cell, within the cell's extent on the other
/// axis. Stated and proved over the exact rational model.
pub proof fn lemma_hit_on_boundary(o: Point, v: Point, b: Obstacle)
    requires
        hits(o, v, b),
    ensures
        ({
            let t = hit_t(o, v, b);
            t.1 > 0 && t.0 >= 0 && on_boundary(o, v, b, t)
        }),
{
    let s = SCALE as int;
    let t = hit_t(o, v, b);
    if v.y == 0 {
        lemma_axis_on_face(b.x as int, o.x as int, v.x as int, t);
        lemma_para_in_slab(b.y as int, o.y as int, t.1);
        assert(o.y * t.1 + t.0 * v.y == o.y * t.1);
    } else if v.x == 0 {
        lemma_axis_on_face(b.y as int, o.y as int, v.y as int, t);
        lemma_para_in_slab(b.x as int, o.x as int, t.1);
        assert(o.x * t.1 + t.0 * v.x == o.x * t.1);
    } else {
        let lox = slab_lo(b.x as int, o.x as int, v.x as int);
        let loy = slab_lo(b.y as int, o.y as int, v.y as int);
        let hix = slab_hi(b.x as int, o.x as int, v.x as int);
        let hiy = slab_hi(b.y as int, o.y as int, v.y as int);
        let tmax = rmin(hix, hiy);
        assert(rle(t, tmax));
        assert(lox.1 > 0 && loy.1 > 0 && hix.1 > 0 && hiy.1 > 0);
        // The entry parameter is below both exits.
        if rlt(hix, hiy) {
            crate::rat::lemma_rle_trans_raw(t.0, t.1, hix.0, hix.1, hiy.0, hiy.1);
        } else {
            crate::rat::lemma_rle_trans_raw(t.0, t.1, hiy.0, hiy.1, hix.0, hix.1);
        }
        assert(rle(t, hix) && rle(t, hiy));
        if rlt(lox, loy) {
            // The y axis decides the entry: the point is on a y face.
            lemma_axis_on_face(b.y as int, o.y as int, v.y as int, t);
            lemma_axis_in_slab(b.x as int, o.x as int, v.x as int, t);
        } else {
            // The x axis decides the entry: the point is on an x face.
            lemma_axis_on_face(b.x as int, o.x as int, v.x as int, t);
            lemma_axis_in_slab(b.y as int, o.y as int, v.y as int, t);
        }
    }
}

/// The slab entry parameter on one axis, as an exact `Frac`.
fn axis_lo(c: i64, o: i64, v: i64) -> (r: Frac)
    requires
        cell_ok(c),
        coord_ok(o),
        dir_ok(v),
        v != 0,
    ensures
        r.pair() == slab_lo(c as int, o as int, v as int),
        r.wf(),
        t_bounded(r),
{
    if v > 0 {
        Frac { num: c * SCALE - o, den: v }
    } else {
        Frac { num: o - c * SCALE - SCALE, den: -v }
    }
}

/// The slab exit parameter on one axis, as an exact `Frac`.
fn axis_hi(c: i64, o: i64, v: i64) -> (r: Frac)
    requires
        cell_ok(c),
        coord_ok(o),
        dir_ok(v),
        v != 0,
    ensures
        r.pair() == slab_hi(c as int, o as int, v as int),
        r.wf(),
        t_bounded(r),
{
    if v > 0 {
        Frac { num: c * SCALE + SCALE - o, den: v }
    } else {
        Frac { num: o - c * SCALE, den: -v }
    }
}

/// Slab-method intersection of the ray from `origin` along `vec` with the
/// unit cell at `cube`. Returns the exact entry parameter when the ray meets
/// the cell at a non-negative parameter, and nothing otherwise; for the
/// unit-length directions of the data model the parameter is the distance.
pub fn intersect(origin: Point, vec: Point, cube: Obstacle) -> (r: Option<Frac>)
    requires
        point_ok(origin),
        vec_ok(vec),
        obstacle_ok(cube),
    ensures
        r is Some <==> hits(origin, vec, cube),
        r is Some ==> r->Some_0.pair() == hit_t(origin, vec, cube),
        r is Some ==> r->Some_0.wf() && t_bounded(r->Some_0) && r->Some_0.num >= 0,
{
    if vec.x == 0 && vec.y == 0 {
        None
    } else if vec.y == 0 {
        if cube.y * SCALE <= origin.y && origin.y <= cube.y * SCALE + SCALE {
            let lo = axis_lo(cube.x, origin.x, vec.x);
            if lo.num >= 0 {
                Some(lo)
            } else {
                None
            }
        } else {
            None
        }
    } else if vec.x == 0 {
        if cube.x * SCALE <= origin.x && origin.x <= cube.x * SCALE + SCALE {
            let lo = axis_lo(cube.y, origin.y, vec.y);
            if lo.num >= 0 {
                Some(lo)
            } else {
                None
            }
        } else {
            None
        }
    } else {
        let lox = axis_lo(cube.x, origin.x, vec.x);
        let hix = axis_hi(cube.x, origin.x, vec.x);
        let loy = axis_lo(cube.y, origin.y, vec.y);
        let hiy = axis_hi(cube.y, origin.y, vec.y);
        let tmin = if lox.lt(&loy) {
            loy
        } else {
            lox
        };
        let tmax = if hix.lt(&hiy) {
            hix
        } else {
            hiy
        };
        if tmin.num >= 0 && tmin.le(&tmax) {
            Some(tmin)
        } else {
            None
        }
    }
}

} // verus!
