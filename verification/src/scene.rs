//! Scene query: the obstacle map and the nearest hit along one ray.

use vstd::prelude::*;
use crate::rat::{Frac, rlt, rle, lemma_rle_trans_raw};
use crate::geom::{
    Point, Obstacle, hits, hit_t, intersect, point_ok, vec_ok, obstacle_ok, t_bounded,
};

verus! {

/// Every cell of the map is within coordinate bounds.
pub open spec fn map_ok(m: Seq<Obstacle>) -> bool {
    forall|i: int| 0 <= i < m.len() ==> obstacle_ok(m[i])
}

/// The nearest hit over the first `n` obstacles, folded as the renderer
/// folds it: keep the running minimum, taking the newer hit on a tie.
pub open spec fn nearest_upto(o: Point, v: Point, m: Seq<Obstacle>, n: int) -> Option<(int, int)>
    decreases n,
{
    if n <= 0 {
        None
    } else {
        let prev = nearest_upto(o, v, m, n - 1);
        if hits(o, v, m[n - 1]) {
            let t = hit_t(o, v, m[n - 1]);
            match prev {
                Option::None => Option::Some(t),
                Option::Some(p) => if rlt(p, t) {
                    Option::Some(p)
                } else {
                    Option::Some(t)
                },
            }
        } else {
            prev
        }
    }
}

/// The nearest hit over the whole map.
pub open spec fn nearest_spec(o: Point, v: Point, m: Seq<Obstacle>) -> Option<(int, int)> {
    nearest_upto(o, v, m, m.len() as int)
}

/// A hit's parameter has a positive denominator.
proof fn lemma_hit_t_pos(o: Point, v: Point, b: Obstacle)
    requires
        hits(o, v, b),
    ensures
        hit_t(o, v, b).1 > 0,
{
}

/// The folded nearest hit is a hit of some obstacle among the first `n`, and
/// no earlier parameter of any of them; when it is absent, none of them hits.
proof fn lemma_nearest_upto_min(o: Point, v: Point, m: Seq<Obstacle>, n: int)
    requires
        0 <= n <= m.len(),
    ensures
        nearest_upto(o, v, m, n) is None ==> forall|i: int| 0 <= i < n ==> !hits(o, v, m[i]),
        nearest_upto(o, v, m, n) matches Some(t) ==> t.1 > 0 && (exists|i: int|
            0 <= i < n && hits(o, v, m[i]) && t == hit_t(o, v, m[i])) && (forall|i: int|
            0 <= i < n && hits(o, v, m[i]) ==> rle(t, hit_t(o, v, m[i]))),
    decreases n,
{
    if n > 0 {
        lemma_nearest_upto_min(o, v, m, n - 1);
        let prev = nearest_upto(o, v, m, n - 1);
        if hits(o, v, m[n - 1]) {
            lemma_hit_t_pos(o, v, m[n - 1]);
            let t = hit_t(o, v, m[n - 1]);
            match prev {
                Option::None => {
                    assert(hits(o, v, m[n - 1]) && t == hit_t(o, v, m[n - 1]));
                },
                Option::Some(p) => {
                    if rlt(p, t) {
                        assert(nearest_upto(o, v, m, n) == Option::Some(p));
                    } else {
                        // The newer hit is no later than the previous best,
                        // hence no later than every earlier hit.
                        assert(rle(t, p));
                        assert forall|i: int| 0 <= i < n && hits(o, v, m[i]) implies rle(
                            t,
                            hit_t(o, v, m[i]),
                        ) by {
                            if i < n - 1 {
                                lemma_hit_t_pos(o, v, m[i]);
                                let h = hit_t(o, v, m[i]);
                                lemma_rle_trans_raw(t.0, t.1, p.0, p.1, h.0, h.1);
                            }
                        }
                    }
                },
            }
        }
    }
}

/// The nearest hit of the whole map is one of its hits and at most every
/// hit parameter; an absent result means no obstacle hits. This is the
/// scene query's minimality law.
pub proof fn lemma_nearest_is_min(o: Point, v: Point, m: Seq<Obstacle>)
    ensures
        nearest_spec(o, v, m) is None ==> forall|i: int| 0 <= i < m.len() ==> !hits(o, v, m[i]),
        nearest_spec(o, v, m) matches Some(t) ==> t.1 > 0 && (exists|i: int|
            0 <= i < m.len() && hits(o, v, m[i]) && t == hit_t(o, v, m[i])) && (forall|i: int|
            0 <= i < m.len() && hits(o, v, m[i]) ==> rle(t, hit_t(o, v, m[i]))),
{
    lemma_nearest_upto_min(o, v, m, m.len() as int);
}

/// Intersects every obstacle and keeps the smallest hit parameter; an empty
/// map or all misses give nothing.
pub fn nearest_hit(origin: Point, vec: Point, obstacles: &Vec<Obstacle>) -> (r: Option<Frac>)
    requires
        point_ok(origin),
        vec_ok(vec),
        map_ok(obstacles@),
    ensures
        r is Some <==> nearest_spec(origin, vec, obstacles@) is Some,
        r matches Some(d) ==> Some(d.pair()) == nearest_spec(origin, vec, obstacles@) && d.wf()
            && t_bounded(d) && d.num >= 0,
{
    let mut best: Option<Frac> = None;
    let mut i: usize = 0;
    while i < obstacles.len()
        invariant
            0 <= i <= obstacles.len(),
            point_ok(origin),
            vec_ok(vec),
            map_ok(obstacles@),
            best is Some <==> nearest_upto(origin, vec, obstacles@, i as int) is Some,
            best matches Some(d) ==> Some(d.pair()) == nearest_upto(
                origin,
                vec,
                obstacles@,
                i as int,
            ) && d.wf() && t_bounded(d) && d.num >= 0,
        decreases obstacles.len() - i,
    {
        if let Some(d) = intersect(origin, vec, obstacles[i]) {
            best = match best {
                None => Some(d),
                Some(b) => if b.lt(&d) {
                    Some(b)
                } else {
                    Some(d)
                },
            };
        }
        i += 1;
    }
    best
}

/// The cells of the fixed startup scene.
pub open spec fn default_map() -> Seq<Obstacle> {
    seq![
        Obstacle { x: 1, y: 1 },
        Obstacle { x: 3, y: 3 },
        Obstacle { x: 3, y: 4 },
        Obstacle { x: 1, y: 6 },
        Obstacle { x: 3, y: 5 },
        Obstacle { x: 5, y: 3 },
        Obstacle { x: 5, y: 4 },
        Obstacle { x: 5, y: 5 },
    ]
}

/// The fixed obstacle map of the scene, generated once at startup.
pub fn gen_map() -> (r: Vec<Obstacle>)
    ensures
        r@ =~= default_map(),
        map_ok(r@),
{
    let mut obstacles: Vec<Obstacle> = Vec::new();
    obstacles.push(Obstacle { x: 1, y: 1 });
    obstacles.push(Obstacle { x: 3, y: 3 });
    obstacles.push(Obstacle { x: 3, y: 4 });
    obstacles.push(Obstacle { x: 1, y: 6 });
    obstacles.push(Obstacle { x: 3, y: 5 });
    obstacles.push(Obstacle { x: 5, y: 3 });
    obstacles.push(Obstacle { x: 5, y: 4 });
    obstacles.push(Obstacle { x: 5, y: 5 });
    obstacles
}

} // verus!
