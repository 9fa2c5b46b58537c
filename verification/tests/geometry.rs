use raycaster::geom::{intersect, Obstacle, Point, SCALE};
use raycaster::scene::{gen_map, nearest_hit};

fn fp(units: i64) -> i64 {
    units * SCALE
}

#[test]
fn intersect_miss_no_y_overlap() {
    // A ray along the x axis never meets a cell five units up.
    let r = intersect(
        Point { x: 0, y: 0 },
        Point { x: SCALE, y: 0 },
        Obstacle { x: 0, y: 5 },
    );
    assert!(r.is_none());
}

#[test]
fn intersect_straight_ahead() {
    let r = intersect(
        Point { x: 0, y: 0 },
        Point { x: SCALE, y: 0 },
        Obstacle { x: 2, y: 0 },
    )
    .unwrap();
    // The exact parameter is the rational 2.
    assert_eq!(r.num as i128, 2 * r.den as i128);
}

#[test]
fn intersect_behind_misses() {
    let r = intersect(
        Point { x: 0, y: 0 },
        Point { x: SCALE, y: 0 },
        Obstacle { x: -3, y: 0 },
    );
    assert!(r.is_none());
}

#[test]
fn intersect_diagonal_corner() {
    // Along the diagonal the cell at (1, 1) is entered at parameter 1.
    let r = intersect(
        Point { x: 0, y: 0 },
        Point { x: SCALE, y: SCALE },
        Obstacle { x: 1, y: 1 },
    )
    .unwrap();
    assert_eq!(r.num, r.den);
}

#[test]
fn intersect_zero_direction_misses() {
    let r = intersect(
        Point { x: 0, y: 0 },
        Point { x: 0, y: 0 },
        Obstacle { x: 0, y: 0 },
    );
    assert!(r.is_none());
}

#[test]
fn intersect_hit_point_on_boundary() {
    // The hit parameter puts origin + d * direction exactly on a cell face.
    let o = Point { x: fp(1) / 2, y: fp(1) / 4 };
    let v = Point { x: SCALE, y: SCALE / 3 };
    let cube = Obstacle { x: 2, y: 0 };
    let d = intersect(o, v, cube).unwrap();
    let pxn = o.x as i128 * d.den as i128 + d.num as i128 * v.x as i128;
    let pyn = o.y as i128 * d.den as i128 + d.num as i128 * v.y as i128;
    let s = SCALE as i128;
    let den = d.den as i128;
    let on_x_face = (pxn == cube.x as i128 * s * den || pxn == (cube.x + 1) as i128 * s * den)
        && cube.y as i128 * s * den <= pyn
        && pyn <= (cube.y + 1) as i128 * s * den;
    let on_y_face = (pyn == cube.y as i128 * s * den || pyn == (cube.y + 1) as i128 * s * den)
        && cube.x as i128 * s * den <= pxn
        && pxn <= (cube.x + 1) as i128 * s * den;
    assert!(d.num >= 0 && d.den > 0);
    assert!(on_x_face || on_y_face);
}

#[test]
fn nearest_hit_takes_minimum() {
    // Hits at distances 5 and 2 and one miss: the nearest is 2.
    let m = vec![
        Obstacle { x: 5, y: 0 },
        Obstacle { x: 2, y: 0 },
        Obstacle { x: 3, y: 7 },
    ];
    let d = nearest_hit(Point { x: 0, y: 0 }, Point { x: SCALE, y: 0 }, &m).unwrap();
    assert_eq!(d.num as i128, 2 * d.den as i128);
}

#[test]
fn nearest_hit_empty_map() {
    let m: Vec<Obstacle> = Vec::new();
    assert!(nearest_hit(Point { x: 0, y: 0 }, Point { x: SCALE, y: 0 }, &m).is_none());
}

#[test]
fn nearest_hit_all_miss() {
    let m = vec![Obstacle { x: 4, y: 4 }, Obstacle { x: 0, y: 2 }];
    assert!(nearest_hit(Point { x: 0, y: 0 }, Point { x: SCALE, y: 0 }, &m).is_none());
}

#[test]
fn gen_map_fixed_cells() {
    let m = gen_map();
    assert_eq!(m.len(), 8);
    assert_eq!(m[0], Obstacle { x: 1, y: 1 });
    assert_eq!(m[3], Obstacle { x: 1, y: 6 });
    assert_eq!(m[7], Obstacle { x: 5, y: 5 });
}
