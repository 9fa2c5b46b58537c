//! The shared render pipeline and the offline exporter.
//!
//! One pass over the sweep produces the frame's render geometry: for each
//! ray that hits an obstacle, a screen rectangle — the ray's column, width
//! `width / samples`, vertically centered, height clamped to the viewport —
//! with its shaded color. The live sink draws these onto a display surface;
//! the exporter rasterizes the same geometry into a white pixel buffer in
//! sweep order, later rectangles overwriting earlier ones.

use vstd::prelude::*;
use crate::rat::Frac;
use crate::geom::{Point, Obstacle, point_ok, vec_ok, dir_ok};
use crate::scene::{map_ok, nearest_spec, nearest_hit, default_map, gen_map};
use crate::project::{height_raw, clip_u32, distance_to_height};
use crate::shade::{Color, shade_spec, shade};
use crate::image::{Rect, Image, paint};
use vstd::arithmetic::div_mod::{lemma_fundamental_div_mod, lemma_mod_bound};

verus! {

/// One ray of a sweep: its direction vector and the cosine of its
/// incidence angle against the camera heading, in 16.24 fixed point.
#[derive(Clone, Copy, Debug)]
pub struct Ray {
    pub dir: Point,
    pub cos_inc: i64,
}

pub open spec fn ray_ok(r: Ray) -> bool {
    vec_ok(r.dir) && dir_ok(r.cos_inc)
}

pub open spec fn rays_ok(rs: Seq<Ray>) -> bool {
    forall|i: int| 0 <= i < rs.len() ==> ray_ok(#[trigger] rs[i])
}

/// What ray `i` contributes to the frame: nothing on a miss, otherwise the
/// column rectangle at `x = i * (width / samples)`, vertically centered,
/// its height the projected height clamped to the viewport, with its
/// shaded color.
pub open spec fn column_spec(
    o: Point,
    rays: Seq<Ray>,
    m: Seq<Obstacle>,
    width: int,
    screen_h: int,
    fog: bool,
    i: int,
) -> Option<(Rect, Color)> {
    let colw = width / rays.len() as int;
    match nearest_spec(o, rays[i].dir, m) {
        Option::None => Option::None,
        Option::Some(t) => {
            let hraw = clip_u32(height_raw(screen_h, t.0, t.1, rays[i].cos_inc as int));
            let h = if hraw < screen_h {
                hraw
            } else {
                screen_h
            };
            let rect = Rect {
                x: (i * colw) as u32,
                y: (screen_h / 2 - h / 2) as u32,
                w: colw as u32,
                h: h as u32,
            };
            Option::Some((rect, shade_spec(fog, h, screen_h)))
        },
    }
}

/// The frame's render geometry from the first `n` rays, in sweep order.
pub open spec fn columns_upto(
    o: Point,
    rays: Seq<Ray>,
    m: Seq<Obstacle>,
    width: int,
    screen_h: int,
    fog: bool,
    n: int,
) -> Seq<(Rect, Color)>
    decreases n,
{
    if n <= 0 {
        Seq::empty()
    } else {
        let prev = columns_upto(o, rays, m, width, screen_h, fog, n - 1);
        match column_spec(o, rays, m, width, screen_h, fog, n - 1) {
            Option::None => prev,
            Option::Some(rc) => prev.push(rc),
        }
    }
}

/// A rectangle lies within a `width` by `screen_h` viewport.
pub open spec fn rect_in_viewport(rect: Rect, width: int, screen_h: int) -> bool {
    rect.x + rect.w <= width && rect.y + rect.h <= screen_h
}

/// Runs the pipeline for one frame: casts every ray of the sweep against
/// the map and returns the shaded column rectangles of the hits, in sweep
/// order, every one inside the viewport.
pub fn render_columns(
    origin: Point,
    rays: &Vec<Ray>,
    obstacles: &Vec<Obstacle>,
    width: u32,
    screen_h: u32,
    fog: bool,
) -> (r: Vec<(Rect, Color)>)
    requires
        point_ok(origin),
        rays_ok(rays@),
        map_ok(obstacles@),
        1 <= rays@.len() <= width,
        width <= 4096,
        1 <= screen_h <= 4096,
    ensures
        r@ == columns_upto(
            origin,
            rays@,
            obstacles@,
            width as int,
            screen_h as int,
            fog,
            rays@.len() as int,
        ),
        forall|i: int|
            0 <= i < r@.len() ==> rect_in_viewport(
                (#[trigger] r@[i]).0,
                width as int,
                screen_h as int,
            ),
{
    let n: usize = rays.len();
    let colw: u32 = width / (n as u32);
    proof {
        lemma_fundamental_div_mod(width as int, n as int);
        lemma_mod_bound(width as int, n as int);
    }
    let mut out: Vec<(Rect, Color)> = Vec::new();
    let mut i: usize = 0;
    while i < n
        invariant
            n == rays@.len(),
            1 <= n <= width,
            width <= 4096,
            1 <= screen_h <= 4096,
            colw == width as int / n as int,
            (n as int) * (colw as int) <= width,
            point_ok(origin),
            rays_ok(rays@),
            map_ok(obstacles@),
            0 <= i <= n,
            out@ == columns_upto(
                origin,
                rays@,
                obstacles@,
                width as int,
                screen_h as int,
                fog,
                i as int,
            ),
            forall|j: int|
                0 <= j < out@.len() ==> rect_in_viewport(
                    (#[trigger] out@[j]).0,
                    width as int,
                    screen_h as int,
                ),
        decreases n - i,
    {
        let ray = rays[i];
        match nearest_hit(origin, ray.dir, obstacles) {
            None => {},
            Some(d) => {
                let hraw: u32 = distance_to_height(&d, ray.cos_inc, screen_h);
                let h: u32 = if hraw < screen_h {
                    hraw
                } else {
                    screen_h
                };
                proof {
                    assert((i as int + 1) * (colw as int) <= (n as int) * (colw as int)
                        && (i as int + 1) * (colw as int) == (i as int) * (colw as int) + (
                    colw as int) && 0 <= (i as int) * (colw as int)) by (nonlinear_arith)
                        requires
                            0 <= i as int,
                            i as int + 1 <= n as int,
                            colw as int >= 0,
                    ;
                    lemma_fundamental_div_mod(h as int, 2);
                    lemma_mod_bound(h as int, 2);
                    lemma_fundamental_div_mod(screen_h as int, 2);
                    lemma_mod_bound(screen_h as int, 2);
                }
                let rect = Rect { x: (i as u32) * colw, y: screen_h / 2 - h / 2, w: colw, h };
                let c: Color = shade(fog, h, screen_h);
                out.push((rect, c));
            },
        }
        i += 1;
    }
    out
}

/// The sweep's pairing is kept exactly: a later ray — a strictly smaller
/// angle — lands in a column strictly further right, so the image never
/// mirrors.
pub proof fn lemma_later_ray_further_right(
    o: Point,
    rays: Seq<Ray>,
    m: Seq<Obstacle>,
    width: int,
    screen_h: int,
    fog: bool,
    i: int,
    j: int,
)
    requires
        1 <= rays.len() <= width,
        width <= 4096,
        0 <= i < j < rays.len(),
        column_spec(o, rays, m, width, screen_h, fog, i) is Some,
        column_spec(o, rays, m, width, screen_h, fog, j) is Some,
    ensures
        column_spec(o, rays, m, width, screen_h, fog, i)->Some_0.0.x < column_spec(
            o,
            rays,
            m,
            width,
            screen_h,
            fog,
            j,
        )->Some_0.0.x,
{
    let n = rays.len() as int;
    let colw = width / n;
    assert(colw >= 1 && n * colw <= width) by {
        lemma_fundamental_div_mod(width, n);
        lemma_mod_bound(width, n);
        vstd::arithmetic::div_mod::lemma_div_is_ordered(n, width, n);
        vstd::arithmetic::div_mod::lemma_div_by_self(n);
    }
    assert(0 <= i * colw && i * colw < j * colw && j * colw <= (n - 1) * colw
        && (n - 1) * colw <= n * colw) by (nonlinear_arith)
        requires
            0 <= i < j <= n - 1,
            colw >= 1,
    ;
}

/// An all-white buffer for a `width` by `height` image.
pub open spec fn white(width: int, height: int) -> Seq<u8> {
    Seq::new((width * height * 3) as nat, |k: int| 255u8)
}

/// The buffer after the first `n` rectangles are rasterized over `base` in
/// order: the painter's algorithm.
pub open spec fn raster_upto(base: Seq<u8>, pw: int, rcs: Seq<(Rect, Color)>, n: int) -> Seq<u8>
    decreases n,
{
    if n <= 0 {
        base
    } else {
        paint(raster_upto(base, pw, rcs, n - 1), pw, rcs[n - 1].0, rcs[n - 1].1)
    }
}

/// The fixed default viewpoint of the exporter, independent of the live
/// camera: the scene origin.
pub open spec fn export_origin() -> Point {
    Point { x: 0, y: 0 }
}

/// The exported buffer: the whole pipeline, fog policy on, rasterized over
/// a fresh white buffer.
pub open spec fn export_spec(
    rays: Seq<Ray>,
    m: Seq<Obstacle>,
    width: int,
    height: int,
) -> Seq<u8> {
    raster_upto(
        white(width, height),
        width,
        columns_upto(export_origin(), rays, m, width, height, true, rays.len() as int),
        columns_upto(export_origin(), rays, m, width, height, true, rays.len() as int).len() as int,
    )
}

/// Holds the immutable obstacle map and renders the offline export image.
pub struct ProceduralGenerator {
    pub map: Vec<Obstacle>,
}

impl ProceduralGenerator {
    pub open spec fn wf(self) -> bool {
        map_ok(self.map@)
    }

    /// A generator over the fixed startup map.
    pub fn new() -> (r: ProceduralGenerator)
        ensures
            r.wf(),
            r.map@ =~= default_map(),
    {
        ProceduralGenerator { map: gen_map() }
    }

    /// Renders the export image: the identical pipeline from the fixed
    /// default viewpoint into a freshly allocated white buffer, each hit
    /// column rasterized in sweep order.
    pub fn get_image(&self, width: u32, height: u32, rays: &Vec<Ray>) -> (r: Image)
        requires
            self.wf(),
            rays_ok(rays@),
            1 <= rays@.len() <= width,
            width <= 4096,
            1 <= height <= 4096,
        ensures
            r.wf(),
            r.pixel_width == width,
            r.pixel_height == height,
            r.buf@ == export_spec(rays@, self.map@, width as int, height as int),
    {
        let rects = render_columns(export_origin_exec(), rays, &self.map, width, height, true);
        let mut image = Image::new(width as usize, height as usize);
        let mut i: usize = 0;
        while i < rects.len()
            invariant
                image.wf(),
                image.pixel_width == width,
                image.pixel_height == height,
                0 <= i <= rects@.len(),
                forall|j: int|
                    0 <= j < rects@.len() ==> rect_in_viewport(
                        (#[trigger] rects@[j]).0,
                        width as int,
                        height as int,
                    ),
                image.buf@ == raster_upto(
                    white(width as int, height as int),
                    width as int,
                    rects@,
                    i as int,
                ),
            decreases rects@.len() - i,
        {
            let (rect, color) = rects[i];
            image.draw_rect(rect, color);
            i += 1;
        }
        image
    }
}

/// The exporter's viewpoint as a value.
pub fn export_origin_exec() -> (r: Point)
    ensures
        r == export_origin(),
{
    Point { x: 0, y: 0 }
}

/// Exporting twice from one map and one sweep gives byte-identical
/// buffers: the exported image is a function of the map, the sweep and the
/// dimensions alone.
pub proof fn lemma_export_deterministic(
    img1: Image,
    img2: Image,
    rays: Seq<Ray>,
    m: Seq<Obstacle>,
    width: int,
    height: int,
)
    requires
        img1.buf@ == export_spec(rays, m, width, height),
        img2.buf@ == export_spec(rays, m, width, height),
    ensures
        img1.buf@ == img2.buf@,
{
}

} // verus!
