use raycaster::geom::{Obstacle, Point, SCALE};
use raycaster::image::{Image, Rect};
use raycaster::project::{distance_to_height, sweep_angles};
use raycaster::rat::Frac;
use raycaster::render::{render_columns, ProceduralGenerator, Ray};
use raycaster::shade::{fog_intensity, shade, Color};

#[test]
fn sweep_exact_count_spacing_order() {
    // 800 samples over a field of view: exactly 800 angles, strictly
    // decreasing, spaced by exactly fov/800.
    let dir: i64 = 13176795;
    let fov: i64 = 21926186;
    let angles = sweep_angles(dir, fov, 800);
    assert_eq!(angles.len(), 800);
    let den = 2 * 800 * SCALE;
    for (i, a) in angles.iter().enumerate() {
        assert_eq!(a.den, den);
        assert_eq!(a.num, 2 * 800 * dir + (800 - 2 * i as i64) * fov);
    }
    for w in angles.windows(2) {
        // Same positive denominator: the numerator orders the values.
        assert!(w[1].num < w[0].num);
        // Spacing: (num_i - num_{i+1}) / den == fov / (800 * SCALE) exactly.
        let diff = w[0].num as i128 - w[1].num as i128;
        assert_eq!(diff * (800 * SCALE as i128), fov as i128 * den as i128);
    }
    // The first angle is heading + fov/2 exactly.
    assert_eq!(
        angles[0].num as i128,
        (2 * 800 * dir + 800 * fov) as i128
    );
}

#[test]
fn height_at_unit_distance_is_screen_height() {
    let d = Frac { num: 1, den: 1 };
    assert_eq!(distance_to_height(&d, SCALE, 480), 480);
}

#[test]
fn height_strictly_decreasing_in_distance() {
    let h1 = distance_to_height(&Frac { num: 1, den: 1 }, SCALE, 480);
    let h2 = distance_to_height(&Frac { num: 2, den: 1 }, SCALE, 480);
    let h4 = distance_to_height(&Frac { num: 4, den: 1 }, SCALE, 480);
    assert_eq!((h1, h2, h4), (480, 240, 120));
    assert!(h1 > h2 && h2 > h4);
}

#[test]
fn height_grows_as_incidence_leaves_zero() {
    // A smaller incidence cosine (angle farther from zero) gives a taller
    // column at the same distance.
    let d = Frac { num: 1, den: 1 };
    let straight = distance_to_height(&d, SCALE, 480);
    let slanted = distance_to_height(&d, SCALE / 2, 480);
    assert_eq!(straight, 480);
    assert_eq!(slanted, 960);
    assert!(slanted > straight);
}

#[test]
fn fog_intensity_extremes() {
    assert_eq!(fog_intensity(0, 480), 127);
    assert_eq!(fog_intensity(480, 480), 0);
}

#[test]
fn shade_policies() {
    assert_eq!(
        shade(true, 0, 480),
        Color { r: 127, g: 127, b: 127 }
    );
    assert_eq!(shade(true, 480, 480), Color { r: 0, g: 0, b: 0 });
    // Fog off: the fixed foreground color, whatever the height.
    assert_eq!(shade(false, 100, 480), Color { r: 0, g: 0, b: 0 });
}

#[test]
fn image_starts_white_with_exact_size() {
    let img = Image::new(10, 8);
    assert_eq!(img.buf.len(), 10 * 8 * 3);
    assert!(img.buf.iter().all(|&b| b == 255));
}

#[test]
fn draw_pixel_writes_three_bytes() {
    let mut img = Image::new(4, 4);
    img.draw_pixel(2, 1, Color { r: 9, g: 8, b: 7 });
    let base = (1 * 4 + 2) * 3;
    assert_eq!(&img.buf[base..base + 3], &[9, 8, 7]);
    let touched: Vec<usize> = (base..base + 3).collect();
    for (k, &b) in img.buf.iter().enumerate() {
        if !touched.contains(&k) {
            assert_eq!(b, 255);
        }
    }
}

#[test]
fn draw_rect_covers_exactly() {
    let mut img = Image::new(10, 8);
    let rect = Rect { x: 2, y: 1, w: 3, h: 4 };
    let c = Color { r: 10, g: 20, b: 30 };
    img.draw_rect(rect, c);
    for y in 0..8u32 {
        for x in 0..10u32 {
            let base = ((y * 10 + x) * 3) as usize;
            let inside = rect.x <= x && x < rect.x + rect.w && rect.y <= y && y < rect.y + rect.h;
            if inside {
                assert_eq!(&img.buf[base..base + 3], &[10, 20, 30]);
            } else {
                assert_eq!(&img.buf[base..base + 3], &[255, 255, 255]);
            }
        }
    }
}

#[test]
fn draw_rect_painter_overwrite() {
    // A later rectangle overwrites an earlier one where they overlap.
    let mut img = Image::new(6, 6);
    img.draw_rect(Rect { x: 0, y: 0, w: 4, h: 4 }, Color { r: 1, g: 1, b: 1 });
    img.draw_rect(Rect { x: 2, y: 2, w: 4, h: 4 }, Color { r: 2, g: 2, b: 2 });
    let at = |x: u32, y: u32| img.buf[((y * 6 + x) * 3) as usize];
    assert_eq!(at(0, 0), 1);
    assert_eq!(at(3, 3), 2);
    assert_eq!(at(2, 2), 2);
    assert_eq!(at(5, 5), 2);
    assert_eq!(at(5, 0), 255);
}

#[test]
fn render_columns_geometry() {
    // Two rays, one hit at distance 2: one centered column of the right
    // width and height.
    let rays = vec![
        Ray { dir: Point { x: SCALE, y: 0 }, cos_inc: SCALE },
        Ray { dir: Point { x: -SCALE, y: 0 }, cos_inc: SCALE },
    ];
    let m = vec![Obstacle { x: 2, y: 0 }];
    let out = render_columns(Point { x: 0, y: 0 }, &rays, &m, 10, 8, true);
    assert_eq!(out.len(), 1);
    let (rect, color) = out[0];
    // column width 10 / 2, height 8 / 2 clamped, vertically centered
    assert_eq!(rect, Rect { x: 0, y: 2, w: 5, h: 4 });
    // fog at height 4 on a display of 8: (4 + 4) / 8 reaches one, black
    assert_eq!(color, Color { r: 0, g: 0, b: 0 });
}

#[test]
fn export_buffer_size_and_determinism() {
    // Exporting twice with the same map and sweep gives byte-identical
    // buffers of exactly width * height * 3 bytes.
    let generator = ProceduralGenerator::new();
    let rays = vec![
        Ray { dir: Point { x: SCALE, y: 0 }, cos_inc: SCALE },
        Ray {
            dir: Point { x: 11863283, y: 11863283 },
            cos_inc: 11863283,
        },
        Ray { dir: Point { x: 0, y: SCALE }, cos_inc: SCALE },
    ];
    let a = generator.get_image(60, 48, &rays);
    let b = generator.get_image(60, 48, &rays);
    assert_eq!(a.buf.len(), 60 * 48 * 3);
    assert_eq!(a.pixel_width, 60);
    assert_eq!(a.pixel_height, 48);
    assert_eq!(a.buf, b.buf);
    // The sweep hits the map, so some column was actually drawn.
    assert!(a.buf.iter().any(|&p| p != 255));
}

#[test]
fn sweep_single_sample() {
    let angles = sweep_angles(100, 50, 1);
    assert_eq!(angles.len(), 1);
    // heading + fov/2 over the common denominator 2 * SCALE
    assert_eq!(angles[0].num, 2 * 100 + 50);
    assert_eq!(angles[0].den, 2 * SCALE);
}

#[test]
fn misses_leave_background_untouched() {
    // Rays that hit nothing contribute no column: the export stays white.
    let generator = ProceduralGenerator::new();
    let rays = vec![Ray { dir: Point { x: -SCALE, y: 0 }, cos_inc: SCALE }];
    let img = generator.get_image(8, 8, &rays);
    assert!(img.buf.iter().all(|&p| p == 255));
}
