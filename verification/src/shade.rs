//! Shader: maps a clamped column height to a pixel color.
//!
//! Two mutually exclusive policies: with fog on, a grayscale intensity
//! `255 * (1 - min(1, (height + display_h/2) / display_h))`, identical on
//! all three channels, so farther and shorter columns render darker; with
//! fog off, a single fixed foreground color.

use vstd::prelude::*;
use vstd::arithmetic::div_mod::{lemma_fundamental_div_mod_converse, lemma_div_is_ordered,
lemma_div_multiples_vanish};

verus! {

/// An RGB color, one byte per channel.
#[derive(Clone, Copy, Debug, PartialEq, Eq, Structural)]
pub struct Color {
    pub r: u8,
    pub g: u8,
    pub b: u8,
}

/// The fog intensity of a column of height `h` on a display of height `dh`:
/// the floor of `255 * (1 - min(1, (h + dh/2) / dh))`.
pub open spec fn fog_intensity_spec(h: int, dh: int) -> int {
    let q = if h + dh / 2 < dh {
        h + dh / 2
    } else {
        dh
    };
    (255 * (dh - q)) / dh
}

/// The color of a hit column under the chosen policy.
pub open spec fn shade_spec(fog: bool, h: int, dh: int) -> Color {
    if fog {
        let a = fog_intensity_spec(h, dh) as u8;
        Color { r: a, g: a, b: a }
    } else {
        Color { r: 0, g: 0, b: 0 }
    }
}

/// The fog intensity fits a byte.
pub proof fn lemma_fog_intensity_byte(h: int, dh: int)
    requires
        0 < dh,
        0 <= h,
    ensures
        0 <= fog_intensity_spec(h, dh) <= 255,
{
    let q = if h + dh / 2 < dh {
        h + dh / 2
    } else {
        dh
    };
    assert(0 <= dh - q <= dh);
    lemma_div_is_ordered(0, 255 * (dh - q), dh);
    assert(255 * (dh - q) <= 255 * dh) by (nonlinear_arith)
        requires
            dh - q <= dh,
    ;
    lemma_div_is_ordered(255 * (dh - q), 255 * dh, dh);
    lemma_div_multiples_vanish(255, dh);
}

/// Computes the fog intensity exactly.
pub fn fog_intensity(height: u32, display_h: u32) -> (r: u8)
    requires
        1 <= display_h <= 65536,
        height <= display_h,
    ensures
        r == fog_intensity_spec(height as int, display_h as int),
{
    proof {
        lemma_fog_intensity_byte(height as int, display_h as int);
    }
    let half: u32 = display_h / 2;
    let sum: u32 = height + half;
    let q: u32 = if sum < display_h {
        sum
    } else {
        display_h
    };
    let alpha: u32 = (255 * (display_h - q)) / display_h;
    alpha as u8
}

/// Shades one hit column: fog gives a depth-dependent gray, otherwise the
/// fixed foreground color.
pub fn shade(fog: bool, height: u32, display_h: u32) -> (r: Color)
    requires
        1 <= display_h <= 65536,
        height <= display_h,
    ensures
        r == shade_spec(fog, height as int, display_h as int),
{
    if fog {
        let a = fog_intensity(height, display_h);
        Color { r: a, g: a, b: a }
    } else {
        Color { r: 0, g: 0, b: 0 }
    }
}

/// On any even display height, a column of height zero shades to the middle
/// gray 127 and a full-height column shades to black.
pub proof fn lemma_fog_extremes(dh: int)
    requires
        dh > 0,
        dh % 2 == 0,
    ensures
        fog_intensity_spec(0, dh) == 127,
        fog_intensity_spec(dh, dh) == 0,
{
    let k = dh / 2;
    assert(dh == 2 * k);
    // height zero: 255 * k / (2 * k) == 127 because 255 * k == 127 * (2 * k) + k
    assert(255 * k == 127 * (2 * k) + k) by (nonlinear_arith);
    lemma_fundamental_div_mod_converse(255 * k, 2 * k, 127, k);
    assert(fog_intensity_spec(0, dh) == (255 * k) / (2 * k));
    // full height: the clamped quotient reaches one, so the intensity vanishes
    assert(fog_intensity_spec(dh, dh) == (255 * (dh - dh)) / dh);
    assert((255 * (dh - dh)) / dh == 0) by {
        lemma_fundamental_div_mod_converse(0, dh, 0, 0);
    }
}

} // verus!
