//! The export pixel buffer: a flat row-major RGB byte buffer with exact
//! rasterization.
//!
//! A buffer starts all white; drawing a rectangle writes the three color
//! bytes of every covered pixel and nothing else, so later rectangles
//! overwrite earlier ones where they overlap.

use vstd::prelude::*;
use crate::shade::Color;
use vstd::arithmetic::div_mod::{
    lemma_fundamental_div_mod_converse, lemma_div_is_ordered, lemma_div_pos_is_pos,
    lemma_mod_bound,
};

verus! {

/// Bytes per pixel: one per RGB channel.
pub const IMAGE_PIXEL_WIDTH: usize = 3;

/// An axis-aligned screen rectangle: top-left corner, width and height.
#[derive(Clone, Copy, Debug, PartialEq, Eq, Structural)]
pub struct Rect {
    pub x: u32,
    pub y: u32,
    pub w: u32,
    pub h: u32,
}

/// The pixel `(x, y)` lies inside the rectangle.
pub open spec fn covered(rect: Rect, x: int, y: int) -> bool {
    rect.x <= x < rect.x + rect.w && rect.y <= y < rect.y + rect.h
}

/// The byte a channel index selects from a color.
pub open spec fn channel(c: Color, ch: int) -> u8 {
    if ch == 0 {
        c.r
    } else if ch == 1 {
        c.g
    } else {
        c.b
    }
}

/// The pixel column a flat byte index belongs to, for row width `pw`.
pub open spec fn byte_x(pw: int, k: int) -> int {
    (k / 3) % pw
}

/// The pixel row a flat byte index belongs to.
pub open spec fn byte_y(pw: int, k: int) -> int {
    (k / 3) / pw
}

/// The channel a flat byte index addresses.
pub open spec fn byte_ch(k: int) -> int {
    k % 3
}

/// One byte of the buffer after a rectangle is painted over it.
pub open spec fn paint_byte(pw: int, rect: Rect, c: Color, old_b: u8, k: int) -> u8 {
    if covered(rect, byte_x(pw, k), byte_y(pw, k)) {
        channel(c, byte_ch(k))
    } else {
        old_b
    }
}

/// The whole buffer after a rectangle is painted over it.
pub open spec fn paint(b: Seq<u8>, pw: int, rect: Rect, c: Color) -> Seq<u8> {
    Seq::new(b.len(), |k: int| paint_byte(pw, rect, c, b[k], k))
}

/// A pixel's bytes lie inside a buffer of `pw * ph` pixels.
pub proof fn lemma_pixel_index_bound(pw: int, ph: int, x: int, y: int)
    by (nonlinear_arith)
    requires
        0 <= x < pw,
        0 <= y < ph,
    ensures
        0 <= (y * pw + x) * 3,
        (y * pw + x) * 3 + 3 <= pw * ph * 3,
{
}

/// A buffer of at most `4096 * 4096` pixels fits comfortably in a word.
pub proof fn lemma_buffer_size_bound(pw: int, ph: int)
    by (nonlinear_arith)
    requires
        0 <= pw <= 4096,
        0 <= ph <= 4096,
    ensures
        pw * ph * 3 <= 0x3000000,
{
}

/// The bytes formed from a pixel's coordinates decompose back to them.
pub proof fn lemma_byte_coords_of_pixel(pw: int, x: int, y: int, ch: int)
    requires
        pw > 0,
        0 <= x < pw,
        0 <= y,
        0 <= ch < 3,
    ensures
        byte_x(pw, (y * pw + x) * 3 + ch) == x,
        byte_y(pw, (y * pw + x) * 3 + ch) == y,
        byte_ch((y * pw + x) * 3 + ch) == ch,
{
    let p = y * pw + x;
    let k = p * 3 + ch;
    assert(p >= 0) by (nonlinear_arith)
        requires
            p == y * pw + x,
            0 <= x,
            0 <= y,
            pw > 0,
    ;
    lemma_fundamental_div_mod_converse(k, 3, p, ch);
    lemma_fundamental_div_mod_converse(p, pw, y, x);
}

/// Every byte index of a well-formed buffer belongs to exactly one pixel
/// and channel.
pub proof fn lemma_byte_coords(pw: int, ph: int, k: int)
    requires
        pw > 0,
        ph > 0,
        0 <= k < pw * ph * 3,
    ensures
        0 <= byte_ch(k) < 3,
        0 <= byte_x(pw, k) < pw,
        0 <= byte_y(pw, k) < ph,
        k == (byte_y(pw, k) * pw + byte_x(pw, k)) * 3 + byte_ch(k),
{
    let p = k / 3;
    lemma_div_pos_is_pos(k, 3);
    lemma_mod_bound(k, 3);
    assert(pw * ph * 3 - 1 == (pw * ph - 1) * 3 + 2) by (nonlinear_arith);
    lemma_div_is_ordered(k, pw * ph * 3 - 1, 3);
    lemma_fundamental_div_mod_converse(pw * ph * 3 - 1, 3, pw * ph - 1, 2);
    assert(p <= pw * ph - 1);
    lemma_div_pos_is_pos(p, pw);
    lemma_mod_bound(p, pw);
    assert(pw * ph - 1 == (ph - 1) * pw + (pw - 1)) by (nonlinear_arith);
    lemma_div_is_ordered(p, pw * ph - 1, pw);
    lemma_fundamental_div_mod_converse(pw * ph - 1, pw, ph - 1, pw - 1);
    assert(k == 3 * p + k % 3) by {
        vstd::arithmetic::div_mod::lemma_fundamental_div_mod(k, 3);
    }
    assert(p == pw * (p / pw) + p % pw) by {
        vstd::arithmetic::div_mod::lemma_fundamental_div_mod(p, pw);
    }
    assert(3 * (pw * (p / pw) + p % pw) + k % 3 == ((p / pw) * pw + p % pw) * 3 + k % 3)
        by (nonlinear_arith);
}

/// An in-memory image: a flat row-major byte buffer, three bytes per pixel,
/// with its dimensions.
#[derive(Debug)]
pub struct Image {
    pub buf: Vec<u8>,
    pub pixel_width: usize,
    pub pixel_height: usize,
}

impl Image {
    /// The buffer holds exactly three bytes for each of its pixels.
    pub open spec fn wf(self) -> bool {
        self.buf.len() == self.pixel_width * self.pixel_height * 3 && self.pixel_width <= 4096
            && self.pixel_height <= 4096
    }

    /// The flat byte index of the first channel of pixel `(x, y)`.
    pub open spec fn idx(self, x: int, y: int) -> int {
        (y * self.pixel_width + x) * 3
    }

    /// A freshly allocated buffer: every byte of every pixel is white.
    pub fn new(width: usize, height: usize) -> (r: Image)
        requires
            width <= 4096,
            height <= 4096,
        ensures
            r.wf(),
            r.pixel_width == width,
            r.pixel_height == height,
            r.buf@ =~= Seq::new((width * height * 3) as nat, |k: int| 255u8),
    {
        proof {
            lemma_buffer_size_bound(width as int, height as int);
        }
        let size: usize = width * height * IMAGE_PIXEL_WIDTH;
        let mut buf: Vec<u8> = Vec::new();
        let mut k: usize = 0;
        while k < size
            invariant
                0 <= k <= size,
                buf@.len() == k,
                forall|j: int| 0 <= j < k ==> buf@[j] == 255u8,
            decreases size - k,
        {
            buf.push(255);
            k += 1;
        }
        Image { buf, pixel_width: width, pixel_height: height }
    }

    /// Writes one pixel's three color bytes and nothing else.
    pub fn draw_pixel(&mut self, x: usize, y: usize, color: Color)
        requires
            old(self).wf(),
            x < old(self).pixel_width,
            y < old(self).pixel_height,
        ensures
            final(self).wf(),
            final(self).pixel_width == old(self).pixel_width,
            final(self).pixel_height == old(self).pixel_height,
            final(self).buf@.len() == old(self).buf@.len(),
            forall|ch: int|
                0 <= ch < 3 ==> final(self).buf@[old(self).idx(x as int, y as int) + ch]
                    == channel(color, ch),
            forall|k: int|
                0 <= k < old(self).buf@.len() && !(old(self).idx(x as int, y as int) <= k < old(
                    self,
                ).idx(x as int, y as int) + 3) ==> final(self).buf@[k] == old(self).buf@[k],
    {
        proof {
            lemma_pixel_index_bound(
                self.pixel_width as int,
                self.pixel_height as int,
                x as int,
                y as int,
            );
            lemma_buffer_size_bound(self.pixel_width as int, self.pixel_height as int);
        }
        let index: usize = (y * self.pixel_width + x) * IMAGE_PIXEL_WIDTH;
        self.buf[index] = color.r;
        self.buf[index + 1] = color.g;
        self.buf[index + 2] = color.b;
    }

    /// Rasterizes one rectangle: every covered pixel takes the color's three
    /// bytes exactly, and every other byte of the buffer is untouched.
    pub fn draw_rect(&mut self, rect: Rect, color: Color)
        requires
            old(self).wf(),
            rect.x + rect.w <= old(self).pixel_width,
            rect.y + rect.h <= old(self).pixel_height,
        ensures
            final(self).wf(),
            final(self).pixel_width == old(self).pixel_width,
            final(self).pixel_height == old(self).pixel_height,
            final(self).buf@ == paint(
                old(self).buf@,
                old(self).pixel_width as int,
                rect,
                color,
            ),
    {
        let ghost old_buf = self.buf@;
        let ghost pw = self.pixel_width as int;
        let ghost ph = self.pixel_height as int;
        let mut i: usize = 0;
        while i < rect.w as usize
            invariant
                old(self).wf(),
                self.wf(),
                self.pixel_width == old(self).pixel_width,
                self.pixel_height == old(self).pixel_height,
                pw == self.pixel_width as int,
                ph == self.pixel_height as int,
                old_buf.len() == self.buf@.len(),
                old_buf == old(self).buf@,
                rect.x + rect.w <= pw,
                rect.y + rect.h <= ph,
                0 <= i <= rect.w,
                forall|k: int|
                    0 <= k < old_buf.len() ==> #[trigger] self.buf@[k] == (if covered(
                        rect,
                        byte_x(pw, k),
                        byte_y(pw, k),
                    ) && byte_x(pw, k) < rect.x + i {
                        channel(color, byte_ch(k))
                    } else {
                        old_buf[k]
                    }),
            decreases rect.w - i,
        {
            let mut j: usize = 0;
            while j < rect.h as usize
                invariant
                    old(self).wf(),
                    self.wf(),
                    self.pixel_width == old(self).pixel_width,
                    self.pixel_height == old(self).pixel_height,
                    pw == self.pixel_width as int,
                    ph == self.pixel_height as int,
                    old_buf.len() == self.buf@.len(),
                    old_buf == old(self).buf@,
                    rect.x + rect.w <= pw,
                    rect.y + rect.h <= ph,
                    0 <= i < rect.w,
                    0 <= j <= rect.h,
                    forall|k: int|
                        0 <= k < old_buf.len() ==> #[trigger] self.buf@[k] == (if covered(
                            rect,
                            byte_x(pw, k),
                            byte_y(pw, k),
                        ) && (byte_x(pw, k) < rect.x + i || (byte_x(pw, k) == rect.x + i
                            && byte_y(pw, k) < rect.y + j)) {
                            channel(color, byte_ch(k))
                        } else {
                            old_buf[k]
                        }),
                decreases rect.h - j,
            {
                let px: usize = rect.x as usize + i;
                let py: usize = rect.y as usize + j;
                let ghost prev = self.buf@;
                let ghost base = self.idx(px as int, py as int);
                self.draw_pixel(px, py, color);
                proof {
                    assert forall|k: int| 0 <= k < old_buf.len() implies #[trigger] self.buf@[k]
                        == (if covered(rect, byte_x(pw, k), byte_y(pw, k)) && (byte_x(pw, k)
                        < rect.x + i || (byte_x(pw, k) == rect.x + i && byte_y(pw, k) < rect.y + j
                        + 1)) {
                        channel(color, byte_ch(k))
                    } else {
                        old_buf[k]
                    }) by {
                        lemma_byte_coords(pw, ph, k);
                        if base <= k < base + 3 {
                            lemma_byte_coords_of_pixel(pw, px as int, py as int, k - base);
                        }
                    }
                }
                j += 1;
            }
            i += 1;
        }
        proof {
            assert forall|k: int| 0 <= k < old_buf.len() implies self.buf@[k] == paint(
                old_buf,
                pw,
                rect,
                color,
            )[k] by {
                lemma_byte_coords(pw, ph, k);
            }
            assert(self.buf@ =~= paint(old_buf, pw, rect, color));
        }
    }
}

} // verus!
