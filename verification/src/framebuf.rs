//! The RGB565 frame buffer and its drawing primitives.

use vstd::prelude::*;

use crate::geometry::{pixel_index, FB_SIZE, LCD_HEIGHT, LCD_WIDTH};

verus! {

/// A pixel to draw: a position, which may lie off screen, and a raw RGB565
/// colour.
#[derive(Clone, Copy, Debug, PartialEq, Eq)]
pub struct Pixel {
    pub x: i32,
    pub y: i32,
    pub color: u16,
}

/// An axis-aligned rectangle: its top-left corner and its size.
#[derive(Clone, Copy, Debug, PartialEq, Eq)]
pub struct Rectangle {
    pub x: i32,
    pub y: i32,
    pub width: u32,
    pub height: u32,
}

/// A width and a height in pixels.
#[derive(Clone, Copy, Debug, PartialEq, Eq)]
pub struct Size {
    pub width: u32,
    pub height: u32,
}

/// The frame buffer that the LTDC scans out: one raw RGB565 word per pixel,
/// row after row.
pub struct FrameBuf {
    pub buf: [u16; FB_SIZE],
}

/// Whether `(x, y)` lies on the panel.
pub open spec fn on_screen(x: int, y: int) -> bool {
    0 <= x < 480 && 0 <= y < 272
}

/// `s` with pixel `p` drawn: its colour at `p`'s position where that lies on
/// screen; `s` unchanged otherwise.
pub open spec fn draw_one(s: Seq<u16>, p: Pixel) -> Seq<u16> {
    if on_screen(p.x as int, p.y as int) {
        s.update(pixel_index(p.x as int, p.y as int), p.color)
    } else {
        s
    }
}

/// `s` with the pixels of `ps` drawn one after the other, first to last.
pub open spec fn draw_all(s: Seq<u16>, ps: Seq<Pixel>) -> Seq<u16>
    decreases ps.len(),
{
    if ps.len() == 0 {
        s
    } else {
        draw_one(draw_all(s, ps.drop_last()), ps.last())
    }
}

/// Right edge (exclusive) of `r` as the fill computes it: `x + width`, the
/// width taken as an `i32`.
pub open spec fn fill_right(r: Rectangle) -> int {
    r.x as int + (r.width as i32) as int
}

/// Bottom edge (exclusive) of `r` as the fill computes it.
pub open spec fn fill_bottom(r: Rectangle) -> int {
    r.y as int + (r.height as i32) as int
}

/// First column that the fill of `r` paints.
pub open spec fn fill_x0(r: Rectangle) -> int {
    if r.x < 0 { 0 } else { r.x as int }
}

/// First row that the fill of `r` paints.
pub open spec fn fill_y0(r: Rectangle) -> int {
    if r.y < 0 { 0 } else { r.y as int }
}

/// Column after the last one that the fill of `r` paints: the right edge
/// clamped to the screen.
pub open spec fn fill_x1(r: Rectangle) -> int {
    if fill_right(r) < 0 {
        0
    } else if fill_right(r) < 480 {
        fill_right(r)
    } else {
        480
    }
}

/// Row after the last one that the fill of `r` paints: the bottom edge
/// clamped to the screen.
pub open spec fn fill_y1(r: Rectangle) -> int {
    if fill_bottom(r) < 0 {
        0
    } else if fill_bottom(r) < 272 {
        fill_bottom(r)
    } else {
        272
    }
}

/// The rectangles that `fill_solid` accepts: those whose right and bottom
/// edges fit in an `i32`.
pub open spec fn fill_solid_defined(r: Rectangle) -> bool {
    &&& i32::MIN <= fill_right(r) <= i32::MAX
    &&& i32::MIN <= fill_bottom(r) <= i32::MAX
}

/// Whether the fill of `r` paints pixel `(x, y)`: `r` clipped to the screen.
pub open spec fn in_fill(r: Rectangle, x: int, y: int) -> bool {
    fill_x0(r) <= x < fill_x1(r) && fill_y0(r) <= y < fill_y1(r)
}

/// Whether no pixel of `r` lies on the screen.
pub open spec fn off_screen(r: Rectangle) -> bool {
    fill_x0(r) >= fill_x1(r) || fill_y0(r) >= fill_y1(r)
}

/// The buffer `s` after a fill of `r` with `c`: `c` at the positions of `r`
/// that lie on screen, `s` elsewhere.
pub open spec fn fill_result(s: Seq<u16>, r: Rectangle, c: u16) -> Seq<u16> {
    Seq::new(s.len(), |i: int| if in_fill(r, i % 480, i / 480) { c } else { s[i] })
}

/// Whether `fill_solid` accepts `area`: its right and bottom edges fit in an
/// `i32`.
pub fn fill_solid_is_defined(area: &Rectangle) -> (b: bool)
    ensures
        b == fill_solid_defined(*area),
{
    let right: i64 = area.x as i64 + (#[verifier::truncate] (area.width as i32)) as i64;
    let bottom: i64 = area.y as i64 + (#[verifier::truncate] (area.height as i32)) as i64;
    !(right < i32::MIN as i64 || right > i32::MAX as i64 || bottom < i32::MIN as i64 || bottom
        > i32::MAX as i64)
}

impl FrameBuf {
    /// A frame buffer with every pixel black (zero).
    pub fn new() -> (fb: FrameBuf)
        ensures
            forall|i: int| 0 <= i < FB_SIZE ==> #[trigger] fb.buf@[i] == 0,
    {
        FrameBuf { buf: [0u16; FB_SIZE] }
    }

    /// Draw one pixel; a pixel off screen is ignored.
    pub fn draw_pixel(&mut self, p: Pixel)
        ensures
            final(self).buf@ == draw_one(old(self).buf@, p),
    {
        if p.x >= 0 && p.x < LCD_WIDTH as i32 && p.y >= 0 && p.y < LCD_HEIGHT as i32 {
            let i: usize = p.y as usize * LCD_WIDTH as usize + p.x as usize;
            assert(i == pixel_index(p.x as int, p.y as int));
            self.buf[i] = p.color;
        }
    }

    /// Draw the pixels of `pixels` in order; those off screen are ignored.
    pub fn draw_iter(&mut self, pixels: &[Pixel])
        ensures
            final(self).buf@ == draw_all(old(self).buf@, pixels@),
    {
        let n: usize = pixels.len();
        for i in 0..n
            invariant
                n == pixels@.len(),
                self.buf@ == draw_all(old(self).buf@, pixels@.take(i as int)),
        {
            let p: Pixel = pixels[i];
            self.draw_pixel(p);
            assert(pixels@.take(i + 1).drop_last() == pixels@.take(i as int));
        }
        assert(pixels@.take(n as int) == pixels@);
    }

    /// Paint every pixel of `area` that lies on screen with `color`; the
    /// rest of the buffer, and all of it when no part of `area` is on
    /// screen, stays as it was.
    pub fn fill_solid(&mut self, area: &Rectangle, color: u16)
        requires
            fill_solid_defined(*area),
        ensures
            forall|x: int, y: int|
                on_screen(x, y) ==> #[trigger] final(self).buf@[pixel_index(x, y)] == if in_fill(
                    *area,
                    x,
                    y,
                ) {
                    color
                } else {
                    old(self).buf@[pixel_index(x, y)]
                },
            final(self).buf@ == fill_result(old(self).buf@, *area, color),
            off_screen(*area) ==> final(self).buf@ == old(self).buf@,
    {
        let ghost r = *area;
        let ghost before = self.buf@;
        let x0: usize = if area.x < 0 { 0 } else { area.x as usize };
        let y0: usize = if area.y < 0 { 0 } else { area.y as usize };
        let right: i32 = area.x + #[verifier::truncate] (area.width as i32);
        let bottom: i32 = area.y + #[verifier::truncate] (area.height as i32);
        let x1: usize = if right < 0 { 0 } else if right < LCD_WIDTH as i32 { right as usize } else { LCD_WIDTH as usize };
        let y1: usize = if bottom < 0 { 0 } else if bottom < LCD_HEIGHT as i32 { bottom as usize } else { LCD_HEIGHT as usize };
        let xs: usize = if x0 < x1 { x0 } else { x1 };
        let mut y: usize = if y0 < y1 { y0 } else { y1 };
        while y < y1
            invariant
                y0 == fill_y0(r),
                y1 == fill_y1(r),
                x0 == fill_x0(r),
                x1 == fill_x1(r),
                xs == if x0 < x1 { x0 } else { x1 },
                x1 <= 480,
                y1 <= 272,
                y <= y1,
                y0 < y1 ==> y0 <= y,
                y0 >= y1 ==> y == y1,
                self.buf@.len() == 130560,
                forall|xx: int, yy: int|
                    on_screen(xx, yy) ==> #[trigger] self.buf@[pixel_index(xx, yy)] == if in_fill(
                        r,
                        xx,
                        yy,
                    ) && yy < y {
                        color
                    } else {
                        before[pixel_index(xx, yy)]
                    },
            decreases y1 - y,
        {
            assert(y0 <= y);
            let mut x: usize = xs;
            while x < x1
                invariant
                    y0 == fill_y0(r),
                    y1 == fill_y1(r),
                    x0 == fill_x0(r),
                    x1 == fill_x1(r),
                    x1 <= 480,
                    y1 <= 272,
                    y0 <= y < y1,
                    x <= x1,
                    x0 < x1 ==> x0 <= x,
                    x0 >= x1 ==> x == x1,
                    self.buf@.len() == 130560,
                    forall|xx: int, yy: int|
                        on_screen(xx, yy) ==> #[trigger] self.buf@[pixel_index(xx, yy)] == if in_fill(
                            r,
                            xx,
                            yy,
                        ) && (yy < y || yy == y && xx < x) {
                            color
                        } else {
                            before[pixel_index(xx, yy)]
                        },
                decreases x1 - x,
            {
                assert(y * 480 + x < 130560) by (nonlinear_arith)
                    requires
                        y < 272,
                        x < 480,
                ;
                let i: usize = y * LCD_WIDTH as usize + x;
                assert(i == pixel_index(x as int, y as int));
                self.buf[i] = color;
                x = x + 1;
            }
            y = y + 1;
        }
        assert forall|i: int| 0 <= i < FB_SIZE implies #[trigger] self.buf@[i] == fill_result(
            before,
            r,
            color,
        )[i] by {
            let xx: int = i % 480;
            let yy: int = i / 480;
            assert(pixel_index(xx, yy) == i);
            assert(on_screen(xx, yy));
        }
        assert(self.buf@ =~= fill_result(before, r, color));
        proof {
            if off_screen(r) {
                assert(self.buf@ =~= before);
            }
        }
    }

    /// Paint the whole screen with `color`.
    pub fn clear(&mut self, color: u16)
        ensures
            forall|i: int| 0 <= i < FB_SIZE ==> #[trigger] final(self).buf@[i] == color,
    {
        let area = Rectangle { x: 0, y: 0, width: LCD_WIDTH as u32, height: LCD_HEIGHT as u32 };
        self.fill_solid(&area, color);
        assert forall|i: int| 0 <= i < FB_SIZE implies #[trigger] self.buf@[i] == color by {
            let xx: int = i % 480;
            let yy: int = i / 480;
            assert(pixel_index(xx, yy) == i);
            assert(on_screen(xx, yy));
        }
    }

    /// The panel's dimensions.
    pub fn size(&self) -> (s: Size)
        ensures
            s.width == 480 && s.height == 272,
    {
        Size { width: LCD_WIDTH as u32, height: LCD_HEIGHT as u32 }
    }
}

/// The display: the frame buffer that the UI draws into.
pub struct Display {
    pub fb: FrameBuf,
}

impl Display {
    /// A display whose frame buffer is cleared to black.
    pub fn init() -> (d: Display)
        ensures
            forall|i: int| 0 <= i < FB_SIZE ==> #[trigger] d.fb.buf@[i] == 0,
    {
        let mut fb = FrameBuf::new();
        fb.clear(0);
        Display { fb }
    }
}


/// Whether pixel `p` lands on the on-screen position `(x, y)`.
pub open spec fn lands_at(p: Pixel, x: int, y: int) -> bool {
    p.x as int == x && p.y as int == y
}

/// Drawing keeps the buffer's length, leaves every on-screen position that
/// no pixel lands on as it was, and gives a position that some pixel lands
/// on the colour of the last such pixel: later pixels overwrite earlier ones.
pub proof fn lemma_draw_all_pointwise(s: Seq<u16>, ps: Seq<Pixel>, x: int, y: int, j: int)
    requires
        s.len() == FB_SIZE,
        on_screen(x, y),
    ensures
        draw_all(s, ps).len() == s.len(),
        (forall|k: int| 0 <= k < ps.len() ==> !lands_at(#[trigger] ps[k], x, y)) ==> draw_all(
            s,
            ps,
        )[pixel_index(x, y)] == s[pixel_index(x, y)],
        0 <= j < ps.len() && lands_at(ps[j], x, y) && (forall|k: int|
            j < k < ps.len() ==> !lands_at(#[trigger] ps[k], x, y)) ==> draw_all(s, ps)[pixel_index(
            x,
            y,
        )] == ps[j].color,
    decreases ps.len(),
{
    if ps.len() > 0 {
        let init = ps.drop_last();
        let last = ps.last();
        lemma_draw_all_pointwise(s, init, x, y, j);
        let t = draw_all(s, init);
        if on_screen(last.x as int, last.y as int) && !lands_at(last, x, y) {
            assert(pixel_index(last.x as int, last.y as int) != pixel_index(x, y));
        }
        if (forall|k: int| 0 <= k < ps.len() ==> !lands_at(#[trigger] ps[k], x, y)) {
            assert forall|k: int| 0 <= k < init.len() implies !lands_at(#[trigger] init[k], x, y) by {
                assert(init[k] == ps[k]);
            }
            assert(!lands_at(ps[ps.len() - 1], x, y));
        }
        if 0 <= j < ps.len() && lands_at(ps[j], x, y) && (forall|k: int|
            j < k < ps.len() ==> !lands_at(#[trigger] ps[k], x, y)) {
            if j < ps.len() - 1 {
                assert(!lands_at(ps[ps.len() - 1], x, y));
                assert(init[j] == ps[j]);
                assert forall|k: int| j < k < init.len() implies !lands_at(#[trigger] init[k], x, y) by {
                    assert(init[k] == ps[k]);
                }
            }
        }
    }
}


/// The pixels of `r` in colour `c`, row after row, left to right.
pub open spec fn rect_pixels(r: Rectangle, c: u16) -> Seq<Pixel> {
    Seq::new(
        (r.width as nat) * (r.height as nat),
        |k: int|
            Pixel {
                x: (r.x as int + k % (r.width as int)) as i32,
                y: (r.y as int + k / (r.width as int)) as i32,
                color: c,
            },
    )
}

/// The `k`-th pixel of `r` lies in column `k % width` and row `k / width` of
/// the rectangle.
proof fn lemma_rect_pixel_position(r: Rectangle, c: u16, k: int)
    requires
        fill_solid_defined(r),
        r.width <= i32::MAX,
        r.height <= i32::MAX,
        0 <= k < rect_pixels(r, c).len(),
    ensures
        r.width > 0,
        0 <= k % (r.width as int) < r.width,
        0 <= k / (r.width as int) < r.height,
        rect_pixels(r, c)[k].x as int == r.x as int + k % (r.width as int),
        rect_pixels(r, c)[k].y as int == r.y as int + k / (r.width as int),
{
    let w = r.width as int;
    let h = r.height as int;
    assert(w > 0) by (nonlinear_arith)
        requires
            0 <= k < w * h,
            w >= 0,
            h >= 0,
    ;
    vstd::arithmetic::div_mod::lemma_fundamental_div_mod(k, w);
    let q = k / w;
    let m = k % w;
    assert(0 <= m < w);
    assert(0 <= q < h) by (nonlinear_arith)
        requires
            k == w * q + m,
            0 <= m < w,
            0 <= k < w * h,
            w > 0,
    ;
    assert((r.width as i32) as int == w);
    assert((r.height as i32) as int == h);
}

/// Filling a rectangle paints the buffer exactly as drawing all of the
/// rectangle's pixels in that colour does: off-screen parts are clipped away
/// and the rest is painted.
pub proof fn lemma_fill_draws_its_pixels(s: Seq<u16>, r: Rectangle, c: u16)
    requires
        s.len() == FB_SIZE,
        fill_solid_defined(r),
        r.width <= i32::MAX,
        r.height <= i32::MAX,
    ensures
        draw_all(s, rect_pixels(r, c)) == fill_result(s, r, c),
{
    let ps = rect_pixels(r, c);
    let w = r.width as int;
    let h = r.height as int;
    assert((r.width as i32) as int == w);
    assert((r.height as i32) as int == h);
    lemma_draw_all_pointwise(s, ps, 0, 0, 0);
    assert forall|i: int| 0 <= i < FB_SIZE implies #[trigger] draw_all(s, ps)[i] == fill_result(
        s,
        r,
        c,
    )[i] by {
        let x = i % 480;
        let y = i / 480;
        assert(pixel_index(x, y) == i);
        assert(on_screen(x, y));
        if in_fill(r, x, y) {
            let dx = x - r.x;
            let dy = y - r.y;
            assert(0 <= dx < w && 0 <= dy < h);
            let j = dy * w + dx;
            assert(0 <= j < w * h) by (nonlinear_arith)
                requires
                    j == dy * w + dx,
                    0 <= dx < w,
                    0 <= dy < h,
            ;
            vstd::arithmetic::div_mod::lemma_fundamental_div_mod_converse(j, w, dy, dx);
            lemma_rect_pixel_position(r, c, j);
            assert(lands_at(ps[j], x, y));
            assert forall|k: int| j < k < ps.len() implies !lands_at(#[trigger] ps[k], x, y) by {
                lemma_rect_pixel_position(r, c, k);
                if lands_at(ps[k], x, y) {
                    vstd::arithmetic::div_mod::lemma_fundamental_div_mod(k, w);
                    assert(k == j) by (nonlinear_arith)
                        requires
                            k == w * (k / w) + k % w,
                            k / w == dy,
                            k % w == dx,
                            j == dy * w + dx,
                    ;
                }
            }
            lemma_draw_all_pointwise(s, ps, x, y, j);
        } else {
            assert forall|k: int| 0 <= k < ps.len() implies !lands_at(#[trigger] ps[k], x, y) by {
                lemma_rect_pixel_position(r, c, k);
            }
            lemma_draw_all_pointwise(s, ps, x, y, 0);
        }
    }
    assert(draw_all(s, ps) =~= fill_result(s, r, c));
}

} // verus!
