//! The scrolling three-band colour gradient test pattern.

use vstd::prelude::*;

use crate::color::{lemma_rgb565_value, rgb565, spec_rgb565};
use crate::geometry::{pixel_index, FB_SIZE, LCD_HEIGHT, LCD_WIDTH};

verus! {

/// The 6-bit intensity of column `x` in frame `frame`: the column shifted
/// left by `frame` (modulo the width) and scaled from 0..=479 onto 0..=63.
pub open spec fn gradient_level(frame: u32, x: int) -> u8 {
    (((x + (frame as int) % 480) % 480) * 63 / 479) as u8
}

/// The colour of a pixel of the three bands before the border is drawn:
/// red in the top third, green in the middle third, blue in the bottom third.
pub open spec fn band_pixel(frame: u32, x: int, y: int) -> u16 {
    let v = gradient_level(frame, x);
    if y < 90 {
        spec_rgb565(v >> 1u8, 0, 0)
    } else if y < 181 {
        spec_rgb565(0, v, 0)
    } else {
        spec_rgb565(0, 0, v >> 1u8)
    }
}

/// Whether `(x, y)` lies on the one-pixel frame around the screen.
pub open spec fn is_border(x: int, y: int) -> bool {
    x == 0 || x == 479 || y == 0 || y == 271
}

/// The colour of pixel `(x, y)` of the test pattern in frame `frame`:
/// white on the border, the band colour elsewhere.
pub open spec fn gradient_pixel(frame: u32, x: int, y: int) -> u16 {
    if is_border(x, y) {
        spec_rgb565(31, 63, 31)
    } else {
        band_pixel(frame, x, y)
    }
}

/// Scrolling three-band colour gradient.
pub fn fill_gradient(fb: &mut [u16; FB_SIZE], frame: u32)
    ensures
        forall|x: int, y: int|
            0 <= x < 480 && 0 <= y < 272 ==> #[trigger] final(fb)@[pixel_index(x, y)]
                == gradient_pixel(frame, x, y),
        forall|x: int, y: int|
            0 <= x < 480 && 0 <= y < 272 && (x == 0 || x == 479 || y == 0 || y == 271)
                ==> #[trigger] final(fb)@[pixel_index(x, y)] == 0xffff,
{
    let w: usize = LCD_WIDTH as usize;
    let h: usize = LCD_HEIGHT as usize;
    let shift: usize = (frame as usize) % w;
    assert(fb@.len() == 130560);

    for y in 0..h
        invariant
            w == 480,
            h == 272,
            shift == (frame as int) % 480,
            fb@.len() == 130560,
            forall|xx: int, yy: int|
                0 <= xx < 480 && 0 <= yy < y ==> #[trigger] fb@[pixel_index(xx, yy)]
                    == band_pixel(frame, xx, yy),
    {
        for x in 0..w
            invariant
                w == 480,
                h == 272,
                0 <= y < 272,
                shift == (frame as int) % 480,
                fb@.len() == 130560,
                forall|xx: int, yy: int|
                    0 <= xx < 480 && 0 <= yy < y ==> #[trigger] fb@[pixel_index(xx, yy)]
                        == band_pixel(frame, xx, yy),
                forall|xx: int| 0 <= xx < x ==> #[trigger] fb@[pixel_index(xx, y as int)]
                    == band_pixel(frame, xx, y as int),
        {
            let sx: usize = (x + shift) % w;
            let val: u8 = (sx * 63 / (w - 1)) as u8;
            assert(val == gradient_level(frame, x as int));
            let c: u16 = if y < h / 3 {
                rgb565(val >> 1, 0, 0)
            } else if y < 2 * h / 3 {
                rgb565(0, val, 0)
            } else {
                rgb565(0, 0, val >> 1)
            };
            fb[y * w + x] = c;
            assert(pixel_index(x as int, y as int) == y * w + x);
        }
    }

    let white: u16 = rgb565(31, 63, 31);
    for x in 0..w
        invariant
            w == 480,
            h == 272,
            white == spec_rgb565(31, 63, 31),
            fb@.len() == 130560,
            forall|xx: int, yy: int|
                0 <= xx < 480 && 0 <= yy < 272 ==> #[trigger] fb@[pixel_index(xx, yy)] == if (
                yy == 0 || yy == 271) && xx < x {
                    white
                } else {
                    band_pixel(frame, xx, yy)
                },
    {
        fb[x] = white;
        assert(pixel_index(x as int, 0) == x);
        fb[(h - 1) * w + x] = white;
        assert(pixel_index(x as int, 271) == (h - 1) * w + x);
    }
    for y in 0..h
        invariant
            w == 480,
            h == 272,
            white == spec_rgb565(31, 63, 31),
            fb@.len() == 130560,
            forall|xx: int, yy: int|
                0 <= xx < 480 && 0 <= yy < 272 ==> #[trigger] fb@[pixel_index(xx, yy)] == if yy
                    == 0 || yy == 271 || ((xx == 0 || xx == 479) && yy < y) {
                    white
                } else {
                    band_pixel(frame, xx, yy)
                },
    {
        fb[y * w] = white;
        assert(pixel_index(0, y as int) == y * w);
        fb[y * w + w - 1] = white;
        assert(pixel_index(479, y as int) == y * w + w - 1);
    }
    proof {
        lemma_border_is_white();
    }
}


/// The border colour `rgb565(31, 63, 31)` is the all-ones word, white.
pub proof fn lemma_border_is_white()
    ensures
        spec_rgb565(31, 63, 31) == 0xffff,
{
    assert(((((31u8 as u16) & 0x1f) << 11u16) | (((63u8 as u16) & 0x3f) << 5u16) | ((31u8 as u16) & 0x1f))
        == 0xffff) by (bit_vector);
}

/// The pattern repeats every 480 frames: two frames whose numbers agree
/// modulo the width show the same picture.
pub proof fn lemma_gradient_period(f1: u32, f2: u32, x: int, y: int)
    requires
        f1 % 480 == f2 % 480,
    ensures
        gradient_pixel(f1, x, y) == gradient_pixel(f2, x, y),
{
}

/// Each frame scrolls the bands one column to the left: away from the
/// border, pixel `(x, y)` of frame `f + 1` has the colour that pixel
/// `(x + 1, y)` had in frame `f` (wrapping at the right edge), as long as
/// the frame counter does not wrap.
pub proof fn lemma_gradient_scrolls_left(f: u32, x: int, y: int)
    requires
        f < u32::MAX,
        0 <= x < 480,
    ensures
        gradient_level((f + 1) as u32, x) == gradient_level(f, (x + 1) % 480),
        band_pixel((f + 1) as u32, x, y) == band_pixel(f, (x + 1) % 480, y),
{
    let s0 = (f as int) % 480;
    let s1 = ((f + 1) as int) % 480;
    assert(s1 == (s0 + 1) % 480);
    assert((x + s1) % 480 == ((x + 1) % 480 + s0) % 480);
}

/// Every intensity is a 6-bit value: 0 at the column that the scroll brings
/// to position 0 and 63 at the one just left of it.
pub proof fn lemma_gradient_level_range(f: u32, x: int)
    requires
        0 <= x < 480,
    ensures
        gradient_level(f, x) <= 63,
        (x + (f as int) % 480) % 480 == 0 ==> gradient_level(f, x) == 0,
        (x + (f as int) % 480) % 480 == 479 ==> gradient_level(f, x) == 63,
{
}


/// The column of the unscrolled gradient that column `x` shows in frame
/// `frame`: `x` moved right by the frame number, wrapping at the width.
pub open spec fn scrolled_column(frame: u32, x: int) -> int {
    (x + (frame as int) % 480) % 480
}

/// Every border pixel is white (0xFFFF) in every frame.
pub proof fn lemma_border_white_in_every_frame(f: u32, x: int, y: int)
    requires
        0 <= x < 480,
        0 <= y < 272,
        x == 0 || x == 479 || y == 0 || y == 271,
    ensures
        gradient_pixel(f, x, y) == 0xffff,
{
    lemma_border_is_white();
}

/// The intensity is the scrolled column scaled from 0..=479 onto 0..=63,
/// rounded down: the largest `v` with `v * 479 <= column * 63`.
pub proof fn lemma_gradient_level_scales_column(f: u32, x: int)
    requires
        0 <= x < 480,
    ensures
        0 <= scrolled_column(f, x) < 480,
        (gradient_level(f, x) as int) * 479 <= scrolled_column(f, x) * 63,
        scrolled_column(f, x) * 63 < (gradient_level(f, x) as int + 1) * 479,
{
}

/// The intensity never falls as the scrolled column grows.
pub proof fn lemma_gradient_level_monotone(f1: u32, x1: int, f2: u32, x2: int)
    requires
        0 <= x1 < 480,
        0 <= x2 < 480,
        scrolled_column(f1, x1) <= scrolled_column(f2, x2),
    ensures
        gradient_level(f1, x1) <= gradient_level(f2, x2),
{
    lemma_gradient_level_scales_column(f1, x1);
    lemma_gradient_level_scales_column(f2, x2);
    let c1 = scrolled_column(f1, x1);
    let c2 = scrolled_column(f2, x2);
    let v1 = gradient_level(f1, x1) as int;
    let v2 = gradient_level(f2, x2) as int;
    assert(v1 <= v2) by (nonlinear_arith)
        requires
            v1 * 479 <= c1 * 63,
            c2 * 63 < (v2 + 1) * 479,
            c1 <= c2,
    ;
}

/// Inside the border, the top band is red with half the intensity in the
/// 5-bit red field, the middle band green with the intensity in the 6-bit
/// green field, and the bottom band blue with half the intensity in the
/// 5-bit blue field; the other fields are zero.
pub proof fn lemma_band_colours(f: u32, x: int, y: int)
    requires
        0 <= x < 480,
    ensures
        y < 90 ==> band_pixel(f, x, y) as int == (gradient_level(f, x) as int / 2) * 2048,
        90 <= y < 181 ==> band_pixel(f, x, y) as int == (gradient_level(f, x) as int) * 32,
        181 <= y ==> band_pixel(f, x, y) as int == gradient_level(f, x) as int / 2,
{
    let v = gradient_level(f, x);
    lemma_gradient_level_range(f, x);
    assert((v >> 1u8) as int == v as int / 2) by (bit_vector);
    assert(v as int / 2 < 32);
    lemma_rgb565_value((v >> 1u8), 0, 0);
    lemma_rgb565_value(0, v, 0);
    lemma_rgb565_value(0, 0, (v >> 1u8));
}

} // verus!
