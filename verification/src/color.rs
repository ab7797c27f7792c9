//! RGB565 colour packing.

use vstd::prelude::*;

verus! {

/// The RGB565 word whose red, green and blue fields hold the low 5, 6 and 5
/// bits of `r`, `g` and `b`.
pub open spec fn spec_rgb565(r: u8, g: u8, b: u8) -> u16 {
    ((((r as u16) & 0x1f) << 11u16) | (((g as u16) & 0x3f) << 5u16) | ((b as u16) & 0x1f)) as u16
}

/// The same word as an integer: red field times 2048, plus green times 32,
/// plus blue.
pub open spec fn rgb565_value(r: u8, g: u8, b: u8) -> int {
    (r % 32) as int * 2048 + (g % 64) as int * 32 + (b % 32) as int
}

/// Pack 5-bit R, 6-bit G, 5-bit B into an RGB565 u16.
pub fn rgb565(r: u8, g: u8, b: u8) -> (c: u16)
    ensures
        c == spec_rgb565(r, g, b),
        c as int == rgb565_value(r, g, b),
        c >> 11u16 == (r & 0x1f) as u16,
        (c >> 5u16) & 0x3f == (g & 0x3f) as u16,
        c & 0x1f == (b & 0x1f) as u16,
{
    let c: u16 = (((r as u16) & 0x1f) << 11u16) | (((g as u16) & 0x3f) << 5u16) | ((b as u16) & 0x1f);
    let r16: u16 = r as u16;
    let g16: u16 = g as u16;
    let b16: u16 = b as u16;
    assert(c == ((r16 & 0x1f) << 11u16) | ((g16 & 0x3f) << 5u16) | (b16 & 0x1f));
    assert(r16 < 256 && g16 < 256 && b16 < 256);
    assert(r16 < 256 && g16 < 256 && b16 < 256 ==>
        ((r16 & 0x1f) << 11u16) | ((g16 & 0x3f) << 5u16) | (b16 & 0x1f)
            == (r16 % 32) * 2048 + (g16 % 64) * 32 + (b16 % 32)) by (bit_vector);
    assert(c >> 11u16 == r16 & 0x1f && (c >> 5u16) & 0x3f == g16 & 0x3f && c & 0x1f == b16 & 0x1f) by (bit_vector)
        requires c == ((r16 & 0x1f) << 11u16) | ((g16 & 0x3f) << 5u16) | (b16 & 0x1f);
    assert((r & 0x1f) as u16 == r16 & 0x1f && (g & 0x3f) as u16 == g16 & 0x3f && (b & 0x1f) as u16 == b16 & 0x1f) by (bit_vector)
        requires r16 == r as u16, g16 == g as u16, b16 == b as u16;
    c
}


/// The RGB565 word for an 8-bit-per-channel colour: the top 5, 6 and 5 bits
/// of red, green and blue, as the asset converter packs them.
pub open spec fn spec_rgb888_to_rgb565(r: u8, g: u8, b: u8) -> u16 {
    ((((r as u16) & 0xf8) << 8u16) | (((g as u16) & 0xfc) << 3u16) | ((b as u16) >> 3u16)) as u16
}

/// Convert an 8-bit-per-channel colour to RGB565 by keeping the top bits of
/// each channel.
pub fn rgb888_to_rgb565(r: u8, g: u8, b: u8) -> (c: u16)
    ensures
        c == spec_rgb888_to_rgb565(r, g, b),
        c == spec_rgb565(r >> 3u8, g >> 2u8, b >> 3u8),
{
    let r16: u16 = r as u16;
    let g16: u16 = g as u16;
    let b16: u16 = b as u16;
    let c: u16 = ((r16 & 0xf8) << 8) | ((g16 & 0xfc) << 3) | (b16 >> 3);
    let r5: u8 = r >> 3u8;
    let g6: u8 = g >> 2u8;
    let b5: u8 = b >> 3u8;
    assert(((r16 & 0xf8) << 8u16) | ((g16 & 0xfc) << 3u16) | (b16 >> 3u16)
        == (((r5 as u16) & 0x1f) << 11u16) | (((g6 as u16) & 0x3f) << 5u16) | ((b5 as u16) & 0x1f)) by (bit_vector)
        requires
            r16 == r as u16,
            g16 == g as u16,
            b16 == b as u16,
            r5 == r >> 3u8,
            g6 == g >> 2u8,
            b5 == b >> 3u8,
    ;
    c
}

/// The two bytes of an RGB565 word, most significant first, as the raw image
/// assets store them.
pub fn rgb565_be_bytes(c: u16) -> (bytes: [u8; 2])
    ensures
        bytes@[0] == (c >> 8u16) as u8,
        bytes@[1] == (c & 0xff) as u8,
        bytes@[0] as int * 256 + bytes@[1] as int == c as int,
{
    let hi: u8 = (c >> 8) as u8;
    let lo: u8 = (c & 0xff) as u8;
    assert(hi as int * 256 + lo as int == c as int) by (bit_vector)
        requires
            hi == (c >> 8u16) as u8,
            lo == (c & 0xff) as u8,
    ;
    [hi, lo]
}


/// An RGB565 word is its red field times 2048, plus its green field times
/// 32, plus its blue field, each field the channel's low bits.
pub proof fn lemma_rgb565_value(r: u8, g: u8, b: u8)
    ensures
        spec_rgb565(r, g, b) as int == (r % 32) as int * 2048 + (g % 64) as int * 32 + (b % 32) as int,
{
    let r16: u16 = r as u16;
    let g16: u16 = g as u16;
    let b16: u16 = b as u16;
    assert(r16 < 256 && g16 < 256 && b16 < 256 ==>
        ((r16 & 0x1f) << 11u16) | ((g16 & 0x3f) << 5u16) | (b16 & 0x1f)
            == (r16 % 32) * 2048 + (g16 % 64) * 32 + (b16 % 32)) by (bit_vector);
}

} // verus!
