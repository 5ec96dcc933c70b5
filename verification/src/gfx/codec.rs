//! The pixel codec: conversion between 8-bit-per-channel colour and the packed
//! 16-bit device format, and alpha compositing of one pixel.
//!
//! A packed pixel is two bytes. The byte that is stored first (`high`) carries
//! the low three bits of the 6-bit green in its top bits and the 5-bit blue
//! below them; the byte stored second (`low`) carries the 5-bit red in its top
//! bits and the high three bits of green below them.

use vstd::prelude::*;

verus! {

/// The first byte of the packed form of a colour with green `g` and blue `b`.
pub open spec fn pack_high(g: u8, b: u8) -> u8 {
    (((g as int / 4) % 8) * 32 + b as int / 8) as u8
}

/// The second byte of the packed form of a colour with red `r` and green `g`.
pub open spec fn pack_low(r: u8, g: u8) -> u8 {
    ((r as int / 8) * 8 + g as int / 32) as u8
}

/// The packed form `(high, low)` of the colour `(r, g, b)`.
pub open spec fn pack(r: u8, g: u8, b: u8) -> (u8, u8) {
    (pack_high(g, b), pack_low(r, g))
}

/// The colour `(r, g, b)` that the packed pixel `(high, low)` stands for. The
/// bits that packing dropped come back as zero.
pub open spec fn unpack(high: u8, low: u8) -> (u8, u8, u8) {
    (
        ((low as int / 8) * 8) as u8,
        ((low as int % 8) * 32 + (high as int / 32) * 4) as u8,
        ((high as int % 32) * 8) as u8,
    )
}

/// One channel of a source with opacity `a` composited over an opaque
/// destination: `(a * src + (255 - a) * dst) / 256`, rounded down.
pub open spec fn blend_channel(a: u8, src: u8, dst: u8) -> u8 {
    ((a as int * src as int + (255 - a as int) * dst as int) / 256) as u8
}

/// The colour that results from compositing the source `(r, g, b)` with
/// opacity `a` over the opaque colour `(cr, cg, cb)`.
pub open spec fn blended(r: u8, g: u8, b: u8, a: u8, cr: u8, cg: u8, cb: u8) -> (u8, u8, u8) {
    (blend_channel(a, r, cr), blend_channel(a, g, cg), blend_channel(a, b, cb))
}

/// Packs a 24-bit colour (three 8-bit channels) into the 16-bit device format.
pub fn color_to_16_bits(r: u8, g: u8, b: u8) -> (packed: (u8, u8))
    ensures
        packed == pack(r, g, b),
{
    let h: u8 = (g & 0b0001_1100) << 3;
    let h: u8 = h | ((b & 0b1111_1000) >> 3);
    let l: u8 = r & 0b1111_1000;
    let l: u8 = l | ((g & 0b1110_0000) >> 5);
    assert((((g & 0b0001_1100) << 3) | ((b & 0b1111_1000) >> 3)) == (((g / 4) % 8) * 32 + b / 8) as u8)
        by (bit_vector);
    assert(((r & 0b1111_1000) | ((g & 0b1110_0000) >> 5)) == ((r / 8) * 8 + g / 32) as u8)
        by (bit_vector);
    (h, l)
}

/// Reads a packed 16-bit pixel back as a 24-bit colour.
pub fn color_from_16_bits(high: u8, low: u8) -> (color: (u8, u8, u8))
    ensures
        color == unpack(high, low),
{
    let r: u8 = low & 0b1111_1000;
    let g: u8 = ((low & 0b0000_0111) << 5) | ((high & 0b1110_0000) >> 3);
    let b: u8 = (high & 0b0001_1111) << 3;
    assert((low & 0b1111_1000) == ((low / 8) * 8) as u8) by (bit_vector);
    assert((((low & 0b0000_0111) << 5) | ((high & 0b1110_0000) >> 3)) == ((low % 8) * 32 + (high
        / 32) * 4) as u8) by (bit_vector);
    assert(((high & 0b0001_1111) << 3) == ((high % 32) * 8) as u8) by (bit_vector);
    (r, g, b)
}

/// The weighted sum of one blended channel stays within 16 bits.
proof fn lemma_blend_sum_bound(a: u8, src: u8, dst: u8)
    ensures
        0 <= a as int * src as int + (255 - a as int) * dst as int <= 255 * 255,
        0 <= a as int * src as int <= 255 * 255,
        0 <= (255 - a as int) * dst as int <= 255 * 255,
{
    assert(0 <= a as int * src as int <= a as int * 255) by (nonlinear_arith)
        requires
            0 <= a,
            0 <= src <= 255,
    ;
    assert(0 <= (255 - a as int) * dst as int <= (255 - a as int) * 255) by (nonlinear_arith)
        requires
            0 <= 255 - a as int,
            0 <= dst <= 255,
    ;
}

fn blend_one(a: u8, src: u8, dst: u8) -> (out: u8)
    ensures
        out == blend_channel(a, src, dst),
{
    proof {
        lemma_blend_sum_bound(a, src, dst);
    }
    let weighted: u16 = (a as u16 * src as u16) + ((255 - a as u16) * dst as u16);
    (weighted / 256) as u8
}

/// Blends a colour that has an alpha channel with an opaque colour.
pub fn blend(r: u8, g: u8, b: u8, a: u8, cr: u8, cg: u8, cb: u8) -> (out: (u8, u8, u8))
    ensures
        out == blended(r, g, b, a, cr, cg, cb),
{
    (blend_one(a, r, cr), blend_one(a, g, cg), blend_one(a, b, cb))
}

/// Packing is lossy: a colour that was packed and is read back has the top
/// five bits of its red and blue and the top six bits of its green, and zeros
/// below them.
pub proof fn lemma_pack_unpack(r: u8, g: u8, b: u8)
    ensures
        unpack(pack(r, g, b).0, pack(r, g, b).1) == (r & 0xF8, g & 0xFC, b & 0xF8),
        unpack(pack(r, g, b).0, pack(r, g, b).1) == (
            (r - r % 8) as u8,
            (g - g % 4) as u8,
            (b - b % 8) as u8,
        ),
{
    assert(r & 0xF8 == (r - r % 8) as u8) by (bit_vector);
    assert(g & 0xFC == (g - g % 4) as u8) by (bit_vector);
    assert(b & 0xF8 == (b - b % 8) as u8) by (bit_vector);
}

/// A colour that was read back from its packed form packs to the same two
/// bytes again.
pub proof fn lemma_unpack_pack(high: u8, low: u8)
    ensures
        pack(unpack(high, low).0, unpack(high, low).1, unpack(high, low).2) == (high, low),
{
}

/// One channel at full opacity: the source less one, and zero for zero,
/// whatever the destination.
pub proof fn lemma_blend_channel_opaque(src: u8, dst: u8)
    ensures
        blend_channel(255, src, dst) == if src == 0 {
            0
        } else {
            src - 1
        },
{
}

/// One channel at full transparency: the destination less one, and zero for
/// zero, whatever the source.
pub proof fn lemma_blend_channel_transparent(src: u8, dst: u8)
    ensures
        blend_channel(0, src, dst) == if dst == 0 {
            0
        } else {
            dst - 1
        },
{
    assert(0 * (src as int) == 0);
}

/// Because the weighted sum is divided by 256 and not by 255, compositing
/// at full opacity passes a source through unchanged only where it is black.
pub proof fn lemma_blend_opaque_black(r: u8, g: u8, b: u8, cr: u8, cg: u8, cb: u8)
    requires
        r == 0,
        g == 0,
        b == 0,
    ensures
        blended(r, g, b, 255, cr, cg, cb) == (r, g, b),
{
    lemma_blend_channel_opaque(r, cr);
    lemma_blend_channel_opaque(g, cg);
    lemma_blend_channel_opaque(b, cb);
}

/// For the same reason compositing at full transparency passes a
/// destination through unchanged only where it is black.
pub proof fn lemma_blend_transparent_black(r: u8, g: u8, b: u8, cr: u8, cg: u8, cb: u8)
    requires
        cr == 0,
        cg == 0,
        cb == 0,
    ensures
        blended(r, g, b, 0, cr, cg, cb) == (cr, cg, cb),
{
    lemma_blend_channel_transparent(r, cr);
    lemma_blend_channel_transparent(g, cg);
    lemma_blend_channel_transparent(b, cb);
}

} // verus!
