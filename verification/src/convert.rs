//! Conversions from packed RGB565 words to the wider color formats that the
//! display back ends take: 8-bit-per-channel RGB888 and 32-bit ARGB.
//!
//! Each 5- or 6-bit channel is widened by shifting it up and copying its
//! high bits into the freed low bits, so that full intensity maps to 255 and
//! zero maps to 0 without banding at either end.
use vstd::prelude::*;
use embedded_graphics::pixelcolor::Rgb888;
use crate::color::{Rgb565, rgb565_value};

verus! {

/// The five red bits of an RGB565 word.
pub open spec fn red5(c: Rgb565) -> int {
    c as int / 2048
}

/// The six green bits of an RGB565 word.
pub open spec fn green6(c: Rgb565) -> int {
    (c as int / 32) % 64
}

/// The five blue bits of an RGB565 word.
pub open spec fn blue5(c: Rgb565) -> int {
    c as int % 32
}

/// A 5-bit channel widened to eight bits by bit replication.
pub open spec fn widen5(v: int) -> int {
    v * 8 + v / 4
}

/// A 6-bit channel widened to eight bits by bit replication.
pub open spec fn widen6(v: int) -> int {
    v * 4 + v / 16
}

/// The 8-bit red, green and blue channels of an RGB565 word.
pub open spec fn rgb888_channels(c: Rgb565) -> (int, int, int) {
    (widen5(red5(c)), widen6(green6(c)), widen5(blue5(c)))
}

/// The opaque ARGB word of an RGB565 color: alpha 0xFF, then red, green and
/// blue bytes.
pub open spec fn argb_value(c: Rgb565) -> int {
    0xFF00_0000 + rgb888_channels(c).0 * 0x1_0000 + rgb888_channels(c).1 * 0x100
        + rgb888_channels(c).2
}

/// Widen an RGB565 word to its three 8-bit channels `(r, g, b)`.
pub fn rgb565_to_rgb888(c: Rgb565) -> (rgb: (u8, u8, u8))
    ensures
        rgb.0 == rgb888_channels(c).0,
        rgb.1 == rgb888_channels(c).1,
        rgb.2 == rgb888_channels(c).2,
{
    let r5: u8 = ((c >> 11) & 0x1F) as u8;
    let g6: u8 = ((c >> 5) & 0x3F) as u8;
    let b5: u8 = (c & 0x1F) as u8;
    assert(((c >> 11) & 0x1F) == c / 2048 && ((c >> 5) & 0x3F) == (c / 32) % 64 && (c & 0x1F) == c
        % 32) by (bit_vector);
    let r: u8 = (r5 << 3) | (r5 >> 2);
    let g: u8 = (g6 << 2) | (g6 >> 4);
    let b: u8 = (b5 << 3) | (b5 >> 2);
    assert(r5 < 32 ==> (r5 << 3) | (r5 >> 2) == r5 * 8 + r5 / 4) by (bit_vector);
    assert(g6 < 64 ==> (g6 << 2) | (g6 >> 4) == g6 * 4 + g6 / 16) by (bit_vector);
    assert(b5 < 32 ==> (b5 << 3) | (b5 >> 2) == b5 * 8 + b5 / 4) by (bit_vector);
    (r, g, b)
}

/// Convert an RGB565 word into the ARGB 32-bit word that a window pixel
/// buffer takes (alpha fully opaque).
pub fn rgb565_to_argb(c: Rgb565) -> (argb: u32)
    ensures
        argb == argb_value(c),
{
    let (r8, g8, b8) = rgb565_to_rgb888(c);
    let r: u32 = r8 as u32;
    let g: u32 = g8 as u32;
    let b: u32 = b8 as u32;
    assert(r < 256 && g < 256 && b < 256 ==> 0xFF00_0000u32 | (r << 16) | (g << 8) | b
        == 0xFF00_0000u32 + r * 0x1_0000 + g * 0x100 + b) by (bit_vector);
    0xFF00_0000 | (r << 16) | (g << 8) | b
}

/// The 24-bit color type of embedded-graphics, carried as an opaque value.
#[verifier::external_type_specification]
#[verifier::external_body]
pub struct ExRgb888(embedded_graphics::pixelcolor::Rgb888);

/// What `Rgb888::new` of embedded-graphics returns for the given channels.
pub uninterp spec fn rgb888_new(r: u8, g: u8, b: u8) -> Rgb888;

/// Calls `embedded_graphics::pixelcolor::Rgb888::new`, which packs three
/// 8-bit channels into an `Rgb888` color.  The contract only names the
/// result as a function of the three channels.
#[verifier::external_body]
fn make_rgb888(r: u8, g: u8, b: u8) -> (c: Rgb888)
    ensures
        c == rgb888_new(r, g, b),
{
    Rgb888::new(r, g, b)
}

/// Convert an RGB565 palette entry into the 24-bit `Rgb888` color type that
/// embedded-graphics draw targets take.
pub fn to_eg(c: Rgb565) -> (color: Rgb888)
    ensures
        color == rgb888_new(
            rgb888_channels(c).0 as u8,
            rgb888_channels(c).1 as u8,
            rgb888_channels(c).2 as u8,
        ),
{
    let (r, g, b) = rgb565_to_rgb888(c);
    make_rgb888(r, g, b)
}

/// Widening an RGB565 word and packing the result back gives the same
/// word: no information is lost by the conversion.
pub proof fn lemma_widen_then_pack(c: Rgb565)
    ensures
        0 <= rgb888_channels(c).0 < 256,
        0 <= rgb888_channels(c).1 < 256,
        0 <= rgb888_channels(c).2 < 256,
        rgb565_value(
            rgb888_channels(c).0 as u8,
            rgb888_channels(c).1 as u8,
            rgb888_channels(c).2 as u8,
        ) == c,
{
}

/// Packing a 24-bit color into RGB565 and widening it again keeps the high
/// bits of each channel: five of red, six of green and five of blue.
pub proof fn lemma_pack_then_widen(r: u8, g: u8, b: u8)
    ensures
        rgb888_channels(rgb565_value(r, g, b) as u16).0 / 8 == r / 8,
        rgb888_channels(rgb565_value(r, g, b) as u16).1 / 4 == g / 4,
        rgb888_channels(rgb565_value(r, g, b) as u16).2 / 8 == b / 8,
{
    let ri: int = r as int / 8;
    let gi: int = g as int / 4;
    let bi: int = b as int / 8;
    let c: int = ri * 2048 + gi * 32 + bi;
    assert(c == rgb565_value(r, g, b));
    assert(c / 2048 == ri && (c / 32) % 64 == gi && c % 32 == bi) by (nonlinear_arith)
        requires
            0 <= ri < 32,
            0 <= gi < 64,
            0 <= bi < 32,
            c == ri * 2048 + gi * 32 + bi,
    ;
    assert(widen5(ri) / 8 == ri && widen6(gi) / 4 == gi && widen5(bi) / 8 == bi) by (
    nonlinear_arith)
        requires
            0 <= ri < 32,
            0 <= gi < 64,
            0 <= bi < 32,
    ;
}

/// Black widens to opaque black and white widens to opaque white.
pub proof fn lemma_black_and_white()
    ensures
        argb_value(0x0000) == 0xFF00_0000,
        argb_value(0xFFFF) == 0xFFFF_FFFF,
{
}

/// The ARGB word of an RGB565 color holds, from the high byte down: alpha
/// 0xFF, the red channel, the green channel and the blue channel, each
/// widened by copying its high bits into the freed low bits.  In particular
/// the top bits of each byte are exactly the channel's bits of `c`.
pub proof fn lemma_argb_bytes(c: Rgb565)
    ensures
        argb_value(c) / 0x100_0000 == 0xFF,
        (argb_value(c) / 0x1_0000) % 0x100 == (c as int / 2048) * 8 + (c as int / 2048) / 4,
        (argb_value(c) / 0x100) % 0x100 == ((c as int / 32) % 64) * 4 + ((c as int / 32) % 64) / 16,
        argb_value(c) % 0x100 == (c as int % 32) * 8 + (c as int % 32) / 4,
        (argb_value(c) / 0x1_0000) % 0x100 / 8 == c as int / 2048,
        (argb_value(c) / 0x100) % 0x100 / 4 == (c as int / 32) % 64,
        argb_value(c) % 0x100 / 8 == c as int % 32,
{
    let r5: int = c as int / 2048;
    let g6: int = (c as int / 32) % 64;
    let b5: int = c as int % 32;
    let r: int = r5 * 8 + r5 / 4;
    let g: int = g6 * 4 + g6 / 16;
    let b: int = b5 * 8 + b5 / 4;
    assert(0 <= r5 < 32 && 0 <= g6 < 64 && 0 <= b5 < 32);
    assert(0 <= r < 256 && 0 <= g < 256 && 0 <= b < 256 && r / 8 == r5 && g / 4 == g6 && b / 8
        == b5);
    let v: int = 0xFF00_0000 + r * 0x1_0000 + g * 0x100 + b;
    assert(argb_value(c) == v);
    assert(v / 0x100_0000 == 0xFF && (v / 0x1_0000) % 0x100 == r && (v / 0x100) % 0x100 == g && v
        % 0x100 == b) by (nonlinear_arith)
        requires
            0 <= r < 256,
            0 <= g < 256,
            0 <= b < 256,
            v == 0xFF00_0000 + r * 0x1_0000 + g * 0x100 + b,
    ;
}

} // verus!
