//! Pixel encoding: from a light level to a packed grayscale colour.
//!
//! A light level is the diffuse intensity of a surface point in hundredths,
//! rounded to a whole number: 100 is a surface that faces the light, -100 one
//! that faces away. `None` stands for a level that is not a number, which is
//! what a degenerate normal yields.

use vstd::prelude::*;

verus! {

/// Numerator of the base brightness `255/4`.
pub const BASE_NUMERATOR: i64 = 255;

/// Divisor of the base brightness `255/4`.
pub const BASE_DIVISOR: i64 = 4;

/// The fraction `num/den` rounded to the nearest whole number, halves away
/// from zero.
pub open spec fn round_half_away(num: int, den: int) -> int
    recommends
        den > 0,
{
    if num >= 0 {
        (2 * num + den) / (2 * den)
    } else {
        -((den - 2 * num) / (2 * den))
    }
}

/// `x` brought into the range of a `u32`: below zero it is 0, above the
/// largest `u32` it is that largest value.
pub open spec fn saturate(x: int) -> int {
    if x < 0 {
        0
    } else if x > u32::MAX {
        u32::MAX as int
    } else {
        x
    }
}

/// The intensity of a light level of `percent` hundredths: the base
/// brightness less the level, rounded, then saturated.
pub open spec fn intensity_of(percent: int) -> int {
    saturate(round_half_away(BASE_NUMERATOR - BASE_DIVISOR * percent, BASE_DIVISOR as int))
}

/// The intensity of any light level; a level that is not a number is black.
pub open spec fn intensity(level: Option<i64>) -> int {
    match level {
        Some(percent) => intensity_of(percent as int),
        None => 0,
    }
}

/// The colour word that carries `v` in its red, green and blue positions:
/// the bitwise union of `v`, `v << 8` and `v << 16`, each kept to 32 bits.
pub open spec fn packed(v: u32) -> u32 {
    (v << 16) | (v << 8) | v
}

/// The red channel of a colour word.
pub open spec fn red(color: u32) -> u32 {
    (color >> 16) & 0xff
}

/// The green channel of a colour word.
pub open spec fn green(color: u32) -> u32 {
    (color >> 8) & 0xff
}

/// The blue channel of a colour word.
pub open spec fn blue(color: u32) -> u32 {
    color & 0xff
}

/// The colour of a pixel whose light level is `level`.
pub open spec fn color_of(level: Option<i64>) -> u32 {
    packed(intensity(level) as u32)
}

/// Rounding the base brightness less a whole level moves the base up to 64:
/// the intensity is `64 - percent`, saturated.
pub proof fn lemma_intensity_is_offset(percent: int)
    ensures
        intensity_of(percent) == saturate(64 - percent),
{
    let num = BASE_NUMERATOR - BASE_DIVISOR * percent;
    if num >= 0 {
        assert((2 * num + 4) / 8 == 64 - percent);
    } else {
        assert((4 - 2 * num) / 8 == percent - 64);
    }
}

/// A brighter light never gives a larger intensity.
pub proof fn lemma_intensity_falls(dim: int, bright: int)
    requires
        dim <= bright,
    ensures
        intensity_of(bright) <= intensity_of(dim),
{
    lemma_intensity_is_offset(dim);
    lemma_intensity_is_offset(bright);
}

/// An intensity that fits a byte is found again in each of the three
/// channels, and the top byte of the colour word is empty.
pub proof fn lemma_byte_fills_channels(v: u32)
    by (bit_vector)
    requires
        v <= 255,
    ensures
        (packed(v) >> 16) & 0xff == v,
        (packed(v) >> 8) & 0xff == v,
        packed(v) & 0xff == v,
        packed(v) >> 24 == 0,
{
}

/// A level between -100 and 100, which is what two unit vectors give, has an
/// intensity of at most 164, so its colour is a true gray: the three channels
/// agree and nothing spills from one into the next.
pub proof fn lemma_unit_light_is_gray(percent: i64)
    requires
        -100 <= percent <= 100,
    ensures
        0 <= intensity_of(percent as int) <= 164,
        red(color_of(Some(percent))) == intensity_of(percent as int),
        green(color_of(Some(percent))) == intensity_of(percent as int),
        blue(color_of(Some(percent))) == intensity_of(percent as int),
{
    lemma_intensity_is_offset(percent as int);
    lemma_byte_fills_channels(intensity_of(percent as int) as u32);
}

/// Quantizes a light level to an intensity.
///
/// The result is not held to a byte: a level below -191 gives more than 255,
/// and a level of 64 or more gives 0.
pub fn gray_level(level: Option<i64>) -> (v: u32)
    ensures
        v == intensity(level),
{
    match level {
        None => 0,
        Some(percent) => {
            proof {
                lemma_intensity_is_offset(percent as int);
            }
            if percent >= 64 {
                0
            } else if percent <= 64 - 0xffff_ffff {
                u32::MAX
            } else {
                (64 - percent) as u32
            }
        },
    }
}

/// Packs one intensity into all three channels of a colour word.
///
/// Nothing is clamped: an intensity above 255 spills into the neighbouring
/// channels and loses what is shifted past bit 31.
pub fn pack_gray(v: u32) -> (color: u32)
    ensures
        color == packed(v),
{
    (v << 16) | (v << 8) | v
}

/// The packed colour of a pixel, from its light level.
pub fn pixel_color(level: Option<i64>) -> (color: u32)
    ensures
        color == color_of(level),
{
    pack_gray(gray_level(level))
}

} // verus!
