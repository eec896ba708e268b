//! The plain-text PPM image format (`P3`): a header giving the dimensions and
//! the largest channel value, then one line per pixel in raster order, each
//! holding the red, green and blue values as decimal integers.

use crate::image::Rgb8;
use vstd::prelude::*;

verus! {

pub const ASCII_ZERO: u8 = 48;
pub const ASCII_TWO: u8 = 50;
pub const ASCII_THREE: u8 = 51;
pub const ASCII_FIVE: u8 = 53;
pub const ASCII_P: u8 = 80;
pub const SPACE: u8 = 32;
pub const NEWLINE: u8 = 10;

/// The decimal digits of `n`, most significant first, with no leading zeros.
pub open spec fn decimal(n: nat) -> Seq<u8>
    decreases n,
{
    if n < 10 {
        seq![(ASCII_ZERO + n) as u8]
    } else {
        decimal(n / 10).push((ASCII_ZERO + n % 10) as u8)
    }
}

/// `P3`, the width and height separated by a space, and the largest channel
/// value 255, each on a line of its own.
pub open spec fn header(width: nat, height: nat) -> Seq<u8> {
    seq![ASCII_P, ASCII_THREE, NEWLINE] + decimal(width) + seq![SPACE] + decimal(height) + seq![
        NEWLINE,
        ASCII_TWO,
        ASCII_FIVE,
        ASCII_FIVE,
        NEWLINE,
    ]
}

/// One pixel: its three channels separated by spaces, ended by a newline.
pub open spec fn pixel_line(p: Rgb8) -> Seq<u8> {
    decimal(p.r as nat) + seq![SPACE] + decimal(p.g as nat) + seq![SPACE] + decimal(p.b as nat)
        + seq![NEWLINE]
}

/// The lines of all pixels, in the order given.
pub open spec fn pixel_lines(pixels: Seq<Rgb8>) -> Seq<u8>
    decreases pixels.len(),
{
    if pixels.len() == 0 {
        Seq::empty()
    } else {
        pixel_lines(pixels.drop_last()) + pixel_line(pixels.last())
    }
}

/// A whole image file.
pub open spec fn ppm(width: nat, height: nat, pixels: Seq<Rgb8>) -> Seq<u8> {
    header(width, height) + pixel_lines(pixels)
}

/// Appends the decimal digits of `n`.
pub fn push_decimal(out: &mut Vec<u8>, n: u32)
    ensures
        final(out)@ == old(out)@ + decimal(n as nat),
    decreases n,
{
    if n >= 10 {
        push_decimal(out, n / 10);
    }
    out.push(ASCII_ZERO + (n % 10) as u8);
    assert(final(out)@ =~= old(out)@ + decimal(n as nat));
}

/// Appends the header of an image of the given dimensions.
pub fn push_header(out: &mut Vec<u8>, width: u32, height: u32)
    ensures
        final(out)@ == old(out)@ + header(width as nat, height as nat),
{
    out.push(ASCII_P);
    out.push(ASCII_THREE);
    out.push(NEWLINE);
    push_decimal(out, width);
    out.push(SPACE);
    push_decimal(out, height);
    out.push(NEWLINE);
    out.push(ASCII_TWO);
    out.push(ASCII_FIVE);
    out.push(ASCII_FIVE);
    out.push(NEWLINE);
    assert(final(out)@ =~= old(out)@ + header(width as nat, height as nat));
}

/// Appends the line of one pixel.
pub fn push_pixel_line(out: &mut Vec<u8>, p: Rgb8)
    ensures
        final(out)@ == old(out)@ + pixel_line(p),
{
    push_decimal(out, p.r as u32);
    out.push(SPACE);
    push_decimal(out, p.g as u32);
    out.push(SPACE);
    push_decimal(out, p.b as u32);
    out.push(NEWLINE);
    assert(final(out)@ =~= old(out)@ + pixel_line(p));
}

} // verus!
