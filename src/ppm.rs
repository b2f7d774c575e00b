//! Plain-text PPM ("P3") encoding.
//!
//! An image is written as a header line `P3`, a line `<width> <height>`, a
//! line `255`, and then one line per pixel holding its three channels as
//! space-separated decimal integers.
use vstd::prelude::*;

verus! {

/// An 8-bit-per-channel colour, as written to the image.
#[derive(Clone, Copy, Debug, PartialEq, Eq, Structural)]
pub struct Rgb8 {
    pub r: u8,
    pub g: u8,
    pub b: u8,
}

/// The ASCII code of the decimal digit `d`.
pub open spec fn digit(d: nat) -> u8
    recommends
        d < 10,
{
    (48 + d) as u8
}

/// The decimal text of `n`, most significant digit first, without leading zeros.
pub open spec fn decimal(n: nat) -> Seq<u8>
    decreases n,
{
    if n < 10 {
        seq![digit(n)]
    } else {
        decimal(n / 10).push(digit(n % 10))
    }
}

/// The number that a string of decimal digits denotes.
pub open spec fn digits_value(s: Seq<u8>) -> nat
    decreases s.len(),
{
    if s.len() == 0 {
        0
    } else {
        10 * digits_value(s.drop_last()) + (s.last() - 48) as nat
    }
}

pub open spec fn is_digit(c: u8) -> bool {
    48 <= c <= 57
}

/// The header of a P3 image of the given size.
pub open spec fn header(width: nat, height: nat) -> Seq<u8> {
    seq![80u8, 51u8, 10u8] + decimal(width) + seq![32u8] + decimal(height) + seq![
        10u8,
        50u8,
        53u8,
        53u8,
        10u8,
    ]
}

/// The text line of one pixel: `r g b` and a line feed.
pub open spec fn pixel_line(p: Rgb8) -> Seq<u8> {
    decimal(p.r as nat) + seq![32u8] + decimal(p.g as nat) + seq![32u8] + decimal(p.b as nat)
        + seq![10u8]
}

/// The pixel lines of `pixels`, in order.
pub open spec fn pixel_lines(pixels: Seq<Rgb8>) -> Seq<u8>
    decreases pixels.len(),
{
    if pixels.len() == 0 {
        Seq::empty()
    } else {
        pixel_lines(pixels.drop_last()) + pixel_line(pixels.last())
    }
}

/// The whole P3 text of an image whose pixels are listed row by row.
pub open spec fn ppm(width: nat, height: nat, pixels: Seq<Rgb8>) -> Seq<u8> {
    header(width, height) + pixel_lines(pixels)
}

/// The decimal text of `n` is a non-empty string of digits that denotes `n`.
pub proof fn lemma_decimal_denotes(n: nat)
    ensures
        decimal(n).len() >= 1,
        forall|k: int| 0 <= k < decimal(n).len() ==> is_digit(#[trigger] decimal(n)[k]),
        digits_value(decimal(n)) == n,
    decreases n,
{
    if n >= 10 {
        lemma_decimal_denotes(n / 10);
        let s = decimal(n);
        assert(s.drop_last() =~= decimal(n / 10));
        assert(s.last() as int == 48 + n % 10);
    } else {
        assert(decimal(n).drop_last() =~= Seq::<u8>::empty());
        assert(digits_value(Seq::<u8>::empty()) == 0);
    }
}

/// A channel is written as one to three digits that denote its value, so every
/// number in a pixel line is an integer in `[0, 255]`.
pub proof fn lemma_channel_text(c: u8)
    ensures
        1 <= decimal(c as nat).len() <= 3,
        forall|k: int| 0 <= k < decimal(c as nat).len() ==> is_digit(#[trigger] decimal(c as nat)[k]),
        digits_value(decimal(c as nat)) == c as nat,
        c as nat <= 255,
{
    lemma_decimal_denotes(c as nat);
    let n = c as nat;
    if n >= 10 {
        if n >= 100 {
            assert(n / 10 / 10 < 10);
            assert(decimal(n / 10 / 10).len() == 1);
        }
        assert(decimal(n / 10).len() <= 2);
    }
}

/// Appends the decimal text of `n` to `out`.
pub fn push_decimal(out: &mut Vec<u8>, n: u32)
    ensures
        final(out)@ == old(out)@ + decimal(n as nat),
    decreases n,
{
    if n >= 10 {
        push_decimal(out, n / 10);
    }
    out.push(48u8 + (n % 10) as u8);
    assert(final(out)@ =~= old(out)@ + decimal(n as nat));
}

/// Appends the header of a `width` by `height` P3 image to `out`.
pub fn push_header(out: &mut Vec<u8>, width: u32, height: u32)
    ensures
        final(out)@ == old(out)@ + header(width as nat, height as nat),
{
    out.push(80u8);
    out.push(51u8);
    out.push(10u8);
    push_decimal(out, width);
    out.push(32u8);
    push_decimal(out, height);
    out.push(10u8);
    out.push(50u8);
    out.push(53u8);
    out.push(53u8);
    out.push(10u8);
    assert(final(out)@ =~= old(out)@ + header(width as nat, height as nat));
}

/// Appends the text line of one pixel to `out`.
pub fn push_pixel(out: &mut Vec<u8>, p: Rgb8)
    ensures
        final(out)@ == old(out)@ + pixel_line(p),
{
    push_decimal(out, p.r as u32);
    out.push(32u8);
    push_decimal(out, p.g as u32);
    out.push(32u8);
    push_decimal(out, p.b as u32);
    out.push(10u8);
    assert(final(out)@ =~= old(out)@ + pixel_line(p));
}

} // verus!
