//! Plain-text PPM (`P3`) encoding of 8-bit RGB pixels.

use vstd::prelude::*;

verus! {

/// An 8-bit-per-channel color, as written to a PPM file.
#[derive(Clone, Copy, Debug, PartialEq, Eq, Structural)]
pub struct Rgb {
    pub r: u8,
    pub g: u8,
    pub b: u8,
}

impl Rgb {
    pub fn new(r: u8, g: u8, b: u8) -> (c: Rgb)
        ensures
            c == (Rgb { r, g, b }),
    {
        Rgb { r, g, b }
    }
}

pub open spec fn ascii_digit(d: nat) -> u8 {
    (48 + d) as u8
}

/// The shortest decimal spelling of `n`, as ASCII bytes.
pub open spec fn decimal(n: nat) -> Seq<u8>
    decreases n,
{
    if n < 10 {
        seq![ascii_digit(n)]
    } else {
        decimal(n / 10) + seq![ascii_digit(n % 10)]
    }
}

pub open spec fn space() -> Seq<u8> {
    seq![32u8]
}

pub open spec fn newline() -> Seq<u8> {
    seq![10u8]
}

/// `P3\n<width> <height>\n255\n`
pub open spec fn header(width: nat, height: nat) -> Seq<u8> {
    seq![80u8, 51u8] + newline() + decimal(width) + space() + decimal(height) + newline()
        + decimal(255) + newline()
}

/// `<r> <g> <b>\n`
pub open spec fn pixel_line(c: Rgb) -> Seq<u8> {
    decimal(c.r as nat) + space() + decimal(c.g as nat) + space() + decimal(c.b as nat)
        + newline()
}

/// One line per pixel, in order.
pub open spec fn pixel_lines(px: Seq<Rgb>) -> Seq<u8>
    decreases px.len(),
{
    if px.len() == 0 {
        Seq::empty()
    } else {
        pixel_lines(px.drop_last()) + pixel_line(px.last())
    }
}

/// A whole PPM file: header, then the pixels in row-major order.
pub open spec fn ppm_file(width: nat, height: nat, px: Seq<Rgb>) -> Seq<u8> {
    header(width, height) + pixel_lines(px)
}

/// Appends the decimal spelling of `n`.
pub fn push_decimal(out: &mut Vec<u8>, n: u32)
    ensures
        final(out)@ == old(out)@ + decimal(n as nat),
    decreases n,
{
    if n >= 10 {
        push_decimal(out, n / 10);
    }
    out.push(48u8 + (n % 10) as u8);
    proof {
        assert(old(out)@ + decimal(n as nat) =~= final(out)@);
    }
}

/// Appends the `P3` header for a `width` by `height` image with channel maximum 255.
pub fn push_header(out: &mut Vec<u8>, width: u32, height: u32)
    ensures
        final(out)@ == old(out)@ + header(width as nat, height as nat),
{
    out.push(80u8);
    out.push(51u8);
    out.push(10u8);
    push_decimal(out, width);
    out.push(32u8);
    push_decimal(out, height);
    out.push(10u8);
    push_decimal(out, 255);
    out.push(10u8);
    proof {
        assert(final(out)@ =~= old(out)@ + header(width as nat, height as nat));
    }
}

/// Appends the line `<r> <g> <b>` of one pixel.
pub fn push_pixel(out: &mut Vec<u8>, c: Rgb)
    ensures
        final(out)@ == old(out)@ + pixel_line(c),
{
    push_decimal(out, c.r as u32);
    out.push(32u8);
    push_decimal(out, c.g as u32);
    out.push(32u8);
    push_decimal(out, c.b as u32);
    out.push(10u8);
    proof {
        assert(final(out)@ =~= old(out)@ + pixel_line(c));
    }
}

/// Appends one line per pixel, in the order given.
pub fn push_pixels(out: &mut Vec<u8>, px: &Vec<Rgb>)
    ensures
        final(out)@ == old(out)@ + pixel_lines(px@),
{
    let ghost start = out@;
    let mut k: usize = 0;
    while k < px.len()
        invariant
            k <= px.len(),
            out@ == start + pixel_lines(px@.subrange(0, k as int)),
        decreases px.len() - k,
    {
        push_pixel(out, px[k]);
        proof {
            let pre = px@.subrange(0, k as int);
            let next = px@.subrange(0, k + 1);
            assert(next.drop_last() =~= pre);
            assert(next.last() == px@[k as int]);
            assert(out@ =~= start + pixel_lines(next));
        }
        k = k + 1;
    }
    proof {
        assert(px@.subrange(0, px@.len() as int) =~= px@);
    }
}

/// The bytes of a whole PPM file holding `px` as a `width` by `height` image.
pub fn encode_ppm(width: u32, height: u32, px: &Vec<Rgb>) -> (r: Vec<u8>)
    ensures
        r@ == ppm_file(width as nat, height as nat, px@),
{
    let mut out: Vec<u8> = Vec::new();
    push_header(&mut out, width, height);
    push_pixels(&mut out, px);
    proof {
        assert(out@ =~= ppm_file(width as nat, height as nat, px@));
    }
    out
}

} // verus!
