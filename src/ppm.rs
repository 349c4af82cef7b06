//! The plain-text image format: a `P3` header, the size, the channel maximum,
//! then one line of three decimal channels per pixel.

use vstd::prelude::*;

verus! {

/// One pixel of the written image: three 8-bit channels.
#[derive(Clone, Copy, Debug, PartialEq, Eq, Structural)]
pub struct Pixel {
    pub r: u8,
    pub g: u8,
    pub b: u8,
}

/// The ASCII code of the digit `d`.
pub open spec fn digit(d: nat) -> u8
    recommends
        d < 10,
{
    (0x30 + d) as u8
}

/// The decimal text of `n`, without leading zeros.
pub open spec fn decimal(n: nat) -> Seq<u8>
    decreases n,
{
    if n < 10 {
        seq![digit(n)]
    } else {
        decimal(n / 10).push(digit(n % 10))
    }
}

/// `P3`, then the width and height on one line, then the channel maximum 255,
/// each line ended by a newline.
pub open spec fn header_text(w: nat, h: nat) -> Seq<u8> {
    seq![0x50u8, 0x33u8, 0x0Au8] + decimal(w) + seq![0x20u8] + decimal(h) + seq![0x0Au8]
        + seq![0x32u8, 0x35u8, 0x35u8, 0x0Au8]
}

/// The line of one pixel: its channels in decimal, apart by single spaces.
pub open spec fn pixel_text(p: Pixel) -> Seq<u8> {
    decimal(p.r as nat) + seq![0x20u8] + decimal(p.g as nat) + seq![0x20u8] + decimal(
        p.b as nat,
    ) + seq![0x0Au8]
}

/// The lines of the pixels, in their order.
pub open spec fn pixels_text(ps: Seq<Pixel>) -> Seq<u8>
    decreases ps.len(),
{
    if ps.len() == 0 {
        Seq::empty()
    } else {
        pixels_text(ps.drop_last()) + pixel_text(ps.last())
    }
}

/// The whole image.
pub open spec fn image_text(w: nat, h: nat, ps: Seq<Pixel>) -> Seq<u8> {
    header_text(w, h) + pixels_text(ps)
}

/// The number of newline bytes in `s`: its number of lines when it ends in one.
pub open spec fn line_count(s: Seq<u8>) -> nat
    decreases s.len(),
{
    if s.len() == 0 {
        0
    } else {
        line_count(s.drop_last()) + if s.last() == 0x0Au8 {
            1nat
        } else {
            0nat
        }
    }
}

/// Appends the decimal text of `n`.
fn push_decimal(out: &mut Vec<u8>, n: u32)
    ensures
        final(out)@ == old(out)@ + decimal(n as nat),
    decreases n,
{
    if n < 10 {
        out.push(0x30u8 + n as u8);
    } else {
        push_decimal(out, n / 10);
        out.push(0x30u8 + (n % 10) as u8);
    }
    proof {
        assert(out@ =~= old(out)@ + decimal(n as nat));
    }
}

/// The header of a `w` by `h` image.
pub fn header(w: u32, h: u32) -> (r: Vec<u8>)
    ensures
        r@ == header_text(w as nat, h as nat),
{
    let mut out: Vec<u8> = Vec::new();
    out.push(0x50u8);
    out.push(0x33u8);
    out.push(0x0Au8);
    push_decimal(&mut out, w);
    out.push(0x20u8);
    push_decimal(&mut out, h);
    out.push(0x0Au8);
    out.push(0x32u8);
    out.push(0x35u8);
    out.push(0x35u8);
    out.push(0x0Au8);
    assert(out@ =~= header_text(w as nat, h as nat));
    out
}

/// Appends the line of one pixel.
pub fn push_pixel(out: &mut Vec<u8>, p: Pixel)
    ensures
        final(out)@ == old(out)@ + pixel_text(p),
{
    push_decimal(out, p.r as u32);
    out.push(0x20u8);
    push_decimal(out, p.g as u32);
    out.push(0x20u8);
    push_decimal(out, p.b as u32);
    out.push(0x0Au8);
    assert(out@ =~= old(out)@ + pixel_text(p));
}

/// The text of a `w` by `h` image whose pixels, row after row, are `pixels`.
pub fn encode(w: u32, h: u32, pixels: &Vec<Pixel>) -> (r: Vec<u8>)
    requires
        pixels@.len() == w * h,
    ensures
        r@ == image_text(w as nat, h as nat, pixels@),
{
    let mut out = header(w, h);
    let mut i: usize = 0;
    while i < pixels.len()
        invariant
            i <= pixels@.len(),
            out@ == header_text(w as nat, h as nat) + pixels_text(pixels@.take(i as int)),
        decreases pixels@.len() - i,
    {
        push_pixel(&mut out, pixels[i]);
        proof {
            let next = pixels@.take(i + 1);
            assert(next.drop_last() =~= pixels@.take(i as int));
            assert(next.last() == pixels@[i as int]);
        }
        i = i + 1;
    }
    assert(pixels@.take(i as int) =~= pixels@);
    out
}

/// The text of the sky-gradient test image: `w` by `h`, twice as wide as
/// high, at least 100 by 50, with the pixels given row after row.
pub fn create_blue_gradient_background(w: i32, h: i32, pixels: &Vec<Pixel>) -> (r: Vec<u8>)
    requires
        w / h == 2,
        w >= 100,
        h >= 50,
        pixels@.len() == w * h,
    ensures
        r@ == image_text(w as nat, h as nat, pixels@),
{
    encode(w as u32, h as u32, pixels)
}

/// Lines add up over concatenation.
pub proof fn lemma_line_count_concat(a: Seq<u8>, b: Seq<u8>)
    ensures
        line_count(a + b) == line_count(a) + line_count(b),
    decreases b.len(),
{
    if b.len() == 0 {
        assert(a + b =~= a);
    } else {
        lemma_line_count_concat(a, b.drop_last());
        assert((a + b).drop_last() =~= a + b.drop_last());
    }
}

/// Decimal text holds no newline.
pub proof fn lemma_decimal_has_no_line(n: nat)
    ensures
        line_count(decimal(n)) == 0,
    decreases n,
{
    if n < 10 {
        assert(seq![digit(n)].drop_last() =~= Seq::<u8>::empty());
        assert(line_count(decimal(n)) == 0) by {
            reveal_with_fuel(line_count, 2);
        }
    } else {
        lemma_decimal_has_no_line(n / 10);
        assert(decimal(n).drop_last() =~= decimal(n / 10));
        assert(decimal(n).last() == digit(n % 10));
    }
}

proof fn lemma_one_byte(c: u8)
    ensures
        line_count(seq![c]) == if c == 0x0Au8 {
            1nat
        } else {
            0nat
        },
{
    assert(seq![c].drop_last() =~= Seq::<u8>::empty());
    reveal_with_fuel(line_count, 2);
}

/// A pixel takes exactly one line.
pub proof fn lemma_pixel_is_one_line(p: Pixel)
    ensures
        line_count(pixel_text(p)) == 1,
{
    let r = decimal(p.r as nat);
    let g = decimal(p.g as nat);
    let b = decimal(p.b as nat);
    let sp = seq![0x20u8];
    let nl = seq![0x0Au8];
    lemma_decimal_has_no_line(p.r as nat);
    lemma_decimal_has_no_line(p.g as nat);
    lemma_decimal_has_no_line(p.b as nat);
    lemma_one_byte(0x20u8);
    lemma_one_byte(0x0Au8);
    lemma_line_count_concat(r, sp);
    lemma_line_count_concat(r + sp, g);
    lemma_line_count_concat(r + sp + g, sp);
    lemma_line_count_concat(r + sp + g + sp, b);
    lemma_line_count_concat(r + sp + g + sp + b, nl);
}

/// The header takes exactly three lines.
pub proof fn lemma_header_is_three_lines(w: nat, h: nat)
    ensures
        line_count(header_text(w, h)) == 3,
{
    let p3 = seq![0x50u8, 0x33u8, 0x0Au8];
    let dw = decimal(w);
    let dh = decimal(h);
    let sp = seq![0x20u8];
    let nl = seq![0x0Au8];
    let mx = seq![0x32u8, 0x35u8, 0x35u8, 0x0Au8];
    lemma_decimal_has_no_line(w);
    lemma_decimal_has_no_line(h);
    lemma_one_byte(0x20u8);
    lemma_one_byte(0x0Au8);
    assert(p3.drop_last().drop_last().drop_last() =~= Seq::<u8>::empty());
    assert(mx.drop_last().drop_last().drop_last().drop_last() =~= Seq::<u8>::empty());
    assert(line_count(p3) == 1) by {
        reveal_with_fuel(line_count, 4);
    }
    assert(line_count(mx) == 1) by {
        reveal_with_fuel(line_count, 5);
    }
    lemma_line_count_concat(p3, dw);
    lemma_line_count_concat(p3 + dw, sp);
    lemma_line_count_concat(p3 + dw + sp, dh);
    lemma_line_count_concat(p3 + dw + sp + dh, nl);
    lemma_line_count_concat(p3 + dw + sp + dh + nl, mx);
}

/// Each pixel adds one line.
pub proof fn lemma_pixels_lines(ps: Seq<Pixel>)
    ensures
        line_count(pixels_text(ps)) == ps.len(),
    decreases ps.len(),
{
    if ps.len() > 0 {
        lemma_pixels_lines(ps.drop_last());
        lemma_pixel_is_one_line(ps.last());
        lemma_line_count_concat(pixels_text(ps.drop_last()), pixel_text(ps.last()));
    }
}

/// An encoded `w` by `h` image has exactly `3 + w * h` lines: three of header,
/// one per pixel.
pub proof fn lemma_image_line_count(w: nat, h: nat, ps: Seq<Pixel>)
    requires
        ps.len() == w * h,
    ensures
        line_count(image_text(w, h, ps)) == 3 + w * h,
{
    lemma_header_is_three_lines(w, h);
    lemma_pixels_lines(ps);
    lemma_line_count_concat(header_text(w, h), pixels_text(ps));
}

} // verus!
